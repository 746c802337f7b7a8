use ncl::errors::Error;
use ncl::model::arguments::{EvalContext, OsCondition, OsContext, OsName, Rule, RuleAction};
use ncl::model::assets::{AssetIndex, AssetObject};
use ncl::model::library::{ArtifactInfo, ExtractRules, Library, LibraryDownloads};
use ncl::model::arguments::Arguments;
use ncl::model::assets::AssetIndexInfo;
use ncl::model::java::JavaVersionRequirement;
use ncl::model::version::{
    DownloadInfo, LatestVersions, MainDownloads, RawVersion, ResolvedManifest, VersionList, VersionListEntry,
    VersionType,
};
use ncl::paths::PathLayout;
use ncl::vanilla::install::plan_install;
use ncl::vanilla::library::{library_artifacts, ArtifactKind};
use ncl::vanilla::manifest::{inherit_parent, next_inherit_step, InheritStep, VERSION_MANIFEST_URL};
use ncl::vanilla::paths::InstallPaths;

fn ctx(name: OsName) -> EvalContext {
    EvalContext { os: OsContext { name, arch: "x86_64".into(), version: "".into() }, features: vec![] }
}

fn linux_ctx() -> EvalContext {
    ctx(OsName::Linux)
}

fn windows_ctx() -> EvalContext {
    ctx(OsName::Windows)
}

fn library_new_format_native() -> Library {
    Library {
        name: "org.lwjgl:lwjgl:3.3.3:natives-windows".into(),
        downloads: Some(LibraryDownloads {
            artifact: Some(ArtifactInfo {
                path: "org/lwjgl/lwjgl/3.3.3/lwjgl-3.3.3-natives-windows.jar".into(),
                sha1: "abc".into(),
                size: 100,
                url: "https://example.com/lwjgl-natives-win.jar".into(),
            }),
            classifiers: None,
        }),
        natives: None,
        extract: Some(ExtractRules { exclude: vec!["META-INF/".into()] }),
        rules: vec![],
        url: None,
    }
}

fn library_old_format_native() -> Library {
    let natives = vec![
        ("windows".to_string(), "natives-windows".to_string()),
        ("linux".to_string(), "natives-linux".to_string()),
    ];
    let classifiers = vec![
        (
            "natives-windows".to_string(),
            ArtifactInfo { path: "old-style-windows.jar".into(), sha1: "win".into(), size: 1, url: "win-url".into() },
        ),
        (
            "natives-linux".to_string(),
            ArtifactInfo { path: "old-style-linux.jar".into(), sha1: "linux".into(), size: 1, url: "linux-url".into() },
        ),
    ];
    Library {
        name: "old:lib:1.0".into(),
        downloads: Some(LibraryDownloads { artifact: None, classifiers: Some(classifiers) }),
        natives: Some(natives),
        extract: None,
        rules: vec![],
        url: None,
    }
}

#[test]
fn new_format_native_marked_as_native() {
    let arts = library_artifacts(&library_new_format_native(), &windows_ctx(), "/libs");
    assert_eq!(arts.len(), 1);
    assert!(matches!(arts[0].kind, ArtifactKind::Native { .. }));
    assert!(arts[0].target.ends_with("org/lwjgl/lwjgl/3.3.3/lwjgl-3.3.3-natives-windows.jar"));
}

#[test]
fn old_format_picks_correct_classifier_per_os() {
    let lib = library_old_format_native();
    let win = library_artifacts(&lib, &windows_ctx(), "/libs");
    assert_eq!(win.len(), 1);
    assert_eq!(win[0].sha1, "win");
    assert!(matches!(win[0].kind, ArtifactKind::Native { .. }));
    let lnx = library_artifacts(&lib, &linux_ctx(), "/libs");
    assert_eq!(lnx.len(), 1);
    assert_eq!(lnx[0].sha1, "linux");
}

#[test]
fn rules_disallowed_returns_empty() {
    let mut lib = library_new_format_native();
    lib.rules = vec![Rule {
        action: RuleAction::Allow,
        os: Some(OsCondition { name: Some(OsName::Osx), arch: None, version: None }),
        features: None,
    }];
    let arts = library_artifacts(&lib, &windows_ctx(), "/libs");
    assert!(arts.is_empty());
}

#[test]
fn plain_library_yields_one_artifact() {
    let lib = Library {
        name: "ca.weblite:java-objc-bridge:1.1".into(),
        downloads: Some(LibraryDownloads {
            artifact: Some(ArtifactInfo {
                path: "ca/weblite/java-objc-bridge/1.1/java-objc-bridge-1.1.jar".into(),
                sha1: "deadbeef".into(),
                size: 42,
                url: "https://example.com/x.jar".into(),
            }),
            classifiers: None,
        }),
        natives: None,
        extract: None,
        rules: vec![],
        url: None,
    };
    let arts = library_artifacts(&lib, &linux_ctx(), "/libs");
    assert_eq!(arts.len(), 1);
    assert!(matches!(arts[0].kind, ArtifactKind::Library));
    assert_eq!(arts[0].target, "/libs/ca/weblite/java-objc-bridge/1.1/java-objc-bridge-1.1.jar");
}

#[test]
fn paths_are_correctly_derived() {
    let layout = PathLayout::with_root("/tmp/ncl".into());
    let paths = InstallPaths::new(&layout, "my-instance".into(), "1.21.1".into());
    assert!(paths.game_dir.ends_with("instances/my-instance/.minecraft"));
    assert!(paths.version_dir.ends_with("shared/versions/1.21.1"));
    assert!(paths.client_jar().ends_with("shared/versions/1.21.1/1.21.1.jar"));
    assert!(paths.version_json().ends_with("shared/versions/1.21.1/1.21.1.json"));
    assert!(paths.natives_dir().ends_with("shared/versions/1.21.1/natives"));
    assert!(paths.asset_index_file("16").ends_with("shared/assets/indexes/16.json"));
    let obj = AssetObject { hash: "a9993e364706816aba3e25717850c26c9cd0d89d".into(), size: 3 };
    assert_eq!(paths.asset_object(&obj), "/tmp/ncl/shared/assets/objects/a9/a9993e364706816aba3e25717850c26c9cd0d89d");
}

fn manifest_with(libs: Vec<Library>) -> ResolvedManifest {
    ResolvedManifest {
        id: "1.21.1".into(),
        kind: VersionType::Release,
        main_class: "m".into(),
        asset_index: AssetIndexInfo { id: "16".into(), sha1: "0".into(), size: 1, total_size: 1, url: "u".into() },
        downloads: MainDownloads {
            client: Some(DownloadInfo { sha1: "c0ffee".into(), size: 1, url: "https://x/client.jar".into() }),
            client_mappings: None,
            server: None,
            server_mappings: None,
        },
        libraries: libs,
        arguments: Arguments::empty(),
        minecraft_arguments: None,
        java_version: JavaVersionRequirement { component: "x".into(), major_version: 21 },
        inherits_chain: vec!["1.21.1".into()],
    }
}

#[test]
fn install_plan_orders_stages() {
    let layout = PathLayout::with_root("/r".into());
    let paths = InstallPaths::new(&layout, "i".into(), "1.21.1".into());
    let manifest = manifest_with(vec![library_new_format_native(), library_old_format_native()]);
    let index = AssetIndex {
        objects: vec![(
            "minecraft/sounds/a.ogg".to_string(),
            AssetObject { hash: "a9993e364706816aba3e25717850c26c9cd0d89d".into(), size: 3 },
        )],
    };
    let plan = plan_install(&manifest, &paths, &index, &windows_ctx());
    assert_eq!(plan.core.len(), 3);
    assert_eq!(plan.core[0].label, "client.jar 1.21.1");
    assert_eq!(plan.core[0].weight, 50);
    assert_eq!(plan.core[0].target, "/r/shared/versions/1.21.1/1.21.1.jar");
    assert_eq!(plan.core[1].label, "library org.lwjgl:lwjgl:3.3.3:natives-windows");
    assert_eq!(plan.core[1].weight, 5);
    assert_eq!(plan.core[2].sha1.as_deref(), Some("win"));
    assert_eq!(plan.natives.len(), 2);
    assert_eq!(plan.natives[0].excludes, vec!["META-INF/"]);
    assert_eq!(plan.assets.len(), 1);
    assert_eq!(plan.assets[0].label, "asset a9993e36");
    assert_eq!(plan.assets[0].weight, 1);
    assert_eq!(
        plan.assets[0].url,
        "https://resources.download.minecraft.net/a9/a9993e364706816aba3e25717850c26c9cd0d89d"
    );
}

fn raw(id: &str, parent: Option<&str>) -> RawVersion {
    RawVersion {
        id: id.into(),
        kind: None,
        main_class: None,
        asset_index: None,
        assets: None,
        downloads: None,
        libraries: vec![],
        arguments: None,
        minecraft_arguments: None,
        java_version: None,
        inherits_from: parent.map(String::from),
        release_time: None,
        time: None,
        minimum_launcher_version: None,
    }
}

fn list() -> VersionList {
    VersionList {
        latest: LatestVersions { release: "1.21.1".into(), snapshot: "s".into() },
        versions: vec![VersionListEntry {
            id: "1.21.1".into(),
            kind: VersionType::Release,
            url: "https://meta/1.21.1.json".into(),
            time: "t".into(),
            release_time: "t".into(),
            sha1: "s".into(),
            compliance_level: 1,
        }],
    }
}

#[test]
fn inherit_steps() {
    let child = raw("fabric", Some("1.21.1"));
    let mut chain = vec!["fabric".to_string()];
    match next_inherit_step(&child, &chain, &list()).unwrap() {
        InheritStep::FetchParent { parent_id, url } => {
            assert_eq!(parent_id, "1.21.1");
            assert_eq!(url, "https://meta/1.21.1.json");
            let merged = inherit_parent(child, &mut chain, parent_id, raw("1.21.1", None));
            assert_eq!(chain, vec!["fabric", "1.21.1"]);
            assert_eq!(merged.id, "fabric");
            assert!(matches!(next_inherit_step(&merged, &chain, &list()).unwrap(), InheritStep::Resolve));
        }
        _ => panic!("expected a fetch"),
    }
    match next_inherit_step(&raw("x", Some("nope")), &vec!["x".to_string()], &list()) {
        Err(Error::NotFound(m)) => assert_eq!(m, "inheritsFrom parent 'nope' not found in version manifest"),
        _ => panic!("expected not found"),
    }
    match next_inherit_step(&raw("a", Some("a")), &vec!["a".to_string()], &list()) {
        Err(Error::Config(m)) => assert_eq!(m, "circular inheritsFrom detected: chain=[\"a\"], next=a"),
        _ => panic!("expected a cycle error"),
    }
    assert!(VERSION_MANIFEST_URL.ends_with("version_manifest_v2.json"));
}
