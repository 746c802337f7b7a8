use ncl::errors::Error;
use ncl::model::arguments::{
    rules_allow, Argument, Arguments, EvalContext, OsCondition, OsContext, OsName, Rule, RuleAction,
};
use ncl::model::assets::AssetObject;
use ncl::model::java::JavaVersionRequirement;
use ncl::model::library::{maven_ga, ArtifactInfo, Library, LibraryDownloads};
use ncl::model::version::{
    merge_libraries, DownloadInfo, MainDownloads, RawVersion, VersionType,
};
use ncl::model::assets::AssetIndexInfo;

fn ctx_linux() -> EvalContext {
    EvalContext {
        os: OsContext { name: OsName::Linux, arch: "x86_64".into(), version: "linux".into() },
        features: Vec::new(),
    }
}

fn ctx_windows() -> EvalContext {
    EvalContext {
        os: OsContext { name: OsName::Windows, arch: "x86_64".into(), version: "windows".into() },
        features: Vec::new(),
    }
}

fn rule(action: RuleAction, os: Option<OsName>) -> Rule {
    Rule {
        action,
        os: os.map(|n| OsCondition { name: Some(n), arch: None, version: None }),
        features: None,
    }
}

#[test]
fn empty_rules_allow() {
    assert!(rules_allow(&vec![], &ctx_linux()));
}

#[test]
fn allow_only_when_os_matches() {
    let rs = vec![rule(RuleAction::Allow, Some(OsName::Linux))];
    assert!(rules_allow(&rs, &ctx_linux()));
    assert!(!rules_allow(&rs, &ctx_windows()));
}

#[test]
fn allow_then_disallow_overrides() {
    let rs = vec![rule(RuleAction::Allow, None), rule(RuleAction::Disallow, Some(OsName::Linux))];
    assert!(!rules_allow(&rs, &ctx_linux()));
    assert!(rules_allow(&rs, &ctx_windows()));
}

#[test]
fn feature_gate() {
    let rule = Rule {
        action: RuleAction::Allow,
        os: None,
        features: Some(vec![("is_demo_user".to_string(), true)]),
    };
    let ctx_no = ctx_linux();
    let ctx_yes = ctx_linux().with_feature("is_demo_user", true);
    assert!(!rules_allow(&vec![rule.clone()], &ctx_no));
    assert!(rules_allow(&vec![rule], &ctx_yes));
}

#[test]
fn later_matching_rule_decides() {
    // Allow everywhere, disallow on Linux, allow again on Linux: the last match wins.
    let rs = vec![
        rule(RuleAction::Allow, None),
        rule(RuleAction::Disallow, Some(OsName::Linux)),
        rule(RuleAction::Allow, Some(OsName::Linux)),
    ];
    assert!(rules_allow(&rs, &ctx_linux()));
    // Only disallow rules, none matching: refused.
    let rs = vec![rule(RuleAction::Disallow, Some(OsName::Osx))];
    assert!(!rules_allow(&rs, &ctx_linux()));
}

#[test]
fn feature_shadowing_keeps_latest() {
    let ctx = ctx_linux().with_feature("has_custom_resolution", false).with_feature("has_custom_resolution", true);
    let rule = Rule {
        action: RuleAction::Allow,
        os: None,
        features: Some(vec![("has_custom_resolution".to_string(), true)]),
    };
    assert!(rules_allow(&vec![rule], &ctx));
}

#[test]
fn asset_path_and_url() {
    let obj = AssetObject { hash: "a9993e364706816aba3e25717850c26c9cd0d89d".to_string(), size: 3 };
    assert_eq!(obj.relative_path(), "a9/a9993e364706816aba3e25717850c26c9cd0d89d");
    assert_eq!(
        obj.official_url(),
        "https://resources.download.minecraft.net/a9/a9993e364706816aba3e25717850c26c9cd0d89d"
    );
}

#[test]
fn maven_ga_strips_version() {
    assert_eq!(maven_ga("a.b:c:1.2.3"), "a.b:c");
    assert_eq!(maven_ga("a.b:c:1.2.3:natives-windows"), "a.b:c");
    assert_eq!(maven_ga("only-one"), "only-one");
    assert_eq!(maven_ga("a:b"), "a:b");
}

fn artifact() -> ArtifactInfo {
    ArtifactInfo { path: "p".into(), sha1: "s".into(), size: 1, url: "u".into() }
}

fn lib(name: &str, rules: Vec<Rule>) -> Library {
    Library {
        name: name.to_string(),
        downloads: Some(LibraryDownloads { artifact: Some(artifact()), classifiers: None }),
        natives: None,
        extract: None,
        rules,
        url: None,
    }
}

fn empty_raw(id: &str) -> RawVersion {
    RawVersion {
        id: id.to_string(),
        kind: None,
        main_class: None,
        asset_index: None,
        assets: None,
        downloads: None,
        libraries: Vec::new(),
        arguments: None,
        minecraft_arguments: None,
        java_version: None,
        inherits_from: None,
        release_time: None,
        time: None,
        minimum_launcher_version: None,
    }
}

fn vanilla() -> RawVersion {
    let mut v = empty_raw("1.21.1");
    v.kind = Some(VersionType::Release);
    v.main_class = Some("net.minecraft.client.main.Main".to_string());
    v.asset_index = Some(AssetIndexInfo {
        id: "16".into(),
        sha1: "0000000000000000000000000000000000000001".into(),
        size: 100,
        total_size: 1000,
        url: "https://example.com/16.json".into(),
    });
    v.downloads = Some(MainDownloads {
        client: Some(DownloadInfo {
            sha1: "0000000000000000000000000000000000000002".into(),
            size: 1234,
            url: "https://example.com/client.jar".into(),
        }),
        client_mappings: None,
        server: None,
        server_mappings: None,
    });
    v.java_version = Some(JavaVersionRequirement { component: "java-runtime-delta".into(), major_version: 21 });
    v.libraries = vec![
        lib("org.lwjgl:lwjgl:3.3.3", vec![]),
        lib("ca.weblite:java-objc-bridge:1.1", vec![rule(RuleAction::Allow, Some(OsName::Osx))]),
    ];
    v.arguments = Some(Arguments {
        game: vec![Argument::Plain("--username".into()), Argument::Plain("${auth_player_name}".into())],
        jvm: vec![Argument::Plain("-Djava.library.path=${natives_directory}".into())],
    });
    v
}

fn loader_child() -> RawVersion {
    let mut v = empty_raw("1.21.1-fabric-0.16.0");
    v.inherits_from = Some("1.21.1".to_string());
    v.main_class = Some("net.fabricmc.loader.impl.launch.knot.KnotClient".to_string());
    v.libraries = vec![lib("org.lwjgl:lwjgl:3.3.4", vec![]), lib("net.fabricmc:fabric-loader:0.16.0", vec![])];
    v.arguments = Some(Arguments {
        game: vec![],
        jvm: vec![Argument::Plain("-DFabricMcEmu=net.minecraft.client.main.Main".into())],
    });
    v
}

fn plain(args: &[Argument]) -> Vec<String> {
    args.iter()
        .filter_map(|a| match a {
            Argument::Plain(s) => Some(s.clone()),
            Argument::Conditional { .. } => None,
        })
        .collect()
}

#[test]
fn child_overrides_main_class() {
    let merged = loader_child().merge_inherits(vanilla());
    assert_eq!(merged.main_class.as_deref(), Some("net.fabricmc.loader.impl.launch.knot.KnotClient"));
}

#[test]
fn libraries_dedupe_by_ga_child_wins() {
    let merged = loader_child().merge_inherits(vanilla());
    let lwjgls: Vec<&Library> =
        merged.libraries.iter().filter(|l| l.name.starts_with("org.lwjgl:lwjgl:")).collect();
    assert_eq!(lwjgls.len(), 1, "lwjgl deduped");
    assert_eq!(lwjgls[0].name, "org.lwjgl:lwjgl:3.3.4", "child wins");
    assert!(merged.libraries.iter().any(|l| l.name == "ca.weblite:java-objc-bridge:1.1"));
    assert!(merged.libraries.iter().any(|l| l.name == "net.fabricmc:fabric-loader:0.16.0"));
}

#[test]
fn arguments_merge_preserves_parent_then_child() {
    let merged = loader_child().merge_inherits(vanilla());
    let args = merged.arguments.expect("has arguments");
    assert_eq!(
        plain(&args.jvm),
        vec!["-Djava.library.path=${natives_directory}", "-DFabricMcEmu=net.minecraft.client.main.Main"]
    );
    assert_eq!(plain(&args.game), vec!["--username", "${auth_player_name}"]);
}

#[test]
fn into_resolved_succeeds_after_merge() {
    let merged = loader_child().merge_inherits(vanilla());
    let resolved = merged
        .into_resolved(vec!["1.21.1-fabric-0.16.0".to_string(), "1.21.1".to_string()])
        .expect("resolved");
    assert_eq!(resolved.id, "1.21.1-fabric-0.16.0");
    assert_eq!(resolved.kind, VersionType::Release);
    assert_eq!(resolved.java_version.major_version, 21);
    assert_eq!(resolved.inherits_chain.len(), 2);
}

#[test]
fn into_resolved_fails_without_main_class() {
    let mut raw = vanilla();
    raw.main_class = None;
    let res = raw.into_resolved(vec!["x".to_string()]);
    assert!(res.is_err());
    match res {
        Err(Error::Config(m)) => assert_eq!(m, "manifest missing mainClass"),
        _ => panic!("expected a config error"),
    }
}

#[test]
fn into_resolved_reports_missing_asset_index_and_downloads() {
    let mut raw = vanilla();
    raw.asset_index = None;
    match raw.into_resolved(vec!["x".to_string()]) {
        Err(Error::Config(m)) => assert_eq!(m, "manifest missing assetIndex"),
        _ => panic!("expected a config error"),
    }
    let mut raw = vanilla();
    raw.downloads = None;
    match raw.into_resolved(vec!["x".to_string()]) {
        Err(Error::Config(m)) => assert_eq!(m, "manifest missing downloads"),
        _ => panic!("expected a config error"),
    }
}

#[test]
fn vanilla_alone_resolves_without_parent() {
    let raw = vanilla();
    assert!(raw.inherits_from.is_none());
    let resolved = raw.into_resolved(vec!["1.21.1".to_string()]).unwrap();
    assert_eq!(resolved.main_class, "net.minecraft.client.main.Main");
    assert_eq!(resolved.libraries.len(), 2);
}

#[test]
fn merge_libraries_keeps_parent_order_then_child() {
    let parent = vec![lib("a:x:1", vec![]), lib("b:y:1", vec![]), lib("a:x:1", vec![])];
    let child = vec![lib("b:y:2", vec![]), lib("c:z:1", vec![])];
    let merged = merge_libraries(parent, child);
    let names: Vec<&str> = merged.iter().map(|l| l.name.as_str()).collect();
    assert_eq!(names, vec!["a:x:1", "b:y:2", "c:z:1"]);
}

#[test]
fn java_requirement_default_and_check() {
    let req = JavaVersionRequirement::default();
    assert_eq!(req.major_version, 8);
    assert!(req.is_satisfied_by(8));
    assert!(req.is_satisfied_by(17));
    assert!(!req.is_satisfied_by(7));
}

#[test]
fn error_messages() {
    assert_eq!(Error::Config("x".into()).message(), "config error: x");
    assert_eq!(
        Error::ChecksumMismatch { expected: "a".into(), actual: "b".into() }.message(),
        "checksum mismatch (expected=a, actual=b)"
    );
    assert_eq!(Error::io("/p".into(), "denied".into()).message(), "I/O at /p: denied");
    assert_eq!(Error::HttpClient { url: "u".into(), status: 404 }.message(), "client error (HTTP 404): u");
}
