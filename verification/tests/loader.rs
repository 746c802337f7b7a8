use ncl::errors::Error;
use ncl::loader::fabric::FabricLoader;
use ncl::loader::forge::api::{forge_installer_url, sort_newest_first, versions_newest_first, ForgeBuildEntry};
use ncl::loader::forge::install::{
    classify_installer_entry, client_processor_indices, merged_version_id, parent_version_url, processor_data,
    InstallerEntry,
};
use ncl::loader::forge::processor::{
    build_processor_classpath, parse_manifest_main_class, processor_command, resolve_processor_args,
};
use ncl::loader::forge::profile::{data_index, data_insert, maven_coord_to_path, resolve_token, DataEntry, Processor};
use ncl::loader::neoforge::{neoforge_installer_url, versions_newest_first as neo_versions};
use ncl::model::arguments::OsName;
use ncl::model::version::{LatestVersions, RawVersion, VersionList, VersionListEntry, VersionType};

fn data() -> Vec<(String, DataEntry)> {
    vec![
        (
            "MC_SLIM".to_string(),
            DataEntry {
                client: "[net.minecraft:client:1.20.1:slim]".into(),
                server: "[net.minecraft:server:1.20.1:slim]".into(),
            },
        ),
        ("MCP_VERSION".to_string(), DataEntry { client: "20230612.114412".into(), server: "20230612.114412".into() }),
    ]
}

fn processor(jar: &str, classpath: Vec<&str>, args: Vec<&str>, sides: Vec<&str>) -> Processor {
    Processor {
        jar: jar.into(),
        classpath: classpath.into_iter().map(String::from).collect(),
        args: args.into_iter().map(String::from).collect(),
        outputs: vec![],
        sides: sides.into_iter().map(String::from).collect(),
    }
}

fn file_name(p: &str) -> &str {
    p.rsplit('/').next().unwrap()
}

#[test]
fn api_installer_url_format() {
    let url = forge_installer_url("1.20.1", "47.3.0");
    assert!(url.ends_with("/forge-1.20.1-47.3.0-installer.jar"));
    assert!(url.contains("maven.minecraftforge.net"));
}

#[test]
fn neoforge_installer_url_format() {
    let url = neoforge_installer_url("21.1.69");
    assert!(url.contains("maven.neoforged.net"));
    assert!(url.ends_with("/neoforge-21.1.69-installer.jar"));
}

#[test]
fn parse_main_class_simple() {
    let m = "Manifest-Version: 1.0\nMain-Class: net.minecraftforge.installer.SimpleInstaller\n";
    assert_eq!(parse_manifest_main_class(m).as_deref(), Some("net.minecraftforge.installer.SimpleInstaller"));
}

#[test]
fn parse_main_class_with_folded_line() {
    let m = "Manifest-Version: 1.0\nMain-Class: net.minecraftforge.installer\n .SimpleInstaller\n";
    assert_eq!(parse_manifest_main_class(m).as_deref(), Some("net.minecraftforge.installer.SimpleInstaller"));
}

#[test]
fn parse_main_class_missing() {
    let m = "Manifest-Version: 1.0\nImplementation-Title: foo\n";
    assert!(parse_manifest_main_class(m).is_none());
}

#[test]
fn parse_main_class_crlf_and_leading_fold() {
    assert_eq!(parse_manifest_main_class(" x\r\nMain-Class:  A \r\n").as_deref(), Some("A"));
}

#[test]
fn classpath_dedupes_jar_in_classpath() {
    let p = processor("a.b:c:1.0", vec!["a.b:c:1.0", "x.y:z:2.0"], vec![], vec![]);
    let paths = build_processor_classpath(&p, "/L");
    assert_eq!(paths.len(), 2);
    assert_eq!(paths, vec!["/L/a/b/c/1.0/c-1.0.jar", "/L/x/y/z/2.0/z-2.0.jar"]);
}

#[test]
fn resolve_args_substitutes_data_keys() {
    let data = vec![("MCP".to_string(), DataEntry { client: "[a.b:c:1.0]".into(), server: "[a.b:c:1.0]".into() })];
    let p = processor("x:y:1", vec![], vec!["--task", "MCP_DATA", "--input", "{MCP}"], vec![]);
    let resolved = resolve_processor_args(&p, &data, "/L").unwrap();
    assert_eq!(resolved[0], "--task");
    assert_eq!(resolved[1], "MCP_DATA");
    assert_eq!(resolved[2], "--input");
    assert!(resolved[3].ends_with("c-1.0.jar"));
}

#[test]
fn resolve_args_reports_first_error() {
    let p = processor("x:y:1", vec![], vec!["{A}", "{B}"], vec![]);
    match resolve_processor_args(&p, &vec![], "/L") {
        Err(Error::Config(m)) => assert_eq!(m, "install_profile.data missing key: A"),
        _ => panic!("expected a config error"),
    }
}

#[test]
fn resolve_maven_token_to_path() {
    let r = resolve_token("[net.minecraftforge:forge:1.20.1-47.3.0:client]", &vec![], "/libs").unwrap();
    assert!(r.contains("forge-1.20.1-47.3.0-client.jar"), "path was: {r}");
    assert!(r.contains("1.20.1-47.3.0"), "path was: {r}");
}

#[test]
fn resolve_maven_with_extension() {
    let r = resolve_token("[de.oceanlabs.mcp:mcp_config:1.20.1-20230612.114412@zip]", &vec![], "/libs").unwrap();
    assert!(r.ends_with(".zip"), "path was: {r}");
}

#[test]
fn resolve_brace_key_recursively() {
    let r = resolve_token("{MC_SLIM}", &data(), "/libs").unwrap();
    assert!(r.contains("client-1.20.1-slim.jar"), "path was: {r}");
}

#[test]
fn resolve_brace_key_string_value() {
    let r = resolve_token("{MCP_VERSION}", &data(), "/libs").unwrap();
    assert_eq!(r, "20230612.114412");
}

#[test]
fn resolve_unknown_brace_key_errors() {
    let r = resolve_token("{NOT_THERE}", &data(), "/libs");
    assert!(r.is_err());
}

#[test]
fn resolve_plain_string_passthrough() {
    let r = resolve_token("--task", &vec![], "/libs").unwrap();
    assert_eq!(r, "--task");
}

#[test]
fn resolve_cycle_hits_depth_limit() {
    let d = vec![("A".to_string(), DataEntry { client: "{A}".into(), server: "".into() })];
    match resolve_token("{A}", &d, "/libs") {
        Err(Error::Config(m)) => assert_eq!(m, "token resolve depth exceeded: {A}"),
        _ => panic!("expected the depth error"),
    }
}

#[test]
fn maven_coord_basic() {
    let p = maven_coord_to_path("/L", "a.b:c:1.0");
    assert_eq!(file_name(&p), "c-1.0.jar");
    assert!(p.contains("c") && p.contains("1.0"), "path was: {p}");
    assert_eq!(p, "/L/a/b/c/1.0/c-1.0.jar");
}

#[test]
fn maven_coord_with_classifier() {
    let p = maven_coord_to_path("/L", "a.b:c:1.0:natives-windows");
    assert_eq!(file_name(&p), "c-1.0-natives-windows.jar");
}

#[test]
fn maven_coord_short_is_joined_as_is() {
    assert_eq!(maven_coord_to_path("/L", "a:b"), "/L/a:b");
}

#[test]
fn applies_to_client_default_true() {
    let p = processor("x:y:1", vec![], vec![], vec![]);
    assert!(p.applies_to_client());
}

#[test]
fn applies_to_client_only_server_skip() {
    let p = processor("x:y:1", vec![], vec![], vec!["server"]);
    assert!(!p.applies_to_client());
}

#[test]
fn client_processor_positions() {
    let ps = vec![
        processor("a:a:1", vec![], vec![], vec!["server"]),
        processor("b:b:1", vec![], vec![], vec![]),
        processor("c:c:1", vec![], vec![], vec!["server", "client"]),
    ];
    assert_eq!(client_processor_indices(&ps), vec![1, 2]);
}

#[test]
fn data_insert_then_lookup() {
    let mut d = data();
    data_insert(&mut d, "MC_SLIM".to_string(), DataEntry { client: "x".into(), server: "y".into() });
    data_insert(&mut d, "NEW".to_string(), DataEntry { client: "n".into(), server: "m".into() });
    assert_eq!(d.len(), 3);
    assert_eq!(d[data_index(&d, "MC_SLIM").unwrap()].1.client, "x");
    assert_eq!(d[data_index(&d, "NEW").unwrap()].1.server, "m");
    assert_eq!(d[data_index(&d, "MCP_VERSION").unwrap()].1.client, "20230612.114412");
    assert!(data_index(&d, "nope").is_none());
}

#[test]
fn processor_data_sets_install_keys() {
    let mut profile = data();
    profile.push(("BINPATCH".to_string(), DataEntry { client: "/data/client.lzma".into(), server: "/data/server.lzma".into() }));
    let d = processor_data(&profile, "/v/x.jar", "/cache", "/cache/installer.jar", "/root");
    let get = |k: &str| d[data_index(&d, k).unwrap()].1.clone();
    assert_eq!(get("SIDE").client, "client");
    assert_eq!(get("SIDE").server, "server");
    assert_eq!(get("MINECRAFT_JAR").client, "/v/x.jar");
    assert_eq!(get("MINECRAFT_JAR").server, "");
    assert_eq!(get("BINPATCH").client, "/cache/data/client.lzma");
    assert_eq!(get("INSTALLER").server, "/cache/installer.jar");
    assert_eq!(get("ROOT").client, "/root");
    assert_eq!(get("MCP_VERSION").client, "20230612.114412");
    let d2 = processor_data(&data(), "/v/x.jar", "/cache", "/i", "/r");
    assert!(data_index(&d2, "BINPATCH").is_none());
}

#[test]
fn processor_command_line() {
    let cp = vec!["/a.jar".to_string(), "/b.jar".to_string()];
    let args = vec!["--x".to_string()];
    assert_eq!(processor_command(&cp, OsName::Linux, "M", &args), vec!["-cp", "/a.jar:/b.jar", "M", "--x"]);
    assert_eq!(processor_command(&cp, OsName::Windows, "M", &args)[1], "/a.jar;/b.jar");
}

#[test]
fn installer_entries_are_classified() {
    assert_eq!(classify_installer_entry("install_profile.json"), InstallerEntry::InstallProfile);
    assert_eq!(classify_installer_entry("version.json"), InstallerEntry::VersionJson);
    assert_eq!(classify_installer_entry("maven/a/b.jar"), InstallerEntry::Maven("a/b.jar".to_string()));
    assert_eq!(classify_installer_entry("data/client.lzma"), InstallerEntry::Data);
    assert_eq!(classify_installer_entry("META-INF/MANIFEST.MF"), InstallerEntry::Other);
}

#[test]
fn merged_ids() {
    assert_eq!(merged_version_id("1.20.1", "forge", "47.3.0"), "1.20.1-forge-47.3.0");
    assert_eq!(merged_version_id("1.21.1", "neoforge", "21.1.69"), "1.21.1-neoforge-21.1.69");
}

fn version_list() -> VersionList {
    VersionList {
        latest: LatestVersions { release: "1.21.1".into(), snapshot: "24w1a".into() },
        versions: vec![VersionListEntry {
            id: "1.21.1".into(),
            kind: VersionType::Release,
            url: "https://example.com/1.21.1.json".into(),
            time: "t".into(),
            release_time: "t".into(),
            sha1: "s".into(),
            compliance_level: 1,
        }],
    }
}

#[test]
fn parent_url_lookup() {
    assert_eq!(parent_version_url(&version_list(), "1.21.1").unwrap(), "https://example.com/1.21.1.json");
    match parent_version_url(&version_list(), "9.9") {
        Err(Error::NotFound(m)) => assert_eq!(m, "parent '9.9' not in manifest"),
        _ => panic!("expected not found"),
    }
}

fn build(b: u64, v: &str) -> ForgeBuildEntry {
    ForgeBuildEntry { build: b, mcversion: "1.20.1".into(), version: v.into(), modified: None }
}

#[test]
fn forge_versions_newest_first_and_stable() {
    let sorted = sort_newest_first(vec![build(1, "a"), build(3, "b"), build(2, "c"), build(3, "d")]);
    let vs: Vec<&str> = sorted.iter().map(|e| e.version.as_str()).collect();
    assert_eq!(vs, vec!["b", "d", "c", "a"]);
    let lv = versions_newest_first(vec![build(1, "47.0.1"), build(5, "47.3.0")]);
    assert_eq!(lv[0].version, "47.3.0");
    assert!(lv.iter().all(|v| v.stable));
}

#[test]
fn neoforge_versions_descending() {
    let lv = neo_versions(vec!["21.1.9".into(), "21.1.69".into(), "21.0.1".into()]);
    let vs: Vec<&str> = lv.iter().map(|v| v.version.as_str()).collect();
    assert_eq!(vs, vec!["21.1.9", "21.1.69", "21.0.1"]);
}

#[test]
fn fabric_result_and_urls() {
    let mut profile = RawVersion {
        id: "fabric-loader-0.16.0-1.21.1".into(),
        kind: None,
        main_class: None,
        asset_index: None,
        assets: None,
        downloads: None,
        libraries: vec![],
        arguments: None,
        minecraft_arguments: None,
        java_version: None,
        inherits_from: Some("1.21.1".into()),
        release_time: None,
        time: None,
        minimum_launcher_version: None,
    };
    let r = FabricLoader::synthesize_result(&profile);
    assert_eq!(r.merged_version_id, "fabric-loader-0.16.0-1.21.1");
    assert_eq!(r.main_class, "net.fabricmc.loader.impl.launch.knot.KnotClient");
    profile.main_class = Some("custom.Main".into());
    assert_eq!(FabricLoader::synthesize_result(&profile).main_class, "custom.Main");
    assert_eq!(
        FabricLoader::profile_url("1.21.1", "0.16.0"),
        "https://meta.fabricmc.net/v2/versions/loader/1.21.1/0.16.0/profile/json"
    );
}
