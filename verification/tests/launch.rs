use ncl::java::compat::required_java_major;
use ncl::java::model::{Arch, JavaRuntime, JavaSource};
use ncl::launch::account::{offline_uuid, AccountInfo};
use ncl::launch::args::{build_classpath, build_plan, dedupe_jvm_args, flatten_args, inject_gc, substitute};
use ncl::launch::crash::{classify, parse_crash_report, CrashCategory};
use ncl::launch::model::{LaunchInputs, MemorySpec};
use ncl::launch::output::{game_output_event, OutputStream};
use ncl::model::arguments::{
    Argument, ArgumentValue, Arguments, EvalContext, OsCondition, OsContext, OsName, Rule, RuleAction,
};
use ncl::model::assets::AssetIndexInfo;
use ncl::model::java::JavaVersionRequirement;
use ncl::model::library::{ArtifactInfo, Library, LibraryDownloads};
use ncl::model::version::{DownloadInfo, MainDownloads, ResolvedManifest, VersionType};
use ncl::paths::PathLayout;
use ncl::progress::{LogLevel, ProgressEvent};
use ncl::vanilla::paths::InstallPaths;

fn linux() -> OsContext {
    OsContext { name: OsName::Linux, arch: "x86_64".into(), version: "6.1".into() }
}

fn ctx(os: OsName) -> EvalContext {
    EvalContext { os: OsContext { name: os, arch: "x86_64".into(), version: "".into() }, features: vec![] }
}

fn vars(pairs: &[(&str, &str)]) -> Vec<(String, String)> {
    pairs.iter().map(|(k, v)| (k.to_string(), v.to_string())).collect()
}

fn fake_manifest() -> ResolvedManifest {
    ResolvedManifest {
        id: "1.21.1".into(),
        kind: VersionType::Release,
        main_class: "net.minecraft.client.main.Main".into(),
        asset_index: AssetIndexInfo { id: "16".into(), sha1: "0".into(), size: 1, total_size: 1, url: "u".into() },
        downloads: MainDownloads {
            client: Some(DownloadInfo { sha1: "0".into(), size: 1, url: "u".into() }),
            client_mappings: None,
            server: None,
            server_mappings: None,
        },
        libraries: vec![
            Library {
                name: "org.lwjgl:lwjgl:3.3.3".into(),
                downloads: Some(LibraryDownloads {
                    artifact: Some(ArtifactInfo {
                        path: "org/lwjgl/lwjgl/3.3.3/lwjgl-3.3.3.jar".into(),
                        sha1: "0".into(),
                        size: 1,
                        url: "u".into(),
                    }),
                    classifiers: None,
                }),
                natives: None,
                extract: None,
                rules: vec![],
                url: None,
            },
            Library {
                name: "org.lwjgl:lwjgl:3.3.3:natives-windows".into(),
                downloads: Some(LibraryDownloads {
                    artifact: Some(ArtifactInfo {
                        path: "org/lwjgl/lwjgl/3.3.3/lwjgl-3.3.3-natives-windows.jar".into(),
                        sha1: "0".into(),
                        size: 1,
                        url: "u".into(),
                    }),
                    classifiers: None,
                }),
                natives: None,
                extract: None,
                rules: vec![Rule {
                    action: RuleAction::Allow,
                    os: Some(OsCondition { name: Some(OsName::Windows), arch: None, version: None }),
                    features: None,
                }],
                url: None,
            },
        ],
        arguments: Arguments {
            game: vec![
                Argument::Plain("--username".into()),
                Argument::Plain("${auth_player_name}".into()),
                Argument::Plain("--version".into()),
                Argument::Plain("${version_name}".into()),
                Argument::Plain("--gameDir".into()),
                Argument::Plain("${game_directory}".into()),
            ],
            jvm: vec![
                Argument::Plain("-Djava.library.path=${natives_directory}".into()),
                Argument::Plain("-cp".into()),
                Argument::Plain("${classpath}".into()),
            ],
        },
        minecraft_arguments: None,
        java_version: JavaVersionRequirement { component: "java-runtime-delta".into(), major_version: 21 },
        inherits_chain: vec!["1.21.1".into()],
    }
}

fn fake_java() -> JavaRuntime {
    JavaRuntime {
        path: "/usr/bin/java".into(),
        version_major: 21,
        version_full: "21.0.2".into(),
        vendor: "Test".into(),
        arch: Arch::X64,
        source: JavaSource::JavaHome,
    }
}

fn layout() -> PathLayout {
    PathLayout::with_root("/tmp/ncl".into())
}

#[test]
fn offline_uuid_is_stable_for_same_name() {
    assert_eq!(offline_uuid("Steve"), offline_uuid("Steve"));
}

#[test]
fn offline_uuid_differs_per_name() {
    assert_ne!(offline_uuid("Steve"), offline_uuid("Alex"));
}

#[test]
fn offline_uuid_is_version_3() {
    let bytes = offline_uuid("anyone");
    assert_eq!(bytes[6] >> 4, 0x3);
    assert_eq!(bytes[8] >> 6, 0b10);
}

#[test]
fn account_offline_populates_fields() {
    let acc = AccountInfo::offline("Player1".to_string());
    assert_eq!(acc.username, "Player1");
    assert_eq!(acc.access_token, "0");
    assert_eq!(acc.user_type, "msa");
    assert!(acc.uuid.contains('-'), "uuid should be hyphenated");
}

#[test]
fn offline_uuid_known_value() {
    // The UUID the official launcher derives for "Notch" in offline mode.
    let acc = AccountInfo::offline("Notch".to_string());
    assert_eq!(acc.uuid, "b50ad385-829d-3141-a216-7e7d7539ba7f");
    assert_eq!(acc.uuid.len(), 36);
}

#[test]
fn substitute_replaces_known_keys() {
    let v = vars(&[("name", "Steve"), ("ver", "1.21.1")]);
    let out = substitute("hello ${name} v${ver}!", &v);
    assert_eq!(out, "hello Steve v1.21.1!");
}

#[test]
fn substitute_keeps_unknown_placeholders() {
    let out = substitute("hello ${unknown}", &vec![]);
    assert_eq!(out, "hello ${unknown}");
}

#[test]
fn substitute_leaves_plain_text_alone() {
    let v = vars(&[("a", "b")]);
    assert_eq!(substitute("no placeholders at all", &v), "no placeholders at all");
}

#[test]
fn flatten_args_filters_by_rules() {
    let win_only = Argument::Conditional {
        rules: vec![Rule {
            action: RuleAction::Allow,
            os: Some(OsCondition { name: Some(OsName::Windows), arch: None, version: None }),
            features: None,
        }],
        value: ArgumentValue::Single("--windows-only".into()),
    };
    let args = vec![win_only];
    let mut out = Vec::new();
    flatten_args(&args, &ctx(OsName::Linux), &vec![], &mut out);
    assert!(out.is_empty(), "non-windows should skip");
    let mut out = Vec::new();
    flatten_args(&args, &ctx(OsName::Windows), &vec![], &mut out);
    assert_eq!(out, vec!["--windows-only"]);
}

#[test]
fn flatten_args_handles_multi_value() {
    let multi = Argument::Conditional {
        rules: vec![],
        value: ArgumentValue::Multi(vec!["-a".into(), "-b".into(), "-c".into()]),
    };
    let mut out = Vec::new();
    flatten_args(&vec![multi], &ctx(OsName::Linux), &vec![], &mut out);
    assert_eq!(out, vec!["-a", "-b", "-c"]);
}

#[test]
fn classpath_skips_natives_includes_client_jar() {
    let paths = InstallPaths::new(&layout(), "test".into(), "1.21.1".into());
    let cp = build_classpath(&fake_manifest(), &ctx(OsName::Linux), &paths, OsName::Linux);
    assert!(cp.contains("lwjgl-3.3.3.jar"), "classpath was: {cp}");
    assert!(!cp.contains("natives-windows"), "classpath was: {cp}");
    assert!(cp.contains("1.21.1.jar"), "classpath was: {cp}");
    assert_eq!(
        cp,
        "/tmp/ncl/shared/libraries/org/lwjgl/lwjgl/3.3.3/lwjgl-3.3.3.jar:/tmp/ncl/shared/versions/1.21.1/1.21.1.jar"
    );
}

#[test]
fn classpath_excludes_client_jar_for_bootstraplauncher() {
    let paths = InstallPaths::new(&layout(), "test".into(), "neoforge-21.1.99".into());
    let mut manifest = fake_manifest();
    manifest.main_class = "cpw.mods.bootstraplauncher.BootstrapLauncher".into();
    let cp = build_classpath(&manifest, &ctx(OsName::Linux), &paths, OsName::Linux);
    assert!(!cp.contains("neoforge-21.1.99.jar"), "was: {cp}");
    assert!(cp.contains("lwjgl-3.3.3.jar"), "classpath was: {cp}");
}

#[test]
fn classpath_separator_follows_host_not_rule_context() {
    let paths = InstallPaths::new(&layout(), "test".into(), "1.21.1".into());
    // Rules evaluated for Windows on a Linux-built launcher: `:` separates.
    let cp = build_classpath(&fake_manifest(), &ctx(OsName::Windows), &paths, OsName::Linux);
    assert!(!cp.contains(';'));
    assert!(cp.contains(':'));
    // A Windows-built launcher separates with `;`.
    let cp = build_classpath(&fake_manifest(), &ctx(OsName::Linux), &paths, OsName::Windows);
    assert!(cp.contains(';'));
}

#[test]
fn dedupe_keeps_first_xmx() {
    let out = dedupe_jvm_args(vec!["-Xmx2G".into(), "-Xmx4G".into(), "-Xms512M".into()]);
    assert_eq!(out, vec!["-Xmx2G", "-Xms512M"]);
}

#[test]
fn dedupe_d_keys_first_wins() {
    let out = dedupe_jvm_args(vec![
        "-Dlog4j2.formatMsgNoLookups=true".into(),
        "-Dlog4j2.formatMsgNoLookups=false".into(),
        "-Djava.library.path=/foo".into(),
    ]);
    assert_eq!(out.len(), 2);
    assert!(out.contains(&"-Dlog4j2.formatMsgNoLookups=true".to_string()));
    assert!(out.contains(&"-Djava.library.path=/foo".to_string()));
}

#[test]
fn dedupe_gc_mutex() {
    let out = dedupe_jvm_args(vec!["-XX:+UseZGC".into(), "-XX:+UseG1GC".into(), "-XX:+ZGenerational".into()]);
    assert_eq!(out, vec!["-XX:+UseZGC", "-XX:+ZGenerational"]);
}

#[test]
fn dedupe_allows_multiple_tweakclass() {
    let out = dedupe_jvm_args(vec!["--tweakClass=foo".into(), "--tweakClass=bar".into(), "--tweakClass=foo".into()]);
    assert_eq!(out.len(), 3);
}

#[test]
fn dedupe_exact_string_dedup() {
    let out = dedupe_jvm_args(vec![
        "-XstartOnFirstThread".into(),
        "-XstartOnFirstThread".into(),
        "--add-opens=java.base/java.util.jar=ALL-UNNAMED".into(),
    ]);
    assert_eq!(out.len(), 2);
}

#[test]
fn dedupe_twice_is_dedupe_once() {
    let input: Vec<String> =
        vec!["-Xmx1G".into(), "-Dk=1".into(), "-Xmx2G".into(), "-Dk=2".into(), "-XX:+UseZGC".into(), "-XX:+UseG1GC".into()];
    let once = dedupe_jvm_args(input);
    let twice = dedupe_jvm_args(once.clone());
    assert_eq!(once, twice);
    assert_eq!(once, vec!["-Xmx1G", "-Dk=1", "-XX:+UseZGC"]);
}

#[test]
fn inject_gc_picks_zgc_generational_for_java21() {
    let mut jvm = vec!["-Xmx4G".to_string()];
    inject_gc(&mut jvm, 21);
    assert!(jvm.contains(&"-XX:+UseZGC".to_string()));
    assert!(jvm.contains(&"-XX:+ZGenerational".to_string()));
}

#[test]
fn inject_gc_picks_zgc_for_java17() {
    let mut jvm: Vec<String> = vec![];
    inject_gc(&mut jvm, 17);
    assert!(jvm.contains(&"-XX:+UseZGC".to_string()));
    assert!(!jvm.contains(&"-XX:+ZGenerational".to_string()));
}

#[test]
fn inject_gc_picks_g1_for_java8() {
    let mut jvm: Vec<String> = vec![];
    inject_gc(&mut jvm, 8);
    assert!(jvm.contains(&"-XX:+UseG1GC".to_string()));
}

#[test]
fn inject_gc_respects_user_choice() {
    let mut jvm = vec!["-XX:+UseShenandoahGC".to_string()];
    inject_gc(&mut jvm, 21);
    assert!(!jvm.contains(&"-XX:+UseZGC".to_string()));
    assert_eq!(jvm, vec!["-XX:+UseShenandoahGC"]);
}

fn inputs<'a>(
    manifest: &'a ResolvedManifest,
    paths: &'a InstallPaths,
    java: &'a JavaRuntime,
    account: &'a AccountInfo,
    jvm_extra: Vec<String>,
    game_extra: Vec<String>,
) -> LaunchInputs<'a> {
    LaunchInputs {
        manifest,
        paths,
        java,
        account,
        os: linux(),
        memory: MemorySpec { min_mb: 512, max_mb: 4096 },
        jvm_args_extra: jvm_extra,
        game_args_extra: game_extra,
        features: vec![],
    }
}

#[test]
fn build_plan_injects_log4j_fix_and_gc() {
    let paths = InstallPaths::new(&layout(), "test".into(), "1.21.1".into());
    let manifest = fake_manifest();
    let java = fake_java();
    let account = AccountInfo::offline("Steve".to_string());
    let plan = build_plan(&inputs(&manifest, &paths, &java, &account, vec![], vec![])).unwrap();
    assert!(plan.jvm_args.contains(&"-Dlog4j2.formatMsgNoLookups=true".into()));
    assert!(plan.jvm_args.contains(&"-XX:+UseZGC".into()));
    assert!(plan.jvm_args.contains(&"-XX:+ZGenerational".into()));
}

#[test]
fn build_plan_user_jvm_flags_override_defaults() {
    let paths = InstallPaths::new(&layout(), "test".into(), "1.21.1".into());
    let manifest = fake_manifest();
    let java = fake_java();
    let account = AccountInfo::offline("Steve".to_string());
    let extra = vec![
        "-Dlog4j2.formatMsgNoLookups=false".to_string(),
        "-XX:+UseG1GC".to_string(),
        "-Xmx2048M".to_string(),
    ];
    let plan = build_plan(&inputs(&manifest, &paths, &java, &account, extra, vec![])).unwrap();
    assert!(plan.jvm_args.contains(&"-Dlog4j2.formatMsgNoLookups=false".into()));
    assert!(!plan.jvm_args.contains(&"-Dlog4j2.formatMsgNoLookups=true".into()));
    assert!(plan.jvm_args.contains(&"-XX:+UseG1GC".into()));
    assert!(!plan.jvm_args.contains(&"-XX:+UseZGC".into()));
    assert!(plan.jvm_args.contains(&"-Xmx2048M".into()));
    assert!(!plan.jvm_args.contains(&"-Xmx4096M".into()));
    assert_eq!(plan.jvm_args[0], "-Xms512M");
}

#[test]
fn build_plan_heap_flags_lead() {
    let paths = InstallPaths::new(&layout(), "test".into(), "1.21.1".into());
    let manifest = fake_manifest();
    let java = fake_java();
    let account = AccountInfo::offline("Steve".to_string());
    let plan = build_plan(&inputs(&manifest, &paths, &java, &account, vec![], vec![])).unwrap();
    assert_eq!(plan.jvm_args[0], "-Xms512M");
    assert_eq!(plan.jvm_args[1], "-Xmx4096M");
    assert_eq!(plan.jvm_args.iter().filter(|a| a.starts_with("-XX:+Use") && a.ends_with("GC")).count(), 1);
    assert_eq!(plan.jvm_args.iter().filter(|a| a.starts_with("-Dlog4j2.formatMsgNoLookups=")).count(), 1);
}

#[test]
fn placeholders_include_mc_jar_name_and_offline_auth_blanks() {
    let paths = InstallPaths::new(&layout(), "test-instance".into(), "neoforge-21.1.99".into());
    let mut manifest = fake_manifest();
    manifest.arguments.jvm = vec![
        Argument::Plain("-DignoreList=client-extra.jar,${MC_JAR_NAME}".into()),
        Argument::Plain("-cp".into()),
        Argument::Plain("${classpath}".into()),
    ];
    manifest.arguments.game = vec![
        Argument::Plain("--clientId".into()),
        Argument::Plain("${clientid}".into()),
        Argument::Plain("--xuid".into()),
        Argument::Plain("${auth_xuid}".into()),
    ];
    manifest.id = "neoforge-21.1.99".into();
    let java = fake_java();
    let account = AccountInfo::offline("PlayerOne".to_string());
    let plan = build_plan(&inputs(&manifest, &paths, &java, &account, vec![], vec![])).unwrap();
    let ignore_arg = plan.jvm_args.iter().find(|a| a.starts_with("-DignoreList=")).expect("ignoreList present");
    assert!(ignore_arg.contains("neoforge-21.1.99.jar"), "was: {ignore_arg}");
    assert!(!ignore_arg.contains("${"), "was: {ignore_arg}");
    let cid_idx = plan.game_args.iter().position(|a| a == "--clientId").expect("clientId arg");
    assert_eq!(plan.game_args[cid_idx + 1], "");
    let xuid_idx = plan.game_args.iter().position(|a| a == "--xuid").expect("xuid arg");
    assert_eq!(plan.game_args[xuid_idx + 1], "");
}

#[test]
fn build_plan_substitutes_placeholders() {
    let paths = InstallPaths::new(&layout(), "test-instance".into(), "1.21.1".into());
    let manifest = fake_manifest();
    let java = fake_java();
    let account = AccountInfo::offline("PlayerOne".to_string());
    let plan = build_plan(&inputs(
        &manifest,
        &paths,
        &java,
        &account,
        vec!["-XX:+UnlockExperimentalVMOptions".into()],
        vec!["--quickPlaySingleplayer".into(), "MyWorld".into()],
    ))
    .unwrap();
    assert!(plan.jvm_args.contains(&"-Xms512M".into()));
    assert!(plan.jvm_args.contains(&"-Xmx4096M".into()));
    assert!(plan.jvm_args.iter().any(|a| a.contains("-Djava.library.path=") && !a.contains("${")));
    let cp_idx = plan.jvm_args.iter().position(|a| a == "-cp").expect("-cp present");
    let cp = &plan.jvm_args[cp_idx + 1];
    assert!(cp.contains("lwjgl-3.3.3.jar"));
    assert!(cp.contains("1.21.1.jar"));
    assert!(plan.jvm_args.contains(&"-XX:+UnlockExperimentalVMOptions".into()));
    assert_eq!(plan.main_class, "net.minecraft.client.main.Main");
    assert!(plan.game_args.contains(&"PlayerOne".into()));
    assert!(plan.game_args.iter().any(|a| a.contains("test-instance")));
    assert!(plan.game_args.contains(&"--quickPlaySingleplayer".into()));
    let full = plan.full_args();
    assert_eq!(full.len(), plan.jvm_args.len() + 1 + plan.game_args.len());
}

#[test]
fn required_major_defaults_to_8() {
    let mut m = fake_manifest();
    assert_eq!(required_java_major(&m), 21);
    m.java_version.major_version = 0;
    assert_eq!(required_java_major(&m), 8);
}

const SAMPLE_OOM: &str = r#"---- Minecraft Crash Report ----

Time: 2026-05-02 22:13:45
Description: Exception in server tick loop

java.lang.OutOfMemoryError: Java heap space
	at net.minecraft.server.MinecraftServer.run(MinecraftServer.java:111)
"#;

const SAMPLE_MODULE: &str = r#"---- Minecraft Crash Report ----

Description: Failed to launch

java.lang.module.ResolutionException: Modules a and b export package x to module c
	at java.base/java.lang.module.Resolver.resolveFail(Resolver.java:900)
"#;

#[test]
fn parse_extracts_description_and_category_oom() {
    let report = parse_crash_report("crash-test-client.txt".to_string(), SAMPLE_OOM);
    assert_eq!(report.description.as_deref(), Some("Exception in server tick loop"));
    assert_eq!(report.category, CrashCategory::OutOfMemory);
    assert!(report.head_lines.len() > 0);
}

#[test]
fn classify_module_resolution() {
    let report = parse_crash_report("c.txt".to_string(), SAMPLE_MODULE);
    assert_eq!(report.category, CrashCategory::ModuleResolution);
}

#[test]
fn classify_falls_back_to_unknown() {
    let report =
        parse_crash_report("c.txt".to_string(), "---- Minecraft Crash Report ----\n\nDescription: Something weird\n");
    assert_eq!(report.category, CrashCategory::Unknown);
    assert_eq!(report.description.as_deref(), Some("Something weird"));
}

#[test]
fn timestamp_extracted_from_filename() {
    let report = parse_crash_report("crash-2026-05-02_22.13.45-client.txt".to_string(), SAMPLE_OOM);
    assert_eq!(report.timestamp.as_deref(), Some("2026-05-02_22.13.45"));
}

#[test]
fn crash_report_path_and_head() {
    let long: String = (0..100).map(|i| format!("line {i}\n")).collect();
    let report = parse_crash_report("/game/crash-reports/crash-x-server.txt".to_string(), &long);
    assert_eq!(report.head_lines.len(), 80);
    assert_eq!(report.head_lines[0], "line 0");
    assert_eq!(report.timestamp.as_deref(), Some("x"));
    assert_eq!(report.description, None);
    assert_eq!(report.file_path, "/game/crash-reports/crash-x-server.txt");
}

#[test]
fn classify_categories() {
    assert_eq!(classify("java.lang.NoClassDefFoundError: a/B"), CrashCategory::NoClassDef);
    assert_eq!(classify("org.spongepowered.asm.mixin.transformer.throwables.MixinTransformerError"), CrashCategory::Mixin);
    assert_eq!(classify("# A fatal error has been detected by the Java Runtime Environment"), CrashCategory::NativeCrash);
    assert_eq!(classify("OpenGL 2.0 not supported"), CrashCategory::GpuDriver);
    assert_eq!(classify("OpenGL is fine"), CrashCategory::Unknown);
    // Only the first 4096 characters are searched.
    let late = format!("{}OutOfMemoryError", "x".repeat(5000));
    assert_eq!(classify(&late), CrashCategory::Unknown);
}

#[test]
fn game_output_lines_become_logs() {
    match game_output_event(OutputStream::Stderr, "boom".to_string()) {
        ProgressEvent::Log { source, level, message } => {
            assert_eq!(source, "minecraft.stderr");
            assert!(matches!(level, LogLevel::Warn));
            assert_eq!(message, "boom");
        }
        _ => panic!("expected a log event"),
    }
}
