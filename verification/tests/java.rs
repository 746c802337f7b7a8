use ncl::java::compat::{select_best, source_priority};
use ncl::java::dirs::{exe_name, well_known_roots};
use ncl::java::memory::{recommend_memory, recommend_memory_for};
use ncl::java::model::{Arch, JavaRuntime, JavaSource};
use ncl::java::order::{components, dedupe_candidates, order_runtimes};
use ncl::java::release::{parse_release_content, ReleaseInfo};
use ncl::java::scan::{extract_quoted, parse_java_version_output, parse_major, runtime_from_release};
use ncl::model::arguments::OsName;

fn rt(major: u8, source: JavaSource) -> JavaRuntime {
    JavaRuntime {
        path: format!("/jdk-{major}/bin/java"),
        version_major: major,
        version_full: format!("{major}.0.0"),
        vendor: "Test".into(),
        arch: Arch::X64,
        source,
    }
}

#[test]
fn select_picks_lowest_major_above_required() {
    let cands = vec![rt(8, JavaSource::Path), rt(17, JavaSource::Path), rt(21, JavaSource::Path)];
    let best = select_best(&cands, 17, Arch::X64).unwrap();
    assert_eq!(best.version_major, 17);
}

#[test]
fn select_returns_none_when_no_candidate_meets_required() {
    let cands = vec![rt(8, JavaSource::Path), rt(11, JavaSource::Path)];
    assert!(select_best(&cands, 17, Arch::X64).is_none());
}

#[test]
fn select_prefers_javahome_over_path_at_same_major() {
    let cands = vec![rt(21, JavaSource::Path), rt(21, JavaSource::JavaHome)];
    let best = select_best(&cands, 21, Arch::X64).unwrap();
    assert_eq!(best.source, JavaSource::JavaHome);
}

#[test]
fn select_keeps_first_on_full_tie() {
    let mut a = rt(17, JavaSource::Zulu);
    a.path = "/first".into();
    let mut b = rt(17, JavaSource::Zulu);
    b.path = "/second".into();
    let cands = vec![a, b];
    assert_eq!(select_best(&cands, 11, Arch::X64).unwrap().path, "/first");
}

#[test]
fn source_priority_orders_sources() {
    assert!(source_priority(JavaSource::JavaHome) < source_priority(JavaSource::Adoptium));
    assert!(source_priority(JavaSource::Registry) < source_priority(JavaSource::Path));
    assert!(source_priority(JavaSource::Path) < source_priority(JavaSource::Manual));
    assert!(source_priority(JavaSource::Manual) < source_priority(JavaSource::MojangJre));
    assert_eq!(source_priority(JavaSource::Microsoft), source_priority(JavaSource::Zulu));
}

#[test]
fn select_prefers_path_over_unlisted_source() {
    let cands = vec![rt(21, JavaSource::Microsoft), rt(21, JavaSource::Path)];
    assert_eq!(select_best(&cands, 21, Arch::X64).unwrap().source, JavaSource::Path);
}

#[test]
fn select_prefers_process_arch_before_source() {
    let mut a = rt(21, JavaSource::JavaHome);
    a.arch = Arch::X86;
    let b = rt(21, JavaSource::Manual);
    let cands = vec![a, b];
    assert_eq!(select_best(&cands, 21, Arch::X64).unwrap().source, JavaSource::Manual);
    assert_eq!(select_best(&cands, 21, Arch::X86).unwrap().source, JavaSource::JavaHome);
    // A closer major version still comes first.
    let mut c = rt(17, JavaSource::Path);
    c.arch = Arch::Arm64;
    let cands = vec![rt(21, JavaSource::JavaHome), c];
    assert_eq!(select_best(&cands, 17, Arch::X64).unwrap().version_major, 17);
}

#[test]
fn well_known_roots_non_empty() {
    let roots = well_known_roots(OsName::Linux);
    assert!(!roots.is_empty());
    assert!(!well_known_roots(OsName::Windows).is_empty());
    assert!(!well_known_roots(OsName::Osx).is_empty());
    assert_eq!(roots[0].0, "/usr/lib/jvm");
}

#[test]
fn exe_name_per_os() {
    assert_eq!(exe_name(OsName::Windows), "java.exe");
    assert_eq!(exe_name(OsName::Linux), "java");
}

#[test]
fn recommendation_in_reasonable_range() {
    let rec = recommend_memory(false, 0);
    assert!(rec.max_mb >= 1024);
    assert!(rec.min_mb >= 256);
    assert!(rec.min_mb <= rec.max_mb);
}

#[test]
fn loader_with_many_mods_increases_memory() {
    let plain = recommend_memory(false, 0);
    let modded = recommend_memory(true, 100);
    assert!(modded.max_mb >= plain.max_mb);
}

#[test]
fn recommendation_formula_values() {
    // 16 GiB machine: loader 2048 + 100 mods * 8 = 2848, under the 8192 cap.
    let r = recommend_memory_for(true, 100, 16384);
    assert_eq!(r.max_mb, 2848);
    assert_eq!(r.min_mb, 712);
    // 1 GiB machine: capped to 512, raised to the 1024 floor.
    let r = recommend_memory_for(false, 0, 1024);
    assert_eq!(r.max_mb, 1024);
    assert_eq!(r.min_mb, 256);
    assert_eq!(r.system_total_mb, 1024);
}

#[test]
fn parse_temurin_release_file() {
    let content = r#"
IMPLEMENTOR="Eclipse Adoptium"
IMPLEMENTOR_VERSION="Temurin-21.0.2+13"
JAVA_VERSION="21.0.2"
JAVA_VERSION_DATE="2024-01-16"
LIBC="default"
MODULES="java.base java.logging"
OS_ARCH="x86_64"
OS_NAME="Windows"
SOURCE=".:foo"
"#;
    let info = parse_release_content(content);
    assert_eq!(info.java_version.as_deref(), Some("21.0.2"));
    assert_eq!(info.vendor.as_deref(), Some("Eclipse Adoptium"));
    assert_eq!(info.os_arch.as_deref(), Some("x86_64"));
    assert_eq!(info.arch(), Arch::X64);
}

#[test]
fn parse_oracle_release_file() {
    let content = r#"
JAVA_VERSION="1.8.0_312"
OS_NAME="Windows"
OS_VERSION="5.2"
OS_ARCH="amd64"
"#;
    let info = parse_release_content(content);
    assert_eq!(info.java_version.as_deref(), Some("1.8.0_312"));
    assert_eq!(info.arch(), Arch::X64);
}

#[test]
fn parse_arm64_release_file() {
    let content = r#"
JAVA_VERSION="17.0.6"
OS_ARCH="aarch64"
"#;
    let info = parse_release_content(content);
    assert_eq!(info.arch(), Arch::Arm64);
}

#[test]
fn release_comments_and_later_keys() {
    let info = parse_release_content("# comment\nJAVA_VERSION=\"11\"\nJAVA_VERSION=\"17\"\nnot a pair\n");
    assert_eq!(info.java_version.as_deref(), Some("17"));
    assert_eq!(info.vendor, None);
    assert_eq!(info.arch(), Arch::Other);
}

#[test]
fn parse_major_handles_legacy_and_modern() {
    assert_eq!(parse_major("21.0.2"), 21);
    assert_eq!(parse_major("1.8.0_312"), 8);
    assert_eq!(parse_major("17.0.5"), 17);
    assert_eq!(parse_major("9"), 9);
    assert_eq!(parse_major("11.0.21+9-LTS"), 11);
    assert_eq!(parse_major("abc"), 0);
}

#[test]
fn parse_temurin_jdk21_output() {
    let output = "openjdk version \"21.0.2\" 2024-01-16 LTS\n\
        OpenJDK Runtime Environment Temurin-21.0.2+13 (build 21.0.2+13-LTS)\n\
        OpenJDK 64-Bit Server VM Temurin-21.0.2+13 (build 21.0.2+13-LTS, mixed mode, sharing)";
    let parsed = parse_java_version_output(output).unwrap();
    assert_eq!(parsed.major, 21);
    assert_eq!(parsed.full, "21.0.2");
    assert!(parsed.vendor.starts_with("OpenJDK"));
    assert_eq!(parsed.arch, Arch::X64);
}

#[test]
fn parse_oracle_jdk8_output() {
    let output = "java version \"1.8.0_312\"\n\
        Java(TM) SE Runtime Environment (build 1.8.0_312-b07)\n\
        Java HotSpot(TM) 64-Bit Server VM (build 25.312-b07, mixed mode)";
    let parsed = parse_java_version_output(output).unwrap();
    assert_eq!(parsed.major, 8);
    assert_eq!(parsed.full, "1.8.0_312");
    assert_eq!(parsed.arch, Arch::X64);
}

#[test]
fn parse_version_output_errors() {
    assert!(parse_java_version_output("").is_err());
    assert!(parse_java_version_output("no quotes here").is_err());
    let p = parse_java_version_output("java version \"1.7.0\"").unwrap();
    assert_eq!(p.vendor, "java");
    assert_eq!(p.arch, Arch::Other);
}

#[test]
fn extract_quoted_values() {
    assert_eq!(extract_quoted("a \"b\" c").as_deref(), Some("b"));
    assert_eq!(extract_quoted("a \"b c"), None);
    assert_eq!(extract_quoted("none"), None);
}

#[test]
fn runtime_from_release_fills_fields() {
    let info = ReleaseInfo { java_version: Some("17.0.6".into()), vendor: None, os_arch: Some("aarch64".into()) };
    let rt = runtime_from_release("/j/bin/java".into(), info).unwrap();
    assert_eq!(rt.version_major, 17);
    assert_eq!(rt.vendor, "Unknown");
    assert_eq!(rt.arch, Arch::Arm64);
    assert_eq!(rt.source, JavaSource::Manual);
    let none = ReleaseInfo { java_version: None, vendor: None, os_arch: None };
    assert!(runtime_from_release("/j".into(), none).is_none());
}


#[test]
fn runtimes_listed_newest_then_source_then_path() {
    let mut a = rt(17, JavaSource::Path);
    a.path = "/z/java".into();
    let mut b = rt(21, JavaSource::Path);
    b.path = "/b/java".into();
    let mut c = rt(21, JavaSource::JavaHome);
    c.path = "/c/java".into();
    let mut d = rt(21, JavaSource::Path);
    d.path = "/a/java".into();
    let mut e = rt(21, JavaSource::Path);
    e.path = "/a-b/java".into();
    let sorted = order_runtimes(vec![a, b, c, d, e]);
    let paths: Vec<&str> = sorted.iter().map(|r| r.path.as_str()).collect();
    // Path order goes by components: "/a/java" before "/a-b/java".
    assert_eq!(paths, vec!["/c/java", "/a/java", "/a-b/java", "/b/java", "/z/java"]);
    assert_eq!(components("/a//b/./c/").len(), 4);
}

#[test]
fn candidates_deduped_by_path() {
    let c = vec![
        ("/usr/bin/java".to_string(), JavaSource::Path),
        ("/usr//bin/java".to_string(), JavaSource::Registry),
        ("/opt/java".to_string(), JavaSource::Registry),
    ];
    let d = dedupe_candidates(c);
    assert_eq!(d.len(), 2);
    assert_eq!(d[0].1, JavaSource::Path);
}
