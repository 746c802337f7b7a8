use ncl::errors::Error;
use ncl::paths::{appdata_root, file_name, join_path, portable_root, split_name, with_file_name, PathLayout, PathMode};

#[test]
fn standard_subdirs_under_root() {
    let root = "/tmp/ncl-test".to_string();
    let layout = PathLayout::with_root(root.clone());
    assert_eq!(layout.instances(), join_path(&root, "instances"));
    assert_eq!(layout.instance("foo"), join_path(&join_path(&root, "instances"), "foo"));
    assert_eq!(layout.shared_assets(), join_path(&root, "shared/assets"));
    assert_eq!(layout.config_file(), join_path(&root, "config.json"));
    assert_eq!(layout.instances(), "/tmp/ncl-test/instances");
    assert_eq!(layout.cache(), "/tmp/ncl-test/cache");
}

#[test]
fn join_follows_path_join() {
    assert_eq!(join_path("/a", "b"), "/a/b");
    assert_eq!(join_path("/a/", "b"), "/a/b");
    assert_eq!(join_path("/a", "/b"), "/b");
    assert_eq!(join_path("", "b"), "b");
}

#[test]
fn autodetect_prefers_portable() {
    let l = PathLayout::autodetect("/exe/data".into(), true, Ok("/home/u/.local/share/NovaCraftLauncher".into()), true).unwrap();
    assert_eq!(l.mode, PathMode::Portable);
    assert_eq!(l.data_root, "/exe/data");
    let l = PathLayout::autodetect("/exe/data".into(), false, Ok("/app".into()), true).unwrap();
    assert_eq!(l.mode, PathMode::AppData);
    match PathLayout::autodetect("/p".into(), false, Ok("/a".into()), false) {
        Err(Error::PathLayout(m)) => assert_eq!(m, "neither portable (/p) nor appdata (/a) is usable"),
        _ => panic!("expected a layout error"),
    }
    assert!(PathLayout::autodetect("/p".into(), false, Err(Error::PathLayout("$HOME not set".into())), true).is_err());
}

#[test]
fn data_roots() {
    assert_eq!(portable_root("/opt/ncl"), "/opt/ncl/data");
    assert_eq!(appdata_root(false, "/home/u"), "/home/u/.local/share/NovaCraftLauncher");
    assert_eq!(appdata_root(true, "C:\\Users\\u\\AppData\\Roaming"), "C:\\Users\\u\\AppData\\Roaming/NovaCraftLauncher");
}

#[test]
fn file_names() {
    assert_eq!(file_name("/a/b.jar").as_deref(), Some("b.jar"));
    assert_eq!(file_name("/a/b/").as_deref(), Some("b"));
    assert_eq!(file_name("/a/.."), None);
    assert_eq!(file_name("/"), None);
    assert_eq!(split_name("x.jar.disabled"), ("x.jar".to_string(), Some("disabled".to_string())));
    assert_eq!(split_name(".bashrc"), (".bashrc".to_string(), None));
    assert_eq!(with_file_name("/m/a.jar", "a.jar.disabled"), "/m/a.jar.disabled");
    assert_eq!(with_file_name("a.jar", "b"), "b");
    assert_eq!(with_file_name("/a.jar", "b"), "/b");
}
