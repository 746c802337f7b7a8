use ncl::errors::Error;
use ncl::model::mod_entry::{LoaderKind, ModEntry, Side};
use ncl::mods::enable::{plan_toggle, target_exists};
use ncl::mods::parse::{
    choose_manifest, enabled_path, extract_fabric_authors, fabric_entry, forge_entry, is_disabled_jar,
    is_mod_jar, parse_side, split_authors, version_value_to_string, AuthorItem, AuthorsValue, DependValue,
    FabricModJson, ManifestChoice, ModsToml, ModsTomlDep, ModsTomlMod, ParseError,
};
use ncl::mods::scan::sort_mods;

fn forge_toml() -> ModsToml {
    ModsToml {
        mods: vec![ModsTomlMod {
            mod_id: "examplemod".into(),
            version: Some("1.2.3".into()),
            display_name: Some("Example Mod".into()),
            description: Some("An example mod".into()),
            authors: Some("dwin, alice".into()),
        }],
        dependencies: vec![(
            "examplemod".into(),
            vec![
                ModsTomlDep {
                    mod_id: "minecraft".into(),
                    mandatory: true,
                    version_range: Some("[1.21,)".into()),
                    side: Some("BOTH".into()),
                },
                ModsTomlDep {
                    mod_id: "jei".into(),
                    mandatory: false,
                    version_range: Some("[15.0,)".into()),
                    side: Some("CLIENT".into()),
                },
            ],
        )],
    }
}

fn fabric_json() -> FabricModJson {
    FabricModJson {
        id: "examplefabric".into(),
        version: Some("0.5.0".into()),
        name: Some("Example Fabric Mod".into()),
        description: Some("Fabric demo".into()),
        authors: Some(AuthorsValue::Array(vec![
            AuthorItem::Name("dwin".into()),
            AuthorItem::Object(Some("alice".into())),
        ])),
        depends: Some(vec![
            ("fabric-api".into(), DependValue::Str("*".into())),
            ("fabricloader".into(), DependValue::Str(">=0.16.0".into())),
            ("minecraft".into(), DependValue::Str(">=1.21.1".into())),
        ]),
        environment: Some("client".into()),
    }
}

#[test]
fn forge_toml_entry() {
    let entry = forge_entry(&forge_toml(), LoaderKind::Forge, "/mods/examplemod-1.0.jar").expect("parse");
    assert_eq!(entry.mod_id, "examplemod");
    assert_eq!(entry.name, "Example Mod");
    assert_eq!(entry.version, "1.2.3");
    assert_eq!(entry.loader, LoaderKind::Forge);
    assert_eq!(entry.mc_version_range.as_deref(), Some("[1.21,)"));
    assert_eq!(entry.authors, vec!["dwin", "alice"]);
    assert_eq!(entry.dependencies.len(), 1);
    assert_eq!(entry.dependencies[0].mod_id, "jei");
    assert!(!entry.dependencies[0].mandatory);
    assert_eq!(entry.dependencies[0].side, Side::Client);
    assert!(entry.enabled);
    assert_eq!(entry.side, Side::Both);
}

#[test]
fn forge_toml_defaults_and_errors() {
    let mut t = forge_toml();
    t.mods[0].display_name = None;
    t.mods[0].version = None;
    t.mods[0].authors = Some(" , bob ,".into());
    let e = forge_entry(&t, LoaderKind::NeoForge, "/mods/x-1.0.jar.disabled").unwrap();
    assert_eq!(e.name, "x-1.0.jar");
    assert_eq!(e.version, "0.0.0");
    assert_eq!(e.authors, vec!["bob"]);
    assert!(!e.enabled);
    assert_eq!(e.loader, LoaderKind::NeoForge);
    let empty = ModsToml { mods: vec![], dependencies: vec![] };
    match forge_entry(&empty, LoaderKind::Forge, "/x.jar") {
        Err(ParseError::Invalid(m)) => assert_eq!(m, "mods.toml 中无 [[mods]] 条目"),
        _ => panic!("expected invalid"),
    }
}

#[test]
fn fabric_json_entry() {
    let entry = fabric_entry(&fabric_json(), "/mods/f.jar");
    assert_eq!(entry.mod_id, "examplefabric");
    assert_eq!(entry.name, "Example Fabric Mod");
    assert_eq!(entry.version, "0.5.0");
    assert_eq!(entry.loader, LoaderKind::Fabric);
    assert_eq!(entry.mc_version_range.as_deref(), Some(">=1.21.1"));
    assert_eq!(entry.authors, vec!["dwin", "alice"]);
    assert_eq!(entry.side, Side::Client);
    assert_eq!(entry.dependencies.len(), 1);
    assert_eq!(entry.dependencies[0].mod_id, "fabric-api");
    assert_eq!(entry.dependencies[0].version_range.as_deref(), Some("*"));
}

#[test]
fn fabric_defaults() {
    let j = FabricModJson {
        id: "m".into(),
        version: None,
        name: None,
        description: None,
        authors: Some(AuthorsValue::Other),
        depends: None,
        environment: Some("*".into()),
    };
    let e = fabric_entry(&j, "/m.jar");
    assert_eq!(e.name, "m");
    assert_eq!(e.version, "0.0.0");
    assert!(e.authors.is_empty());
    assert_eq!(e.side, Side::Both);
    assert_eq!(e.mc_version_range, None);
}

#[test]
fn depend_values_render() {
    assert_eq!(version_value_to_string(&DependValue::Str("x".into())), "x");
    assert_eq!(
        version_value_to_string(&DependValue::Array(vec![Some(">=1".into()), None, Some("<2".into())])),
        ">=1, <2"
    );
    assert_eq!(version_value_to_string(&DependValue::Other("42".into())), "42");
    let a = extract_fabric_authors(&AuthorsValue::Array(vec![AuthorItem::Other, AuthorItem::Object(None)]));
    assert!(a.is_empty());
}

#[test]
fn manifest_priority() {
    assert!(matches!(choose_manifest(true, true, true), Ok(ManifestChoice::NeoForgeToml)));
    assert!(matches!(choose_manifest(false, true, true), Ok(ManifestChoice::ForgeToml)));
    assert!(matches!(choose_manifest(false, false, true), Ok(ManifestChoice::FabricJson)));
    assert!(matches!(choose_manifest(false, false, false), Err(ParseError::NotAMod)));
    assert_eq!(
        ParseError::NotAMod.message(),
        "not a recognized mod jar: no mods.toml / fabric.mod.json / neoforge.mods.toml found"
    );
}

#[test]
fn side_and_jar_names() {
    assert_eq!(parse_side(Some("client")), Side::Client);
    assert_eq!(parse_side(Some("SERVER")), Side::Server);
    assert_eq!(parse_side(Some("BOTH")), Side::Both);
    assert_eq!(parse_side(None), Side::Both);
    assert!(is_disabled_jar("/m/a.jar.disabled"));
    assert!(!is_disabled_jar("/m/a.jar"));
    assert!(is_mod_jar("/m/A.JAR"));
    assert!(is_mod_jar("/m/a.jar.DISABLED"));
    assert!(!is_mod_jar("/m/readme.txt"));
    assert_eq!(enabled_path("/m/a.jar.disabled"), "/m/a.jar");
    assert_eq!(split_authors("a,b ,, c"), vec!["a", "b", "c"]);
}

#[test]
fn toggle_plans() {
    let t = plan_toggle("/mods/foo.jar.disabled", true).unwrap();
    assert!(t.now_enabled);
    assert!(t.to.ends_with("foo.jar"));
    assert_eq!(t.to, "/mods/foo.jar");
    let t = plan_toggle("/mods/bar.jar", false).unwrap();
    assert!(!t.now_enabled);
    assert!(t.to.ends_with("bar.jar.disabled"));
    let t = plan_toggle("/mods/baz.jar", true).unwrap();
    assert_eq!(t.from, t.to);
    match plan_toggle("/mods/readme.txt", true) {
        Err(Error::Config(m)) => assert_eq!(m, "not a .jar / .jar.disabled file: /mods/readme.txt"),
        _ => panic!("expected an error"),
    }
    match target_exists("/mods/x.jar.disabled") {
        Error::Config(m) => assert_eq!(m, "target /mods/x.jar.disabled already exists"),
        _ => panic!("expected a config error"),
    }
    // Disabling then enabling gives the jar back.
    let off = plan_toggle("/mods/q.jar", false).unwrap();
    let on = plan_toggle(&off.to, true).unwrap();
    assert_eq!(on.to, "/mods/q.jar");
}

fn named(name: &str, id: &str) -> ModEntry {
    ModEntry {
        file_path: format!("/mods/{id}.jar"),
        enabled: true,
        loader: LoaderKind::Fabric,
        mod_id: id.into(),
        name: name.into(),
        version: "1".into(),
        mc_version_range: None,
        dependencies: vec![],
        authors: vec![],
        description: None,
        side: Side::Both,
    }
}

#[test]
fn mods_sorted_by_lowercase_name() {
    let sorted = sort_mods(vec![named("beta", "1"), named("Alpha", "2"), named("alpha", "3"), named("Gamma", "4")]);
    let ids: Vec<&str> = sorted.iter().map(|m| m.mod_id.as_str()).collect();
    assert_eq!(ids, vec!["2", "3", "1", "4"]);
}
