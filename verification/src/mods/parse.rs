//! Mod metadata, from a jar's `META-INF/neoforge.mods.toml`,
//! `META-INF/mods.toml` or `fabric.mod.json`, normalised to a [`ModEntry`].
//!
//! Reading the jar and parsing TOML or JSON is the caller's work; these
//! functions take the parsed documents.

use vstd::prelude::*;
use crate::java::release::opt_view;
use crate::model::mod_entry::{LoaderKind, ModDep, ModEntry, Side};
use crate::paths::{path_extension, path_file_name, path_file_stem, path_join, with_file_name_spec};
use crate::text::{
    ascii_lowercase, is_suffix, join_seq, lower_seq, split_on, split_on_char, str_eq, sviews,
    to_chars, trim, trim_chars, views,
};

verus! {

/// Why a jar yields no mod.
#[derive(Debug, Clone)]
pub enum ParseError {
    Io(String),
    Zip(String),
    /// The jar has none of the three manifests.
    NotAMod,
    Toml(String),
    Json(String),
    Invalid(String),
}

/// Top level of a `mods.toml`.
#[derive(Debug, Clone)]
pub struct ModsToml {
    pub mods: Vec<ModsTomlMod>,
    /// `dependencies.<modId>`: the dependencies of each mod.
    pub dependencies: Vec<(String, Vec<ModsTomlDep>)>,
}

/// One `[[mods]]` entry.
#[derive(Debug, Clone)]
pub struct ModsTomlMod {
    pub mod_id: String,
    pub version: Option<String>,
    pub display_name: Option<String>,
    pub description: Option<String>,
    /// Comma-separated author names.
    pub authors: Option<String>,
}

/// One `[[dependencies.<modId>]]` entry.
#[derive(Debug, Clone)]
pub struct ModsTomlDep {
    pub mod_id: String,
    pub mandatory: bool,
    pub version_range: Option<String>,
    pub side: Option<String>,
}

/// A `depends` value of `fabric.mod.json`.
#[derive(Debug, Clone)]
pub enum DependValue {
    /// A string.
    Str(String),
    /// An array: each item's text when it is a string.
    Array(Vec<Option<String>>),
    /// Any other JSON value, as JSON text.
    Other(String),
}

/// One item of the `authors` array of `fabric.mod.json`.
#[derive(Debug, Clone)]
pub enum AuthorItem {
    /// A string.
    Name(String),
    /// An object; its `name` when that is a string.
    Object(Option<String>),
    /// Anything else.
    Other,
}

/// The `authors` value of `fabric.mod.json`.
#[derive(Debug, Clone)]
pub enum AuthorsValue {
    Array(Vec<AuthorItem>),
    /// Not an array.
    Other,
}

/// Top level of `fabric.mod.json`.
#[derive(Debug, Clone)]
pub struct FabricModJson {
    pub id: String,
    pub version: Option<String>,
    pub name: Option<String>,
    pub description: Option<String>,
    pub authors: Option<AuthorsValue>,
    pub depends: Option<Vec<(String, DependValue)>>,
    pub environment: Option<String>,
}

/// Which manifest of a jar is read.
#[derive(Debug, Clone, Copy, PartialEq, Eq, Structural)]
pub enum ManifestChoice {
    /// `META-INF/neoforge.mods.toml`, read as NeoForge.
    NeoForgeToml,
    /// `META-INF/mods.toml`, read as Forge.
    ForgeToml,
    /// `fabric.mod.json`.
    FabricJson,
}

// ───────────────────────────── specs ─────────────────────────────

/// A dependency as plain values.
pub open spec fn dep_view(d: ModDep) -> (Seq<char>, Option<Seq<char>>, bool, Side) {
    (d.mod_id@, opt_view(d.version_range), d.mandatory, d.side)
}

/// Dependencies as plain values.
pub open spec fn dep_views(ds: Seq<ModDep>) -> Seq<(Seq<char>, Option<Seq<char>>, bool, Side)> {
    ds.map_values(|d: ModDep| dep_view(d))
}

/// The side a `mods.toml` dependency names, case aside; both by default.
pub open spec fn side_of(s: Option<Seq<char>>) -> Side {
    match s {
        Some(x) => if lower_seq(x) == "client"@ {
            Side::Client
        } else if lower_seq(x) == "server"@ {
            Side::Server
        } else {
            Side::Both
        },
        None => Side::Both,
    }
}

/// The jar is disabled: its extension is `disabled`.
pub open spec fn disabled_spec(path: Seq<char>) -> bool {
    path_extension(path) == Some("disabled"@)
}

/// The file is a mod jar: its name, case aside, ends with `.jar` or
/// `.jar.disabled`.
pub open spec fn mod_jar_spec(path: Seq<char>) -> bool {
    match path_file_name(path) {
        Some(n) => is_suffix(".jar"@, lower_seq(n)) || is_suffix(".jar.disabled"@, lower_seq(n)),
        None => false,
    }
}

/// The trimmed, non-empty pieces, in order.
pub open spec fn trimmed_nonempty(parts: Seq<Seq<char>>) -> Seq<Seq<char>>
    decreases parts.len(),
{
    if parts.len() == 0 {
        Seq::empty()
    } else {
        let r = trimmed_nonempty(parts.drop_last());
        let t = trim(parts.last());
        if t.len() > 0 {
            r.push(t)
        } else {
            r
        }
    }
}

/// The names of a comma-separated author list.
pub open spec fn author_names(s: Seq<char>) -> Seq<Seq<char>> {
    trimmed_nonempty(split_on(s, ','))
}

/// The dependencies listed for `key`, from its first entry; none if absent.
pub open spec fn deps_for(d: Seq<(String, Vec<ModsTomlDep>)>, key: Seq<char>) -> Seq<ModsTomlDep>
    decreases d.len(),
{
    if d.len() == 0 {
        Seq::empty()
    } else if d[0].0@ == key {
        d[0].1@
    } else {
        deps_for(d.drop_first(), key)
    }
}

/// The version range of the first `minecraft` dependency.
pub open spec fn mc_range_toml(deps: Seq<ModsTomlDep>) -> Option<Seq<char>>
    decreases deps.len(),
{
    if deps.len() == 0 {
        None
    } else if deps[0].mod_id@ == "minecraft"@ {
        opt_view(deps[0].version_range)
    } else {
        mc_range_toml(deps.drop_first())
    }
}

/// The ids of the game and loader themselves, not listed as mod dependencies.
pub open spec fn platform_id_toml(id: Seq<char>) -> bool {
    id == "minecraft"@ || id == "forge"@ || id == "neoforge"@
}

/// The mod dependencies of a `mods.toml` entry, in order.
pub open spec fn toml_deps(deps: Seq<ModsTomlDep>) -> Seq<(Seq<char>, Option<Seq<char>>, bool, Side)>
    decreases deps.len(),
{
    if deps.len() == 0 {
        Seq::empty()
    } else {
        let r = toml_deps(deps.drop_last());
        let d = deps.last();
        if platform_id_toml(d.mod_id@) {
            r
        } else {
            r.push((d.mod_id@, opt_view(d.version_range), d.mandatory, side_of(opt_view(d.side))))
        }
    }
}

/// The text of a Fabric `depends` value: a string as it is, an array's
/// strings joined with `, `, anything else as JSON text.
pub open spec fn depend_text(v: DependValue) -> Seq<char> {
    match v {
        DependValue::Str(s) => s@,
        DependValue::Array(items) => join_seq(present_items(items@), ", "@),
        DependValue::Other(t) => t@,
    }
}

/// The present items, in order.
pub open spec fn present_items(items: Seq<Option<String>>) -> Seq<Seq<char>>
    decreases items.len(),
{
    if items.len() == 0 {
        Seq::empty()
    } else {
        let r = present_items(items.drop_last());
        match items.last() {
            Some(s) => r.push(s@),
            None => r,
        }
    }
}

/// The value of `depends[key]`, from its first entry.
pub open spec fn depend_lookup(d: Seq<(String, DependValue)>, key: Seq<char>) -> Option<DependValue>
    decreases d.len(),
{
    if d.len() == 0 {
        None
    } else if d[0].0@ == key {
        Some(d[0].1)
    } else {
        depend_lookup(d.drop_first(), key)
    }
}

/// The ids of the game, the loader and Java, not listed as mod dependencies.
pub open spec fn platform_id_fabric(id: Seq<char>) -> bool {
    id == "minecraft"@ || id == "fabricloader"@ || id == "java"@
}

/// The mod dependencies of `fabric.mod.json`, in order: mandatory, on both sides.
pub open spec fn fabric_deps(d: Seq<(String, DependValue)>) -> Seq<(Seq<char>, Option<Seq<char>>, bool, Side)>
    decreases d.len(),
{
    if d.len() == 0 {
        Seq::empty()
    } else {
        let r = fabric_deps(d.drop_last());
        let e = d.last();
        if platform_id_fabric(e.0@) {
            r
        } else {
            r.push((e.0@, Some(depend_text(e.1)), true, Side::Both))
        }
    }
}

/// The author names of `fabric.mod.json`: the strings and the string
/// `name`s of objects in an `authors` array.
pub open spec fn fabric_authors(v: AuthorsValue) -> Seq<Seq<char>> {
    match v {
        AuthorsValue::Array(items) => author_items(items@),
        AuthorsValue::Other => Seq::empty(),
    }
}

/// The names among author items, in order.
pub open spec fn author_items(items: Seq<AuthorItem>) -> Seq<Seq<char>>
    decreases items.len(),
{
    if items.len() == 0 {
        Seq::empty()
    } else {
        let r = author_items(items.drop_last());
        match items.last() {
            AuthorItem::Name(s) => r.push(s@),
            AuthorItem::Object(Some(s)) => r.push(s@),
            _ => r,
        }
    }
}

/// The side a Fabric `environment` names; both by default.
pub open spec fn environment_side(e: Option<Seq<char>>) -> Side {
    if e == Some("client"@) {
        Side::Client
    } else if e == Some("server"@) {
        Side::Server
    } else {
        Side::Both
    }
}

/// `e` is the entry of `jar` with the common fields given.
pub open spec fn entry_is(
    e: ModEntry,
    jar: Seq<char>,
    loader: LoaderKind,
    mod_id: Seq<char>,
    name: Seq<char>,
    version: Seq<char>,
    mc_range: Option<Seq<char>>,
    deps: Seq<(Seq<char>, Option<Seq<char>>, bool, Side)>,
    authors: Seq<Seq<char>>,
    description: Option<Seq<char>>,
    side: Side,
) -> bool {
    &&& e.file_path@ == jar
    &&& e.enabled == !disabled_spec(jar)
    &&& e.loader == loader
    &&& e.mod_id@ == mod_id
    &&& e.name@ == name
    &&& e.version@ == version
    &&& opt_view(e.mc_version_range) == mc_range
    &&& dep_views(e.dependencies@) == deps
    &&& sviews(e.authors@) == authors
    &&& opt_view(e.description) == description
    &&& e.side == side
}

// ───────────────────────────── exec ─────────────────────────────

impl ParseError {
    /// The text of this error.
    pub fn message(&self) -> (s: String)
        ensures
            self matches ParseError::NotAMod ==> s@
                == "not a recognized mod jar: no mods.toml / fabric.mod.json / neoforge.mods.toml found"@,
            self matches ParseError::Invalid(m) ==> s@ == "invalid manifest: "@ + m@,
            self matches ParseError::Io(m) ==> s@ == "io error: "@ + m@,
            self matches ParseError::Zip(m) ==> s@ == "zip error: "@ + m@,
            self matches ParseError::Toml(m) ==> s@ == "toml parse error: "@ + m@,
            self matches ParseError::Json(m) ==> s@ == "json parse error: "@ + m@,
    {
        let (head, body) = match self {
            ParseError::NotAMod => {
                return "not a recognized mod jar: no mods.toml / fabric.mod.json / neoforge.mods.toml found".to_string();
            },
            ParseError::Io(m) => ("io error: ", m),
            ParseError::Zip(m) => ("zip error: ", m),
            ParseError::Toml(m) => ("toml parse error: ", m),
            ParseError::Json(m) => ("json parse error: ", m),
            ParseError::Invalid(m) => ("invalid manifest: ", m),
        };
        let mut s = head.to_string();
        s.append(body.as_str());
        s
    }
}

fn opt_clone(o: &Option<String>) -> (r: Option<String>)
    ensures
        r == *o,
{
    match o {
        Some(s) => Some(s.clone()),
        None => None,
    }
}

/// Which manifest a jar is read from: NeoForge's first, then Forge's,
/// then Fabric's; none of them is not a mod.
pub fn choose_manifest(has_neoforge_toml: bool, has_mods_toml: bool, has_fabric_json: bool) -> (r: Result<
    ManifestChoice,
    ParseError,
>)
    ensures
        has_neoforge_toml ==> r == Ok::<ManifestChoice, ParseError>(ManifestChoice::NeoForgeToml),
        !has_neoforge_toml && has_mods_toml ==> r == Ok::<ManifestChoice, ParseError>(ManifestChoice::ForgeToml),
        !has_neoforge_toml && !has_mods_toml && has_fabric_json ==> r == Ok::<ManifestChoice, ParseError>(ManifestChoice::FabricJson),
        !has_neoforge_toml && !has_mods_toml && !has_fabric_json ==> r matches Err(ParseError::NotAMod),
{
    if has_neoforge_toml {
        Ok(ManifestChoice::NeoForgeToml)
    } else if has_mods_toml {
        Ok(ManifestChoice::ForgeToml)
    } else if has_fabric_json {
        Ok(ManifestChoice::FabricJson)
    } else {
        Err(ParseError::NotAMod)
    }
}

/// The side a `mods.toml` dependency names (see [`side_of`]).
pub fn parse_side(s: Option<&str>) -> (r: Side)
    ensures
        r == side_of(match s {
            Some(x) => Some(x@),
            None => None,
        }),
{
    match s {
        Some(x) => {
            let l = ascii_lowercase(to_chars(x).as_slice());
            let c = to_chars("client");
            let v = to_chars("server");
            if crate::text::chars_eq(l.as_slice(), c.as_slice()) {
                Side::Client
            } else if crate::text::chars_eq(l.as_slice(), v.as_slice()) {
                Side::Server
            } else {
                Side::Both
            }
        },
        None => Side::Both,
    }
}

/// The jar at `path` is disabled (its extension is `disabled`).
pub fn is_disabled_jar(path: &str) -> (b: bool)
    ensures
        b == disabled_spec(path@),
{
    match crate::paths::file_name(path) {
        Some(n) => {
            let (_, ext) = crate::paths::split_name(n.as_str());
            match ext {
                Some(e) => str_eq(e.as_str(), "disabled"),
                None => false,
            }
        },
        None => false,
    }
}

/// The file at `path` is a mod jar (see [`mod_jar_spec`]). Only ASCII
/// letters are lowered: no other character lowers into these suffixes.
pub fn is_mod_jar(path: &str) -> (b: bool)
    ensures
        b == mod_jar_spec(path@),
{
    match crate::paths::file_name(path) {
        Some(n) => {
            let l = ascii_lowercase(to_chars(n.as_str()).as_slice());
            let a = to_chars(".jar");
            let d = to_chars(".jar.disabled");
            crate::text::ends_with(l.as_slice(), a.as_slice()) || crate::text::ends_with(
                l.as_slice(),
                d.as_slice(),
            )
        },
        None => false,
    }
}

/// The enabled path of a disabled jar: its file name without `.disabled`
/// (empty when it lacks that suffix).
pub fn enabled_path(disabled: &str) -> (p: String)
    ensures
        path_file_name(disabled@) matches Some(n) ==> p@ == with_file_name_spec(
            disabled@,
            if is_suffix(".disabled"@, n) { n.take(n.len() - ".disabled"@.len()) } else { Seq::empty() },
        ),
        path_file_name(disabled@) is None ==> p@ == path_join(disabled@, Seq::empty()),
{
    match crate::paths::file_name(disabled) {
        Some(n) => {
            let v = to_chars(n.as_str());
            let sfx = to_chars(".disabled");
            let stem = if crate::text::ends_with(v.as_slice(), sfx.as_slice()) {
                crate::text::string_of(v.as_slice(), 0, v.len() - sfx.len())
            } else {
                String::new()
            };
            proof {
                assert(v@.take(v@.len() - sfx@.len()) == v@.subrange(0, v@.len() - sfx@.len()));
            }
            crate::paths::with_file_name(disabled, stem.as_str())
        },
        None => {
            proof {
                reveal_strlit("");
            }
            crate::paths::join_path(disabled, "")
        },
    }
}

/// The trimmed, non-empty names of a comma-separated author list.
pub fn split_authors(s: &str) -> (r: Vec<String>)
    ensures
        sviews(r@) == author_names(s@),
{
    let parts = split_on_char(to_chars(s).as_slice(), ',');
    let ghost ps = views(parts@);
    let mut r: Vec<String> = Vec::new();
    let mut i: usize = 0;
    while i < parts.len()
        invariant
            i <= parts@.len(),
            ps == views(parts@),
            ps == split_on(s@, ','),
            sviews(r@) == trimmed_nonempty(ps.take(i as int)),
        decreases parts@.len() - i,
    {
        assert(ps.take(i + 1).drop_last() == ps.take(i as int));
        assert(ps.take(i + 1).last() == parts@[i as int]@);
        let t = trim_chars(parts[i].as_slice());
        if t.len() > 0 {
            let ghost before = sviews(r@);
            r.push(crate::text::from_chars(t.as_slice()));
            assert(sviews(r@) == before.push(t@));
        }
        i = i + 1;
    }
    assert(ps.take(parts@.len() as int) == ps);
    r
}

/// The entry of the jar at `jar_path` with the given fields; it is
/// enabled unless the jar is disabled.
pub fn make_entry(
    jar_path: &str,
    loader: LoaderKind,
    mod_id: String,
    name: String,
    version: String,
    mc_version_range: Option<String>,
    dependencies: Vec<ModDep>,
    authors: Vec<String>,
    description: Option<String>,
    side: Side,
) -> (e: ModEntry)
    ensures
        e.file_path@ == jar_path@,
        e.enabled == !disabled_spec(jar_path@),
        e.loader == loader,
        e.mod_id == mod_id,
        e.name == name,
        e.version == version,
        e.mc_version_range == mc_version_range,
        e.dependencies == dependencies,
        e.authors == authors,
        e.description == description,
        e.side == side,
{
    let enabled = !is_disabled_jar(jar_path);
    ModEntry {
        file_path: jar_path.to_string(),
        enabled,
        loader,
        mod_id,
        name,
        version,
        mc_version_range,
        dependencies,
        authors,
        description,
        side,
    }
}

fn find_deps(d: &Vec<(String, Vec<ModsTomlDep>)>, key: &str) -> (r: Option<usize>)
    ensures
        r matches Some(i) ==> i < d@.len() && deps_for(d@, key@) == d@[i as int].1@,
        r is None ==> deps_for(d@, key@) == Seq::<ModsTomlDep>::empty(),
{
    let mut i: usize = 0;
    assert(d@.skip(0) == d@);
    while i < d.len()
        invariant
            i <= d@.len(),
            deps_for(d@.skip(i as int), key@) == deps_for(d@, key@),
        decreases d@.len() - i,
    {
        assert(d@.skip(i as int)[0] == d@[i as int]);
        if str_eq(d[i].0.as_str(), key) {
            return Some(i);
        }
        assert(d@.skip(i as int).drop_first() == d@.skip(i + 1));
        i = i + 1;
    }
    None
}

fn toml_mc_range(deps: &Vec<ModsTomlDep>) -> (r: Option<String>)
    ensures
        opt_view(r) == mc_range_toml(deps@),
{
    let mut i: usize = 0;
    assert(deps@.skip(0) == deps@);
    while i < deps.len()
        invariant
            i <= deps@.len(),
            mc_range_toml(deps@.skip(i as int)) == mc_range_toml(deps@),
        decreases deps@.len() - i,
    {
        assert(deps@.skip(i as int)[0] == deps@[i as int]);
        if str_eq(deps[i].mod_id.as_str(), "minecraft") {
            return opt_clone(&deps[i].version_range);
        }
        assert(deps@.skip(i as int).drop_first() == deps@.skip(i + 1));
        i = i + 1;
    }
    None
}

fn toml_dependencies(deps: &Vec<ModsTomlDep>) -> (r: Vec<ModDep>)
    ensures
        dep_views(r@) == toml_deps(deps@),
{
    let mut r: Vec<ModDep> = Vec::new();
    let mut i: usize = 0;
    while i < deps.len()
        invariant
            i <= deps@.len(),
            dep_views(r@) == toml_deps(deps@.take(i as int)),
        decreases deps@.len() - i,
    {
        assert(deps@.take(i + 1).drop_last() == deps@.take(i as int));
        assert(deps@.take(i + 1).last() == deps@[i as int]);
        let d = &deps[i];
        let id = d.mod_id.as_str();
        if !(str_eq(id, "minecraft") || str_eq(id, "forge") || str_eq(id, "neoforge")) {
            let side = parse_side(match &d.side {
                Some(s) => Some(s.as_str()),
                None => None,
            });
            let ghost before = dep_views(r@);
            r.push(
                ModDep {
                    mod_id: d.mod_id.clone(),
                    version_range: opt_clone(&d.version_range),
                    mandatory: d.mandatory,
                    side,
                },
            );
            assert(dep_views(r@) == before.push(dep_view(r@.last())));
        }
        i = i + 1;
    }
    assert(deps@.take(deps@.len() as int) == deps@);
    r
}

/// The entry of a jar whose `mods.toml` (or `neoforge.mods.toml`) reads
/// `parsed`, for `loader`: its first mod, with that mod's dependencies
/// other than the game and the loader, the game's version range, the
/// comma-separated authors, the jar's stem when no display name is given
/// and `0.0.0` when no version is; an error when there is no mod.
pub fn forge_entry(parsed: &ModsToml, loader: LoaderKind, jar_path: &str) -> (r: Result<ModEntry, ParseError>)
    requires
        crate::text::keys_distinct(parsed.dependencies@),
    ensures
        parsed.mods@.len() == 0 ==> (r matches Err(ParseError::Invalid(m)) && m@
            == "mods.toml 中无 [[mods]] 条目"@),
        parsed.mods@.len() > 0 ==> (r matches Ok(e) && {
            let p = parsed.mods@[0];
            let deps = deps_for(parsed.dependencies@, p.mod_id@);
            entry_is(
                e,
                jar_path@,
                loader,
                p.mod_id@,
                match p.display_name {
                    Some(n) => n@,
                    None => match path_file_stem(jar_path@) {
                        Some(s) => s,
                        None => Seq::empty(),
                    },
                },
                match p.version {
                    Some(v) => v@,
                    None => "0.0.0"@,
                },
                mc_range_toml(deps),
                toml_deps(deps),
                match p.authors {
                    Some(a) => author_names(a@),
                    None => Seq::empty(),
                },
                opt_view(p.description),
                Side::Both,
            )
        }),
{
    if parsed.mods.len() == 0 {
        return Err(ParseError::Invalid("mods.toml 中无 [[mods]] 条目".to_string()));
    }
    let p = &parsed.mods[0];
    let empty: Vec<ModsTomlDep> = Vec::new();
    let deps: &Vec<ModsTomlDep> = match find_deps(&parsed.dependencies, p.mod_id.as_str()) {
        Some(i) => &parsed.dependencies[i].1,
        None => &empty,
    };
    let mc = toml_mc_range(deps);
    let dependencies = toml_dependencies(deps);
    let authors = match &p.authors {
        Some(a) => split_authors(a.as_str()),
        None => Vec::new(),
    };
    let name = match &p.display_name {
        Some(n) => n.clone(),
        None => match crate::paths::file_name(jar_path) {
            Some(f) => crate::paths::split_name(f.as_str()).0,
            None => String::new(),
        },
    };
    let version = match &p.version {
        Some(v) => v.clone(),
        None => "0.0.0".to_string(),
    };
    let ghost dv = deps_for(parsed.dependencies@, p.mod_id@);
    assert(deps@ == dv);
    assert(name@ == match p.display_name {
        Some(n) => n@,
        None => match path_file_stem(jar_path@) {
            Some(s) => s,
            None => Seq::empty(),
        },
    });
    assert(version@ == match p.version {
        Some(v) => v@,
        None => "0.0.0"@,
    });
    assert(sviews(authors@) == match p.authors {
        Some(a) => author_names(a@),
        None => Seq::empty(),
    });
    let e = make_entry(
        jar_path,
        loader,
        p.mod_id.clone(),
        name,
        version,
        mc,
        dependencies,
        authors,
        opt_clone(&p.description),
        Side::Both,
    );
    assert(opt_view(e.mc_version_range) == mc_range_toml(dv));
    assert(dep_views(e.dependencies@) == toml_deps(dv));
    Ok(e)
}

/// The text of a Fabric `depends` value (see [`depend_text`]).
pub fn version_value_to_string(v: &DependValue) -> (s: String)
    ensures
        s@ == depend_text(*v),
{
    match v {
        DependValue::Str(s) => s.clone(),
        DependValue::Other(t) => t.clone(),
        DependValue::Array(items) => {
            let mut present: Vec<String> = Vec::new();
            let mut i: usize = 0;
            while i < items.len()
                invariant
                    i <= items@.len(),
                    sviews(present@) == present_items(items@.take(i as int)),
                decreases items@.len() - i,
            {
                assert(items@.take(i + 1).drop_last() == items@.take(i as int));
                assert(items@.take(i + 1).last() == items@[i as int]);
                if let Some(s) = &items[i] {
                    let ghost before = sviews(present@);
                    present.push(s.clone());
                    assert(sviews(present@) == before.push(s@));
                }
                i = i + 1;
            }
            assert(items@.take(items@.len() as int) == items@);
            crate::text::join_strings(&present, ", ")
        },
    }
}

/// The author names of a Fabric `authors` value (see [`fabric_authors`]).
pub fn extract_fabric_authors(v: &AuthorsValue) -> (r: Vec<String>)
    ensures
        sviews(r@) == fabric_authors(*v),
{
    let mut r: Vec<String> = Vec::new();
    match v {
        AuthorsValue::Other => {},
        AuthorsValue::Array(items) => {
            let mut i: usize = 0;
            while i < items.len()
                invariant
                    i <= items@.len(),
                    sviews(r@) == author_items(items@.take(i as int)),
                decreases items@.len() - i,
            {
                assert(items@.take(i + 1).drop_last() == items@.take(i as int));
                assert(items@.take(i + 1).last() == items@[i as int]);
                let ghost before = sviews(r@);
                match &items[i] {
                    AuthorItem::Name(s) => {
                        r.push(s.clone());
                        assert(sviews(r@) == before.push(s@));
                    },
                    AuthorItem::Object(Some(s)) => {
                        r.push(s.clone());
                        assert(sviews(r@) == before.push(s@));
                    },
                    _ => {},
                }
                i = i + 1;
            }
            assert(items@.take(items@.len() as int) == items@);
        },
    }
    r
}

fn fabric_mc_range(d: &Vec<(String, DependValue)>) -> (r: Option<String>)
    ensures
        opt_view(r) == match depend_lookup(d@, "minecraft"@) {
            Some(v) => Some(depend_text(v)),
            None => None,
        },
{
    let mut i: usize = 0;
    assert(d@.skip(0) == d@);
    while i < d.len()
        invariant
            i <= d@.len(),
            depend_lookup(d@.skip(i as int), "minecraft"@) == depend_lookup(d@, "minecraft"@),
        decreases d@.len() - i,
    {
        assert(d@.skip(i as int)[0] == d@[i as int]);
        if str_eq(d[i].0.as_str(), "minecraft") {
            return Some(version_value_to_string(&d[i].1));
        }
        assert(d@.skip(i as int).drop_first() == d@.skip(i + 1));
        i = i + 1;
    }
    None
}

fn fabric_dependencies(d: &Vec<(String, DependValue)>) -> (r: Vec<ModDep>)
    ensures
        dep_views(r@) == fabric_deps(d@),
{
    let mut r: Vec<ModDep> = Vec::new();
    let mut i: usize = 0;
    while i < d.len()
        invariant
            i <= d@.len(),
            dep_views(r@) == fabric_deps(d@.take(i as int)),
        decreases d@.len() - i,
    {
        assert(d@.take(i + 1).drop_last() == d@.take(i as int));
        assert(d@.take(i + 1).last() == d@[i as int]);
        let k = d[i].0.as_str();
        if !(str_eq(k, "minecraft") || str_eq(k, "fabricloader") || str_eq(k, "java")) {
            let ghost before = dep_views(r@);
            r.push(
                ModDep {
                    mod_id: d[i].0.clone(),
                    version_range: Some(version_value_to_string(&d[i].1)),
                    mandatory: true,
                    side: Side::Both,
                },
            );
            assert(dep_views(r@) == before.push(dep_view(r@.last())));
        }
        i = i + 1;
    }
    assert(d@.take(d@.len() as int) == d@);
    r
}

/// The entry of a jar whose `fabric.mod.json` reads `parsed`: its
/// dependencies other than the game, the loader and Java, the game's
/// version range, the author names, the side its `environment` names, its
/// id as the name when none is given, and `0.0.0` when no version is.
pub fn fabric_entry(parsed: &FabricModJson, jar_path: &str) -> (e: ModEntry)
    requires
        parsed.depends matches Some(d) ==> crate::text::keys_distinct(d@),
    ensures
        entry_is(
            e,
            jar_path@,
            LoaderKind::Fabric,
            parsed.id@,
            match parsed.name {
                Some(n) => n@,
                None => parsed.id@,
            },
            match parsed.version {
                Some(v) => v@,
                None => "0.0.0"@,
            },
            match parsed.depends {
                Some(d) => match depend_lookup(d@, "minecraft"@) {
                    Some(v) => Some(depend_text(v)),
                    None => None,
                },
                None => None,
            },
            match parsed.depends {
                Some(d) => fabric_deps(d@),
                None => Seq::empty(),
            },
            match parsed.authors {
                Some(a) => fabric_authors(a),
                None => Seq::empty(),
            },
            opt_view(parsed.description),
            environment_side(opt_view(parsed.environment)),
        ),
{
    let empty: Vec<(String, DependValue)> = Vec::new();
    let depends: &Vec<(String, DependValue)> = match &parsed.depends {
        Some(d) => d,
        None => &empty,
    };
    assert(fabric_deps(Seq::<(String, DependValue)>::empty()) == Seq::<(Seq<char>, Option<Seq<char>>, bool, Side)>::empty());
    let mc = fabric_mc_range(depends);
    let dependencies = fabric_dependencies(depends);
    let authors = match &parsed.authors {
        Some(a) => extract_fabric_authors(a),
        None => Vec::new(),
    };
    let side = match &parsed.environment {
        Some(e) => if str_eq(e.as_str(), "client") {
            Side::Client
        } else if str_eq(e.as_str(), "server") {
            Side::Server
        } else {
            Side::Both
        },
        None => Side::Both,
    };
    let name = match &parsed.name {
        Some(n) => n.clone(),
        None => parsed.id.clone(),
    };
    let version = match &parsed.version {
        Some(v) => v.clone(),
        None => "0.0.0".to_string(),
    };
    assert(opt_view(mc) == match parsed.depends {
        Some(d) => match depend_lookup(d@, "minecraft"@) {
            Some(v) => Some(depend_text(v)),
            None => None,
        },
        None => None,
    });
    assert(dep_views(dependencies@) == match parsed.depends {
        Some(d) => fabric_deps(d@),
        None => Seq::empty(),
    });
    assert(sviews(authors@) == match parsed.authors {
        Some(a) => fabric_authors(a),
        None => Seq::empty(),
    });
    assert(side == environment_side(opt_view(parsed.environment)));
    make_entry(
        jar_path,
        LoaderKind::Fabric,
        parsed.id.clone(),
        name,
        version,
        mc,
        dependencies,
        authors,
        opt_clone(&parsed.description),
        side,
    )
}


/// In a dependency table of distinct mod ids (a map), looking up an
/// entry's id gives that entry's dependencies, whatever the order.
pub proof fn law_deps_for_distinct(d: Seq<(String, Vec<ModsTomlDep>)>, i: int)
    requires
        crate::text::keys_distinct(d),
        0 <= i < d.len(),
    ensures
        deps_for(d, d[i].0@) == d[i].1@,
    decreases i,
{
    if i > 0 {
        let t = d.drop_first();
        assert(d[0].0@ != d[i].0@);
        assert(crate::text::keys_distinct(t)) by {
            assert forall|a: int, b: int| 0 <= a < b < t.len() implies (#[trigger] t[a]).0@ != (#[trigger] t[b]).0@ by {
                assert(t[a] == d[a + 1] && t[b] == d[b + 1]);
            }
        }
        assert(t[i - 1] == d[i]);
        law_deps_for_distinct(t, i - 1);
    }
}


/// The dependencies of a `mods.toml` entry leave out the game and the
/// loaders (`minecraft`, `forge`, `neoforge`) and keep every other
/// dependency of the mod.
pub proof fn law_toml_deps_leave_out_platform(deps: Seq<ModsTomlDep>)
    ensures
        forall|i: int| 0 <= i < toml_deps(deps).len() ==> {
            let id = (#[trigger] toml_deps(deps)[i]).0;
            id != "minecraft"@ && id != "forge"@ && id != "neoforge"@
        },
        forall|j: int| 0 <= j < deps.len() && (#[trigger] deps[j]).mod_id@ != "minecraft"@ && deps[j].mod_id@
            != "forge"@ && deps[j].mod_id@ != "neoforge"@ ==> exists|i: int| 0 <= i < toml_deps(deps).len()
            && (#[trigger] toml_deps(deps)[i]).0 == deps[j].mod_id@,
    decreases deps.len(),
{
    if deps.len() > 0 {
        let t = deps.drop_last();
        law_toml_deps_leave_out_platform(t);
        let r = toml_deps(t);
        let d = deps.last();
        assert forall|j: int| 0 <= j < deps.len() && (#[trigger] deps[j]).mod_id@ != "minecraft"@ && deps[j].mod_id@
            != "forge"@ && deps[j].mod_id@ != "neoforge"@ implies exists|i: int| 0 <= i < toml_deps(deps).len()
            && (#[trigger] toml_deps(deps)[i]).0 == deps[j].mod_id@ by {
            if j < deps.len() - 1 {
                assert(t[j] == deps[j]);
                let i = choose|i: int| 0 <= i < r.len() && (#[trigger] r[i]).0 == t[j].mod_id@;
                assert(toml_deps(deps)[i] == r[i]);
            } else {
                assert(toml_deps(deps)[r.len() as int].0 == d.mod_id@);
            }
        }
    }
}

/// The dependencies of `fabric.mod.json` leave out the game, the loader and
/// Java (`minecraft`, `fabricloader`, `java`), keep every other entry, and
/// are all mandatory on both sides.
pub proof fn law_fabric_deps_leave_out_platform(d: Seq<(String, DependValue)>)
    ensures
        forall|i: int| 0 <= i < fabric_deps(d).len() ==> {
            let e = #[trigger] fabric_deps(d)[i];
            &&& e.0 != "minecraft"@ && e.0 != "fabricloader"@ && e.0 != "java"@
            &&& e.2 && e.3 == Side::Both
        },
        forall|j: int| 0 <= j < d.len() && (#[trigger] d[j]).0@ != "minecraft"@ && d[j].0@ != "fabricloader"@
            && d[j].0@ != "java"@ ==> exists|i: int| 0 <= i < fabric_deps(d).len()
            && (#[trigger] fabric_deps(d)[i]).0 == d[j].0@,
    decreases d.len(),
{
    if d.len() > 0 {
        let t = d.drop_last();
        law_fabric_deps_leave_out_platform(t);
        let r = fabric_deps(t);
        assert forall|j: int| 0 <= j < d.len() && (#[trigger] d[j]).0@ != "minecraft"@ && d[j].0@ != "fabricloader"@
            && d[j].0@ != "java"@ implies exists|i: int| 0 <= i < fabric_deps(d).len()
            && (#[trigger] fabric_deps(d)[i]).0 == d[j].0@ by {
            if j < d.len() - 1 {
                assert(t[j] == d[j]);
                let i = choose|i: int| 0 <= i < r.len() && (#[trigger] r[i]).0 == t[j].0@;
                assert(fabric_deps(d)[i] == r[i]);
            } else {
                assert(fabric_deps(d)[r.len() as int].0 == d.last().0@);
            }
        }
    }
}


/// The side a `mods.toml` dependency names: `client` or `server` in any
/// case; anything else, or nothing, means both sides.
pub proof fn law_dependency_side(s: Option<Seq<char>>)
    ensures
        s matches Some(x) && lower_seq(x) == "client"@ ==> side_of(s) == Side::Client,
        s matches Some(x) && lower_seq(x) == "server"@ ==> side_of(s) == Side::Server,
        s matches Some(x) && lower_seq(x) != "client"@ && lower_seq(x) != "server"@ ==> side_of(s) == Side::Both,
        s is None ==> side_of(s) == Side::Both,
{
    reveal_strlit("client");
    reveal_strlit("server");
    assert("client"@[0] != "server"@[0]);
}

} // verus!
