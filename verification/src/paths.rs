//! The launcher's directory layout. Paths are strings with `/` separators.

use vstd::prelude::*;

verus! {

/// `base` joined with `part`, as `Path::join` does on Unix: an absolute
/// `part` replaces `base`; otherwise a `/` separates them unless `base` is
/// empty or already ends with one.
pub open spec fn path_join(base: Seq<char>, part: Seq<char>) -> Seq<char> {
    if part.len() > 0 && part[0] == '/' {
        part
    } else if base.len() == 0 || base.last() == '/' {
        base + part
    } else {
        base + "/"@ + part
    }
}

/// `base` joined with `part` (see [`path_join`]).
pub fn join_path(base: &str, part: &str) -> (r: String)
    ensures
        r@ == path_join(base@, part@),
{
    let pv = crate::text::to_chars(part);
    if pv.len() > 0 && pv[0] == '/' {
        return part.to_string();
    }
    let bv = crate::text::to_chars(base);
    let mut r = base.to_string();
    if !(bv.len() == 0 || bv[bv.len() - 1] == '/') {
        r.append("/");
    }
    r.append(part);
    proof {
        reveal_strlit("/");
    }
    r
}

/// The index of the last `/` of `s`, or `-1`.
pub open spec fn last_sep(s: Seq<char>) -> int
    decreases s.len(),
{
    if s.len() == 0 {
        -1
    } else if s.last() == '/' {
        s.len() - 1
    } else {
        last_sep(s.drop_last())
    }
}

/// `k` is the last `/` of `s` when `s[k]` is one and none follows it
/// (`-1`: none at all).
pub proof fn lemma_last_sep(s: Seq<char>, k: int)
    requires
        -1 <= k < s.len(),
        k >= 0 ==> s[k] == '/',
        forall|j: int| k < j < s.len() ==> s[j] != '/',
    ensures
        last_sep(s) == k,
    decreases s.len(),
{
    if s.len() > 0 && s.last() != '/' {
        lemma_last_sep(s.drop_last(), k);
    }
}

/// The file name of a path (`Path::file_name`): its last component once
/// trailing `/` are dropped; none where that is empty or `..`.
pub open spec fn path_file_name(path: Seq<char>) -> Option<Seq<char>> {
    let t = crate::text::trim_char_end(path, '/');
    let n = t.skip(last_sep(t) + 1);
    if n.len() == 0 || n == ".."@ {
        None
    } else {
        Some(n)
    }
}

/// The index of the last `.` of `s`, or `-1`.
pub open spec fn last_dot(s: Seq<char>) -> int
    decreases s.len(),
{
    if s.len() == 0 {
        -1
    } else if s.last() == '.' {
        s.len() - 1
    } else {
        last_dot(s.drop_last())
    }
}

/// A file name split at its last `.` into stem and extension; a name
/// whose only `.` leads it has no extension (`Path::file_stem`, `Path::extension`).
pub open spec fn split_extension(name: Seq<char>) -> (Seq<char>, Option<Seq<char>>) {
    let i = last_dot(name);
    if i <= 0 {
        (name, None)
    } else {
        (name.take(i), Some(name.skip(i + 1)))
    }
}

/// The stem of a path's file name.
pub open spec fn path_file_stem(path: Seq<char>) -> Option<Seq<char>> {
    match path_file_name(path) {
        Some(n) => Some(split_extension(n).0),
        None => None,
    }
}

/// The extension of a path's file name.
pub open spec fn path_extension(path: Seq<char>) -> Option<Seq<char>> {
    match path_file_name(path) {
        Some(n) => split_extension(n).1,
        None => None,
    }
}

/// `path` with its file name replaced by `name` (`Path::with_file_name`
/// on a path that has a file name).
pub open spec fn with_file_name_spec(path: Seq<char>, name: Seq<char>) -> Seq<char> {
    let t = crate::text::trim_char_end(path, '/');
    let k = last_sep(t);
    let parent = if k < 0 {
        Seq::empty()
    } else if k == 0 {
        seq!['/']
    } else {
        t.take(k)
    };
    path_join(parent, name)
}

/// The trimmed path and the index of its last `/`.
fn last_component(path: &str) -> (r: (Vec<char>, usize))
    ensures
        r.0@ == crate::text::trim_char_end(path@, '/'),
        r.1 <= r.0@.len(),
        last_sep(r.0@) == r.1 - 1,
{
    let v = crate::text::to_chars(path);
    let t = crate::text::trim_matches_end_char(v.as_slice(), '/');
    let mut i: usize = t.len();
    while i > 0 && t[i - 1] != '/'
        invariant
            i <= t@.len(),
            forall|j: int| i <= j < t@.len() ==> t@[j] != '/',
        decreases i,
    {
        i = i - 1;
    }
    proof {
        lemma_last_sep(t@, i - 1);
    }
    (t, i)
}

/// The file name of `path` (see [`path_file_name`]).
pub fn file_name(path: &str) -> (r: Option<String>)
    ensures
        r matches Some(s) ==> path_file_name(path@) == Some(s@),
        r is None ==> path_file_name(path@) is None,
{
    let (t, i) = last_component(path);
    assert(t@.skip(i as int) == t@.subrange(i as int, t@.len() as int));
    let name = crate::text::sub_chars(t.as_slice(), i, t.len());
    let dots = crate::text::to_chars("..");
    if name.len() == 0 || crate::text::chars_eq(name.as_slice(), dots.as_slice()) {
        None
    } else {
        Some(crate::text::from_chars(name.as_slice()))
    }
}

/// The stem and extension of a file name (see [`split_extension`]).
pub fn split_name(name: &str) -> (r: (String, Option<String>))
    ensures
        r.0@ == split_extension(name@).0,
        r.1 matches Some(e) ==> split_extension(name@).1 == Some(e@),
        r.1 is None ==> split_extension(name@).1 is None,
{
    let v = crate::text::to_chars(name);
    let mut i: usize = v.len();
    while i > 0 && v[i - 1] != '.'
        invariant
            i <= v@.len(),
            forall|j: int| i <= j < v@.len() ==> v@[j] != '.',
        decreases i,
    {
        i = i - 1;
    }
    proof {
        lemma_last_dot(v@, i - 1);
    }
    if i <= 1 {
        (name.to_string(), None)
    } else {
        assert(v@.take(i - 1) == v@.subrange(0, i - 1));
        assert(v@.skip(i as int) == v@.subrange(i as int, v@.len() as int));
        (crate::text::string_of(v.as_slice(), 0, i - 1), Some(crate::text::string_of(v.as_slice(), i, v.len())))
    }
}

proof fn lemma_last_dot(s: Seq<char>, k: int)
    requires
        -1 <= k < s.len(),
        k >= 0 ==> s[k] == '.',
        forall|j: int| k < j < s.len() ==> s[j] != '.',
    ensures
        last_dot(s) == k,
    decreases s.len(),
{
    if s.len() > 0 && s.last() != '.' {
        lemma_last_dot(s.drop_last(), k);
    }
}

/// `path` with its file name replaced by `name` (see [`with_file_name_spec`]).
pub fn with_file_name(path: &str, name: &str) -> (r: String)
    ensures
        r@ == with_file_name_spec(path@, name@),
{
    let (t, i) = last_component(path);
    let parent = if i == 0 {
        String::new()
    } else if i == 1 {
        "/".to_string()
    } else {
        crate::text::string_of(t.as_slice(), 0, i - 1)
    };
    proof {
        reveal_strlit("/");
        assert(t@.take(i - 1) == t@.subrange(0, i - 1));
    }
    join_path(parent.as_str(), name)
}

/// Where the launcher keeps its data.
#[derive(Debug, Clone)]
pub struct PathLayout {
    pub data_root: String,
    pub mode: PathMode,
}

/// How the data root was chosen.
#[derive(Debug, Clone, Copy, PartialEq, Eq, Structural)]
pub enum PathMode {
    /// `./data/` next to the executable.
    Portable,
    /// The per-user application data directory.
    AppData,
}

/// The portable data root next to the executable's directory.
pub fn portable_root(exe_dir: &str) -> (r: String)
    ensures
        r@ == path_join(exe_dir@, "data"@),
{
    join_path(exe_dir, "data")
}

/// The per-user data root: `%APPDATA%/NovaCraftLauncher` on Windows,
/// `$HOME/.local/share/NovaCraftLauncher` elsewhere.
pub fn appdata_root(windows: bool, base: &str) -> (r: String)
    ensures
        windows ==> r@ == path_join(base@, "NovaCraftLauncher"@),
        !windows ==> r@ == path_join(base@, ".local/share/NovaCraftLauncher"@),
{
    if windows {
        join_path(base, "NovaCraftLauncher")
    } else {
        join_path(base, ".local/share/NovaCraftLauncher")
    }
}

impl PathLayout {
    /// Picks the data root from what the caller observed: the portable root
    /// next to the executable when usable, else the per-user root (or the
    /// error of finding it) when usable, else an error naming both.
    pub fn autodetect(
        portable: String,
        portable_usable: bool,
        appdata: Result<String, crate::errors::Error>,
        appdata_usable: bool,
    ) -> (r: Result<PathLayout, crate::errors::Error>)
        ensures
            portable_usable ==> (r matches Ok(l) && l.data_root == portable && l.mode
                == PathMode::Portable),
            !portable_usable ==> (appdata matches Err(e) ==> r == Err::<PathLayout, crate::errors::Error>(e)),
            !portable_usable && appdata_usable ==> (appdata matches Ok(a) ==> (r matches Ok(l)
                && l.data_root == a && l.mode == PathMode::AppData)),
            !portable_usable && !appdata_usable ==> (appdata matches Ok(a) ==> (r matches Err(
                crate::errors::Error::PathLayout(m),
            ) && m@ == "neither portable ("@ + portable@ + ") nor appdata ("@ + a@
                + ") is usable"@)),
    {
        if portable_usable {
            return Ok(PathLayout { data_root: portable, mode: PathMode::Portable });
        }
        let appdata = match appdata {
            Ok(a) => a,
            Err(e) => {
                return Err(e);
            },
        };
        if appdata_usable {
            return Ok(PathLayout { data_root: appdata, mode: PathMode::AppData });
        }
        let mut msg = "neither portable (".to_string();
        msg.append(portable.as_str());
        msg.append(") nor appdata (");
        msg.append(appdata.as_str());
        msg.append(") is usable");
        Err(crate::errors::Error::PathLayout(msg))
    }

    /// A portable layout rooted at `data_root`.
    pub fn with_root(data_root: String) -> (l: PathLayout)
        ensures
            l.data_root == data_root,
            l.mode == PathMode::Portable,
    {
        PathLayout { data_root, mode: PathMode::Portable }
    }

    /// `<root>/instances`.
    pub fn instances(&self) -> (p: String)
        ensures
            p@ == path_join(self.data_root@, "instances"@),
    {
        join_path(self.data_root.as_str(), "instances")
    }

    /// `<root>/instances/<name>`.
    pub fn instance(&self, name: &str) -> (p: String)
        ensures
            p@ == path_join(path_join(self.data_root@, "instances"@), name@),
    {
        let i = self.instances();
        join_path(i.as_str(), name)
    }

    /// `<root>/shared/assets`.
    pub fn shared_assets(&self) -> (p: String)
        ensures
            p@ == path_join(self.data_root@, "shared/assets"@),
    {
        join_path(self.data_root.as_str(), "shared/assets")
    }

    /// `<root>/shared/libraries`.
    pub fn shared_libraries(&self) -> (p: String)
        ensures
            p@ == path_join(self.data_root@, "shared/libraries"@),
    {
        join_path(self.data_root.as_str(), "shared/libraries")
    }

    /// `<root>/shared/versions`.
    pub fn shared_versions(&self) -> (p: String)
        ensures
            p@ == path_join(self.data_root@, "shared/versions"@),
    {
        join_path(self.data_root.as_str(), "shared/versions")
    }

    /// `<root>/config.json`.
    pub fn config_file(&self) -> (p: String)
        ensures
            p@ == path_join(self.data_root@, "config.json"@),
    {
        join_path(self.data_root.as_str(), "config.json")
    }

    /// `<root>/logs`.
    pub fn logs(&self) -> (p: String)
        ensures
            p@ == path_join(self.data_root@, "logs"@),
    {
        join_path(self.data_root.as_str(), "logs")
    }

    /// `<root>/cache`.
    pub fn cache(&self) -> (p: String)
        ensures
            p@ == path_join(self.data_root@, "cache"@),
    {
        join_path(self.data_root.as_str(), "cache")
    }

    /// The standard directories to create, in creation order: instances,
    /// shared assets, shared libraries, shared versions, logs, cache.
    pub fn standard_dirs(&self) -> (v: Vec<String>)
        ensures
            v@.len() == 6,
            v@[0]@ == path_join(self.data_root@, "instances"@),
            v@[1]@ == path_join(self.data_root@, "shared/assets"@),
            v@[2]@ == path_join(self.data_root@, "shared/libraries"@),
            v@[3]@ == path_join(self.data_root@, "shared/versions"@),
            v@[4]@ == path_join(self.data_root@, "logs"@),
            v@[5]@ == path_join(self.data_root@, "cache"@),
    {
        let mut v = Vec::new();
        v.push(self.instances());
        v.push(self.shared_assets());
        v.push(self.shared_libraries());
        v.push(self.shared_versions());
        v.push(self.logs());
        v.push(self.cache());
        v
    }
}

} // verus!
