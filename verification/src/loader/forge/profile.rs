//! `install_profile.json` records and the resolution of its tokens.
//!
//! Processor arguments and outputs name Maven artifacts as
//! `[group:artifact:version[:classifier][@ext]]` and data values as `{KEY}`;
//! a data value may itself be a token.

use vstd::prelude::*;
use crate::errors::Error;
use crate::loader::profile_lib::ProfileLibrary;
use crate::paths::{join_path, path_join};
use crate::text::{
    find_char, find_char_from, from_chars, replace_chars, replace_seq, split_on, split_on_char,
    str_eq, string_of, to_chars, views,
};

verus! {

/// Top level of a Forge (1.13+) `install_profile.json`.
#[derive(Debug, Clone)]
pub struct InstallProfile {
    pub spec: i32,
    pub profile: String,
    pub version: String,
    /// The Minecraft version it installs onto.
    pub minecraft: String,
    /// Path of the embedded version JSON, usually `/version.json`.
    pub json: Option<String>,
    pub path: Option<String>,
    /// `data[KEY]`: the value of each key on each side.
    pub data: Vec<(String, DataEntry)>,
    /// Processors, run in order.
    pub processors: Vec<Processor>,
    /// Libraries needed only while installing.
    pub libraries: Vec<ProfileLibrary>,
}

/// The value of one data key on the client and on the server.
#[derive(Debug, Clone)]
pub struct DataEntry {
    pub client: String,
    pub server: String,
}

impl DataEntry {
    /// A copy of this entry.
    pub fn clone_exact(&self) -> (c: DataEntry)
        ensures
            c == *self,
    {
        DataEntry { client: self.client.clone(), server: self.server.clone() }
    }
}

/// A copy of a data map.
pub fn clone_data(d: &Vec<(String, DataEntry)>) -> (r: Vec<(String, DataEntry)>)
    ensures
        r@ == d@,
{
    let mut r: Vec<(String, DataEntry)> = Vec::new();
    let mut i: usize = 0;
    while i < d.len()
        invariant
            i <= d@.len(),
            r@ == d@.take(i as int),
        decreases d@.len() - i,
    {
        r.push((d[i].0.clone(), d[i].1.clone_exact()));
        assert(d@.take(i + 1) == d@.take(i as int).push(d@[i as int]));
        i = i + 1;
    }
    assert(d@.take(d@.len() as int) == d@);
    r
}

/// One processor: a Java program run while installing.
#[derive(Debug, Clone)]
pub struct Processor {
    /// Maven coordinate of the processor jar.
    pub jar: String,
    /// Maven coordinates of its class path.
    pub classpath: Vec<String>,
    /// Arguments, possibly tokens.
    pub args: Vec<String>,
    /// Expected outputs: path token → SHA-1 token.
    pub outputs: Vec<(String, String)>,
    /// Sides it runs on; none means both.
    pub sides: Vec<String>,
}

/// How deep `{KEY}` references are followed.
pub const RESOLVE_DEPTH: u32 = 8;

// ───────────────────────────── specs ─────────────────────────────

/// The processor runs when installing a client.
pub open spec fn runs_on_client(sides: Seq<String>) -> bool {
    sides.len() == 0 || exists|i: int| 0 <= i < sides.len() && (#[trigger] sides[i])@ == "client"@
}

/// The position of the first entry of `d` with key `key`, or `-1`.
pub open spec fn data_pos(d: Seq<(String, DataEntry)>, key: Seq<char>) -> int
    decreases d.len(),
{
    if d.len() == 0 {
        -1
    } else if d[0].0@ == key {
        0
    } else {
        let r = data_pos(d.drop_first(), key);
        if r < 0 { -1 } else { r + 1 }
    }
}

/// The entry of `d` for `key`.
pub open spec fn data_lookup(d: Seq<(String, DataEntry)>, key: Seq<char>) -> Option<DataEntry> {
    let p = data_pos(d, key);
    if p < 0 {
        None
    } else {
        Some(d[p].1)
    }
}

/// `coord` split at its first `@` into coordinate and extension (`jar` by default).
pub open spec fn split_ext(coord: Seq<char>) -> (Seq<char>, Seq<char>) {
    let i = find_char(coord, '@');
    if i < 0 {
        (coord, "jar"@)
    } else {
        (coord.take(i), coord.skip(i + 1))
    }
}

/// The file name of an artifact: `artifact-version[-classifier].ext`.
pub open spec fn maven_file_name(
    artifact: Seq<char>,
    version: Seq<char>,
    classifier: Seq<char>,
    ext: Seq<char>,
) -> Seq<char> {
    if classifier.len() == 0 {
        artifact + seq!['-'] + version + seq!['.'] + ext
    } else {
        artifact + seq!['-'] + version + seq!['-'] + classifier + seq!['.'] + ext
    }
}

/// Where the artifact `coord` lives under `root`:
/// `root/<group with / for .>/artifact/version/<file name>`; a coordinate
/// with fewer than three parts is joined to `root` as it is.
pub open spec fn maven_path(root: Seq<char>, coord: Seq<char>) -> Seq<char> {
    let gav = split_ext(coord).0;
    let ext = split_ext(coord).1;
    let parts = split_on(gav, ':');
    if parts.len() < 3 {
        path_join(root, coord)
    } else {
        let group = replace_seq(parts[0], seq!['.'], seq!['/']);
        let classifier = if parts.len() > 3 { parts[3] } else { Seq::empty() };
        path_join(
            path_join(path_join(path_join(root, group), parts[1]), parts[2]),
            maven_file_name(parts[1], parts[2], classifier, ext),
        )
    }
}

/// What is inside `[...]`.
pub open spec fn bracketed(s: Seq<char>) -> Option<Seq<char>> {
    if s.len() >= 2 && s[0] == '[' && s.last() == ']' {
        Some(s.subrange(1, s.len() - 1))
    } else {
        None
    }
}

/// What is inside `{...}`.
pub open spec fn braced(s: Seq<char>) -> Option<Seq<char>> {
    if s.len() >= 2 && s[0] == '{' && s.last() == '}' {
        Some(s.subrange(1, s.len() - 1))
    } else {
        None
    }
}

/// The value of a token, following at most `depth` levels: a Maven
/// reference becomes its path, a data reference the resolved client value,
/// anything else stays as it is. An error carries its message.
pub open spec fn resolve_spec(
    raw: Seq<char>,
    data: Seq<(String, DataEntry)>,
    root: Seq<char>,
    depth: nat,
) -> Result<Seq<char>, Seq<char>>
    decreases depth,
{
    if depth == 0 {
        Err("token resolve depth exceeded: "@ + raw)
    } else if bracketed(raw) is Some {
        Ok(maven_path(root, bracketed(raw)->0))
    } else if braced(raw) is Some {
        let key = braced(raw)->0;
        match data_lookup(data, key) {
            None => Err("install_profile.data missing key: "@ + key),
            Some(e) => resolve_spec(e.client@, data, root, (depth - 1) as nat),
        }
    } else {
        Ok(raw)
    }
}

/// The exec outcome `r` is the spec outcome `s`, errors being configuration errors.
pub open spec fn outcome_is(r: Result<String, Error>, s: Result<Seq<char>, Seq<char>>) -> bool {
    match r {
        Ok(v) => s == Ok::<Seq<char>, Seq<char>>(v@),
        Err(e) => s is Err && (e matches Error::Config(m) && m@ == s->Err_0),
    }
}

// ───────────────────────────── exec ─────────────────────────────

impl Processor {
    /// The processor runs when installing a client.
    pub fn applies_to_client(&self) -> (b: bool)
        ensures
            b == runs_on_client(self.sides@),
    {
        if self.sides.len() == 0 {
            return true;
        }
        let mut i: usize = 0;
        while i < self.sides.len()
            invariant
                i <= self.sides@.len(),
                forall|j: int| 0 <= j < i ==> (#[trigger] self.sides@[j])@ != "client"@,
            decreases self.sides@.len() - i,
        {
            if str_eq(self.sides[i].as_str(), "client") {
                return true;
            }
            i = i + 1;
        }
        false
    }
}

/// The position of `key` in `data`.
pub fn data_index(data: &Vec<(String, DataEntry)>, key: &str) -> (r: Option<usize>)
    ensures
        r matches Some(i) ==> data_pos(data@, key@) == i && i < data@.len(),
        r is None ==> data_pos(data@, key@) == -1,
{
    let mut i: usize = 0;
    assert(data@.skip(0) == data@);
    while i < data.len()
        invariant
            i <= data@.len(),
            data_pos(data@, key@) == (if data_pos(data@.skip(i as int), key@) < 0 {
                -1
            } else {
                data_pos(data@.skip(i as int), key@) + i
            }),
        decreases data@.len() - i,
    {
        assert(data@.skip(i as int)[0] == data@[i as int]);
        if str_eq(data[i].0.as_str(), key) {
            return Some(i);
        }
        assert(data@.skip(i as int).drop_first() == data@.skip(i + 1));
        i = i + 1;
    }
    None
}

/// Sets `data[key]` to `entry`, replacing an entry with that key or
/// adding one at the end (`HashMap::insert`).
pub fn data_insert(data: &mut Vec<(String, DataEntry)>, key: String, entry: DataEntry)
    ensures
        data_lookup(final(data)@, key@) == Some(entry),
        forall|k: Seq<char>| k != key@ ==> #[trigger] data_lookup(final(data)@, k)
            == data_lookup(old(data)@, k),
        crate::text::keys_distinct(old(data)@) ==> crate::text::keys_distinct(final(data)@),
{
    let ghost d0 = data@;
    proof {
        lemma_data_pos_bounds(d0, key@);
    }
    match data_index(data, key.as_str()) {
        Some(i) => {
            proof {
                lemma_data_pos_update(old(data)@, i as int, key, entry);
            }
            data.set(i, (key, entry));
            proof {
                assert forall|j: int| 0 <= j < data@.len() implies (#[trigger] data@[j]).0@ == d0[j].0@ by {}
            }
        },
        None => {
            proof {
                lemma_data_pos_push(old(data)@, key, entry);
            }
            data.push((key, entry));
            proof {
                assert forall|j: int| 0 <= j < d0.len() implies (#[trigger] data@[j]) == d0[j] by {}
            }
        },
    }
}

proof fn lemma_data_pos_bounds(d: Seq<(String, DataEntry)>, key: Seq<char>)
    ensures
        -1 <= data_pos(d, key) < d.len(),
        data_pos(d, key) >= 0 ==> d[data_pos(d, key)].0@ == key,
        forall|j: int| 0 <= j < d.len() && (data_pos(d, key) < 0 || j < data_pos(d, key))
            ==> (#[trigger] d[j]).0@ != key,
    decreases d.len(),
{
    if d.len() > 0 && d[0].0@ != key {
        lemma_data_pos_bounds(d.drop_first(), key);
        assert forall|j: int| 0 <= j < d.len() && (data_pos(d, key) < 0 || j < data_pos(d, key))
            implies (#[trigger] d[j]).0@ != key by {
            if j > 0 {
                assert(d[j] == d.drop_first()[j - 1]);
            }
        }
    }
}

proof fn lemma_data_pos_is(d: Seq<(String, DataEntry)>, key: Seq<char>, k: int)
    requires
        -1 <= k < d.len(),
        k >= 0 ==> d[k].0@ == key,
        forall|j: int| 0 <= j < d.len() && (k < 0 || j < k) ==> (#[trigger] d[j]).0@ != key,
    ensures
        data_pos(d, key) == k,
    decreases d.len(),
{
    if d.len() > 0 && k != 0 {
        assert(d[0].0@ != key);
        assert forall|j: int| 0 <= j < d.drop_first().len() && (k - 1 < 0 || j < k - 1) implies (
        #[trigger] d.drop_first()[j]).0@ != key by {
            assert(d.drop_first()[j] == d[j + 1]);
        }
        if k < 0 {
            lemma_data_pos_is(d.drop_first(), key, -1);
        } else {
            lemma_data_pos_is(d.drop_first(), key, k - 1);
        }
    }
}

proof fn lemma_data_pos_update(d: Seq<(String, DataEntry)>, i: int, key: String, e: DataEntry)
    requires
        0 <= i < d.len(),
        data_pos(d, key@) == i,
    ensures
        data_lookup(d.update(i, (key, e)), key@) == Some(e),
        forall|k: Seq<char>| k != key@ ==> #[trigger] data_lookup(d.update(i, (key, e)), k)
            == data_lookup(d, k),
{
    let d2 = d.update(i, (key, e));
    lemma_data_pos_bounds(d, key@);
    lemma_data_pos_is(d2, key@, i);
    assert forall|k: Seq<char>| k != key@ implies #[trigger] data_lookup(d2, k)
        == data_lookup(d, k) by {
        lemma_data_pos_bounds(d, k);
        let p = data_pos(d, k);
        if p >= 0 {
            assert(p != i);
            lemma_data_pos_is(d2, k, p);
        } else {
            lemma_data_pos_is(d2, k, -1);
        }
    }
}

proof fn lemma_data_pos_push(d: Seq<(String, DataEntry)>, key: String, e: DataEntry)
    requires
        data_pos(d, key@) == -1,
    ensures
        data_lookup(d.push((key, e)), key@) == Some(e),
        forall|k: Seq<char>| k != key@ ==> #[trigger] data_lookup(d.push((key, e)), k)
            == data_lookup(d, k),
{
    let d2 = d.push((key, e));
    lemma_data_pos_bounds(d, key@);
    lemma_data_pos_is(d2, key@, d.len() as int);
    assert forall|k: Seq<char>| k != key@ implies #[trigger] data_lookup(d2, k)
        == data_lookup(d, k) by {
        lemma_data_pos_bounds(d, k);
        let p = data_pos(d, k);
        lemma_data_pos_is(d2, k, p);
    }
}

/// Where the artifact `coord` lives under `libraries_root` (see [`maven_path`]).
pub fn maven_coord_to_path(libraries_root: &str, coord: &str) -> (p: String)
    ensures
        p@ == maven_path(libraries_root@, coord@),
{
    let cv = to_chars(coord);
    let n = cv.len();
    let (gav, ext) = match find_char_from(cv.as_slice(), '@', 0) {
        Some(i) => {
            assert(i < n);
            proof {
                crate::text::lemma_find_char_is(cv@, '@', i as int);
            }
            let g = crate::text::sub_chars(cv.as_slice(), 0, i);
            let e = crate::text::sub_chars(cv.as_slice(), i + 1, n);
            assert(g@ == split_ext(coord@).0);
            assert(e@ == split_ext(coord@).1);
            (g, e)
        },
        None => {
            proof {
                crate::text::lemma_find_char_is(cv@, '@', cv@.len() as int);
            }
            let g = crate::text::sub_chars(cv.as_slice(), 0, n);
            assert(g@ == cv@);
            (g, to_chars("jar"))
        },
    };
    assert(gav@ == split_ext(coord@).0 && ext@ == split_ext(coord@).1);
    let parts = split_on_char(gav.as_slice(), ':');
    assert(views(parts@).len() == parts@.len());
    if parts.len() < 3 {
        return join_path(libraries_root, coord);
    }
    assert(views(parts@)[0] == parts@[0]@);
    assert(views(parts@)[1] == parts@[1]@);
    assert(views(parts@)[2] == parts@[2]@);
    let ghost pv = views(parts@);
    let ghost classifier = if pv.len() > 3 { pv[3] } else { Seq::<char>::empty() };
    let dot: Vec<char> = vec!['.'];
    let slash: Vec<char> = vec!['/'];
    assert(dot@ == seq!['.'] && slash@ == seq!['/']);
    let group = from_chars(
        replace_chars(parts[0].as_slice(), dot.as_slice(), slash.as_slice()).as_slice(),
    );
    assert(group@ == replace_seq(pv[0], seq!['.'], seq!['/']));
    let artifact = from_chars(parts[1].as_slice());
    let version = from_chars(parts[2].as_slice());
    proof {
        reveal_strlit("-");
        reveal_strlit(".");
    }
    let mut file = from_chars(parts[1].as_slice());
    file.append("-");
    file.append(version.as_str());
    if parts.len() > 3 && parts[3].len() > 0 {
        assert(pv[3] == parts@[3]@);
        file.append("-");
        file.append(from_chars(parts[3].as_slice()).as_str());
    }
    file.append(".");
    file.append(from_chars(ext.as_slice()).as_str());
    assert(file@ == maven_file_name(pv[1], pv[2], classifier, ext@));
    let a = join_path(libraries_root, group.as_str());
    let b = join_path(a.as_str(), artifact.as_str());
    let c = join_path(b.as_str(), version.as_str());
    join_path(c.as_str(), file.as_str())
}

fn bracket_inner(v: &Vec<char>, open: char, close: char) -> (r: Option<String>)
    ensures
        r matches Some(s) ==> v@.len() >= 2 && v@[0] == open && v@.last() == close && s@
            == v@.subrange(1, v@.len() - 1),
        r is None ==> !(v@.len() >= 2 && v@[0] == open && v@.last() == close),
{
    if v.len() >= 2 && v[0] == open && v[v.len() - 1] == close {
        Some(string_of(v.as_slice(), 1, v.len() - 1))
    } else {
        None
    }
}

fn config_error(prefix: &str, detail: &str) -> (e: Error)
    ensures
        e matches Error::Config(m) && m@ == prefix@ + detail@,
{
    let mut m = prefix.to_string();
    m.append(detail);
    Error::Config(m)
}

fn resolve_with_depth(
    raw: &str,
    data: &Vec<(String, DataEntry)>,
    libraries_root: &str,
    depth: u32,
) -> (r: Result<String, Error>)
    requires
        crate::text::keys_distinct(data@),
    ensures
        outcome_is(r, resolve_spec(raw@, data@, libraries_root@, depth as nat)),
    decreases depth,
{
    if depth == 0 {
        return Err(config_error("token resolve depth exceeded: ", raw));
    }
    let v = to_chars(raw);
    if let Some(inner) = bracket_inner(&v, '[', ']') {
        return Ok(maven_coord_to_path(libraries_root, inner.as_str()));
    }
    if let Some(key) = bracket_inner(&v, '{', '}') {
        match data_index(data, key.as_str()) {
            None => {
                return Err(config_error("install_profile.data missing key: ", key.as_str()));
            },
            Some(i) => {
                let inner = data[i].1.client.clone();
                return resolve_with_depth(inner.as_str(), data, libraries_root, depth - 1);
            },
        }
    }
    Ok(raw.to_string())
}

/// The value of the token `raw`, following data references up to
/// [`RESOLVE_DEPTH`] levels.
pub fn resolve_token(raw: &str, data: &Vec<(String, DataEntry)>, libraries_root: &str) -> (r:
    Result<String, Error>)
    requires
        crate::text::keys_distinct(data@),
    ensures
        outcome_is(r, resolve_spec(raw@, data@, libraries_root@, RESOLVE_DEPTH as nat)),
{
    resolve_with_depth(raw, data, libraries_root, RESOLVE_DEPTH)
}


/// In a data table of distinct keys (a map), looking up an entry's key
/// gives that entry, whatever the order.
pub proof fn law_data_lookup_distinct(d: Seq<(String, DataEntry)>, i: int)
    requires
        crate::text::keys_distinct(d),
        0 <= i < d.len(),
    ensures
        data_pos(d, d[i].0@) == i,
        data_lookup(d, d[i].0@) == Some(d[i].1),
    decreases i,
{
    if i > 0 {
        let t = d.drop_first();
        assert(d[0].0@ != d[i].0@);
        assert(crate::text::keys_distinct(t)) by {
            assert forall|a: int, b: int| 0 <= a < b < t.len() implies (#[trigger] t[a]).0@ != (#[trigger] t[b]).0@ by {
                assert(t[a] == d[a + 1] && t[b] == d[b + 1]);
            }
        }
        assert(t[i - 1] == d[i]);
        law_data_lookup_distinct(t, i - 1);
    }
}

} // verus!
