//! The decisions of a Forge-style install: the merged version id, which
//! installer entries go where, the data that processors see, which
//! processors run, and the parent version to fetch.
//!
//! Downloading, unpacking and running the processors is the caller's work.

use vstd::prelude::*;
use crate::errors::Error;
use crate::loader::forge::profile::{
    clone_data, data_index, data_insert, data_lookup, runs_on_client, DataEntry, Processor,
};
use crate::model::version::{ResolvedManifest, VersionList};
use crate::vanilla::manifest::{entry_pos, find_version_entry};
use crate::paths::{join_path, path_join};
use crate::text::{is_prefix, str_eq, str_starts_with, string_of, to_chars, trim_char_start};

verus! {

/// What a Forge or NeoForge install produced.
#[derive(Debug, Clone)]
pub struct ForgeInstallOutput {
    pub merged_version_id: String,
    pub resolved_manifest: ResolvedManifest,
    /// The patched client jar: `versions/<id>/<id>.jar`.
    pub patched_client_jar: String,
}

/// Where an entry of an installer jar goes.
#[derive(Debug, Clone, PartialEq, Eq)]
pub enum InstallerEntry {
    /// `install_profile.json`: read as the install profile.
    InstallProfile,
    /// `version.json`: read as the version JSON.
    VersionJson,
    /// `maven/<rest>`: copied to the libraries root at `<rest>`.
    Maven(String),
    /// `data/...`: copied to the cache directory under its own name.
    Data,
    /// Anything else: left in the jar.
    Other,
}

// ───────────────────────────── specs ─────────────────────────────

/// `<mc>-<loader>-<version>`, such as `1.20.1-forge-47.3.0`.
pub open spec fn merged_id_spec(mc: Seq<char>, loader: Seq<char>, version: Seq<char>) -> Seq<char> {
    mc + "-"@ + loader + "-"@ + version
}

/// The client and server values of an entry.
pub open spec fn entry_view(e: DataEntry) -> (Seq<char>, Seq<char>) {
    (e.client@, e.server@)
}

/// The values of `d[k]`.
pub open spec fn lookup_view(d: Seq<(String, DataEntry)>, k: Seq<char>) -> Option<(Seq<char>, Seq<char>)> {
    match data_lookup(d, k) {
        Some(e) => Some(entry_view(e)),
        None => None,
    }
}

/// The data processors see for key `k`: the profile's data with `SIDE`,
/// `MINECRAFT_JAR`, `INSTALLER` and `ROOT` set, and `BINPATCH` (when the
/// profile has it) pointed into the cache directory.
pub open spec fn processor_data_spec(
    profile: Seq<(String, DataEntry)>,
    client_jar: Seq<char>,
    cache_dir: Seq<char>,
    installer: Seq<char>,
    root: Seq<char>,
    k: Seq<char>,
) -> Option<(Seq<char>, Seq<char>)> {
    if k == "SIDE"@ {
        Some(("client"@, "server"@))
    } else if k == "MINECRAFT_JAR"@ {
        Some((client_jar, Seq::empty()))
    } else if k == "BINPATCH"@ {
        match data_lookup(profile, k) {
            Some(bp) => Some(
                (
                    path_join(cache_dir, trim_char_start(bp.client@, '/')),
                    path_join(cache_dir, trim_char_start(bp.server@, '/')),
                ),
            ),
            None => None,
        }
    } else if k == "INSTALLER"@ {
        Some((installer, installer))
    } else if k == "ROOT"@ {
        Some((root, root))
    } else {
        lookup_view(profile, k)
    }
}

/// The positions of the processors that run on the client, in order.
pub open spec fn client_indices(p: Seq<Processor>) -> Seq<usize>
    decreases p.len(),
{
    if p.len() == 0 {
        Seq::empty()
    } else {
        let r = client_indices(p.drop_last());
        if runs_on_client(p.last().sides@) {
            r.push((p.len() - 1) as usize)
        } else {
            r
        }
    }
}

// ───────────────────────────── exec ─────────────────────────────

/// `<mc>-<loader>-<version>`.
pub fn merged_version_id(mc_version: &str, loader: &str, version: &str) -> (r: String)
    ensures
        r@ == merged_id_spec(mc_version@, loader@, version@),
{
    let mut r = mc_version.to_string();
    r.append("-");
    r.append(loader);
    r.append("-");
    r.append(version);
    r
}

/// Where an installer entry named `name` goes.
pub fn classify_installer_entry(name: &str) -> (r: InstallerEntry)
    ensures
        (r is InstallProfile) <==> name@ == "install_profile.json"@,
        (r is VersionJson) <==> name@ != "install_profile.json"@ && name@ == "version.json"@,
        (r is Maven) <==> name@ != "install_profile.json"@ && name@ != "version.json"@ && is_prefix(
            "maven/"@,
            name@,
        ),
        r matches InstallerEntry::Maven(rest) ==> rest@ == name@.skip("maven/"@.len() as int),
        (r is Data) <==> name@ != "install_profile.json"@ && name@ != "version.json"@ && !is_prefix(
            "maven/"@,
            name@,
        ) && is_prefix("data/"@, name@),
{
    if str_eq(name, "install_profile.json") {
        return InstallerEntry::InstallProfile;
    }
    if str_eq(name, "version.json") {
        return InstallerEntry::VersionJson;
    }
    if str_starts_with(name, "maven/") {
        let v = to_chars(name);
        let p = to_chars("maven/");
        return InstallerEntry::Maven(string_of(v.as_slice(), p.len(), v.len()));
    }
    if str_starts_with(name, "data/") {
        return InstallerEntry::Data;
    }
    InstallerEntry::Other
}

/// The data the processors see (see [`processor_data_spec`]).
pub fn processor_data(
    profile_data: &Vec<(String, DataEntry)>,
    client_jar: &str,
    cache_dir: &str,
    installer_path: &str,
    data_root: &str,
) -> (r: Vec<(String, DataEntry)>)
    ensures
        forall|k: Seq<char>| #[trigger] lookup_view(r@, k) == processor_data_spec(
            profile_data@,
            client_jar@,
            cache_dir@,
            installer_path@,
            data_root@,
            k,
        ),
        crate::text::keys_distinct(profile_data@) ==> crate::text::keys_distinct(r@),
{
    proof {
        reveal_strlit("SIDE");
        reveal_strlit("MINECRAFT_JAR");
        reveal_strlit("BINPATCH");
        reveal_strlit("INSTALLER");
        reveal_strlit("ROOT");
    }
    let mut d = clone_data(profile_data);
    let ghost d0 = d@;
    data_insert(
        &mut d,
        "SIDE".to_string(),
        DataEntry { client: "client".to_string(), server: "server".to_string() },
    );
    let ghost d1 = d@;
    data_insert(
        &mut d,
        "MINECRAFT_JAR".to_string(),
        DataEntry { client: client_jar.to_string(), server: String::new() },
    );
    let ghost d2 = d@;
    match data_index(profile_data, "BINPATCH") {
        Some(i) => {
            let bp = &profile_data[i].1;
            let cv = to_chars(bp.client.as_str());
            let sv = to_chars(bp.server.as_str());
            let c = crate::text::from_chars(crate::text::trim_matches_start_char(cv.as_slice(), '/').as_slice());
            let s = crate::text::from_chars(crate::text::trim_matches_start_char(sv.as_slice(), '/').as_slice());
            data_insert(
                &mut d,
                "BINPATCH".to_string(),
                DataEntry { client: join_path(cache_dir, c.as_str()), server: join_path(cache_dir, s.as_str()) },
            );
        },
        None => {},
    }
    let ghost d3 = d@;
    data_insert(
        &mut d,
        "INSTALLER".to_string(),
        DataEntry { client: installer_path.to_string(), server: installer_path.to_string() },
    );
    let ghost d4 = d@;
    data_insert(
        &mut d,
        "ROOT".to_string(),
        DataEntry { client: data_root.to_string(), server: data_root.to_string() },
    );
    proof {
        let side = "SIDE"@;
        let jar = "MINECRAFT_JAR"@;
        let bin = "BINPATCH"@;
        let inst = "INSTALLER"@;
        let root = "ROOT"@;
        assert(side[0] == 'S' && jar[0] == 'M' && bin[0] == 'B' && inst[0] == 'I' && root[0] == 'R');
        assert(lookup_view(d@, side) == processor_data_spec(profile_data@, client_jar@, cache_dir@, installer_path@, data_root@, side));
        assert(lookup_view(d@, jar) == processor_data_spec(profile_data@, client_jar@, cache_dir@, installer_path@, data_root@, jar));
        assert(lookup_view(d@, bin) == processor_data_spec(profile_data@, client_jar@, cache_dir@, installer_path@, data_root@, bin));
        assert(lookup_view(d@, inst) == processor_data_spec(profile_data@, client_jar@, cache_dir@, installer_path@, data_root@, inst));
        assert(lookup_view(d@, root) == processor_data_spec(profile_data@, client_jar@, cache_dir@, installer_path@, data_root@, root));
        assert forall|k: Seq<char>| #[trigger] lookup_view(d@, k) == processor_data_spec(
            profile_data@,
            client_jar@,
            cache_dir@,
            installer_path@,
            data_root@,
            k,
        ) by {
            assert(data_lookup(d0, k) == data_lookup(profile_data@, k));
            if k != "ROOT"@ {
                assert(data_lookup(d@, k) == data_lookup(d4, k));
                if k != "INSTALLER"@ {
                    assert(data_lookup(d4, k) == data_lookup(d3, k));
                    if k != "BINPATCH"@ {
                        assert(data_lookup(d3, k) == data_lookup(d2, k));
                        if k != "MINECRAFT_JAR"@ {
                            assert(data_lookup(d2, k) == data_lookup(d1, k));
                            if k != "SIDE"@ {
                                assert(data_lookup(d1, k) == data_lookup(d0, k));
                            }
                        }
                    } else {
                        assert("BINPATCH"@.len() != "MINECRAFT_JAR"@.len());
                        assert("BINPATCH"@.len() != "SIDE"@.len());
                        if data_lookup(profile_data@, k) is None {
                            assert(data_lookup(d3, k) == data_lookup(d2, k));
                            assert(data_lookup(d2, k) == data_lookup(d1, k));
                            assert(data_lookup(d1, k) == data_lookup(d0, k));
                        }
                    }
                }
            }
        }
    }
    d
}

/// The positions of the processors that run on the client, in order.
pub fn client_processor_indices(processors: &Vec<Processor>) -> (r: Vec<usize>)
    ensures
        r@ == client_indices(processors@),
{
    let mut r: Vec<usize> = Vec::new();
    let mut i: usize = 0;
    while i < processors.len()
        invariant
            i <= processors@.len(),
            r@ == client_indices(processors@.take(i as int)),
        decreases processors@.len() - i,
    {
        assert(processors@.take(i + 1).drop_last() == processors@.take(i as int));
        assert(processors@.take(i + 1).last() == processors@[i as int]);
        if processors[i].applies_to_client() {
            r.push(i);
        }
        i = i + 1;
    }
    assert(processors@.take(processors@.len() as int) == processors@);
    r
}

/// The URL of the parent version `parent_id` that an installer's version
/// JSON inherits from; an error when the version list lacks it.
pub fn parent_version_url(list: &VersionList, parent_id: &str) -> (r: Result<String, Error>)
    ensures
        entry_pos(list.versions@, parent_id@) >= 0 ==> (r matches Ok(u) && u@
            == list.versions@[entry_pos(list.versions@, parent_id@)].url@),
        entry_pos(list.versions@, parent_id@) < 0 ==> (r matches Err(Error::NotFound(m)) && m@
            == "parent '"@ + parent_id@ + "' not in manifest"@),
{
    match find_version_entry(list, parent_id) {
        Some(i) => Ok(list.versions[i].url.clone()),
        None => {
            let mut m = "parent '".to_string();
            m.append(parent_id);
            m.append("' not in manifest");
            Err(Error::NotFound(m))
        },
    }
}

} // verus!
