//! Fabric: the Fabric Meta API serves a ready version JSON that inherits
//! from the Minecraft version, so installing is the vanilla pipeline.

use vstd::prelude::*;
use crate::loader::model::LoaderInstallResult;
use crate::model::version::RawVersion;

verus! {

/// The Fabric loader.
pub struct FabricLoader;

/// The main class of Fabric's Knot launcher, used when a profile names none.
pub open spec fn knot_client() -> Seq<char> {
    "net.fabricmc.loader.impl.launch.knot.KnotClient"@
}

impl FabricLoader {
    /// The install result of a fetched Fabric profile: its id, and its main
    /// class or Knot's.
    pub fn synthesize_result(profile: &RawVersion) -> (r: LoaderInstallResult)
        ensures
            r.merged_version_id@ == profile.id@,
            profile.main_class matches Some(m) ==> r.main_class@ == m@,
            profile.main_class is None ==> r.main_class@ == knot_client(),
    {
        let main_class = match &profile.main_class {
            Some(m) => m.clone(),
            None => "net.fabricmc.loader.impl.launch.knot.KnotClient".to_string(),
        };
        LoaderInstallResult { merged_version_id: profile.id.clone(), main_class }
    }

    /// Where the loader versions for `mc_version` are listed.
    pub fn versions_url(mc_version: &str) -> (u: String)
        ensures
            u@ == "https://meta.fabricmc.net/v2/versions/loader/"@ + mc_version@,
    {
        let mut u = "https://meta.fabricmc.net/v2/versions/loader/".to_string();
        u.append(mc_version);
        u
    }

    /// Where the version JSON of `loader_version` for `mc_version` is served.
    pub fn profile_url(mc_version: &str, loader_version: &str) -> (u: String)
        ensures
            u@ == "https://meta.fabricmc.net/v2/versions/loader/"@ + mc_version@ + "/"@
                + loader_version@ + "/profile/json"@,
    {
        let mut u = "https://meta.fabricmc.net/v2/versions/loader/".to_string();
        u.append(mc_version);
        u.append("/");
        u.append(loader_version);
        u.append("/profile/json");
        u
    }
}

} // verus!
