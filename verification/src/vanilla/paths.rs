//! Paths of one install: shared versions/libraries/assets, per-instance game directory.

use crate::model::assets::{asset_relative_path, two_byte_prefix_ok, AssetObject};
use crate::paths::{join_path, path_join, PathLayout};
use vstd::prelude::*;

verus! {

/// All paths used to install and launch one version in one instance.
/// Versions, libraries and assets are shared by all instances under
/// `<root>/shared/`; only `.minecraft/` is per instance.
#[derive(Debug, Clone)]
pub struct InstallPaths {
    pub instance_name: String,
    pub version_id: String,
    /// `<root>/instances/<name>/.minecraft`
    pub game_dir: String,
    /// `<root>/shared/versions/<version_id>`
    pub version_dir: String,
    /// `<root>/shared/libraries`
    pub libraries_dir: String,
    /// `<root>/shared/assets`
    pub assets_dir: String,
}

impl InstallPaths {
    /// The paths of `version_id` installed into instance `instance_name`.
    pub fn new(layout: &PathLayout, instance_name: String, version_id: String) -> (p: InstallPaths)
        ensures
            p.instance_name == instance_name,
            p.version_id == version_id,
            p.game_dir@ == path_join(
                path_join(path_join(layout.data_root@, "instances"@), instance_name@),
                ".minecraft"@,
            ),
            p.version_dir@ == path_join(path_join(layout.data_root@, "shared/versions"@), version_id@),
            p.libraries_dir@ == path_join(layout.data_root@, "shared/libraries"@),
            p.assets_dir@ == path_join(layout.data_root@, "shared/assets"@),
    {
        let inst = layout.instance(instance_name.as_str());
        let game_dir = join_path(inst.as_str(), ".minecraft");
        let versions = layout.shared_versions();
        let version_dir = join_path(versions.as_str(), version_id.as_str());
        InstallPaths {
            instance_name,
            version_id,
            game_dir,
            version_dir,
            libraries_dir: layout.shared_libraries(),
            assets_dir: layout.shared_assets(),
        }
    }

    /// `versions/<id>/<id>.jar`, where the client jar goes.
    pub fn client_jar(&self) -> (p: String)
        ensures
            p@ == path_join(self.version_dir@, self.version_id@ + ".jar"@),
    {
        let mut f = self.version_id.clone();
        f.append(".jar");
        join_path(self.version_dir.as_str(), f.as_str())
    }

    /// `versions/<id>/<id>.json`, where the resolved manifest is kept.
    pub fn version_json(&self) -> (p: String)
        ensures
            p@ == path_join(self.version_dir@, self.version_id@ + ".json"@),
    {
        let mut f = self.version_id.clone();
        f.append(".json");
        join_path(self.version_dir.as_str(), f.as_str())
    }

    /// `versions/<id>/natives`, where native libraries are extracted.
    pub fn natives_dir(&self) -> (p: String)
        ensures
            p@ == path_join(self.version_dir@, "natives"@),
    {
        join_path(self.version_dir.as_str(), "natives")
    }

    /// `assets/indexes/<index_id>.json`.
    pub fn asset_index_file(&self, index_id: &str) -> (p: String)
        ensures
            p@ == path_join(path_join(self.assets_dir@, "indexes"@), index_id@ + ".json"@),
    {
        let dir = join_path(self.assets_dir.as_str(), "indexes");
        let mut f = index_id.to_string();
        f.append(".json");
        join_path(dir.as_str(), f.as_str())
    }

    /// `assets/objects/<hash[0..2]>/<hash>`.
    pub fn asset_object(&self, obj: &AssetObject) -> (p: String)
        requires
            two_byte_prefix_ok(obj.hash@),
        ensures
            p@ == path_join(path_join(self.assets_dir@, "objects"@), asset_relative_path(obj.hash@)),
    {
        let dir = join_path(self.assets_dir.as_str(), "objects");
        let rel = obj.relative_path();
        join_path(dir.as_str(), rel.as_str())
    }
}

} // verus!
