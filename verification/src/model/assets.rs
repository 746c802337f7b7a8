//! Asset index records.

use crate::text::{string_of, to_chars};
use vstd::prelude::*;

verus! {

/// The `assetIndex` field of a version JSON: where the asset index lives.
#[derive(Debug, Clone)]
pub struct AssetIndexInfo {
    pub id: String,
    pub sha1: String,
    pub size: u64,
    pub total_size: u64,
    pub url: String,
}

/// A downloaded asset index: asset name → object, in name order.
#[derive(Debug, Clone)]
pub struct AssetIndex {
    pub objects: Vec<(String, AssetObject)>,
}

/// One asset object, addressed by its SHA-1.
#[derive(Debug, Clone)]
pub struct AssetObject {
    pub hash: String,
    pub size: u64,
}

/// Number of UTF-8 bytes that encode `c`.
pub open spec fn utf8_len(c: char) -> int {
    if (c as u32) < 0x80 {
        1
    } else if (c as u32) < 0x800 {
        2
    } else if (c as u32) < 0x10000 {
        3
    } else {
        4
    }
}

/// The characters of `s` that make up its first two bytes exist:
/// byte 2 of `s` falls on a character boundary.
pub open spec fn two_byte_prefix_ok(s: Seq<char>) -> bool {
    ||| s.len() >= 1 && utf8_len(s[0]) == 2
    ||| s.len() >= 2 && utf8_len(s[0]) == 1 && utf8_len(s[1]) == 1
}

/// The characters that make up the first two bytes of `s`.
pub open spec fn two_byte_prefix(s: Seq<char>) -> Seq<char> {
    if utf8_len(s[0]) == 2 {
        s.take(1)
    } else {
        s.take(2)
    }
}

/// `<hash[0..2]>/<hash>`.
pub open spec fn asset_relative_path(hash: Seq<char>) -> Seq<char> {
    two_byte_prefix(hash) + "/"@ + hash
}

impl AssetObject {
    /// Path of the object relative to `assets/objects`: `<hash[0..2]>/<hash>`.
    pub fn relative_path(&self) -> (p: String)
        requires
            two_byte_prefix_ok(self.hash@),
        ensures
            p@ == asset_relative_path(self.hash@),
    {
        let v = to_chars(self.hash.as_str());
        let first = v[0] as u32;
        let n: usize = if 0x80 <= first && first < 0x800 { 1 } else { 2 };
        let mut p = string_of(v.as_slice(), 0, n);
        p.append("/");
        p.append(self.hash.as_str());
        proof {
            reveal_strlit("/");
            assert(v@.subrange(0, n as int) == two_byte_prefix(self.hash@));
        }
        p
    }

    /// The official download URL of the object.
    pub fn official_url(&self) -> (u: String)
        requires
            two_byte_prefix_ok(self.hash@),
        ensures
            u@ == "https://resources.download.minecraft.net/"@ + asset_relative_path(self.hash@),
    {
        let mut u = "https://resources.download.minecraft.net/".to_string();
        let p = self.relative_path();
        u.append(p.as_str());
        u
    }
}

} // verus!
