//! Offline accounts and their name-derived UUIDs.

use vstd::prelude::*;

verus! {

/// The MD5 digest of `data`.
pub uninterp spec fn md5_spec(data: Seq<u8>) -> Seq<u8>;

/// Calls `<md5::Md5 as md5::Digest>::digest`: the 16-byte MD5 digest of
/// `data`, a function of `data` alone.
#[verifier::external_body]
fn md5_digest(data: &[u8]) -> (d: [u8; 16])
    ensures
        d@ == md5_spec(data@),
{
    <md5::Md5 as md5::Digest>::digest(data).into()
}

/// The lowercase hexadecimal digit of `n < 16`.
pub open spec fn hex_digit(n: int) -> char {
    if n < 10 {
        ('0' as u32 + n) as char
    } else {
        ('a' as u32 + n - 10) as char
    }
}

/// Two lowercase hexadecimal digits per byte.
pub open spec fn hex_lower(b: Seq<u8>) -> Seq<char>
    decreases b.len(),
{
    if b.len() == 0 {
        Seq::empty()
    } else {
        seq![hex_digit(b[0] as int / 16), hex_digit(b[0] as int % 16)] + hex_lower(b.drop_first())
    }
}

/// The hyphenated form of a UUID: lowercase hex in groups of 8-4-4-4-12 digits.
pub open spec fn uuid_hyphenated_spec(b: Seq<u8>) -> Seq<char> {
    hex_lower(b.subrange(0, 4)) + "-"@ + hex_lower(b.subrange(4, 6)) + "-"@ + hex_lower(
        b.subrange(6, 8),
    ) + "-"@ + hex_lower(b.subrange(8, 10)) + "-"@ + hex_lower(b.subrange(10, 16))
}

/// Calls `uuid::Uuid::from_bytes(bytes).hyphenated().to_string()`: the
/// UUID of these bytes in lowercase hex, grouped 8-4-4-4-12 by hyphens
/// (uuid's `Hyphenated` formats through `encode_lower`).
#[verifier::external_body]
fn uuid_hyphenated(bytes: [u8; 16]) -> (s: String)
    ensures
        s@ == uuid_hyphenated_spec(bytes@),
{
    uuid::Uuid::from_bytes(bytes).hyphenated().to_string()
}

/// The UTF-8 bytes of `"OfflinePlayer:" + name`.
pub open spec fn offline_seed(name: Seq<char>) -> Seq<u8> {
    vstd::utf8::encode_utf8("OfflinePlayer:"@ + name)
}

/// `d` with the version nibble set to 3 and the RFC 4122 variant bits set.
pub open spec fn v3_bits(d: Seq<u8>) -> Seq<u8> {
    d.update(6, (d[6] & 0x0f) | 0x30).update(8, (d[8] & 0x3f) | 0x80)
}

/// The offline UUID of a player name: `MD5("OfflinePlayer:<name>")` with
/// the version-3 and variant bits set, as the official launcher derives it.
pub fn offline_uuid(name: &str) -> (u: [u8; 16])
    ensures
        u@ == v3_bits(md5_spec(offline_seed(name@))),
        u@[6] >> 4 == 3,
        u@[8] >> 6 == 2,
{
    let mut seed = "OfflinePlayer:".to_string();
    seed.append(name);
    let digest = md5_digest(seed.as_str().as_bytes());
    let mut bytes = digest;
    let x6 = bytes[6];
    let x8 = bytes[8];
    let b6: u8 = (x6 & 0x0f) | 0x30;
    let b8: u8 = (x8 & 0x3f) | 0x80;
    bytes.set(6, b6);
    bytes.set(8, b8);
    assert(b6 >> 4 == 3) by (bit_vector)
        requires
            b6 == (x6 & 0x0f) | 0x30,
    ;
    assert(b8 >> 6 == 2) by (bit_vector)
        requires
            b8 == (x8 & 0x3f) | 0x80,
    ;
    assert(bytes@ == v3_bits(digest@));
    bytes
}

/// The account a game is launched with.
#[derive(Debug, Clone)]
pub struct AccountInfo {
    pub username: String,
    /// Hyphenated UUID.
    pub uuid: String,
    /// `"0"` for offline accounts.
    pub access_token: String,
    /// `msa`, `mojang` or `legacy`; offline accounts use `msa`.
    pub user_type: String,
}

impl AccountInfo {
    /// The offline account of `username`: its name-derived UUID, hyphenated;
    /// access token `0`; user type `msa`.
    pub fn offline(username: String) -> (a: AccountInfo)
        ensures
            a.username == username,
            a.uuid@ == uuid_hyphenated_spec(v3_bits(md5_spec(offline_seed(username@)))),
            a.access_token@ == "0"@,
            a.user_type@ == "msa"@,
    {
        let u = offline_uuid(username.as_str());
        let uuid = uuid_hyphenated(u);
        AccountInfo { username, uuid, access_token: "0".to_string(), user_type: "msa".to_string() }
    }
}

/// The hyphenated form of a UUID always holds hyphens, at positions 8, 13, 18 and 23.
pub proof fn law_hyphenated_has_hyphens(b: Seq<u8>)
    requires
        b.len() == 16,
    ensures
        uuid_hyphenated_spec(b).len() == 36,
        uuid_hyphenated_spec(b)[8] == '-',
        uuid_hyphenated_spec(b)[13] == '-',
        uuid_hyphenated_spec(b)[18] == '-',
        uuid_hyphenated_spec(b)[23] == '-',
{
    reveal_strlit("-");
    assert forall|s: Seq<u8>| #![trigger hex_lower(s)] true implies hex_lower(s).len() == 2 * s.len() by {
        lemma_hex_len(s);
    }
    lemma_hex_len(b.subrange(0, 4));
    lemma_hex_len(b.subrange(4, 6));
    lemma_hex_len(b.subrange(6, 8));
    lemma_hex_len(b.subrange(8, 10));
    lemma_hex_len(b.subrange(10, 16));
}

proof fn lemma_hex_len(s: Seq<u8>)
    ensures
        hex_lower(s).len() == 2 * s.len(),
    decreases s.len(),
{
    if s.len() > 0 {
        lemma_hex_len(s.drop_first());
    }
}

} // verus!
