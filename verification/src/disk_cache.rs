use sha2::Digest;
use vstd::prelude::*;
use vstd::string::StrSliceExecFns;
use vstd::string::StringSliceAdditionalSpecFns;

use crate::textenc::push_dec_u64;
use crate::textenc::push_hex_u64;
use crate::textenc::spec_dec_digits;
use crate::textenc::spec_hex_digits;

verus! {

/// The SHA-256 digest of a byte string; a function of the bytes alone.
pub uninterp spec fn sha256_of(bytes: Seq<u8>) -> Seq<u8>;

/// Computes the SHA-256 digest of a byte string.
/// Relies on sha2::Sha256: the digest is 32 bytes and depends on the input
/// alone.
#[verifier::external_body]
fn sha256(bytes: &Vec<u8>) -> (out: Vec<u8>)
    ensures
        out@ == sha256_of(bytes@),
        out@.len() == 32,
{
    sha2::Sha256::digest(bytes).to_vec()
}

/// The little-endian bytes of a modification time in whole seconds.
pub open spec fn mtime_le_bytes(m: u64) -> Seq<u8> {
    seq![
        (m & 0xff) as u8,
        ((m >> 8) & 0xff) as u8,
        ((m >> 16) & 0xff) as u8,
        ((m >> 24) & 0xff) as u8,
        ((m >> 32) & 0xff) as u8,
        ((m >> 40) & 0xff) as u8,
        ((m >> 48) & 0xff) as u8,
        ((m >> 56) & 0xff) as u8,
    ]
}

/// What the content fingerprint hashes: the absolute path's bytes followed by
/// the modification time in seconds, little endian. A changed file (different
/// mtime) or another path hashes differently, so stale entries simply miss.
pub open spec fn key_material(path: Seq<u8>, mtime_secs: u64) -> Seq<u8> {
    path + mtime_le_bytes(mtime_secs)
}

/// The first eight bytes of a digest read as a little-endian 64-bit word.
pub open spec fn digest_prefix_u64(d: Seq<u8>) -> u64
    recommends
        d.len() >= 8,
{
    ((d[0] as int) + 0x100 * (d[1] as int) + 0x10000 * (d[2] as int) + 0x1000000 * (d[3] as int)
        + 0x100000000 * (d[4] as int) + 0x10000000000 * (d[5] as int) + 0x1000000000000 * (
    d[6] as int) + 0x100000000000000 * (d[7] as int)) as u64
}

/// The key an on-disk thumbnail is stored under: a secure fingerprint of the
/// source file's identity and a changed-content proxy (SHA-256 over path and
/// mtime, truncated to 64 bits), plus the requested resolution. Keys at
/// different resolutions never collide, so a resolution change needs no
/// disk-cache invalidation; a changed source file simply misses and is
/// recomputed.
#[derive(PartialEq, Eq, Structural, Clone, Copy, Debug)]
pub struct DiskCacheKey {
    pub fingerprint: u64,
    pub resolution: u32,
}

/// The key for a source file with the given path bytes and mtime, at the
/// given thumbnail resolution.
pub open spec fn spec_disk_cache_key(path: Seq<u8>, mtime_secs: u64, resolution: u32) -> DiskCacheKey {
    DiskCacheKey {
        fingerprint: digest_prefix_u64(sha256_of(key_material(path, mtime_secs))),
        resolution,
    }
}

/// Computes the deterministic disk-cache key of a source file: SHA-256 over
/// the path bytes and the little-endian mtime seconds, truncated to 64 bits,
/// paired with the requested resolution.
pub fn disk_cache_key(path: &str, mtime_secs: u64, resolution: u32) -> (k: DiskCacheKey)
    ensures
        k == spec_disk_cache_key(path.spec_bytes(), mtime_secs, resolution),
{
    let mut material: Vec<u8> = path.as_bytes_vec();
    let m = mtime_secs;
    material.push((m & 0xff) as u8);
    material.push(((m >> 8) & 0xff) as u8);
    material.push(((m >> 16) & 0xff) as u8);
    material.push(((m >> 24) & 0xff) as u8);
    material.push(((m >> 32) & 0xff) as u8);
    material.push(((m >> 40) & 0xff) as u8);
    material.push(((m >> 48) & 0xff) as u8);
    material.push(((m >> 56) & 0xff) as u8);
    proof {
        assert(material@ =~= key_material(path.spec_bytes(), m));
    }
    let digest = sha256(&material);
    let d0 = digest[0] as u64;
    let d1 = digest[1] as u64;
    let d2 = digest[2] as u64;
    let d3 = digest[3] as u64;
    let d4 = digest[4] as u64;
    let d5 = digest[5] as u64;
    let d6 = digest[6] as u64;
    let d7 = digest[7] as u64;
    let fingerprint = d0 + 0x100 * d1 + 0x10000 * d2 + 0x1000000 * d3 + 0x100000000 * d4
        + 0x10000000000 * d5 + 0x1000000000000 * d6 + 0x100000000000000 * d7;
    DiskCacheKey { fingerprint, resolution }
}

/// The file name a key is stored under in the disk-cache directory: the
/// fingerprint as sixteen hex digits, an underscore, the resolution in
/// decimal, and a `.png` suffix — all ASCII bytes.
pub open spec fn spec_cache_file_name(k: DiskCacheKey) -> Seq<u8> {
    spec_hex_digits(k.fingerprint as int, 16) + seq![95u8] + spec_dec_digits(k.resolution as int)
        + seq![46u8, 112u8, 110u8, 103u8]
}

/// Renders the disk-cache file name of a key as ASCII bytes.
pub fn cache_file_name(k: &DiskCacheKey) -> (name: Vec<u8>)
    ensures
        name@ == spec_cache_file_name(*k),
{
    let mut name: Vec<u8> = Vec::new();
    push_hex_u64(k.fingerprint, 16, &mut name);
    name.push(95);
    push_dec_u64(k.resolution as u64, &mut name);
    name.push(46);
    name.push(112);
    name.push(110);
    name.push(103);
    proof {
        assert(name@ =~= spec_cache_file_name(*k));
    }
    name
}

/// Disk-cache round trip: the key is a function of the source file's path,
/// its modification time, and the requested resolution alone, so two requests
/// for the same unchanged file at the same resolution name the same
/// disk-cache file, and the second finds what the first wrote.
pub proof fn lemma_disk_key_deterministic(
    path1: Seq<u8>,
    mtime1: u64,
    res1: u32,
    path2: Seq<u8>,
    mtime2: u64,
    res2: u32,
)
    requires
        path1 == path2,
        mtime1 == mtime2,
        res1 == res2,
    ensures
        spec_disk_cache_key(path1, mtime1, res1) == spec_disk_cache_key(path2, mtime2, res2),
{
}

/// Keys at different resolutions are distinct, whatever the files: cached
/// thumbnails at an old resolution stay retrievable under their own keys
/// after the bucket resolution changes.
pub proof fn lemma_disk_key_resolution_distinct(
    path1: Seq<u8>,
    mtime1: u64,
    res1: u32,
    path2: Seq<u8>,
    mtime2: u64,
    res2: u32,
)
    requires
        res1 != res2,
    ensures
        spec_disk_cache_key(path1, mtime1, res1) != spec_disk_cache_key(path2, mtime2, res2),
{
}

} // verus!
