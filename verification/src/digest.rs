//! Change detection digests of the catalogs: the standard library's default
//! hasher over the fields that identify an entry.
use vstd::prelude::*;
use std::hash::{BuildHasher, BuildHasherDefault, DefaultHasher};

verus! {

/// Digest of a node list, keyed by (name, level, status) of each node.
pub uninterp spec fn node_keys_digest(keys: Seq<(Seq<char>, Seq<char>, Seq<char>)>) -> u64;

/// Digest of a VM list, keyed by (id, name) of each VM.
pub uninterp spec fn vm_keys_digest(keys: Seq<(i64, Seq<char>)>) -> u64;

/// Digest of a reservation list, keyed by all fields of each reservation.
pub uninterp spec fn ipam_keys_digest(
    keys: Seq<(Seq<char>, Option<Seq<char>>, Option<Seq<char>>, Seq<char>, Seq<char>, Option<Seq<char>>, Seq<char>)>,
) -> u64;

/// Calls `BuildHasher::hash_one` of `BuildHasherDefault<DefaultHasher>` on the
/// key list, which feeds a fresh `DefaultHasher` (fixed keys, no per-process
/// seed) with the list and returns `finish()`. The result is named, not stated:
/// the same keys give the same digest.
#[verifier::external_body]
pub(crate) fn digest_node_keys(keys: &Vec<(String, String, String)>) -> (d: u64)
    ensures
        d == node_keys_digest(keys.deep_view()),
{
    BuildHasherDefault::<DefaultHasher>::default().hash_one(keys)
}

/// Calls `BuildHasher::hash_one` of `BuildHasherDefault<DefaultHasher>` on the
/// key list; the result is named, not stated: the same keys give the same digest.
#[verifier::external_body]
pub(crate) fn digest_vm_keys(keys: &Vec<(i64, String)>) -> (d: u64)
    ensures
        d == vm_keys_digest(keys.deep_view()),
{
    BuildHasherDefault::<DefaultHasher>::default().hash_one(keys)
}

/// Calls `BuildHasher::hash_one` of `BuildHasherDefault<DefaultHasher>` on the
/// key list; the result is named, not stated: the same keys give the same digest.
#[verifier::external_body]
pub(crate) fn digest_ipam_keys(
    keys: &Vec<(String, Option<String>, Option<String>, String, String, Option<String>, String)>,
) -> (d: u64)
    ensures
        d == ipam_keys_digest(keys.deep_view()),
{
    BuildHasherDefault::<DefaultHasher>::default().hash_one(keys)
}

} // verus!
