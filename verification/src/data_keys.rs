//! Keys of user data in the storage engine: a user key is stored under the
//! data prefix, and the end of an unbounded region is the smallest key past
//! all data keys.

use vstd::prelude::*;
use vstd::slice::{slice_subrange, slice_to_vec};

use crate::keys_order::{lex_le, lex_lt};

verus! {

/// Prefix of the keys of user data in the storage engine (`b'z'`).
pub const DATA_PREFIX: u8 = 122;

/// The byte after the data prefix; the one-byte key made of it sorts after
/// every data key.
pub const DATA_MAX_PREFIX: u8 = 123;

/// The data key of a user key.
pub open spec fn data_key_of(key: Seq<u8>) -> Seq<u8> {
    seq![DATA_PREFIX] + key
}

/// The data key where a region ending at `end` stops; an empty end means the
/// region is unbounded.
pub open spec fn data_end_key_of(end: Seq<u8>) -> Seq<u8> {
    if end.len() == 0 {
        seq![DATA_MAX_PREFIX]
    } else {
        data_key_of(end)
    }
}

/// The data key of a user key.
pub fn data_key(key: &[u8]) -> (r: Vec<u8>)
    ensures
        r@ == data_key_of(key@),
{
    let mut r: Vec<u8> = Vec::new();
    r.push(DATA_PREFIX);
    let mut rest = slice_to_vec(key);
    r.append(&mut rest);
    assert(r@ =~= data_key_of(key@));
    r
}

/// The start of a region's data.
pub fn enc_start_key(start_key: &[u8]) -> (r: Vec<u8>)
    ensures
        r@ == data_key_of(start_key@),
{
    data_key(start_key)
}

/// The end of a region's data.
pub fn enc_end_key(end_key: &[u8]) -> (r: Vec<u8>)
    ensures
        r@ == data_end_key_of(end_key@),
{
    if end_key.len() == 0 {
        let mut r: Vec<u8> = Vec::new();
        r.push(DATA_MAX_PREFIX);
        assert(r@ =~= seq![DATA_MAX_PREFIX]);
        r
    } else {
        data_key(end_key)
    }
}

/// A data key without its prefix.
pub fn origin_key(key: &[u8]) -> (r: &[u8])
    requires
        key@.len() > 0,
        key@[0] == DATA_PREFIX,
    ensures
        r@ == key@.drop_first(),
{
    let r = slice_subrange(key, 1, key.len());
    assert(r@ =~= key@.drop_first());
    r
}

/// Taking the prefix off a data key gives the user key back.
pub proof fn lemma_origin_of_data_key(key: Seq<u8>)
    ensures
        data_key_of(key).len() > 0,
        data_key_of(key)[0] == DATA_PREFIX,
        data_key_of(key).drop_first() == key,
{
    assert(data_key_of(key).drop_first() =~= key);
}

/// Data keys sort as their user keys do.
pub proof fn lemma_data_key_order(a: Seq<u8>, b: Seq<u8>)
    ensures
        lex_lt(data_key_of(a), data_key_of(b)) == lex_lt(a, b),
        (data_key_of(a) == data_key_of(b)) == (a == b),
{
    assert(data_key_of(a).drop_first() =~= a);
    assert(data_key_of(b).drop_first() =~= b);
}

/// The data of a region whose start does not pass its end (or whose end is
/// unbounded) is an ordered range of data keys.
pub proof fn lemma_region_data_range_ordered(start: Seq<u8>, end: Seq<u8>)
    requires
        end.len() == 0 || lex_le(start, end),
    ensures
        lex_le(data_key_of(start), data_end_key_of(end)),
{
    lemma_data_key_order(start, end);
    if end.len() == 0 {
        assert(data_key_of(start)[0] < data_end_key_of(end)[0]);
    }
}

} // verus!
