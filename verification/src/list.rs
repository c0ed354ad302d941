//! One account's list of memos, as the contract reads it from storage and
//! writes it back.
//!
//! A lookup in storage gives `Some` list for an account that has recorded a
//! memo before and `None` for one that has not. Both functions below take that
//! answer as it comes.

use crate::memo::{entry_text, memo_entry};
use vstd::prelude::*;

verus! {

/// The bytes of `memo`, the name of the one namespace of storage in which the
/// log is kept.
pub open spec fn namespace_bytes() -> Seq<u8> {
    seq![0x6du8, 0x65u8, 0x6du8, 0x6fu8]
}

/// The memos that a lookup found, oldest first, each taken by its characters:
/// those of the list, or none where the lookup found no list.
pub open spec fn listed(found: Option<Vec<String>>) -> Seq<Seq<char>> {
    match found {
        Some(list) => list.deep_view(),
        None => Seq::empty(),
    }
}

/// The prefix under which the contract keeps the log in its storage.
pub fn memo_namespace() -> (prefix: Vec<u8>)
    ensures
        prefix@ == namespace_bytes(),
{
    let mut prefix: Vec<u8> = Vec::new();
    prefix.push(0x6d);
    prefix.push(0x65);
    prefix.push(0x6d);
    prefix.push(0x6f);
    assert(prefix@ =~= namespace_bytes());
    prefix
}

/// The answer to a read: the list that the lookup found, as it is, or an empty
/// list for an account that has none. An account without a list is no error.
pub fn memos_read(found: Option<Vec<String>>) -> (memos: Vec<String>)
    ensures
        memos.deep_view() == listed(found),
{
    match found {
        Some(x) => x,
        None => {
            let memos: Vec<String> = Vec::new();
            assert(memos.deep_view() =~= Seq::<Seq<char>>::empty());
            memos
        },
    }
}

/// The list to write back when an account records a memo: what the lookup
/// found, followed by the text made of `memo_text` and `price`. For an account
/// without a list this is a new list of that one memo. No earlier memo is
/// changed, dropped or moved.
pub fn extended(found: Option<Vec<String>>, memo_text: String, price: String) -> (list: Vec<String>)
    ensures
        list.deep_view() == listed(found).push(entry_text(memo_text@, price@)),
{
    let entry = memo_entry(memo_text, price.as_str());
    let mut list = memos_read(found);
    let ghost before = list.deep_view();
    list.push(entry);
    assert(list.deep_view() =~= before.push(entry@));
    list
}

} // verus!
