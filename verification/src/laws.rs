//! What holds of a log whatever is recorded in it.
//!
//! The contract reads an account's list with
//! [`memos_read`](crate::list::memos_read) and records a memo by writing back
//! what [`extended`](crate::list::extended) returns. The first two laws say what
//! that means for the log as a map: a read gives
//! [`memos_of`](crate::memo::memos_of), and a write-back turns the log into
//! [`with_memo`](crate::memo::with_memo). The laws after them are stated over
//! these two, and over histories of records replayed on a log.

use crate::list::listed;
use crate::memo::{entries_of, entry_text, memos_of, replay, with_memo, MemoBook, Record};
use vstd::prelude::*;

verus! {

/// Whether `found` is what a lookup of `account` gives in a storage that holds
/// `book`: the account's list, or nothing for an account without one.
pub open spec fn found_in(book: MemoBook, account: Seq<char>, found: Option<Vec<String>>) -> bool {
    match found {
        Some(list) => book.contains_key(account) && book[account] == list.deep_view(),
        None => !book.contains_key(account),
    }
}

/// A read gives the account's list: what the lookup found, listed, is what the
/// log holds for the account, and nothing for an account that the log does not
/// know.
pub proof fn lemma_read_gives_the_list(
    book: MemoBook,
    account: Seq<char>,
    found: Option<Vec<String>>,
)
    requires
        found_in(book, account, found),
    ensures
        listed(found) == memos_of(book, account),
{
}

/// Writing back the extended list records the memo: the log that holds, for the
/// account, what was found followed by the new text is the log with that memo
/// recorded, and differs from the log before in that account alone.
pub proof fn lemma_write_back_records(
    book: MemoBook,
    account: Seq<char>,
    found: Option<Vec<String>>,
    memo_text: Seq<char>,
    price: Seq<char>,
)
    requires
        found_in(book, account, found),
    ensures
        book.insert(account, listed(found).push(entry_text(memo_text, price))) == with_memo(
            book,
            account,
            entry_text(memo_text, price),
        ),
{
}

/// An account that the log does not know reads as an empty list.
pub proof fn lemma_unknown_account_reads_empty(book: MemoBook, account: Seq<char>)
    requires
        !book.contains_key(account),
    ensures
        memos_of(book, account) == Seq::<Seq<char>>::empty(),
{
}

/// An account that has recorded nothing reads as an empty list: in a log that
/// started empty, whatever the other accounts have recorded since.
pub proof fn lemma_no_record_reads_empty(history: Seq<Record>, account: Seq<char>)
    requires
        forall|i: int| 0 <= i < history.len() ==> (#[trigger] history[i]).account != account,
    ensures
        !replay(Map::empty(), history).contains_key(account),
        memos_of(replay(Map::empty(), history), account) == Seq::<Seq<char>>::empty(),
{
    lemma_accounts_are_independent(Map::empty(), history, account);
}

/// Recording a memo puts exactly its text at the end of the account's list: the
/// list grows by one, its last memo is the new text, and the memos before it are
/// the ones that were there, in their order.
pub proof fn lemma_recorded_memo_is_last(
    book: MemoBook,
    account: Seq<char>,
    memo_text: Seq<char>,
    price: Seq<char>,
)
    ensures
        ({
            let after = memos_of(with_memo(book, account, entry_text(memo_text, price)), account);
            &&& after.len() == memos_of(book, account).len() + 1
            &&& after.last() == entry_text(memo_text, price)
            &&& after.drop_last() == memos_of(book, account)
        }),
{
    let before = memos_of(book, account);
    let entry = entry_text(memo_text, price);
    assert(before.push(entry).drop_last() =~= before);
}

/// Recording a memo for one account changes no other account: whether the log
/// knows it, and what its list holds.
pub proof fn lemma_recording_leaves_others(
    book: MemoBook,
    account: Seq<char>,
    entry: Seq<char>,
    other: Seq<char>,
)
    requires
        other != account,
    ensures
        with_memo(book, account, entry).contains_key(other) == book.contains_key(other),
        memos_of(with_memo(book, account, entry), other) == memos_of(book, other),
{
}

/// The texts of an account in a history that is longer by one record: one more,
/// at the end, if the record is the account's, and the same if it is not.
proof fn lemma_entries_step(history: Seq<Record>, account: Seq<char>)
    requires
        history.len() > 0,
    ensures
        entries_of(history, account) == if history.last().account == account {
            entries_of(history.drop_last(), account).push(history.last().entry)
        } else {
            entries_of(history.drop_last(), account)
        },
{
    reveal(Seq::filter);
    let own = |r: Record| r.account == account;
    let earlier = history.drop_last().filter(own);
    if history.last().account == account {
        assert(history.filter(own) == earlier.push(history.last()));
        assert(entries_of(history, account) =~= entries_of(history.drop_last(), account).push(
            history.last().entry,
        ));
    } else {
        assert(history.filter(own) == earlier);
    }
}

/// After a history of records, an account's list is the list it had before,
/// followed by the texts that the account itself recorded, in the order in which
/// it recorded them. Nothing is lost, nothing is reordered, and no record of
/// another account shows in it.
pub proof fn lemma_replay_appends_own_entries(
    book: MemoBook,
    history: Seq<Record>,
    account: Seq<char>,
)
    ensures
        memos_of(replay(book, history), account) == memos_of(book, account) + entries_of(
            history,
            account,
        ),
    decreases history.len(),
{
    if history.len() == 0 {
        reveal(Seq::filter);
        assert(memos_of(book, account) + entries_of(history, account) =~= memos_of(book, account));
    } else {
        let earlier = history.drop_last();
        let last = history.last();
        lemma_replay_appends_own_entries(book, earlier, account);
        lemma_entries_step(history, account);
        if last.account == account {
            assert((memos_of(book, account) + entries_of(earlier, account)).push(last.entry)
                =~= memos_of(book, account) + entries_of(earlier, account).push(last.entry));
        }
    }
}

/// No list is dropped or cut short. An account that the log knows stays known
/// after any history, and the list it had is the beginning of the list it has
/// afterwards.
pub proof fn lemma_lists_only_grow(book: MemoBook, history: Seq<Record>, account: Seq<char>)
    ensures
        book.contains_key(account) ==> replay(book, history).contains_key(account),
        memos_of(book, account).is_prefix_of(memos_of(replay(book, history), account)),
    decreases history.len(),
{
    lemma_replay_appends_own_entries(book, history, account);
    if history.len() > 0 {
        lemma_lists_only_grow(book, history.drop_last(), account);
    }
}

/// The history in which `account` alone records `entries`, first to last.
pub open spec fn recorded_by(account: Seq<char>, entries: Seq<Seq<char>>) -> Seq<Record> {
    Seq::new(entries.len(), |i: int| Record { account, entry: entries[i] })
}

/// Memos only add up. When an account records `entries` one after the other,
/// its list is the list it had before followed by `entries`: it has grown by
/// their number, and the memos that were there stay where they were. For an
/// account that the log did not know, the list is `entries` itself.
pub proof fn lemma_appends_are_additive(
    book: MemoBook,
    account: Seq<char>,
    entries: Seq<Seq<char>>,
)
    ensures
        ({
            let after = memos_of(replay(book, recorded_by(account, entries)), account);
            &&& after == memos_of(book, account) + entries
            &&& after.len() == memos_of(book, account).len() + entries.len()
            &&& forall|i: int|
                0 <= i < memos_of(book, account).len() ==> after[i] == memos_of(book, account)[i]
            &&& !book.contains_key(account) ==> after == entries
        }),
{
    let history = recorded_by(account, entries);
    lemma_replay_appends_own_entries(book, history, account);
    lemma_own_history_entries(account, entries);
    if !book.contains_key(account) {
        assert(Seq::<Seq<char>>::empty() + entries =~= entries);
    }
}

/// Of a history in which one account records `entries`, the texts of that
/// account are `entries`.
proof fn lemma_own_history_entries(account: Seq<char>, entries: Seq<Seq<char>>)
    ensures
        entries_of(recorded_by(account, entries), account) == entries,
    decreases entries.len(),
{
    let history = recorded_by(account, entries);
    if entries.len() == 0 {
        reveal(Seq::filter);
        assert(entries_of(history, account) =~= entries);
    } else {
        lemma_own_history_entries(account, entries.drop_last());
        lemma_entries_step(history, account);
        assert(history.drop_last() =~= recorded_by(account, entries.drop_last()));
        assert(entries.drop_last().push(entries.last()) =~= entries);
    }
}

/// Accounts do not affect each other. Whatever the other accounts record, an
/// account that records nothing keeps its list as it was; if the log did not
/// know the account, it reads as an empty list afterwards too.
pub proof fn lemma_accounts_are_independent(
    book: MemoBook,
    history: Seq<Record>,
    account: Seq<char>,
)
    requires
        forall|i: int| 0 <= i < history.len() ==> (#[trigger] history[i]).account != account,
    ensures
        memos_of(replay(book, history), account) == memos_of(book, account),
        replay(book, history).contains_key(account) == book.contains_key(account),
    decreases history.len(),
{
    if history.len() > 0 {
        let earlier = history.drop_last();
        assert(forall|i: int| 0 <= i < earlier.len() ==> earlier[i] == history[i]);
        lemma_accounts_are_independent(book, earlier, account);
        assert(history.last() == history[history.len() - 1]);
    }
}

} // verus!
