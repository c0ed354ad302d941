//! The text of a memo, and the log of memos as a mathematical map.

use vstd::prelude::*;

verus! {

/// The log as a map: each account that has ever recorded a memo, with its memos
/// in the order in which they were recorded.
pub type MemoBook = Map<Seq<char>, Seq<Seq<char>>>;

/// The text that stands between a memo's note and its price: `" || "`.
pub open spec fn separator() -> Seq<char> {
    seq![' ', '|', '|', ' ']
}

/// The unit that follows every price: `"NEAR"`.
pub open spec fn unit_suffix() -> Seq<char> {
    seq!['N', 'E', 'A', 'R']
}

/// The text of a memo: the note, the separator, the price and the unit, joined
/// as they are. Nothing is trimmed and nothing is escaped.
pub open spec fn entry_text(memo_text: Seq<char>, price: Seq<char>) -> Seq<char> {
    memo_text + separator() + price + unit_suffix()
}

/// The memos recorded for `account`, oldest first; none for an account that the
/// log does not know.
pub open spec fn memos_of(book: MemoBook, account: Seq<char>) -> Seq<Seq<char>> {
    if book.contains_key(account) {
        book[account]
    } else {
        Seq::empty()
    }
}

/// The log after `entry` has been recorded for `account`: the account's list is
/// extended by one at its end, and is created if it did not exist.
pub open spec fn with_memo(book: MemoBook, account: Seq<char>, entry: Seq<char>) -> MemoBook {
    book.insert(account, memos_of(book, account).push(entry))
}

/// One memo as it was recorded: the account that recorded it and its text.
pub struct Record {
    pub account: Seq<char>,
    pub entry: Seq<char>,
}

/// The log after every record of `history` has been recorded on top of `book`,
/// first to last.
pub open spec fn replay(book: MemoBook, history: Seq<Record>) -> MemoBook
    decreases history.len(),
{
    if history.len() == 0 {
        book
    } else {
        with_memo(
            replay(book, history.drop_last()),
            history.last().account,
            history.last().entry,
        )
    }
}

/// The texts that `account` recorded in `history`, in the order of the history.
pub open spec fn entries_of(history: Seq<Record>, account: Seq<char>) -> Seq<Seq<char>> {
    history.filter(|r: Record| r.account == account).map_values(|r: Record| r.entry)
}

/// Builds the text of a memo from its note and its price.
pub fn memo_entry(memo_text: String, price: &str) -> (entry: String)
    ensures
        entry@ == entry_text(memo_text@, price@),
{
    proof {
        reveal_strlit(" || ");
        reveal_strlit("NEAR");
        assert(" || "@ =~= separator());
        assert("NEAR"@ =~= unit_suffix());
    }
    memo_text.concat(" || ").concat(price).concat("NEAR")
}

} // verus!
