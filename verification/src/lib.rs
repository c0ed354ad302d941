//! The rules of a per-account memo log for a payments contract on NEAR.
//!
//! Every account owns an ordered list of memos, each a free-text note tagged
//! with a price. The lists are kept in the contract's storage, which this
//! library never touches: the contract reads what storage holds for an
//! account, hands it to the library, and writes back what the library returns.
//!
//! * [`memo`] - the text of a memo, and the log as a mathematical map.
//! * [`list`] - what is done with one account's list: reading it and extending
//!   it by a memo.
//! * [`laws`] - what holds of a log that is read and written in this way.

pub mod laws;
pub mod list;
pub mod memo;

pub use list::{extended, memo_namespace, memos_read};
pub use memo::memo_entry;
