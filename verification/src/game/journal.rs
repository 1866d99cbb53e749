//! The message log of a run: the newest lines first, and only so many of them.

use vstd::prelude::*;
use crate::ecs::resources::texts;

verus! {

/// How many lines the message log keeps.
pub const LOG_MAX_ENTRIES: usize = 8;

/// The log after `entry` has been written: `entry` first, then the lines
/// that were there, the oldest dropped once there are more than eight.
pub open spec fn logged(log: Seq<Seq<char>>, entry: Seq<char>) -> Seq<Seq<char>> {
    if log.len() >= 8 {
        seq![entry] + log.take(7)
    } else {
        seq![entry] + log
    }
}

/// Writes `entry` at the head of `log` and drops what no longer fits.
pub fn write_entry(log: &mut Vec<String>, entry: String)
    ensures
        texts(final(log)@) == logged(texts(old(log)@), entry@),
        final(log).len() <= 8,
{
    log.insert(0, entry);
    log.truncate(LOG_MAX_ENTRIES);
    assert(texts(log@) =~= logged(texts(old(log)@), entry@));
}

/// The log after all of `entries` have been written, in their order.
pub open spec fn logged_all(log: Seq<Seq<char>>, entries: Seq<Seq<char>>) -> Seq<Seq<char>>
    decreases entries.len(),
{
    if entries.len() == 0 {
        log
    } else {
        logged(logged_all(log, entries.drop_last()), entries.last())
    }
}

/// Writing one line is writing it.
pub proof fn lemma_logged_one(log: Seq<Seq<char>>, entry: Seq<char>)
    ensures
        logged_all(log, seq![entry]) == logged(log, entry),
{
    assert(seq![entry].drop_last() =~= Seq::<Seq<char>>::empty());
    assert(seq![entry].last() == entry);
    reveal_with_fuel(logged_all, 2);
}

/// Writing two batches of lines one after the other is writing them all.
pub proof fn lemma_logged_concat(log: Seq<Seq<char>>, first: Seq<Seq<char>>, second: Seq<Seq<char>>)
    ensures
        logged_all(log, first + second) == logged_all(logged_all(log, first), second),
    decreases second.len(),
{
    if second.len() == 0 {
        assert(first + second =~= first);
    } else {
        lemma_logged_concat(log, first, second.drop_last());
        assert((first + second).drop_last() =~= first + second.drop_last());
        assert((first + second).last() == second.last());
    }
}

} // verus!
