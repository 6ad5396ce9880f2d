use std::collections::VecDeque;
use vstd::prelude::*;

verus! {

/// How many samples a history keeps: 60 seconds at two samples a second.
pub const HISTORY_LEN: usize = 120;

/// `hist` after `val` is recorded: the oldest sample is dropped first when
/// the history is full.
pub open spec fn pushed<T>(hist: Seq<T>, val: T) -> Seq<T> {
    if hist.len() >= HISTORY_LEN {
        hist.drop_first().push(val)
    } else {
        hist.push(val)
    }
}

/// Records `val` as the newest sample of `hist`, dropping the oldest one when
/// the history is full.
pub fn push_history<T>(hist: &mut VecDeque<T>, val: T)
    ensures
        final(hist)@ == pushed(old(hist)@, val),
{
    if hist.len() >= HISTORY_LEN {
        let _ = hist.pop_front();
        assert(hist@ =~= old(hist)@.drop_first());
    }
    hist.push_back(val);
}

/// A history never grows past its length: recording into a history of at
/// most `HISTORY_LEN` samples leaves at most `HISTORY_LEN`, the newest last,
/// and the samples before it are the latest ones kept in order.
pub proof fn law_history_bounded<T>(hist: Seq<T>, val: T)
    requires
        hist.len() <= HISTORY_LEN,
    ensures
        pushed(hist, val).len() <= HISTORY_LEN,
        pushed(hist, val).last() == val,
        pushed(hist, val).drop_last() == hist.skip(hist.len() + 1 - pushed(hist, val).len()),
{
    if hist.len() >= HISTORY_LEN {
        assert(pushed(hist, val).drop_last() =~= hist.skip(1));
    } else {
        assert(pushed(hist, val).drop_last() =~= hist.skip(0));
    }
}

} // verus!
