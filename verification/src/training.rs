//! Bookkeeping of the gradient descent: the error of the current model and
//! the history of errors recorded before each iteration.
//!
//! Errors are binary64 values carried as their bit patterns (see
//! `binary64`).  Each iteration records the error in force, then looks at
//! the error measured for it: a measured error greater than the one in force
//! stops the descent and leaves the model as it was; any other is accepted
//! and becomes the error in force.

use vstd::prelude::*;
use crate::binary64::greater;
use crate::binary64::greater_spec;

verus! {

/// The error in force and the errors recorded so far.
pub struct ErrorLog {
    error: u64,
    history: Vec<u64>,
}

/// The state after one iteration from error `e` and history `h`, with
/// measured error `m`.
pub open spec fn step_spec(e: u64, h: Seq<u64>, m: u64) -> (u64, Seq<u64>) {
    (if greater_spec(m, e) { e } else { m }, h.push(e))
}

/// The state after one iteration per measured error of `ms`, in order.
pub open spec fn after_steps(e: u64, h: Seq<u64>, ms: Seq<u64>) -> (u64, Seq<u64>)
    decreases ms.len(),
{
    if ms.len() == 0 {
        (e, h)
    } else {
        let s = after_steps(e, h, ms.drop_last());
        step_spec(s.0, s.1, ms.last())
    }
}

impl ErrorLog {
    /// The error in force.
    pub closed spec fn current(&self) -> u64 {
        self.error
    }

    /// The recorded errors, oldest first.
    pub closed spec fn recorded(&self) -> Seq<u64> {
        self.history@
    }

    /// A log whose error in force is `error`, with nothing recorded.
    pub fn new(error: u64) -> (r: ErrorLog)
        ensures
            r.current() == error,
            r.recorded() == Seq::<u64>::empty(),
    {
        ErrorLog { error, history: Vec::new() }
    }

    /// The error in force.
    pub fn error(&self) -> (r: u64)
        ensures
            r == self.current(),
    {
        self.error
    }

    /// Replaces the error in force, as after the model was reset; the
    /// history is kept.
    pub fn set_error(&mut self, error: u64)
        ensures
            final(self).current() == error,
            final(self).recorded() == old(self).recorded(),
    {
        self.error = error;
    }

    /// A copy of the recorded errors, oldest first.
    pub fn history(&self) -> (r: Vec<u64>)
        ensures
            r@ == self.recorded(),
    {
        self.history.clone()
    }

    /// One iteration of the descent with `measured` as the error measured for
    /// it: the error in force is recorded; then `measured` is accepted, and
    /// becomes the error in force, unless it is greater than that error.
    /// The result says whether it was accepted, that is whether the descent
    /// goes on and the new model is kept.
    pub fn step(&mut self, measured: u64) -> (accepted: bool)
        ensures
            accepted == !greater_spec(measured, old(self).current()),
            accepted ==> final(self).current() == measured,
            !accepted ==> final(self).current() == old(self).current(),
            final(self).recorded() == old(self).recorded().push(old(self).current()),
            (final(self).current(), final(self).recorded()) == step_spec(
                old(self).current(),
                old(self).recorded(),
                measured,
            ),
    {
        self.history.push(self.error);
        if greater(measured, self.error) {
            false
        } else {
            self.error = measured;
            true
        }
    }
}

/// No recorded error is greater than the one recorded just before it, once the
/// log runs from a given state: over any iterations from error `e` and history
/// `h`, the history only grows at its end, by one entry per iteration, and
/// each new entry, as well as the error in force at the end, is not greater
/// than the entry before it.
pub proof fn recorded_errors_never_rise(e: u64, h: Seq<u64>, ms: Seq<u64>)
    ensures
        ({
            let (e2, h2) = after_steps(e, h, ms);
            &&& h2.len() == h.len() + ms.len()
            &&& h2.subrange(0, h.len() as int) == h
            &&& forall|k: int|
                h.len() <= k && k + 1 < h2.len() ==> !greater_spec(#[trigger] h2[k + 1], h2[k])
            &&& ms.len() > 0 ==> !greater_spec(e2, h2.last())
            &&& ms.len() > 0 ==> h2[h.len() as int] == e
        }),
    decreases ms.len(),
{
    if ms.len() > 0 {
        let prev = after_steps(e, h, ms.drop_last());
        recorded_errors_never_rise(e, h, ms.drop_last());
        let (e2, h2) = after_steps(e, h, ms);
        assert(h2 == prev.1.push(prev.0));
        assert(h2.subrange(0, h.len() as int) =~= prev.1.subrange(0, h.len() as int));
        assert forall|k: int| h.len() <= k && k + 1 < h2.len() implies !greater_spec(
            #[trigger] h2[k + 1],
            h2[k],
        ) by {
            if k + 1 < prev.1.len() {
                assert(h2[k + 1] == prev.1[k + 1]);
                assert(h2[k] == prev.1[k]);
            } else {
                assert(h2[k + 1] == prev.0);
                assert(h2[k] == prev.1.last());
            }
        }
        if ms.len() == 1 {
            assert(prev.1 == h);
        }
    }
}

/// One iteration records the error in force at the end of the history; a
/// measured error that is not greater than the error in force becomes the
/// error in force, whatever the history holds; a greater one leaves it as it was.
pub proof fn step_accepts_unless_rise(e: u64, h: Seq<u64>, m: u64)
    ensures
        step_spec(e, h, m).1 == h.push(e),
        !greater_spec(m, e) ==> step_spec(e, h, m).0 == m,
        greater_spec(m, e) ==> step_spec(e, h, m).0 == e,
{
}

/// Over any run of iterations from error `e` and history `h`, the history
/// receives, in order, the error in force before each iteration, starting with
/// `e`; and the error in force after iteration `k` is its measured error
/// `ms[k]` when that is not greater than the error in force before it, and
/// that error otherwise.  So the error in force at the end of a run is the
/// last measured error that was accepted, or `e` when none was.
pub proof fn run_follows_accepted_errors(e: u64, h: Seq<u64>, ms: Seq<u64>)
    ensures
        ({
            let (e2, h2) = after_steps(e, h, ms);
            &&& h2.len() == h.len() + ms.len()
            &&& h2.subrange(0, h.len() as int) == h
            &&& ms.len() == 0 ==> e2 == e
            &&& ms.len() > 0 ==> h2[h.len() as int] == e
            &&& forall|k: int|
                0 <= k < ms.len() ==> ({
                    let before = h2[h.len() + k];
                    let after = if k + 1 < ms.len() {
                        h2[h.len() + k + 1]
                    } else {
                        e2
                    };
                    after == if greater_spec(#[trigger] ms[k], before) {
                        before
                    } else {
                        ms[k]
                    }
                })
        }),
    decreases ms.len(),
{
    if ms.len() > 0 {
        let t = ms.drop_last();
        run_follows_accepted_errors(e, h, t);
        let prev = after_steps(e, h, t);
        let (e2, h2) = after_steps(e, h, ms);
        assert(h2 == prev.1.push(prev.0));
        assert(h2.subrange(0, h.len() as int) =~= prev.1.subrange(0, h.len() as int));
        assert forall|k: int| 0 <= k < ms.len() implies ({
            let before = h2[h.len() + k];
            let after = if k + 1 < ms.len() {
                h2[h.len() + k + 1]
            } else {
                e2
            };
            after == if greater_spec(#[trigger] ms[k], before) {
                before
            } else {
                ms[k]
            }
        }) by {
            if k + 1 < ms.len() {
                assert(ms[k] == t[k]);
                assert(h2[h.len() + k] == prev.1[h.len() + k]);
                if k + 1 < t.len() {
                    assert(h2[h.len() + k + 1] == prev.1[h.len() + k + 1]);
                } else {
                    assert(h2[h.len() + k + 1] == prev.0);
                }
            } else {
                assert(h2[h.len() + k] == prev.0);
            }
        }
        if t.len() == 0 {
            assert(prev.1 == h);
        } else {
            assert(h2[h.len() as int] == prev.1[h.len() as int]);
        }
    }
}

} // verus!
