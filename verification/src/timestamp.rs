//! The timestamp reconciler.
//!
//! Timestamps are persisted as absolute epoch-second values in decimal text.
//! This module parses that text, and converts an absolute timestamp into a
//! point on the caller's monotonic clock at the moment of comparison:
//! `now_mono - (now_wall - stored)`. When the stored value is unreadable,
//! lies in the future of the wall clock, or predates the monotonic clock's
//! origin, the conversion falls back to "now" and reports itself degraded.

use vstd::prelude::*;

verus! {

/// `c` is a decimal digit.
pub open spec fn is_digit(c: char) -> bool {
    '0' <= c && c <= '9'
}

/// Every character of `s` is a decimal digit.
pub open spec fn all_digits(s: Seq<char>) -> bool {
    forall|i: int| 0 <= i < s.len() ==> is_digit(s[i])
}

/// The numeric value of a decimal digit.
pub open spec fn digit_val(c: char) -> int {
    c as int - '0' as int
}

/// The value of `s` read as a big-endian decimal numeral.
pub open spec fn digits_val(s: Seq<char>) -> int
    decreases s.len(),
{
    if s.len() == 0 {
        0
    } else {
        digits_val(s.drop_last()) * 10 + digit_val(s.last())
    }
}

/// What parsing a persisted timestamp yields: the numeral's value when the
/// text is a non-empty string of digits whose value fits, `None` otherwise.
pub open spec fn parse_epoch_spec(s: Seq<char>) -> Option<u64> {
    if s.len() > 0 && all_digits(s) && digits_val(s) <= u64::MAX as int {
        Some(digits_val(s) as u64)
    } else {
        None
    }
}

/// A numeral of digits is never negative.
proof fn lemma_digits_val_nonneg(s: Seq<char>)
    requires
        all_digits(s),
    ensures
        digits_val(s) >= 0,
    decreases s.len(),
{
    if s.len() > 0 {
        assert(all_digits(s.drop_last()));
        lemma_digits_val_nonneg(s.drop_last());
    }
}

/// Reading one more digit never shrinks the value of a numeral.
proof fn lemma_digits_val_prefix_le(s: Seq<char>, i: int)
    requires
        all_digits(s),
        0 <= i <= s.len(),
    ensures
        digits_val(s.take(i)) <= digits_val(s),
    decreases s.len() - i,
{
    assert(all_digits(s.take(i)));
    lemma_digits_val_nonneg(s.take(i));
    if i < s.len() {
        assert(s.take(i + 1).drop_last() =~= s.take(i));
        assert(s.take(i + 1).last() == s[i]);
        lemma_digits_val_prefix_le(s, i + 1);
    } else {
        assert(s.take(i) =~= s);
    }
}

/// Parses a persisted timestamp: a non-empty decimal numeral whose value
/// fits in `u64`. Rejects empty text, any non-digit, and overflow.
pub fn parse_epoch_seconds(s: &str) -> (r: Option<u64>)
    ensures
        r == parse_epoch_spec(s@),
{
    let n = s.unicode_len();
    if n == 0 {
        return None;
    }
    let mut acc: u64 = 0;
    let mut i: usize = 0;
    while i < n
        invariant
            0 < n,
            i <= n,
            n == s@.len(),
            all_digits(s@.take(i as int)),
            acc == digits_val(s@.take(i as int)),
        decreases n - i,
    {
        let c = s.get_char(i);
        if !('0' <= c && c <= '9') {
            assert(!is_digit(s@[i as int]));
            return None;
        }
        let d: u64 = (c as u32 as u64) - 48;
        assert(d == digit_val(s@[i as int])) by {
            assert('0' as int == 48);
        }
        proof {
            assert(s@.take(i + 1).drop_last() =~= s@.take(i as int));
            assert(s@.take(i + 1).last() == s@[i as int]);
        }
        let shifted = match acc.checked_mul(10) {
            Some(x) => x,
            None => {
                proof {
                    if all_digits(s@) {
                        lemma_digits_val_prefix_le(s@, i + 1);
                    }
                }
                return None;
            },
        };
        acc = match shifted.checked_add(d) {
            Some(x) => x,
            None => {
                proof {
                    if all_digits(s@) {
                        lemma_digits_val_prefix_le(s@, i + 1);
                    }
                }
                return None;
            },
        };
        i = i + 1;
    }
    proof {
        assert(s@.take(n as int) =~= s@);
    }
    Some(acc)
}

/// The conversion succeeds without falling back: the stored time exists,
/// does not lie in the future of the wall clock, and the event is not older
/// than the monotonic clock's origin.
pub open spec fn reconcile_ok(t: Option<u64>, now_wall: u64, now_mono: u64) -> bool {
    match t {
        Some(v) => v <= now_wall && now_wall - v <= now_mono,
        None => false,
    }
}

/// The monotonic-clock point of a stored absolute time: the monotonic "now"
/// moved back by the event's wall-clock age, or "now" itself when the
/// conversion is degraded.
pub open spec fn reconcile_spec(t: Option<u64>, now_wall: u64, now_mono: u64) -> u64 {
    if reconcile_ok(t, now_wall, now_mono) {
        (now_mono - (now_wall - t->Some_0)) as u64
    } else {
        now_mono
    }
}

/// Converts a stored absolute epoch-second value into a point on the
/// caller's monotonic clock; the second component reports whether the
/// conversion was faithful (`true`) or fell back to "now" (`false`).
pub fn convert_to_monotonic(t: Option<u64>, now_wall: u64, now_mono: u64) -> (r: (u64, bool))
    ensures
        r.0 == reconcile_spec(t, now_wall, now_mono),
        r.1 == reconcile_ok(t, now_wall, now_mono),
{
    match t {
        Some(v) => {
            if v <= now_wall {
                let age = now_wall - v;
                if age <= now_mono {
                    (now_mono - age, true)
                } else {
                    (now_mono, false)
                }
            } else {
                (now_mono, false)
            }
        },
        None => (now_mono, false),
    }
}

/// The ordering key of a stored timestamp: the time itself, with
/// unreadable timestamps keyed largest — they are reported at "now", the
/// latest reportable point, so they order as the newest rows.
pub open spec fn stored_key(t: Option<u64>) -> u64 {
    match t {
        Some(v) => v,
        None => u64::MAX,
    }
}

/// A readable stored time that predates the monotonic clock's origin: the
/// event is older than every representable monotonic point, so its
/// conversion degrades to "now" and cannot keep its place in the reported
/// order.
pub open spec fn predates_origin(t: Option<u64>, now_wall: u64, now_mono: u64) -> bool {
    match t {
        Some(v) => v <= now_wall && now_wall - v > now_mono,
        None => false,
    }
}

/// Reconciliation preserves the stored order: of two stored times whose
/// ordering keys are in order, neither predating the monotonic clock's
/// origin, the first is reported no later than the second.
pub proof fn lemma_reconcile_monotone(t1: Option<u64>, t2: Option<u64>, now_wall: u64, now_mono: u64)
    requires
        stored_key(t1) <= stored_key(t2),
        !predates_origin(t1, now_wall, now_mono),
        !predates_origin(t2, now_wall, now_mono),
    ensures
        reconcile_spec(t1, now_wall, now_mono) <= reconcile_spec(t2, now_wall, now_mono),
{
    if reconcile_ok(t2, now_wall, now_mono) {
        if !reconcile_ok(t1, now_wall, now_mono) {
            match t1 {
                Some(v1) => {
                    assert(v1 > now_wall);
                    assert(stored_key(t2) >= v1);
                },
                None => {
                    assert(stored_key(t2) == u64::MAX);
                },
            }
        }
    }
}

/// A faithfully converted timestamp keeps its distance from "now": the
/// monotonic age of the result equals the wall-clock age of the stored time.
pub proof fn lemma_timestamp_round_trip(t: u64, now_wall: u64, now_mono: u64)
    requires
        t <= now_wall,
        now_wall - t <= now_mono,
    ensures
        reconcile_ok(Some(t), now_wall, now_mono),
        now_mono - reconcile_spec(Some(t), now_wall, now_mono) == now_wall - t,
{
}

} // verus!
