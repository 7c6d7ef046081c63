//! The scheduler's verified core: the poll-interval configuration rule
//! and the work of one successful poll cycle, from snapshot to fan-out.

use vstd::prelude::*;
use vstd::string::StrSliceExecFns;
use crate::broadcast::{broadcast_events, spec_publish_all, Broadcaster};
use crate::cache::{cache_after, cell_valid, cell_views, events_after, CellReport, DedupCache};
use crate::types::{AppError, BattleEvent};

verus! {

/// The poll interval used when none is configured, in seconds.
pub const DEFAULT_INTERVAL_SECS: u64 = 60;

/// Whether the character is a decimal digit.
pub open spec fn is_digit_char(c: char) -> bool {
    48 <= c as u32 <= 57
}

/// The numeric value of a decimal digit character.
pub open spec fn digit_val(c: char) -> int {
    c as u32 - 48
}

/// Whether every character of the sequence is a decimal digit.
pub open spec fn all_digits(s: Seq<char>) -> bool {
    forall|i: int| 0 <= i < s.len() ==> is_digit_char(#[trigger] s[i])
}

/// The value of a sequence of decimal digits, most significant first.
pub open spec fn digits_val(s: Seq<char>) -> int
    decreases s.len(),
{
    if s.len() == 0 {
        0
    } else {
        digits_val(s.drop_last()) * 10 + digit_val(s.last())
    }
}

/// The digit part of an unsigned decimal literal: everything after an
/// optional leading plus sign.
pub open spec fn digit_part(s: Seq<char>) -> Seq<char> {
    if s.len() >= 1 && s[0] == '+' {
        s.drop_first()
    } else {
        s
    }
}

/// What parsing an unsigned decimal accepts and yields: an optional plus
/// sign, then at least one digit, valuing within the type's range.
pub open spec fn spec_parse_u64(s: Seq<char>) -> Option<int> {
    let d = digit_part(s);
    if d.len() == 0 || !all_digits(d) || digits_val(d) > u64::MAX {
        None
    } else {
        Some(digits_val(d))
    }
}

proof fn lemma_digits_val_nonneg(s: Seq<char>)
    requires
        all_digits(s),
    ensures
        digits_val(s) >= 0,
    decreases s.len(),
{
    if s.len() > 0 {
        assert(all_digits(s.drop_last()));
        lemma_digits_val_nonneg(s.drop_last());
    }
}

proof fn lemma_digits_val_take_step(s: Seq<char>, i: int)
    requires
        0 <= i < s.len(),
    ensures
        digits_val(s.take(i + 1)) == digits_val(s.take(i)) * 10 + digit_val(s[i]),
{
    assert(s.take(i + 1).drop_last() =~= s.take(i));
    assert(s.take(i + 1).last() == s[i]);
}

proof fn lemma_digits_val_prefix_bound(s: Seq<char>, i: int)
    requires
        all_digits(s),
        0 <= i <= s.len(),
    ensures
        digits_val(s) >= digits_val(s.take(i)),
    decreases s.len() - i,
{
    if i < s.len() {
        lemma_digits_val_take_step(s, i);
        assert(all_digits(s.take(i)));
        lemma_digits_val_nonneg(s.take(i));
        assert(digits_val(s.take(i + 1)) >= digits_val(s.take(i)));
        lemma_digits_val_prefix_bound(s, i + 1);
    } else {
        assert(s.take(i) =~= s);
    }
}

/// Parses an unsigned decimal: an optional leading plus sign, then at
/// least one digit; rejects anything else and values beyond the type's
/// range.
pub fn parse_u64(s: &str) -> (r: Option<u64>)
    ensures
        match r {
            Some(v) => spec_parse_u64(s@) == Some(v as int),
            None => spec_parse_u64(s@) is None,
        },
{
    let n = s.unicode_len();
    let mut start: usize = 0;
    if n >= 1 && s.get_char(0) == '+' {
        start = 1;
    }
    proof {
        if start == 1 {
            assert(digit_part(s@) =~= s@.skip(1));
        } else {
            assert(digit_part(s@) =~= s@);
        }
    }
    if start >= n {
        return None;
    }
    let ghost d = digit_part(s@);
    let mut acc: u64 = 0;
    let mut i: usize = start;
    while i < n
        invariant
            start <= i <= n,
            n == s@.len(),
            start <= 1,
            start < n,
            d == digit_part(s@),
            d.len() == n - start,
            forall|j: int| 0 <= j < d.len() ==> d[j] == s@[j + start],
            all_digits(d.take(i - start)),
            acc == digits_val(d.take(i - start)),
        decreases n - i,
    {
        let c = s.get_char(i);
        let code: u32 = c as u32;
        if code < 48 || code > 57 {
            proof {
                assert(d[i - start] == s@[i as int]);
                assert(!is_digit_char(d[i - start]));
                assert(!all_digits(d));
            }
            return None;
        }
        let digit: u64 = (code - 48) as u64;
        let shifted = match acc.checked_mul(10) {
            Some(x) => x,
            None => {
                proof {
                    lemma_overflow_means_reject(s@, d, i as int, start as int);
                }
                return None;
            },
        };
        let next = match shifted.checked_add(digit) {
            Some(x) => x,
            None => {
                proof {
                    lemma_overflow_means_reject(s@, d, i as int, start as int);
                }
                return None;
            },
        };
        proof {
            lemma_digits_val_take_step(d, i - start);
            assert(d.take(i - start + 1) =~= d.take(i - start).push(d[i - start]));
            assert(all_digits(d.take(i - start + 1)));
        }
        acc = next;
        i += 1;
    }
    proof {
        assert(d.take(n - start) =~= d);
    }
    Some(acc)
}

proof fn lemma_overflow_means_reject(s: Seq<char>, d: Seq<char>, i: int, start: int)
    requires
        d == digit_part(s),
        0 <= start <= i < s.len(),
        d.len() == s.len() - start,
        forall|j: int| 0 <= j < d.len() ==> d[j] == s[j + start],
        all_digits(d.take(i - start)),
        is_digit_char(s[i]),
        digits_val(d.take(i - start)) * 10 + digit_val(s[i]) > u64::MAX,
    ensures
        spec_parse_u64(s) is None,
{
    if all_digits(d) {
        lemma_digits_val_take_step(d, i - start);
        assert(d[i - start] == s[i]);
        assert(digits_val(d.take(i - start + 1)) > u64::MAX);
        lemma_digits_val_prefix_bound(d, i - start + 1);
        assert(digits_val(d) > u64::MAX);
    }
}

/// The poll interval in force: the configured value where it parses as an
/// unsigned decimal, and the default where nothing is configured or the
/// text does not parse.
pub fn interval_from(raw: Option<&str>) -> (r: u64)
    ensures
        raw is None ==> r == DEFAULT_INTERVAL_SECS,
        raw matches Some(s) ==> r == (match spec_parse_u64(s@) {
            Some(v) => v,
            None => DEFAULT_INTERVAL_SECS as int,
        }),
{
    match raw {
        Some(s) => {
            match parse_u64(s) {
                Some(v) => v,
                None => DEFAULT_INTERVAL_SECS,
            }
        },
        None => DEFAULT_INTERVAL_SECS,
    }
}

/// One successful poll cycle: reconcile the snapshot through the dedup
/// cache, then hand every newly-activated location's event to the
/// broadcaster, in order; a cycle with no new events publishes nothing.
/// The number of events published is returned. A snapshot with an
/// unusable cell stops at that cell: what was reconciled before it
/// stands, and nothing is published.
pub fn run_cycle(cache: &mut DedupCache, broadcaster: &mut Broadcaster, cells: &Vec<CellReport>)
    -> (r: Result<usize, AppError>)
    requires
        old(broadcaster).wf(),
    ensures
        final(broadcaster).wf(),
        final(broadcaster).capacity_spec() == old(broadcaster).capacity_spec(),
        final(broadcaster).subscribers() == old(broadcaster).subscribers(),
        (r is Ok) <==> (forall|i: int|
            0 <= i < cells@.len() ==> cell_valid(cell_views(cells@)[i])),
        r is Ok ==> ({
            let events = events_after(old(cache).active_keys(), cell_views(cells@));
            &&& final(cache).active_keys() == cache_after(
                old(cache).active_keys(),
                cell_views(cells@),
            )
            &&& r->Ok_0 == events.len()
            &&& final(broadcaster).queues() == spec_publish_all(
                old(broadcaster).queues(),
                events,
                old(broadcaster).capacity_spec(),
            )
        }),
        r is Err ==> (r->Err_0 matches AppError::HtmlParse(m) && m@
            == "Invalid location coordinates"@) && *final(broadcaster) == *old(broadcaster),
        r is Err ==> exists|k: int|
            {
                &&& 0 <= k < cells@.len()
                &&& !cell_valid(#[trigger] cell_views(cells@)[k])
                &&& (forall|j: int| 0 <= j < k ==> cell_valid(cell_views(cells@)[j]))
                &&& final(cache).active_keys() == cache_after(
                    old(cache).active_keys(),
                    cell_views(cells@).take(k),
                )
            },
{
    match cache.reconcile(cells) {
        Ok(events) => {
            broadcast_events(broadcaster, &events);
            Ok(events.len())
        },
        Err(e) => Err(e),
    }
}

} // verus!
