//! Results of solver runs and their aggregation into a year report.
//!
//! Repeated runs of one `(day, part)` key merge additively: the sample lists
//! are concatenated and no sample is ever dropped. The merge laws are stated
//! and proved at the end of this module.

use vstd::multiset::Multiset;
use vstd::prelude::*;

use crate::decimal::{digit_str, u64_to_string};
use crate::options::{AocOption, OutcomeView};
use crate::Parts;

verus! {

/// The elapsed-time samples of one `(day, part)` key, in nanoseconds.
#[derive(Debug)]
pub struct AocDuration {
    /// The samples, one per run.
    pub duration: Vec<u64>,
}

/// The sum of a sample list.
pub open spec fn spec_sum(s: Seq<u64>) -> int
    decreases s.len(),
{
    if s.len() == 0 {
        0
    } else {
        spec_sum(s.drop_last()) + s.last()
    }
}

/// A sample sum is bounded by the largest sample times the count.
proof fn lemma_sum_bound(s: Seq<u64>)
    ensures
        0 <= spec_sum(s) <= s.len() * (u64::MAX as int),
    decreases s.len(),
{
    if s.len() > 0 {
        lemma_sum_bound(s.drop_last());
        assert((s.len() - 1) * (u64::MAX as int) + (u64::MAX as int) == s.len() * (
        u64::MAX as int)) by (nonlinear_arith);
    }
}

impl AocDuration {
    /// Wraps a sample list.
    pub fn new(duration: Vec<u64>) -> (r: AocDuration)
        ensures
            r.duration@ == duration@,
    {
        AocDuration { duration }
    }

    /// The samples.
    pub fn duration(&self) -> (r: &Vec<u64>)
        ensures
            r@ == self.duration@,
    {
        &self.duration
    }

    /// How many samples there are.
    pub fn duration_len(&self) -> (r: usize)
        ensures
            r == self.duration@.len(),
    {
        self.duration.len()
    }

    /// Takes the samples out, leaving none behind.
    pub fn get_mut_time(&mut self) -> (r: Vec<u64>)
        ensures
            r@ == old(self).duration@,
            final(self).duration@ == Seq::<u64>::empty(),
    {
        let mut taken: Vec<u64> = Vec::new();
        core::mem::swap(&mut taken, &mut self.duration);
        taken
    }

    /// Merges further samples in: the lists are concatenated, the argument
    /// is drained, and no sample is dropped.
    pub fn additional_time(&mut self, time: &mut Vec<u64>) -> (r: ())
        ensures
            final(self).duration@ == old(self).duration@ + old(time)@,
            final(time)@ == Seq::<u64>::empty(),
    {
        self.duration.append(time);
    }

    /// The mean sample, rounded down, when there are samples at all.
    pub fn avg_time(&self) -> (r: Option<u64>)
        ensures
            match r {
                Some(v) => self.duration@.len() > 0 && v == spec_sum(self.duration@) / (
                self.duration@.len() as int),
                None => self.duration@.len() == 0,
            },
    {
        if self.duration.len() == 0 {
            return None;
        }
        let mut acc: u128 = 0;
        let mut i: usize = 0;
        while i < self.duration.len()
            invariant
                i <= self.duration@.len(),
                acc == spec_sum(self.duration@.take(i as int)),
                acc <= (i as int) * (u64::MAX as int),
            decreases self.duration@.len() - i,
        {
            proof {
                assert(self.duration@.take(i + 1).drop_last() =~= self.duration@.take(i as int));
                assert((i as int) * (u64::MAX as int) + (u64::MAX as int) == (i + 1) * (
                u64::MAX as int)) by (nonlinear_arith);
                assert((i + 1) * (u64::MAX as int) <= (self.duration@.len() as int) * (
                u64::MAX as int)) by (nonlinear_arith)
                    requires
                        i + 1 <= self.duration@.len(),
                ;
            }
            acc = acc + (self.duration[i] as u128);
            i = i + 1;
        }
        proof {
            assert(self.duration@.take(self.duration@.len() as int) =~= self.duration@);
            lemma_sum_bound(self.duration@);
            let n = self.duration@.len() as int;
            let m = u64::MAX as int;
            vstd::arithmetic::div_mod::lemma_div_is_ordered(acc as int, n * m, n);
            vstd::arithmetic::div_mod::lemma_div_multiples_vanish(m, n);
            assert(acc as int / n <= m);
        }
        let avg: u128 = acc / (self.duration.len() as u128);
        Some(avg as u64)
    }
}

/// Two truncated decimal places of the fraction `rem / unit`.
pub open spec fn spec_two_decimals(rem: int, unit: int) -> Seq<char> {
    seq![
        crate::decimal::dec_digit_char(rem / (unit / 10)),
        crate::decimal::dec_digit_char((rem % (unit / 10)) / (unit / 100)),
    ]
}

/// How a mean time in nanoseconds is shown: scaled to seconds, milliseconds
/// or microseconds with two decimal places, or whole nanoseconds.
pub open spec fn spec_scaled_time(a: int) -> Seq<char> {
    if a >= 1_000_000_000 {
        crate::decimal::spec_u64_string((a / 1_000_000_000) as nat) + "."@ + spec_two_decimals(
            a % 1_000_000_000,
            1_000_000_000,
        ) + " s"@
    } else if a >= 1_000_000 {
        crate::decimal::spec_u64_string((a / 1_000_000) as nat) + "."@ + spec_two_decimals(
            a % 1_000_000,
            1_000_000,
        ) + " ms"@
    } else if a >= 1_000 {
        crate::decimal::spec_u64_string((a / 1_000) as nat) + "."@ + spec_two_decimals(
            a % 1_000,
            1_000,
        ) + " us"@
    } else {
        crate::decimal::spec_u64_string(a as nat) + " ns"@
    }
}

/// How a sample list is shown: its scaled mean, or `None` without samples.
pub open spec fn spec_duration_display(samples: Seq<u64>) -> Seq<char> {
    if samples.len() == 0 {
        "None"@
    } else {
        spec_scaled_time(spec_sum(samples) / (samples.len() as int))
    }
}

impl AocDuration {
    /// Renders the mean sample with a fitting unit, two decimal places
    /// truncated, or `None` when there is no sample.
    pub fn display_string(&self) -> (r: String)
        ensures
            r@ == spec_duration_display(self.duration@),
    {
        let avg = match self.avg_time() {
            Some(a) => a,
            None => {
                return String::from_str("None");
            },
        };
        let (unit, suffix): (u64, &'static str) = if avg >= 1_000_000_000 {
            (1_000_000_000, " s")
        } else if avg >= 1_000_000 {
            (1_000_000, " ms")
        } else if avg >= 1_000 {
            (1_000, " us")
        } else {
            let mut r = u64_to_string(avg);
            r.append(" ns");
            return r;
        };
        let whole = avg / unit;
        let rem = avg % unit;
        let d1 = rem / (unit / 10);
        let d2 = (rem % (unit / 10)) / (unit / 100);
        proof {
            assert(d1 < 10 && d2 < 10) by (nonlinear_arith)
                requires
                    d1 == rem / (unit / 10) && d2 == (rem % (unit / 10)) / (unit / 100) && rem
                        < unit && (unit == 1_000_000_000 || unit == 1_000_000 || unit == 1_000),
            ;
        }
        let mut r = u64_to_string(whole);
        r.append(".");
        r.append(digit_str(d1 as u8));
        r.append(digit_str(d2 as u8));
        r.append(suffix);
        proof {
            assert(r@ =~= spec_duration_display(self.duration@));
        }
        r
    }
}

/// One measured outcome: a day, a part, the solver's outcome, and the
/// elapsed-time samples collected for that key.
#[derive(Debug)]
pub struct AocResult {
    /// The day, 1 to 25.
    pub day: u8,
    /// The part.
    pub part: Parts,
    /// The solver's outcome.
    pub result: AocOption,
    /// The elapsed-time samples.
    pub time: AocDuration,
}

impl AocResult {
    /// A result of one run: one sample.
    pub fn new(day: u8, part: u8, result: AocOption, time: u64) -> (r: AocResult)
        requires
            part == 1 || part == 2,
        ensures
            r.day == day,
            r.part == (if part == 1 {
                Parts::Part1
            } else {
                Parts::Part2
            }),
            r.result == result,
            r.time.duration@ == seq![time],
    {
        let p = if part == 1 {
            Parts::Part1
        } else {
            Parts::Part2
        };
        let mut duration: Vec<u64> = Vec::new();
        duration.push(time);
        proof {
            assert(duration@ =~= seq![time]);
        }
        AocResult { day, part: p, result, time: AocDuration { duration } }
    }

    /// The day.
    pub fn day(&self) -> (r: u8)
        ensures
            r == self.day,
    {
        self.day
    }

    /// The part.
    pub fn part(&self) -> (r: Parts)
        ensures
            r == self.part,
    {
        self.part
    }

    /// The outcome.
    pub fn result(&self) -> (r: &AocOption)
        ensures
            r == &self.result,
    {
        &self.result
    }

    /// Takes the samples out, leaving none behind.
    pub fn get_mut_time(&mut self) -> (r: Vec<u64>)
        ensures
            r@ == old(self).time.duration@,
            final(self).time.duration@ == Seq::<u64>::empty(),
            final(self).day == old(self).day,
            final(self).part == old(self).part,
            final(self).result == old(self).result,
    {
        self.time.get_mut_time()
    }

    /// Merges further samples into this result's key.
    pub fn additional_time(&mut self, time: &mut Vec<u64>) -> (r: ())
        ensures
            final(self).time.duration@ == old(self).time.duration@ + old(time)@,
            final(time)@ == Seq::<u64>::empty(),
            final(self).day == old(self).day,
            final(self).part == old(self).part,
            final(self).result == old(self).result,
    {
        self.time.additional_time(time);
    }

    /// The mean sample, when there are samples at all.
    pub fn avg_time(&self) -> (r: Option<u64>)
        ensures
            match r {
                Some(v) => self.time.duration@.len() > 0 && v == spec_sum(self.time.duration@) / (
                self.time.duration@.len() as int),
                None => self.time.duration@.len() == 0,
            },
    {
        self.time.avg_time()
    }
}

/// Whether a result carries the `(day, part)` key.
pub open spec fn key_matches(r: AocResult, day: u8, part: Parts) -> bool {
    r.day == day && r.part == part
}

/// Whether any entry carries the day.
pub open spec fn day_present(entries: Seq<AocResult>, d: u8) -> bool {
    exists|k: int| 0 <= k < entries.len() && (#[trigger] entries[k]).day == d
}

/// The earliest entry carrying the key, when one does.
pub open spec fn spec_lookup(rs: Seq<AocResult>, day: u8, part: Parts) -> Option<AocResult>
    decreases rs.len(),
{
    if rs.len() == 0 {
        Option::None
    } else {
        let rest = spec_lookup(rs.drop_last(), day, part);
        if rest is Some {
            rest
        } else if key_matches(rs.last(), day, part) {
            Some(rs.last())
        } else {
            Option::None
        }
    }
}

/// Without a matching entry, the lookup is empty.
proof fn lemma_lookup_none(rs: Seq<AocResult>, day: u8, part: Parts)
    requires
        forall|k: int| 0 <= k < rs.len() ==> !key_matches(#[trigger] rs[k], day, part),
    ensures
        spec_lookup(rs, day, part) is None,
    decreases rs.len(),
{
    if rs.len() > 0 {
        assert forall|k: int| 0 <= k < rs.drop_last().len() implies !key_matches(
            #[trigger] rs.drop_last()[k],
            day,
            part,
        ) by {
            assert(rs.drop_last()[k] == rs[k]);
        }
        lemma_lookup_none(rs.drop_last(), day, part);
        assert(!key_matches(rs[rs.len() - 1], day, part));
    }
}

/// The first matching index is what the lookup returns.
proof fn lemma_lookup_first(rs: Seq<AocResult>, day: u8, part: Parts, idx: int)
    requires
        0 <= idx < rs.len(),
        key_matches(rs[idx], day, part),
        forall|k: int| 0 <= k < idx ==> !key_matches(#[trigger] rs[k], day, part),
    ensures
        spec_lookup(rs, day, part) == Some(rs[idx]),
    decreases rs.len(),
{
    if idx < rs.len() - 1 {
        assert(rs.drop_last()[idx] == rs[idx]);
        assert forall|k: int| 0 <= k < idx implies !key_matches(
            #[trigger] rs.drop_last()[k],
            day,
            part,
        ) by {
            assert(rs.drop_last()[k] == rs[k]);
        }
        lemma_lookup_first(rs.drop_last(), day, part, idx);
    } else {
        assert forall|k: int| 0 <= k < rs.drop_last().len() implies !key_matches(
            #[trigger] rs.drop_last()[k],
            day,
            part,
        ) by {
            assert(rs.drop_last()[k] == rs[k]);
        }
        lemma_lookup_none(rs.drop_last(), day, part);
    }
}

/// Whether any result in the sequence carries the key.
pub open spec fn has_key(rs: Seq<AocResult>, day: u8, part: Parts) -> bool {
    exists|i: int| 0 <= i < rs.len() && key_matches(#[trigger] rs[i], day, part)
}

/// The concatenation of the sample lists of every result with the key, in
/// order.
pub open spec fn merged_times(rs: Seq<AocResult>, day: u8, part: Parts) -> Seq<u64>
    decreases rs.len(),
{
    if rs.len() == 0 {
        Seq::empty()
    } else {
        let rest = merged_times(rs.drop_last(), day, part);
        if key_matches(rs.last(), day, part) {
            rest + rs.last().time.duration@
        } else {
            rest
        }
    }
}

/// The outcome of the earliest result with the key; `Missing` when none has
/// it.
pub open spec fn first_outcome(rs: Seq<AocResult>, day: u8, part: Parts) -> OutcomeView
    decreases rs.len(),
{
    if rs.len() == 0 {
        OutcomeView::Missing
    } else if has_key(rs.drop_last(), day, part) {
        first_outcome(rs.drop_last(), day, part)
    } else if key_matches(rs.last(), day, part) {
        rs.last().result@
    } else {
        first_outcome(rs.drop_last(), day, part)
    }
}

/// A sequence without the key merges to no samples.
proof fn lemma_no_key_no_times(rs: Seq<AocResult>, day: u8, part: Parts)
    requires
        !has_key(rs, day, part),
    ensures
        merged_times(rs, day, part) == Seq::<u64>::empty(),
    decreases rs.len(),
{
    if rs.len() > 0 {
        assert(!key_matches(rs[rs.len() - 1], day, part));
        assert forall|i: int| 0 <= i < rs.drop_last().len() implies !key_matches(
            #[trigger] rs.drop_last()[i],
            day,
            part,
        ) by {
            assert(rs.drop_last()[i] == rs[i]);
        }
        lemma_no_key_no_times(rs.drop_last(), day, part);
    }
}

/// The year report: one merged result per `(day, part)` key, and the set of
/// days present, in increasing order.
pub struct AocYear {
    days: Vec<AocResult>,
    available_days: Vec<u8>,
}

impl AocYear {
    /// The merged results, one per key, in first-seen order.
    pub closed spec fn spec_entries(self) -> Seq<AocResult> {
        self.days@
    }

    /// The days present, in increasing order.
    pub closed spec fn spec_available_days(self) -> Seq<u8> {
        self.available_days@
    }

    /// Keys are unique; the day list is strictly increasing and holds
    /// exactly the days of the entries.
    pub open spec fn wf(self) -> bool {
        &&& forall|a: int, b: int|
            0 <= a < b < self.spec_entries().len() ==> !(((#[trigger] self.spec_entries()[a]).day
                == (#[trigger] self.spec_entries()[b]).day) && self.spec_entries()[a].part
                == self.spec_entries()[b].part)
        &&& forall|a: int, b: int|
            0 <= a < b < self.spec_available_days().len() ==> (
            #[trigger] self.spec_available_days()[a]) < (#[trigger] self.spec_available_days()[b])
        &&& forall|k: int|
            0 <= k < self.spec_entries().len() ==> self.spec_available_days().contains(
                (#[trigger] self.spec_entries()[k]).day,
            )
        &&& forall|m: int|
            0 <= m < self.spec_available_days().len() ==> day_present(
                self.spec_entries(),
                #[trigger] self.spec_available_days()[m],
            )
    }

    /// The merged entries, for reading the report out.
    pub fn entries(&self) -> (r: &Vec<AocResult>)
        ensures
            r@ == self.spec_entries(),
    {
        &self.days
    }

    /// The days present, in increasing order.
    pub fn available_days(&self) -> (r: &Vec<u8>)
        ensures
            r@ == self.spec_available_days(),
    {
        &self.available_days
    }

    /// The merged result for a key, when the key is present: the earliest
    /// entry carrying it.
    pub fn get(&self, day: u8, part: Parts) -> (r: Option<&AocResult>)
        ensures
            match r {
                Some(e) => has_key(self.spec_entries(), day, part) && spec_lookup(
                    self.spec_entries(),
                    day,
                    part,
                ) == Some(*e) && key_matches(*e, day, part),
                None => !has_key(self.spec_entries(), day, part) && spec_lookup(
                    self.spec_entries(),
                    day,
                    part,
                ) is None,
            },
    {
        let mut i: usize = 0;
        while i < self.days.len()
            invariant
                i <= self.days@.len(),
                forall|k: int| 0 <= k < i ==> !key_matches(#[trigger] self.days@[k], day, part),
            decreases self.days@.len() - i,
        {
            if self.days[i].day == day && self.days[i].part == part {
                proof {
                    assert(key_matches(self.spec_entries()[i as int], day, part));
                    assert(has_key(self.spec_entries(), day, part));
                    lemma_lookup_first(self.spec_entries(), day, part, i as int);
                }
                return Some(&self.days[i]);
            }
            i = i + 1;
        }
        proof {
            lemma_lookup_none(self.spec_entries(), day, part);
        }
        None
    }

    /// Builds the report from a flat list of results: the first result of
    /// each key is kept and every later result of that key merges its
    /// samples in, additively and in order.
    pub fn from_vec(results: Vec<AocResult>) -> (r: AocYear)
        ensures
            r.wf(),
            forall|d: u8, p: Parts| has_key(r.spec_entries(), d, p) <==> has_key(results@, d, p),
            forall|k: int|
                0 <= k < r.spec_entries().len() ==> {
                    let e = #[trigger] r.spec_entries()[k];
                    e.time.duration@ == merged_times(results@, e.day, e.part) && e.result@
                        == first_outcome(results@, e.day, e.part)
                },
    {
        let ghost all = results@;
        let mut remaining = results;
        let total = remaining.len();
        let mut days: Vec<AocResult> = Vec::new();
        let mut available_days: Vec<u8> = Vec::new();
        let mut i: usize = 0;
        proof {
            assert(all.take(0) =~= Seq::<AocResult>::empty());
        }
        while remaining.len() > 0
            invariant
                i <= all.len(),
                all.len() == total,
                remaining@ == all.skip(i as int),
                forall|a: int, b: int|
                    0 <= a < b < days@.len() ==> !((#[trigger] days@[a]).day == (
                    #[trigger] days@[b]).day && days@[a].part == days@[b].part),
                forall|a: int, b: int|
                    0 <= a < b < available_days@.len() ==> (#[trigger] available_days@[a]) < (
                    #[trigger] available_days@[b]),
                forall|k: int|
                    0 <= k < days@.len() ==> available_days@.contains(
                        (#[trigger] days@[k]).day,
                    ),
                forall|m: int|
                    0 <= m < available_days@.len() ==> day_present(
                        days@,
                        #[trigger] available_days@[m],
                    ),
                forall|k: int|
                    0 <= k < days@.len() ==> {
                        let e = #[trigger] days@[k];
                        e.time.duration@ == merged_times(all.take(i as int), e.day, e.part)
                            && e.result@ == first_outcome(all.take(i as int), e.day, e.part)
                    },
                forall|d: u8, p: Parts|
                    #[trigger] has_key(days@, d, p) <==> has_key(all.take(i as int), d, p),
            decreases remaining@.len(),
        {
            let ghost prefix = all.take(i as int);
            let ghost prefix1 = all.take(i + 1);
            proof {
                assert(prefix1.drop_last() =~= prefix);
                assert(prefix1.last() == all[i as int]);
            }
            let mut result = remaining.remove(0);
            proof {
                assert(remaining@ =~= all.skip(i + 1));
                assert(result == all[i as int]);
            }
            let day = result.day;
            let part = result.part;
            let found = find_key_index(&days, day, part);
            match found {
                Some(idx) => {
                    let ghost old_days = days@;
                    let ghost new_times = old_days[idx as int].time.duration@
                        + result.time.duration@;
                    let mut entry = days.remove(idx);
                    let mut extra = result.get_mut_time();
                    entry.additional_time(&mut extra);
                    proof {
                        assert(entry.day == day && entry.part == part);
                        assert(entry.result == old_days[idx as int].result);
                        assert(entry.time.duration@ == new_times);
                    }
                    let ghost entry_v = entry;
                    days.insert(idx, entry);
                    proof {
                        assert(days@ =~= old_days.update(idx as int, entry_v));
                        lemma_step_invariants(all, i as int, old_days, days@, idx as int);
                        assert forall|k: int| 0 <= k < days@.len() implies available_days@.contains(
                            (#[trigger] days@[k]).day,
                        ) by {
                            assert(days@[k].day == old_days[k].day);
                        }
                        assert forall|m: int| 0 <= m < available_days@.len() implies day_present(
                            days@,
                            #[trigger] available_days@[m],
                        ) by {
                            assert(day_present(old_days, available_days@[m]));
                            let k0 = choose|k: int|
                                0 <= k < old_days.len() && (#[trigger] old_days[k]).day
                                    == available_days@[m];
                            assert(days@[k0].day == old_days[k0].day);
                        }
                    }
                },
                None => {
                    let ghost old_days = days@;
                    days.push(result);
                    proof {
                        lemma_push_invariants(all, i as int, old_days, days@);
                    }
                    let ghost old_av = available_days@;
                    if !contains_day_exec(&available_days, day) {
                        insert_sorted(&mut available_days, day);
                    }
                    proof {
                        assert(available_days@.contains(day));
                        assert forall|k: int| 0 <= k < days@.len() implies available_days@.contains(
                            (#[trigger] days@[k]).day,
                        ) by {
                            if k < old_days.len() {
                                assert(days@[k] == old_days[k]);
                                assert(old_av.contains(old_days[k].day));
                                let m0 = choose|m: int|
                                    0 <= m < old_av.len() && old_av[m] == old_days[k].day;
                                assert(available_days@.contains(old_av[m0]));
                            } else {
                                assert(days@[k].day == day);
                            }
                        }
                        assert forall|m: int| 0 <= m < available_days@.len() implies day_present(
                            days@,
                            #[trigger] available_days@[m],
                        ) by {
                            let d = available_days@[m];
                            assert(available_days@.contains(d));
                            if d == day {
                                assert(days@[days@.len() - 1].day == day);
                            } else {
                                assert(old_av.contains(d));
                                let m0 = choose|mm: int|
                                    0 <= mm < old_av.len() && old_av[mm] == d;
                                assert(day_present(old_days, old_av[m0]));
                                let k0 = choose|k: int|
                                    0 <= k < old_days.len() && (#[trigger] old_days[k]).day == d;
                                assert(days@[k0] == old_days[k0]);
                            }
                        }
                    }
                },
            }
            i = i + 1;
        }
        proof {
            assert(all.take(i as int) =~= all);
            let year = AocYear { days: days, available_days: available_days };
            assert(year.spec_entries() == days@);
            assert(year.spec_available_days() == available_days@);
            assert forall|a: int, b: int| 0 <= a < b < year.spec_entries().len() implies !((
            #[trigger] year.spec_entries()[a]).day == (#[trigger] year.spec_entries()[b]).day
                && year.spec_entries()[a].part == year.spec_entries()[b].part) by {
                assert(year.spec_entries()[a] == days@[a] && year.spec_entries()[b] == days@[b]);
            }
            assert forall|a: int, b: int| 0 <= a < b < year.spec_available_days().len() implies (
            #[trigger] year.spec_available_days()[a]) < (
            #[trigger] year.spec_available_days()[b]) by {
                assert(year.spec_available_days()[a] == available_days@[a]
                    && year.spec_available_days()[b] == available_days@[b]);
            }
            assert forall|k: int|
                0 <= k < year.spec_entries().len() implies year.spec_available_days().contains(
                (#[trigger] year.spec_entries()[k]).day,
            ) by {
                assert(available_days@.contains(days@[k].day));
                let m0 = choose|mm: int|
                    0 <= mm < available_days@.len() && available_days@[mm] == days@[k].day;
                assert(year.spec_available_days()[m0] == days@[k].day);
                assert(year.spec_entries()[k] == days@[k]);
            }
            assert forall|m: int| 0 <= m < year.spec_available_days().len() implies day_present(
                year.spec_entries(),
                #[trigger] year.spec_available_days()[m],
            ) by {
                assert(day_present(days@, available_days@[m]));
            }
            assert(year.wf());
        }
        AocYear { days, available_days }
    }
}

/// Re-establishes the merge invariants after one result merges into the
/// entry at `idx`.
proof fn lemma_step_invariants(
    all: Seq<AocResult>,
    i: int,
    old_days: Seq<AocResult>,
    new_days: Seq<AocResult>,
    idx: int,
)
    requires
        0 <= i < all.len(),
        0 <= idx < old_days.len(),
        new_days.len() == old_days.len(),
        forall|k: int| 0 <= k < new_days.len() && k != idx ==> #[trigger] new_days[k] == old_days[k],
        key_matches(old_days[idx], all[i].day, all[i].part),
        new_days[idx].day == all[i].day && new_days[idx].part == all[i].part,
        new_days[idx].result == old_days[idx].result,
        new_days[idx].time.duration@ == old_days[idx].time.duration@ + all[i].time.duration@,
        forall|a: int, b: int|
            0 <= a < b < old_days.len() ==> !((#[trigger] old_days[a]).day == (
            #[trigger] old_days[b]).day && old_days[a].part == old_days[b].part),
        forall|k: int|
            0 <= k < old_days.len() ==> {
                let e = #[trigger] old_days[k];
                e.time.duration@ == merged_times(all.take(i), e.day, e.part) && e.result@
                    == first_outcome(all.take(i), e.day, e.part)
            },
        forall|d: u8, p: Parts| #[trigger] has_key(old_days, d, p) <==> has_key(all.take(i), d, p),
    ensures
        forall|a: int, b: int|
            0 <= a < b < new_days.len() ==> !((#[trigger] new_days[a]).day == (
            #[trigger] new_days[b]).day && new_days[a].part == new_days[b].part),
        forall|k: int|
            0 <= k < new_days.len() ==> {
                let e = #[trigger] new_days[k];
                e.time.duration@ == merged_times(all.take(i + 1), e.day, e.part) && e.result@
                    == first_outcome(all.take(i + 1), e.day, e.part)
            },
        forall|d: u8, p: Parts| #[trigger] has_key(new_days, d, p) <==> has_key(all.take(i + 1), d, p),
{
    let prefix = all.take(i);
    let prefix1 = all.take(i + 1);
    assert(prefix1.drop_last() =~= prefix);
    assert(prefix1.last() == all[i]);
    let day = all[i].day;
    let part = all[i].part;
    assert forall|a: int, b: int| 0 <= a < b < new_days.len() implies !((#[trigger] new_days[a]).day
        == (#[trigger] new_days[b]).day && new_days[a].part == new_days[b].part) by {
        assert(new_days[a].day == old_days[a].day && new_days[a].part == old_days[a].part);
        assert(new_days[b].day == old_days[b].day && new_days[b].part == old_days[b].part);
    }
    assert(has_key(old_days, day, part));
    assert(has_key(prefix, day, part));
    assert(first_outcome(prefix1, day, part) == first_outcome(prefix, day, part));
    assert forall|k: int| 0 <= k < new_days.len() implies {
        let e = #[trigger] new_days[k];
        e.time.duration@ == merged_times(prefix1, e.day, e.part) && e.result@ == first_outcome(
            prefix1,
            e.day,
            e.part,
        )
    } by {
        if k == idx {
            assert(merged_times(prefix1, day, part) == merged_times(prefix, day, part)
                + all[i].time.duration@);
        } else {
            let e = new_days[k];
            assert(e == old_days[k]);
            if e.day == day && e.part == part {
                if k < idx {
                    assert(!(old_days[k].day == old_days[idx].day && old_days[k].part
                        == old_days[idx].part));
                } else {
                    assert(!(old_days[idx].day == old_days[k].day && old_days[idx].part
                        == old_days[k].part));
                }
            }
            assert(!key_matches(all[i], e.day, e.part));
            assert(merged_times(prefix1, e.day, e.part) == merged_times(prefix, e.day, e.part));
            assert(has_key(old_days, e.day, e.part));
            assert(has_key(prefix, e.day, e.part));
            assert(first_outcome(prefix1, e.day, e.part) == first_outcome(prefix, e.day, e.part));
        }
    }
    assert forall|d: u8, p: Parts| #[trigger] has_key(new_days, d, p) <==> has_key(prefix1, d, p) by {
        assert(has_key(new_days, d, p) <==> has_key(old_days, d, p)) by {
            if has_key(new_days, d, p) {
                let k = choose|k: int|
                    0 <= k < new_days.len() && key_matches(#[trigger] new_days[k], d, p);
                assert(new_days[k].day == old_days[k].day && new_days[k].part == old_days[k].part);
                assert(key_matches(old_days[k], d, p));
            }
            if has_key(old_days, d, p) {
                let k = choose|k: int|
                    0 <= k < old_days.len() && key_matches(#[trigger] old_days[k], d, p);
                assert(new_days[k].day == old_days[k].day && new_days[k].part == old_days[k].part);
                assert(key_matches(new_days[k], d, p));
            }
        }
        assert(has_key(prefix1, d, p) <==> (has_key(prefix, d, p) || (d == day && p == part))) by {
            if has_key(prefix1, d, p) {
                let k = choose|k: int|
                    0 <= k < prefix1.len() && key_matches(#[trigger] prefix1[k], d, p);
                if k < i {
                    assert(prefix[k] == prefix1[k]);
                    assert(key_matches(prefix[k], d, p));
                }
            }
            if has_key(prefix, d, p) {
                let k = choose|k: int|
                    0 <= k < prefix.len() && key_matches(#[trigger] prefix[k], d, p);
                assert(prefix1[k] == prefix[k]);
                assert(key_matches(prefix1[k], d, p));
            }
            assert(key_matches(prefix1[i], day, part));
        }
    }
}

/// Re-establishes the merge invariants after a result with a new key is
/// appended.
proof fn lemma_push_invariants(
    all: Seq<AocResult>,
    i: int,
    old_days: Seq<AocResult>,
    new_days: Seq<AocResult>,
)
    requires
        0 <= i < all.len(),
        new_days == old_days.push(all[i]),
        !has_key(old_days, all[i].day, all[i].part),
        forall|a: int, b: int|
            0 <= a < b < old_days.len() ==> !((#[trigger] old_days[a]).day == (
            #[trigger] old_days[b]).day && old_days[a].part == old_days[b].part),
        forall|k: int|
            0 <= k < old_days.len() ==> {
                let e = #[trigger] old_days[k];
                e.time.duration@ == merged_times(all.take(i), e.day, e.part) && e.result@
                    == first_outcome(all.take(i), e.day, e.part)
            },
        forall|d: u8, p: Parts| #[trigger] has_key(old_days, d, p) <==> has_key(all.take(i), d, p),
    ensures
        forall|a: int, b: int|
            0 <= a < b < new_days.len() ==> !((#[trigger] new_days[a]).day == (
            #[trigger] new_days[b]).day && new_days[a].part == new_days[b].part),
        forall|k: int|
            0 <= k < new_days.len() ==> {
                let e = #[trigger] new_days[k];
                e.time.duration@ == merged_times(all.take(i + 1), e.day, e.part) && e.result@
                    == first_outcome(all.take(i + 1), e.day, e.part)
            },
        forall|d: u8, p: Parts| #[trigger] has_key(new_days, d, p) <==> has_key(all.take(i + 1), d, p),
{
    let prefix = all.take(i);
    let prefix1 = all.take(i + 1);
    assert(prefix1.drop_last() =~= prefix);
    assert(prefix1.last() == all[i]);
    let day = all[i].day;
    let part = all[i].part;
    assert(!has_key(prefix, day, part));
    lemma_no_key_no_times(prefix, day, part);
    assert forall|a: int, b: int| 0 <= a < b < new_days.len() implies !((#[trigger] new_days[a]).day
        == (#[trigger] new_days[b]).day && new_days[a].part == new_days[b].part) by {
        if b == new_days.len() - 1 {
            assert(new_days[a] == old_days[a]);
            assert(new_days[b] == all[i]);
            assert(!key_matches(old_days[a], day, part));
        } else {
            assert(new_days[a] == old_days[a] && new_days[b] == old_days[b]);
        }
    }
    assert forall|k: int| 0 <= k < new_days.len() implies {
        let e = #[trigger] new_days[k];
        e.time.duration@ == merged_times(prefix1, e.day, e.part) && e.result@ == first_outcome(
            prefix1,
            e.day,
            e.part,
        )
    } by {
        if k == new_days.len() - 1 {
            assert(new_days[k] == all[i]);
            assert(merged_times(prefix1, day, part) == merged_times(prefix, day, part)
                + all[i].time.duration@);
            assert(Seq::<u64>::empty() + all[i].time.duration@ =~= all[i].time.duration@);
            assert(first_outcome(prefix1, day, part) == all[i].result@);
        } else {
            let e = new_days[k];
            assert(e == old_days[k]);
            assert(!key_matches(all[i], e.day, e.part)) by {
                if e.day == day && e.part == part {
                    assert(key_matches(old_days[k], day, part));
                }
            }
            assert(merged_times(prefix1, e.day, e.part) == merged_times(prefix, e.day, e.part));
            assert(has_key(old_days, e.day, e.part));
            assert(has_key(prefix, e.day, e.part));
            assert(first_outcome(prefix1, e.day, e.part) == first_outcome(prefix, e.day, e.part));
        }
    }
    assert forall|d: u8, p: Parts| #[trigger] has_key(new_days, d, p) <==> has_key(prefix1, d, p) by {
        assert(has_key(new_days, d, p) <==> (has_key(old_days, d, p) || (d == day && p == part)))
            by {
            if has_key(new_days, d, p) {
                let k = choose|k: int|
                    0 <= k < new_days.len() && key_matches(#[trigger] new_days[k], d, p);
                if k < old_days.len() {
                    assert(key_matches(old_days[k], d, p));
                }
            }
            if has_key(old_days, d, p) {
                let k = choose|k: int|
                    0 <= k < old_days.len() && key_matches(#[trigger] old_days[k], d, p);
                assert(key_matches(new_days[k], d, p));
            }
            assert(key_matches(new_days[new_days.len() - 1], day, part));
        }
        assert(has_key(prefix1, d, p) <==> (has_key(prefix, d, p) || (d == day && p == part))) by {
            if has_key(prefix1, d, p) {
                let k = choose|k: int|
                    0 <= k < prefix1.len() && key_matches(#[trigger] prefix1[k], d, p);
                if k < i {
                    assert(prefix[k] == prefix1[k]);
                    assert(key_matches(prefix[k], d, p));
                }
            }
            if has_key(prefix, d, p) {
                let k = choose|k: int|
                    0 <= k < prefix.len() && key_matches(#[trigger] prefix[k], d, p);
                assert(prefix1[k] == prefix[k]);
                assert(key_matches(prefix1[k], d, p));
            }
            assert(key_matches(prefix1[i], day, part));
        }
    }
}

/// Law: merging sample lists is associative.
///
/// Merging a third result into an already-merged key gives the same samples
/// as merging the last two first.
pub proof fn lemma_merge_associative(a: Seq<u64>, b: Seq<u64>, c: Seq<u64>)
    ensures
        (a + b) + c == a + (b + c),
{
    assert((a + b) + c =~= a + (b + c));
}

/// Law: merging two results of one key is commutative over the collection
/// of samples; only the order can differ.
pub proof fn lemma_merge_commutative(a: Seq<u64>, b: Seq<u64>)
    ensures
        (a + b).to_multiset() == (b + a).to_multiset(),
{
    vstd::seq_lib::lemma_multiset_commutative(a, b);
    vstd::seq_lib::lemma_multiset_commutative(b, a);
    assert((a + b).to_multiset() =~= (b + a).to_multiset());
}

/// Law: a merge never drops a sample: the merged list carries every sample
/// of both inputs, by count and as a collection.
pub proof fn lemma_merge_drops_nothing(a: Seq<u64>, b: Seq<u64>)
    ensures
        (a + b).len() == a.len() + b.len(),
        (a + b).to_multiset() == a.to_multiset().add(b.to_multiset()),
{
    vstd::seq_lib::lemma_multiset_commutative(a, b);
}

/// One result's contribution to a key's sample collection.
pub open spec fn key_contribution(r: AocResult, day: u8, part: Parts) -> Multiset<u64> {
    if key_matches(r, day, part) {
        r.time.duration@.to_multiset()
    } else {
        Multiset::empty()
    }
}

/// The samples of a key across all results, as a collection.
pub open spec fn key_samples(rs: Seq<AocResult>, day: u8, part: Parts) -> Multiset<u64>
    decreases rs.len(),
{
    if rs.len() == 0 {
        Multiset::empty()
    } else {
        key_samples(rs.drop_last(), day, part).add(key_contribution(rs.last(), day, part))
    }
}

/// A key's merged samples are exactly its collection of samples.
proof fn lemma_merged_times_key_samples(rs: Seq<AocResult>, day: u8, part: Parts)
    ensures
        merged_times(rs, day, part).to_multiset() == key_samples(rs, day, part),
    decreases rs.len(),
{
    broadcast use vstd::seq_lib::group_to_multiset_ensures;

    if rs.len() == 0 {
        assert(merged_times(rs, day, part).to_multiset() =~= Multiset::<u64>::empty()) by {
            assert(forall|x: u64| !merged_times(rs, day, part).contains(x));
        }
    } else {
        lemma_merged_times_key_samples(rs.drop_last(), day, part);
        let rest = merged_times(rs.drop_last(), day, part);
        if key_matches(rs.last(), day, part) {
            vstd::seq_lib::lemma_multiset_commutative(rest, rs.last().time.duration@);
        } else {
            assert(key_samples(rs.drop_last(), day, part).add(Multiset::empty())
                =~= key_samples(rs.drop_last(), day, part));
        }
    }
}

/// Taking one result out takes exactly its contribution out.
proof fn lemma_key_samples_remove(rs: Seq<AocResult>, day: u8, part: Parts, j: int)
    requires
        0 <= j < rs.len(),
    ensures
        key_samples(rs, day, part) == key_samples(rs.remove(j), day, part).add(
            key_contribution(rs[j], day, part),
        ),
    decreases rs.len(),
{
    if j == rs.len() - 1 {
        assert(rs.remove(j) =~= rs.drop_last());
    } else {
        assert(rs.remove(j).drop_last() =~= rs.drop_last().remove(j));
        assert(rs.remove(j).last() == rs.last());
        assert(rs.drop_last()[j] == rs[j]);
        lemma_key_samples_remove(rs.drop_last(), day, part, j);
        assert(key_samples(rs, day, part) =~= key_samples(rs.remove(j), day, part).add(
            key_contribution(rs[j], day, part),
        ));
    }
}

/// Multiset-equal result lists have equal sample collections per key.
proof fn lemma_key_samples_permutation(s1: Seq<AocResult>, s2: Seq<AocResult>, day: u8, part: Parts)
    requires
        s1.to_multiset() == s2.to_multiset(),
    ensures
        key_samples(s1, day, part) == key_samples(s2, day, part),
    decreases s1.len(),
{
    broadcast use vstd::seq_lib::group_to_multiset_ensures;

    if s1.len() == 0 {
        assert(s1.to_multiset().len() == s1.len());
        assert(s2.to_multiset().len() == s2.len());
        assert(s2.len() == 0);
    } else {
        let e = s1.last();
        assert(s1.contains(e));
        assert(s2.to_multiset().count(e) > 0);
        assert(s2.contains(e));
        let j = choose|j: int| 0 <= j < s2.len() && s2[j] == e;
        lemma_key_samples_remove(s2, day, part, j);
        assert(s1.drop_last() =~= s1.remove(s1.len() - 1));
        assert(s1.drop_last().to_multiset() == s1.to_multiset().remove(e));
        assert(s2.remove(j).to_multiset() == s2.to_multiset().remove(e));
        lemma_key_samples_permutation(s1.drop_last(), s2.remove(j), day, part);
    }
}

/// Law: the merged samples of a key do not depend on the order the results
/// arrive in; any permutation of a result list merges, key by key, to the
/// same collection of samples.
pub proof fn lemma_merge_permutation(s1: Seq<AocResult>, s2: Seq<AocResult>, day: u8, part: Parts)
    requires
        s1.to_multiset() == s2.to_multiset(),
    ensures
        merged_times(s1, day, part).to_multiset() == merged_times(s2, day, part).to_multiset(),
        has_key(s1, day, part) == has_key(s2, day, part),
{
    lemma_merged_times_key_samples(s1, day, part);
    lemma_merged_times_key_samples(s2, day, part);
    lemma_key_samples_permutation(s1, s2, day, part);
    lemma_has_key_multiset(s1, s2, day, part);
}

/// Whether `a`'s key orders at or before `b`'s, by day then part.
pub open spec fn key_le(a: AocResult, b: AocResult) -> bool {
    a.day < b.day || (a.day == b.day && a.part.spec_number() <= b.part.spec_number())
}

/// The index of the first minimal key.
fn min_key_index(v: &Vec<AocResult>) -> (r: usize)
    requires
        v@.len() > 0,
    ensures
        r < v@.len(),
        forall|k: int| 0 <= k < v@.len() ==> key_le(v@[r as int], #[trigger] v@[k]),
{
    let mut best: usize = 0;
    let mut i: usize = 1;
    while i < v.len()
        invariant
            best < i <= v@.len(),
            forall|k: int| 0 <= k < i ==> key_le(v@[best as int], #[trigger] v@[k]),
        decreases v@.len() - i,
    {
        let better = v[i].day < v[best].day || (v[i].day == v[best].day && v[i].part.as_number()
            < v[best].part.as_number());
        if better {
            best = i;
        }
        i = i + 1;
    }
    best
}

/// Sorts results by day, then part, keeping equal keys in their order.
pub fn sort_results(results: Vec<AocResult>) -> (r: Vec<AocResult>)
    ensures
        r@.to_multiset() == results@.to_multiset(),
        r@.len() == results@.len(),
        forall|a: int, b: int| 0 <= a < b < r@.len() ==> key_le(#[trigger] r@[a], #[trigger] r@[b]),
{
    broadcast use vstd::seq_lib::group_to_multiset_ensures;

    let ghost all = results@;
    let mut rest = results;
    let mut out: Vec<AocResult> = Vec::new();
    while rest.len() > 0
        invariant
            out@.len() + rest@.len() == all.len(),
            out@.to_multiset().add(rest@.to_multiset()) == all.to_multiset(),
            forall|a: int, b: int|
                0 <= a < b < out@.len() ==> key_le(#[trigger] out@[a], #[trigger] out@[b]),
            forall|a: int, b: int|
                0 <= a < out@.len() && 0 <= b < rest@.len() ==> key_le(
                    #[trigger] out@[a],
                    #[trigger] rest@[b],
                ),
        decreases rest@.len(),
    {
        broadcast use vstd::seq_lib::group_to_multiset_ensures;

        let ghost old_out = out@;
        let ghost old_rest = rest@;
        let m = min_key_index(&rest);
        let x = rest.remove(m);
        out.push(x);
        proof {
            assert(rest@ =~= old_rest.remove(m as int));
            assert(old_rest.remove(m as int).to_multiset() =~= old_rest.to_multiset().remove(x));
            assert(out@.to_multiset() =~= old_out.to_multiset().insert(x));
            assert(out@.to_multiset().add(rest@.to_multiset()) =~= old_out.to_multiset().add(
                old_rest.to_multiset(),
            ));
            assert forall|a: int, b: int|
                0 <= a < out@.len() && 0 <= b < rest@.len() implies key_le(
                #[trigger] out@[a],
                #[trigger] rest@[b],
            ) by {
                if b < m {
                    assert(rest@[b] == old_rest[b]);
                } else {
                    assert(rest@[b] == old_rest[b + 1]);
                }
                if a < old_out.len() {
                    assert(out@[a] == old_out[a]);
                } else {
                    assert(out@[a] == x);
                }
            }
        }
    }
    out
}

/// Keys occur in multiset-equal sequences together.
proof fn lemma_has_key_multiset(s1: Seq<AocResult>, s2: Seq<AocResult>, d: u8, p: Parts)
    requires
        s1.to_multiset() == s2.to_multiset(),
    ensures
        has_key(s1, d, p) == has_key(s2, d, p),
{
    broadcast use vstd::seq_lib::group_to_multiset_ensures;

    if has_key(s1, d, p) {
        let i = choose|i: int| 0 <= i < s1.len() && key_matches(#[trigger] s1[i], d, p);
        assert(s1.contains(s1[i]));
        assert(s2.to_multiset().count(s1[i]) > 0);
        assert(s2.contains(s1[i]));
        let j = choose|j: int| 0 <= j < s2.len() && s2[j] == s1[i];
        assert(key_matches(s2[j], d, p));
    }
    if has_key(s2, d, p) {
        let i = choose|i: int| 0 <= i < s2.len() && key_matches(#[trigger] s2[i], d, p);
        assert(s2.contains(s2[i]));
        assert(s1.to_multiset().count(s2[i]) > 0);
        assert(s1.contains(s2[i]));
        let j = choose|j: int| 0 <= j < s1.len() && s1[j] == s2[i];
        assert(key_matches(s1[j], d, p));
    }
}

/// Sorts the collected results by day and part and merges them into the
/// year's report: exactly the keys of the input are present, and repeated
/// keys merge their samples additively.
pub fn collect_results(results: Vec<AocResult>) -> (r: AocYear)
    ensures
        r.wf(),
        forall|d: u8, p: Parts| #[trigger] has_key(r.spec_entries(), d, p) <==> has_key(
            results@,
            d,
            p,
        ),
        exists|sorted: Seq<AocResult>|
            {
                &&& #[trigger] sorted.to_multiset() == results@.to_multiset()
                &&& forall|a: int, b: int|
                    0 <= a < b < sorted.len() ==> key_le(#[trigger] sorted[a], #[trigger] sorted[b])
                &&& forall|k: int|
                    0 <= k < r.spec_entries().len() ==> {
                        let e = #[trigger] r.spec_entries()[k];
                        e.time.duration@ == merged_times(sorted, e.day, e.part) && e.result@
                            == first_outcome(sorted, e.day, e.part)
                    }
            },
{
    let ghost all = results@;
    let sorted = sort_results(results);
    let ghost sorted_view = sorted@;
    let year = AocYear::from_vec(sorted);
    proof {
        assert forall|d: u8, p: Parts| #[trigger] has_key(year.spec_entries(), d, p) <==> has_key(
            all,
            d,
            p,
        ) by {
            lemma_has_key_multiset(sorted_view, all, d, p);
        }
        assert(sorted_view.to_multiset() == all.to_multiset());
    }
    year
}

/// The most samples any key holds.
pub open spec fn spec_max_runs(entries: Seq<AocResult>) -> int
    decreases entries.len(),
{
    if entries.len() == 0 {
        0
    } else {
        let rest = spec_max_runs(entries.drop_last());
        let last = entries.last().time.duration@.len() as int;
        if last > rest {
            last
        } else {
            rest
        }
    }
}

/// The total time of run `i` across all keys, a key without an `i`-th
/// sample counting as zero.
pub open spec fn spec_total_at(entries: Seq<AocResult>, i: int) -> int
    decreases entries.len(),
{
    if entries.len() == 0 {
        0
    } else {
        spec_total_at(entries.drop_last(), i) + (
        if i < entries.last().time.duration@.len() {
            entries.last().time.duration@[i] as int
        } else {
            0
        })
    }
}

impl AocYear {
    /// For each run index, the total time that run took across all keys; a
    /// total beyond the sample type saturates.
    pub fn calculate_total_time(&self) -> (r: AocDuration)
        ensures
            r.duration@.len() == spec_max_runs(self.spec_entries()),
            forall|i: int|
                0 <= i < r.duration@.len() ==> #[trigger] r.duration@[i] == (
                if spec_total_at(self.spec_entries(), i) <= u64::MAX as int {
                    spec_total_at(self.spec_entries(), i)
                } else {
                    u64::MAX as int
                }),
    {
        let mut max_runs: usize = 0;
        let mut k: usize = 0;
        while k < self.days.len()
            invariant
                k <= self.days@.len(),
                max_runs == spec_max_runs(self.days@.take(k as int)),
            decreases self.days@.len() - k,
        {
            proof {
                assert(self.days@.take(k + 1).drop_last() =~= self.days@.take(k as int));
                assert(self.days@.take(k + 1).last() == self.days@[k as int]);
            }
            let len = self.days[k].time.duration.len();
            if len > max_runs {
                max_runs = len;
            }
            k = k + 1;
        }
        proof {
            assert(self.days@.take(self.days@.len() as int) =~= self.days@);
        }
        let mut totals: Vec<u64> = Vec::new();
        let mut i: usize = 0;
        while i < max_runs
            invariant
                i <= max_runs,
                max_runs == spec_max_runs(self.days@),
                totals@.len() == i,
                forall|j: int|
                    0 <= j < i ==> #[trigger] totals@[j] == (if spec_total_at(self.days@, j)
                        <= u64::MAX as int {
                        spec_total_at(self.days@, j)
                    } else {
                        u64::MAX as int
                    }),
            decreases max_runs - i,
        {
            let mut acc: u128 = 0;
            let mut k2: usize = 0;
            while k2 < self.days.len()
                invariant
                    k2 <= self.days@.len(),
                    acc == spec_total_at(self.days@.take(k2 as int), i as int),
                    acc <= (k2 as int) * (u64::MAX as int),
                decreases self.days@.len() - k2,
            {
                proof {
                    assert(self.days@.take(k2 + 1).drop_last() =~= self.days@.take(k2 as int));
                    assert(self.days@.take(k2 + 1).last() == self.days@[k2 as int]);
                    assert((k2 as int) * (u64::MAX as int) + (u64::MAX as int) == (k2 + 1) * (
                    u64::MAX as int)) by (nonlinear_arith);
                    assert((k2 + 1) * (u64::MAX as int) <= (self.days@.len() as int) * (
                    u64::MAX as int)) by (nonlinear_arith)
                        requires
                            k2 + 1 <= self.days@.len(),
                    ;
                }
                let samples = &self.days[k2].time.duration;
                if i < samples.len() {
                    acc = acc + (samples[i] as u128);
                }
                k2 = k2 + 1;
            }
            proof {
                assert(self.days@.take(self.days@.len() as int) =~= self.days@);
            }
            let total: u64 = if acc > (u64::MAX as u128) {
                u64::MAX
            } else {
                acc as u64
            };
            totals.push(total);
            i = i + 1;
        }
        AocDuration { duration: totals }
    }
}

/// Summary statistics over a run's results. All samples measure the solve
/// invocations alone; input reading happens before any clock starts.
pub struct Metrics {
    /// Every sample of every key summed, saturating at the sample type.
    pub total_solution_time: u64,
    /// The total divided by the number of results, zero when there are none.
    pub average_solution_time: u64,
}

/// The sum of every sample of every result.
pub open spec fn spec_all_samples_total(rs: Seq<AocResult>) -> int
    decreases rs.len(),
{
    if rs.len() == 0 {
        0
    } else {
        spec_all_samples_total(rs.drop_last()) + spec_sum(rs.last().time.duration@)
    }
}

/// The saturated value of a non-negative total.
pub open spec fn spec_saturate_u64(v: int) -> int {
    if v <= u64::MAX as int {
        v
    } else {
        u64::MAX as int
    }
}

impl Metrics {
    /// Computes the summary statistics of a result list.
    pub fn new(results: &Vec<AocResult>) -> (r: Metrics)
        ensures
            r.total_solution_time == spec_saturate_u64(spec_all_samples_total(results@)),
            results@.len() == 0 ==> r.average_solution_time == 0,
            results@.len() > 0 ==> r.average_solution_time == spec_saturate_u64(
                spec_all_samples_total(results@),
            ) / (results@.len() as int),
    {
        let mut acc: u64 = 0;
        let mut k: usize = 0;
        while k < results.len()
            invariant
                k <= results@.len(),
                acc == spec_saturate_u64(spec_all_samples_total(results@.take(k as int))),
            decreases results@.len() - k,
        {
            proof {
                assert(results@.take(k + 1).drop_last() =~= results@.take(k as int));
                assert(results@.take(k + 1).last() == results@[k as int]);
            }
            let ghost before = spec_all_samples_total(results@.take(k as int));
            let samples = &results[k].time.duration;
            let mut j: usize = 0;
            let ghost sv = samples@;
            while j < samples.len()
                invariant
                    j <= sv.len(),
                    sv == samples@,
                    acc == spec_saturate_u64(before + spec_sum(sv.take(j as int))),
                    0 <= before,
                decreases sv.len() - j,
            {
                proof {
                    assert(sv.take(j + 1).drop_last() =~= sv.take(j as int));
                    assert(sv.take(j + 1).last() == sv[j as int]);
                    lemma_sum_nonneg(sv.take(j as int));
                    lemma_sum_nonneg(sv.take(j + 1));
                }
                let x = samples[j];
                if (acc as u128) + (x as u128) > (u64::MAX as u128) {
                    acc = u64::MAX;
                } else {
                    acc = acc + x;
                }
                j = j + 1;
            }
            proof {
                assert(sv.take(sv.len() as int) =~= sv);
                lemma_all_samples_nonneg(results@.take(k as int));
                lemma_sum_nonneg(sv);
            }
            k = k + 1;
        }
        proof {
            assert(results@.take(results@.len() as int) =~= results@);
        }
        let total = acc;
        let average: u64 = if results.len() == 0 {
            0
        } else {
            proof {
                lemma_all_samples_nonneg(results@);
            }
            total / (results.len() as u64)
        };
        Metrics { total_solution_time: total, average_solution_time: average }
    }
}

/// Sample sums are non-negative.
proof fn lemma_sum_nonneg(s: Seq<u64>)
    ensures
        spec_sum(s) >= 0,
    decreases s.len(),
{
    if s.len() > 0 {
        lemma_sum_nonneg(s.drop_last());
    }
}

/// Totals over results are non-negative.
proof fn lemma_all_samples_nonneg(rs: Seq<AocResult>)
    ensures
        spec_all_samples_total(rs) >= 0,
    decreases rs.len(),
{
    if rs.len() > 0 {
        lemma_all_samples_nonneg(rs.drop_last());
        lemma_sum_nonneg(rs.last().time.duration@);
    }
}

/// The first index carrying the key, when one does.
fn find_key_index(days: &Vec<AocResult>, day: u8, part: Parts) -> (r: Option<usize>)
    ensures
        match r {
            Some(idx) => idx < days@.len() && key_matches(days@[idx as int], day, part) && (forall|
                k: int,
            |
                0 <= k < idx ==> !key_matches(#[trigger] days@[k], day, part)),
            None => !has_key(days@, day, part),
        },
{
    let mut i: usize = 0;
    while i < days.len()
        invariant
            i <= days@.len(),
            forall|k: int| 0 <= k < i ==> !key_matches(#[trigger] days@[k], day, part),
        decreases days@.len() - i,
    {
        if days[i].day == day && days[i].part == part {
            proof {
                assert(key_matches(days@[i as int], day, part));
            }
            return Some(i);
        }
        i = i + 1;
    }
    None
}

/// Whether a day list holds a day.
fn contains_day_exec(days: &Vec<u8>, day: u8) -> (r: bool)
    ensures
        r == days@.contains(day),
{
    let mut i: usize = 0;
    while i < days.len()
        invariant
            i <= days@.len(),
            forall|k: int| 0 <= k < i ==> days@[k] != day,
        decreases days@.len() - i,
    {
        if days[i] == day {
            return true;
        }
        i = i + 1;
    }
    false
}

/// Inserts a day into a strictly increasing list that lacks it.
fn insert_sorted(days: &mut Vec<u8>, day: u8)
    requires
        forall|a: int, b: int|
            0 <= a < b < old(days)@.len() ==> (#[trigger] old(days)@[a])
                < (#[trigger] old(days)@[b]),
        !old(days)@.contains(day),
    ensures
        forall|a: int, b: int|
            0 <= a < b < final(days)@.len() ==> (#[trigger] final(days)@[a])
                < (#[trigger] final(days)@[b]),
        forall|d: u8| final(days)@.contains(d) <==> (old(days)@.contains(d) || d == day),
{
    let mut i: usize = 0;
    while i < days.len() && days[i] < day
        invariant
            i <= days@.len(),
            days@ == old(days)@,
            forall|k: int| 0 <= k < i ==> days@[k] < day,
        decreases days@.len() - i,
    {
        i = i + 1;
    }
    proof {
        broadcast use vstd::seq_lib::group_seq_properties;

    }
    days.insert(i, day);
}

} // verus!
