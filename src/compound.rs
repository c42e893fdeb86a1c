//! The trigger that rolls a log file once it reaches a size limit or once the
//! local calendar date changes.
//!
//! The date last seen belongs to each trigger and changes only through
//! `&mut self`: a trigger shared between threads is put behind a lock, so the
//! read, compare and update of the date happen as one step.

use crate::date::{local_today, LocalDate};
use crate::size::SizeTrigger;
use vstd::prelude::*;

verus! {

/// The outcome of one call and the date kept after it: on a date other than
/// `last` the call rolls and keeps the new date; otherwise the size decides
/// and the date stays.
pub open spec fn roll_step(limit: u64, last: Option<LocalDate>, file_len: u64, today: LocalDate) -> (
    bool,
    Option<LocalDate>,
) {
    if last is Some && last->0 != today {
        (true, Some(today))
    } else {
        (file_len >= limit, last)
    }
}

/// The outcomes of a run of calls, each given as the file's length and the
/// date of the call, starting from the kept date `last`.
pub open spec fn roll_run(limit: u64, last: Option<LocalDate>, calls: Seq<(u64, LocalDate)>) -> Seq<
    bool,
>
    decreases calls.len(),
{
    if calls.len() == 0 {
        seq![]
    } else {
        let (r, next) = roll_step(limit, last, calls[0].0, calls[0].1);
        seq![r] + roll_run(limit, next, calls.drop_first())
    }
}

/// The date kept after a run of calls.
pub open spec fn roll_run_last(
    limit: u64,
    last: Option<LocalDate>,
    calls: Seq<(u64, LocalDate)>,
) -> Option<LocalDate>
    decreases calls.len(),
{
    if calls.len() == 0 {
        last
    } else {
        let next = roll_step(limit, last, calls[0].0, calls[0].1).1;
        roll_run_last(limit, next, calls.drop_first())
    }
}

/// The settings of a compound trigger: the size limit in bytes, and whether
/// a change of date rolls the log.
#[derive(Clone, Copy, Debug, Default, PartialEq, Eq, Hash, Structural)]
pub struct CompoundTriggerConfig {
    pub limit: u64,
    pub date: bool,
}

/// How a `date` setting written as text reads: only the exact text `true`
/// turns date tracking on; any other text leaves it off.
pub fn date_flag_from_str(v: &str) -> (r: bool)
    ensures
        r == (v@ == "true"@),
{
    let given = String::from_str(v);
    let on = String::from_str("true");
    given == on
}

/// Rolls the log once it reaches a size limit, or, when date tracking is on,
/// on the first call after the local date has changed.
#[derive(Clone, Copy, Debug, PartialEq, Eq, Hash, Structural)]
pub struct CompoundTrigger {
    size_trigger: SizeTrigger,
    last_date: Option<LocalDate>,
}

impl CompoundTrigger {
    pub closed spec fn spec_limit(&self) -> u64 {
        self.size_trigger.spec_limit()
    }

    /// The date of the last call that did not roll on a date change, or of
    /// construction; `None` when date tracking is off.
    pub closed spec fn spec_last_date(&self) -> Option<LocalDate> {
        self.last_date
    }

    pub open spec fn wf(&self) -> bool {
        self.spec_last_date() matches Some(d) ==> d.wf()
    }

    /// A trigger with the given limit, which tracks the date from `today` on
    /// when `date` holds.
    pub fn new_on(limit: u64, date: bool, today: LocalDate) -> (r: CompoundTrigger)
        requires
            today.wf(),
        ensures
            r.wf(),
            r.spec_limit() == limit,
            r.spec_last_date() == (if date { Some(today) } else { None::<LocalDate> }),
    {
        let last_date = if date { Some(today) } else { None };
        CompoundTrigger { size_trigger: SizeTrigger::new(limit), last_date }
    }

    /// A trigger with the given limit, which tracks the date from today's
    /// local date on when `date` holds.
    pub fn new(limit: u64, date: bool) -> (r: CompoundTrigger)
        ensures
            r.wf(),
            r.spec_limit() == limit,
            r.spec_last_date() is Some == date,
    {
        if date {
            let today = local_today();
            Self::new_on(limit, true, today)
        } else {
            CompoundTrigger { size_trigger: SizeTrigger::new(limit), last_date: None }
        }
    }

    pub fn limit(&self) -> (r: u64)
        ensures
            r == self.spec_limit(),
    {
        self.size_trigger.limit()
    }

    /// Whether date tracking is on.
    pub fn tracks_date(&self) -> (r: bool)
        ensures
            r == self.spec_last_date() is Some,
    {
        self.last_date.is_some()
    }

    /// Whether a log file of `file_len` bytes must be rolled by a call made on
    /// `today`. A change of date rolls first, without looking at the size.
    pub fn trigger_on(&mut self, file_len: u64, today: LocalDate) -> (r: bool)
        requires
            old(self).wf(),
            today.wf(),
        ensures
            final(self).wf(),
            final(self).spec_limit() == old(self).spec_limit(),
            (r, final(self).spec_last_date()) == roll_step(
                old(self).spec_limit(),
                old(self).spec_last_date(),
                file_len,
                today,
            ),
    {
        if let Some(last) = self.last_date {
            if last != today {
                self.last_date = Some(today);
                return true;
            }
        }
        self.size_trigger.trigger(file_len)
    }

    /// Whether a log file of `file_len` bytes must be rolled now, reading
    /// today's local date when date tracking is on.
    pub fn trigger(&mut self, file_len: u64) -> (r: bool)
        requires
            old(self).wf(),
        ensures
            final(self).wf(),
            final(self).spec_limit() == old(self).spec_limit(),
            old(self).spec_last_date() is Some ==> exists|today: LocalDate|
                today.wf() && (r, final(self).spec_last_date()) == roll_step(
                    old(self).spec_limit(),
                    old(self).spec_last_date(),
                    file_len,
                    today,
                ),
            old(self).spec_last_date() is None ==> r == (file_len >= old(self).spec_limit())
                && final(self).spec_last_date() is None,
    {
        if self.last_date.is_some() {
            let today = local_today();
            self.trigger_on(file_len, today)
        } else {
            self.size_trigger.trigger(file_len)
        }
    }
}

/// Without date tracking a compound trigger answers every call of a run as a
/// size trigger with its limit would, whatever the dates of the calls, and
/// never starts tracking a date.
pub proof fn law_without_date_is_size_only(t: CompoundTrigger, calls: Seq<(u64, LocalDate)>)
    requires
        t.spec_last_date() is None,
    ensures
        roll_run(t.spec_limit(), None, calls).len() == calls.len(),
        forall|i: int|
            0 <= i < calls.len() ==> roll_run(t.spec_limit(), None, calls)[i] == (calls[i].0
                >= t.spec_limit()),
        roll_run_last(t.spec_limit(), None, calls) is None,
    decreases calls.len(),
{
    if calls.len() > 0 {
        let rest = calls.drop_first();
        law_without_date_is_size_only(t, rest);
        assert forall|i: int|
            0 <= i < calls.len() implies roll_run(t.spec_limit(), None, calls)[i] == (calls[i].0
                >= t.spec_limit()) by {
            if i > 0 {
                assert(calls[i] == rest[i - 1]);
            }
        }
    }
}

/// With date tracking, the first call on a day other than the kept one rolls
/// whatever the file's length, and the next call on that same day with a file
/// under the limit does not.
pub proof fn law_date_change_rolls_once(
    t: CompoundTrigger,
    first_len: u64,
    next_len: u64,
    day: LocalDate,
)
    requires
        t.spec_last_date() is Some,
        t.spec_last_date()->0 != day,
        next_len < t.spec_limit(),
    ensures
        roll_run(t.spec_limit(), t.spec_last_date(), seq![(first_len, day), (next_len, day)])
            =~= seq![true, false],
        roll_run_last(t.spec_limit(), t.spec_last_date(), seq![(first_len, day), (next_len, day)])
            == Some(day),
{
    let calls = seq![(first_len, day), (next_len, day)];
    let limit = t.spec_limit();
    let rest = calls.drop_first();
    assert(rest =~= seq![(next_len, day)]);
    let none = rest.drop_first();
    assert(none =~= Seq::<(u64, LocalDate)>::empty());
    assert(roll_step(limit, t.spec_last_date(), first_len, day) == (true, Some(day)));
    assert(roll_step(limit, Some(day), next_len, day) == (false, Some(day)));
    assert(roll_run(limit, Some(day), none) =~= Seq::<bool>::empty());
    assert(roll_run_last(limit, Some(day), none) == Some(day));
    assert(roll_run(limit, Some(day), rest) =~= seq![false] + Seq::<bool>::empty());
    assert(roll_run_last(limit, Some(day), rest) == Some(day));
}

/// Calls on the kept day (or on any day without date tracking) with files
/// under the limit never roll and leave the kept date as it was.
pub proof fn law_small_files_same_day_never_roll(t: CompoundTrigger, calls: Seq<(u64, LocalDate)>)
    requires
        forall|i: int|
            0 <= i < calls.len() ==> #[trigger] calls[i].0 < t.spec_limit() && (
            t.spec_last_date() is None || calls[i].1 == t.spec_last_date()->0),
    ensures
        roll_run(t.spec_limit(), t.spec_last_date(), calls).len() == calls.len(),
        forall|i: int|
            0 <= i < calls.len() ==> !roll_run(t.spec_limit(), t.spec_last_date(), calls)[i],
        roll_run_last(t.spec_limit(), t.spec_last_date(), calls) == t.spec_last_date(),
    decreases calls.len(),
{
    if calls.len() > 0 {
        let rest = calls.drop_first();
        assert forall|i: int|
            0 <= i < rest.len() implies #[trigger] rest[i].0 < t.spec_limit() && (
            t.spec_last_date() is None || rest[i].1 == t.spec_last_date()->0) by {
            assert(rest[i] == calls[i + 1]);
        }
        assert(calls[0].0 < t.spec_limit());
        law_small_files_same_day_never_roll(t, rest);
        assert forall|i: int|
            0 <= i < calls.len() implies !roll_run(t.spec_limit(), t.spec_last_date(), calls)[i] by {
            if i > 0 {
                assert(calls[i] == rest[i - 1]);
            }
        }
    }
}

/// Builds compound triggers from their settings.
#[derive(Clone, Copy, Debug, Default, PartialEq, Eq, Hash, Structural)]
pub struct CompoundTriggerDeserializer {}

impl CompoundTriggerDeserializer {
    /// The trigger that `config` describes.
    pub fn deserialize(&self, config: CompoundTriggerConfig) -> (r: CompoundTrigger)
        ensures
            r.wf(),
            r.spec_limit() == config.limit,
            r.spec_last_date() is Some == config.date,
    {
        CompoundTrigger::new(config.limit, config.date)
    }
}

} // verus!
