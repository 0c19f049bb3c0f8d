//! What the editor, the store and the calendar share: the day, the key of
//! the breaks, and the version counters that tell which local edits the
//! store has confirmed.

use vstd::prelude::*;
use crate::text::{decimal, decimal2, push_decimal, push_decimal2, push_signed_decimal, signed_decimal};

pub mod defrag;
pub mod summary;

verus! {

/// Project key under which breaks are booked.
pub const BREAK_PROJECT_KEY: &'static str = "x";

pub type DataVersionNumber = i32;

/// A calendar day: the day that a timeline belongs to.
#[derive(Debug, Clone, Copy, PartialEq, Eq, Structural)]
pub struct Day {
    pub year: i32,
    pub month: u8,
    pub day: u8,
}

/// What `time::Date::checked_add` makes of the day of the calendar that the
/// three numbers stand for and a span of `days` whole days: year, month and
/// day of the day that many days later, or earlier for a negative number.
/// There is none where the numbers stand for no day of the calendar, or
/// where the result is outside the years that a `time::Date` can hold.
pub uninterp spec fn day_shifted(year: int, month: int, day: int, days: int) -> Option<
    (int, int, int),
>;

/// A day or none, as plain numbers.
pub open spec fn day_outcome(r: Option<Day>) -> Option<(int, int, int)> {
    match r {
        Some(d) => Some((d.year as int, d.month as int, d.day as int)),
        None => None,
    }
}

/// Builds the `time::Date` of `day` with `Date::from_calendar_date`, calls
/// `Date::checked_add` on it with `Duration::days(days)`, and hands back
/// year, month and day of what comes. The contract only names the outcome.
#[verifier::external_body]
pub(crate) fn shift_day(day: Day, days: i32) -> (r: Option<Day>)
    ensures
        day_outcome(r) == day_shifted(
            day.year as int,
            day.month as int,
            day.day as int,
            days as int,
        ),
{
    let month = time::Month::try_from(day.month).ok()?;
    let date = time::Date::from_calendar_date(day.year, month, day.day).ok()?;
    let moved = date.checked_add(time::Duration::days(i64::from(days)))?;
    Some(Day { year: moved.year(), month: u8::from(moved.month()), day: moved.day() })
}

impl Day {
    /// The day `days` days after this one, or before it for a negative
    /// number, if the calendar has both.
    pub fn shifted(self, days: i32) -> (r: Option<Day>)
        ensures
            day_outcome(r) == day_shifted(
                self.year as int,
                self.month as int,
                self.day as int,
                days as int,
            ),
    {
        shift_day(self, days)
    }
}

/// The year as the store writes it: at least four digits, and a minus sign
/// before the years before the year nought.
pub open spec fn year_text(year: int) -> Seq<char> {
    if 0 <= year < 10 {
        seq!['0', '0', '0'] + decimal(year as nat)
    } else if 10 <= year < 100 {
        seq!['0', '0'] + decimal(year as nat)
    } else if 100 <= year < 1000 {
        seq!['0'] + decimal(year as nat)
    } else {
        signed_decimal(year)
    }
}

impl Day {
    /// The day as the store writes it: year, month and day with hyphens
    /// between them.
    pub open spec fn iso_text(self) -> Seq<char> {
        year_text(self.year as int) + seq!['-'] + decimal2(self.month as nat) + seq!['-']
            + decimal2(self.day as nat)
    }

    /// The pattern that the days of this day's month match, where `%`
    /// stands for any run of characters.
    pub open spec fn month_pattern_text(self) -> Seq<char> {
        year_text(self.year as int) + seq!['-'] + decimal2(self.month as nat) + seq!['-', '%']
    }

    fn push_year(&self, out: &mut String)
        ensures
            final(out)@ == old(out)@ + year_text(self.year as int),
    {
        if 0 <= self.year && self.year < 1000 {
            if self.year < 10 {
                out.push('0');
                out.push('0');
                out.push('0');
            } else if self.year < 100 {
                out.push('0');
                out.push('0');
            } else {
                out.push('0');
            }
            push_decimal(out, self.year as u64);
        } else {
            push_signed_decimal(out, self.year);
        }
    }

    pub fn iso(&self) -> (text: String)
        ensures
            text@ == self.iso_text(),
    {
        let mut text = String::new();
        self.push_year(&mut text);
        text.push('-');
        push_decimal2(&mut text, self.month as u64);
        text.push('-');
        push_decimal2(&mut text, self.day as u64);
        text
    }

    pub fn month_pattern(&self) -> (text: String)
        ensures
            text@ == self.month_pattern_text(),
    {
        let mut text = String::new();
        self.push_year(&mut text);
        text.push('-');
        push_decimal2(&mut text, self.month as u64);
        text.push('-');
        text.push('%');
        text
    }
}

/// Local version tracker of one entry, for saving through a single store.
///
/// It does not assume that the store keeps version numbers: it only tells the
/// editor which of its own changes have been confirmed, since the store may
/// still be busy with the last save when the next edit arrives.
#[derive(Debug, Clone, Copy)]
pub struct DataVersion {
    /// Version number of the local copy.
    pub local: DataVersionNumber,
    /// Highest version number that the store has confirmed.
    pub saved: DataVersionNumber,
    /// Local version number whose save is in flight.
    pub sent: Option<DataVersionNumber>,
}

/// One step in the life of a `DataVersion`.
pub enum VersionStep {
    Touch,
    MarkSent,
    NotifySaved(DataVersionNumber),
}

impl DataVersion {
    /// The store never confirmed more than the editor has.
    pub open spec fn is_consistent(self) -> bool {
        self.saved <= self.local
    }

    /// `touch` can count the next edit without leaving the number range.
    pub open spec fn can_touch(self) -> bool {
        self.local <= self.saved ==> self.local < i32::MAX
    }

    /// The confirmed version lies below the top of the number range: then
    /// every edit to come can be counted, whatever else happens.
    pub open spec fn has_room(self) -> bool {
        self.saved < i32::MAX
    }

    pub open spec fn is_dirty_spec(self) -> bool {
        self.saved != self.local
    }

    pub open spec fn should_save_spec(self) -> bool {
        self.is_dirty_spec() && self.sent != Some(self.local)
    }

    /// The tracker after one more edit: edits made while an earlier one is
    /// still unconfirmed share its version number.
    pub open spec fn touched(self) -> DataVersion {
        if self.local > self.saved {
            self
        } else {
            DataVersion { local: (self.local + 1) as i32, ..self }
        }
    }

    pub open spec fn marked_sent(self) -> DataVersion {
        DataVersion { sent: Some(self.local), ..self }
    }

    /// Whether a confirmation of `saved_version` is in order: it is newer
    /// than the last one, and it confirms no more than the editor has.
    pub open spec fn takes(self, saved_version: DataVersionNumber) -> bool {
        self.saved < saved_version <= self.local
    }

    /// The tracker after the store confirmed `saved_version`. A confirmation
    /// that is not in order changes nothing.
    pub open spec fn acknowledged(self, saved_version: DataVersionNumber) -> DataVersion {
        if !self.takes(saved_version) {
            self
        } else {
            DataVersion {
                saved: saved_version,
                sent: if self.sent == Some(saved_version) { None } else { self.sent },
                ..self
            }
        }
    }

    pub open spec fn stepped(self, step: VersionStep) -> DataVersion {
        match step {
            VersionStep::Touch => self.touched(),
            VersionStep::MarkSent => self.marked_sent(),
            VersionStep::NotifySaved(v) => self.acknowledged(v),
        }
    }

    /// The tracker after all of `steps`, first to last.
    pub open spec fn after(self, steps: Seq<VersionStep>) -> DataVersion
        decreases steps.len(),
    {
        if steps.len() == 0 {
            self
        } else {
            self.after(steps.drop_last()).stepped(steps.last())
        }
    }

    /// Tracker of an entry that was created here and never saved.
    pub fn fresh() -> (v: Self)
        ensures
            v == (DataVersion { local: 1, saved: 0, sent: None }),
    {
        Self { local: 1, saved: 0, sent: None }
    }

    /// Tracker of an entry as it comes from the store.
    pub fn loaded() -> (v: Self)
        ensures
            v == (DataVersion { local: 1, saved: 1, sent: None }),
    {
        Self { local: 1, saved: 1, sent: None }
    }

    /// Whether the next `touch` stays within the number range.
    pub fn is_touchable(&self) -> (b: bool)
        ensures
            b == self.can_touch(),
    {
        self.local > self.saved || self.local < i32::MAX
    }

    /// Counts an edit.
    pub fn touch(&mut self)
        requires
            old(self).can_touch(),
        ensures
            *final(self) == old(self).touched(),
            old(self).is_consistent() ==> final(self).is_consistent(),
    {
        if self.local > self.saved {
            // already touched and not saved: this edit joins that version
        } else {
            self.local += 1;
        }
    }

    /// Records that a save of the current local version is under way.
    pub fn mark_sent(&mut self)
        ensures
            *final(self) == old(self).marked_sent(),
            old(self).is_consistent() ==> final(self).is_consistent(),
    {
        self.sent = Some(self.local);
    }

    /// Takes the store's confirmation of `saved_version`. Returns `false`
    /// for a confirmation that is out of order and was ignored: one that is
    /// not newer than the last, or one of a version that the editor has not
    /// reached.
    pub fn notify_saved(&mut self, saved_version: DataVersionNumber) -> (applied: bool)
        ensures
            *final(self) == old(self).acknowledged(saved_version),
            applied == old(self).takes(saved_version),
            final(self).saved >= old(self).saved,
            old(self).is_consistent() ==> final(self).is_consistent(),
    {
        if saved_version <= self.saved || saved_version > self.local {
            return false;
        }
        self.saved = saved_version;
        match self.sent {
            Some(sent) => {
                if sent == saved_version {
                    self.sent = None;
                }
            },
            None => {},
        }
        true
    }

    pub fn should_save(&self) -> (b: bool)
        ensures
            b == self.should_save_spec(),
    {
        let in_flight = match self.sent {
            Some(sent) => sent == self.local,
            None => false,
        };
        self.is_dirty() && !in_flight
    }

    pub fn is_dirty(&self) -> (b: bool)
        ensures
            b == self.is_dirty_spec(),
    {
        self.saved != self.local
    }
}

/// No step ever lowers the confirmed version.
pub proof fn lemma_step_keeps_saved(v: DataVersion, step: VersionStep)
    ensures
        v.stepped(step).saved >= v.saved,
{
}

/// Over any run of touches, sends and confirmations the confirmed version
/// never goes down: it is at least what it was after any shorter run.
pub proof fn lemma_saved_is_monotonic(v: DataVersion, steps: Seq<VersionStep>, k: int)
    requires
        0 <= k <= steps.len(),
    ensures
        v.after(steps.take(k)).saved <= v.after(steps).saved,
    decreases steps.len(),
{
    if k == steps.len() {
        assert(steps.take(k) =~= steps);
    } else {
        let shorter = steps.drop_last();
        assert(shorter.take(k) =~= steps.take(k));
        lemma_saved_is_monotonic(v, shorter, k);
    }
}

/// A confirmation that is not newer than the confirmed version, or that
/// is ahead of the editor, changes nothing at all.
pub proof fn lemma_stale_confirmation_is_ignored(v: DataVersion, saved_version: DataVersionNumber)
    requires
        saved_version <= v.saved || saved_version > v.local,
    ensures
        v.acknowledged(saved_version) == v,
{
}

/// Once the current version was sent and the store confirmed it, nothing is
/// left to save.
pub proof fn lemma_sent_then_confirmed_is_clean(v: DataVersion)
    ensures
        !v.marked_sent().acknowledged(v.local).should_save_spec(),
{
}

/// While a save is under way, further edits join the version in flight:
/// they do not change the tracker, and they ask for no second save.
pub proof fn lemma_edits_in_flight_are_coalesced(v: DataVersion)
    requires
        v.local > v.saved,
        v.sent == Some(v.local),
    ensures
        v.touched() == v,
        !v.touched().should_save_spec(),
{
}

/// The confirmation of another version than the one in flight leaves the
/// one in flight as it is: a late confirmation cannot hide a newer save
/// that is still under way.
pub proof fn lemma_other_confirmation_keeps_flight(v: DataVersion, saved_version: DataVersionNumber)
    requires
        v.sent != Some(saved_version),
    ensures
        v.acknowledged(saved_version).sent == v.sent,
{
}

/// A tracker with room keeps it, and can always count another edit, as
/// long as the store never confirms the very last number.
pub proof fn lemma_room_is_kept(v: DataVersion, step: VersionStep)
    requires
        v.has_room(),
        step matches VersionStep::NotifySaved(n) ==> n < i32::MAX,
    ensures
        v.can_touch(),
        v.stepped(step).has_room(),
{
}

/// Over any run of touches, sends and confirmations the store never runs
/// ahead of the editor: `saved` stays at or below `local`. Only the top of
/// the number range is left out, where an edit cannot be counted.
pub proof fn lemma_consistency_holds_always(v: DataVersion, steps: Seq<VersionStep>)
    requires
        v.is_consistent(),
        forall|k: int|
            0 <= k < steps.len() && steps[k] is Touch ==> (#[trigger] v.after(
                steps.take(k),
            )).can_touch(),
    ensures
        v.after(steps).is_consistent(),
    decreases steps.len(),
{
    if steps.len() > 0 {
        let shorter = steps.drop_last();
        assert forall|k: int| 0 <= k < shorter.len() && shorter[k] is Touch implies (
        #[trigger] v.after(shorter.take(k))).can_touch() by {
            assert(shorter.take(k) =~= steps.take(k));
            assert(steps[k] == shorter[k]);
        }
        lemma_consistency_holds_always(v, shorter);
        assert(steps.take(steps.len() - 1) =~= shorter);
        if steps.last() is Touch {
            assert(v.after(steps.take(steps.len() - 1)).can_touch());
        }
    }
}

/// The store never runs ahead of the editor, whatever is confirmed.
pub proof fn lemma_consistency_is_kept(v: DataVersion, step: VersionStep)
    requires
        v.is_consistent(),
        step is Touch ==> v.can_touch(),
    ensures
        v.stepped(step).is_consistent(),
{
}

} // verus!
