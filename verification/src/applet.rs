//! The panel applet: a month calendar with markers on days that have events,
//! the selected day's events, and a form to add, edit or delete events.
//!
//! As in the settings window, the applet's state changes in answer to
//! messages and anything that needs the network comes back as a command.

use vstd::prelude::*;
use crate::app::{client_for, clone_result, find_account};
use crate::caldav::{
    CalDavClient, Calendar, CalendarEvent, CalendarView, EventView, END_NOT_AFTER_START,
    calendar_views, event_views,
};
use crate::config::{Account, AccountView, Config};
use crate::order::{
    Timed, lemma_sort_by_map, lemma_sort_by_members, lemma_sort_by_sorts, ordered_by, sort_by,
    sort_by_start_time, start_of,
};
use crate::text::{
    chars_of, parse_i32, parsed_i32, str_eq, push_chars, push_decimal, push_str_chars, string_of,
    trim_ws, trim_ws_exec, decimal,
};
use crate::time::{
    CivilDate, LocalDateTime, Stamp, add_days, add_hour, add_minute, clock_string, clock_text,
    clock_time, dashed_date, date_before, date_lt, date_of, date_valid, days_after, from_ymd,
    in_safe_range, iso_date_string, iso_date_text, lemma_shift_range, safe_range_ok,
    shift_range_ok,
    local_from_utc, midnight, month_abbrev, month_abbrev_text, month_name, month_name_text, now,
    parse_clock_time, parse_dashed_date, plus_hour, plus_minute, pred_date, prev_day, push_two_digits,
    stamp_before, stamp_lt, stamp_valid, succ_date, utc_from_local, days_in_month, within_a_day,
    days_in_month_spec, push_year, weekday_abbrev, weekday_abbrev_text, weekday_from_sunday,
    weekday_number, year_text,
};

verus! {

// ----------------------------------------------------------------------------
// Day markers
// ----------------------------------------------------------------------------

/// How a day cell marks the events on that day.
#[derive(Clone, Copy, Debug, PartialEq, Eq, Structural)]
pub enum DayMarker {
    /// No event.
    Blank,
    /// Events within the day.
    Single,
    /// The first day of a multi-day event.
    Start,
    /// A day inside a multi-day event.
    Middle,
    /// The last day of a multi-day event.
    End,
}

/// What a day cell shows besides its number.
#[derive(Clone, Copy, Debug, PartialEq, Eq, Structural)]
pub struct DayVisual {
    pub has_events: bool,
    pub has_multiday: bool,
    pub marker: DayMarker,
}

/// The marker of a day that already shows `current` and gets `new_marker`:
/// a middle wins, a start and an end together make a middle, then start,
/// then end, and a single or blank day takes the new marker.
pub open spec fn merged_marker(current: DayMarker, new_marker: DayMarker) -> DayMarker {
    match (current, new_marker) {
        (DayMarker::Middle, _) | (_, DayMarker::Middle) => DayMarker::Middle,
        (DayMarker::Start, DayMarker::End) | (DayMarker::End, DayMarker::Start) => DayMarker::Middle,
        (DayMarker::Start, _) | (_, DayMarker::Start) => DayMarker::Start,
        (DayMarker::End, _) | (_, DayMarker::End) => DayMarker::End,
        (DayMarker::Single, other) => other,
        (DayMarker::Blank, other) => other,
    }
}

/// Combines the marker a day shows with the marker of another event.
pub fn merge_day_marker(current: DayMarker, new_marker: DayMarker) -> (r: DayMarker)
    ensures
        r == merged_marker(current, new_marker),
{
    match (current, new_marker) {
        (DayMarker::Middle, _) | (_, DayMarker::Middle) => DayMarker::Middle,
        (DayMarker::Start, DayMarker::End) | (DayMarker::End, DayMarker::Start) => DayMarker::Middle,
        (DayMarker::Start, _) | (_, DayMarker::Start) => DayMarker::Start,
        (DayMarker::End, _) | (_, DayMarker::End) => DayMarker::End,
        (DayMarker::Single, other) => other,
        (DayMarker::Blank, other) => other,
    }
}

/// Combining markers does not depend on how the combinations are grouped; a
/// blank day takes any marker; a middle absorbs every marker; and a marker
/// combined with itself stays as it is.
pub proof fn lemma_marker_merge_laws(a: DayMarker, b: DayMarker, c: DayMarker)
    ensures
        merged_marker(merged_marker(a, b), c) == merged_marker(a, merged_marker(b, c)),
        merged_marker(DayMarker::Blank, a) == a,
        merged_marker(DayMarker::Middle, a) == DayMarker::Middle,
        merged_marker(a, DayMarker::Middle) == DayMarker::Middle,
        merged_marker(a, a) == a,
{
}

/// The order in which two markers reach a day does not matter, except for a
/// single and a blank: a blank arriving on a single day clears it.
pub proof fn lemma_marker_merge_commutes(a: DayMarker, b: DayMarker)
    requires
        !(a == DayMarker::Single && b == DayMarker::Blank),
        !(a == DayMarker::Blank && b == DayMarker::Single),
    ensures
        merged_marker(a, b) == merged_marker(b, a),
{
}

/// The glyphs under a day number.
pub open spec fn marker_glyph(m: DayMarker) -> Seq<char> {
    match m {
        DayMarker::Blank => ""@,
        DayMarker::Single => "•"@,
        DayMarker::Start => "╺━"@,
        DayMarker::Middle => "━━"@,
        DayMarker::End => "━╸"@,
    }
}

/// A day without events.
pub open spec fn blank_visual() -> DayVisual {
    DayVisual { has_events: false, has_multiday: false, marker: DayMarker::Blank }
}

impl Default for DayVisual {
    fn default() -> (r: Self)
        ensures
            r == blank_visual(),
    {
        DayVisual { has_events: false, has_multiday: false, marker: DayMarker::Blank }
    }
}

impl DayVisual {
    /// The glyphs under the day number.
    pub fn marker(self) -> (r: &'static str)
        ensures
            r@ == marker_glyph(self.marker),
    {
        match self.marker {
            DayMarker::Blank => "",
            DayMarker::Single => "•",
            DayMarker::Start => "╺━",
            DayMarker::Middle => "━━",
            DayMarker::End => "━╸",
        }
    }
}

// ----------------------------------------------------------------------------
// Synchronisation progress
// ----------------------------------------------------------------------------

/// How many account synchronisations are still running.
#[derive(Clone, Copy, Debug, PartialEq, Eq, Structural)]
pub struct SyncState {
    pub loading: bool,
    pub pending_syncs: usize,
}

/// Loading only while something is pending.
pub open spec fn sync_consistent(s: SyncState) -> bool {
    s.loading ==> s.pending_syncs > 0
}

/// The synchronisation progress after one synchronisation ended.
pub open spec fn after_finish(s: SyncState) -> SyncState {
    let p: usize = if s.pending_syncs > 0 { (s.pending_syncs - 1) as usize } else { 0 };
    SyncState { loading: s.loading && p > 0, pending_syncs: p }
}

/// The progress after `k` synchronisations ended.
pub open spec fn after_finishes(s: SyncState, k: nat) -> SyncState
    decreases k,
{
    if k == 0 {
        s
    } else {
        after_finish(after_finishes(s, (k - 1) as nat))
    }
}

/// The progress right after `n` synchronisations started.
pub open spec fn sync_started(n: usize) -> SyncState {
    SyncState { loading: n > 0, pending_syncs: n }
}

/// Starting `n` synchronisations gives a consistent progress, each end keeps
/// it consistent, and once `n` of them ended nothing is pending or loading
/// (with exactly `n - k` still pending after `k` ends).
pub proof fn lemma_sync_completes(n: usize, s: SyncState)
    ensures
        sync_consistent(sync_started(n)),
        sync_consistent(s) ==> sync_consistent(after_finish(s)),
        forall|k: nat| k <= n ==> (#[trigger] after_finishes(sync_started(n), k)).pending_syncs == n - k,
        after_finishes(sync_started(n), n as nat) == (SyncState { loading: false, pending_syncs: 0 }),
{
    let start = sync_started(n);
    assert forall|k: nat| k <= n implies (#[trigger] after_finishes(start, k)).pending_syncs == n - k by {
        lemma_finishes_count(start, k);
    }
    lemma_finishes_count(start, n as nat);
}

proof fn lemma_finishes_count(start: SyncState, k: nat)
    requires
        k <= start.pending_syncs,
        sync_consistent(start),
    ensures
        after_finishes(start, k).pending_syncs == start.pending_syncs - k,
        sync_consistent(after_finishes(start, k)),
    decreases k,
{
    if k > 0 {
        lemma_finishes_count(start, (k - 1) as nat);
    }
}

impl SyncState {
    /// Nothing running.
    pub fn idle() -> (r: Self)
        ensures
            r == (SyncState { loading: false, pending_syncs: 0 }),
    {
        SyncState { loading: false, pending_syncs: 0 }
    }

    /// Starts one synchronisation per account.
    pub fn begin(&mut self, account_count: usize)
        ensures
            *final(self) == (SyncState { loading: account_count > 0, pending_syncs: account_count }),
    {
        self.loading = account_count > 0;
        self.pending_syncs = account_count;
    }

    /// Records the end of one synchronisation (successful or not).
    pub fn finish_one(&mut self)
        ensures
            *final(self) == after_finish(*old(self)),
    {
        self.pending_syncs = if self.pending_syncs > 0 { self.pending_syncs - 1 } else { 0 };
        if self.pending_syncs == 0 {
            self.loading = false;
        }
    }
}

// ----------------------------------------------------------------------------
// The month shown
// ----------------------------------------------------------------------------

/// The month the calendar shows and the selected day.
#[derive(Clone, Copy, Debug)]
pub struct CalendarViewport {
    pub year: i32,
    pub month: u32,
    pub selected_date: CivilDate,
}

/// `NaiveDate`'s default date, 1970-01-01.
pub open spec fn epoch_date() -> CivilDate {
    CivilDate { year: 1970, month: 1, day: 1 }
}

/// The month before the given one, as (year, month).
pub open spec fn month_before(year: int, month: int) -> (int, int) {
    if month == 1 { (year - 1, 12) } else { (year, month - 1) }
}

/// The month after the given one, as (year, month).
pub open spec fn month_after(year: int, month: int) -> (int, int) {
    if month == 12 { (year + 1, 1) } else { (year, month + 1) }
}

/// Going back a month and then forward one (or forward, then back) returns
/// to the same month, and the month stays within 1–12.
pub proof fn lemma_month_steps(year: int, month: int)
    requires
        1 <= month <= 12,
    ensures
        month_after(month_before(year, month).0, month_before(year, month).1) == (year, month),
        month_before(month_after(year, month).0, month_after(year, month).1) == (year, month),
        1 <= month_before(year, month).1 <= 12,
        1 <= month_after(year, month).1 <= 12,
{
}

impl CalendarViewport {
    /// Shows the month of `today`, with `today` selected.
    pub fn new(today: CivilDate) -> (r: Self)
        ensures
            r.year == today.year,
            r.month == today.month,
            r.selected_date == today,
    {
        CalendarViewport { year: today.year, month: today.month, selected_date: today }
    }

    /// Shows the month before.
    pub fn show_previous_month(&mut self)
        requires
            old(self).month == 1 ==> old(self).year > i32::MIN,
            old(self).month != 1 ==> old(self).month > 0,
        ensures
            (final(self).year as int, final(self).month as int) == month_before(
                old(self).year as int,
                old(self).month as int,
            ),
            final(self).selected_date == old(self).selected_date,
    {
        if self.month == 1 {
            self.month = 12;
            self.year -= 1;
        } else {
            self.month -= 1;
        }
    }

    /// Shows the month after.
    pub fn show_next_month(&mut self)
        requires
            old(self).month == 12 ==> old(self).year < i32::MAX,
            old(self).month != 12 ==> old(self).month < u32::MAX,
        ensures
            (final(self).year as int, final(self).month as int) == month_after(
                old(self).year as int,
                old(self).month as int,
            ),
            final(self).selected_date == old(self).selected_date,
    {
        if self.month == 12 {
            self.month = 1;
            self.year += 1;
        } else {
            self.month += 1;
        }
    }

    /// Selects a day of the shown month; a day the month does not have
    /// leaves the selection as it is.
    pub fn select_day(&mut self, day: u32)
        ensures
            final(self).year == old(self).year,
            final(self).month == old(self).month,
            final(self).selected_date == match date_of(old(self).year, old(self).month, day) {
                Some(d) => d,
                None => old(self).selected_date,
            },
    {
        if let Some(date) = from_ymd(self.year, self.month, day) {
            self.selected_date = date;
        }
    }

    /// The first day of the shown month (1970-01-01 when it does not exist).
    pub fn first_of_month(&self) -> (r: CivilDate)
        ensures
            r == match date_of(self.year, self.month, 1) {
                Some(d) => d,
                None => epoch_date(),
            },
            date_valid(r),
    {
        match from_ymd(self.year, self.month, 1) {
            Some(d) => d,
            None => CivilDate { year: 1970, month: 1, day: 1 },
        }
    }

    /// The English name of the shown month.
    pub fn month_name(&self) -> (r: String)
        ensures
            r@ == month_name_text(
                match date_of(self.year, self.month, 1) {
                    Some(d) => d,
                    None => epoch_date(),
                }.month,
            ),
    {
        month_name(self.first_of_month().month).to_owned()
    }
}

// ----------------------------------------------------------------------------
// Grid layout
// ----------------------------------------------------------------------------

/// The cells of a month grid whose first day falls in column `first_weekday`
/// (0 = Sunday): whole weeks of seven cells, cell `i` showing day
/// `i - first_weekday + 1` when the month has it and nothing otherwise.
pub open spec fn grid_cell(first_weekday: int, days: int, i: int) -> Option<u32> {
    let day = i - first_weekday + 1;
    if 1 <= day <= days { Some(day as u32) } else { None }
}

/// The number of cells of the grid: enough whole weeks for the month.
pub open spec fn grid_len(first_weekday: int, days: int) -> int {
    (first_weekday + days + 6) / 7 * 7
}

/// The day shown in each cell of a month grid.
pub fn month_grid_cells(first_weekday: u32, days: u32) -> (r: Vec<Option<u32>>)
    requires
        first_weekday < 7,
        days <= 31,
    ensures
        r@.len() == grid_len(first_weekday as int, days as int),
        forall|i: int| 0 <= i < r@.len() ==> #[trigger] r@[i] == grid_cell(
            first_weekday as int,
            days as int,
            i,
        ),
{
    let total_cells = first_weekday + days;
    let total_rows = (total_cells + 6) / 7;
    let num_cells = total_rows * 7;
    let mut r: Vec<Option<u32>> = Vec::new();
    let mut index: u32 = 0;
    while index < num_cells
        invariant
            first_weekday < 7,
            days <= 31,
            num_cells == grid_len(first_weekday as int, days as int),
            index <= num_cells,
            r@.len() == index,
            forall|i: int| 0 <= i < index ==> #[trigger] r@[i] == grid_cell(
                first_weekday as int,
                days as int,
                i,
            ),
        decreases num_cells - index,
    {
        if index + 1 >= first_weekday + 1 && index + 1 - first_weekday <= days {
            r.push(Some(index + 1 - first_weekday));
        } else {
            r.push(None);
        }
        index += 1;
    }
    r
}

// ----------------------------------------------------------------------------
// The event form
// ----------------------------------------------------------------------------

/// The event an edit applies to.
#[derive(Clone, Debug)]
pub struct EditingEvent {
    pub account_id: String,
    pub event_href: String,
    pub event_etag: Option<String>,
    pub uid: String,
}

/// What the edited event is, as text.
pub struct EditingView {
    pub account_id: Seq<char>,
    pub event_href: Seq<char>,
    pub event_etag: Option<Seq<char>>,
    pub uid: Seq<char>,
}

impl View for EditingEvent {
    type V = EditingView;

    open spec fn view(&self) -> EditingView {
        EditingView {
            account_id: self.account_id@,
            event_href: self.event_href@,
            event_etag: self.event_etag.deep_view(),
            uid: self.uid@,
        }
    }
}

/// The add/edit event form.
#[derive(Clone, Debug)]
pub struct EventFormState {
    pub visible: bool,
    pub title: String,
    pub start_date: String,
    pub start_time: String,
    pub end_date: String,
    pub end_time: String,
    pub location: String,
    pub description: String,
    pub reminder: String,
    pub error: Option<String>,
    pub is_submitting: bool,
    pub editing_event: Option<EditingEvent>,
}

/// What the form holds, as text.
pub struct EventFormView {
    pub visible: bool,
    pub title: Seq<char>,
    pub start_date: Seq<char>,
    pub start_time: Seq<char>,
    pub end_date: Seq<char>,
    pub end_time: Seq<char>,
    pub location: Seq<char>,
    pub description: Seq<char>,
    pub reminder: Seq<char>,
    pub error: Option<Seq<char>>,
    pub is_submitting: bool,
    pub editing: Option<EditingView>,
}

impl View for EventFormState {
    type V = EventFormView;

    open spec fn view(&self) -> EventFormView {
        EventFormView {
            visible: self.visible,
            title: self.title@,
            start_date: self.start_date@,
            start_time: self.start_time@,
            end_date: self.end_date@,
            end_time: self.end_time@,
            location: self.location@,
            description: self.description@,
            reminder: self.reminder@,
            error: self.error.deep_view(),
            is_submitting: self.is_submitting,
            editing: match self.editing_event {
                Some(e) => Some(e@),
                None => None,
            },
        }
    }
}

/// A fresh form for an event on `date`: nine to ten o'clock, a reminder 15
/// minutes before, everything else empty.
pub open spec fn fresh_form(date: CivilDate, visible: bool) -> EventFormView {
    EventFormView {
        visible,
        title: Seq::empty(),
        start_date: iso_date_text(date),
        start_time: "09:00"@,
        end_date: iso_date_text(date),
        end_time: "10:00"@,
        location: Seq::empty(),
        description: Seq::empty(),
        reminder: "15"@,
        error: None,
        is_submitting: false,
        editing: None,
    }
}

impl EventFormState {
    /// A hidden, fresh form for `date`.
    pub fn new(date: CivilDate) -> (r: Self)
        requires
            date_valid(date),
        ensures
            r@ == fresh_form(date, false),
    {
        EventFormState {
            visible: false,
            title: String::new(),
            start_date: iso_date_string(&date),
            start_time: "09:00".to_owned(),
            end_date: iso_date_string(&date),
            end_time: "10:00".to_owned(),
            location: String::new(),
            description: String::new(),
            reminder: "15".to_owned(),
            error: None,
            is_submitting: false,
            editing_event: None,
        }
    }

    /// Refills the form for a new event on `date`, keeping its visibility.
    pub fn reset_for_date(&mut self, date: CivilDate)
        requires
            date_valid(date),
        ensures
            final(self)@ == fresh_form(date, old(self).visible),
    {
        self.title = String::new();
        self.start_date = iso_date_string(&date);
        self.start_time = "09:00".to_owned();
        self.end_date = iso_date_string(&date);
        self.end_time = "10:00".to_owned();
        self.location = String::new();
        self.description = String::new();
        self.reminder = "15".to_owned();
        self.error = None;
        self.is_submitting = false;
        self.editing_event = None;
    }

    /// Shows a fresh form for a new event on `date`.
    pub fn begin_new_event(&mut self, date: CivilDate)
        requires
            date_valid(date),
        ensures
            final(self)@ == fresh_form(date, true),
    {
        self.visible = true;
        self.reset_for_date(date);
    }

    /// Hides the form and refills it for `date`.
    pub fn cancel(&mut self, date: CivilDate)
        requires
            date_valid(date),
        ensures
            final(self)@ == fresh_form(date, false),
    {
        self.visible = false;
        self.reset_for_date(date);
    }

    /// Whether the form edits an existing event.
    pub fn is_editing(&self) -> (r: bool)
        ensures
            r == (self.editing_event is Some),
    {
        self.editing_event.is_some()
    }

    /// The caption of the save button.
    pub fn save_label(&self) -> (r: &'static str)
        ensures
            r@ == if self.is_submitting { "Saving..."@ } else { "Save"@ },
    {
        if self.is_submitting {
            "Saving..."
        } else {
            "Save"
        }
    }

    /// The reminder in minutes; 15 when the field is not a number.
    pub fn parsed_reminder_minutes(&self) -> (r: i32)
        ensures
            r == match parsed_i32(self.reminder@) {
                Some(n) => n,
                None => 15,
            },
    {
        match parse_i32(self.reminder.as_str()) {
            Some(n) => n,
            None => 15,
        }
    }
}

// ----------------------------------------------------------------------------
// Events in local time
// ----------------------------------------------------------------------------

/// An event of one of the accounts, with the account it came from.
#[derive(Clone, Debug)]
pub struct AppletEvent {
    pub account_id: String,
    /// Shown before the summary when several accounts are configured.
    pub label: String,
    pub event: CalendarEvent,
}

/// What an applet event is.
pub struct AppletEventView {
    pub account_id: Seq<char>,
    pub label: Seq<char>,
    pub event: EventView,
}

impl View for AppletEvent {
    type V = AppletEventView;

    open spec fn view(&self) -> AppletEventView {
        AppletEventView { account_id: self.account_id@, label: self.label@, event: self.event@ }
    }
}

impl Timed for AppletEvent {
    open spec fn start_key(&self) -> Option<Stamp> {
        self.event.start
    }

    fn start_time(&self) -> (r: Option<Stamp>) {
        self.event.start
    }
}

/// The views of a list of applet events.
pub open spec fn applet_event_views(v: Seq<AppletEvent>) -> Seq<AppletEventView> {
    v.map_values(|e: AppletEvent| e@)
}

/// The times of an event can be read in the local time zone: its start,
/// its end, and the end it is treated as having ([`effective_end`]) each lie
/// at least a day inside the supported range.
pub open spec fn event_times_ok(e: EventView) -> bool {
    &&& (e.end matches Some(t) ==> in_safe_range(t))
    &&& (e.start matches Some(s) ==> in_safe_range(s) && in_safe_range(effective_end(s, e.end)))
}

/// The end an event is treated as having: its end when that is after its
/// start, otherwise one minute after its start.
pub open spec fn effective_end(start: Stamp, end: Option<Stamp>) -> Stamp {
    match end {
        Some(e) => if stamp_lt(start, e) { e } else { plus_minute(start) },
        None => plus_minute(start),
    }
}

fn effective_end_exec(start: &Stamp, end: Option<Stamp>) -> (r: Stamp)
    requires
        in_safe_range(*start),
    ensures
        r == effective_end(*start, end),
{
    match end {
        Some(e) => if stamp_before(start, &e) { e } else { add_minute(start) },
        None => add_minute(start),
    }
}

/// Whether an event overlaps a local day, given the UTC start and (effective)
/// end of the event, the local date of its start, and the UTC instants at
/// which the day and the next one begin (when the local clock shows those
/// midnights): it overlaps when it starts before the next day begins and ends
/// after the day begins; without bounds, when it starts on that date.
pub open spec fn overlap_verdict(
    start: Stamp,
    end: Stamp,
    start_local_date: CivilDate,
    date: CivilDate,
    bounds: Option<(Stamp, Stamp)>,
) -> bool {
    match bounds {
        Some((day_start, next_day_start)) => stamp_lt(start, next_day_start) && stamp_lt(day_start, end),
        None => start_local_date == date,
    }
}

/// [`overlap_verdict`], computed.
pub fn overlaps_local_day(
    start: &Stamp,
    end: &Stamp,
    start_local_date: &CivilDate,
    date: &CivilDate,
    bounds: Option<(Stamp, Stamp)>,
) -> (r: bool)
    ensures
        r == overlap_verdict(*start, *end, *start_local_date, *date, bounds),
{
    match bounds {
        Some((day_start, next_day_start)) => stamp_before(start, &next_day_start) && stamp_before(
            &day_start,
            end,
        ),
        None => start_local_date.year == date.year && start_local_date.month == date.month
            && start_local_date.day == date.day,
    }
}

/// The bounds of the local day `date` as a clock less than a day off UTC
/// can give them: none when the day after `date` is out of range; when
/// given, valid UTC instants each less than a day from the midnight (read as
/// UTC) that begins `date` and the day after it.
pub open spec fn bounds_fit(date: CivilDate, b: Option<(Stamp, Stamp)>) -> bool {
    match b {
        Some((a, c)) => match next_day_of(date) {
            Some(n) => stamp_valid(a) && stamp_valid(c) && within_a_day(a, midnight(date))
                && within_a_day(c, midnight(n)),
            None => false,
        },
        None => true,
    }
}

/// `l` can be how a local clock shows the UTC instant `utc`: a valid
/// date-time less than a day from it.
pub open spec fn local_reading(l: Stamp, utc: Stamp) -> bool {
    stamp_valid(l) && within_a_day(l, utc)
}

/// The UTC instants at which the local day `date` and the day after it begin
/// (`None` when the day after is out of range or the local clock skips one of
/// those midnights). They depend on the machine's time zone: each is the
/// midnight minus the offset then, which is less than a day.
pub fn local_day_bounds(date: &CivilDate) -> (r: Option<(Stamp, Stamp)>)
    requires
        date_valid(*date),
    ensures
        bounds_fit(*date, r),
{
    let start_naive = Stamp { date: *date, hour: 0, minute: 0, second: 0 };
    let next_day = succ_date(*date)?;
    let end_naive = Stamp { date: next_day, hour: 0, minute: 0, second: 0 };
    let start = utc_from_local(&start_naive)?;
    let end = utc_from_local(&end_naive)?;
    Some((start, end))
}

/// The day after `d`.
pub open spec fn next_day_of(d: CivilDate) -> Option<CivilDate> {
    crate::time::next_day(d)
}

/// Whether an event touches the local day `date`, given the local date of
/// its start and the UTC instants at which that day and the next begin (see
/// [`overlap_verdict`]); an event without a start touches no day.
pub open spec fn event_overlap(
    e: EventView,
    date: CivilDate,
    start_local_date: CivilDate,
    bounds: Option<(Stamp, Stamp)>,
) -> bool {
    match e.start {
        Some(s) => overlap_verdict(s, effective_end(s, e.end), start_local_date, date, bounds),
        None => false,
    }
}

/// Date-times are ordered: `stamp_lt` is transitive and, between two
/// different date-times, one comes first.
proof fn lemma_stamp_order(a: Stamp, b: Stamp, c: Stamp)
    ensures
        stamp_lt(a, b) && stamp_lt(b, c) ==> stamp_lt(a, c),
        !stamp_lt(a, b) && stamp_lt(a, c) ==> stamp_lt(b, c),
        !stamp_lt(b, a) && stamp_lt(c, a) ==> stamp_lt(c, b),
        !stamp_lt(a, a),
{
}

/// An event always ends (by its effective end) after it starts.
proof fn lemma_effective_end_after_start(s: Stamp, end: Option<Stamp>)
    requires
        in_safe_range(s),
    ensures
        stamp_lt(s, effective_end(s, end)),
{
    if s.minute == 59 && s.hour == 23 {
        let n = crate::time::next_day(s.date).unwrap();
        assert(date_lt(s.date, n));
    }
}

/// Which local days an event touches, when the local clock gives the UTC
/// instants at which a day and the next one begin: exactly those it starts
/// before the next day begins and ends (by its effective end) after the day
/// begins. So it touches the day it starts on, every day it runs through
/// from one midnight to the next, and every day on which it is still running
/// when the day begins; it touches no day that ends by the time it starts,
/// and none that begins when it has already ended. When the clock gives no
/// bounds for the day, the event touches it exactly when it starts on it.
pub proof fn lemma_event_touches_days(
    e: EventView,
    date: CivilDate,
    l: CivilDate,
    day_start: Stamp,
    next_day_start: Stamp,
)
    requires
        e.start is Some,
        event_times_ok(e),
        stamp_lt(day_start, next_day_start),
    ensures
        ({
            let s = e.start->0;
            let end = effective_end(s, e.end);
            let touched = event_overlap(e, date, l, Some((day_start, next_day_start)));
            &&& touched == (stamp_lt(s, next_day_start) && stamp_lt(day_start, end))
            &&& (!stamp_lt(s, day_start) && stamp_lt(s, next_day_start) ==> touched)
            &&& (stamp_lt(s, day_start) && stamp_lt(next_day_start, end) ==> touched)
            &&& (stamp_lt(s, day_start) && stamp_lt(day_start, end) ==> touched)
            &&& (!stamp_lt(s, next_day_start) ==> !touched)
            &&& (!stamp_lt(day_start, end) ==> !touched)
            &&& event_overlap(e, date, l, None) == (l == date)
        }),
{
    let s = e.start->0;
    let end = effective_end(s, e.end);
    lemma_effective_end_after_start(s, e.end);
    lemma_stamp_order(s, day_start, next_day_start);
    lemma_stamp_order(day_start, next_day_start, end);
    lemma_stamp_order(day_start, s, end);
    lemma_stamp_order(s, day_start, end);
}

/// Whether an event touches the local day `date`, given how the local
/// clock shows its start and the bounds of the day: [`event_overlap`],
/// computed.
fn event_touches(
    event: &CalendarEvent,
    date: &CivilDate,
    start_local: &Stamp,
    bounds: Option<(Stamp, Stamp)>,
) -> (r: bool)
    requires
        event_times_ok(event@),
    ensures
        r == event_overlap(event@, *date, start_local.date, bounds),
{
    match event.start {
        Some(start) => {
            let end = effective_end_exec(&start, event.end);
            overlaps_local_day(&start, &end, &start_local.date, date, bounds)
        },
        None => false,
    }
}

/// Whether an event touches the local day `date`: [`event_overlap`] with
/// the local date of its start and the bounds of the day as the machine's
/// time zone gives them, each less than a day off UTC.
pub fn event_overlaps_date(event: &CalendarEvent, date: &CivilDate) -> (r: bool)
    requires
        event_times_ok(event@),
        date_valid(*date),
    ensures
        event.start is None ==> !r,
        exists|l: Stamp, b: Option<(Stamp, Stamp)>|
            #![trigger event_overlap(event@, *date, l.date, b)]
            (event@.start matches Some(s) ==> local_reading(l, s)) && bounds_fit(*date, b) && r
                == event_overlap(event@, *date, l.date, b),
{
    let start = match event.start {
        Some(s) => s,
        None => {
            assert(event_overlap(event@, *date, midnight(*date).date, None) == false);
            return false;
        },
    };
    let start_local = local_from_utc(&start);
    let bounds = local_day_bounds(date);
    let r = event_touches(event, date, &start_local, bounds);
    assert(r == event_overlap(event@, *date, start_local.date, bounds));
    r
}

/// `%b %-d %H:%M`.
pub open spec fn month_day_clock(t: Stamp) -> Seq<char> {
    month_abbrev_text(t.date.month) + " "@ + decimal(t.date.day as nat) + " "@ + clock_text(t)
}

/// How the event list shows the time of an event, given its local start and
/// end: a range with dates when it ends on another day, a range of times when
/// it ends the same day, and the start time when it has no end.
pub open spec fn time_range_text(start: Stamp, end: Option<Stamp>) -> Seq<char> {
    match end {
        Some(e) => if e.date != start.date {
            month_day_clock(start) + " – "@ + month_day_clock(e)
        } else {
            clock_text(start) + "–"@ + clock_text(e)
        },
        None => clock_text(start),
    }
}

fn push_month_day_clock(out: &mut Vec<char>, t: &Stamp)
    requires
        stamp_valid(*t),
    ensures
        final(out)@ == old(out)@ + month_day_clock(*t),
{
    push_str_chars(out, month_abbrev(t.date.month));
    out.push(' ');
    push_decimal(out, t.date.day as u64);
    out.push(' ');
    let c = clock_string(t);
    push_str_chars(out, c.as_str());
    proof {
        reveal_strlit(" ");
    }
    assert(out@ =~= old(out)@ + month_day_clock(*t));
}

/// [`time_range_text`], computed.
pub fn time_range_string(start: &Stamp, end: Option<Stamp>) -> (r: String)
    requires
        stamp_valid(*start),
        end matches Some(e) ==> stamp_valid(e),
    ensures
        r@ == time_range_text(*start, end),
{
    let mut out: Vec<char> = Vec::new();
    match end {
        Some(e) => {
            let same_day = e.date.year == start.date.year && e.date.month == start.date.month
                && e.date.day == start.date.day;
            if !same_day {
                push_month_day_clock(&mut out, start);
                push_str_chars(&mut out, " – ");
                push_month_day_clock(&mut out, &e);
            } else {
                let a = clock_string(start);
                push_str_chars(&mut out, a.as_str());
                push_str_chars(&mut out, "–");
                let b = clock_string(&e);
                push_str_chars(&mut out, b.as_str());
            }
        },
        None => {
            let a = clock_string(start);
            push_str_chars(&mut out, a.as_str());
        },
    }
    assert(out@ =~= time_range_text(*start, end));
    string_of(out.as_slice())
}

/// How the event list shows the time of an event: [`time_range_text`] of
/// its start and end read in the machine's local time (each less than a day
/// off UTC); empty for an event without a start.
pub fn format_event_time_range(event: &CalendarEvent) -> (r: String)
    requires
        event_times_ok(event@),
    ensures
        event.start is None ==> r@ == Seq::<char>::empty(),
        event.start matches Some(s) ==> exists|ls: Stamp, le: Option<Stamp>|
            #![trigger time_range_text(ls, le)]
            local_reading(ls, s) && (le is Some <==> event.end is Some) && (le matches Some(x)
                ==> local_reading(x, event.end->0)) && r@ == time_range_text(ls, le),
{
    let start = match event.start {
        Some(s) => s,
        None => return String::new(),
    };
    let start_local = local_from_utc(&start);
    let end_local = match event.end {
        Some(e) => {
            Some(local_from_utc(&e))
        },
        None => None,
    };
    let r = time_range_string(&start_local, end_local);
    assert(r@ == time_range_text(start_local, end_local));
    r
}

/// How the event list titles an event: the account label first when several
/// accounts are configured, and a non-empty location in parentheses.
pub open spec fn event_list_title(
    label: Seq<char>,
    summary: Seq<char>,
    location: Option<Seq<char>>,
    show_label: bool,
) -> Seq<char> {
    let title = if show_label { label + ": "@ + summary } else { summary };
    match location {
        Some(l) => if l.len() > 0 { title + " ("@ + l + ")"@ } else { title },
        None => title,
    }
}

/// The title of an event in the event list.
pub fn event_title(item: &AppletEvent, show_label: bool) -> (r: String)
    ensures
        r@ == event_list_title(item.label@, item.event.summary@, item.event@.location, show_label),
{
    let mut out: Vec<char> = Vec::new();
    if show_label {
        push_str_chars(&mut out, item.label.as_str());
        push_str_chars(&mut out, ": ");
    }
    push_str_chars(&mut out, item.event.summary.as_str());
    match &item.event.location {
        Some(l) => {
            if !l.as_str().is_empty() {
                push_str_chars(&mut out, " (");
                push_str_chars(&mut out, l.as_str());
                push_str_chars(&mut out, ")");
            }
        },
        None => {},
    }
    assert(out@ =~= event_list_title(
        item.label@,
        item.event.summary@,
        item.event@.location,
        show_label,
    ));
    string_of(out.as_slice())
}

// ----------------------------------------------------------------------------
// Day markers of a month
// ----------------------------------------------------------------------------

/// The local days an event spans: the day it starts and the day it ends (an
/// end exactly at midnight belongs to the day before).
#[derive(Clone, Copy, Debug, PartialEq, Eq, Structural)]
pub struct EventSpan {
    pub start_date: CivilDate,
    pub end_date: CivilDate,
}

/// The span of an event that starts and ends at these local times.
pub open spec fn span_of(start_local: Stamp, end_local: Stamp) -> EventSpan {
    let at_midnight = end_local.hour == 0 && end_local.minute == 0 && end_local.second == 0;
    EventSpan {
        start_date: start_local.date,
        end_date: if at_midnight {
            match prev_day(end_local.date) {
                Some(p) => p,
                None => end_local.date,
            }
        } else {
            end_local.date
        },
    }
}

/// The marker an event puts on a day it touches: single-day events a dot;
/// multi-day events a start, an end, or a bar in between.
pub open spec fn span_marker(span: EventSpan, date: CivilDate) -> DayMarker {
    if !date_lt(span.start_date, span.end_date) {
        DayMarker::Single
    } else if date == span.start_date {
        DayMarker::Start
    } else if date == span.end_date {
        DayMarker::End
    } else if date_lt(span.start_date, date) && date_lt(date, span.end_date) {
        DayMarker::Middle
    } else {
        DayMarker::Single
    }
}

/// A day cell after considering one event: unchanged when the event does not
/// touch the day (or the day does not exist), otherwise marked.
pub open spec fn marked(v: DayVisual, touches: bool, date: Option<CivilDate>, span: EventSpan) -> DayVisual {
    match date {
        Some(d) => if !touches {
            v
        } else if !date_lt(span.start_date, span.end_date) {
            DayVisual { has_events: true, marker: merged_marker(v.marker, DayMarker::Single), ..v }
        } else {
            DayVisual {
                has_events: true,
                has_multiday: true,
                marker: merged_marker(v.marker, span_marker(span, d)),
            }
        },
        None => v,
    }
}

/// [`span_of`], computed.
pub fn event_span(start_local: &Stamp, end_local: &Stamp) -> (r: EventSpan)
    requires
        stamp_valid(*end_local),
    ensures
        r == span_of(*start_local, *end_local),
{
    let at_midnight = end_local.hour == 0 && end_local.minute == 0 && end_local.second == 0;
    let end_date = if at_midnight {
        match pred_date(end_local.date) {
            Some(p) => p,
            None => end_local.date,
        }
    } else {
        end_local.date
    };
    EventSpan { start_date: start_local.date, end_date }
}

fn same_date(a: &CivilDate, b: &CivilDate) -> (r: bool)
    ensures
        r == (*a == *b),
{
    a.year == b.year && a.month == b.month && a.day == b.day
}

/// Marks the days of a month an event touches.
pub fn mark_event_days(
    visuals: &mut Vec<DayVisual>,
    span: &EventSpan,
    touches: &Vec<bool>,
    dates: &Vec<Option<CivilDate>>,
)
    requires
        old(visuals)@.len() == touches@.len(),
        old(visuals)@.len() == dates@.len(),
    ensures
        final(visuals)@.len() == old(visuals)@.len(),
        forall|i: int| 0 <= i < final(visuals)@.len() ==> #[trigger] final(visuals)@[i] == marked(
            old(visuals)@[i],
            touches@[i],
            dates@[i],
            *span,
        ),
{
    let n = visuals.len();
    let mut i: usize = 0;
    while i < n
        invariant
            n == visuals@.len(),
            n == old(visuals)@.len(),
            n == touches@.len(),
            n == dates@.len(),
            i <= n,
            forall|j: int| 0 <= j < i ==> #[trigger] visuals@[j] == marked(
                old(visuals)@[j],
                touches@[j],
                dates@[j],
                *span,
            ),
            forall|j: int| i <= j < n ==> #[trigger] visuals@[j] == old(visuals)@[j],
        decreases n - i,
    {
        let v = visuals[i];
        let nv = match dates[i] {
            Some(d) => if !touches[i] {
                v
            } else if !date_before(&span.start_date, &span.end_date) {
                DayVisual {
                    has_events: true,
                    marker: merge_day_marker(v.marker, DayMarker::Single),
                    ..v
                }
            } else {
                let m = if same_date(&d, &span.start_date) {
                    DayMarker::Start
                } else if same_date(&d, &span.end_date) {
                    DayMarker::End
                } else if date_before(&span.start_date, &d) && date_before(&d, &span.end_date) {
                    DayMarker::Middle
                } else {
                    DayMarker::Single
                };
                DayVisual {
                    has_events: true,
                    has_multiday: true,
                    marker: merge_day_marker(v.marker, m),
                }
            },
            None => v,
        };
        visuals.set(i, nv);
        i += 1;
    }
}

/// The days of a month of `days` days starting on `first` (`None` past the
/// supported range).
pub open spec fn month_dates(first: CivilDate, days: nat) -> Seq<Option<CivilDate>> {
    Seq::new(days, |j: int| days_after(first, j as nat))
}

/// The day cells of a month after each event in turn has marked the days it
/// touches: every cell starts blank, and a mark is the event's local span with,
/// for each day, whether the event touches it (see [`marked`]).
pub open spec fn marked_month(dates: Seq<Option<CivilDate>>, marks: Seq<(EventSpan, Seq<bool>)>) -> Seq<DayVisual>
    decreases marks.len(),
{
    if marks.len() == 0 {
        Seq::new(dates.len(), |j: int| blank_visual())
    } else {
        let prev = marked_month(dates, marks.drop_last());
        Seq::new(dates.len(), |j: int| marked(prev[j], marks.last().1[j], dates[j], marks.last().0))
    }
}

/// The events of a list that have a start, in order.
pub open spec fn dated_events(events: Seq<AppletEvent>) -> Seq<EventView>
    decreases events.len(),
{
    if events.len() == 0 {
        Seq::empty()
    } else if events.last().event.start is Some {
        dated_events(events.drop_last()).push(events.last().event@)
    } else {
        dated_events(events.drop_last())
    }
}

/// `bounds` can be the bounds of the days of a month as the local clock
/// gives them: one per day, none for a day past the supported range.
pub open spec fn month_bounds_fit(dates: Seq<Option<CivilDate>>, bounds: Seq<Option<(Stamp, Stamp)>>) -> bool {
    &&& bounds.len() == dates.len()
    &&& forall|j: int|
        0 <= j < dates.len() ==> match #[trigger] dates[j] {
            Some(d) => bounds_fit(d, bounds[j]),
            None => bounds[j] is None,
        }
}

/// `reading` can be how the local clock shows the start and the (effective)
/// end of a dated event.
pub open spec fn span_reading(e: EventView, reading: (Stamp, Stamp)) -> bool {
    match e.start {
        Some(s) => local_reading(reading.0, s) && local_reading(reading.1, effective_end(s, e.end)),
        None => false,
    }
}

/// The mark an event leaves on a month: its local span, and for each day
/// whether it touches it, given the local reading of its start and end and
/// the bounds of each day.
pub open spec fn event_mark(
    e: EventView,
    reading: (Stamp, Stamp),
    dates: Seq<Option<CivilDate>>,
    bounds: Seq<Option<(Stamp, Stamp)>>,
) -> (EventSpan, Seq<bool>) {
    (
        span_of(reading.0, reading.1),
        Seq::new(
            dates.len(),
            |j: int|
                match dates[j] {
                    Some(d) => event_overlap(e, d, reading.0.date, bounds[j]),
                    None => false,
                },
        ),
    )
}

/// The marks of the dated events `es` on a month, one per event, in order.
pub open spec fn month_marks(
    es: Seq<EventView>,
    readings: Seq<(Stamp, Stamp)>,
    dates: Seq<Option<CivilDate>>,
    bounds: Seq<Option<(Stamp, Stamp)>>,
) -> Seq<(EventSpan, Seq<bool>)> {
    Seq::new(es.len(), |k: int| event_mark(es[k], readings[k], dates, bounds))
}

/// Whether one of the marks says it touches day `j` (and the day exists).
pub open spec fn day_touched(dates: Seq<Option<CivilDate>>, marks: Seq<(EventSpan, Seq<bool>)>, j: int) -> bool {
    dates[j] is Some && exists|k: int| 0 <= k < marks.len() && #[trigger] marks[k].1[j]
}

/// A day of a marked month shows events exactly when some mark touches it;
/// then and only then it has a marker, and it shows a multi-day event only
/// when it shows events.
pub proof fn lemma_marked_month_days(dates: Seq<Option<CivilDate>>, marks: Seq<(EventSpan, Seq<bool>)>)
    requires
        forall|k: int| 0 <= k < marks.len() ==> (#[trigger] marks[k]).1.len() == dates.len(),
    ensures
        marked_month(dates, marks).len() == dates.len(),
        forall|j: int|
            0 <= j < dates.len() ==> {
                let v = #[trigger] marked_month(dates, marks)[j];
                &&& v.has_events == day_touched(dates, marks, j)
                &&& (v.marker != DayMarker::Blank) == v.has_events
                &&& v.has_multiday ==> v.has_events
            },
    decreases marks.len(),
{
    if marks.len() > 0 {
        let prev = marks.drop_last();
        lemma_marked_month_days(dates, prev);
        assert forall|j: int| 0 <= j < dates.len() implies {
            let v = #[trigger] marked_month(dates, marks)[j];
            &&& v.has_events == day_touched(dates, marks, j)
            &&& (v.marker != DayMarker::Blank) == v.has_events
            &&& v.has_multiday ==> v.has_events
        } by {
            let last = marks.len() - 1;
            let pv = marked_month(dates, prev)[j];
            assert(marks[last] == marks.last());
            if day_touched(dates, marks, j) {
                let k = choose|k: int| 0 <= k < marks.len() && #[trigger] marks[k].1[j];
                if k < last {
                    assert(prev[k] == marks[k]);
                }
            }
            if day_touched(dates, prev, j) {
                let k = choose|k: int| 0 <= k < prev.len() && #[trigger] prev[k].1[j];
                assert(marks[k] == prev[k]);
            }
            if dates[j] is Some && !day_touched(dates, marks, j) {
                assert(!marks[last].1[j]);
                assert forall|k: int| 0 <= k < prev.len() implies !#[trigger] prev[k].1[j] by {
                    assert(prev[k] == marks[k]);
                }
            }
            let sp = marks.last().0;
            match dates[j] {
                Some(d) => {
                    if marks.last().1[j] {
                        let m = if !date_lt(sp.start_date, sp.end_date) {
                            DayMarker::Single
                        } else {
                            span_marker(sp, d)
                        };
                        assert(m != DayMarker::Blank);
                        assert(merged_marker(pv.marker, m) != DayMarker::Blank);
                    }
                },
                None => {},
            }
        }
    }
}

/// The markers of the days of a month with `days` days starting on
/// `first_of_month`, for the given events: [`marked_month`] with the mark of
/// each event that has a start, in order ([`month_marks`]). The span of an
/// event and which days it touches are read in the machine's local time:
/// one reading of each event's start and end and one set of bounds per day,
/// each less than a day off UTC. So a day shows events exactly when one of
/// those events touches it ([`lemma_marked_month_days`]).
pub fn month_day_visuals(first_of_month: &CivilDate, days: u32, events: &Vec<AppletEvent>) -> (r: Vec<DayVisual>)
    requires
        date_valid(*first_of_month),
        forall|i: int| 0 <= i < events@.len() ==> event_times_ok(#[trigger] events@[i].event@),
    ensures
        r@.len() == days,
        exists|readings: Seq<(Stamp, Stamp)>, bounds: Seq<Option<(Stamp, Stamp)>>|
            #![trigger month_marks(dated_events(events@), readings, month_dates(*first_of_month, days as nat), bounds)]
            readings.len() == dated_events(events@).len() && (forall|k: int|
                0 <= k < readings.len() ==> span_reading(
                    dated_events(events@)[k],
                    #[trigger] readings[k],
                )) && month_bounds_fit(month_dates(*first_of_month, days as nat), bounds) && r@
                == marked_month(
                month_dates(*first_of_month, days as nat),
                month_marks(dated_events(events@), readings, month_dates(*first_of_month, days as nat), bounds),
            ) && (forall|j: int|
                0 <= j < days ==> {
                    &&& (#[trigger] r@[j]).has_events == day_touched(
                        month_dates(*first_of_month, days as nat),
                        month_marks(dated_events(events@), readings, month_dates(*first_of_month, days as nat), bounds),
                        j,
                    )
                    &&& (r@[j].marker != DayMarker::Blank) == r@[j].has_events
                    &&& r@[j].has_multiday ==> r@[j].has_events
                }),
{
    let mut visuals: Vec<DayVisual> = Vec::new();
    let mut dates: Vec<Option<CivilDate>> = Vec::new();
    let mut bounds: Vec<Option<(Stamp, Stamp)>> = Vec::new();
    let mut k: u32 = 0;
    while k < days
        invariant
            k <= days,
            visuals@.len() == k,
            dates@.len() == k,
            bounds@.len() == k,
            date_valid(*first_of_month),
            forall|j: int| 0 <= j < k ==> #[trigger] visuals@[j] == blank_visual(),
            forall|j: int| 0 <= j < k ==> #[trigger] dates@[j] == days_after(*first_of_month, j as nat),
            forall|j: int| 0 <= j < k ==> (#[trigger] dates@[j] matches Some(d) ==> date_valid(d)),
            forall|j: int|
                0 <= j < k ==> match #[trigger] dates@[j] {
                    Some(d) => bounds_fit(d, bounds@[j]),
                    None => bounds@[j] is None,
                },
        decreases days - k,
    {
        visuals.push(DayVisual::default());
        let d = add_days(*first_of_month, k);
        let b = match d {
            Some(day) => local_day_bounds(&day),
            None => None,
        };
        dates.push(d);
        bounds.push(b);
        k += 1;
    }
    let ghost month = month_dates(*first_of_month, days as nat);
    let ghost all = dated_events(events@);
    let ghost mut readings: Seq<(Stamp, Stamp)> = Seq::empty();
    assert(dates@ =~= month);
    assert(month_marks(dated_events(events@.take(0)), readings, month, bounds@) =~= Seq::<
        (EventSpan, Seq<bool>),
    >::empty());
    assert(visuals@ =~= marked_month(month, month_marks(dated_events(events@.take(0)), readings, month, bounds@)));
    let mut e: usize = 0;
    while e < events.len()
        invariant
            e <= events@.len(),
            visuals@.len() == days,
            dates@.len() == days,
            dates@ == month,
            month.len() == days,
            month_bounds_fit(month, bounds@),
            readings.len() == dated_events(events@.take(e as int)).len(),
            forall|k: int|
                0 <= k < readings.len() ==> span_reading(
                    dated_events(events@.take(e as int))[k],
                    #[trigger] readings[k],
                ),
            visuals@ == marked_month(month, month_marks(dated_events(events@.take(e as int)), readings, month, bounds@)),
            forall|i: int| 0 <= i < events@.len() ==> event_times_ok(#[trigger] events@[i].event@),
            forall|j: int| 0 <= j < dates@.len() ==> (#[trigger] dates@[j] matches Some(d) ==> date_valid(d)),
        decreases events@.len() - e,
    {
        let event = &events[e].event;
        assert(event_times_ok(events@[e as int].event@));
        let ghost pre = events@.take(e as int);
        let ghost cur = events@.take(e + 1);
        assert(cur.drop_last() =~= pre);
        assert(cur.last() == events@[e as int]);
        if let Some(start) = event.start {
            let start_local = local_from_utc(&start);
            let end = effective_end_exec(&start, event.end);
            let end_local = local_from_utc(&end);
            let span = event_span(&start_local, &end_local);
            let mut touches: Vec<bool> = Vec::new();
            let mut j: usize = 0;
            while j < dates.len()
                invariant
                    j <= dates@.len(),
                    dates@ == month,
                    bounds@.len() == dates@.len(),
                    touches@.len() == j,
                    event_times_ok(event@),
                    forall|i: int|
                        0 <= i < j ==> #[trigger] touches@[i] == match month[i] {
                            Some(d) => event_overlap(event@, d, start_local.date, bounds@[i]),
                            None => false,
                        },
                decreases dates@.len() - j,
            {
                let t = match dates[j] {
                    Some(d) => event_touches(event, &d, &start_local, bounds[j]),
                    None => false,
                };
                touches.push(t);
                j += 1;
            }
            let ghost before = visuals@;
            mark_event_days(&mut visuals, &span, &touches, &dates);
            proof {
                let next = readings.push((start_local, end_local));
                let es = dated_events(cur);
                assert(es == dated_events(pre).push(event@));
                let mk = month_marks(es, next, month, bounds@);
                let mk0 = month_marks(dated_events(pre), readings, month, bounds@);
                assert(mk.drop_last() =~= mk0) by {
                    assert forall|k: int| 0 <= k < mk0.len() implies mk.drop_last()[k] == mk0[k] by {
                        assert(es[k] == dated_events(pre)[k]);
                        assert(next[k] == readings[k]);
                    }
                }
                assert(mk.last().1 =~= touches@);
                assert(mk.last() == (span, touches@));
                assert(visuals@ =~= marked_month(month, mk));
                assert forall|k: int| 0 <= k < next.len() implies span_reading(es[k], #[trigger] next[k]) by {
                    if k < readings.len() {
                        assert(es[k] == dated_events(pre)[k]);
                    }
                }
                readings = next;
            }
        } else {
            assert(dated_events(cur) == dated_events(pre));
        }
        e += 1;
    }
    assert(events@.take(e as int) =~= events@);
    proof {
        let mk = month_marks(dated_events(events@), readings, month, bounds@);
        lemma_marked_month_days(month, mk);
    }
    visuals
}

// ----------------------------------------------------------------------------
// Form input
// ----------------------------------------------------------------------------

/// Why the form's date is refused.
pub const INVALID_DATE: &'static str = "Invalid date format. Use YYYY-MM-DD";
/// Why the form's time is refused.
pub const INVALID_TIME: &'static str = "Invalid time format. Use HH:MM (24-hour)";
/// Why a wall-clock time the local clock skips is refused.
pub const NO_SUCH_LOCAL_TIME: &'static str = "Invalid or ambiguous local date/time (DST gap)";

/// What reading the form's date and time can give: the refusal of a date
/// that does not parse, then the refusal of a time that does not parse;
/// otherwise that wall-clock time with some valid UTC instant less than a
/// day from it, or the refusal of a time the local clock skips.
pub open spec fn local_parse(date: Seq<char>, time: Seq<char>, r: Result<LocalDateTime, Seq<char>>) -> bool {
    match dashed_date(trim_ws(date)) {
        None => r == Err::<LocalDateTime, Seq<char>>(INVALID_DATE@),
        Some(d) => match clock_time(trim_ws(time)) {
            None => r == Err::<LocalDateTime, Seq<char>>(INVALID_TIME@),
            Some(hm) => match r {
                Ok(t) => t.local == (Stamp { date: d, hour: hm.0, minute: hm.1, second: 0 })
                    && stamp_valid(t.local) && stamp_valid(t.utc) && within_a_day(t.utc, t.local),
                Err(e) => e == NO_SUCH_LOCAL_TIME@,
            },
        },
    }
}

/// A parse result with its error as text.
pub open spec fn time_result(r: Result<LocalDateTime, String>) -> Result<LocalDateTime, Seq<char>> {
    match r {
        Ok(t) => Ok(t),
        Err(e) => Err(e@),
    }
}

/// Reads the form's date (`YYYY-MM-DD`) and time (`HH:MM`), each trimmed, as a
/// local date-time. Which dates and times parse is chrono's; whether the local
/// clock shows that time (and when, in UTC) depends on the machine.
pub fn parse_local_datetime(date: &str, time: &str) -> (r: Result<LocalDateTime, String>)
    ensures
        local_parse(date@, time@, time_result(r)),
{
    let dv = chars_of(date);
    let dt = string_of(trim_ws_exec(dv.as_slice()).as_slice());
    let naive_date = match parse_dashed_date(dt.as_str()) {
        Some(d) => d,
        None => return Err(INVALID_DATE.to_owned()),
    };
    let tv = chars_of(time);
    let tt = string_of(trim_ws_exec(tv.as_slice()).as_slice());
    let (hour, minute) = match parse_clock_time(tt.as_str()) {
        Some(hm) => hm,
        None => return Err(INVALID_TIME.to_owned()),
    };
    let naive = Stamp { date: naive_date, hour, minute, second: 0 };
    match utc_from_local(&naive) {
        Some(u) => Ok(LocalDateTime { local: naive, utc: u }),
        None => Err(NO_SUCH_LOCAL_TIME.to_owned()),
    }
}

fn clone_opt(o: &Option<String>) -> (r: Option<String>)
    ensures
        r.deep_view() == o.deep_view(),
{
    match o {
        Some(s) => Some(s.clone()),
        None => None,
    }
}

/// The text of an optional value, empty when absent.
pub open spec fn or_empty(o: Option<Seq<char>>) -> Seq<char> {
    match o {
        Some(s) => s,
        None => Seq::empty(),
    }
}

impl EventFormState {
    /// Fills the form with an event for editing. Its start and end are shown
    /// in local time (an event without a start starts now; an end not after
    /// the start is taken to be an hour after it), so those fields depend on
    /// the machine's time zone and clock.
    pub fn begin_edit(&mut self, item: &AppletEvent)
        requires
            event_times_ok(item.event@),
        ensures
            final(self).visible,
            final(self)@.title == item.event@.summary,
            final(self)@.location == or_empty(item.event@.location),
            final(self)@.description == or_empty(item.event@.description),
            final(self)@.reminder == "15"@,
            final(self)@.error is None,
            !final(self).is_submitting,
            final(self)@.editing == Some(
                EditingView {
                    account_id: item.account_id@,
                    event_href: item.event.href@,
                    event_etag: item.event@.etag,
                    uid: item.event.uid@,
                },
            ),
            exists|sl: Stamp, el: Stamp|
                #![trigger clock_text(sl), clock_text(el)]
                stamp_valid(sl) && stamp_valid(el) && final(self)@.start_date == iso_date_text(sl.date)
                    && final(self)@.start_time == clock_text(sl) && final(self)@.end_date
                    == iso_date_text(el.date) && final(self)@.end_time == clock_text(el),
    {
        let start: LocalDateTime = match item.event.start {
            Some(s) => {
                LocalDateTime { local: local_from_utc(&s), utc: s }
            },
            None => now(),
        };
        let end_local: Stamp = match item.event.end {
            Some(e) if stamp_before(&start.utc, &e) => {
                local_from_utc(&e)
            },
            _ => {
                if shift_range_ok(&start.utc) {
                    proof {
                        lemma_shift_range(start.utc);
                    }
                    let later = add_hour(&start.utc);
                    local_from_utc(&later)
                } else {
                    start.local
                }
            },
        };
        self.visible = true;
        self.title = item.event.summary.clone();
        self.start_date = iso_date_string(&start.local.date);
        self.start_time = clock_string(&start.local);
        self.end_date = iso_date_string(&end_local.date);
        self.end_time = clock_string(&end_local);
        self.location = match &item.event.location {
            Some(l) => l.clone(),
            None => String::new(),
        };
        self.description = match &item.event.description {
            Some(d) => d.clone(),
            None => String::new(),
        };
        self.reminder = "15".to_owned();
        self.error = None;
        self.is_submitting = false;
        self.editing_event = Some(
            EditingEvent {
                account_id: item.account_id.clone(),
                event_href: item.event.href.clone(),
                event_etag: clone_opt(&item.event.etag),
                uid: item.event.uid.clone(),
            },
        );
        assert(self@.start_time == clock_text(start.local) && self@.end_time == clock_text(end_local));
    }
}


// ----------------------------------------------------------------------------
// The applet's state and its answers to messages
// ----------------------------------------------------------------------------

/// Why an event without a title is refused.
pub const TITLE_REQUIRED: &'static str = "Title required";
/// Why an edit of an event of a removed account is refused.
pub const ACCOUNT_NOT_FOUND: &'static str = "Account not found for this event";
/// Why a new event is refused when no account is configured.
pub const NO_ACCOUNT: &'static str = "No account configured";
/// Why a new event is refused when the first account has no calendar.
pub const NO_CALENDAR: &'static str = "No calendar found";

/// A request for the calendars of one account.
pub struct SyncRequest {
    pub account_id: String,
    pub client: CalDavClient,
}

/// A new or changed event, as the form describes it.
pub struct EventDraft {
    pub title: String,
    pub start: LocalDateTime,
    pub end: LocalDateTime,
    pub location: String,
    pub description: String,
    /// Minutes before the start at which to remind.
    pub reminder: i32,
}

/// What the caller has to carry out after a message.
pub enum AppletCommand {
    Nothing,
    /// List the calendars of each account; answer each with `CalendarsLoaded`.
    Sync { requests: Vec<SyncRequest> },
    /// Load the events of a calendar; answer with `EventsLoaded`.
    FetchEvents { account_id: String, account_label: String, calendar_href: String, client: CalDavClient },
    /// Create an event in a calendar; answer with `EventCreated`.
    CreateEvent { client: CalDavClient, calendar_href: String, draft: EventDraft },
    /// Replace an event; answer with `EventUpdated`.
    UpdateEvent {
        client: CalDavClient,
        event_href: String,
        etag: Option<String>,
        uid: String,
        draft: EventDraft,
    },
    /// Delete an event; answer with `EventDeleted`.
    DeleteEvent { client: CalDavClient, event_href: String, etag: Option<String> },
}

/// What the applet does in answer to a message.
#[derive(Debug)]
pub enum Message {
    /// The periodic synchronisation timer fired (while the popup is open or not).
    SyncTick { popup_open: bool },
    CalendarsLoaded { account_id: String, result: Result<Vec<Calendar>, String> },
    EventsLoaded {
        account_id: String,
        account_label: String,
        result: Result<Vec<CalendarEvent>, String>,
    },
    PrevMonth,
    NextMonth,
    SelectDay(u32),
    EditEvent(usize),
    ToggleAddForm,
    CancelForm,
    FormTitleChanged(String),
    FormStartDateChanged(String),
    FormStartTimeChanged(String),
    FormEndDateChanged(String),
    FormEndTimeChanged(String),
    FormLocationChanged(String),
    FormDescriptionChanged(String),
    FormReminderChanged(String),
    SubmitEvent,
    DeleteEditingEvent,
    EventCreated(Result<(), String>),
    EventUpdated(Result<(), String>),
    EventDeleted(Result<(), String>),
}

impl Clone for Message {
    fn clone(&self) -> Self {
        match self {
            Message::SyncTick { popup_open } => Message::SyncTick { popup_open: *popup_open },
            Message::CalendarsLoaded { account_id, result } => Message::CalendarsLoaded {
                account_id: account_id.clone(),
                result: clone_result(result),
            },
            Message::EventsLoaded { account_id, account_label, result } => Message::EventsLoaded {
                account_id: account_id.clone(),
                account_label: account_label.clone(),
                result: clone_result(result),
            },
            Message::PrevMonth => Message::PrevMonth,
            Message::NextMonth => Message::NextMonth,
            Message::SelectDay(d) => Message::SelectDay(*d),
            Message::EditEvent(i) => Message::EditEvent(*i),
            Message::ToggleAddForm => Message::ToggleAddForm,
            Message::CancelForm => Message::CancelForm,
            Message::FormTitleChanged(v) => Message::FormTitleChanged(v.clone()),
            Message::FormStartDateChanged(v) => Message::FormStartDateChanged(v.clone()),
            Message::FormStartTimeChanged(v) => Message::FormStartTimeChanged(v.clone()),
            Message::FormEndDateChanged(v) => Message::FormEndDateChanged(v.clone()),
            Message::FormEndTimeChanged(v) => Message::FormEndTimeChanged(v.clone()),
            Message::FormLocationChanged(v) => Message::FormLocationChanged(v.clone()),
            Message::FormDescriptionChanged(v) => Message::FormDescriptionChanged(v.clone()),
            Message::FormReminderChanged(v) => Message::FormReminderChanged(v.clone()),
            Message::SubmitEvent => Message::SubmitEvent,
            Message::DeleteEditingEvent => Message::DeleteEditingEvent,
            Message::EventCreated(r) => Message::EventCreated(clone_result(r)),
            Message::EventUpdated(r) => Message::EventUpdated(clone_result(r)),
            Message::EventDeleted(r) => Message::EventDeleted(clone_result(r)),
        }
    }
}

/// The applet's state.
pub struct CalDavApplet {
    pub calendar: CalendarViewport,
    /// The calendars of the first account.
    pub calendars: Vec<Calendar>,
    /// The events of all accounts.
    pub events: Vec<AppletEvent>,
    pub config: Config,
    pub sync: SyncState,
    pub form: EventFormState,
}

/// What the applet's state is, as text.
pub struct AppletModel {
    pub viewport: CalendarViewport,
    pub calendars: Seq<CalendarView>,
    pub events: Seq<AppletEventView>,
    pub accounts: Seq<AccountView>,
    pub sync: SyncState,
    pub form: EventFormView,
}

impl View for CalDavApplet {
    type V = AppletModel;

    open spec fn view(&self) -> AppletModel {
        AppletModel {
            viewport: self.calendar,
            calendars: calendar_views(self.calendars@),
            events: applet_event_views(self.events@),
            accounts: self.config@,
            sync: self.sync,
            form: self.form@,
        }
    }
}

/// What the applet keeps true: the selected day exists, the month is 1–12,
/// and every event's times can be read in local time.
pub open spec fn applet_ok(m: AppletModel) -> bool {
    &&& date_valid(m.viewport.selected_date)
    &&& 1 <= m.viewport.month <= 12
    &&& forall|i: int| 0 <= i < m.events.len() ==> event_times_ok(#[trigger] m.events[i].event)
}

/// One calendar request per account, in order, each with a client for it.
pub open spec fn requests_for(rs: Seq<SyncRequest>, accounts: Seq<AccountView>) -> bool {
    &&& rs.len() == accounts.len()
    &&& forall|i: int|
        0 <= i < rs.len() ==> #[trigger] rs[i].account_id@ == accounts[i].id && client_for(
            rs[i].client,
            accounts[i],
        )
}

/// The state when synchronisation starts afresh: lists emptied, one
/// synchronisation per account running.
pub open spec fn restarted(o: AppletModel) -> AppletModel {
    AppletModel {
        calendars: Seq::empty(),
        events: Seq::empty(),
        sync: SyncState { loading: o.accounts.len() > 0, pending_syncs: o.accounts.len() as usize },
        ..o
    }
}

/// The command that starts synchronisation: nothing without accounts.
pub open spec fn sync_command(accounts: Seq<AccountView>, cmd: AppletCommand) -> bool {
    if accounts.len() == 0 {
        cmd is Nothing
    } else {
        cmd matches AppletCommand::Sync { requests } && requests_for(requests@, accounts)
    }
}

/// The calendars of one account arrived (or failed): the first account's
/// calendars are kept, and the events of the account's first calendar are
/// asked for; otherwise that account's synchronisation is over.
pub open spec fn after_calendars(
    o: AppletModel,
    n: AppletModel,
    id: Seq<char>,
    result: Result<Vec<Calendar>, String>,
    cmd: AppletCommand,
) -> bool {
    match result {
        Err(_) => n == AppletModel { sync: after_finish(o.sync), ..o } && cmd is Nothing,
        Ok(v) => {
            let cals = calendar_views(v@);
            let shown = if o.accounts.len() > 0 && o.accounts[0].id == id {
                cals
            } else {
                o.calendars
            };
            match find_account(o.accounts, id) {
                Some(a) => if cals.len() > 0 {
                    &&& n == AppletModel { calendars: shown, ..o }
                    &&& cmd matches AppletCommand::FetchEvents {
                        account_id,
                        account_label,
                        calendar_href,
                        client,
                    }
                    &&& account_id@ == id
                    &&& account_label@ == a.username
                    &&& calendar_href@ == cals[0].href
                    &&& client_for(client, a)
                } else {
                    n == AppletModel { calendars: shown, sync: after_finish(o.sync), ..o } && cmd is Nothing
                },
                None => n == AppletModel { calendars: shown, sync: after_finish(o.sync), ..o }
                    && cmd is Nothing,
            }
        },
    }
}

/// Events of an account, each with the account it came from.
pub open spec fn tagged(id: Seq<char>, label: Seq<char>, evs: Seq<EventView>) -> Seq<AppletEventView> {
    evs.map_values(|e: EventView| AppletEventView { account_id: id, label: label, event: e })
}

/// The start time of an applet event, as a function.
pub open spec fn view_start() -> spec_fn(AppletEventView) -> Option<Stamp> {
    |v: AppletEventView| v.event.start
}

/// The events of one account arrived (or failed): they are added after the
/// others, and once the last synchronisation is over all events are sorted
/// by start time.
pub open spec fn after_events(
    o: AppletModel,
    n: AppletModel,
    id: Seq<char>,
    label: Seq<char>,
    result: Result<Vec<CalendarEvent>, String>,
) -> bool {
    match result {
        Err(_) => n == AppletModel { sync: after_finish(o.sync), ..o },
        Ok(v) => {
            let all = o.events + tagged(id, label, event_views(v@));
            let s = after_finish(o.sync);
            n == AppletModel {
                events: if s.pending_syncs == 0 { sort_by(all, view_start()) } else { all },
                sync: s,
                ..o
            }
        },
    }
}

/// A day of the shown month was chosen: it becomes the selected day (when the
/// month has it) and the form closes.
pub open spec fn after_day_selected(o: AppletModel, n: AppletModel, day: u32) -> bool {
    n == AppletModel {
        viewport: CalendarViewport {
            selected_date: match date_of(o.viewport.year, o.viewport.month, day) {
                Some(d) => d,
                None => o.viewport.selected_date,
            },
            ..o.viewport
        },
        form: EventFormView { visible: false, editing: None, error: None, ..o.form },
        ..o
    }
}

/// An event of the list was chosen for editing (nothing happens for an index
/// past the list): the form shows it, and the selected day becomes the local
/// day of its start.
pub open spec fn after_edit(o: AppletModel, n: AppletModel, index: usize) -> bool {
    if index >= o.events.len() {
        n == o
    } else {
        let item = o.events[index as int];
        &&& n.accounts == o.accounts
        &&& n.calendars == o.calendars
        &&& n.events == o.events
        &&& n.sync == o.sync
        &&& n.viewport.year == o.viewport.year
        &&& n.viewport.month == o.viewport.month
        &&& item.event.start is None ==> n.viewport.selected_date == o.viewport.selected_date
        &&& n.form.visible
        &&& n.form.title == item.event.summary
        &&& n.form.location == or_empty(item.event.location)
        &&& n.form.description == or_empty(item.event.description)
        &&& n.form.reminder == "15"@
        &&& n.form.error is None
        &&& !n.form.is_submitting
        &&& n.form.editing == Some(
            EditingView {
                account_id: item.account_id,
                event_href: item.event.href,
                event_etag: item.event.etag,
                uid: item.event.uid,
            },
        )
    }
}

/// The add button: it closes an open form for a new event, and otherwise
/// opens a fresh one for the selected day.
pub open spec fn after_toggle(o: AppletModel, n: AppletModel) -> bool {
    if o.form.visible && o.form.editing is None {
        n == AppletModel { form: EventFormView { visible: false, error: None, ..o.form }, ..o }
    } else {
        n == AppletModel { form: fresh_form(o.viewport.selected_date, true), ..o }
    }
}

/// The form shows `msg` and nothing is sent.
pub open spec fn refused(o: AppletModel, n: AppletModel, msg: Seq<char>, cmd: AppletCommand) -> bool {
    n == AppletModel { form: EventFormView { error: Some(msg), ..o.form }, ..o } && cmd is Nothing
}

/// The form is being sent.
pub open spec fn sending(o: AppletModel, n: AppletModel) -> bool {
    n == AppletModel { form: EventFormView { is_submitting: true, error: None, ..o.form }, ..o }
}

/// The reminder the form asks for (15 minutes when it is not a number).
pub open spec fn reminder_of(f: EventFormView) -> i32 {
    match parsed_i32(f.reminder) {
        Some(n) => n,
        None => 15,
    }
}

/// The draft the form describes, with the given start and end.
pub open spec fn draft_from(d: EventDraft, f: EventFormView, start: LocalDateTime, end: LocalDateTime) -> bool {
    &&& d.title@ == f.title
    &&& d.start == start
    &&& d.end == end
    &&& d.location@ == f.location
    &&& d.description@ == f.description
    &&& d.reminder == reminder_of(f)
}

/// Saving the form once its start and end have been read: a start or end
/// that could not be read, an end not after the start, a missing account or
/// calendar are reported in that order; otherwise the edited event is
/// replaced, or a new event is created in the first calendar of the first
/// account.
pub open spec fn after_submit_parsed(
    o: AppletModel,
    n: AppletModel,
    start: Result<LocalDateTime, Seq<char>>,
    end: Result<LocalDateTime, Seq<char>>,
    cmd: AppletCommand,
) -> bool {
    match start {
        Err(e) => refused(o, n, e, cmd),
        Ok(s) => match end {
            Err(e) => refused(o, n, e, cmd),
            Ok(t) => if !stamp_lt(s.utc, t.utc) {
                refused(o, n, END_NOT_AFTER_START@, cmd)
            } else {
                match o.form.editing {
                    Some(ed) => match find_account(o.accounts, ed.account_id) {
                        None => refused(o, n, ACCOUNT_NOT_FOUND@, cmd),
                        Some(a) => {
                            &&& sending(o, n)
                            &&& cmd matches AppletCommand::UpdateEvent {
                                client,
                                event_href,
                                etag,
                                uid,
                                draft,
                            }
                            &&& client_for(client, a)
                            &&& event_href@ == ed.event_href
                            &&& etag.deep_view() == ed.event_etag
                            &&& uid@ == ed.uid
                            &&& draft_from(draft, o.form, s, t)
                        },
                    },
                    None => if o.accounts.len() == 0 {
                        refused(o, n, NO_ACCOUNT@, cmd)
                    } else if o.calendars.len() == 0 {
                        refused(o, n, NO_CALENDAR@, cmd)
                    } else {
                        &&& sending(o, n)
                        &&& cmd matches AppletCommand::CreateEvent { client, calendar_href, draft }
                        &&& client_for(client, o.accounts[0])
                        &&& calendar_href@ == o.calendars[0].href
                        &&& draft_from(draft, o.form, s, t)
                    },
                }
            },
        },
    }
}

/// Saving the form: nothing while a save is under way; a blank title is
/// refused; otherwise the start and end are read in local time (see
/// [`local_parse`]) and [`after_submit_parsed`] holds of what was read.
pub open spec fn after_submit(o: AppletModel, n: AppletModel, cmd: AppletCommand) -> bool {
    if o.form.is_submitting {
        n == o && cmd is Nothing
    } else if trim_ws(o.form.title).len() == 0 {
        refused(o, n, TITLE_REQUIRED@, cmd)
    } else {
        exists|s: Result<LocalDateTime, Seq<char>>, e: Result<LocalDateTime, Seq<char>>|
            #![trigger local_parse(o.form.start_date, o.form.start_time, s), local_parse(o.form.end_date, o.form.end_time, e)]
            local_parse(o.form.start_date, o.form.start_time, s) && local_parse(
                o.form.end_date,
                o.form.end_time,
                e,
            ) && after_submit_parsed(o, n, s, e, cmd)
    }
}

/// Deleting the edited event: nothing while a save is under way or when no
/// event is edited; an event of a removed account is refused.
pub open spec fn after_delete(o: AppletModel, n: AppletModel, cmd: AppletCommand) -> bool {
    if o.form.is_submitting {
        n == o && cmd is Nothing
    } else {
        match o.form.editing {
            None => n == o && cmd is Nothing,
            Some(ed) => match find_account(o.accounts, ed.account_id) {
                None => refused(o, n, ACCOUNT_NOT_FOUND@, cmd),
                Some(a) => {
                    &&& sending(o, n)
                    &&& cmd matches AppletCommand::DeleteEvent { client, event_href, etag }
                    &&& client_for(client, a)
                    &&& event_href@ == ed.event_href
                    &&& etag.deep_view() == ed.event_etag
                },
            },
        }
    }
}

/// A create, update or delete finished: on success the form closes and all
/// accounts are synchronised again; on failure the error is shown.
pub open spec fn after_mutation(o: AppletModel, n: AppletModel, result: Result<(), String>, cmd: AppletCommand) -> bool {
    match result {
        Ok(()) => n == restarted(AppletModel { form: fresh_form(o.viewport.selected_date, false), ..o })
            && sync_command(o.accounts, cmd),
        Err(e) => n == AppletModel {
            form: EventFormView { is_submitting: false, error: Some(e@), ..o.form },
            ..o
        } && cmd is Nothing,
    }
}

/// The shown month moved to (year, month).
pub open spec fn moved_to(o: AppletModel, ym: (int, int)) -> AppletModel {
    AppletModel {
        viewport: CalendarViewport { year: ym.0 as i32, month: ym.1 as u32, ..o.viewport },
        ..o
    }
}

/// Going a month back and then a month forward (or forward, then back)
/// shows the same month again and changes nothing else.
pub proof fn lemma_month_moves_undo(m: AppletModel)
    requires
        applet_ok(m),
        i32::MIN < m.viewport.year < i32::MAX,
    ensures
        ({
            let back = month_before(m.viewport.year as int, m.viewport.month as int);
            moved_to(moved_to(m, back), month_after(back.0, back.1)) == m
        }),
        ({
            let ahead = month_after(m.viewport.year as int, m.viewport.month as int);
            moved_to(moved_to(m, ahead), month_before(ahead.0, ahead.1)) == m
        }),
{
    lemma_month_steps(m.viewport.year as int, m.viewport.month as int);
    let back = month_before(m.viewport.year as int, m.viewport.month as int);
    let ahead = month_after(m.viewport.year as int, m.viewport.month as int);
    assert(moved_to(m, back).viewport.year as int == back.0);
    assert(moved_to(m, ahead).viewport.year as int == ahead.0);
}

/// Once the last synchronisation has delivered its events, the applet's
/// events are ordered by start (events without a start first) and are
/// exactly the events it had and the ones that arrived, each once.
pub proof fn lemma_synced_events_ordered(
    o: AppletModel,
    n: AppletModel,
    id: Seq<char>,
    label: Seq<char>,
    incoming: Vec<CalendarEvent>,
)
    requires
        after_events(o, n, id, label, Ok(incoming)),
        after_finish(o.sync).pending_syncs == 0,
    ensures
        ordered_by(n.events, view_start()),
        n.events.to_multiset() == (o.events + tagged(id, label, event_views(incoming@))).to_multiset(),
{
    lemma_sort_by_sorts(o.events + tagged(id, label, event_views(incoming@)), view_start());
}

/// A client for an account.
fn client_of(account: &Account) -> (r: CalDavClient)
    ensures
        client_for(r, account@),
{
    CalDavClient::new(account.url.clone(), account.username.clone(), account.password.clone())
}

/// One calendar request per configured account.
pub fn sync_requests(config: &Config) -> (r: Vec<SyncRequest>)
    ensures
        requests_for(r@, config@),
{
    let mut out: Vec<SyncRequest> = Vec::new();
    let mut i: usize = 0;
    while i < config.accounts.len()
        invariant
            i <= config.accounts@.len(),
            out@.len() == i,
            forall|j: int|
                0 <= j < i ==> #[trigger] out@[j].account_id@ == config@[j].id && client_for(
                    out@[j].client,
                    config@[j],
                ),
        decreases config.accounts@.len() - i,
    {
        let a = &config.accounts[i];
        out.push(SyncRequest { account_id: a.id.clone(), client: client_of(a) });
        i += 1;
    }
    out
}


impl CalDavApplet {
    /// The applet at start-up on `today`: today's month shown and selected,
    /// the form hidden, and every account being synchronised.
    pub fn new(config: Config, today: CivilDate) -> (r: (CalDavApplet, AppletCommand))
        requires
            date_valid(today),
        ensures
            r.0@ == restarted(
                AppletModel {
                    viewport: CalendarViewport { year: today.year, month: today.month, selected_date: today },
                    calendars: Seq::empty(),
                    events: Seq::empty(),
                    accounts: config@,
                    sync: SyncState { loading: false, pending_syncs: 0 },
                    form: fresh_form(today, false),
                },
            ),
            sync_command(config@, r.1),
            applet_ok(r.0@),
    {
        let n = config.accounts.len();
        let mut sync = SyncState::idle();
        sync.begin(n);
        let cmd = if n == 0 {
            AppletCommand::Nothing
        } else {
            AppletCommand::Sync { requests: sync_requests(&config) }
        };
        let app = CalDavApplet {
            calendar: CalendarViewport::new(today),
            calendars: Vec::new(),
            events: Vec::new(),
            config,
            sync,
            form: EventFormState::new(today),
        };
        assert(calendar_views(app.calendars@) =~= Seq::<CalendarView>::empty());
        assert(applet_event_views(app.events@) =~= Seq::<AppletEventView>::empty());
        (app, cmd)
    }

    /// Starts synchronising all accounts afresh.
    pub fn refresh_accounts(&mut self) -> (cmd: AppletCommand)
        ensures
            final(self)@ == restarted(old(self)@),
            sync_command(old(self)@.accounts, cmd),
    {
        let n = self.config.accounts.len();
        self.events = Vec::new();
        self.calendars = Vec::new();
        assert(calendar_views(self.calendars@) =~= Seq::<CalendarView>::empty());
        assert(applet_event_views(self.events@) =~= Seq::<AppletEventView>::empty());
        if n == 0 {
            self.sync = SyncState::idle();
            AppletCommand::Nothing
        } else {
            self.sync.begin(n);
            AppletCommand::Sync { requests: sync_requests(&self.config) }
        }
    }

    /// The periodic synchronisation: it runs only while the popup is closed
    /// and no synchronisation is under way.
    pub fn handle_sync_tick(&mut self, popup_open: bool) -> (cmd: AppletCommand)
        ensures
            if !popup_open && old(self).sync.pending_syncs == 0 {
                final(self)@ == restarted(old(self)@) && sync_command(old(self)@.accounts, cmd)
            } else {
                final(self)@ == old(self)@ && cmd is Nothing
            },
    {
        if !popup_open && self.sync.pending_syncs == 0 {
            self.refresh_accounts()
        } else {
            AppletCommand::Nothing
        }
    }

    /// The calendars of an account arrived (or failed).
    pub fn handle_calendars_loaded(&mut self, account_id: String, result: Result<Vec<Calendar>, String>) -> (cmd: AppletCommand)
        ensures
            after_calendars(old(self)@, final(self)@, account_id@, result, cmd),
    {
        match result {
            Err(_) => {
                self.sync.finish_one();
                AppletCommand::Nothing
            },
            Ok(calendars) => {
                let first_href: Option<String> = if calendars.len() > 0 {
                    Some(calendars[0].href.clone())
                } else {
                    None
                };
                let is_first = self.config.accounts.len() > 0 && str_eq(
                    self.config.accounts[0].id.as_str(),
                    account_id.as_str(),
                );
                proof {
                    if self.config.accounts.len() > 0 {
                        assert(self@.accounts[0] == self.config.accounts@[0]@);
                    }
                }
                if is_first {
                    self.calendars = calendars;
                }
                match first_href {
                    None => {
                        self.sync.finish_one();
                        AppletCommand::Nothing
                    },
                    Some(href) => {
                        let found = self.config.account_by_id(account_id.as_str());
                        match found {
                            None => {
                                self.sync.finish_one();
                                AppletCommand::Nothing
                            },
                            Some(a) => {
                                let client = client_of(a);
                                let label = a.username.clone();
                                AppletCommand::FetchEvents {
                                    account_id,
                                    account_label: label,
                                    calendar_href: href,
                                    client,
                                }
                            },
                        }
                    },
                }
            },
        }
    }
}


impl CalDavApplet {
    /// The events of an account arrived (or failed).
    pub fn handle_events_loaded(
        &mut self,
        account_id: String,
        account_label: String,
        result: Result<Vec<CalendarEvent>, String>,
    )
        requires
            applet_ok(old(self)@),
            result matches Ok(v) ==> forall|i: int| 0 <= i < v@.len() ==> event_times_ok(#[trigger] v@[i]@),
        ensures
            after_events(old(self)@, final(self)@, account_id@, account_label@, result),
            applet_ok(final(self)@),
    {
        match result {
            Err(_) => {
                self.sync.finish_one();
            },
            Ok(incoming) => {
                let mut all: Vec<AppletEvent> = Vec::new();
                std::mem::swap(&mut all, &mut self.events);
                let ghost before = applet_event_views(all@);
                let ghost orig = incoming@;
                let ghost id = account_id@;
                let ghost label = account_label@;
                let mut rest = incoming;
                let ghost mut done: int = 0;
                proof {
                    assert(orig.take(0) =~= Seq::<CalendarEvent>::empty());
                    assert(applet_event_views(all@) =~= before + tagged(id, label, event_views(orig.take(0))));
                    assert forall|i: int| 0 <= i < all@.len() implies event_times_ok(#[trigger] all@[i].event@) by {
                        assert(before[i].event == all@[i].event@);
                    }
                }
                while rest.len() > 0
                    invariant
                        0 <= done <= orig.len(),
                        rest@ == orig.skip(done),
                        id == account_id@,
                        label == account_label@,
                        applet_event_views(all@) == before + tagged(id, label, event_views(orig.take(done))),
                        forall|i: int| 0 <= i < orig.len() ==> event_times_ok(#[trigger] orig[i]@),
                        forall|i: int| 0 <= i < all@.len() ==> event_times_ok(#[trigger] all@[i].event@),
                    decreases rest@.len(),
                {
                    let e = rest.remove(0);
                    let item = AppletEvent { account_id: account_id.clone(), label: account_label.clone(), event: e };
                    let ghost prev = all@;
                    all.push(item);
                    proof {
                        assert(e == orig[done]);
                        assert(event_times_ok(orig[done]@));
                        assert(orig.take(done + 1) =~= orig.take(done).push(orig[done]));
                        assert(event_views(orig.take(done + 1)) =~= event_views(orig.take(done)).push(e@));
                        assert(tagged(id, label, event_views(orig.take(done + 1))) =~= tagged(
                            id,
                            label,
                            event_views(orig.take(done)),
                        ).push(item@));
                        assert(applet_event_views(all@) =~= applet_event_views(prev).push(item@));
                        assert(rest@ =~= orig.skip(done + 1));
                        done = done + 1;
                    }
                }
                proof {
                    assert(orig.take(done) =~= orig);
                }
                self.sync.finish_one();
                if self.sync.pending_syncs == 0 {
                    let ghost unsorted = all@;
                    let sorted = sort_by_start_time(all);
                    proof {
                        let f = |e: AppletEvent| e@;
                        assert forall|x: AppletEvent| #[trigger] view_start()(f(x)) == start_of::<AppletEvent>()(x) by {}
                        lemma_sort_by_map(unsorted, f, start_of::<AppletEvent>(), view_start());
                        assert(applet_event_views(sorted@) =~= sort_by(unsorted, start_of::<AppletEvent>()).map_values(f));
                        assert(unsorted.map_values(f) =~= applet_event_views(unsorted));
                        let views = applet_event_views(unsorted);
                        lemma_sort_by_members(views, view_start());
                        assert forall|i: int| 0 <= i < sort_by(views, view_start()).len() implies event_times_ok(
                            #[trigger] sort_by(views, view_start())[i].event,
                        ) by {
                            let x = sort_by(views, view_start())[i];
                            assert(views.contains(x));
                            let j = choose|j: int| 0 <= j < views.len() && views[j] == x;
                            assert(event_times_ok(unsorted[j].event@));
                        }
                    }
                    self.events = sorted;
                } else {
                    self.events = all;
                }
            },
        }
    }

    /// A day of the shown month was chosen.
    pub fn handle_day_selected(&mut self, day: u32)
        requires
            applet_ok(old(self)@),
        ensures
            after_day_selected(old(self)@, final(self)@, day),
            applet_ok(final(self)@),
    {
        self.calendar.select_day(day);
        self.form.visible = false;
        self.form.editing_event = None;
        self.form.error = None;
    }

    /// An event of the list was chosen for editing.
    pub fn handle_edit_event(&mut self, index: usize)
        requires
            applet_ok(old(self)@),
        ensures
            after_edit(old(self)@, final(self)@, index),
            applet_ok(final(self)@),
    {
        if index < self.events.len() {
            assert(event_times_ok(self@.events[index as int].event));
            if let Some(start) = self.events[index].event.start {
                let local = local_from_utc(&start);
                self.calendar.selected_date = local.date;
            }
            self.form.begin_edit(&self.events[index]);
        }
    }

    /// The add button was pressed.
    pub fn toggle_add_form(&mut self)
        requires
            applet_ok(old(self)@),
        ensures
            after_toggle(old(self)@, final(self)@),
            applet_ok(final(self)@),
    {
        if self.form.visible && !self.form.is_editing() {
            self.form.visible = false;
            self.form.error = None;
        } else {
            self.form.begin_new_event(self.calendar.selected_date);
        }
    }

    /// The form was cancelled: it closes and is refilled for the selected day.
    pub fn cancel_form(&mut self)
        requires
            applet_ok(old(self)@),
        ensures
            final(self)@ == (AppletModel { form: fresh_form(old(self)@.viewport.selected_date, false), ..old(self)@ }),
            applet_ok(final(self)@),
    {
        self.form.cancel(self.calendar.selected_date);
    }
}


impl CalDavApplet {
    /// Saves the form once its start and end have been read.
    pub fn submit_parsed(
        &mut self,
        start: Result<LocalDateTime, String>,
        end: Result<LocalDateTime, String>,
    ) -> (cmd: AppletCommand)
        requires
            applet_ok(old(self)@),
        ensures
            after_submit_parsed(old(self)@, final(self)@, time_result(start), time_result(end), cmd),
            applet_ok(final(self)@),
    {
        let s = match start {
            Ok(s) => s,
            Err(e) => {
                self.form.error = Some(e);
                return AppletCommand::Nothing;
            },
        };
        let t = match end {
            Ok(t) => t,
            Err(e) => {
                self.form.error = Some(e);
                return AppletCommand::Nothing;
            },
        };
        if !stamp_before(&s.utc, &t.utc) {
            self.form.error = Some(END_NOT_AFTER_START.to_owned());
            return AppletCommand::Nothing;
        }
        let draft = EventDraft {
            title: self.form.title.clone(),
            start: s,
            end: t,
            location: self.form.location.clone(),
            description: self.form.description.clone(),
            reminder: self.form.parsed_reminder_minutes(),
        };
        match &self.form.editing_event {
            Some(ed) => {
                let event_href = ed.event_href.clone();
                let etag = clone_opt(&ed.event_etag);
                let uid = ed.uid.clone();
                let client = match self.config.account_by_id(ed.account_id.as_str()) {
                    Some(a) => client_of(a),
                    None => {
                        self.form.error = Some(ACCOUNT_NOT_FOUND.to_owned());
                        return AppletCommand::Nothing;
                    },
                };
                self.form.is_submitting = true;
                self.form.error = None;
                AppletCommand::UpdateEvent { client, event_href, etag, uid, draft }
            },
            None => {
                if self.config.accounts.len() == 0 {
                    self.form.error = Some(NO_ACCOUNT.to_owned());
                    return AppletCommand::Nothing;
                }
                if self.calendars.len() == 0 {
                    self.form.error = Some(NO_CALENDAR.to_owned());
                    return AppletCommand::Nothing;
                }
                let client = client_of(&self.config.accounts[0]);
                let calendar_href = self.calendars[0].href.clone();
                self.form.is_submitting = true;
                self.form.error = None;
                AppletCommand::CreateEvent { client, calendar_href, draft }
            },
        }
    }

    /// Saves the form: its start and end are read in local time, then
    /// [`CalDavApplet::submit_parsed`] decides.
    pub fn submit_event(&mut self) -> (cmd: AppletCommand)
        requires
            applet_ok(old(self)@),
        ensures
            after_submit(old(self)@, final(self)@, cmd),
            applet_ok(final(self)@),
    {
        if self.form.is_submitting {
            return AppletCommand::Nothing;
        }
        let title = chars_of(self.form.title.as_str());
        let trimmed = trim_ws_exec(title.as_slice());
        if trimmed.len() == 0 {
            self.form.error = Some(TITLE_REQUIRED.to_owned());
            return AppletCommand::Nothing;
        }
        let start = parse_local_datetime(self.form.start_date.as_str(), self.form.start_time.as_str());
        let end = parse_local_datetime(self.form.end_date.as_str(), self.form.end_time.as_str());
        let ghost o = self@;
        let cmd = self.submit_parsed(start, end);
        assert(local_parse(o.form.start_date, o.form.start_time, time_result(start)));
        assert(local_parse(o.form.end_date, o.form.end_time, time_result(end)));
        cmd
    }

    /// Deletes the edited event.
    pub fn delete_editing_event(&mut self) -> (cmd: AppletCommand)
        requires
            applet_ok(old(self)@),
        ensures
            after_delete(old(self)@, final(self)@, cmd),
            applet_ok(final(self)@),
    {
        if self.form.is_submitting {
            return AppletCommand::Nothing;
        }
        match &self.form.editing_event {
            None => AppletCommand::Nothing,
            Some(ed) => {
                let event_href = ed.event_href.clone();
                let etag = clone_opt(&ed.event_etag);
                let client = match self.config.account_by_id(ed.account_id.as_str()) {
                    Some(a) => client_of(a),
                    None => {
                        self.form.error = Some(ACCOUNT_NOT_FOUND.to_owned());
                        return AppletCommand::Nothing;
                    },
                };
                self.form.is_submitting = true;
                self.form.error = None;
                AppletCommand::DeleteEvent { client, event_href, etag }
            },
        }
    }

    /// A create, update or delete finished.
    pub fn finish_event_mutation(&mut self, result: Result<(), String>) -> (cmd: AppletCommand)
        requires
            applet_ok(old(self)@),
        ensures
            after_mutation(old(self)@, final(self)@, result, cmd),
            applet_ok(final(self)@),
    {
        match result {
            Ok(()) => {
                self.form.cancel(self.calendar.selected_date);
                self.refresh_accounts()
            },
            Err(e) => {
                self.form.is_submitting = false;
                self.form.error = Some(e);
                AppletCommand::Nothing
            },
        }
    }
}


impl CalDavApplet {
    /// Answers a message.
    pub fn update(&mut self, message: Message) -> (cmd: AppletCommand)
        requires
            applet_ok(old(self)@),
            message is PrevMonth && old(self).calendar.month == 1 ==> old(self).calendar.year > i32::MIN,
            message is NextMonth && old(self).calendar.month == 12 ==> old(self).calendar.year < i32::MAX,
            message matches Message::EventsLoaded { result: Ok(v), .. } ==> forall|i: int|
                0 <= i < v@.len() ==> event_times_ok(#[trigger] v@[i]@),
        ensures
            applet_ok(final(self)@),
            message matches Message::SyncTick { popup_open } ==> if !popup_open && old(self).sync.pending_syncs
                == 0 {
                final(self)@ == restarted(old(self)@) && sync_command(old(self)@.accounts, cmd)
            } else {
                final(self)@ == old(self)@ && cmd is Nothing
            },
            message matches Message::CalendarsLoaded { account_id, result } ==> after_calendars(
                old(self)@,
                final(self)@,
                account_id@,
                result,
                cmd,
            ),
            message matches Message::EventsLoaded { account_id, account_label, result } ==> after_events(
                old(self)@,
                final(self)@,
                account_id@,
                account_label@,
                result,
            ) && cmd is Nothing,
            message is PrevMonth ==> final(self)@ == moved_to(
                old(self)@,
                month_before(old(self).calendar.year as int, old(self).calendar.month as int),
            ) && cmd is Nothing,
            message is NextMonth ==> final(self)@ == moved_to(
                old(self)@,
                month_after(old(self).calendar.year as int, old(self).calendar.month as int),
            ) && cmd is Nothing,
            message matches Message::SelectDay(day) ==> after_day_selected(old(self)@, final(self)@, day)
                && cmd is Nothing,
            message matches Message::EditEvent(index) ==> after_edit(old(self)@, final(self)@, index)
                && cmd is Nothing,
            message is ToggleAddForm ==> after_toggle(old(self)@, final(self)@) && cmd is Nothing,
            message is CancelForm ==> final(self)@ == (AppletModel {
                form: fresh_form(old(self)@.viewport.selected_date, false),
                ..old(self)@
            }) && cmd is Nothing,
            message matches Message::FormTitleChanged(v) ==> final(self)@ == (AppletModel {
                form: EventFormView { title: v@, ..old(self)@.form },
                ..old(self)@
            }) && cmd is Nothing,
            message matches Message::FormStartDateChanged(v) ==> final(self)@ == (AppletModel {
                form: EventFormView { start_date: v@, ..old(self)@.form },
                ..old(self)@
            }) && cmd is Nothing,
            message matches Message::FormStartTimeChanged(v) ==> final(self)@ == (AppletModel {
                form: EventFormView { start_time: v@, ..old(self)@.form },
                ..old(self)@
            }) && cmd is Nothing,
            message matches Message::FormEndDateChanged(v) ==> final(self)@ == (AppletModel {
                form: EventFormView { end_date: v@, ..old(self)@.form },
                ..old(self)@
            }) && cmd is Nothing,
            message matches Message::FormEndTimeChanged(v) ==> final(self)@ == (AppletModel {
                form: EventFormView { end_time: v@, ..old(self)@.form },
                ..old(self)@
            }) && cmd is Nothing,
            message matches Message::FormLocationChanged(v) ==> final(self)@ == (AppletModel {
                form: EventFormView { location: v@, ..old(self)@.form },
                ..old(self)@
            }) && cmd is Nothing,
            message matches Message::FormDescriptionChanged(v) ==> final(self)@ == (AppletModel {
                form: EventFormView { description: v@, ..old(self)@.form },
                ..old(self)@
            }) && cmd is Nothing,
            message matches Message::FormReminderChanged(v) ==> final(self)@ == (AppletModel {
                form: EventFormView { reminder: v@, ..old(self)@.form },
                ..old(self)@
            }) && cmd is Nothing,
            message is SubmitEvent ==> after_submit(old(self)@, final(self)@, cmd),
            message is DeleteEditingEvent ==> after_delete(old(self)@, final(self)@, cmd),
            message matches Message::EventCreated(r) ==> after_mutation(old(self)@, final(self)@, r, cmd),
            message matches Message::EventUpdated(r) ==> after_mutation(old(self)@, final(self)@, r, cmd),
            message matches Message::EventDeleted(r) ==> after_mutation(old(self)@, final(self)@, r, cmd),
    {
        match message {
            Message::SyncTick { popup_open } => self.handle_sync_tick(popup_open),
            Message::CalendarsLoaded { account_id, result } => self.handle_calendars_loaded(account_id, result),
            Message::EventsLoaded { account_id, account_label, result } => {
                self.handle_events_loaded(account_id, account_label, result);
                AppletCommand::Nothing
            },
            Message::PrevMonth => {
                self.calendar.show_previous_month();
                AppletCommand::Nothing
            },
            Message::NextMonth => {
                self.calendar.show_next_month();
                AppletCommand::Nothing
            },
            Message::SelectDay(day) => {
                self.handle_day_selected(day);
                AppletCommand::Nothing
            },
            Message::EditEvent(index) => {
                self.handle_edit_event(index);
                AppletCommand::Nothing
            },
            Message::ToggleAddForm => {
                self.toggle_add_form();
                AppletCommand::Nothing
            },
            Message::CancelForm => {
                self.cancel_form();
                AppletCommand::Nothing
            },
            Message::FormTitleChanged(v) => {
                self.form.title = v;
                AppletCommand::Nothing
            },
            Message::FormStartDateChanged(v) => {
                self.form.start_date = v;
                AppletCommand::Nothing
            },
            Message::FormStartTimeChanged(v) => {
                self.form.start_time = v;
                AppletCommand::Nothing
            },
            Message::FormEndDateChanged(v) => {
                self.form.end_date = v;
                AppletCommand::Nothing
            },
            Message::FormEndTimeChanged(v) => {
                self.form.end_time = v;
                AppletCommand::Nothing
            },
            Message::FormLocationChanged(v) => {
                self.form.location = v;
                AppletCommand::Nothing
            },
            Message::FormDescriptionChanged(v) => {
                self.form.description = v;
                AppletCommand::Nothing
            },
            Message::FormReminderChanged(v) => {
                self.form.reminder = v;
                AppletCommand::Nothing
            },
            Message::SubmitEvent => self.submit_event(),
            Message::DeleteEditingEvent => self.delete_editing_event(),
            Message::EventCreated(r) => self.finish_event_mutation(r),
            Message::EventUpdated(r) => self.finish_event_mutation(r),
            Message::EventDeleted(r) => self.finish_event_mutation(r),
        }
    }
}


/// Whether an event's times can be read in local time, as the applet needs
/// of the events it keeps ([`event_times_ok`]).
pub fn event_times_fit(event: &CalendarEvent) -> (r: bool)
    ensures
        r == event_times_ok(event@),
{
    let end_ok = match &event.end {
        Some(t) => safe_range_ok(t),
        None => true,
    };
    let start_ok = match &event.start {
        Some(s) => if safe_range_ok(s) {
            let end = effective_end_exec(s, event.end);
            safe_range_ok(&end)
        } else {
            false
        },
        None => true,
    };
    end_ok && start_ok
}

/// Whether every event of a list passes [`event_times_fit`].
pub fn all_event_times_fit(events: &Vec<CalendarEvent>) -> (r: bool)
    ensures
        r == forall|i: int| 0 <= i < events@.len() ==> event_times_ok(#[trigger] events@[i]@),
{
    let mut i: usize = 0;
    while i < events.len()
        invariant
            i <= events@.len(),
            forall|j: int| 0 <= j < i ==> event_times_ok(#[trigger] events@[j]@),
        decreases events@.len() - i,
    {
        if !event_times_fit(&events[i]) {
            return false;
        }
        i += 1;
    }
    true
}

/// The positions, in order, at which `t` holds `true`.
pub open spec fn true_positions(t: Seq<bool>) -> Seq<usize>
    decreases t.len(),
{
    if t.len() == 0 {
        Seq::empty()
    } else if t.last() {
        true_positions(t.drop_last()).push((t.len() - 1) as usize)
    } else {
        true_positions(t.drop_last())
    }
}

/// For each event, whether it touches the local day `date`, given how the
/// local clock shows each event's start and the bounds of the day.
pub open spec fn day_touches(
    events: Seq<AppletEventView>,
    date: CivilDate,
    locals: Seq<Stamp>,
    b: Option<(Stamp, Stamp)>,
) -> Seq<bool> {
    Seq::new(events.len(), |i: int| event_overlap(events[i].event, date, locals[i].date, b))
}

/// `locals` can be how the local clock shows the starts of `events`.
pub open spec fn start_readings(events: Seq<AppletEventView>, locals: Seq<Stamp>) -> bool {
    &&& locals.len() == events.len()
    &&& forall|i: int|
        0 <= i < locals.len() ==> (events[i].event.start matches Some(s) ==> local_reading(
            #[trigger] locals[i],
            s,
        ))
}

impl CalDavApplet {
    /// The positions, in list order, of the events that touch the selected
    /// day: [`true_positions`] of [`day_touches`], with one set of bounds for
    /// the selected day and one local reading of each event's start, as the
    /// machine's time zone gives them (each less than a day off UTC); an
    /// event without a start touches no day.
    pub fn selected_day_events(&self) -> (r: Vec<usize>)
        requires
            applet_ok(self@),
        ensures
            exists|locals: Seq<Stamp>, b: Option<(Stamp, Stamp)>|
                #![trigger day_touches(self@.events, self@.viewport.selected_date, locals, b)]
                start_readings(self@.events, locals) && bounds_fit(self@.viewport.selected_date, b)
                    && r@ == true_positions(
                    day_touches(self@.events, self@.viewport.selected_date, locals, b),
                ),
    {
        let date = self.calendar.selected_date;
        let bounds = local_day_bounds(&date);
        let mut out: Vec<usize> = Vec::new();
        let ghost mut locals: Seq<Stamp> = Seq::empty();
        let mut i: usize = 0;
        while i < self.events.len()
            invariant
                i <= self.events@.len(),
                applet_ok(self@),
                date == self@.viewport.selected_date,
                locals.len() == i,
                forall|k: int|
                    0 <= k < i ==> (self@.events[k].event.start matches Some(s) ==> local_reading(
                        #[trigger] locals[k],
                        s,
                    )),
                out@ == true_positions(
                    day_touches(self@.events.take(i as int), date, locals, bounds),
                ),
            decreases self.events@.len() - i,
        {
            assert(event_times_ok(self@.events[i as int].event));
            let event = &self.events[i].event;
            let t;
            let ghost mut l: Stamp = midnight(date);
            match event.start {
                Some(s) => {
                    let start_local = local_from_utc(&s);
                    t = event_touches(event, &date, &start_local, bounds);
                    proof {
                        l = start_local;
                    }
                },
                None => {
                    t = false;
                },
            }
            if t {
                out.push(i);
            }
            proof {
                let next = locals.push(l);
                let before = day_touches(self@.events.take(i as int), date, locals, bounds);
                let after = day_touches(self@.events.take(i + 1), date, next, bounds);
                assert(after.drop_last() =~= before);
                assert(after.last() == t);
                locals = next;
            }
            i += 1;
        }
        assert(self@.events.take(i as int) =~= self@.events);
        out
    }
}

// ----------------------------------------------------------------------------
// What the popup shows
// ----------------------------------------------------------------------------

/// A whole number as `{}` writes it.
pub open spec fn int_text(n: int) -> Seq<char> {
    if n < 0 { seq!['-'] + decimal((-n) as nat) } else { decimal(n as nat) }
}

fn push_int(out: &mut Vec<char>, n: i32)
    ensures
        final(out)@ == old(out)@ + int_text(n as int),
{
    if n < 0 {
        out.push('-');
        let magnitude: i64 = -(n as i64);
        push_decimal(out, magnitude as u64);
        assert(out@ =~= old(out)@ + int_text(n as int));
    } else {
        push_decimal(out, n as u64);
    }
}

/// The popup's heading: the shown month's name and its year.
pub open spec fn header_text(v: CalendarViewport) -> Seq<char> {
    month_name_text(
        match date_of(v.year, v.month, 1) {
            Some(d) => d,
            None => epoch_date(),
        }.month,
    ) + " "@ + int_text(v.year as int)
}

/// `%-d %b %Y`.
pub open spec fn day_month_year_text(d: CivilDate) -> Seq<char> {
    decimal(d.day as nat) + " "@ + month_abbrev_text(d.month) + " "@ + year_text(d.year as int)
}

/// The form's heading: whether it edits or adds an event, and for which day.
pub open spec fn form_heading_text(editing: bool, d: CivilDate) -> Seq<char> {
    (if editing { "Edit event — "@ } else { "New event — "@ }) + day_month_year_text(d)
}

/// What the event list says instead of listing events: that events are
/// loading, that no account is configured, or that the day has no events.
pub open spec fn list_notice_text(loading: bool, accounts: nat, day_events: nat) -> Option<Seq<char>> {
    if loading {
        Some("Loading events..."@)
    } else if accounts == 0 {
        Some("No accounts configured"@)
    } else if day_events == 0 {
        Some("No events this day"@)
    } else {
        None
    }
}

/// How a day button is drawn.
#[derive(Clone, Copy, Debug, PartialEq, Eq, Structural)]
pub enum DayStyle {
    Selected,
    Today,
    Plain,
}

/// The selected day stands out most, then today.
pub fn day_style(is_selected: bool, is_today: bool) -> (r: DayStyle)
    ensures
        r == if is_selected {
            DayStyle::Selected
        } else if is_today {
            DayStyle::Today
        } else {
            DayStyle::Plain
        },
{
    if is_selected {
        DayStyle::Selected
    } else if is_today {
        DayStyle::Today
    } else {
        DayStyle::Plain
    }
}

/// `%a, %-d %b %H:%M`, the panel button's text.
pub open spec fn panel_label_text(t: Stamp) -> Seq<char> {
    weekday_abbrev_text(weekday_number(t.date) as u32) + ", "@ + decimal(t.date.day as nat) + " "@
        + month_abbrev_text(t.date.month) + " "@ + clock_text(t)
}

/// The panel button's text for the local time `t`.
pub fn panel_label(t: &Stamp) -> (r: String)
    requires
        stamp_valid(*t),
    ensures
        r@ == panel_label_text(*t),
{
    let w = weekday_from_sunday(&t.date);
    let mut out: Vec<char> = Vec::new();
    push_str_chars(&mut out, weekday_abbrev(w));
    push_str_chars(&mut out, ", ");
    push_decimal(&mut out, t.date.day as u64);
    push_str_chars(&mut out, " ");
    push_str_chars(&mut out, month_abbrev(t.date.month));
    push_str_chars(&mut out, " ");
    let c = clock_string(t);
    push_str_chars(&mut out, c.as_str());
    assert(out@ =~= panel_label_text(*t));
    string_of(out.as_slice())
}

/// The month grid of the popup: its first day, the day shown in each cell,
/// and the marker of each day.
pub struct MonthGrid {
    pub first: CivilDate,
    pub cells: Vec<Option<u32>>,
    pub visuals: Vec<DayVisual>,
}

impl CalDavApplet {
    /// The popup's heading.
    pub fn header_title(&self) -> (r: String)
        ensures
            r@ == header_text(self.calendar),
    {
        let mut out: Vec<char> = Vec::new();
        let name = self.calendar.month_name();
        push_str_chars(&mut out, name.as_str());
        push_str_chars(&mut out, " ");
        push_int(&mut out, self.calendar.year);
        assert(out@ =~= header_text(self.calendar));
        string_of(out.as_slice())
    }

    /// The form's heading.
    pub fn form_heading(&self) -> (r: String)
        requires
            applet_ok(self@),
        ensures
            r@ == form_heading_text(self.form.editing_event is Some, self.calendar.selected_date),
    {
        let d = self.calendar.selected_date;
        let mut out: Vec<char> = Vec::new();
        if self.form.is_editing() {
            push_str_chars(&mut out, "Edit event — ");
        } else {
            push_str_chars(&mut out, "New event — ");
        }
        push_decimal(&mut out, d.day as u64);
        push_str_chars(&mut out, " ");
        push_str_chars(&mut out, month_abbrev(d.month));
        push_str_chars(&mut out, " ");
        push_year(&mut out, d.year);
        assert(out@ =~= form_heading_text(self.form.editing_event is Some, d));
        string_of(out.as_slice())
    }

    /// What the event list shows instead of events, given how many events
    /// the selected day has.
    pub fn list_notice(&self, day_events: usize) -> (r: Option<&'static str>)
        ensures
            match r {
                Some(s) => list_notice_text(self.sync.loading, self@.accounts.len(), day_events as nat)
                    == Some(s@),
                None => list_notice_text(self.sync.loading, self@.accounts.len(), day_events as nat)
                    is None,
            },
    {
        if self.sync.loading {
            Some("Loading events...")
        } else if self.config.accounts.len() == 0 {
            Some("No accounts configured")
        } else if day_events == 0 {
            Some("No events this day")
        } else {
            None
        }
    }

    /// The month grid of the shown month, with the markers of the events in
    /// the machine's local time (see [`month_day_visuals`]).
    pub fn month_grid(&self) -> (r: MonthGrid)
        requires
            applet_ok(self@),
            self.calendar.month == 12 ==> self.calendar.year < i32::MAX,
        ensures
            r.first == match date_of(self.calendar.year, self.calendar.month, 1) {
                Some(d) => d,
                None => epoch_date(),
            },
            r.cells@.len() == grid_len(
                weekday_number(r.first),
                days_in_month_spec(self.calendar.year, self.calendar.month) as int,
            ),
            forall|i: int| 0 <= i < r.cells@.len() ==> #[trigger] r.cells@[i] == grid_cell(
                weekday_number(r.first),
                days_in_month_spec(self.calendar.year, self.calendar.month) as int,
                i,
            ),
            r.visuals@.len() == days_in_month_spec(self.calendar.year, self.calendar.month),
    {
        let first = self.calendar.first_of_month();
        let weekday = weekday_from_sunday(&first);
        let days = days_in_month(self.calendar.year, self.calendar.month);
        assert forall|i: int| 0 <= i < self.events@.len() implies event_times_ok(
            #[trigger] self.events@[i].event@,
        ) by {
            assert(self@.events[i].event == self.events@[i].event@);
        }
        let visuals = month_day_visuals(&first, days, &self.events);
        let cells = month_grid_cells(weekday, days);
        MonthGrid { first, cells, visuals }
    }
}

} // verus!
