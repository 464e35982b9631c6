//! Bookings: what is sent for one, what the server answers, and bookings for many days at once.

use crate::calendar;
use crate::calendar::{
    compute_total_hours, format_day_label, is_within_workday, parse_ui_time, write_date,
    write_time, Date, Time,
};
use crate::fields;
use crate::fields::{set_optional_field, FieldMap};
use crate::form::{BookingFieldNamesView, InsertForm, InsertFormView};
use crate::json;
use crate::json::{
    extract_detail_messages, has_forceable_validation, text_under, truthy, Json, JsonView,
};
use crate::lookup::{LookupItem, LookupItemView};
use crate::text;
use crate::text::{is_blank, join_texts};
use vstd::prelude::*;
use vstd::string::StringExecFns;

verus! {

/// A booking as the user asks for it.
#[derive(Debug)]
pub struct BookingSubmission {
    pub employee_id: String,
    pub client_id: String,
    pub activity_id: String,
    pub state_id: String,
    pub entry_type: String,
    pub start_date: String,
    pub end_date: String,
    pub start_time: String,
    pub end_time: String,
    pub total_hours: String,
    pub description: String,
    pub note: String,
    pub productivity_json: String,
}

/// The content of `BookingSubmission`.
#[verifier::ext_equal]
pub struct BookingSubmissionView {
    pub employee_id: Seq<char>,
    pub client_id: Seq<char>,
    pub activity_id: Seq<char>,
    pub state_id: Seq<char>,
    pub entry_type: Seq<char>,
    pub start_date: Seq<char>,
    pub end_date: Seq<char>,
    pub start_time: Seq<char>,
    pub end_time: Seq<char>,
    pub total_hours: Seq<char>,
    pub description: Seq<char>,
    pub note: Seq<char>,
    pub productivity_json: Seq<char>,
}

impl DeepView for BookingSubmission {
    type V = BookingSubmissionView;

    open spec fn deep_view(&self) -> BookingSubmissionView {
        BookingSubmissionView {
            employee_id: self.employee_id@,
            client_id: self.client_id@,
            activity_id: self.activity_id@,
            state_id: self.state_id@,
            entry_type: self.entry_type@,
            start_date: self.start_date@,
            end_date: self.end_date@,
            start_time: self.start_time@,
            end_time: self.end_time@,
            total_hours: self.total_hours@,
            description: self.description@,
            note: self.note@,
            productivity_json: self.productivity_json@,
        }
    }
}

impl Clone for BookingSubmission {
    fn clone(&self) -> (r: BookingSubmission)
        ensures
            r.deep_view() == self.deep_view(),
    {
        BookingSubmission {
            employee_id: self.employee_id.clone(),
            client_id: self.client_id.clone(),
            activity_id: self.activity_id.clone(),
            state_id: self.state_id.clone(),
            entry_type: self.entry_type.clone(),
            start_date: self.start_date.clone(),
            end_date: self.end_date.clone(),
            start_time: self.start_time.clone(),
            end_time: self.end_time.clone(),
            total_hours: self.total_hours.clone(),
            description: self.description.clone(),
            note: self.note.clone(),
            productivity_json: self.productivity_json.clone(),
        }
    }
}

impl BookingSubmissionView {
    /// Nothing known.
    pub open spec fn empty() -> BookingSubmissionView {
        BookingSubmissionView {
            employee_id: Seq::empty(),
            client_id: Seq::empty(),
            activity_id: Seq::empty(),
            state_id: Seq::empty(),
            entry_type: Seq::empty(),
            start_date: Seq::empty(),
            end_date: Seq::empty(),
            start_time: Seq::empty(),
            end_time: Seq::empty(),
            total_hours: Seq::empty(),
            description: Seq::empty(),
            note: Seq::empty(),
            productivity_json: Seq::empty(),
        }
    }
}

impl Default for BookingSubmission {
    fn default() -> (r: BookingSubmission)
        ensures
            r.deep_view() == BookingSubmissionView::empty(),
    {
        let r = BookingSubmission {
            employee_id: String::new(),
            client_id: String::new(),
            activity_id: String::new(),
            state_id: String::new(),
            entry_type: String::new(),
            start_date: String::new(),
            end_date: String::new(),
            start_time: String::new(),
            end_time: String::new(),
            total_hours: String::new(),
            description: String::new(),
            note: String::new(),
            productivity_json: String::new(),
        };
        assert(r.deep_view() =~= BookingSubmissionView::empty());
        r
    }
}

/// What became of a booking that the server did not refuse for good.
#[derive(Debug)]
pub enum SubmitOutcome {
    Success(String),
    NeedsForce(Vec<String>),
}

/// The content of `SubmitOutcome`.
#[verifier::ext_equal]
pub enum SubmitOutcomeView {
    Success(Seq<char>),
    NeedsForce(Seq<Seq<char>>),
}

impl DeepView for SubmitOutcome {
    type V = SubmitOutcomeView;

    open spec fn deep_view(&self) -> SubmitOutcomeView {
        match self {
            SubmitOutcome::Success(message) => SubmitOutcomeView::Success(message@),
            SubmitOutcome::NeedsForce(messages) => SubmitOutcomeView::NeedsForce(
                messages.deep_view(),
            ),
        }
    }
}

impl Clone for SubmitOutcome {
    fn clone(&self) -> (r: SubmitOutcome)
        ensures
            r.deep_view() == self.deep_view(),
    {
        match self {
            SubmitOutcome::Success(message) => SubmitOutcome::Success(message.clone()),
            SubmitOutcome::NeedsForce(messages) => {
                let copied = messages.clone();
                assert(copied.deep_view() =~= messages.deep_view());
                SubmitOutcome::NeedsForce(copied)
            },
        }
    }
}

/// What became of one booking of many.
#[derive(Debug)]
pub struct BatchBookingResult {
    pub date: String,
    pub start_time: String,
    pub end_time: String,
    pub result: Result<String, String>,
}

/// The content of `BatchBookingResult`.
#[verifier::ext_equal]
pub struct BatchBookingResultView {
    pub date: Seq<char>,
    pub start_time: Seq<char>,
    pub end_time: Seq<char>,
    pub result: Result<Seq<char>, Seq<char>>,
}

impl DeepView for BatchBookingResult {
    type V = BatchBookingResultView;

    open spec fn deep_view(&self) -> BatchBookingResultView {
        BatchBookingResultView {
            date: self.date@,
            start_time: self.start_time@,
            end_time: self.end_time@,
            result: text::outcome(self.result),
        }
    }
}

impl Clone for BatchBookingResult {
    fn clone(&self) -> (r: BatchBookingResult)
        ensures
            r.deep_view() == self.deep_view(),
    {
        BatchBookingResult {
            date: self.date.clone(),
            start_time: self.start_time.clone(),
            end_time: self.end_time.clone(),
            result: match &self.result {
                Ok(message) => Ok(message.clone()),
                Err(message) => Err(message.clone()),
            },
        }
    }
}

/// What is to be booked for one day where it differs from the other days.
#[derive(Debug)]
pub struct DailyOverride {
    pub date: String,
    pub enabled: bool,
    pub client_id: String,
    pub morning_start_time: String,
    pub morning_end_time: String,
    pub afternoon_start_time: String,
    pub afternoon_end_time: String,
}

/// The content of `DailyOverride`.
#[verifier::ext_equal]
pub struct DailyOverrideView {
    pub date: Seq<char>,
    pub enabled: bool,
    pub client_id: Seq<char>,
    pub morning_start_time: Seq<char>,
    pub morning_end_time: Seq<char>,
    pub afternoon_start_time: Seq<char>,
    pub afternoon_end_time: Seq<char>,
}

impl DeepView for DailyOverride {
    type V = DailyOverrideView;

    open spec fn deep_view(&self) -> DailyOverrideView {
        DailyOverrideView {
            date: self.date@,
            enabled: self.enabled,
            client_id: self.client_id@,
            morning_start_time: self.morning_start_time@,
            morning_end_time: self.morning_end_time@,
            afternoon_start_time: self.afternoon_start_time@,
            afternoon_end_time: self.afternoon_end_time@,
        }
    }
}

impl Clone for DailyOverride {
    fn clone(&self) -> (r: DailyOverride)
        ensures
            r.deep_view() == self.deep_view(),
    {
        DailyOverride {
            date: self.date.clone(),
            enabled: self.enabled,
            client_id: self.client_id.clone(),
            morning_start_time: self.morning_start_time.clone(),
            morning_end_time: self.morning_end_time.clone(),
            afternoon_start_time: self.afternoon_start_time.clone(),
            afternoon_end_time: self.afternoon_end_time.clone(),
        }
    }
}

/// Bookings for many days as the user prepares them.
#[derive(Debug)]
pub struct BatchBookingDraft {
    pub range_start: String,
    pub range_end: String,
    pub default_morning_start_time: String,
    pub default_morning_end_time: String,
    pub default_afternoon_start_time: String,
    pub default_afternoon_end_time: String,
    pub selected_workplace: Option<LookupItem>,
    pub day_overrides: Vec<DailyOverride>,
}

/// The content of `BatchBookingDraft`.
#[verifier::ext_equal]
pub struct BatchBookingDraftView {
    pub range_start: Seq<char>,
    pub range_end: Seq<char>,
    pub default_morning_start_time: Seq<char>,
    pub default_morning_end_time: Seq<char>,
    pub default_afternoon_start_time: Seq<char>,
    pub default_afternoon_end_time: Seq<char>,
    pub selected_workplace: Option<LookupItemView>,
    pub day_overrides: Seq<DailyOverrideView>,
}

impl DeepView for BatchBookingDraft {
    type V = BatchBookingDraftView;

    open spec fn deep_view(&self) -> BatchBookingDraftView {
        BatchBookingDraftView {
            range_start: self.range_start@,
            range_end: self.range_end@,
            default_morning_start_time: self.default_morning_start_time@,
            default_morning_end_time: self.default_morning_end_time@,
            default_afternoon_start_time: self.default_afternoon_start_time@,
            default_afternoon_end_time: self.default_afternoon_end_time@,
            selected_workplace: self.selected_workplace.deep_view(),
            day_overrides: self.day_overrides.deep_view(),
        }
    }
}

/// The employee that a booking is for: the one asked for, else the one that the form is for.
pub open spec fn employee_of(form: InsertFormView, submission: BookingSubmissionView) -> Seq<char> {
    if !text::blank(submission.employee_id) {
        text::trimmed(submission.employee_id)
    } else if form.base_fields.contains_key("globals_utente_id"@) {
        form.base_fields["globals_utente_id"@]
    } else {
        Seq::empty()
    }
}

/// The day on which a booking ends: the one asked for, else the day on which it starts.
pub open spec fn end_date_of(submission: BookingSubmissionView) -> Seq<char> {
    if text::blank(submission.end_date) {
        text::trimmed(submission.start_date)
    } else {
        text::trimmed(submission.end_date)
    }
}

/// The hours of a booking: those asked for, else those between its start and its end.
pub open spec fn hours_booked(submission: BookingSubmissionView) -> Result<Seq<char>, Seq<char>> {
    if text::blank(submission.total_hours) {
        calendar::total_hours(
            submission.start_date,
            end_date_of(submission),
            submission.start_time,
            submission.end_time,
        )
    } else {
        Ok(text::trimmed(submission.total_hours))
    }
}

/// The values of a booking of `hours` hours, each with the name of the field that stands for it,
/// if there is one.
pub open spec fn entries_of(
    form: InsertFormView,
    submission: BookingSubmissionView,
    hours: Seq<char>,
    force: bool,
) -> Seq<(Option<Seq<char>>, Seq<char>)> {
    let names = form.field_names;
    seq![
        (names.employee, employee_of(form, submission)),
        (names.client, text::trimmed(submission.client_id)),
        (names.activity, text::trimmed(submission.activity_id)),
        (names.state, text::trimmed(submission.state_id)),
        (names.entry_type, text::trimmed(submission.entry_type)),
        (names.start_date, text::trimmed(submission.start_date)),
        (names.end_date, end_date_of(submission)),
        (names.start_time, text::trimmed(submission.start_time)),
        (names.end_time, text::trimmed(submission.end_time)),
        (names.total_hours, hours),
        (names.description, text::trimmed(submission.description)),
        (names.note, text::trimmed(submission.note)),
        (names.productivity, text::trimmed(submission.productivity_json)),
        (names.force, if force { "1"@ } else { ""@ }),
    ]
}

/// Fields once values are entered one after the other.
pub open spec fn with_entries(
    fields: Map<Seq<char>, Seq<char>>,
    entries: Seq<(Option<Seq<char>>, Seq<char>)>,
) -> Map<Seq<char>, Seq<char>>
    decreases entries.len(),
{
    if entries.len() == 0 {
        fields
    } else {
        let (key, value) = entries.last();
        fields::with_field(with_entries(fields, entries.drop_last()), key, value)
    }
}

/// The fields of a form once a booking of `hours` hours is entered: each value goes to the field
/// that stands for it, if there is one, and every other field keeps what the form sent with it.
/// Where one field stands for several values, the last of them counts.
pub open spec fn filled_fields(
    form: InsertFormView,
    submission: BookingSubmissionView,
    hours: Seq<char>,
    force: bool,
) -> Map<Seq<char>, Seq<char>> {
    with_entries(form.base_fields, entries_of(form, submission, hours, force))
}

/// Whether a booking is for one day, from one time to another.
pub open spec fn on_day(
    submission: BookingSubmissionView,
    date: Date,
    start: Time,
    end: Time,
) -> bool {
    &&& submission.start_date == calendar::date_text(date)
    &&& submission.end_date == calendar::date_text(date)
    &&& submission.start_time == calendar::time_text(start)
    &&& submission.end_time == calendar::time_text(end)
}

/// The fields that are sent for a booking, or the message why its hours cannot be told.
pub open spec fn sent_fields(
    form: InsertFormView,
    submission: BookingSubmissionView,
    force: bool,
) -> Result<Map<Seq<char>, Seq<char>>, Seq<char>> {
    match hours_booked(submission) {
        Err(message) => Err(message),
        Ok(hours) => Ok(filled_fields(form, submission, hours, force)),
    }
}

/// The fields of a form once a booking of `total_hours` hours is entered.
pub fn fill_fields(
    form: &InsertForm,
    submission: &BookingSubmission,
    total_hours: &str,
    force: bool,
) -> (r: FieldMap)
    ensures
        r.deep_view() == filled_fields(
            form.deep_view(),
            submission.deep_view(),
            total_hours@,
            force,
        ),
{
    let employee_id = if is_blank(submission.employee_id.as_str()) {
        match form.base_fields.get("globals_utente_id") {
            Some(id) => id.clone(),
            None => String::new(),
        }
    } else {
        submission.employee_id.as_str().trim().to_owned()
    };
    let end_date = if is_blank(submission.end_date.as_str()) {
        submission.start_date.as_str().trim().to_owned()
    } else {
        submission.end_date.as_str().trim().to_owned()
    };
    let forced = if force { "1".to_owned() } else { "".to_owned() };
    let names = &form.field_names;
    let entries = vec![
        (names.employee.clone(), employee_id),
        (names.client.clone(), submission.client_id.as_str().trim().to_owned()),
        (names.activity.clone(), submission.activity_id.as_str().trim().to_owned()),
        (names.state.clone(), submission.state_id.as_str().trim().to_owned()),
        (names.entry_type.clone(), submission.entry_type.as_str().trim().to_owned()),
        (names.start_date.clone(), submission.start_date.as_str().trim().to_owned()),
        (names.end_date.clone(), end_date),
        (names.start_time.clone(), submission.start_time.as_str().trim().to_owned()),
        (names.end_time.clone(), submission.end_time.as_str().trim().to_owned()),
        (names.total_hours.clone(), total_hours.to_owned()),
        (names.description.clone(), submission.description.as_str().trim().to_owned()),
        (names.note.clone(), submission.note.as_str().trim().to_owned()),
        (names.productivity.clone(), submission.productivity_json.as_str().trim().to_owned()),
        (names.force.clone(), forced),
    ];
    let ghost all = entries.deep_view();
    assert(all =~= entries_of(form.deep_view(), submission.deep_view(), total_hours@, force));
    let ghost start = form.base_fields.deep_view();
    let mut fields = form.base_fields.clone();
    for i in 0..entries.len()
        invariant
            all == entries.deep_view(),
            fields.deep_view() == with_entries(start, all.take(i as int)),
    {
        set_optional_field(&mut fields, entries[i].0.as_ref(), entries[i].1.as_str());
        proof {
            assert(all.take(i + 1).drop_last() =~= all.take(i as int));
            assert(all.take(i + 1).last() == entries@[i as int].deep_view());
        }
    }
    assert(all.take(all.len() as int) =~= all);
    fields
}

/// The fields that are sent for a booking, or the message why its hours cannot be told.
pub fn booking_fields(form: &InsertForm, submission: &BookingSubmission, force: bool) -> (r: Result<
    FieldMap,
    String,
>)
    ensures
        text::outcome(r) == sent_fields(form.deep_view(), submission.deep_view(), force),
{
    let end_date = if is_blank(submission.end_date.as_str()) {
        submission.start_date.as_str().trim()
    } else {
        submission.end_date.as_str().trim()
    };
    let total_hours = if is_blank(submission.total_hours.as_str()) {
        match compute_total_hours(
            submission.start_date.as_str(),
            end_date,
            submission.start_time.as_str(),
            submission.end_time.as_str(),
        ) {
            Ok(hours) => hours,
            Err(message) => return Err(message),
        }
    } else {
        submission.total_hours.as_str().trim().to_owned()
    };
    Ok(fill_fields(form, submission, total_hours.as_str(), force))
}

/// Whether a reply that reports no error holds a result that says the booking was not accepted.
pub open spec fn rejected(body: JsonView) -> bool {
    match json::member(body, "result"@) {
        Some(result) => json::member(result, "result"@) == Some(JsonView::Bool(false)),
        None => false,
    }
}

/// What a reply says of a booking. A refusal asks for a confirmation where it can be overridden
/// and was not yet.
pub open spec fn submit_reply(body: JsonView, force: bool) -> Result<SubmitOutcomeView, Seq<char>> {
    if json::counts(json::member(body, "error"@)) {
        if !force && json::forceable(body) {
            Ok(SubmitOutcomeView::NeedsForce(json::detail_messages(body)))
        } else {
            Err(text::joined(json::detail_messages(body), "\n"@))
        }
    } else if rejected(body) {
        Err(
            match json::text_of(json::member(json::member(body, "result"@)->0, "id_msg"@)) {
                Some(message) => message,
                None => "La timbratura non e' stata accettata dal server"@,
            },
        )
    } else {
        Ok(
            SubmitOutcomeView::Success(
                match json::text_of(json::member(body, "confirm"@)) {
                    Some(message) => message,
                    None => "Timbratura salvata correttamente"@,
                },
            ),
        )
    }
}

/// What a reply says of a booking.
pub fn read_submit_reply(body: &Json, force: bool) -> (r: Result<SubmitOutcome, String>)
    ensures
        text::outcome(r) == submit_reply(body.deep_view(), force),
{
    if truthy(body.get("error")) {
        let details = extract_detail_messages(body);
        if !force && has_forceable_validation(body) {
            return Ok(SubmitOutcome::NeedsForce(details));
        }
        return Err(join_texts(&details, "\n"));
    }
    if let Some(result) = body.get("result") {
        let is_valid = match result.get("result") {
            Some(Json::Bool(valid)) => *valid,
            _ => true,
        };
        if !is_valid {
            return match text_under(result, "id_msg") {
                Some(message) => Err(message.clone()),
                None => Err("La timbratura non e' stata accettata dal server".to_owned()),
            };
        }
    }
    match text_under(body, "confirm") {
        Some(message) => Ok(SubmitOutcome::Success(message.clone())),
        None => Ok(SubmitOutcome::Success("Timbratura salvata correttamente".to_owned())),
    }
}

/// What is noted of one booking of many. None of them is forced.
pub open spec fn noted(
    submission: BookingSubmissionView,
    outcome: Result<SubmitOutcomeView, Seq<char>>,
) -> BatchBookingResultView {
    BatchBookingResultView {
        date: submission.start_date,
        start_time: submission.start_time,
        end_time: submission.end_time,
        result: match outcome {
            Ok(SubmitOutcomeView::Success(message)) => Ok(message),
            Ok(SubmitOutcomeView::NeedsForce(messages)) => Err(
                "Serve conferma esplicita: "@ + text::joined(messages, " | "@),
            ),
            Err(message) => Err(message),
        },
    }
}

/// Notes what became of one booking of many.
pub fn note_result(
    submission: &BookingSubmission,
    outcome: Result<SubmitOutcome, String>,
) -> (r: BatchBookingResult)
    ensures
        r.deep_view() == noted(submission.deep_view(), text::outcome(outcome)),
{
    BatchBookingResult {
        date: submission.start_date.clone(),
        start_time: submission.start_time.clone(),
        end_time: submission.end_time.clone(),
        result: match outcome {
            Ok(SubmitOutcome::Success(message)) => Ok(message),
            Ok(SubmitOutcome::NeedsForce(messages)) => Err(
                "Serve conferma esplicita: ".to_owned().concat(
                    join_texts(&messages, " | ").as_str(),
                ),
            ),
            Err(message) => Err(message),
        },
    }
}

impl BatchBookingResultView {
    /// The line that reports the booking.
    pub open spec fn line(self) -> Seq<char> {
        calendar::day_label(self.date) + " "@ + self.start_time + "-"@ + self.end_time + ": "@ + (
        match self.result {
            Ok(message) => message,
            Err(message) => message,
        })
    }
}

impl BatchBookingResult {
    /// The line that reports the booking.
    pub fn line(&self) -> (r: String)
        ensures
            r@ == self.deep_view().line(),
    {
        let message = match &self.result {
            Ok(message) => message,
            Err(message) => message,
        };
        format_day_label(self.date.as_str()).concat(" ").concat(self.start_time.as_str()).concat(
            "-",
        ).concat(self.end_time.as_str()).concat(": ").concat(message.as_str())
    }
}

impl DailyOverride {
    /// A day that follows the defaults until it is enabled.
    pub fn new(
        date: String,
        client_id: String,
        morning_start_time: String,
        morning_end_time: String,
        afternoon_start_time: String,
        afternoon_end_time: String,
    ) -> (r: DailyOverride)
        ensures
            r == (DailyOverride {
                date,
                enabled: false,
                client_id,
                morning_start_time,
                morning_end_time,
                afternoon_start_time,
                afternoon_end_time,
            }),
    {
        DailyOverride {
            date,
            enabled: false,
            client_id,
            morning_start_time,
            morning_end_time,
            afternoon_start_time,
            afternoon_end_time,
        }
    }
}

/// The working hours that are offered at first: from nine to one and from two to six.
pub open spec fn eight_hours(draft: BatchBookingDraftView) -> BatchBookingDraftView {
    BatchBookingDraftView {
        default_morning_start_time: "09:00"@,
        default_morning_end_time: "13:00"@,
        default_afternoon_start_time: "14:00"@,
        default_afternoon_end_time: "18:00"@,
        ..draft
    }
}

impl BatchBookingDraft {
    /// Bookings for today alone, in the working hours that are offered at first.
    pub fn with_today(today: Date) -> (r: BatchBookingDraft)
        requires
            today.valid(),
        ensures
            r.deep_view() == eight_hours(r.deep_view()),
            r.range_start@ == calendar::date_text(today),
            r.range_end@ == calendar::date_text(today),
            r.selected_workplace is None,
            r.day_overrides@.len() == 0,
    {
        BatchBookingDraft {
            range_start: write_date(today),
            range_end: write_date(today),
            default_morning_start_time: "09:00".to_owned(),
            default_morning_end_time: "13:00".to_owned(),
            default_afternoon_start_time: "14:00".to_owned(),
            default_afternoon_end_time: "18:00".to_owned(),
            selected_workplace: None,
            day_overrides: Vec::new(),
        }
    }

    /// Goes back to the working hours that are offered at first.
    pub fn preset_eight_hours(&mut self)
        ensures
            final(self).deep_view() == eight_hours(old(self).deep_view()),
    {
        self.default_morning_start_time = "09:00".to_owned();
        self.default_morning_end_time = "13:00".to_owned();
        self.default_afternoon_start_time = "14:00".to_owned();
        self.default_afternoon_end_time = "18:00".to_owned();
    }

    /// Goes to the working days of the week of `today`.
    pub fn select_current_week(&mut self, today: Date)
        requires
            today.valid(),
        ensures
            final(self).deep_view() == (match calendar::work_week(today) {
                Some((monday, friday)) => BatchBookingDraftView {
                    range_start: monday,
                    range_end: friday,
                    ..old(self).deep_view()
                },
                None => old(self).deep_view(),
            }),
    {
        if let Some((monday, friday)) = calendar::current_week(today) {
            self.range_start = monday;
            self.range_end = friday;
        }
    }
}

/// A message about one part of a day.
pub open spec fn segment_error(
    date: Seq<char>,
    before: Seq<char>,
    label: Seq<char>,
    after: Seq<char>,
) -> Seq<char> {
    calendar::day_label(date) + before + label + after
}

fn segment_message(date: &str, before: &str, label: &str, after: &str) -> (r: String)
    ensures
        r@ == segment_error(date@, before@, label@, after@),
{
    format_day_label(date).concat(before).concat(label).concat(after)
}

/// A booking of one part of a day, and of nothing but its place and its time.
pub open spec fn segment_booking(
    date: Seq<char>,
    client_id: Seq<char>,
    start: Time,
    end: Time,
) -> BookingSubmissionView {
    BookingSubmissionView {
        client_id,
        start_date: date,
        end_date: date,
        start_time: calendar::time_text(start),
        end_time: calendar::time_text(end),
        ..BookingSubmissionView::empty()
    }
}

/// The booking of one part of a day from the times that were read; they must be times, and lie
/// in the working hours.
pub open spec fn timed_segment(
    date: Seq<char>,
    client_id: Seq<char>,
    label: Seq<char>,
    start: Option<Time>,
    end: Option<Time>,
) -> Result<BookingSubmissionView, Seq<char>> {
    match (start, end) {
        (Some(from), Some(to)) => if calendar::within_workday(from) && calendar::within_workday(
            to,
        ) {
            Ok(segment_booking(date, client_id, from, to))
        } else {
            Err(
                segment_error(
                    date,
                    ": gli orari della fascia "@,
                    label,
                    " devono stare tra 08:00 e 19:00"@,
                ),
            )
        },
        _ => Err(segment_error(date, ": orario non valido per la fascia "@, label, Seq::empty())),
    }
}

/// The booking of one part of a day: none where both times are blank, and an error where one of
/// them is.
pub open spec fn segment(
    date: Seq<char>,
    client_id: Seq<char>,
    label: Seq<char>,
    start_time: Seq<char>,
    end_time: Seq<char>,
) -> Result<Option<BookingSubmissionView>, Seq<char>> {
    if text::blank(start_time) && text::blank(end_time) {
        Ok(None)
    } else if text::blank(start_time) || text::blank(end_time) {
        Err(
            segment_error(
                date,
                ": compila sia l'inizio che la fine per la fascia "@,
                label,
                Seq::empty(),
            ),
        )
    } else {
        match timed_segment(
            date,
            client_id,
            label,
            calendar::parsed_time(text::trimmed(start_time)),
            calendar::parsed_time(text::trimmed(end_time)),
        ) {
            Ok(booking) => Ok(Some(booking)),
            Err(message) => Err(message),
        }
    }
}

/// The booking of one part of a day from the times that were read.
pub fn book_segment(
    date: &str,
    client_id: &str,
    segment_label: &str,
    start: Option<Time>,
    end: Option<Time>,
) -> (r: Result<BookingSubmission, String>)
    requires
        start matches Some(time) ==> time.valid(),
        end matches Some(time) ==> time.valid(),
    ensures
        text::outcome(r) == timed_segment(date@, client_id@, segment_label@, start, end),
{
    proof {
        reveal_strlit("");
        assert(""@ =~= Seq::empty());
    }
    let from = match start {
        Some(time) => time,
        None => return Err(
            segment_message(date, ": orario non valido per la fascia ", segment_label, ""),
        ),
    };
    let to = match end {
        Some(time) => time,
        None => return Err(
            segment_message(date, ": orario non valido per la fascia ", segment_label, ""),
        ),
    };
    if !is_within_workday(from) || !is_within_workday(to) {
        return Err(
            segment_message(
                date,
                ": gli orari della fascia ",
                segment_label,
                " devono stare tra 08:00 e 19:00",
            ),
        );
    }
    let r = BookingSubmission {
        client_id: client_id.to_owned(),
        start_date: date.to_owned(),
        end_date: date.to_owned(),
        start_time: write_time(from),
        end_time: write_time(to),
        ..BookingSubmission::default()
    };
    Ok(r)
}

/// The booking of one part of a day.
pub fn build_segment_submission(
    date: &str,
    client_id: &str,
    segment_label: &str,
    start_time: &str,
    end_time: &str,
) -> (r: Result<Option<BookingSubmission>, String>)
    ensures
        text::outcome(r) == segment(date@, client_id@, segment_label@, start_time@, end_time@),
{
    proof {
        reveal_strlit("");
        assert(""@ =~= Seq::empty());
        text::lemma_trimmed_twice(start_time@);
        text::lemma_trimmed_twice(end_time@);
    }
    let start_time = start_time.trim();
    let end_time = end_time.trim();
    if start_time.is_empty() && end_time.is_empty() {
        return Ok(None);
    }
    if start_time.is_empty() || end_time.is_empty() {
        return Err(
            segment_message(
                date,
                ": compila sia l'inizio che la fine per la fascia ",
                segment_label,
                "",
            ),
        );
    }
    match book_segment(
        date,
        client_id,
        segment_label,
        parse_ui_time(start_time),
        parse_ui_time(end_time),
    ) {
        Ok(booking) => Ok(Some(booking)),
        Err(message) => Err(message),
    }
}

/// A list with one more booking, if there is one.
pub open spec fn with_booking(
    bookings: Seq<BookingSubmissionView>,
    booking: Option<BookingSubmissionView>,
) -> Seq<BookingSubmissionView> {
    match booking {
        Some(one) => bookings.push(one),
        None => bookings,
    }
}

/// The bookings of one day, morning before afternoon. A day that is enabled goes by its own
/// place and times, any other by the defaults.
pub open spec fn day_bookings(
    draft: BatchBookingDraftView,
    default_workplace: Seq<char>,
    day: DailyOverrideView,
) -> Result<Seq<BookingSubmissionView>, Seq<char>> {
    let client_id = if day.enabled { day.client_id } else { default_workplace };
    let morning = if day.enabled {
        segment(day.date, client_id, "mattina"@, day.morning_start_time, day.morning_end_time)
    } else {
        segment(
            day.date,
            client_id,
            "mattina"@,
            draft.default_morning_start_time,
            draft.default_morning_end_time,
        )
    };
    let afternoon = if day.enabled {
        segment(
            day.date,
            client_id,
            "pomeriggio"@,
            day.afternoon_start_time,
            day.afternoon_end_time,
        )
    } else {
        segment(
            day.date,
            client_id,
            "pomeriggio"@,
            draft.default_afternoon_start_time,
            draft.default_afternoon_end_time,
        )
    };
    match morning {
        Err(message) => Err(message),
        Ok(first) => match afternoon {
            Err(message) => Err(message),
            Ok(second) => Ok(with_booking(with_booking(Seq::empty(), first), second)),
        },
    }
}

/// The bookings of many days, day after day, up to the first day that has an error.
pub open spec fn days_bookings(
    draft: BatchBookingDraftView,
    default_workplace: Seq<char>,
    days: Seq<DailyOverrideView>,
) -> Result<Seq<BookingSubmissionView>, Seq<char>>
    decreases days.len(),
{
    if days.len() == 0 {
        Ok(Seq::empty())
    } else {
        match days_bookings(draft, default_workplace, days.drop_last()) {
            Err(message) => Err(message),
            Ok(before) => match day_bookings(draft, default_workplace, days.last()) {
                Err(message) => Err(message),
                Ok(more) => Ok(before + more),
            },
        }
    }
}

/// The bookings of all days; there must be one.
pub open spec fn batch_bookings(
    draft: BatchBookingDraftView,
    default_workplace: Seq<char>,
) -> Result<Seq<BookingSubmissionView>, Seq<char>> {
    match days_bookings(draft, default_workplace, draft.day_overrides) {
        Err(message) => Err(message),
        Ok(bookings) => if bookings.len() == 0 {
            Err("Non c'e' nessuna fascia oraria da inviare"@)
        } else {
            Ok(bookings)
        },
    }
}

proof fn lemma_days_stop(
    draft: BatchBookingDraftView,
    default_workplace: Seq<char>,
    days: Seq<DailyOverrideView>,
    n: int,
)
    requires
        0 <= n <= days.len(),
        days_bookings(draft, default_workplace, days.take(n)) is Err,
    ensures
        days_bookings(draft, default_workplace, days) == days_bookings(
            draft,
            default_workplace,
            days.take(n),
        ),
    decreases days.len(),
{
    if n == days.len() {
        assert(days.take(n) =~= days);
    } else {
        assert(days.drop_last().take(n) =~= days.take(n));
        lemma_days_stop(draft, default_workplace, days.drop_last(), n);
    }
}

impl BatchBookingDraft {
    fn book_day(&self, default_workplace: &str, day: &DailyOverride) -> (r: Result<
        Vec<BookingSubmission>,
        String,
    >)
        ensures
            text::outcome(r) == day_bookings(
                self.deep_view(),
                default_workplace@,
                day.deep_view(),
            ),
    {
        let client_id = if day.enabled { day.client_id.as_str() } else { default_workplace };
        let (morning_start, morning_end, afternoon_start, afternoon_end) = if day.enabled {
            (
                day.morning_start_time.as_str(),
                day.morning_end_time.as_str(),
                day.afternoon_start_time.as_str(),
                day.afternoon_end_time.as_str(),
            )
        } else {
            (
                self.default_morning_start_time.as_str(),
                self.default_morning_end_time.as_str(),
                self.default_afternoon_start_time.as_str(),
                self.default_afternoon_end_time.as_str(),
            )
        };
        let mut bookings: Vec<BookingSubmission> = Vec::new();
        assert(bookings.deep_view() =~= Seq::empty());
        match build_segment_submission(
            day.date.as_str(),
            client_id,
            "mattina",
            morning_start,
            morning_end,
        ) {
            Ok(Some(booking)) => {
                let ghost before = bookings.deep_view();
                let ghost one = booking.deep_view();
                bookings.push(booking);
                assert(bookings.deep_view() =~= before.push(one));
            },
            Ok(None) => {},
            Err(message) => return Err(message),
        }
        match build_segment_submission(
            day.date.as_str(),
            client_id,
            "pomeriggio",
            afternoon_start,
            afternoon_end,
        ) {
            Ok(Some(booking)) => {
                let ghost before = bookings.deep_view();
                let ghost one = booking.deep_view();
                bookings.push(booking);
                assert(bookings.deep_view() =~= before.push(one));
            },
            Ok(None) => {},
            Err(message) => return Err(message),
        }
        Ok(bookings)
    }

    /// The bookings of all days.
    pub fn build_batch_submissions(&self, default_workplace: &str) -> (r: Result<
        Vec<BookingSubmission>,
        String,
    >)
        ensures
            text::outcome(r) == batch_bookings(self.deep_view(), default_workplace@),
    {
        let ghost draft = self.deep_view();
        let ghost all = draft.day_overrides;
        let mut submissions: Vec<BookingSubmission> = Vec::new();
        assert(submissions.deep_view() =~= Seq::empty());
        for i in 0..self.day_overrides.len()
            invariant
                draft == self.deep_view(),
                all == self.day_overrides.deep_view(),
                days_bookings(draft, default_workplace@, all.take(i as int)) == Ok::<
                    Seq<BookingSubmissionView>,
                    Seq<char>,
                >(submissions.deep_view()),
        {
            let ghost before = submissions.deep_view();
            let booked = self.book_day(default_workplace, &self.day_overrides[i]);
            proof {
                assert(all.take(i + 1).drop_last() =~= all.take(i as int));
                assert(all.take(i + 1).last() == self.day_overrides@[i as int].deep_view());
            }
            match booked {
                Ok(more) => {
                    let mut more = more;
                    let ghost added = more.deep_view();
                    submissions.append(&mut more);
                    assert(submissions.deep_view() =~= before + added);
                },
                Err(message) => {
                    proof {
                        lemma_days_stop(draft, default_workplace@, all, i + 1);
                    }
                    return Err(message);
                },
            }
        }
        assert(all.take(all.len() as int) =~= all);
        assert(submissions.deep_view().len() == submissions@.len());
        if submissions.len() == 0 {
            return Err("Non c'e' nessuna fascia oraria da inviare".to_owned());
        }
        Ok(submissions)
    }
}

proof fn lemma_entries(
    fields: Map<Seq<char>, Seq<char>>,
    entries: Seq<(Option<Seq<char>>, Seq<char>)>,
    name: Seq<char>,
    n: int,
)
    requires
        0 <= n <= entries.len(),
        forall|i: int| n <= i < entries.len() ==> (#[trigger] entries[i]).0 != Some(name),
    ensures
        ({
            let before = with_entries(fields, entries.take(n));
            let after = with_entries(fields, entries);
            &&& after.contains_key(name) == before.contains_key(name)
            &&& before.contains_key(name) ==> after[name] == before[name]
        }),
    decreases entries.len(),
{
    if n == entries.len() {
        assert(entries.take(n) =~= entries);
    } else {
        reveal(fields::with_field);
        assert(entries.drop_last().take(n) =~= entries.take(n));
        assert(entries[entries.len() - 1].0 != Some(name));
        lemma_entries(fields, entries.drop_last(), name, n);
    }
}

/// A field that stands for nothing known keeps the value that the form sent with it.
pub proof fn law_other_fields_kept(
    form: InsertFormView,
    submission: BookingSubmissionView,
    hours: Seq<char>,
    force: bool,
    name: Seq<char>,
)
    requires
        forall|i: int|
            0 <= i < entries_of(form, submission, hours, force).len() ==> (
            #[trigger] entries_of(form, submission, hours, force)[i]).0 != Some(name),
    ensures
        filled_fields(form, submission, hours, force).contains_key(name)
            == form.base_fields.contains_key(name),
        form.base_fields.contains_key(name) ==> filled_fields(form, submission, hours, force)[name]
            == form.base_fields[name],
{
    let entries = entries_of(form, submission, hours, force);
    lemma_entries(form.base_fields, entries, name, 0);
    assert(entries.take(0) =~= Seq::empty());
}

/// A value is sent in the field that stands for it, unless the field stands for a later one too.
pub proof fn law_value_sent(
    form: InsertFormView,
    submission: BookingSubmissionView,
    hours: Seq<char>,
    force: bool,
    i: int,
    name: Seq<char>,
)
    requires
        0 <= i < entries_of(form, submission, hours, force).len(),
        entries_of(form, submission, hours, force)[i].0 == Some(name),
        forall|j: int|
            i < j < entries_of(form, submission, hours, force).len() ==> (
            #[trigger] entries_of(form, submission, hours, force)[j]).0 != Some(name),
    ensures
        filled_fields(form, submission, hours, force).contains_key(name),
        filled_fields(form, submission, hours, force)[name] == entries_of(
            form,
            submission,
            hours,
            force,
        )[i].1,
{
    let entries = entries_of(form, submission, hours, force);
    lemma_entries(form.base_fields, entries, name, i + 1);
    reveal(fields::with_field);
    assert(entries.take(i + 1).last() == entries[i]);
}

/// The field that asks for a booking to be forced, where the form has one, says so exactly when
/// it is.
pub proof fn law_force_sent(
    form: InsertFormView,
    submission: BookingSubmissionView,
    hours: Seq<char>,
    force: bool,
)
    requires
        form.field_names.force is Some,
    ensures
        filled_fields(form, submission, hours, force).contains_key(form.field_names.force->0),
        filled_fields(form, submission, hours, force)[form.field_names.force->0] == (if force {
            "1"@
        } else {
            ""@
        }),
{
    law_value_sent(form, submission, hours, force, 13, form.field_names.force->0);
}

/// A booking for one day whose hours are not given can be sent exactly where it does not end
/// before it starts, and then with the hours between its two times.
pub proof fn law_day_booking_sent(
    form: InsertFormView,
    submission: BookingSubmissionView,
    force: bool,
    date: Date,
    start: Time,
    end: Time,
)
    requires
        date.valid(),
        start.valid(),
        end.valid(),
        on_day(submission, date, start, end),
        text::blank(submission.total_hours),
    ensures
        sent_fields(form, submission, force) is Ok <==> start.minutes() <= end.minutes(),
        start.minutes() <= end.minutes() ==> sent_fields(form, submission, force) == Ok::<
            Map<Seq<char>, Seq<char>>,
            Seq<char>,
        >(
            filled_fields(
                form,
                submission,
                calendar::duration_text(end.minutes() - start.minutes()),
                force,
            ),
        ),
        start.minutes() > end.minutes() ==> sent_fields(form, submission, force) == Err::<
            Map<Seq<char>, Seq<char>>,
            Seq<char>,
        >(calendar::end_before_start()),
{
    calendar::law_date_read_back(date);
    calendar::law_written_hours(date, date, start, end);
    calendar::law_hours_of_one_day(date, start, end);
}

/// A booking that was forced never asks for a confirmation, and one that asks for it was refused
/// by the server for a reason that can be overridden.
pub proof fn law_force_once(body: JsonView, force: bool)
    ensures
        submit_reply(body, force) matches Ok(SubmitOutcomeView::NeedsForce(_)) ==> !force
            && json::forceable(body) && json::counts(json::member(body, "error"@)),
        json::counts(json::member(body, "error"@)) ==> !(submit_reply(body, force) matches Ok(
            SubmitOutcomeView::Success(_),
        )),
{
}

/// Whether a booking starts and ends in the working hours of one and the same day.
pub open spec fn in_working_hours(booking: BookingSubmissionView) -> bool {
    &&& booking.start_date == booking.end_date
    &&& exists|from: Time, to: Time|
        #![trigger calendar::time_text(from), calendar::time_text(to)]
        from.valid() && to.valid() && calendar::within_workday(from) && calendar::within_workday(to)
            && booking.start_time == calendar::time_text(from) && booking.end_time
            == calendar::time_text(to)
}

proof fn lemma_segment_in_working_hours(
    date: Seq<char>,
    client_id: Seq<char>,
    label: Seq<char>,
    start_time: Seq<char>,
    end_time: Seq<char>,
)
    ensures
        segment(date, client_id, label, start_time, end_time) matches Ok(Some(booking))
            ==> in_working_hours(booking),
{
    calendar::law_parsed_exists(text::trimmed(start_time));
    calendar::law_parsed_exists(text::trimmed(end_time));
}

proof fn lemma_days_in_working_hours(
    draft: BatchBookingDraftView,
    default_workplace: Seq<char>,
    days: Seq<DailyOverrideView>,
)
    ensures
        days_bookings(draft, default_workplace, days) matches Ok(bookings) ==> forall|i: int|
            0 <= i < bookings.len() ==> in_working_hours(#[trigger] bookings[i]),
    decreases days.len(),
{
    if days.len() > 0 {
        lemma_days_in_working_hours(draft, default_workplace, days.drop_last());
        let day = days.last();
        let client_id = if day.enabled { day.client_id } else { default_workplace };
        lemma_segment_in_working_hours(
            day.date,
            client_id,
            "mattina"@,
            if day.enabled { day.morning_start_time } else { draft.default_morning_start_time },
            if day.enabled { day.morning_end_time } else { draft.default_morning_end_time },
        );
        lemma_segment_in_working_hours(
            day.date,
            client_id,
            "pomeriggio"@,
            if day.enabled {
                day.afternoon_start_time
            } else {
                draft.default_afternoon_start_time
            },
            if day.enabled { day.afternoon_end_time } else { draft.default_afternoon_end_time },
        );
    }
}

/// Every booking for many days starts and ends in the working hours of one and the same day.
pub proof fn law_batch_in_working_hours(
    draft: BatchBookingDraftView,
    default_workplace: Seq<char>,
)
    ensures
        batch_bookings(draft, default_workplace) matches Ok(bookings) ==> bookings.len() > 0
            && forall|i: int|
            0 <= i < bookings.len() ==> in_working_hours(#[trigger] bookings[i]),
{
    lemma_days_in_working_hours(draft, default_workplace, draft.day_overrides);
}

/// How many times, at most once, the field `name` is `field`.
pub open spec fn times_among(field: Option<Seq<char>>, name: Seq<char>) -> int {
    if field == Some(name) {
        1
    } else {
        0
    }
}

/// How many values the field `name` stands for.
pub open spec fn times_named(names: BookingFieldNamesView, name: Seq<char>) -> int {
    times_among(names.employee, name) + times_among(names.client, name)
        + times_among(names.activity, name) + times_among(names.state, name)
        + times_among(names.entry_type, name) + times_among(names.start_date, name)
        + times_among(names.end_date, name) + times_among(names.start_time, name)
        + times_among(names.end_time, name) + times_among(names.total_hours, name)
        + times_among(names.description, name) + times_among(names.note, name)
        + times_among(names.productivity, name) + times_among(names.force, name)
}

spec fn field_list(names: BookingFieldNamesView) -> Seq<Option<Seq<char>>> {
    seq![
        names.employee,
        names.client,
        names.activity,
        names.state,
        names.entry_type,
        names.start_date,
        names.end_date,
        names.start_time,
        names.end_time,
        names.total_hours,
        names.description,
        names.note,
        names.productivity,
        names.force,
    ]
}

proof fn lemma_named_once(names: BookingFieldNamesView, name: Seq<char>, i: int)
    requires
        times_named(names, name) == 1,
        0 <= i < field_list(names).len(),
        field_list(names)[i] == Some(name),
    ensures
        forall|j: int|
            0 <= j < field_list(names).len() && j != i ==> #[trigger] field_list(names)[j] != Some(
                name,
            ),
{
}

proof fn lemma_filled(
    form: InsertFormView,
    submission: BookingSubmissionView,
    hours: Seq<char>,
    force: bool,
    i: int,
    name: Seq<char>,
)
    requires
        times_named(form.field_names, name) == 1,
        0 <= i < field_list(form.field_names).len(),
        field_list(form.field_names)[i] == Some(name),
    ensures
        filled_fields(form, submission, hours, force).contains_key(name),
        filled_fields(form, submission, hours, force)[name] == entries_of(
            form,
            submission,
            hours,
            force,
        )[i].1,
{
    let entries = entries_of(form, submission, hours, force);
    let names = field_list(form.field_names);
    lemma_named_once(form.field_names, name, i);
    assert(entries.len() == names.len());
    assert forall|j: int| 0 <= j < entries.len() implies (#[trigger] entries[j]).0 == names[j] by {}
    law_value_sent(form, submission, hours, force, i, name);
}

/// Each value of a booking goes, trimmed, to the field that stands for it and for nothing else:
/// the start of the booking to the field for its start, the end to the field for its end, and so
/// on. A blank employee is the one of the form, and a blank end date is the start date.
pub proof fn law_values_filled(
    form: InsertFormView,
    submission: BookingSubmissionView,
    hours: Seq<char>,
    force: bool,
    name: Seq<char>,
)
    requires
        times_named(form.field_names, name) == 1,
    ensures
        filled_fields(form, submission, hours, force).contains_key(name),
        ({
            let names = form.field_names;
            let sent = filled_fields(form, submission, hours, force)[name];
            &&& names.client == Some(name) ==> sent == text::trimmed(submission.client_id)
            &&& names.activity == Some(name) ==> sent == text::trimmed(submission.activity_id)
            &&& names.state == Some(name) ==> sent == text::trimmed(submission.state_id)
            &&& names.entry_type == Some(name) ==> sent == text::trimmed(submission.entry_type)
            &&& names.start_date == Some(name) ==> sent == text::trimmed(submission.start_date)
            &&& names.start_time == Some(name) ==> sent == text::trimmed(submission.start_time)
            &&& names.end_time == Some(name) ==> sent == text::trimmed(submission.end_time)
            &&& names.description == Some(name) ==> sent == text::trimmed(submission.description)
            &&& names.note == Some(name) ==> sent == text::trimmed(submission.note)
            &&& names.productivity == Some(name) ==> sent == text::trimmed(
                submission.productivity_json,
            )
            &&& names.employee == Some(name) && !text::blank(submission.employee_id) ==> sent
                == text::trimmed(submission.employee_id)
            &&& names.employee == Some(name) && text::blank(submission.employee_id)
                && form.base_fields.contains_key("globals_utente_id"@) ==> sent
                == form.base_fields["globals_utente_id"@]
            &&& names.employee == Some(name) && text::blank(submission.employee_id)
                && !form.base_fields.contains_key("globals_utente_id"@) ==> sent.len() == 0
            &&& names.end_date == Some(name) && !text::blank(submission.end_date) ==> sent
                == text::trimmed(submission.end_date)
            &&& names.end_date == Some(name) && text::blank(submission.end_date) ==> sent
                == text::trimmed(submission.start_date)
            &&& names.force == Some(name) && force ==> sent == "1"@
            &&& names.force == Some(name) && !force ==> sent.len() == 0
            &&& names.total_hours == Some(name) ==> sent == hours
        }),
{
    let names = form.field_names;
    reveal_strlit("");
    if names.employee == Some(name) {
        lemma_filled(form, submission, hours, force, 0, name);
    }
    if names.client == Some(name) {
        lemma_filled(form, submission, hours, force, 1, name);
    }
    if names.activity == Some(name) {
        lemma_filled(form, submission, hours, force, 2, name);
    }
    if names.state == Some(name) {
        lemma_filled(form, submission, hours, force, 3, name);
    }
    if names.entry_type == Some(name) {
        lemma_filled(form, submission, hours, force, 4, name);
    }
    if names.start_date == Some(name) {
        lemma_filled(form, submission, hours, force, 5, name);
    }
    if names.end_date == Some(name) {
        lemma_filled(form, submission, hours, force, 6, name);
    }
    if names.start_time == Some(name) {
        lemma_filled(form, submission, hours, force, 7, name);
    }
    if names.end_time == Some(name) {
        lemma_filled(form, submission, hours, force, 8, name);
    }
    if names.total_hours == Some(name) {
        lemma_filled(form, submission, hours, force, 9, name);
    }
    if names.description == Some(name) {
        lemma_filled(form, submission, hours, force, 10, name);
    }
    if names.note == Some(name) {
        lemma_filled(form, submission, hours, force, 11, name);
    }
    if names.productivity == Some(name) {
        lemma_filled(form, submission, hours, force, 12, name);
    }
    if names.force == Some(name) {
        lemma_filled(form, submission, hours, force, 13, name);
    }
}

/// Each value of a booking that is sent goes to the field that stands for it and for nothing else.
/// Blank hours are counted from the two days and times, others are sent as they are.
pub proof fn law_booking_values_sent(
    form: InsertFormView,
    submission: BookingSubmissionView,
    force: bool,
    name: Seq<char>,
)
    requires
        times_named(form.field_names, name) == 1,
        sent_fields(form, submission, force) is Ok,
    ensures
        sent_fields(form, submission, force)->Ok_0.contains_key(name),
        ({
            let names = form.field_names;
            let sent = sent_fields(form, submission, force)->Ok_0[name];
            &&& names.client == Some(name) ==> sent == text::trimmed(submission.client_id)
            &&& names.activity == Some(name) ==> sent == text::trimmed(submission.activity_id)
            &&& names.state == Some(name) ==> sent == text::trimmed(submission.state_id)
            &&& names.entry_type == Some(name) ==> sent == text::trimmed(submission.entry_type)
            &&& names.start_date == Some(name) ==> sent == text::trimmed(submission.start_date)
            &&& names.start_time == Some(name) ==> sent == text::trimmed(submission.start_time)
            &&& names.end_time == Some(name) ==> sent == text::trimmed(submission.end_time)
            &&& names.description == Some(name) ==> sent == text::trimmed(submission.description)
            &&& names.note == Some(name) ==> sent == text::trimmed(submission.note)
            &&& names.productivity == Some(name) ==> sent == text::trimmed(
                submission.productivity_json,
            )
            &&& names.employee == Some(name) && !text::blank(submission.employee_id) ==> sent
                == text::trimmed(submission.employee_id)
            &&& names.employee == Some(name) && text::blank(submission.employee_id)
                && form.base_fields.contains_key("globals_utente_id"@) ==> sent
                == form.base_fields["globals_utente_id"@]
            &&& names.employee == Some(name) && text::blank(submission.employee_id)
                && !form.base_fields.contains_key("globals_utente_id"@) ==> sent.len() == 0
            &&& names.end_date == Some(name) && !text::blank(submission.end_date) ==> sent
                == text::trimmed(submission.end_date)
            &&& names.end_date == Some(name) && text::blank(submission.end_date) ==> sent
                == text::trimmed(submission.start_date)
            &&& names.force == Some(name) && force ==> sent == "1"@
            &&& names.force == Some(name) && !force ==> sent.len() == 0
            &&& names.total_hours == Some(name) && !text::blank(submission.total_hours) ==> sent
                == text::trimmed(submission.total_hours)
            &&& names.total_hours == Some(name) && text::blank(submission.total_hours)
                ==> calendar::total_hours(
                submission.start_date,
                if text::blank(submission.end_date) {
                    text::trimmed(submission.start_date)
                } else {
                    text::trimmed(submission.end_date)
                },
                submission.start_time,
                submission.end_time,
            ) == Ok::<Seq<char>, Seq<char>>(sent)
        }),
{
    law_values_filled(form, submission, hours_booked(submission)->Ok_0, force, name);
}

/// A field that stands for no value of a booking is sent as it came with the form, and no field is
/// sent that neither came with the form nor stands for a value.
pub proof fn law_unnamed_fields_sent_as_they_came(
    form: InsertFormView,
    submission: BookingSubmissionView,
    force: bool,
    name: Seq<char>,
)
    requires
        times_named(form.field_names, name) == 0,
        sent_fields(form, submission, force) is Ok,
    ensures
        ({
            let sent = sent_fields(form, submission, force)->Ok_0;
            &&& sent.contains_key(name) == form.base_fields.contains_key(name)
            &&& form.base_fields.contains_key(name) ==> sent[name] == form.base_fields[name]
        }),
{
    law_other_fields_kept(form, submission, hours_booked(submission)->Ok_0, force, name);
}

/// A booking whose hours are given can be sent in any case. One whose hours are blank can be sent
/// exactly where they can be counted, and the message says why they cannot be.
pub proof fn law_hours_decide(
    form: InsertFormView,
    submission: BookingSubmissionView,
    force: bool,
)
    ensures
        !text::blank(submission.total_hours) ==> sent_fields(form, submission, force) is Ok,
        text::blank(submission.total_hours) ==> match calendar::total_hours(
            submission.start_date,
            if text::blank(submission.end_date) {
                text::trimmed(submission.start_date)
            } else {
                text::trimmed(submission.end_date)
            },
            submission.start_time,
            submission.end_time,
        ) {
            Ok(_) => sent_fields(form, submission, force) is Ok,
            Err(message) => sent_fields(form, submission, force) == Err::<
                Map<Seq<char>, Seq<char>>,
                Seq<char>,
            >(message),
        },
{
}

/// A reply that reports no error accepts the booking unless it says `false` under `result` in
/// `result`; then, and only then, it refuses it. The message of the site is handed on where there
/// is one.
pub proof fn law_reply_without_error(body: JsonView, force: bool)
    requires
        !json::counts(json::member(body, "error"@)),
    ensures
        ({
            let result = json::member(body, "result"@);
            let verdict = json::member(result->0, "result"@);
            let refused = result is Some && verdict == Some(JsonView::Bool(false));
            let outcome = submit_reply(body, force);
            let id_msg = json::member(result->0, "id_msg"@);
            let confirm = json::member(body, "confirm"@);
            &&& outcome is Err <==> refused
            &&& refused ==> outcome == Err::<SubmitOutcomeView, Seq<char>>(
                match id_msg {
                    Some(JsonView::Text(message)) => message,
                    _ => "La timbratura non e' stata accettata dal server"@,
                },
            )
            &&& !refused ==> outcome == Ok::<SubmitOutcomeView, Seq<char>>(
                SubmitOutcomeView::Success(
                    match confirm {
                        Some(JsonView::Text(message)) => message,
                        _ => "Timbratura salvata correttamente"@,
                    },
                ),
            )
        }),
{
}

/// A reply that reports an error asks for a confirmation exactly where the booking was not forced
/// and the details name one of the two reasons that can be overridden; otherwise it refuses the
/// booking. Either way nothing but its own messages is handed on, all of them.
pub proof fn law_reply_with_error(body: JsonView, force: bool)
    requires
        json::counts(json::member(body, "error"@)),
    ensures
        ({
            let details = json::member(body, "dettagli"@)->0;
            let overridable = json::member(body, "dettagli"@) is Some && (json::member(
                details,
                "validita_sottotimbratura"@,
            ) is Some || json::member(details, "orario_tracimato"@) is Some);
            let outcome = submit_reply(body, force);
            let messages = json::detail_messages(body);
            &&& !force && overridable ==> outcome == Ok::<SubmitOutcomeView, Seq<char>>(
                SubmitOutcomeView::NeedsForce(messages),
            )
            &&& force || !overridable ==> outcome == Err::<SubmitOutcomeView, Seq<char>>(
                text::joined(messages, "\n"@),
            )
        }),
{
}

/// What is noted of a booking is for its own day and times. It is a success exactly where the site
/// accepted the booking, and holds the message of the site; a confirmation that the site asks for
/// is reported with every reason.
pub proof fn law_noted(
    submission: BookingSubmissionView,
    outcome: Result<SubmitOutcomeView, Seq<char>>,
)
    ensures
        ({
            let note = noted(submission, outcome);
            &&& note.date == submission.start_date
            &&& note.start_time == submission.start_time
            &&& note.end_time == submission.end_time
            &&& outcome matches Ok(SubmitOutcomeView::Success(message)) ==> note.result == Ok::<
                Seq<char>,
                Seq<char>,
            >(message)
            &&& outcome matches Ok(SubmitOutcomeView::NeedsForce(reasons)) ==> note.result == Err::<
                Seq<char>,
                Seq<char>,
            >("Serve conferma esplicita: "@ + text::joined(reasons, " | "@))
            &&& outcome matches Err(message) ==> note.result == Err::<Seq<char>, Seq<char>>(message)
        }),
{
}

/// The line that reports a booking gives its day, its start, its end and the message, in this
/// order.
pub proof fn law_line(report: BatchBookingResultView, message: Seq<char>)
    requires
        report.result == Ok::<Seq<char>, Seq<char>>(message) || report.result == Err::<
            Seq<char>,
            Seq<char>,
        >(message),
    ensures
        report.line() == calendar::day_label(report.date) + (" "@ + report.start_time) + ("-"@
            + report.end_time) + (": "@ + message),
{
}

/// Whether a part of a day is from one time of the working hours to another.
pub open spec fn times_in_hours(
    start_time: Seq<char>,
    end_time: Seq<char>,
    start: Time,
    end: Time,
) -> bool {
    &&& calendar::parsed_time(text::trimmed(start_time)) == Some(start)
    &&& calendar::parsed_time(text::trimmed(end_time)) == Some(end)
    &&& 480 <= start.hour * 60 + start.minute <= 1140
    &&& 480 <= end.hour * 60 + end.minute <= 1140
}

/// Whether a booking is of one place and one day, from one time to another, and of nothing else.
pub open spec fn books_exactly(
    booking: BookingSubmissionView,
    client_id: Seq<char>,
    date: Seq<char>,
    start: Time,
    end: Time,
) -> bool {
    &&& booking.client_id == client_id
    &&& booking.start_date == date
    &&& booking.end_date == date
    &&& booking.start_time == calendar::time_text(start)
    &&& booking.end_time == calendar::time_text(end)
    &&& booking.employee_id.len() == 0
    &&& booking.activity_id.len() == 0
    &&& booking.state_id.len() == 0
    &&& booking.entry_type.len() == 0
    &&& booking.total_hours.len() == 0
    &&& booking.description.len() == 0
    &&& booking.note.len() == 0
    &&& booking.productivity_json.len() == 0
}

/// A part of a day is left out exactly where both its times are blank. It is booked exactly where
/// both are times of the working hours, from the first to the second, at the place and on the day
/// given. Anything else is a mistake, and the message says which: a missing time before one that
/// cannot be read, and that before one outside the working hours.
pub proof fn law_segment(
    date: Seq<char>,
    client_id: Seq<char>,
    label: Seq<char>,
    start_time: Seq<char>,
    end_time: Seq<char>,
)
    ensures
        ({
            let booked = segment(date, client_id, label, start_time, end_time);
            let no_start = text::blank(start_time);
            let no_end = text::blank(end_time);
            let start = calendar::parsed_time(text::trimmed(start_time));
            let end = calendar::parsed_time(text::trimmed(end_time));
            let fits = times_in_hours(start_time, end_time, start->0, end->0);
            let day = calendar::day_label(date);
            &&& booked == Ok::<Option<BookingSubmissionView>, Seq<char>>(None) <==> no_start
                && no_end
            &&& (booked matches Ok(Some(booking)) ==> !no_start && !no_end && fits && books_exactly(
                booking,
                client_id,
                date,
                start->0,
                end->0,
            ))
            &&& !no_start && !no_end && fits ==> (booked matches Ok(Some(_)))
            &&& no_start != no_end ==> booked == Err::<Option<BookingSubmissionView>, Seq<char>>(
                day + ": compila sia l'inizio che la fine per la fascia "@ + label,
            )
            &&& !no_start && !no_end && (start is None || end is None) ==> booked == Err::<
                Option<BookingSubmissionView>,
                Seq<char>,
            >(day + ": orario non valido per la fascia "@ + label)
            &&& !no_start && !no_end && start is Some && end is Some && !fits ==> booked == Err::<
                Option<BookingSubmissionView>,
                Seq<char>,
            >(
                day + ": gli orari della fascia "@ + label
                    + " devono stare tra 08:00 e 19:00"@,
            )
        }),
{
    let day = calendar::day_label(date);
    assert(day + ": orario non valido per la fascia "@ + label + Seq::<char>::empty() =~= day
        + ": orario non valido per la fascia "@ + label);
    assert(day + ": compila sia l'inizio che la fine per la fascia "@ + label
        + Seq::<char>::empty() =~= day
        + ": compila sia l'inizio che la fine per la fascia "@ + label);
    calendar::law_parsed_exists(text::trimmed(start_time));
    calendar::law_parsed_exists(text::trimmed(end_time));
}

/// The bookings of a day are for that day, at the place of the day where it is enabled and at the
/// default place where it is not.
pub proof fn law_day_booked_at_its_place(
    draft: BatchBookingDraftView,
    default_workplace: Seq<char>,
    day: DailyOverrideView,
)
    ensures
        day_bookings(draft, default_workplace, day) matches Ok(bookings) ==> forall|i: int|
            0 <= i < bookings.len() ==> {
                &&& (#[trigger] bookings[i]).start_date == day.date
                &&& bookings[i].end_date == day.date
                &&& day.enabled ==> bookings[i].client_id == day.client_id
                &&& !day.enabled ==> bookings[i].client_id == default_workplace
            },
{
}

/// An enabled day with both its parts in the working hours gives two bookings: its own place with
/// its own morning, then its own place with its own afternoon.
pub proof fn law_enabled_day(
    draft: BatchBookingDraftView,
    default_workplace: Seq<char>,
    day: DailyOverrideView,
    morning: (Time, Time),
    afternoon: (Time, Time),
)
    requires
        day.enabled,
        times_in_hours(day.morning_start_time, day.morning_end_time, morning.0, morning.1),
        times_in_hours(day.afternoon_start_time, day.afternoon_end_time, afternoon.0, afternoon.1),
    ensures
        day_bookings(draft, default_workplace, day) matches Ok(bookings) && {
            &&& bookings.len() == 2
            &&& books_exactly(bookings[0], day.client_id, day.date, morning.0, morning.1)
            &&& books_exactly(bookings[1], day.client_id, day.date, afternoon.0, afternoon.1)
        },
{
    lemma_times_not_blank(day.morning_start_time, day.morning_end_time);
    lemma_times_not_blank(day.afternoon_start_time, day.afternoon_end_time);
}

/// A day that is not enabled gives two bookings at the default place: the default morning, then
/// the default afternoon.
pub proof fn law_default_day(
    draft: BatchBookingDraftView,
    default_workplace: Seq<char>,
    day: DailyOverrideView,
    morning: (Time, Time),
    afternoon: (Time, Time),
)
    requires
        !day.enabled,
        times_in_hours(
            draft.default_morning_start_time,
            draft.default_morning_end_time,
            morning.0,
            morning.1,
        ),
        times_in_hours(
            draft.default_afternoon_start_time,
            draft.default_afternoon_end_time,
            afternoon.0,
            afternoon.1,
        ),
    ensures
        day_bookings(draft, default_workplace, day) matches Ok(bookings) && {
            &&& bookings.len() == 2
            &&& books_exactly(bookings[0], default_workplace, day.date, morning.0, morning.1)
            &&& books_exactly(bookings[1], default_workplace, day.date, afternoon.0, afternoon.1)
        },
{
    lemma_times_not_blank(draft.default_morning_start_time, draft.default_morning_end_time);
    lemma_times_not_blank(draft.default_afternoon_start_time, draft.default_afternoon_end_time);
}

/// A part of a day whose times are both blank is left out, and the other part is booked alone; a
/// mistake in either part stops the day, and one in the morning is told first.
pub proof fn law_parts_of_a_day(
    draft: BatchBookingDraftView,
    default_workplace: Seq<char>,
    day: DailyOverrideView,
)
    ensures
        ({
            let place = if day.enabled { day.client_id } else { default_workplace };
            let (ms, me) = if day.enabled {
                (day.morning_start_time, day.morning_end_time)
            } else {
                (draft.default_morning_start_time, draft.default_morning_end_time)
            };
            let (s, e) = if day.enabled {
                (day.afternoon_start_time, day.afternoon_end_time)
            } else {
                (draft.default_afternoon_start_time, draft.default_afternoon_end_time)
            };
            let morning = segment(day.date, place, "mattina"@, ms, me);
            let afternoon = segment(day.date, place, "pomeriggio"@, s, e);
            let booked = day_bookings(draft, default_workplace, day);
            &&& match (morning, afternoon) {
                (Err(message), _) => booked == Err::<Seq<BookingSubmissionView>, Seq<char>>(message),
                (_, Err(message)) => booked == Err::<Seq<BookingSubmissionView>, Seq<char>>(message),
                (Ok(None), Ok(None)) => booked == Ok::<Seq<BookingSubmissionView>, Seq<char>>(
                    Seq::empty(),
                ),
                (Ok(Some(only)), Ok(None)) => booked == Ok::<
                    Seq<BookingSubmissionView>,
                    Seq<char>,
                >(seq![only]),
                (Ok(None), Ok(Some(only))) => booked == Ok::<
                    Seq<BookingSubmissionView>,
                    Seq<char>,
                >(seq![only]),
                (Ok(Some(first)), Ok(Some(second))) => booked == Ok::<
                    Seq<BookingSubmissionView>,
                    Seq<char>,
                >(seq![first, second]),
            }
        }),
{
    let none = Seq::<BookingSubmissionView>::empty();
    assert forall|a: BookingSubmissionView, b: BookingSubmissionView|
        #[trigger] none.push(a).push(b) == seq![a, b] by {}
    assert forall|a: BookingSubmissionView| #[trigger] none.push(a) == seq![a] by {}
}

proof fn lemma_times_not_blank(start_time: Seq<char>, end_time: Seq<char>)
    ensures
        calendar::parsed_time(text::trimmed(start_time)) is Some ==> !text::blank(start_time),
        calendar::parsed_time(text::trimmed(end_time)) is Some ==> !text::blank(end_time),
{
    calendar::law_no_digits(Seq::empty());
    assert(text::blank(start_time) ==> text::trimmed(start_time) =~= Seq::empty());
    assert(text::blank(end_time) ==> text::trimmed(end_time) =~= Seq::empty());
}

/// The bookings of many days are those of the days one after the other: splitting the days splits
/// the bookings, and one day alone gives its own. The first mistake stops them all.
pub proof fn law_days_one_after_the_other(
    draft: BatchBookingDraftView,
    default_workplace: Seq<char>,
    first: Seq<DailyOverrideView>,
    later: Seq<DailyOverrideView>,
    day: DailyOverrideView,
)
    ensures
        days_bookings(draft, default_workplace, seq![day]) == day_bookings(
            draft,
            default_workplace,
            day,
        ),
        ({
            let a = days_bookings(draft, default_workplace, first);
            let b = days_bookings(draft, default_workplace, later);
            let all = days_bookings(draft, default_workplace, first + later);
            &&& a is Err ==> all == a
            &&& a is Ok && b is Err ==> all == b
            &&& a is Ok && b is Ok ==> all == Ok::<Seq<BookingSubmissionView>, Seq<char>>(
                a->Ok_0 + b->Ok_0,
            )
        }),
    decreases later.len(),
{
    assert(seq![day].drop_last() =~= Seq::empty());
    assert(days_bookings(draft, default_workplace, Seq::empty()) == Ok::<
        Seq<BookingSubmissionView>,
        Seq<char>,
    >(Seq::empty()));
    if let Ok(bookings) = day_bookings(draft, default_workplace, day) {
        assert(Seq::<BookingSubmissionView>::empty() + bookings =~= bookings);
    }
    if later.len() == 0 {
        assert(first + later =~= first);
        if let Ok(bookings) = days_bookings(draft, default_workplace, first) {
            assert(bookings + Seq::<BookingSubmissionView>::empty() =~= bookings);
        }
    } else {
        let front = later.drop_last();
        law_days_one_after_the_other(draft, default_workplace, first, front, day);
        assert((first + later).drop_last() =~= first + front);
        assert((first + later).last() == later.last());
        let a = days_bookings(draft, default_workplace, first);
        let b = days_bookings(draft, default_workplace, front);
        if a is Ok && b is Ok {
            if let Ok(more) = day_bookings(draft, default_workplace, later.last()) {
                assert(a->Ok_0 + b->Ok_0 + more =~= a->Ok_0 + (b->Ok_0 + more));
            }
        }
    }
}

/// A batch is the bookings of all its days. Where these are none, the user is told so.
pub proof fn law_batch_of_all_days(draft: BatchBookingDraftView, default_workplace: Seq<char>)
    ensures
        ({
            let days = days_bookings(draft, default_workplace, draft.day_overrides);
            let batch = batch_bookings(draft, default_workplace);
            &&& days is Err ==> batch == days
            &&& days is Ok && days->Ok_0.len() > 0 ==> batch == days
            &&& days is Ok && days->Ok_0.len() == 0 ==> batch == Err::<
                Seq<BookingSubmissionView>,
                Seq<char>,
            >("Non c'e' nessuna fascia oraria da inviare"@)
        }),
{
}

/// The hours that are offered at first are eight, in two parts that lie in the working hours, the
/// second after the first: from nine to one and from two to six. Nothing else of the bookings
/// changes.
pub proof fn law_eight_hours(draft: BatchBookingDraftView)
    ensures
        ({
            let after = eight_hours(draft);
            let times = |text: Seq<char>, hour: u32|
                calendar::parsed_time(text) == Some(Time { hour, minute: 0 });
            &&& times(after.default_morning_start_time, 9)
            &&& times(after.default_morning_end_time, 13)
            &&& times(after.default_afternoon_start_time, 14)
            &&& times(after.default_afternoon_end_time, 18)
            &&& after.range_start == draft.range_start
            &&& after.range_end == draft.range_end
            &&& after.selected_workplace == draft.selected_workplace
            &&& after.day_overrides == draft.day_overrides
        }),
{
    reveal_strlit("09:00");
    reveal_strlit("13:00");
    reveal_strlit("14:00");
    reveal_strlit("18:00");
    calendar::law_time_read_back(Time { hour: 9, minute: 0 });
    calendar::law_time_read_back(Time { hour: 13, minute: 0 });
    calendar::law_time_read_back(Time { hour: 14, minute: 0 });
    calendar::law_time_read_back(Time { hour: 18, minute: 0 });
    reveal_with_fuel(text::decimal, 2);
    assert("09:00"@ =~= calendar::time_text(Time { hour: 9, minute: 0 }));
    assert("13:00"@ =~= calendar::time_text(Time { hour: 13, minute: 0 }));
    assert("14:00"@ =~= calendar::time_text(Time { hour: 14, minute: 0 }));
    assert("18:00"@ =~= calendar::time_text(Time { hour: 18, minute: 0 }));
}

} // verus!
