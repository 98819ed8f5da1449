//! Forwarding `tracing` events to a `slog` logger.
//!
//! Once a global `tracing` subscriber is installed, the events that
//! instrumented libraries emit would vanish unless they are forwarded.  What is
//! forwarded of an event is decided here: its message, its level and its
//! structured fields.  Spans are not forwarded.

#[allow(unused_imports)]
use crate::text::optional_text;
use crate::text::same_text;
use vstd::prelude::*;

verus! {

/// The event field with the event's message.
pub const MESSAGE_FIELD: &'static str = "message";

/// A field value of an event.
#[derive(Clone, Debug)]
pub enum FieldValue {
    Str(String),
    I64(i64),
    U64(u64),
    /// A 64-bit floating point number, by its bits.
    F64(u64),
    Bool(bool),
}

/// A field value as plain data.
pub enum FieldValueView {
    Str(Seq<char>),
    I64(i64),
    U64(u64),
    F64(u64),
    Bool(bool),
}

impl View for FieldValue {
    type V = FieldValueView;

    open spec fn view(&self) -> FieldValueView {
        match self {
            FieldValue::Str(value) => FieldValueView::Str(value@),
            FieldValue::I64(value) => FieldValueView::I64(*value),
            FieldValue::U64(value) => FieldValueView::U64(*value),
            FieldValue::F64(bits) => FieldValueView::F64(*bits),
            FieldValue::Bool(value) => FieldValueView::Bool(*value),
        }
    }
}

/// A list of fields as plain data.
pub open spec fn field_views(fields: Seq<(String, FieldValue)>) -> Seq<
    (Seq<char>, FieldValueView),
> {
    fields.map_values(|field: (String, FieldValue)| (field.0@, field.1@))
}

/// What was gathered from an event, as plain data.
#[verifier::ext_equal]
pub struct EventView {
    pub message: Option<Seq<char>>,
    pub fields: Seq<(Seq<char>, FieldValueView)>,
}

/// An event with one more field behind the others.
pub open spec fn with_field(event: EventView, field: Seq<char>, value: FieldValueView) -> EventView {
    EventView { message: event.message, fields: event.fields.push((field, value)) }
}

/// An event once a text was recorded: the text is either the event's message
/// or one more field.
pub open spec fn with_text(event: EventView, field: Seq<char>, value: Seq<char>) -> EventView {
    if field == MESSAGE_FIELD@ {
        EventView { message: Some(value), fields: event.fields }
    } else {
        with_field(event, field, FieldValueView::Str(value))
    }
}

/// The message and the structured fields of an event.
#[derive(Debug)]
pub struct EventVisitor {
    pub message: Option<String>,
    pub fields: Vec<(String, FieldValue)>,
}

impl View for EventVisitor {
    type V = EventView;

    open spec fn view(&self) -> EventView {
        EventView {
            message: optional_text(self.message),
            fields: field_views(self.fields@),
        }
    }
}

impl Default for EventVisitor {
    /// Returns a visitor that has gathered nothing.
    fn default() -> (r: Self)
        ensures
            r@ == (EventView { message: None, fields: Seq::empty() }),
            r.message is None,
            r.fields@.len() == 0,
    {
        let r = EventVisitor { message: None, fields: Vec::new() };
        assert(r@.fields =~= Seq::empty());
        r
    }
}

impl EventVisitor {
    /// Adds a field behind the others.
    pub fn push(&mut self, field: &str, value: FieldValue)
        ensures
            final(self)@ == with_field(old(self)@, field@, value@),
            final(self).message == old(self).message,
            final(self).fields@.len() == old(self).fields@.len() + 1,
            final(self).fields@.drop_last() == old(self).fields@,
            final(self).fields@.last().0@ == field@,
            final(self).fields@.last().1 == value,
    {
        self.fields.push((field.to_owned(), value));
        assert(self.fields@.drop_last() =~= old(self).fields@);
        assert(self@.fields =~= old(self)@.fields.push((field@, value@)));
    }

    /// Takes in a field with a text value.
    pub fn record_str(&mut self, field: &str, value: &str)
        ensures
            final(self)@ == with_text(old(self)@, field@, value@),
            field@ == "message"@ ==> {
                &&& final(self).message matches Some(message) && message@ == value@
                &&& final(self).fields == old(self).fields
            },
            field@ != "message"@ ==> {
                &&& final(self).message == old(self).message
                &&& final(self).fields@.len() == old(self).fields@.len() + 1
                &&& final(self).fields@.drop_last() == old(self).fields@
                &&& final(self).fields@.last().0@ == field@
                &&& final(self).fields@.last().1 matches FieldValue::Str(text) && text@ == value@
            },
    {
        if same_text(field, MESSAGE_FIELD) {
            self.message = Some(value.to_owned());
        } else {
            self.push(field, FieldValue::Str(value.to_owned()));
        }
    }

    /// Takes in a field with a signed integer value.
    pub fn record_i64(&mut self, field: &str, value: i64)
        ensures
            final(self)@ == with_field(old(self)@, field@, FieldValueView::I64(value)),
            final(self).message == old(self).message,
            final(self).fields@.len() == old(self).fields@.len() + 1,
            final(self).fields@.drop_last() == old(self).fields@,
            final(self).fields@.last().0@ == field@,
            final(self).fields@.last().1 == FieldValue::I64(value),
    {
        self.push(field, FieldValue::I64(value));
    }

    /// Takes in a field with an unsigned integer value.
    pub fn record_u64(&mut self, field: &str, value: u64)
        ensures
            final(self)@ == with_field(old(self)@, field@, FieldValueView::U64(value)),
            final(self).message == old(self).message,
            final(self).fields@.len() == old(self).fields@.len() + 1,
            final(self).fields@.drop_last() == old(self).fields@,
            final(self).fields@.last().0@ == field@,
            final(self).fields@.last().1 == FieldValue::U64(value),
    {
        self.push(field, FieldValue::U64(value));
    }

    /// Takes in a field with a floating point value, given by its bits.
    pub fn record_f64(&mut self, field: &str, bits: u64)
        ensures
            final(self)@ == with_field(old(self)@, field@, FieldValueView::F64(bits)),
            final(self).message == old(self).message,
            final(self).fields@.len() == old(self).fields@.len() + 1,
            final(self).fields@.drop_last() == old(self).fields@,
            final(self).fields@.last().0@ == field@,
            final(self).fields@.last().1 == FieldValue::F64(bits),
    {
        self.push(field, FieldValue::F64(bits));
    }

    /// Takes in a field with a boolean value.
    pub fn record_bool(&mut self, field: &str, value: bool)
        ensures
            final(self)@ == with_field(old(self)@, field@, FieldValueView::Bool(value)),
            final(self).message == old(self).message,
            final(self).fields@.len() == old(self).fields@.len() + 1,
            final(self).fields@.drop_last() == old(self).fields@,
            final(self).fields@.last().0@ == field@,
            final(self).fields@.last().1 == FieldValue::Bool(value),
    {
        self.push(field, FieldValue::Bool(value));
    }

    /// Takes in a field with a value of another type, given how the value is
    /// formatted.
    pub fn record_debug(&mut self, field: &str, formatted: &str)
        ensures
            final(self)@ == with_text(old(self)@, field@, formatted@),
            field@ == "message"@ ==> {
                &&& final(self).message matches Some(message) && message@ == formatted@
                &&& final(self).fields == old(self).fields
            },
            field@ != "message"@ ==> {
                &&& final(self).message == old(self).message
                &&& final(self).fields@.len() == old(self).fields@.len() + 1
                &&& final(self).fields@.drop_last() == old(self).fields@
                &&& final(self).fields@.last().0@ == field@
                &&& final(self).fields@.last().1 matches FieldValue::Str(text) && text@ == formatted@
            },
    {
        self.record_str(field, formatted);
    }
}

/// The level of a `tracing` event.
#[derive(Clone, Copy, Debug, PartialEq, Eq, Structural)]
pub enum EventLevel {
    Trace,
    Debug,
    Info,
    Warn,
    Error,
}

/// The level of a `slog` record.
#[derive(Clone, Copy, Debug, PartialEq, Eq, Structural)]
pub enum LogLevel {
    Critical,
    Error,
    Warning,
    Info,
    Debug,
    Trace,
}

/// The level at which an event is logged.
pub open spec fn logged_at(level: EventLevel) -> LogLevel {
    match level {
        EventLevel::Trace => LogLevel::Trace,
        EventLevel::Debug => LogLevel::Debug,
        EventLevel::Info => LogLevel::Info,
        EventLevel::Warn => LogLevel::Warning,
        EventLevel::Error => LogLevel::Error,
    }
}

/// How severe a level is, the least severe first.
pub open spec fn event_severity(level: EventLevel) -> int {
    match level {
        EventLevel::Trace => 0,
        EventLevel::Debug => 1,
        EventLevel::Info => 2,
        EventLevel::Warn => 3,
        EventLevel::Error => 4,
    }
}

/// How severe a level is, the least severe first.
pub open spec fn log_severity(level: LogLevel) -> int {
    match level {
        LogLevel::Trace => 0,
        LogLevel::Debug => 1,
        LogLevel::Info => 2,
        LogLevel::Warning => 3,
        LogLevel::Error => 4,
        LogLevel::Critical => 5,
    }
}

/// What is handed to the logger for an event.
#[derive(Debug)]
pub struct LogRecord {
    pub level: LogLevel,
    pub message: String,
    pub fields: FieldKV,
}

/// Returns what is handed to the logger for an event with the given level: the
/// event's message, which is empty if it has none, and its fields.
pub fn on_event(level: EventLevel, visitor: EventVisitor) -> (r: LogRecord)
    ensures
        r.level == logged_at(level),
        r.message@ == (match visitor@.message {
            Some(message) => message,
            None => Seq::empty(),
        }),
        r.fields@ == visitor@.fields,
        r.fields.fields == visitor.fields,
        visitor.message matches Some(message) ==> r.message@ == message@,
        visitor.message is None ==> r.message@.len() == 0,
        level == EventLevel::Trace ==> r.level == LogLevel::Trace,
        level == EventLevel::Debug ==> r.level == LogLevel::Debug,
        level == EventLevel::Info ==> r.level == LogLevel::Info,
        level == EventLevel::Warn ==> r.level == LogLevel::Warning,
        level == EventLevel::Error ==> r.level == LogLevel::Error,
{
    let level = match level {
        EventLevel::Trace => LogLevel::Trace,
        EventLevel::Debug => LogLevel::Debug,
        EventLevel::Info => LogLevel::Info,
        EventLevel::Warn => LogLevel::Warning,
        EventLevel::Error => LogLevel::Error,
    };
    let message = match visitor.message {
        Some(message) => message,
        None => String::new(),
    };
    LogRecord { level, message, fields: FieldKV { fields: visitor.fields } }
}

/// The fields of an event, to be emitted to a serializer.
#[derive(Debug)]
pub struct FieldKV {
    pub fields: Vec<(String, FieldValue)>,
}

impl View for FieldKV {
    type V = Seq<(Seq<char>, FieldValueView)>;

    open spec fn view(&self) -> Seq<(Seq<char>, FieldValueView)> {
        field_views(self.fields@)
    }
}

impl FieldKV {
    /// Returns an emission of the fields, of which nothing was emitted yet.
    pub fn serialize(&self) -> (r: FieldEmission<'_>)
        ensures
            r.fields() == self@,
            r.progress() == (EmissionProgress { emitted: 0, failed: false }),
    {
        FieldEmission { fields: &self.fields, emitted: 0, failed: false }
    }
}

/// How far an emission has come.
pub struct EmissionProgress {
    /// How many fields the serializer has accepted.
    pub emitted: nat,
    /// Whether the serializer has refused one.
    pub failed: bool,
}

/// The progress of an emission of so many fields, given whether the serializer
/// accepted the field that it was handed.
pub open spec fn next_progress(
    progress: EmissionProgress,
    count: nat,
    accepted: bool,
) -> EmissionProgress {
    if progress.failed || progress.emitted >= count {
        progress
    } else if accepted {
        EmissionProgress { emitted: progress.emitted + 1, failed: false }
    } else {
        EmissionProgress { emitted: progress.emitted, failed: true }
    }
}

/// An emission of fields to a serializer, one by one and in order, which ends
/// at the first field that the serializer refuses.
#[derive(Debug)]
pub struct FieldEmission<'a> {
    fields: &'a Vec<(String, FieldValue)>,
    emitted: usize,
    failed: bool,
}

impl<'a> FieldEmission<'a> {
    /// The fields to emit.
    pub closed spec fn fields(self) -> Seq<(Seq<char>, FieldValueView)> {
        field_views(self.fields@)
    }

    /// How far the emission has come.
    pub closed spec fn progress(self) -> EmissionProgress {
        EmissionProgress { emitted: self.emitted as nat, failed: self.failed }
    }

    /// Returns the field to hand to the serializer, or `None` if the emission
    /// has ended.
    pub fn field(&self) -> (r: Option<&'a (String, FieldValue)>)
        ensures
            match r {
                Some(field) => {
                    &&& !self.progress().failed
                    &&& self.progress().emitted < self.fields().len()
                    &&& (field.0@, field.1@) == self.fields()[self.progress().emitted as int]
                },
                None => self.progress().failed || self.progress().emitted >= self.fields().len(),
            },
    {
        if !self.failed && self.emitted < self.fields.len() {
            Some(&self.fields[self.emitted])
        } else {
            None
        }
    }

    /// Returns whether the serializer has refused a field.
    pub fn failed(&self) -> (r: bool)
        ensures
            r == self.progress().failed,
    {
        self.failed
    }

    /// Moves on, given whether the serializer accepted the field that it was
    /// handed.
    pub fn advance(&mut self, accepted: bool)
        ensures
            final(self).fields() == old(self).fields(),
            final(self).progress() == next_progress(
                old(self).progress(),
                old(self).fields().len(),
                accepted,
            ),
    {
        if !self.failed && self.emitted < self.fields.len() {
            if accepted {
                self.emitted += 1;
            } else {
                self.failed = true;
            }
        }
    }
}

/// The progress of an emission of so many fields once the serializer has
/// answered so.
pub open spec fn progress_after(count: nat, answers: Seq<bool>) -> EmissionProgress
    decreases answers.len(),
{
    if answers.len() == 0 {
        EmissionProgress { emitted: 0, failed: false }
    } else {
        next_progress(progress_after(count, answers.drop_last()), count, answers.last())
    }
}

/// A serializer that accepts every field is handed all of them, each once and
/// in order: its n-th answer is for the n-th field, and after the last field the
/// emission has ended without a failure.
pub proof fn law_accepted_fields_are_all_emitted(count: nat, answers: Seq<bool>)
    requires
        forall|i: int| 0 <= i < answers.len() ==> answers[i],
    ensures
        progress_after(count, answers) == (EmissionProgress {
            emitted: if answers.len() <= count {
                answers.len()
            } else {
                count
            },
            failed: false,
        }),
    decreases answers.len(),
{
    if answers.len() > 0 {
        law_accepted_fields_are_all_emitted(count, answers.drop_last());
    }
}

/// An emission ends at the first field that the serializer refuses: the fields
/// before it were accepted, and no later one is handed over, whatever follows.
pub proof fn law_refused_field_ends_emission(count: nat, answers: Seq<bool>, refused: int)
    requires
        0 <= refused < answers.len(),
        refused < count,
        !answers[refused],
        forall|i: int| 0 <= i < refused ==> answers[i],
    ensures
        progress_after(count, answers) == (EmissionProgress {
            emitted: refused as nat,
            failed: true,
        }),
    decreases answers.len(),
{
    if refused < answers.len() - 1 {
        law_refused_field_ends_emission(count, answers.drop_last(), refused);
    } else {
        law_accepted_fields_are_all_emitted(count, answers.drop_last());
    }
}

/// Levels are kept apart, and their order of severity is kept.
pub proof fn law_levels_keep_their_order(a: EventLevel, b: EventLevel)
    ensures
        event_severity(a) <= event_severity(b) <==> log_severity(logged_at(a)) <= log_severity(
            logged_at(b),
        ),
        logged_at(a) == logged_at(b) ==> a == b,
{
}

/// A message is not among the fields, and a field is not taken for a message:
/// recording a text changes one of the two and leaves the other as it was.
pub proof fn law_message_and_fields_are_separate(
    event: EventView,
    field: Seq<char>,
    value: Seq<char>,
)
    ensures
        field == MESSAGE_FIELD@ ==> with_text(event, field, value).fields == event.fields,
        field == MESSAGE_FIELD@ ==> with_text(event, field, value).message == Some(value),
        field != MESSAGE_FIELD@ ==> with_text(event, field, value).message == event.message,
        field != MESSAGE_FIELD@ ==> with_text(event, field, value).fields == event.fields.push(
            (field, FieldValueView::Str(value)),
        ),
{
}

/// Each level is logged at the level of its own name.
pub proof fn law_levels_keep_their_names(level: EventLevel)
    ensures
        logged_at(level) == LogLevel::Trace <==> level == EventLevel::Trace,
        logged_at(level) == LogLevel::Debug <==> level == EventLevel::Debug,
        logged_at(level) == LogLevel::Info <==> level == EventLevel::Info,
        logged_at(level) == LogLevel::Warning <==> level == EventLevel::Warn,
        logged_at(level) == LogLevel::Error <==> level == EventLevel::Error,
        logged_at(level) != LogLevel::Critical,
{
}

/// A field is added behind those that there are, which stay as they are, and the
/// message stays as it is.
pub proof fn law_fields_are_added_behind(
    event: EventView,
    field: Seq<char>,
    value: FieldValueView,
    i: int,
)
    requires
        0 <= i < event.fields.len(),
    ensures
        with_field(event, field, value).message == event.message,
        with_field(event, field, value).fields.len() == event.fields.len() + 1,
        with_field(event, field, value).fields[i] == event.fields[i],
        with_field(event, field, value).fields[event.fields.len() as int] == (field, value),
{
}

/// Fields are viewed as they are: in order, each with its own name and value.
pub proof fn law_fields_are_viewed_as_they_are(fields: Seq<(String, FieldValue)>, i: int)
    requires
        0 <= i < fields.len(),
    ensures
        field_views(fields).len() == fields.len(),
        field_views(fields)[i].0 == fields[i].0@,
        fields[i].1 matches FieldValue::Str(text) ==> field_views(fields)[i].1
            == FieldValueView::Str(text@),
        fields[i].1 matches FieldValue::I64(number) ==> field_views(fields)[i].1
            == FieldValueView::I64(number),
        fields[i].1 matches FieldValue::U64(number) ==> field_views(fields)[i].1
            == FieldValueView::U64(number),
        fields[i].1 matches FieldValue::F64(bits) ==> field_views(fields)[i].1
            == FieldValueView::F64(bits),
        fields[i].1 matches FieldValue::Bool(flag) ==> field_views(fields)[i].1
            == FieldValueView::Bool(flag),
{
}

} // verus!
