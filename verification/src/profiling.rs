//! Interval profiling whose measurements carry metadata: the source location
//! of the interval, its profiling level and its label.
//!
//! The start and end marks of an interval are named `label [START]` and
//! `label [END]`; the measurement between them `label (file:line)`. The
//! metadata travels with each mark and measurement, and a recorded measurement
//! takes its profiling level from it.
use vstd::prelude::*;
use crate::order::{is_stable_order, stable_order};
use crate::outside::{inflector_class_case, plain_string_from_str, to_class_case};
use crate::performance_logger::{EndIntervalPhase, MeasureEntry, ProfilingToggles};
use crate::text::{decimal, decimal_value, lemma_decimal, push_decimal, str_equal};

verus! {

// ================
// === Metadata ===
// ================

/// Source code location given as file path and line number.
#[allow(missing_docs)]
#[derive(Clone, Debug)]
pub struct SourceLocation {
    pub file: String,
    pub line: u32,
}

/// Measurement metadata: what the timeline is told of a measurement.
#[derive(Clone, Debug)]
pub struct Metadata {
    /// Source code location of the profiling interval.
    pub source: SourceLocation,
    /// Profiling level of the measurement.
    pub profiling_level: String,
    /// Label of the measurement.
    pub label: String,
}

impl Metadata {
    /// A copy of the metadata.
    pub fn duplicate(&self) -> (copy: Self)
        ensures
            copy == *self,
    {
        Metadata {
            source: SourceLocation { file: self.source.file.clone(), line: self.source.line },
            profiling_level: self.profiling_level.clone(),
            label: self.label.clone(),
        }
    }
}

/// Whether intervals of the given profiling level are profiled under `toggles`:
/// the level is `section`, `task`, `detail` or `debug` (as in the build feature
/// `enable-<level>-profiling`) and that level is switched on.
pub open spec fn spec_profiling_level_is_active(
    toggles: ProfilingToggles,
    profiling_level: Seq<char>,
) -> bool {
    ||| profiling_level == "section"@ && toggles.section
    ||| profiling_level == "task"@ && toggles.task
    ||| profiling_level == "detail"@ && toggles.detail
    ||| profiling_level == "debug"@ && toggles.debug
}

/// Check whether the given profiling level should perform any profiling activity.
pub fn profiling_level_is_active(toggles: &ProfilingToggles, profiling_level: &str) -> (active: bool)
    ensures
        active == spec_profiling_level_is_active(*toggles, profiling_level@),
{
    (toggles.section && str_equal(profiling_level, "section")) || (toggles.task && str_equal(
        profiling_level,
        "task",
    )) || (toggles.detail && str_equal(profiling_level, "detail")) || (toggles.debug
        && str_equal(profiling_level, "debug"))
}

/// A profiling level name is profiled exactly when its own toggle is on.
pub proof fn lemma_profiling_level_active_by_own_toggle(toggles: ProfilingToggles)
    ensures
        spec_profiling_level_is_active(toggles, "section"@) == toggles.section,
        spec_profiling_level_is_active(toggles, "task"@) == toggles.task,
        spec_profiling_level_is_active(toggles, "detail"@) == toggles.detail,
        spec_profiling_level_is_active(toggles, "debug"@) == toggles.debug,
{
    reveal_strlit("section");
    reveal_strlit("task");
    reveal_strlit("detail");
    reveal_strlit("debug");
    assert("section"@ != "task"@ && "section"@ != "detail"@ && "section"@ != "debug"@) by {
        assert("section"@.len() != "task"@.len());
        assert("section"@.len() != "detail"@.len());
        assert("section"@.len() != "debug"@.len());
    }
    assert("task"@ != "detail"@ && "task"@ != "debug"@) by {
        assert("task"@.len() != "detail"@.len());
        assert("task"@.len() != "debug"@.len());
    }
    assert("detail"@ != "debug"@) by {
        assert("detail"@.len() != "debug"@.len());
    }
}

// ==============
// === Labels ===
// ==============

/// The text that follows the label in the name of an interval's start mark.
pub open spec fn start_suffix() -> Seq<char> {
    seq![' ', '[', 'S', 'T', 'A', 'R', 'T', ']']
}

/// The text that follows the label in the name of an interval's end mark.
pub open spec fn end_suffix() -> Seq<char> {
    seq![' ', '[', 'E', 'N', 'D', ']']
}

/// The name of the measurement of an interval: `label (file:line)`.
pub open spec fn measure_name(metadata: Metadata) -> Seq<char> {
    metadata.label@ + seq![' ', '('] + metadata.source.file@ + seq![':'] + decimal(
        metadata.source.line as nat,
    ) + seq![')']
}

/// The name of the mark that indicates the start of an interval: the name of its
/// measurement followed by ` [START]`, e.g. `DoThing! (FilePath:22) [START]`.
pub fn start_interval_label(metadata: &Metadata) -> (label: String)
    ensures
        label@ == measure_name(*metadata) + start_suffix(),
{
    proof {
        reveal_strlit(" [START]");
    }
    let mut label = measure_interval_label(metadata);
    label.append(" [START]");
    label
}

/// The name of the mark that indicates the end of an interval: the name of its
/// measurement followed by ` [END]`, e.g. `DoThing! (FilePath:22) [END]`.
pub fn end_interval_label(metadata: &Metadata) -> (label: String)
    ensures
        label@ == measure_name(*metadata) + end_suffix(),
{
    proof {
        reveal_strlit(" [END]");
    }
    let mut label = measure_interval_label(metadata);
    label.append(" [END]");
    label
}

/// The name of the measurement of an interval: `label (file:line)`.
pub fn measure_interval_label(metadata: &Metadata) -> (label: String)
    ensures
        label@ == measure_name(*metadata),
{
    proof {
        reveal_strlit(" (");
        reveal_strlit(":");
        reveal_strlit(")");
    }
    let mut label = metadata.label.clone();
    label.append(" (");
    label.append(metadata.source.file.as_str());
    label.append(":");
    push_decimal(&mut label, metadata.source.line);
    label.append(")");
    assert(label@ =~= measure_name(*metadata));
    label
}

/// The measurement name of an interval reads back as its parts: the label, ` (`,
/// the file, `:`, the decimal digits of the full line number, and `)`.
pub proof fn lemma_measure_name_parts(metadata: Metadata)
    ensures
        ({
            let name = measure_name(metadata);
            let label = metadata.label@;
            let file = metadata.source.file@;
            let l = label.len() as int;
            let f = file.len() as int;
            let digits_start = l + 2 + f + 1;
            let end = name.len() - 1;
            &&& digits_start < name.len()
            &&& name.take(l) == label
            &&& name[l] == ' '
            &&& name[l + 1] == '('
            &&& name.subrange(l + 2, l + 2 + f) == file
            &&& name[digits_start - 1] == ':'
            &&& name[end] == ')'
            &&& forall|i: int| digits_start <= i < end ==> '0' <= #[trigger] name[i] <= '9'
            &&& decimal_value(name.subrange(digits_start, end)) == metadata.source.line
        }),
{
    let name = measure_name(metadata);
    let label = metadata.label@;
    let file = metadata.source.file@;
    let l = label.len() as int;
    let f = file.len() as int;
    let digits = decimal(metadata.source.line as nat);
    lemma_decimal(metadata.source.line as nat);
    let digits_start = l + 2 + f + 1;
    let end = name.len() - 1;
    assert(name.len() == digits_start + digits.len() + 1);
    assert(name.take(l) =~= label);
    assert(name.subrange(l + 2, l + 2 + f) =~= file);
    assert(name.subrange(digits_start, end) =~= digits);
    assert forall|i: int| digits_start <= i < end implies '0' <= #[trigger] name[i] <= '9' by {
        assert(name[i] == digits[i - digits_start]);
    }
}

/// The start mark, the end mark and the measurement of an interval have three
/// different names.
pub proof fn lemma_marks_distinct(metadata: Metadata)
    ensures
        measure_name(metadata) + start_suffix() != measure_name(metadata) + end_suffix(),
        measure_name(metadata) + start_suffix() != measure_name(metadata),
        measure_name(metadata) + end_suffix() != measure_name(metadata),
{
    let m = measure_name(metadata);
    assert((m + start_suffix()).len() != (m + end_suffix()).len());
    assert((m + start_suffix()).len() != m.len());
    assert((m + end_suffix()).len() != m.len());
}

// ====================
// === Measurements ===
// ====================

/// A single interval measurement.
#[allow(missing_docs)]
#[derive(Clone, Debug)]
pub struct Measurement<Time> {
    pub name: String,
    pub start_time: Time,
    pub duration: Time,
    pub log_level: String,
}

/// What a measurement holds, as plain values.
pub struct MeasurementRecord<Time> {
    /// The measurement's name.
    pub name: Seq<char>,
    /// When the interval started.
    pub start_time: Time,
    /// How long the interval lasted.
    pub duration: Time,
    /// The profiling level of the interval.
    pub log_level: Seq<char>,
}

impl<Time> View for Measurement<Time> {
    type V = MeasurementRecord<Time>;

    open spec fn view(&self) -> MeasurementRecord<Time> {
        MeasurementRecord {
            name: self.name@,
            start_time: self.start_time,
            duration: self.duration,
            log_level: self.log_level@,
        }
    }
}

/// Error that can occur when converting between a timeline entry and a `Measurement`.
#[derive(Debug, Clone, Copy, PartialEq, Eq, Structural)]
pub enum MeasurementConversionError {
    /// The metadata attached to the entry could not be read.
    InvalidFormatting,
    /// The profiling level of the entry is not a valid profiling level.
    InvalidLogLevel,
}

/// Whether `log_level` is a declared profiling level in its class-case form:
/// `Section`, `Task`, `Detail` or `Debug`.
pub open spec fn is_declared_level(log_level: Seq<char>) -> bool {
    ||| log_level == "Section"@
    ||| log_level == "Task"@
    ||| log_level == "Detail"@
    ||| log_level == "Debug"@
}

/// The measurement of an entry whose profiling level reads as `log_level`, or
/// `InvalidLogLevel` when that is not a declared level.
pub open spec fn measurement_with_level<Time>(
    entry: MeasureEntry<Time>,
    log_level: Seq<char>,
) -> Result<MeasurementRecord<Time>, MeasurementConversionError> {
    if is_declared_level(log_level) {
        Ok(
            MeasurementRecord {
                name: entry.name@,
                start_time: entry.start_time,
                duration: entry.duration,
                log_level,
            },
        )
    } else {
        Err(MeasurementConversionError::InvalidLogLevel)
    }
}

/// The measurement of an entry whose attached metadata reads as `detail`:
/// `InvalidFormatting` when the metadata cannot be read, else the measurement
/// with the class-case form of the metadata's profiling level.
pub open spec fn convert_entry<Time>(
    entry: MeasureEntry<Time>,
    detail: Option<Metadata>,
) -> Result<MeasurementRecord<Time>, MeasurementConversionError> {
    match detail {
        None => Err(MeasurementConversionError::InvalidFormatting),
        Some(metadata) => measurement_with_level(entry, inflector_class_case(metadata.profiling_level@)),
    }
}

/// Every declared profiling level is accepted: an entry with the level `Section`,
/// `Task`, `Detail` or `Debug` becomes the measurement of that entry with that level.
pub proof fn lemma_declared_levels_accepted<Time>(entry: MeasureEntry<Time>)
    ensures
        forall|level: Seq<char>|
            level == "Section"@ || level == "Task"@ || level == "Detail"@ || level == "Debug"@
                ==> #[trigger] measurement_with_level(entry, level) == Ok::<
                MeasurementRecord<Time>,
                MeasurementConversionError,
            >(
                MeasurementRecord {
                    name: entry.name@,
                    start_time: entry.start_time,
                    duration: entry.duration,
                    log_level: level,
                },
            ),
{
}

/// A report keeps every entry that converts, in front of what the following
/// entries give, and leaves out every entry that does not.
pub proof fn lemma_converted_entries_step<Time>(
    entry: (MeasureEntry<Time>, Option<Metadata>),
    rest: Seq<(MeasureEntry<Time>, Option<Metadata>)>,
)
    ensures
        match convert_entry(entry.0, entry.1) {
            Ok(record) => converted_entries(seq![entry] + rest) == seq![record]
                + converted_entries(rest),
            Err(_) => converted_entries(seq![entry] + rest) == converted_entries(rest),
        },
{
    let all = seq![entry] + rest;
    assert(all[0] == entry);
    assert(all.drop_first() =~= rest);
}

impl<Time> Measurement<Time> {
    /// Converts a timeline entry, given the metadata attached to it (`None` when
    /// that could not be read): the profiling level is the class-case form of the
    /// metadata's level, which must be a declared level.
    pub fn try_from_entry(entry: MeasureEntry<Time>, detail: Option<Metadata>) -> (result: Result<
        Self,
        MeasurementConversionError,
    >)
        ensures
            match convert_entry(entry, detail) {
                Ok(record) => result matches Ok(m) && m@ == record,
                Err(e) => result matches Err(f) && f == e,
            },
    {
        match detail {
            None => Err(MeasurementConversionError::InvalidFormatting),
            Some(metadata) => {
                let log_level_name = to_class_case(metadata.profiling_level.as_str());
                Self::with_log_level(entry, log_level_name.as_str())
            },
        }
    }

    /// The measurement of an entry whose profiling level reads as `log_level_name`,
    /// or `InvalidLogLevel` when that is not a declared level.
    pub fn with_log_level(entry: MeasureEntry<Time>, log_level_name: &str) -> (result: Result<
        Self,
        MeasurementConversionError,
    >)
        ensures
            match measurement_with_level(entry, log_level_name@) {
                Ok(record) => result matches Ok(m) && m@ == record,
                Err(e) => result matches Err(f) && f == e,
            },
    {
        let MeasureEntry { name, start_time, duration } = entry;
        match plain_string_from_str(log_level_name) {
            Ok(log_level) => {
                let level: &str = log_level.as_str();
                if str_equal(level, "Section") || str_equal(level, "Task") || str_equal(
                    level,
                    "Detail",
                ) || str_equal(level, "Debug") {
                    Ok(Measurement { name, start_time, duration, log_level })
                } else {
                    Err(MeasurementConversionError::InvalidLogLevel)
                }
            },
            Err(_) => Err(MeasurementConversionError::InvalidLogLevel),
        }
    }
}

/// Error that can occur when taking a measurement.
#[derive(Clone, Debug)]
pub enum MeasurementError {
    /// Parsing the measurement information from the timeline failed.
    InvalidMeasurementConversion,
    /// No measurement was created in the timeline.
    NoMeasurementFound,
    /// A call to the performance timeline failed to execute.
    PerformanceAPIExecutionFailure {
        /// Underlying error returned by the JavaScript side.
        error: wasm_bindgen::JsValue,
    },
    /// Profiling for the given profiling level was disabled.
    ProfilingDisabled,
}

/// Result of profiling a closure: the closure's return value and the measurement.
#[derive(Clone, Debug)]
pub struct IntervalMeasurementResult<T, Time> {
    /// Return value of the measured closure.
    pub value: T,
    /// Measurement result.
    pub measurement: Result<Measurement<Time>, MeasurementError>,
}

// ==========================
// === Starting Intervals ===
// ==========================

/// Handle that allows ending an interval.
#[derive(Clone, Debug)]
pub struct IntervalHandle {
    metadata: Metadata,
    released: bool,
}

/// What starting an interval does: the start mark to place with its metadata, if
/// any, and the handle of the interval.
pub struct StartInterval {
    /// Name of the start mark to place, with the metadata it carries, when the
    /// interval's profiling level is active.
    pub mark: Option<(String, Metadata)>,
    /// Handle that ends the interval.
    pub handle: IntervalHandle,
}

/// Starts measuring an interval: when `active` (whether the profiling level is
/// profiled), the start mark is placed with the metadata. The handle can end the
/// interval; so can `EndInterval` with the same metadata.
pub fn start_interval(metadata: Metadata, active: bool) -> (started: StartInterval)
    ensures
        started.handle.metadata() == metadata,
        !started.handle.is_released(),
        active ==> (started.mark matches Some((mark, carried)) && mark@ == measure_name(metadata)
            + start_suffix() && carried == metadata),
        !active ==> started.mark is None,
{
    let mark = if active {
        Some((start_interval_label(&metadata), metadata.duplicate()))
    } else {
        None
    };
    StartInterval { mark, handle: IntervalHandle::new(metadata) }
}

impl IntervalHandle {
    fn new(metadata: Metadata) -> (handle: Self)
        ensures
            handle.metadata() == metadata,
            !handle.is_released(),
    {
        IntervalHandle { metadata, released: false }
    }

    /// The metadata of the interval.
    pub closed spec fn metadata(&self) -> Metadata {
        self.metadata
    }

    /// Whether the handle was released, so that dropping it does nothing.
    pub closed spec fn is_released(&self) -> bool {
        self.released
    }

    /// The metadata of the interval.
    pub fn interval_metadata(&self) -> (metadata: &Metadata)
        ensures
            *metadata == self.metadata(),
    {
        &self.metadata
    }

    /// Whether the handle was released.
    pub fn released(&self) -> (released: bool)
        ensures
            released == self.is_released(),
    {
        self.released
    }

    /// Measure the interval: releases the handle and returns the protocol that ends it.
    pub fn end(&mut self) -> (end: EndInterval)
        ensures
            final(self).is_released(),
            final(self).metadata() == old(self).metadata(),
            end.metadata() == old(self).metadata(),
            end.phase() == EndIntervalPhase::Begin,
    {
        self.released = true;
        EndInterval::new(self.metadata.duplicate())
    }

    /// Release the handle, so that dropping it neither ends the interval nor warns.
    pub fn release(&mut self)
        ensures
            final(self).is_released(),
            final(self).metadata() == old(self).metadata(),
    {
        self.released = true;
    }

    /// What dropping the handle does: nothing once it was released; else it ends
    /// the interval and warns `<label> was dropped without a call to `measure`.`
    pub fn on_drop(&mut self) -> (dropped: Option<(EndInterval, String)>)
        ensures
            final(self).is_released(),
            final(self).metadata() == old(self).metadata(),
            old(self).is_released() ==> dropped is None,
            !old(self).is_released() ==> (dropped matches Some((end, warning)) && end.metadata()
                == old(self).metadata() && end.phase() == EndIntervalPhase::Begin && warning@
                == old(self).metadata().label@ + unmeasured_drop_suffix()),
    {
        if self.released {
            None
        } else {
            proof {
                reveal_strlit(" was dropped without a call to `measure`.");
            }
            let end = self.end();
            let mut warning = self.metadata.label.clone();
            warning.append(" was dropped without a call to `measure`.");
            Some((end, warning))
        }
    }
}

/// The text that follows the label in the warning of a handle dropped unreleased.
pub open spec fn unmeasured_drop_suffix() -> Seq<char> {
    " was dropped without a call to `measure`."@
}

// ========================
// === Ending Intervals ===
// ========================

/// What the protocol that ends an interval asks of the performance timeline next.
pub enum EndIntervalAction<Time> {
    /// Place a mark with this name, carrying the metadata.
    MarkEnd {
        /// Name of the end mark.
        label: String,
        /// Metadata the mark carries.
        metadata: Metadata,
    },
    /// Record a measurement between two marks, carrying the metadata.
    Measure {
        /// Name of the measurement.
        measure_label: String,
        /// Name of the mark it starts at.
        start_label: String,
        /// Name of the mark it ends at.
        end_label: String,
        /// Metadata the measurement carries.
        metadata: Metadata,
    },
    /// Report the latest measurement of the timeline, with the metadata attached to it.
    FetchLatestMeasure,
    /// Nothing more: this is the result.
    Finish(Result<Measurement<Time>, MeasurementError>),
}

/// What the performance timeline answered.
pub enum EndIntervalEvent<Time> {
    /// The protocol is run; `active` tells whether the interval's level is profiled.
    Begin {
        /// Whether the profiling level is profiled.
        active: bool,
    },
    /// The end mark was placed, or the call threw this JavaScript error.
    EndMarked {
        /// What the call gave.
        outcome: Result<(), wasm_bindgen::JsValue>,
    },
    /// The measurement was recorded, or the call threw this JavaScript error.
    Measured {
        /// What the call gave.
        outcome: Result<(), wasm_bindgen::JsValue>,
    },
    /// The latest measurement of the timeline with the metadata attached to it
    /// (`None` when that could not be read), or `None` when the timeline holds none.
    LatestMeasure {
        /// The entry.
        entry: Option<(MeasureEntry<Time>, Option<Metadata>)>,
    },
}

/// The event that the protocol awaits in each phase.
pub open spec fn event_expected<Time>(phase: EndIntervalPhase, event: EndIntervalEvent<Time>) -> bool {
    match event {
        EndIntervalEvent::Begin { .. } => phase == EndIntervalPhase::Begin,
        EndIntervalEvent::EndMarked { .. } => phase == EndIntervalPhase::MarkingEnd,
        EndIntervalEvent::Measured { .. } => phase == EndIntervalPhase::Measuring,
        EndIntervalEvent::LatestMeasure { .. } => phase == EndIntervalPhase::Fetching,
    }
}

/// The phase that follows on `event`.
pub open spec fn next_phase<Time>(event: EndIntervalEvent<Time>) -> EndIntervalPhase {
    match event {
        EndIntervalEvent::Begin { active } => if active {
            EndIntervalPhase::MarkingEnd
        } else {
            EndIntervalPhase::Finished
        },
        EndIntervalEvent::EndMarked { outcome } => if outcome is Ok {
            EndIntervalPhase::Measuring
        } else {
            EndIntervalPhase::Finished
        },
        EndIntervalEvent::Measured { outcome } => if outcome is Ok {
            EndIntervalPhase::Fetching
        } else {
            EndIntervalPhase::Finished
        },
        EndIntervalEvent::LatestMeasure { .. } => EndIntervalPhase::Finished,
    }
}

/// The protocol that ends an interval: it places the end mark, measures from
/// the start mark to the end mark, and converts the latest measurement of the
/// timeline.
pub struct EndInterval {
    metadata: Metadata,
    phase: EndIntervalPhase,
}

impl EndInterval {
    /// The protocol that ends the interval with the given metadata.
    pub fn new(metadata: Metadata) -> (end: Self)
        ensures
            end.metadata() == metadata,
            end.phase() == EndIntervalPhase::Begin,
    {
        EndInterval { metadata, phase: EndIntervalPhase::Begin }
    }

    /// The metadata of the interval.
    pub closed spec fn metadata(&self) -> Metadata {
        self.metadata
    }

    /// Where the protocol stands.
    pub closed spec fn phase(&self) -> EndIntervalPhase {
        self.phase
    }

    /// Where the protocol stands.
    pub fn current_phase(&self) -> (phase: EndIntervalPhase)
        ensures
            phase == self.phase(),
    {
        self.phase
    }

    /// Takes the timeline's answer and says what to do next.
    pub fn step<Time>(&mut self, event: EndIntervalEvent<Time>) -> (action: EndIntervalAction<Time>)
        requires
            event_expected(old(self).phase(), event),
        ensures
            final(self).metadata() == old(self).metadata(),
            final(self).phase() == next_phase(event),
            match event {
                EndIntervalEvent::Begin { active } => if active {
                    action matches EndIntervalAction::MarkEnd { label, metadata } && label@
                        == measure_name(old(self).metadata()) + end_suffix() && metadata == old(
                        self,
                    ).metadata()
                } else {
                    action matches EndIntervalAction::Finish(r) && r matches Err(e)
                        && e is ProfilingDisabled
                },
                EndIntervalEvent::EndMarked { outcome } => match outcome {
                    Ok(_) => action matches EndIntervalAction::Measure {
                        measure_label,
                        start_label,
                        end_label,
                        metadata,
                    } && measure_label@ == measure_name(old(self).metadata()) && start_label@
                        == measure_name(old(self).metadata()) + start_suffix() && end_label@
                        == measure_name(old(self).metadata()) + end_suffix() && metadata == old(
                        self,
                    ).metadata(),
                    Err(error) => action matches EndIntervalAction::Finish(r) && r == Err::<
                        Measurement<Time>,
                        MeasurementError,
                    >(MeasurementError::PerformanceAPIExecutionFailure { error }),
                },
                EndIntervalEvent::Measured { outcome } => match outcome {
                    Ok(_) => action is FetchLatestMeasure,
                    Err(error) => action matches EndIntervalAction::Finish(r) && r == Err::<
                        Measurement<Time>,
                        MeasurementError,
                    >(MeasurementError::PerformanceAPIExecutionFailure { error }),
                },
                EndIntervalEvent::LatestMeasure { entry } => action matches EndIntervalAction::Finish(
                    r,
                ) && match entry {
                    None => r matches Err(e) && e is NoMeasurementFound,
                    Some((measure, detail)) => match convert_entry(measure, detail) {
                        Ok(record) => r matches Ok(m) && m@ == record,
                        Err(_) => r matches Err(e) && e is InvalidMeasurementConversion,
                    },
                },
            },
    {
        match event {
            EndIntervalEvent::Begin { active } => {
                if active {
                    self.phase = EndIntervalPhase::MarkingEnd;
                    EndIntervalAction::MarkEnd {
                        label: end_interval_label(&self.metadata),
                        metadata: self.metadata.duplicate(),
                    }
                } else {
                    self.phase = EndIntervalPhase::Finished;
                    EndIntervalAction::Finish(Err(MeasurementError::ProfilingDisabled))
                }
            },
            EndIntervalEvent::EndMarked { outcome } => match outcome {
                Ok(()) => {
                    self.phase = EndIntervalPhase::Measuring;
                    EndIntervalAction::Measure {
                        measure_label: measure_interval_label(&self.metadata),
                        start_label: start_interval_label(&self.metadata),
                        end_label: end_interval_label(&self.metadata),
                        metadata: self.metadata.duplicate(),
                    }
                },
                Err(error) => {
                    self.phase = EndIntervalPhase::Finished;
                    EndIntervalAction::Finish(
                        Err(MeasurementError::PerformanceAPIExecutionFailure { error }),
                    )
                },
            },
            EndIntervalEvent::Measured { outcome } => match outcome {
                Ok(()) => {
                    self.phase = EndIntervalPhase::Fetching;
                    EndIntervalAction::FetchLatestMeasure
                },
                Err(error) => {
                    self.phase = EndIntervalPhase::Finished;
                    EndIntervalAction::Finish(
                        Err(MeasurementError::PerformanceAPIExecutionFailure { error }),
                    )
                },
            },
            EndIntervalEvent::LatestMeasure { entry } => {
                self.phase = EndIntervalPhase::Finished;
                match entry {
                    None => EndIntervalAction::Finish(Err(MeasurementError::NoMeasurementFound)),
                    Some((measure, detail)) => match Measurement::try_from_entry(measure, detail) {
                        Ok(m) => EndIntervalAction::Finish(Ok(m)),
                        Err(_) => EndIntervalAction::Finish(
                            Err(MeasurementError::InvalidMeasurementConversion),
                        ),
                    },
                }
            },
        }
    }
}

// ===============
// === Reports ===
// ===============

/// The measurements converted from the timeline entries, in their order,
/// leaving out the entries that cannot be converted.
pub open spec fn converted_entries<Time>(
    entries: Seq<(MeasureEntry<Time>, Option<Metadata>)>,
) -> Seq<MeasurementRecord<Time>>
    decreases entries.len(),
{
    if entries.len() == 0 {
        Seq::empty()
    } else {
        let rest = converted_entries(entries.drop_first());
        match convert_entry(entries[0].0, entries[0].1) {
            Ok(record) => seq![record] + rest,
            Err(_) => rest,
        }
    }
}

/// Report of all measurements taken during the session.
#[derive(Clone, Debug)]
pub struct Report<Time> {
    measures: Vec<Measurement<Time>>,
}

impl<Time> Report<Time> {
    /// The measurements of the report.
    pub closed spec fn records(&self) -> Seq<MeasurementRecord<Time>> {
        self.measures@.map_values(|m: Measurement<Time>| m@)
    }

    /// The report of the measurements that the timeline's entries convert to.
    pub fn generate(entries: Vec<(MeasureEntry<Time>, Option<Metadata>)>) -> (report: Self)
        ensures
            report.records() == converted_entries(entries@),
    {
        let mut entries = entries;
        let ghost original = entries@;
        let mut measures: Vec<Measurement<Time>> = Vec::new();
        while entries.len() > 0
            invariant
                measures@.map_values(|m: Measurement<Time>| m@) + converted_entries(entries@)
                    == converted_entries(original),
            decreases entries.len(),
        {
            let ghost before = entries@;
            let (measure, detail) = entries.remove(0);
            assert(entries@ =~= before.drop_first());
            let ghost done = measures@.map_values(|m: Measurement<Time>| m@);
            match Measurement::try_from_entry(measure, detail) {
                Ok(m) => {
                    measures.push(m);
                    assert(measures@.map_values(|m: Measurement<Time>| m@) =~= done.push(
                        measures@.last()@,
                    ));
                    assert(done.push(measures@.last()@) + converted_entries(entries@) =~= done
                        + converted_entries(before));
                },
                Err(_) => {},
            }
        }
        assert(converted_entries(entries@) =~= Seq::<MeasurementRecord<Time>>::empty());
        assert(measures@.map_values(|m: Measurement<Time>| m@) + Seq::<
            MeasurementRecord<Time>,
        >::empty() =~= measures@.map_values(|m: Measurement<Time>| m@));
        Report { measures }
    }

    /// The measurements of the report, in the order they were recorded.
    pub fn measures(&self) -> (measures: &Vec<Measurement<Time>>)
        ensures
            measures@.map_values(|m: Measurement<Time>| m@) == self.records(),
    {
        &self.measures
    }

    /// The order in which the report lists its measurements: stably sorted by
    /// start time, where `start_keys[i]` orders the start time of measurement `i`
    /// as the start times compare.
    pub fn display_order(&self, start_keys: &Vec<u64>) -> (order: Vec<usize>)
        requires
            start_keys.len() == self.records().len(),
        ensures
            is_stable_order(start_keys@, order@),
    {
        stable_order(start_keys)
    }
}

} // verus!
