//! Interval profiling whose measurements carry one of a fixed set of log levels.
//!
//! A mark or measurement of the performance timeline is named
//! `LEVEL//interval name//kind`, where `kind` is `start`, `end` or `measure`.
//! A recorded measurement is decoded back from that name.
use vstd::prelude::*;
use crate::order::{is_stable_order, stable_order};
use crate::text::{
    find_delimiter, first_delimiter_from, lemma_first_delimiter_is, lemma_first_delimiter_from,
    delimiter_at, str_equal, substring,
};

verus! {

// =================
// === Log Level ===
// =================

/// The level of detail an interval is profiled at.
#[allow(non_camel_case_types, missing_docs)]
#[derive(Clone, Copy, Debug, PartialEq, Eq, Structural)]
pub enum LogLevel {
    SECTION,
    TASK,
    DETAIL,
    DEBUG,
}

/// Which log levels the build profiles: each is switched on by the build feature
/// `enable-<level>-profiling`.
#[derive(Clone, Copy, Debug, PartialEq, Eq, Structural)]
pub struct ProfilingToggles {
    /// Whether the log level `section` is profiled.
    pub section: bool,
    /// Whether the log level `task` is profiled.
    pub task: bool,
    /// Whether the log level `detail` is profiled.
    pub detail: bool,
    /// Whether the log level `debug` is profiled.
    pub debug: bool,
}

/// Whether intervals of the given level are profiled under `toggles`.
pub open spec fn spec_log_level_is_active(toggles: ProfilingToggles, log_level: LogLevel) -> bool {
    match log_level {
        LogLevel::SECTION => toggles.section,
        LogLevel::TASK => toggles.task,
        LogLevel::DETAIL => toggles.detail,
        LogLevel::DEBUG => toggles.debug,
    }
}

/// Check whether the given log level should perform any logging activity.
pub fn log_level_is_active(toggles: &ProfilingToggles, log_level: LogLevel) -> (active: bool)
    ensures
        active == spec_log_level_is_active(*toggles, log_level),
{
    match log_level {
        LogLevel::SECTION => toggles.section,
        LogLevel::TASK => toggles.task,
        LogLevel::DETAIL => toggles.detail,
        LogLevel::DEBUG => toggles.debug,
    }
}

/// Each log level is profiled exactly when its own toggle is on.
pub proof fn lemma_log_level_active_by_own_toggle(toggles: ProfilingToggles)
    ensures
        spec_log_level_is_active(toggles, LogLevel::SECTION) == toggles.section,
        spec_log_level_is_active(toggles, LogLevel::TASK) == toggles.task,
        spec_log_level_is_active(toggles, LogLevel::DETAIL) == toggles.detail,
        spec_log_level_is_active(toggles, LogLevel::DEBUG) == toggles.debug,
{
}

/// The plain-text name of a log level: the name of its variant.
pub open spec fn level_name(log_level: LogLevel) -> Seq<char> {
    match log_level {
        LogLevel::SECTION => seq!['S', 'E', 'C', 'T', 'I', 'O', 'N'],
        LogLevel::TASK => seq!['T', 'A', 'S', 'K'],
        LogLevel::DETAIL => seq!['D', 'E', 'T', 'A', 'I', 'L'],
        LogLevel::DEBUG => seq!['D', 'E', 'B', 'U', 'G'],
    }
}

/// The log level whose plain-text name is exactly `name`, if there is one.
pub open spec fn level_named(name: Seq<char>) -> Option<LogLevel> {
    if name == level_name(LogLevel::SECTION) {
        Some(LogLevel::SECTION)
    } else if name == level_name(LogLevel::TASK) {
        Some(LogLevel::TASK)
    } else if name == level_name(LogLevel::DETAIL) {
        Some(LogLevel::DETAIL)
    } else if name == level_name(LogLevel::DEBUG) {
        Some(LogLevel::DEBUG)
    } else {
        None
    }
}

/// The plain-text name of a log level.
pub fn log_level_name(log_level: LogLevel) -> (name: &'static str)
    ensures
        name@ == level_name(log_level),
{
    match log_level {
        LogLevel::SECTION => {
            proof {
                reveal_strlit("SECTION");
            }
            "SECTION"
        },
        LogLevel::TASK => {
            proof {
                reveal_strlit("TASK");
            }
            "TASK"
        },
        LogLevel::DETAIL => {
            proof {
                reveal_strlit("DETAIL");
            }
            "DETAIL"
        },
        LogLevel::DEBUG => {
            proof {
                reveal_strlit("DEBUG");
            }
            "DEBUG"
        },
    }
}

/// The log level named by the plain text `name`, or `None` when no level has that name.
pub fn parse_log_level(name: &str) -> (log_level: Option<LogLevel>)
    ensures
        log_level == level_named(name@),
{
    if str_equal(name, log_level_name(LogLevel::SECTION)) {
        Some(LogLevel::SECTION)
    } else if str_equal(name, log_level_name(LogLevel::TASK)) {
        Some(LogLevel::TASK)
    } else if str_equal(name, log_level_name(LogLevel::DETAIL)) {
        Some(LogLevel::DETAIL)
    } else if str_equal(name, log_level_name(LogLevel::DEBUG)) {
        Some(LogLevel::DEBUG)
    } else {
        None
    }
}

/// Every log level is read back from its own name, and from no other level's name.
pub proof fn lemma_log_level_name_roundtrip(log_level: LogLevel, other: LogLevel)
    ensures
        level_named(level_name(log_level)) == Some(log_level),
        level_name(log_level) == level_name(other) ==> log_level == other,
{
    assert(level_name(LogLevel::SECTION) != level_name(LogLevel::TASK)) by {
        assert(level_name(LogLevel::SECTION).len() != level_name(LogLevel::TASK).len());
    }
    assert(level_name(LogLevel::SECTION) != level_name(LogLevel::DETAIL)) by {
        assert(level_name(LogLevel::SECTION).len() != level_name(LogLevel::DETAIL).len());
    }
    assert(level_name(LogLevel::SECTION) != level_name(LogLevel::DEBUG)) by {
        assert(level_name(LogLevel::SECTION).len() != level_name(LogLevel::DEBUG).len());
    }
    assert(level_name(LogLevel::TASK) != level_name(LogLevel::DETAIL)) by {
        assert(level_name(LogLevel::TASK).len() != level_name(LogLevel::DETAIL).len());
    }
    assert(level_name(LogLevel::TASK) != level_name(LogLevel::DEBUG)) by {
        assert(level_name(LogLevel::TASK).len() != level_name(LogLevel::DEBUG).len());
    }
    assert(level_name(LogLevel::DETAIL) != level_name(LogLevel::DEBUG)) by {
        assert(level_name(LogLevel::DETAIL)[2] != level_name(LogLevel::DEBUG)[2]);
    }
}

// ==============
// === Labels ===
// ==============

/// The delimiter that separates the parts of a timeline name.
pub open spec fn delimiter() -> Seq<char> {
    seq!['/', '/']
}

/// The kind part of the mark that starts an interval.
pub open spec fn start_kind() -> Seq<char> {
    seq!['s', 't', 'a', 'r', 't']
}

/// The kind part of the mark that ends an interval.
pub open spec fn end_kind() -> Seq<char> {
    seq!['e', 'n', 'd']
}

/// The kind part of the measurement between the two marks of an interval.
pub open spec fn measure_kind() -> Seq<char> {
    seq!['m', 'e', 'a', 's', 'u', 'r', 'e']
}

/// The timeline name `LEVEL//interval name//kind`.
pub open spec fn encode_label(log_level: LogLevel, interval_name: Seq<char>, kind: Seq<char>) -> Seq<
    char,
> {
    level_name(log_level) + delimiter() + interval_name + delimiter() + kind
}

/// Builds `LEVEL//interval name//kind`.
fn encode(log_level: LogLevel, interval_name: &str, kind: &str) -> (label: String)
    ensures
        label@ == encode_label(log_level, interval_name@, kind@),
{
    proof {
        reveal_strlit("//");
    }
    let mut label = String::new();
    label.append(log_level_name(log_level));
    label.append("//");
    label.append(interval_name);
    label.append("//");
    label.append(kind);
    assert(label@ =~= encode_label(log_level, interval_name@, kind@));
    label
}

/// The name of the mark that indicates the start of an interval.
pub fn start_interval_label(log_level: LogLevel, interval_name: &str) -> (label: String)
    ensures
        label@ == encode_label(log_level, interval_name@, start_kind()),
{
    proof {
        reveal_strlit("start");
    }
    encode(log_level, interval_name, "start")
}

/// The name of the mark that indicates the end of an interval.
pub fn end_interval_label(log_level: LogLevel, interval_name: &str) -> (label: String)
    ensures
        label@ == encode_label(log_level, interval_name@, end_kind()),
{
    proof {
        reveal_strlit("end");
    }
    encode(log_level, interval_name, "end")
}

/// The name of the measurement of an interval.
pub fn measure_interval_label(log_level: LogLevel, interval_name: &str) -> (label: String)
    ensures
        label@ == encode_label(log_level, interval_name@, measure_kind()),
{
    proof {
        reveal_strlit("measure");
    }
    encode(log_level, interval_name, "measure")
}

/// The start mark, the end mark and the measurement of one interval have three
/// different names.
pub proof fn lemma_labels_distinct(log_level: LogLevel, interval_name: Seq<char>)
    ensures
        encode_label(log_level, interval_name, start_kind()) != encode_label(
            log_level,
            interval_name,
            end_kind(),
        ),
        encode_label(log_level, interval_name, start_kind()) != encode_label(
            log_level,
            interval_name,
            measure_kind(),
        ),
        encode_label(log_level, interval_name, end_kind()) != encode_label(
            log_level,
            interval_name,
            measure_kind(),
        ),
{
    let s = encode_label(log_level, interval_name, start_kind());
    let e = encode_label(log_level, interval_name, end_kind());
    let m = encode_label(log_level, interval_name, measure_kind());
    assert(s.len() != e.len());
    assert(e.len() != m.len());
    let p = level_name(log_level) + delimiter() + interval_name + delimiter();
    assert(s =~= p + start_kind());
    assert(m =~= p + measure_kind());
    assert(s[p.len() as int + 1] == 't');
    assert(m[p.len() as int + 1] == 'e');
}

// ==========================
// === Decoding the names ===
// ==========================

/// The interval-name part of the rest of a timeline name after its first
/// delimiter: everything up to the next delimiter, or all of it.
pub open spec fn name_part(rest: Seq<char>) -> Seq<char> {
    match first_delimiter_from(rest, 0) {
        Some(j) => rest.take(j),
        None => rest,
    }
}

/// Decodes a timeline name, as the first two parts of splitting it at `//`:
/// the first part must name a log level, the second is the interval name.
pub open spec fn decode_name(name: Seq<char>) -> Result<
    (LogLevel, Seq<char>),
    MeasurementConversionError,
> {
    match first_delimiter_from(name, 0) {
        None => Err(MeasurementConversionError::InvalidFormatting),
        Some(i) => match level_named(name.take(i)) {
            None => Err(MeasurementConversionError::InvalidLogLevel),
            Some(log_level) => Ok((log_level, name_part(name.skip(i + 2)))),
        },
    }
}

/// An interval name that can be read back from a timeline name: it holds no
/// `//` and does not end in `/`.
pub open spec fn decodable_interval_name(interval_name: Seq<char>) -> bool {
    first_delimiter_from(interval_name.push('/'), 0) is None
}

/// Decoding the name of any mark or measurement of an interval gives back the
/// interval's log level and name, when the interval name holds no `//` and does
/// not end in `/`.
pub proof fn lemma_decode_encoded_label(
    log_level: LogLevel,
    interval_name: Seq<char>,
    kind: Seq<char>,
)
    requires
        decodable_interval_name(interval_name),
    ensures
        decode_name(encode_label(log_level, interval_name, kind)) == Ok::<
            (LogLevel, Seq<char>),
            MeasurementConversionError,
        >((log_level, interval_name)),
{
    let level = level_name(log_level);
    let s = encode_label(log_level, interval_name, kind);
    let k = level.len() as int;
    assert forall|j: int| 0 <= j < level.len() implies level[j] != '/' by {}
    assert(delimiter_at(s, k));
    assert forall|j: int| 0 <= j < k implies !delimiter_at(s, j) by {
        assert(s[j] == level[j]);
    }
    lemma_first_delimiter_is(s, 0, k);
    assert(s.take(k) =~= level);
    lemma_log_level_name_roundtrip(log_level, log_level);
    let rest = s.skip(k + 2);
    assert(rest =~= interval_name + delimiter() + kind);
    let n = interval_name.len() as int;
    let pushed = interval_name.push('/');
    lemma_first_delimiter_from(pushed, 0);
    assert(delimiter_at(rest, n));
    assert forall|j: int| 0 <= j < n implies !delimiter_at(rest, j) by {
        assert(!delimiter_at(pushed, j));
        assert(rest[j] == pushed[j]);
        assert(rest[j + 1] == pushed[j + 1]);
    }
    lemma_first_delimiter_is(rest, 0, n);
    assert(rest.take(n) =~= interval_name);
}

// ====================
// === Measurements ===
// ====================

/// A measurement as the performance timeline records it: its name and its
/// start time and duration.
#[derive(Clone, Debug)]
pub struct MeasureEntry<Time> {
    /// Name of the entry.
    pub name: String,
    /// When the measured interval started.
    pub start_time: Time,
    /// How long the measured interval lasted.
    pub duration: Time,
}

/// A single interval measurement.
#[allow(missing_docs)]
#[derive(Clone, Debug)]
pub struct Measurement<Time> {
    pub name: String,
    pub start_time: Time,
    pub duration: Time,
    pub log_level: LogLevel,
}

/// What a measurement holds, as plain values.
pub struct MeasurementRecord<Time> {
    /// The interval name.
    pub name: Seq<char>,
    /// When the interval started.
    pub start_time: Time,
    /// How long the interval lasted.
    pub duration: Time,
    /// The log level of the interval.
    pub log_level: LogLevel,
}

impl<Time> View for Measurement<Time> {
    type V = MeasurementRecord<Time>;

    open spec fn view(&self) -> MeasurementRecord<Time> {
        MeasurementRecord {
            name: self.name@,
            start_time: self.start_time,
            duration: self.duration,
            log_level: self.log_level,
        }
    }
}

/// The measurement decoded from a timeline entry, or the reason it cannot be decoded.
pub open spec fn decode_entry<Time>(name: Seq<char>, start_time: Time, duration: Time) -> Result<
    MeasurementRecord<Time>,
    MeasurementConversionError,
> {
    match decode_name(name) {
        Ok((log_level, interval_name)) => Ok(
            MeasurementRecord { name: interval_name, start_time, duration, log_level },
        ),
        Err(e) => Err(e),
    }
}

/// Error that can occur when converting between a timeline entry and a `Measurement`.
#[derive(Debug, Clone, Copy, PartialEq, Eq, Structural)]
pub enum MeasurementConversionError {
    /// The name of the entry was not in a format that could be decoded to a `Measurement`.
    InvalidFormatting,
    /// The log level encoded in the entry's name is not a valid log level.
    InvalidLogLevel,
}

impl<Time> Measurement<Time> {
    /// Decodes a timeline entry named `LEVEL//interval name//...` into a measurement.
    pub fn try_from_entry(entry: MeasureEntry<Time>) -> (result: Result<
        Self,
        MeasurementConversionError,
    >)
        ensures
            match decode_entry(entry.name@, entry.start_time, entry.duration) {
                Ok(record) => result matches Ok(m) && m@ == record,
                Err(e) => result matches Err(f) && f == e,
            },
    {
        let MeasureEntry { name, start_time, duration } = entry;
        let full: &str = name.as_str();
        let len = full.unicode_len();
        match find_delimiter(full, 0) {
            None => Err(MeasurementConversionError::InvalidFormatting),
            Some(i) => {
                proof {
                    lemma_first_delimiter_from(full@, 0);
                }
                let level_text = substring(full, 0, i);
                let rest = substring(full, i + 2, len);
                proof {
                    assert(full@.take(i as int) =~= full@.subrange(0, i as int));
                    assert(full@.skip(i + 2) =~= full@.subrange(i + 2, len as int));
                }
                let rest_str: &str = rest.as_str();
                let part = match find_delimiter(rest_str, 0) {
                    Some(j) => {
                        proof {
                            lemma_first_delimiter_from(rest@, 0);
                        }
                        let p = substring(rest_str, 0, j);
                        assert(p@ =~= rest@.take(j as int));
                        p
                    },
                    None => rest,
                };
                match parse_log_level(level_text.as_str()) {
                    None => Err(MeasurementConversionError::InvalidLogLevel),
                    Some(log_level) => Ok(Measurement { name: part, start_time, duration, log_level }),
                }
            },
        }
    }
}

/// Error that can occur when taking a measurement.
#[derive(Clone, Copy, Debug, PartialEq, Eq, Structural)]
pub enum MeasurementError {
    /// Parsing the measurement information from the performance timeline failed, for
    /// example, due to an invalid log level.
    InvalidMeasurementConversion,
    /// No measurement was created in the performance timeline.
    NoMeasurementFound,
    /// A call to the performance timeline failed to execute.
    PerformanceAPIExecutionFailure,
    /// Profiling for the given log level was disabled.
    ProfilingDisabled,
}

/// Result of profiling a closure: the closure's return value and the measurement.
#[derive(Clone, Debug)]
pub struct IntervalMeasurementResult<T, Time> {
    /// Return value of the measured closure.
    pub value: T,
    /// Measurement result.
    pub measurement: Result<Measurement<Time>, MeasurementError>,
}

// ==========================
// === Starting Intervals ===
// ==========================

/// Handle that allows ending an interval.
#[derive(Clone, Debug)]
pub struct IntervalHandle {
    interval_name: String,
    log_level: LogLevel,
    released: bool,
}

/// What starting an interval does: the start mark to place on the timeline, if
/// any, and the handle of the interval.
pub struct StartInterval {
    /// Name of the start mark to place, when the interval's level is active.
    pub mark: Option<String>,
    /// Handle that ends the interval.
    pub handle: IntervalHandle,
}

/// Starts measuring an interval: when `active` (whether the level is profiled,
/// see `log_level_is_active`), the start mark is placed. The handle can end the
/// interval; so can `EndInterval` with the same level and name.
pub fn start_interval(log_level: LogLevel, label: &str, active: bool) -> (started: StartInterval)
    ensures
        started.handle.interval_name() == label@,
        started.handle.log_level() == log_level,
        !started.handle.is_released(),
        active ==> (started.mark matches Some(mark) && mark@ == encode_label(
            log_level,
            label@,
            start_kind(),
        )),
        !active ==> started.mark is None,
{
    let mark = if active {
        Some(start_interval_label(log_level, label))
    } else {
        None
    };
    StartInterval { mark, handle: IntervalHandle::new(log_level, label) }
}

impl IntervalHandle {
    fn new(log_level: LogLevel, interval_name: &str) -> (handle: Self)
        ensures
            handle.interval_name() == interval_name@,
            handle.log_level() == log_level,
            !handle.is_released(),
    {
        IntervalHandle { interval_name: String::from_str(interval_name), log_level, released: false }
    }

    /// The name of the interval.
    pub closed spec fn interval_name(&self) -> Seq<char> {
        self.interval_name@
    }

    /// The log level of the interval.
    pub closed spec fn log_level(&self) -> LogLevel {
        self.log_level
    }

    /// Whether the handle was released, so that dropping it warns of nothing.
    pub closed spec fn is_released(&self) -> bool {
        self.released
    }

    /// The name of the interval.
    pub fn name(&self) -> (name: &str)
        ensures
            name@ == self.interval_name(),
    {
        self.interval_name.as_str()
    }

    /// The log level of the interval.
    pub fn level(&self) -> (log_level: LogLevel)
        ensures
            log_level == self.log_level(),
    {
        self.log_level
    }

    /// Whether the handle was released.
    pub fn released(&self) -> (released: bool)
        ensures
            released == self.is_released(),
    {
        self.released
    }

    /// Measure the interval: releases the handle and returns the protocol that ends it.
    pub fn measure(&mut self) -> (end: EndInterval)
        ensures
            final(self).is_released(),
            final(self).interval_name() == old(self).interval_name(),
            final(self).log_level() == old(self).log_level(),
            end.interval_name() == old(self).interval_name(),
            end.log_level() == old(self).log_level(),
            end.phase() == EndIntervalPhase::Begin,
    {
        self.released = true;
        EndInterval::new(self.log_level, self.interval_name.as_str())
    }

    /// Release the handle, to end the interval by other means without a warning.
    pub fn release(&mut self)
        ensures
            final(self).is_released(),
            final(self).interval_name() == old(self).interval_name(),
            final(self).log_level() == old(self).log_level(),
    {
        self.released = true;
    }

    /// The warning due when the handle is dropped: none once it was released,
    /// else `<name> was dropped without a call to `measure`.`
    pub fn drop_warning(&self) -> (warning: Option<String>)
        ensures
            self.is_released() ==> warning is None,
            !self.is_released() ==> (warning matches Some(w) && w@ == self.interval_name()
                + unmeasured_drop_suffix()),
    {
        if self.released {
            None
        } else {
            proof {
                reveal_strlit(" was dropped without a call to `measure`.");
            }
            let mut w = String::from_str(self.interval_name.as_str());
            w.append(" was dropped without a call to `measure`.");
            Some(w)
        }
    }
}

/// The text that follows the interval name in the warning of a handle dropped unreleased.
pub open spec fn unmeasured_drop_suffix() -> Seq<char> {
    " was dropped without a call to `measure`."@
}

// ========================
// === Ending Intervals ===
// ========================

/// Where the protocol that ends an interval stands.
#[derive(Clone, Copy, Debug, PartialEq, Eq, Structural)]
pub enum EndIntervalPhase {
    /// Nothing was done yet.
    Begin,
    /// The end mark was asked for.
    MarkingEnd,
    /// The measurement between the start and end marks was asked for.
    Measuring,
    /// The latest measurement of the timeline was asked for.
    Fetching,
    /// The protocol has ended with a result.
    Finished,
}

/// What the protocol that ends an interval asks of the performance timeline next.
pub enum EndIntervalAction<Time> {
    /// Place a mark with this name.
    MarkEnd {
        /// Name of the end mark.
        label: String,
    },
    /// Record a measurement between two marks.
    Measure {
        /// Name of the measurement.
        measure_label: String,
        /// Name of the mark it starts at.
        start_label: String,
        /// Name of the mark it ends at.
        end_label: String,
    },
    /// Report the latest measurement of the timeline.
    FetchLatestMeasure,
    /// Nothing more: this is the result.
    Finish(Result<Measurement<Time>, MeasurementError>),
}

/// What the performance timeline answered.
pub enum EndIntervalEvent<Time> {
    /// The protocol is run; `active` tells whether the interval's level is profiled.
    Begin {
        /// Whether the level is profiled (see `log_level_is_active`).
        active: bool,
    },
    /// The end mark was placed, or the call failed.
    EndMarked {
        /// Whether the call succeeded.
        ok: bool,
    },
    /// The measurement was recorded, or the call failed.
    Measured {
        /// Whether the call succeeded.
        ok: bool,
    },
    /// The latest measurement of the timeline, `None` when it holds none.
    LatestMeasure {
        /// The entry.
        entry: Option<MeasureEntry<Time>>,
    },
}

/// The event that the protocol awaits in each phase.
pub open spec fn event_expected<Time>(phase: EndIntervalPhase, event: EndIntervalEvent<Time>) -> bool {
    match event {
        EndIntervalEvent::Begin { .. } => phase == EndIntervalPhase::Begin,
        EndIntervalEvent::EndMarked { .. } => phase == EndIntervalPhase::MarkingEnd,
        EndIntervalEvent::Measured { .. } => phase == EndIntervalPhase::Measuring,
        EndIntervalEvent::LatestMeasure { .. } => phase == EndIntervalPhase::Fetching,
    }
}

/// The phase that follows `phase` on `event`.
pub open spec fn next_phase<Time>(phase: EndIntervalPhase, event: EndIntervalEvent<Time>) -> EndIntervalPhase {
    match event {
        EndIntervalEvent::Begin { active } => if active {
            EndIntervalPhase::MarkingEnd
        } else {
            EndIntervalPhase::Finished
        },
        EndIntervalEvent::EndMarked { ok } => if ok {
            EndIntervalPhase::Measuring
        } else {
            EndIntervalPhase::Finished
        },
        EndIntervalEvent::Measured { ok } => if ok {
            EndIntervalPhase::Fetching
        } else {
            EndIntervalPhase::Finished
        },
        EndIntervalEvent::LatestMeasure { .. } => EndIntervalPhase::Finished,
    }
}

/// The result that the latest measurement of the timeline gives.
pub open spec fn latest_result<Time>(entry: Option<MeasureEntry<Time>>) -> Result<
    MeasurementRecord<Time>,
    MeasurementError,
> {
    match entry {
        None => Err(MeasurementError::NoMeasurementFound),
        Some(e) => match decode_entry(e.name@, e.start_time, e.duration) {
            Ok(record) => Ok(record),
            Err(_) => Err(MeasurementError::InvalidMeasurementConversion),
        },
    }
}

/// The protocol that ends an interval: it places the end mark, measures from
/// the start mark to the end mark, and decodes the latest measurement of the
/// timeline.
pub struct EndInterval {
    interval_name: String,
    log_level: LogLevel,
    phase: EndIntervalPhase,
}

impl EndInterval {
    /// The protocol that ends the interval of the given level and name.
    pub fn new(log_level: LogLevel, interval_name: &str) -> (end: Self)
        ensures
            end.interval_name() == interval_name@,
            end.log_level() == log_level,
            end.phase() == EndIntervalPhase::Begin,
    {
        EndInterval { interval_name: String::from_str(interval_name), log_level, phase: EndIntervalPhase::Begin }
    }

    /// The name of the interval.
    pub closed spec fn interval_name(&self) -> Seq<char> {
        self.interval_name@
    }

    /// The log level of the interval.
    pub closed spec fn log_level(&self) -> LogLevel {
        self.log_level
    }

    /// Where the protocol stands.
    pub closed spec fn phase(&self) -> EndIntervalPhase {
        self.phase
    }

    /// Where the protocol stands.
    pub fn current_phase(&self) -> (phase: EndIntervalPhase)
        ensures
            phase == self.phase(),
    {
        self.phase
    }

    /// Takes the timeline's answer and says what to do next.
    pub fn step<Time>(&mut self, event: EndIntervalEvent<Time>) -> (action: EndIntervalAction<Time>)
        requires
            event_expected(old(self).phase(), event),
        ensures
            final(self).interval_name() == old(self).interval_name(),
            final(self).log_level() == old(self).log_level(),
            final(self).phase() == next_phase(old(self).phase(), event),
            match event {
                EndIntervalEvent::Begin { active } => if active {
                    action matches EndIntervalAction::MarkEnd { label } && label@ == encode_label(
                        old(self).log_level(),
                        old(self).interval_name(),
                        end_kind(),
                    )
                } else {
                    action matches EndIntervalAction::Finish(r) && r == Err::<
                        Measurement<Time>,
                        MeasurementError,
                    >(MeasurementError::ProfilingDisabled)
                },
                EndIntervalEvent::EndMarked { ok } => if ok {
                    action matches EndIntervalAction::Measure {
                        measure_label,
                        start_label,
                        end_label,
                    } && measure_label@ == encode_label(
                        old(self).log_level(),
                        old(self).interval_name(),
                        measure_kind(),
                    ) && start_label@ == encode_label(
                        old(self).log_level(),
                        old(self).interval_name(),
                        start_kind(),
                    ) && end_label@ == encode_label(
                        old(self).log_level(),
                        old(self).interval_name(),
                        end_kind(),
                    )
                } else {
                    action matches EndIntervalAction::Finish(r) && r == Err::<
                        Measurement<Time>,
                        MeasurementError,
                    >(MeasurementError::PerformanceAPIExecutionFailure)
                },
                EndIntervalEvent::Measured { ok } => if ok {
                    action is FetchLatestMeasure
                } else {
                    action matches EndIntervalAction::Finish(r) && r == Err::<
                        Measurement<Time>,
                        MeasurementError,
                    >(MeasurementError::PerformanceAPIExecutionFailure)
                },
                EndIntervalEvent::LatestMeasure { entry } => action matches EndIntervalAction::Finish(
                    r,
                ) && match latest_result(entry) {
                    Ok(record) => r matches Ok(m) && m@ == record,
                    Err(e) => r matches Err(f) && f == e,
                },
            },
    {
        match event {
            EndIntervalEvent::Begin { active } => {
                if active {
                    self.phase = EndIntervalPhase::MarkingEnd;
                    EndIntervalAction::MarkEnd {
                        label: end_interval_label(self.log_level, self.interval_name.as_str()),
                    }
                } else {
                    self.phase = EndIntervalPhase::Finished;
                    EndIntervalAction::Finish(Err(MeasurementError::ProfilingDisabled))
                }
            },
            EndIntervalEvent::EndMarked { ok } => {
                if ok {
                    self.phase = EndIntervalPhase::Measuring;
                    let name = self.interval_name.as_str();
                    EndIntervalAction::Measure {
                        measure_label: measure_interval_label(self.log_level, name),
                        start_label: start_interval_label(self.log_level, name),
                        end_label: end_interval_label(self.log_level, name),
                    }
                } else {
                    self.phase = EndIntervalPhase::Finished;
                    EndIntervalAction::Finish(Err(MeasurementError::PerformanceAPIExecutionFailure))
                }
            },
            EndIntervalEvent::Measured { ok } => {
                if ok {
                    self.phase = EndIntervalPhase::Fetching;
                    EndIntervalAction::FetchLatestMeasure
                } else {
                    self.phase = EndIntervalPhase::Finished;
                    EndIntervalAction::Finish(Err(MeasurementError::PerformanceAPIExecutionFailure))
                }
            },
            EndIntervalEvent::LatestMeasure { entry } => {
                self.phase = EndIntervalPhase::Finished;
                match entry {
                    None => EndIntervalAction::Finish(Err(MeasurementError::NoMeasurementFound)),
                    Some(e) => match Measurement::try_from_entry(e) {
                        Ok(m) => EndIntervalAction::Finish(Ok(m)),
                        Err(_) => EndIntervalAction::Finish(
                            Err(MeasurementError::InvalidMeasurementConversion),
                        ),
                    },
                }
            },
        }
    }
}

/// The protocol that ends an interval reads back the interval itself when the
/// latest measurement of the timeline is the one it just recorded (and the
/// interval name holds no `//` and does not end in `/`).
pub proof fn lemma_end_interval_reads_back_its_measurement<Time>(
    log_level: LogLevel,
    interval_name: Seq<char>,
    entry: MeasureEntry<Time>,
)
    requires
        decodable_interval_name(interval_name),
        entry.name@ == encode_label(log_level, interval_name, measure_kind()),
    ensures
        latest_result(Some(entry)) == Ok::<MeasurementRecord<Time>, MeasurementError>(
            MeasurementRecord {
                name: interval_name,
                start_time: entry.start_time,
                duration: entry.duration,
                log_level,
            },
        ),
{
    lemma_decode_encoded_label(log_level, interval_name, measure_kind());
}

// ===============
// === Reports ===
// ===============

/// The measurements decoded from the timeline entries, in their order, leaving
/// out the entries that cannot be decoded.
pub open spec fn decoded_entries<Time>(entries: Seq<MeasureEntry<Time>>) -> Seq<MeasurementRecord<Time>>
    decreases entries.len(),
{
    if entries.len() == 0 {
        Seq::empty()
    } else {
        let first = entries[0];
        let rest = decoded_entries(entries.drop_first());
        match decode_entry(first.name@, first.start_time, first.duration) {
            Ok(record) => seq![record] + rest,
            Err(_) => rest,
        }
    }
}

/// A report keeps every entry that decodes, whatever its log level, in front of
/// what the following entries give, and leaves out every entry that does not.
pub proof fn lemma_decoded_entries_step<Time>(entry: MeasureEntry<Time>, rest: Seq<MeasureEntry<Time>>)
    ensures
        match decode_entry(entry.name@, entry.start_time, entry.duration) {
            Ok(record) => decoded_entries(seq![entry] + rest) == seq![record] + decoded_entries(
                rest,
            ),
            Err(_) => decoded_entries(seq![entry] + rest) == decoded_entries(rest),
        },
{
    let all = seq![entry] + rest;
    assert(all[0] == entry);
    assert(all.drop_first() =~= rest);
}

/// How many of `entries` decode.
pub open spec fn decodable_count<Time>(entries: Seq<MeasureEntry<Time>>) -> nat
    decreases entries.len(),
{
    if entries.len() == 0 {
        0
    } else {
        (if decode_entry(entries[0].name@, entries[0].start_time, entries[0].duration) is Ok {
            1nat
        } else {
            0nat
        }) + decodable_count(entries.drop_first())
    }
}

/// A report holds as many measurements as there are entries that decode.
pub proof fn lemma_decoded_entries_len<Time>(entries: Seq<MeasureEntry<Time>>)
    ensures
        decoded_entries(entries).len() == decodable_count(entries),
    decreases entries.len(),
{
    if entries.len() > 0 {
        lemma_decoded_entries_len(entries.drop_first());
    }
}

/// Report of all measurements taken during the session.
#[derive(Clone, Debug)]
pub struct Report<Time> {
    measures: Vec<Measurement<Time>>,
}

impl<Time> Report<Time> {
    /// The measurements of the report.
    pub closed spec fn records(&self) -> Seq<MeasurementRecord<Time>> {
        self.measures@.map_values(|m: Measurement<Time>| m@)
    }

    /// The report of the measurements that the timeline's entries decode to.
    pub fn generate(entries: Vec<MeasureEntry<Time>>) -> (report: Self)
        ensures
            report.records() == decoded_entries(entries@),
    {
        let mut entries = entries;
        let ghost original = entries@;
        let mut measures: Vec<Measurement<Time>> = Vec::new();
        while entries.len() > 0
            invariant
                measures@.map_values(|m: Measurement<Time>| m@) + decoded_entries(entries@)
                    == decoded_entries(original),
            decreases entries.len(),
        {
            let ghost before = entries@;
            let entry = entries.remove(0);
            assert(entries@ =~= before.drop_first());
            let ghost done = measures@.map_values(|m: Measurement<Time>| m@);
            match Measurement::try_from_entry(entry) {
                Ok(m) => {
                    measures.push(m);
                    assert(measures@.map_values(|m: Measurement<Time>| m@) =~= done.push(
                        measures@.last()@,
                    ));
                    assert(done.push(measures@.last()@) + decoded_entries(entries@) =~= done
                        + decoded_entries(before));
                },
                Err(_) => {},
            }
        }
        assert(decoded_entries(entries@) =~= Seq::<MeasurementRecord<Time>>::empty());
        assert(measures@.map_values(|m: Measurement<Time>| m@) + Seq::<
            MeasurementRecord<Time>,
        >::empty() =~= measures@.map_values(|m: Measurement<Time>| m@));
        Report { measures }
    }

    /// The measurements of the report, in the order they were recorded.
    pub fn measures(&self) -> (measures: &Vec<Measurement<Time>>)
        ensures
            measures@.map_values(|m: Measurement<Time>| m@) == self.records(),
    {
        &self.measures
    }

    /// The order in which the report lists its measurements: stably sorted by
    /// start time, where `start_keys[i]` orders the start time of measurement `i`
    /// as the start times compare.
    pub fn display_order(&self, start_keys: &Vec<u64>) -> (order: Vec<usize>)
        requires
            start_keys.len() == self.records().len(),
        ensures
            is_stable_order(start_keys@, order@),
    {
        stable_order(start_keys)
    }
}

} // verus!
