use profiling::performance_logger::{
    end_interval_label, log_level_is_active, log_level_name, measure_interval_label,
    parse_log_level, start_interval, start_interval_label, EndInterval, EndIntervalAction,
    EndIntervalEvent, EndIntervalPhase, LogLevel, MeasureEntry, Measurement,
    MeasurementConversionError, MeasurementError, ProfilingToggles, Report,
};

const LEVELS: [LogLevel; 4] = [LogLevel::SECTION, LogLevel::TASK, LogLevel::DETAIL, LogLevel::DEBUG];

fn entry(name: &str, start_time: f64, duration: f64) -> MeasureEntry<f64> {
    MeasureEntry { name: name.to_string(), start_time, duration }
}

#[test]
fn log_level_names_are_variant_names() {
    assert_eq!(log_level_name(LogLevel::SECTION), "SECTION");
    assert_eq!(log_level_name(LogLevel::TASK), "TASK");
    assert_eq!(log_level_name(LogLevel::DETAIL), "DETAIL");
    assert_eq!(log_level_name(LogLevel::DEBUG), "DEBUG");
}

#[test]
fn log_level_name_roundtrip() {
    for level in LEVELS {
        assert_eq!(parse_log_level(log_level_name(level)), Some(level));
    }
    assert_eq!(parse_log_level("task"), None);
    assert_eq!(parse_log_level("TASKS"), None);
    assert_eq!(parse_log_level(""), None);
}

#[test]
fn log_level_is_active_follows_toggles() {
    let none = ProfilingToggles { section: false, task: false, detail: false, debug: false };
    for level in LEVELS {
        assert!(!log_level_is_active(&none, level));
    }
    let some = ProfilingToggles { section: true, task: false, detail: true, debug: false };
    assert!(log_level_is_active(&some, LogLevel::SECTION));
    assert!(!log_level_is_active(&some, LogLevel::TASK));
    assert!(log_level_is_active(&some, LogLevel::DETAIL));
    assert!(!log_level_is_active(&some, LogLevel::DEBUG));
}

#[test]
fn labels_encode_level_name_and_kind() {
    assert_eq!(start_interval_label(LogLevel::TASK, "GUI init"), "TASK//GUI init//start");
    assert_eq!(end_interval_label(LogLevel::DEBUG, "x"), "DEBUG//x//end");
    assert_eq!(measure_interval_label(LogLevel::SECTION, ""), "SECTION////measure");
}

#[test]
fn decode_measure_label_roundtrip() {
    for level in LEVELS {
        let label = measure_interval_label(level, "load project");
        let m = Measurement::try_from_entry(entry(&label, 1.5, 2.25)).ok().unwrap();
        assert_eq!(m.name, "load project");
        assert_eq!(m.log_level, level);
        assert_eq!(m.start_time, 1.5);
        assert_eq!(m.duration, 2.25);
    }
}

#[test]
fn decode_takes_first_two_parts() {
    let m = Measurement::try_from_entry(entry("TASK//a///b", 0.0, 0.0)).ok().unwrap();
    assert_eq!(m.name, "a");
    let m = Measurement::try_from_entry(entry("DETAIL//only", 0.0, 0.0)).ok().unwrap();
    assert_eq!(m.name, "only");
    assert_eq!(m.log_level, LogLevel::DETAIL);
    let m = Measurement::try_from_entry(entry("DEBUG//", 0.0, 0.0)).ok().unwrap();
    assert_eq!(m.name, "");
}

#[test]
fn decode_errors() {
    let e = Measurement::try_from_entry(entry("no delimiter here", 0.0, 0.0)).err().unwrap();
    assert_eq!(e, MeasurementConversionError::InvalidFormatting);
    let e = Measurement::try_from_entry(entry("TASK/x/measure", 0.0, 0.0)).err().unwrap();
    assert_eq!(e, MeasurementConversionError::InvalidFormatting);
    let e = Measurement::try_from_entry(entry("task//x//measure", 0.0, 0.0)).err().unwrap();
    assert_eq!(e, MeasurementConversionError::InvalidLogLevel);
    let e = Measurement::try_from_entry(entry("//x//measure", 0.0, 0.0)).err().unwrap();
    assert_eq!(e, MeasurementConversionError::InvalidLogLevel);
}

#[test]
fn start_interval_marks_only_when_active() {
    let started = start_interval(LogLevel::TASK, "sample_task", true);
    assert_eq!(started.mark.as_deref(), Some("TASK//sample_task//start"));
    assert_eq!(started.handle.name(), "sample_task");
    assert_eq!(started.handle.level(), LogLevel::TASK);
    assert!(!started.handle.released());
    let started = start_interval(LogLevel::TASK, "sample_task", false);
    assert!(started.mark.is_none());
}

#[test]
fn handle_warns_only_when_dropped_unreleased() {
    let mut handle = start_interval(LogLevel::SECTION, "render", false).handle;
    assert_eq!(
        handle.drop_warning().as_deref(),
        Some("render was dropped without a call to `measure`.")
    );
    handle.release();
    assert!(handle.released());
    assert_eq!(handle.drop_warning(), None);

    let mut handle = start_interval(LogLevel::DEBUG, "layout", true).handle;
    let end = handle.measure();
    assert_eq!(end.current_phase(), EndIntervalPhase::Begin);
    assert_eq!(handle.drop_warning(), None);
}

fn finish(action: EndIntervalAction<f64>) -> Result<Measurement<f64>, MeasurementError> {
    match action {
        EndIntervalAction::Finish(result) => result,
        _ => panic!("expected the protocol to finish"),
    }
}

#[test]
fn end_interval_full_run() {
    let mut end = EndInterval::new(LogLevel::TASK, "sample_task");
    match end.step::<f64>(EndIntervalEvent::Begin { active: true }) {
        EndIntervalAction::MarkEnd { label } => assert_eq!(label, "TASK//sample_task//end"),
        _ => panic!("expected the end mark"),
    }
    assert_eq!(end.current_phase(), EndIntervalPhase::MarkingEnd);
    match end.step::<f64>(EndIntervalEvent::EndMarked { ok: true }) {
        EndIntervalAction::Measure { measure_label, start_label, end_label } => {
            assert_eq!(measure_label, "TASK//sample_task//measure");
            assert_eq!(start_label, "TASK//sample_task//start");
            assert_eq!(end_label, "TASK//sample_task//end");
        }
        _ => panic!("expected the measurement"),
    }
    assert!(matches!(
        end.step::<f64>(EndIntervalEvent::Measured { ok: true }),
        EndIntervalAction::FetchLatestMeasure
    ));
    let latest = entry("TASK//sample_task//measure", 10.0, 5.0);
    let m = finish(end.step(EndIntervalEvent::LatestMeasure { entry: Some(latest) })).ok().unwrap();
    assert_eq!(m.name, "sample_task");
    assert_eq!(m.log_level, LogLevel::TASK);
    assert_eq!(m.start_time, 10.0);
    assert_eq!(m.duration, 5.0);
    assert_eq!(end.current_phase(), EndIntervalPhase::Finished);
}

#[test]
fn end_interval_errors() {
    let mut end = EndInterval::new(LogLevel::DEBUG, "x");
    let r = finish(end.step::<f64>(EndIntervalEvent::Begin { active: false }));
    assert_eq!(r.err(), Some(MeasurementError::ProfilingDisabled));
    assert_eq!(end.current_phase(), EndIntervalPhase::Finished);

    let mut end = EndInterval::new(LogLevel::DEBUG, "x");
    end.step::<f64>(EndIntervalEvent::Begin { active: true });
    let r = finish(end.step::<f64>(EndIntervalEvent::EndMarked { ok: false }));
    assert_eq!(r.err(), Some(MeasurementError::PerformanceAPIExecutionFailure));

    let mut end = EndInterval::new(LogLevel::DEBUG, "x");
    end.step::<f64>(EndIntervalEvent::Begin { active: true });
    end.step::<f64>(EndIntervalEvent::EndMarked { ok: true });
    let r = finish(end.step::<f64>(EndIntervalEvent::Measured { ok: false }));
    assert_eq!(r.err(), Some(MeasurementError::PerformanceAPIExecutionFailure));

    let mut end = EndInterval::new(LogLevel::DEBUG, "x");
    end.step::<f64>(EndIntervalEvent::Begin { active: true });
    end.step::<f64>(EndIntervalEvent::EndMarked { ok: true });
    end.step::<f64>(EndIntervalEvent::Measured { ok: true });
    let r = finish(end.step::<f64>(EndIntervalEvent::LatestMeasure { entry: None }));
    assert_eq!(r.err(), Some(MeasurementError::NoMeasurementFound));

    let mut end = EndInterval::new(LogLevel::DEBUG, "x");
    end.step::<f64>(EndIntervalEvent::Begin { active: true });
    end.step::<f64>(EndIntervalEvent::EndMarked { ok: true });
    end.step::<f64>(EndIntervalEvent::Measured { ok: true });
    let bad = entry("x (file.rs:1)", 0.0, 1.0);
    let r = finish(end.step(EndIntervalEvent::LatestMeasure { entry: Some(bad) }));
    assert_eq!(r.err(), Some(MeasurementError::InvalidMeasurementConversion));
}

#[test]
fn report_keeps_decodable_entries_in_order() {
    let report = Report::generate(vec![
        entry("TASK//b//measure", 3.0, 1.0),
        entry("garbage", 0.0, 1.0),
        entry("SECTION//a//measure", 1.0, 2.0),
        entry("NOPE//c//measure", 1.0, 2.0),
    ]);
    let names: Vec<&str> = report.measures().iter().map(|m| m.name.as_str()).collect();
    assert_eq!(names, vec!["b", "a"]);
    assert_eq!(report.measures()[1].log_level, LogLevel::SECTION);
    assert!(Report::<f64>::generate(vec![]).measures().is_empty());
}

#[test]
fn report_display_order_is_stable_by_start() {
    let report = Report::generate(vec![
        entry("TASK//late//measure", 3.0, 1.0),
        entry("TASK//early//measure", 1.0, 1.0),
        entry("TASK//tie-first//measure", 2.0, 1.0),
        entry("TASK//tie-second//measure", 2.0, 1.0),
    ]);
    let keys = vec![30, 10, 20, 20];
    assert_eq!(report.display_order(&keys), vec![1, 2, 3, 0]);
}
