use profiling::performance_logger::{EndIntervalPhase, MeasureEntry, ProfilingToggles};
use wasm_bindgen::JsValue;
use profiling::profiling::{
    end_interval_label, measure_interval_label, start_interval, start_interval_label, EndInterval,
    EndIntervalAction, EndIntervalEvent, Measurement, MeasurementConversionError,
    MeasurementError, Metadata, Report, SourceLocation, profiling_level_is_active,
};
use profiling::text::u32_to_decimal;

fn metadata(label: &str, level: &str, file: &str, line: u32) -> Metadata {
    Metadata {
        source: SourceLocation { file: file.to_string(), line },
        profiling_level: level.to_string(),
        label: label.to_string(),
    }
}

fn entry(name: &str, start_time: f64, duration: f64) -> MeasureEntry<f64> {
    MeasureEntry { name: name.to_string(), start_time, duration }
}

#[test]
fn decimal_of_line_numbers() {
    assert_eq!(u32_to_decimal(0), "0");
    assert_eq!(u32_to_decimal(7), "7");
    assert_eq!(u32_to_decimal(10), "10");
    assert_eq!(u32_to_decimal(1234567890), "1234567890");
    assert_eq!(u32_to_decimal(u32::MAX), u32::MAX.to_string());
}

#[test]
fn metadata_labels() {
    let md = metadata("DoThing!", "task", "src/lib.rs", 22);
    assert_eq!(start_interval_label(&md), "DoThing! (src/lib.rs:22) [START]");
    assert_eq!(end_interval_label(&md), "DoThing! (src/lib.rs:22) [END]");
    assert_eq!(measure_interval_label(&md), "DoThing! (src/lib.rs:22)");
}

#[test]
fn metadata_duplicate_is_equal() {
    let md = metadata("a", "debug", "f.rs", 9);
    let copy = md.duplicate();
    assert_eq!(copy.label, "a");
    assert_eq!(copy.profiling_level, "debug");
    assert_eq!(copy.source.file, "f.rs");
    assert_eq!(copy.source.line, 9);
}

#[test]
fn conversion_class_cases_the_level() {
    let m = Measurement::try_from_entry(entry("x (f.rs:1)", 1.0, 2.0), Some(metadata("x", "task", "f.rs", 1)))
        .ok()
        .unwrap();
    assert_eq!(m.log_level, "Task");
    assert_eq!(m.name, "x (f.rs:1)");
    assert_eq!(m.start_time, 1.0);
    assert_eq!(m.duration, 2.0);
    let m = Measurement::try_from_entry(entry("y", 0.0, 0.0), Some(metadata("y", "debugs", "f.rs", 1)))
        .ok()
        .unwrap();
    assert_eq!(m.log_level, "Debug");
}

#[test]
fn conversion_rejects_undeclared_levels() {
    let e = Measurement::try_from_entry(entry("y", 0.0, 0.0), Some(metadata("y", "no-such-level", "f.rs", 1)))
        .err()
        .unwrap();
    assert_eq!(e, MeasurementConversionError::InvalidLogLevel);
    let e = Measurement::try_from_entry(entry("y", 0.0, 0.0), Some(metadata("y", "detail_levels", "f.rs", 1)))
        .err()
        .unwrap();
    assert_eq!(e, MeasurementConversionError::InvalidLogLevel);
}

#[test]
fn conversion_without_metadata_fails() {
    let e = Measurement::try_from_entry(entry("x", 0.0, 0.0), None).err().unwrap();
    assert_eq!(e, MeasurementConversionError::InvalidFormatting);
}

#[test]
fn with_log_level_keeps_the_given_level() {
    let m = Measurement::with_log_level(entry("z", 4.0, 1.0), "Section").ok().unwrap();
    assert_eq!(m.log_level, "Section");
    assert_eq!(m.name, "z");
    let e = Measurement::with_log_level(entry("z", 4.0, 1.0), "section").err().unwrap();
    assert_eq!(e, MeasurementConversionError::InvalidLogLevel);
}

#[test]
fn start_interval_marks_with_metadata_when_active() {
    let started = start_interval(metadata("GUI initialization", "task", "main.rs", 3), true);
    let (mark, carried) = started.mark.unwrap();
    assert_eq!(mark, "GUI initialization (main.rs:3) [START]");
    assert_eq!(carried.label, "GUI initialization");
    assert!(!started.handle.released());
    assert_eq!(started.handle.interval_metadata().source.line, 3);
    let started = start_interval(metadata("GUI initialization", "task", "main.rs", 3), false);
    assert!(started.mark.is_none());
}

#[test]
fn dropping_an_unreleased_handle_ends_and_warns() {
    let mut handle = start_interval(metadata("sample_task", "task", "lib.rs", 1), false).handle;
    let (end, warning) = handle.on_drop().unwrap();
    assert_eq!(warning, "sample_task was dropped without a call to `measure`.");
    assert_eq!(end.current_phase(), EndIntervalPhase::Begin);
    assert!(handle.released());
    assert!(handle.on_drop().is_none());

    let mut handle = start_interval(metadata("sample_task", "task", "lib.rs", 1), false).handle;
    handle.release();
    assert!(handle.on_drop().is_none());

    let mut handle = start_interval(metadata("sample_task", "task", "lib.rs", 1), false).handle;
    let end = handle.end();
    assert_eq!(end.current_phase(), EndIntervalPhase::Begin);
    assert!(handle.on_drop().is_none());
}

fn finish(action: EndIntervalAction<f64>) -> Result<Measurement<f64>, MeasurementError> {
    match action {
        EndIntervalAction::Finish(result) => result,
        _ => panic!("expected the protocol to finish"),
    }
}

#[test]
fn metadata_end_interval_full_run() {
    let md = metadata("load", "section", "io.rs", 120);
    let mut end = EndInterval::new(md.duplicate());
    match end.step::<f64>(EndIntervalEvent::Begin { active: true }) {
        EndIntervalAction::MarkEnd { label, metadata } => {
            assert_eq!(label, "load (io.rs:120) [END]");
            assert_eq!(metadata.label, "load");
        }
        _ => panic!("expected the end mark"),
    }
    match end.step::<f64>(EndIntervalEvent::EndMarked { outcome: Ok(()) }) {
        EndIntervalAction::Measure { measure_label, start_label, end_label, metadata } => {
            assert_eq!(measure_label, "load (io.rs:120)");
            assert_eq!(start_label, "load (io.rs:120) [START]");
            assert_eq!(end_label, "load (io.rs:120) [END]");
            assert_eq!(metadata.source.file, "io.rs");
        }
        _ => panic!("expected the measurement"),
    }
    assert!(matches!(
        end.step::<f64>(EndIntervalEvent::Measured { outcome: Ok(()) }),
        EndIntervalAction::FetchLatestMeasure
    ));
    let latest = Some((entry("load (io.rs:120)", 5.0, 6.0), Some(md)));
    let m = finish(end.step(EndIntervalEvent::LatestMeasure { entry: latest })).ok().unwrap();
    assert_eq!(m.name, "load (io.rs:120)");
    assert_eq!(m.log_level, "Section");
    assert_eq!(m.duration, 6.0);
    assert_eq!(end.current_phase(), EndIntervalPhase::Finished);
}

#[test]
fn metadata_end_interval_errors() {
    let md = metadata("load", "section", "io.rs", 120);
    let mut end = EndInterval::new(md.duplicate());
    let r = finish(end.step::<f64>(EndIntervalEvent::Begin { active: false }));
    assert!(matches!(r, Err(MeasurementError::ProfilingDisabled)));

    let mut end = EndInterval::new(md.duplicate());
    end.step::<f64>(EndIntervalEvent::Begin { active: true });
    end.step::<f64>(EndIntervalEvent::EndMarked { outcome: Ok(()) });
    end.step::<f64>(EndIntervalEvent::Measured { outcome: Ok(()) });
    let r = finish(end.step::<f64>(EndIntervalEvent::LatestMeasure { entry: None }));
    assert!(matches!(r, Err(MeasurementError::NoMeasurementFound)));

    let mut end = EndInterval::new(md);
    end.step::<f64>(EndIntervalEvent::Begin { active: true });
    end.step::<f64>(EndIntervalEvent::EndMarked { outcome: Ok(()) });
    end.step::<f64>(EndIntervalEvent::Measured { outcome: Ok(()) });
    let latest = Some((entry("load (io.rs:120)", 5.0, 6.0), None));
    let r = finish(end.step(EndIntervalEvent::LatestMeasure { entry: latest }));
    assert!(matches!(r, Err(MeasurementError::InvalidMeasurementConversion)));
}

#[test]
fn report_keeps_entries_with_metadata() {
    let report = Report::generate(vec![
        (entry("b", 3.0, 1.0), Some(metadata("b", "task", "f.rs", 2))),
        (entry("lost", 0.0, 1.0), None),
        (entry("a", 1.0, 2.0), Some(metadata("a", "debug", "f.rs", 1))),
    ]);
    let levels: Vec<&str> = report.measures().iter().map(|m| m.log_level.as_str()).collect();
    assert_eq!(levels, vec!["Task", "Debug"]);
    assert_eq!(report.display_order(&vec![3, 1]), vec![1, 0]);
}

#[test]
fn profiling_level_is_active_follows_toggles() {
    let toggles = ProfilingToggles { section: false, task: true, detail: false, debug: true };
    assert!(profiling_level_is_active(&toggles, "task"));
    assert!(profiling_level_is_active(&toggles, "debug"));
    assert!(!profiling_level_is_active(&toggles, "section"));
    assert!(!profiling_level_is_active(&toggles, "Task"));
    assert!(!profiling_level_is_active(&toggles, "other"));
}

#[test]
fn metadata_end_interval_reports_failed_calls() {
    let md = metadata("load", "section", "io.rs", 120);
    let mut end = EndInterval::new(md.duplicate());
    end.step::<f64>(EndIntervalEvent::Begin { active: true });
    let r = finish(end.step::<f64>(EndIntervalEvent::EndMarked { outcome: Err(JsValue::NULL) }));
    assert!(matches!(r, Err(MeasurementError::PerformanceAPIExecutionFailure { .. })));
    assert_eq!(end.current_phase(), EndIntervalPhase::Finished);

    let mut end = EndInterval::new(md);
    end.step::<f64>(EndIntervalEvent::Begin { active: true });
    end.step::<f64>(EndIntervalEvent::EndMarked { outcome: Ok(()) });
    let r = finish(end.step::<f64>(EndIntervalEvent::Measured { outcome: Err(JsValue::NULL) }));
    assert!(matches!(r, Err(MeasurementError::PerformanceAPIExecutionFailure { .. })));
    assert_eq!(end.current_phase(), EndIntervalPhase::Finished);
}

#[test]
fn macro_expansion() {
    // Start a task interval, release its handle, then end the interval by its metadata.
    let toggles = ProfilingToggles { section: false, task: true, detail: false, debug: false };
    let task = metadata("sample_task", "task", "lib.rs", 7);
    let active = profiling_level_is_active(&toggles, &task.profiling_level);
    let started = start_interval(task.duplicate(), active);
    assert_eq!(started.mark.as_ref().unwrap().0, "sample_task (lib.rs:7) [START]");
    let mut handle = started.handle;
    handle.release();
    assert!(handle.on_drop().is_none());
    let mut end = EndInterval::new(task.duplicate());
    assert!(matches!(
        end.step::<f64>(EndIntervalEvent::Begin { active }),
        EndIntervalAction::MarkEnd { .. }
    ));
    end.step::<f64>(EndIntervalEvent::EndMarked { outcome: Ok(()) });
    end.step::<f64>(EndIntervalEvent::Measured { outcome: Ok(()) });
    let latest = Some((entry("sample_task (lib.rs:7)", 1.0, 2.0), Some(task)));
    let m = finish(end.step(EndIntervalEvent::LatestMeasure { entry: latest })).ok().unwrap();
    assert_eq!(m.name, "sample_task (lib.rs:7)");
    assert_eq!(m.log_level, "Task");
}
