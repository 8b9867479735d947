use lib_klipper::gcode::{parse_gcode, GCodeCommand};
use lib_klipper::post_process::{GCodeInterceptor, Marks, Rewrite};
use lib_klipper::slicer::SlicerPreset;

fn line(text: &str) -> GCodeCommand {
    parse_gcode(text).unwrap()
}

fn of(preset: SlicerPreset) -> GCodeInterceptor<f64> {
    GCodeInterceptor::metadata_processor(&preset)
}

#[test]
fn unknown_slicer_has_no_marks() {
    let mut marks: GCodeInterceptor<f64> = GCodeInterceptor::new();
    marks.post_command(&line("M73 P0 R10"), 1.0);
    assert_eq!(marks.output_process(&line("M73 P0 R10")), None);
    assert_eq!(marks.output_process(&line(";TIME:100")), None);
    let mut marks = of(SlicerPreset::Simplify3D { version: "4".to_string() });
    marks.post_command(&line("M73 P0 R10"), 1.0);
    assert_eq!(marks.output_process(&line("M73 P0 R10")), None);
}

#[test]
fn progress_marks_take_the_noted_times_in_order() {
    let mut marks: GCodeInterceptor<f64> = GCodeInterceptor::with_marks(Marks::M73);
    marks.post_command(&line("G1 X1"), 0.5);
    marks.post_command(&line("M73 P0 R10"), 1.0);
    marks.post_command(&line("m73 P50 R5"), 2.0);
    assert_eq!(marks.output_process(&line("G1 X1")), None);
    assert_eq!(marks.output_process(&line("M73 P0 R10")), Some(Rewrite::Progress { elapsed: 1.0 }));
    assert_eq!(marks.output_process(&line("M73 P50 R5")), Some(Rewrite::Progress { elapsed: 2.0 }));
    assert_eq!(marks.output_process(&line("M73 P100 R0")), None);
    assert_eq!(marks.output_process(&line("; estimated printing time (normal mode) = 1h")), None);
}

#[test]
fn prusaslicer_marks() {
    for preset in [
        SlicerPreset::PrusaSlicer { version: "2".to_string() },
        SlicerPreset::SuperSlicer { version: "2".to_string() },
        SlicerPreset::OrcaSlicer { version: "1".to_string() },
    ] {
        let mut marks = of(preset);
        marks.post_command(&line("M73 P0 R10"), 3.0);
        marks.post_command(&line("; estimated printing time (normal mode) = 1h 2m"), 4.0);
        assert_eq!(
            marks.output_process(&line("M73 P0 R10")),
            Some(Rewrite::Progress { elapsed: 3.0 })
        );
        assert_eq!(marks.output_process(&line("M73 P0 R10")), None);
        assert_eq!(
            marks.output_process(&line("; estimated printing time (normal mode) = 1h 2m")),
            Some(Rewrite::Estimated {
                prefix: " estimated printing time (normal mode) =".to_string()
            })
        );
        assert_eq!(
            marks.output_process(&line("M117 x ; estimated printing time (silent mode) = 5s")),
            Some(Rewrite::Estimated {
                prefix: " estimated printing time (silent mode) =".to_string()
            })
        );
        assert_eq!(marks.output_process(&line(";estimated printing time (normal mode) = 1h")), None);
        assert_eq!(marks.output_process(&line(";  estimated printing time () ")), None);
    }
}

#[test]
fn estimated_time_is_told_by_the_caller() {
    let mut marks: GCodeInterceptor<u32> = GCodeInterceptor::with_marks(Marks::Slic3r);
    let cmd = line("; anything");
    assert_eq!(
        marks.output_with(&cmd, Some("found".to_string())),
        Some(Rewrite::Estimated { prefix: "found".to_string() })
    );
    assert_eq!(marks.output_with(&cmd, None), None);
    assert_eq!(marks.output_with(&line("G1"), Some("found".to_string())), None);
    marks.post_command(&line("M73"), 7);
    assert_eq!(
        marks.output_with(&line("M73 ; c"), Some("found".to_string())),
        Some(Rewrite::Progress { elapsed: 7 })
    );
    assert_eq!(
        marks.output_with(&line("M73 ; c"), Some("found".to_string())),
        Some(Rewrite::Estimated { prefix: "found".to_string() })
    );
    let mut cura: GCodeInterceptor<u32> = GCodeInterceptor::with_marks(Marks::Cura);
    assert_eq!(cura.output_with(&cmd, Some("found".to_string())), None);
}

#[test]
fn ideamaker_marks() {
    let mut marks = of(SlicerPreset::IdeaMaker { version: "4".to_string() });
    marks.post_command(&line(";PRINTING_TIME: 10"), 11.0);
    marks.post_command(&line(";REMAINING_TIME: 90"), 11.5);
    marks.post_command(&line(";PRINTING_TIME: 50"), 52.0);
    assert_eq!(marks.output_process(&line(";Print Time: 100")), Some(Rewrite::PrintTime));
    assert_eq!(
        marks.output_process(&line(";PRINTING_TIME: 10")),
        Some(Rewrite::PrintingTime { elapsed: 11.0 })
    );
    assert_eq!(
        marks.output_process(&line(";PRINTING_TIME: 10")),
        Some(Rewrite::PrintingTime { elapsed: 11.0 })
    );
    assert_eq!(
        marks.output_process(&line(";REMAINING_TIME: 90")),
        Some(Rewrite::RemainingTime { elapsed: 11.0 })
    );
    assert_eq!(
        marks.output_process(&line(";REMAINING_TIME: 50")),
        Some(Rewrite::RemainingTime { elapsed: 52.0 })
    );
    assert_eq!(marks.output_process(&line(";REMAINING_TIME: 0")), None);
    assert_eq!(marks.output_process(&line(";PRINTING_TIME: 0")), None);
    assert_eq!(marks.output_process(&line(";PRINTING_TIME:0")), None);
    assert_eq!(marks.output_process(&line("M73 P1")), None);
}

#[test]
fn cura_marks() {
    let mut marks = of(SlicerPreset::Cura { version: None });
    marks.post_command(&line(";TIME_ELAPSED:12.5"), 13.0);
    marks.post_command(&line(";TIME:100"), 14.0);
    assert_eq!(marks.output_process(&line(";TIME:100")), Some(Rewrite::Time));
    assert_eq!(marks.output_process(&line(";PRINT.TIME:100")), Some(Rewrite::PrintDotTime));
    assert_eq!(
        marks.output_process(&line(";TIME_ELAPSED:12.5")),
        Some(Rewrite::TimeElapsed { elapsed: 13.0 })
    );
    assert_eq!(marks.output_process(&line(";TIME_ELAPSED:99")), None);
    assert_eq!(marks.output_process(&line("; TIME:100")), None);
    assert_eq!(marks.output_process(&line("G1 X1")), None);
}
