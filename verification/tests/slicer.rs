use lib_klipper::slicer::{format_dhms, SlicerMarks, SlicerPreset};

fn no_marks() -> SlicerMarks {
    SlicerMarks {
        prusa: None,
        superslicer: None,
        orca: None,
        ideamaker: None,
        cura_old: None,
        cura_new: None,
        simplify3d: None,
    }
}

#[test]
fn prusaslicer_is_told_by_its_comment() {
    let p = SlicerPreset::determine(" generated by PrusaSlicer 2.4.0+linux-x64 on 2022-01-01");
    assert_eq!(p, Some(SlicerPreset::PrusaSlicer { version: "2.4.0+linux-x64".to_string() }));
    assert_eq!(p.unwrap().to_string(), "PrusaSlicer 2.4.0+linux-x64");
}

#[test]
fn other_programs_are_told_by_their_comments() {
    assert_eq!(
        SlicerPreset::determine(" generated by SuperSlicer 2.3.57 on 2022-01-01 at 12:00"),
        Some(SlicerPreset::SuperSlicer { version: "2.3.57".to_string() })
    );
    assert_eq!(
        SlicerPreset::determine(" generated by OrcaSlicer 1.6.2 on 2023-05-05"),
        Some(SlicerPreset::OrcaSlicer { version: "1.6.2".to_string() })
    );
    assert_eq!(
        SlicerPreset::determine("Sliced by ideaMaker 4.2.3.5590, 2022-01-01"),
        Some(SlicerPreset::IdeaMaker { version: "4.2.3.5590".to_string() })
    );
    assert_eq!(
        SlicerPreset::determine("Generated with Cura_SteamEngine 4.12.1"),
        Some(SlicerPreset::Cura { version: Some("4.12.1".to_string()) })
    );
    assert_eq!(
        SlicerPreset::determine("GENERATOR.NAME:Cura_SteamEngine"),
        Some(SlicerPreset::Cura { version: None })
    );
    assert_eq!(
        SlicerPreset::determine(" G-Code generated by Simplify3D(R) Version 4.1.2"),
        Some(SlicerPreset::Simplify3D { version: "4.1.2".to_string() })
    );
}

#[test]
fn comment_of_no_known_program() {
    assert_eq!(SlicerPreset::determine("TYPE:Perimeter"), None);
    assert_eq!(SlicerPreset::determine("PrusaSlicer"), None);
    assert_eq!(SlicerPreset::determine(""), None);
}

#[test]
fn version_runs_to_the_last_on() {
    assert_eq!(
        SlicerPreset::determine("PrusaSlicer a on b on c"),
        Some(SlicerPreset::PrusaSlicer { version: "a on b".to_string() })
    );
}

#[test]
fn first_mark_found_decides() {
    assert_eq!(SlicerPreset::from_marks(no_marks()), None);
    let mut m = no_marks();
    m.simplify3d = Some("4".to_string());
    m.cura_new = Some("GENERATOR.NAME:Cura_SteamEngine".to_string());
    assert_eq!(SlicerPreset::from_marks(m), Some(SlicerPreset::Cura { version: None }));
    let mut m = no_marks();
    m.cura_old = Some("5.0".to_string());
    m.cura_new = Some("x".to_string());
    assert_eq!(
        SlicerPreset::from_marks(m),
        Some(SlicerPreset::Cura { version: Some("5.0".to_string()) })
    );
    let mut m = no_marks();
    m.orca = Some("1".to_string());
    m.superslicer = Some("2".to_string());
    m.ideamaker = Some("3".to_string());
    assert_eq!(
        SlicerPreset::from_marks(m),
        Some(SlicerPreset::SuperSlicer { version: "2".to_string() })
    );
    let mut m = no_marks();
    m.prusa = Some("2.5".to_string());
    m.superslicer = Some("2".to_string());
    assert_eq!(
        SlicerPreset::from_marks(m),
        Some(SlicerPreset::PrusaSlicer { version: "2.5".to_string() })
    );
}

#[test]
fn names_of_the_programs() {
    assert_eq!(SlicerPreset::Cura { version: None }.to_string(), "Cura");
    assert_eq!(SlicerPreset::Cura { version: Some("5".to_string()) }.to_string(), "Cura 5");
    assert_eq!(SlicerPreset::IdeaMaker { version: "4".to_string() }.to_string(), "ideaMaker 4");
    assert_eq!(SlicerPreset::OrcaSlicer { version: "1".to_string() }.to_string(), "OrcaSlicer 1");
    assert_eq!(SlicerPreset::SuperSlicer { version: "2".to_string() }.to_string(), "SuperSlicer 2");
    assert_eq!(SlicerPreset::Simplify3D { version: "4".to_string() }.to_string(), "Simplify3D 4");
}

#[test]
fn times_in_days_hours_minutes_seconds() {
    assert_eq!(format_dhms(0), " 0s");
    assert_eq!(format_dhms(59), " 59s");
    assert_eq!(format_dhms(60), " 1m 0s");
    assert_eq!(format_dhms(3600), " 1h 0s");
    assert_eq!(format_dhms(3661), " 1h 1m 1s");
    assert_eq!(format_dhms(86400), " 1d 0s");
    assert_eq!(format_dhms(90061), " 1d 1h 1m 1s");
    assert_eq!(format_dhms(2 * 86400 + 23 * 3600 + 59 * 60 + 59), " 2d 23h 59m 59s");
}
