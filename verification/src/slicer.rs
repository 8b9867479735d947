//! The program that wrote a file, as its comments tell it, and the time
//! format that such programs write into them.
use vstd::prelude::*;
use vstd::string::StringExecFns;
use crate::gcode::text_of;
use crate::text::{decimal, make_string, push_decimal};

verus! {

/// What the crate `regex` finds of `pattern` in `text`: the part of `text`
/// that group `group` of the leftmost match takes up. Nothing where the
/// pattern is no regular expression, where it matches nowhere in `text`, or
/// where the group takes no part in the match. Group 0 is the whole match.
pub uninterp spec fn capture(pattern: Seq<char>, group: usize, text: Seq<char>) -> Option<Seq<char>>;

/// Compiles `pattern` with `Regex::new`, searches `text` with
/// `Regex::captures` and reads the group with `Captures::get`.
#[verifier::external_body]
pub(crate) fn captured(pattern: &str, group: usize, text: &str) -> (r: Option<String>)
    ensures
        text_of(r) == capture(pattern@, group, text@),
{
    let re = regex::Regex::new(pattern).ok()?;
    let found = re.captures(text)?;
    found.get(group).map(|m| m.as_str().to_string())
}

/// The program that sliced a file, and its version.
#[derive(Debug, Clone, PartialEq)]
pub enum SlicerPreset {
    PrusaSlicer { version: String },
    SuperSlicer { version: String },
    OrcaSlicer { version: String },
    IdeaMaker { version: String },
    Cura { version: Option<String> },
    Simplify3D { version: String },
}

/// A slicer with its version as a sequence of characters.
pub enum SlicerPresetView {
    PrusaSlicer { version: Seq<char> },
    SuperSlicer { version: Seq<char> },
    OrcaSlicer { version: Seq<char> },
    IdeaMaker { version: Seq<char> },
    Cura { version: Option<Seq<char>> },
    Simplify3D { version: Seq<char> },
}

impl View for SlicerPreset {
    type V = SlicerPresetView;

    open spec fn view(&self) -> SlicerPresetView {
        match *self {
            SlicerPreset::PrusaSlicer { version } => SlicerPresetView::PrusaSlicer {
                version: version@,
            },
            SlicerPreset::SuperSlicer { version } => SlicerPresetView::SuperSlicer {
                version: version@,
            },
            SlicerPreset::OrcaSlicer { version } => SlicerPresetView::OrcaSlicer {
                version: version@,
            },
            SlicerPreset::IdeaMaker { version } => SlicerPresetView::IdeaMaker {
                version: version@,
            },
            SlicerPreset::Cura { version } => SlicerPresetView::Cura { version: text_of(version) },
            SlicerPreset::Simplify3D { version } => SlicerPresetView::Simplify3D {
                version: version@,
            },
        }
    }
}

/// What the marks of the known programs gave on one comment: for each mark
/// the version it caught, and for the mark of newer Cura, which carries no
/// version, the text it matched.
#[derive(Debug)]
pub struct SlicerMarks {
    pub prusa: Option<String>,
    pub superslicer: Option<String>,
    pub orca: Option<String>,
    pub ideamaker: Option<String>,
    pub cura_old: Option<String>,
    pub cura_new: Option<String>,
    pub simplify3d: Option<String>,
}

/// Marks with their texts as sequences of characters.
pub struct SlicerMarksView {
    pub prusa: Option<Seq<char>>,
    pub superslicer: Option<Seq<char>>,
    pub orca: Option<Seq<char>>,
    pub ideamaker: Option<Seq<char>>,
    pub cura_old: Option<Seq<char>>,
    pub cura_new: Option<Seq<char>>,
    pub simplify3d: Option<Seq<char>>,
}

impl View for SlicerMarks {
    type V = SlicerMarksView;

    open spec fn view(&self) -> SlicerMarksView {
        SlicerMarksView {
            prusa: text_of(self.prusa),
            superslicer: text_of(self.superslicer),
            orca: text_of(self.orca),
            ideamaker: text_of(self.ideamaker),
            cura_old: text_of(self.cura_old),
            cura_new: text_of(self.cura_new),
            simplify3d: text_of(self.simplify3d),
        }
    }
}

/// The marks of the known programs on `comment`.
pub open spec fn marks_on(comment: Seq<char>) -> SlicerMarksView {
    SlicerMarksView {
        prusa: capture("PrusaSlicer\\s(.*)\\son"@, 1, comment),
        superslicer: capture("SuperSlicer\\s(.*)\\son"@, 1, comment),
        orca: capture("OrcaSlicer\\s(.*)\\son"@, 1, comment),
        ideamaker: capture("Sliced by ideaMaker\\s(.*),"@, 1, comment),
        cura_old: capture("Generated with Cura_SteamEngine\\s(.*)"@, 1, comment),
        cura_new: capture("GENERATOR.NAME:Cura_SteamEngine"@, 0, comment),
        simplify3d: capture("Simplify3D\\(R\\)\\sVersion\\s(.*)"@, 1, comment),
    }
}

/// The program that the marks tell of: the first that was found, in the
/// order PrusaSlicer, SuperSlicer, OrcaSlicer, ideaMaker, Cura with a
/// version, Cura without, Simplify3D.
pub open spec fn preset_of(m: SlicerMarksView) -> Option<SlicerPresetView> {
    if m.prusa is Some {
        Some(SlicerPresetView::PrusaSlicer { version: m.prusa.unwrap() })
    } else if m.superslicer is Some {
        Some(SlicerPresetView::SuperSlicer { version: m.superslicer.unwrap() })
    } else if m.orca is Some {
        Some(SlicerPresetView::OrcaSlicer { version: m.orca.unwrap() })
    } else if m.ideamaker is Some {
        Some(SlicerPresetView::IdeaMaker { version: m.ideamaker.unwrap() })
    } else if m.cura_old is Some {
        Some(SlicerPresetView::Cura { version: m.cura_old })
    } else if m.cura_new is Some {
        Some(SlicerPresetView::Cura { version: None })
    } else if m.simplify3d is Some {
        Some(SlicerPresetView::Simplify3D { version: m.simplify3d.unwrap() })
    } else {
        None
    }
}

/// The view of an optional preset.
pub open spec fn preset_view(p: Option<SlicerPreset>) -> Option<SlicerPresetView> {
    match p {
        Some(p) => Some(p@),
        None => None,
    }
}

impl SlicerPreset {
    /// The program that the marks tell of.
    pub fn from_marks(marks: SlicerMarks) -> (r: Option<SlicerPreset>)
        ensures
            preset_view(r) == preset_of(marks@),
    {
        if let Some(version) = marks.prusa {
            Some(SlicerPreset::PrusaSlicer { version })
        } else if let Some(version) = marks.superslicer {
            Some(SlicerPreset::SuperSlicer { version })
        } else if let Some(version) = marks.orca {
            Some(SlicerPreset::OrcaSlicer { version })
        } else if let Some(version) = marks.ideamaker {
            Some(SlicerPreset::IdeaMaker { version })
        } else if let Some(version) = marks.cura_old {
            Some(SlicerPreset::Cura { version: Some(version) })
        } else if marks.cura_new.is_some() {
            Some(SlicerPreset::Cura { version: None })
        } else if let Some(version) = marks.simplify3d {
            Some(SlicerPreset::Simplify3D { version })
        } else {
            None
        }
    }

    /// The program that a comment tells of, if it tells of one.
    pub fn determine(comment: &str) -> (r: Option<SlicerPreset>)
        ensures
            preset_view(r) == preset_of(marks_on(comment@)),
    {
        let marks = SlicerMarks {
            prusa: captured("PrusaSlicer\\s(.*)\\son", 1, comment),
            superslicer: captured("SuperSlicer\\s(.*)\\son", 1, comment),
            orca: captured("OrcaSlicer\\s(.*)\\son", 1, comment),
            ideamaker: captured("Sliced by ideaMaker\\s(.*),", 1, comment),
            cura_old: captured("Generated with Cura_SteamEngine\\s(.*)", 1, comment),
            cura_new: captured("GENERATOR.NAME:Cura_SteamEngine", 0, comment),
            simplify3d: captured("Simplify3D\\(R\\)\\sVersion\\s(.*)", 1, comment),
        };
        SlicerPreset::from_marks(marks)
    }

    /// The name of the program and its version.
    pub fn to_string(&self) -> (r: String)
        ensures
            r@ == (match self@ {
                SlicerPresetView::PrusaSlicer { version } => "PrusaSlicer "@ + version,
                SlicerPresetView::SuperSlicer { version } => "SuperSlicer "@ + version,
                SlicerPresetView::OrcaSlicer { version } => "OrcaSlicer "@ + version,
                SlicerPresetView::IdeaMaker { version } => "ideaMaker "@ + version,
                SlicerPresetView::Cura { version: None } => "Cura"@,
                SlicerPresetView::Cura { version: Some(version) } => "Cura "@ + version,
                SlicerPresetView::Simplify3D { version } => "Simplify3D "@ + version,
            }),
    {
        match self {
            SlicerPreset::PrusaSlicer { version } => String::from_str("PrusaSlicer ").concat(
                version.as_str(),
            ),
            SlicerPreset::SuperSlicer { version } => String::from_str("SuperSlicer ").concat(
                version.as_str(),
            ),
            SlicerPreset::OrcaSlicer { version } => String::from_str("OrcaSlicer ").concat(
                version.as_str(),
            ),
            SlicerPreset::IdeaMaker { version } => String::from_str("ideaMaker ").concat(
                version.as_str(),
            ),
            SlicerPreset::Cura { version: None } => String::from_str("Cura"),
            SlicerPreset::Cura { version: Some(version) } => String::from_str("Cura ").concat(
                version.as_str(),
            ),
            SlicerPreset::Simplify3D { version } => String::from_str("Simplify3D ").concat(
                version.as_str(),
            ),
        }
    }
}

/// A part of a time as it is written: a blank, the count and the letter of
/// the unit; nothing where the count is nought.
pub open spec fn time_part(count: nat, unit: char) -> Seq<char> {
    if count > 0 {
        seq![' '] + decimal(count) + seq![unit]
    } else {
        Seq::empty()
    }
}

/// A time of whole seconds in days, hours, minutes and seconds. Parts that
/// are nought are left out, but for the seconds.
pub open spec fn dhms(seconds: nat) -> Seq<char> {
    time_part(seconds / 86400, 'd') + time_part(seconds % 86400 / 3600, 'h') + time_part(
        seconds % 3600 / 60,
        'm',
    ) + seq![' '] + decimal(seconds % 60) + seq!['s']
}

fn push_time_part(out: &mut Vec<char>, count: u64, unit: char)
    ensures
        final(out)@ == old(out)@ + time_part(count as nat, unit),
{
    if count > 0 {
        out.push(' ');
        push_decimal(out, count);
        out.push(unit);
        assert(out@ =~= old(out)@ + (seq![' '] + decimal(count as nat) + seq![unit]));
    } else {
        assert(out@ =~= old(out)@ + Seq::<char>::empty());
    }
}

/// Writes a time of whole seconds in days, hours, minutes and seconds, as
/// the slicers of the Slic3r family do.
pub fn format_dhms(seconds: u64) -> (r: String)
    ensures
        r@ == dhms(seconds as nat),
{
    let mut out: Vec<char> = Vec::new();
    push_time_part(&mut out, seconds / 86400, 'd');
    push_time_part(&mut out, seconds % 86400 / 3600, 'h');
    push_time_part(&mut out, seconds % 3600 / 60, 'm');
    out.push(' ');
    push_decimal(&mut out, seconds % 60);
    out.push('s');
    assert(out@ =~= dhms(seconds as nat));
    make_string(&out, 0, out.len())
}

} // verus!
