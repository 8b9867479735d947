//! What a command asks of the planner.
use vstd::prelude::*;
use vstd::string::StringExecFns;
use crate::arcs::{ArcDirection, Plane};
use crate::gcode::{text_of, GCodeCommand, GCodeCommandView, GCodeOperation, GCodeOperationView};
use crate::planner::PositionMode;
use crate::text::{make_string, scan, starts_with, starts_with_at, to_chars, trim_start, trim_start_at, Stop};

verus! {

/// What a command asks of the planner.
#[derive(Debug, Clone, PartialEq)]
pub enum Directive {
    /// A dwell of a given length.
    Dwell,
    /// A wait whose length the machine decides: homing, heating, a change
    /// of filament.
    Indeterminate,
    /// A rapid or linear move.
    LinearMove,
    /// Draw the filament back.
    Retract,
    /// Let the filament forward again.
    Unretract,
    /// An arc in the current plane.
    Arc(ArcDirection),
    /// Choose the plane of arcs.
    SelectPlane(Plane),
    /// Name the current position anew.
    SetOrigin,
    /// Choose how extruder coordinates are read.
    ExtruderMode(PositionMode),
    /// Set the acceleration.
    Acceleration,
    /// Set limits of velocity and acceleration.
    VelocityLimit,
    /// Set lengths and speeds of retraction.
    RetractionSettings,
    /// Set the label of the commands that follow.
    Label(String),
    /// Add a wait of the given number of seconds, under a label.
    AddTime { seconds: String, label: Option<String> },
    /// Nothing that the planner knows.
    Other,
}

/// A directive with its texts as sequences of characters.
pub enum DirectiveView {
    Dwell,
    Indeterminate,
    LinearMove,
    Retract,
    Unretract,
    Arc(ArcDirection),
    SelectPlane(Plane),
    SetOrigin,
    ExtruderMode(PositionMode),
    Acceleration,
    VelocityLimit,
    RetractionSettings,
    Label(Seq<char>),
    AddTime { seconds: Seq<char>, label: Option<Seq<char>> },
    Other,
}

impl View for Directive {
    type V = DirectiveView;

    open spec fn view(&self) -> DirectiveView {
        match *self {
            Directive::Dwell => DirectiveView::Dwell,
            Directive::Indeterminate => DirectiveView::Indeterminate,
            Directive::LinearMove => DirectiveView::LinearMove,
            Directive::Retract => DirectiveView::Retract,
            Directive::Unretract => DirectiveView::Unretract,
            Directive::Arc(d) => DirectiveView::Arc(d),
            Directive::SelectPlane(p) => DirectiveView::SelectPlane(p),
            Directive::SetOrigin => DirectiveView::SetOrigin,
            Directive::ExtruderMode(m) => DirectiveView::ExtruderMode(m),
            Directive::Acceleration => DirectiveView::Acceleration,
            Directive::VelocityLimit => DirectiveView::VelocityLimit,
            Directive::RetractionSettings => DirectiveView::RetractionSettings,
            Directive::Label(l) => DirectiveView::Label(l@),
            Directive::AddTime { seconds, label } => DirectiveView::AddTime {
                seconds: seconds@,
                label: text_of(label),
            },
            Directive::Other => DirectiveView::Other,
        }
    }
}

/// What a traditional command asks.
pub open spec fn traditional_directive(letter: char, code: u16) -> DirectiveView {
    if letter == 'G' {
        if code == 4 {
            DirectiveView::Dwell
        } else if code == 28 {
            DirectiveView::Indeterminate
        } else if code == 10 {
            DirectiveView::Retract
        } else if code == 11 {
            DirectiveView::Unretract
        } else if code == 2 {
            DirectiveView::Arc(ArcDirection::Clockwise)
        } else if code == 3 {
            DirectiveView::Arc(ArcDirection::CounterClockwise)
        } else if code == 17 {
            DirectiveView::SelectPlane(Plane::XY)
        } else if code == 18 {
            DirectiveView::SelectPlane(Plane::XZ)
        } else if code == 19 {
            DirectiveView::SelectPlane(Plane::YZ)
        } else if code == 92 {
            DirectiveView::SetOrigin
        } else {
            DirectiveView::Other
        }
    } else if letter == 'M' {
        if code == 109 || code == 190 || code == 600 {
            DirectiveView::Indeterminate
        } else if code == 82 {
            DirectiveView::ExtruderMode(PositionMode::Absolute)
        } else if code == 83 {
            DirectiveView::ExtruderMode(PositionMode::Relative)
        } else if code == 204 {
            DirectiveView::Acceleration
        } else {
            DirectiveView::Other
        }
    } else {
        DirectiveView::Other
    }
}

/// What an extended command asks.
pub open spec fn extended_directive(command: Seq<char>) -> DirectiveView {
    if command == "temperature_wait"@ {
        DirectiveView::Indeterminate
    } else if command == "set_velocity_limit"@ {
        DirectiveView::VelocityLimit
    } else if command == "set_retraction"@ {
        DirectiveView::RetractionSettings
    } else {
        DirectiveView::Other
    }
}

/// The wait that the text after `ESTIMATOR_ADD_TIME ` asks for: a number
/// of seconds, and after the first blank a label.
pub open spec fn add_time_directive(rest: Seq<char>) -> DirectiveView {
    let blank = scan(rest, 0, Stop::Char(' '));
    if 0 <= blank < rest.len() {
        DirectiveView::AddTime {
            seconds: rest.subrange(0, blank),
            label: Some(rest.subrange(blank + 1, rest.len() as int)),
        }
    } else {
        DirectiveView::AddTime { seconds: rest, label: None }
    }
}

/// What a comment that stands alone asks: `TYPE:` sets the label, and
/// `ESTIMATOR_ADD_TIME `, after leading whitespace, adds a wait.
pub open spec fn comment_directive(comment: Seq<char>) -> DirectiveView {
    if starts_with(comment, "TYPE:"@) {
        DirectiveView::Label(comment.subrange("TYPE:"@.len() as int, comment.len() as int))
    } else {
        let t = trim_start(comment);
        if starts_with(t, "ESTIMATOR_ADD_TIME "@) {
            add_time_directive(t.subrange("ESTIMATOR_ADD_TIME "@.len() as int, t.len() as int))
        } else {
            DirectiveView::Other
        }
    }
}

/// What a command asks of the planner.
pub open spec fn directive_of(cmd: GCodeCommandView) -> DirectiveView {
    match cmd.op {
        GCodeOperationView::Traditional { letter, code, params } => traditional_directive(
            letter,
            code,
        ),
        GCodeOperationView::Extended { command, params } => extended_directive(command),
        GCodeOperationView::Move { x, y, z, e, f } => DirectiveView::LinearMove,
        GCodeOperationView::Nop => match cmd.comment {
            Some(c) => comment_directive(c),
            None => DirectiveView::Other,
        },
    }
}

fn of_traditional(letter: char, code: u16) -> (r: Directive)
    ensures
        r@ == traditional_directive(letter, code),
{
    if letter == 'G' {
        if code == 4 {
            Directive::Dwell
        } else if code == 28 {
            Directive::Indeterminate
        } else if code == 10 {
            Directive::Retract
        } else if code == 11 {
            Directive::Unretract
        } else if code == 2 {
            Directive::Arc(ArcDirection::Clockwise)
        } else if code == 3 {
            Directive::Arc(ArcDirection::CounterClockwise)
        } else if code == 17 {
            Directive::SelectPlane(Plane::XY)
        } else if code == 18 {
            Directive::SelectPlane(Plane::XZ)
        } else if code == 19 {
            Directive::SelectPlane(Plane::YZ)
        } else if code == 92 {
            Directive::SetOrigin
        } else {
            Directive::Other
        }
    } else if letter == 'M' {
        if code == 109 || code == 190 || code == 600 {
            Directive::Indeterminate
        } else if code == 82 {
            Directive::ExtruderMode(PositionMode::Absolute)
        } else if code == 83 {
            Directive::ExtruderMode(PositionMode::Relative)
        } else if code == 204 {
            Directive::Acceleration
        } else {
            Directive::Other
        }
    } else {
        Directive::Other
    }
}

fn of_extended(command: &String) -> (r: Directive)
    ensures
        r@ == extended_directive(command@),
{
    if *command == String::from_str("temperature_wait") {
        Directive::Indeterminate
    } else if *command == String::from_str("set_velocity_limit") {
        Directive::VelocityLimit
    } else if *command == String::from_str("set_retraction") {
        Directive::RetractionSettings
    } else {
        Directive::Other
    }
}

fn of_comment(comment: &String) -> (r: Directive)
    ensures
        r@ == comment_directive(comment@),
{
    let chars = to_chars(comment.as_str());
    let n = chars.len();
    assert(chars@.subrange(0, n as int) == chars@);
    let label = to_chars("TYPE:");
    if starts_with_at(&chars, 0, n, &label) {
        return Directive::Label(make_string(&chars, label.len(), n));
    }
    let lo = trim_start_at(&chars, 0, n);
    let prefix = to_chars("ESTIMATOR_ADD_TIME ");
    if starts_with_at(&chars, lo, n, &prefix) {
        let from = lo + prefix.len();
        let ghost t = chars@.subrange(lo as int, n as int);
        let ghost rest = t.subrange(prefix@.len() as int, t.len() as int);
        assert(rest =~= chars@.subrange(from as int, n as int));
        let mut blank: usize = from;
        while blank < n && chars[blank] != ' '
            invariant
                from <= blank <= n == chars@.len(),
                rest == chars@.subrange(from as int, n as int),
                scan(rest, blank - from, Stop::Char(' ')) == scan(rest, 0, Stop::Char(' ')),
            decreases n - blank,
        {
            assert(rest[blank - from] == chars@[blank as int]);
            blank += 1;
        }
        if blank < n {
            assert(rest[blank - from] == chars@[blank as int]);
            assert(rest.subrange(0, blank - from) =~= chars@.subrange(from as int, blank as int));
            assert(rest.subrange(blank - from + 1, rest.len() as int) =~= chars@.subrange(
                blank + 1,
                n as int,
            ));
            Directive::AddTime {
                seconds: make_string(&chars, from, blank),
                label: Some(make_string(&chars, blank + 1, n)),
            }
        } else {
            Directive::AddTime { seconds: make_string(&chars, from, n), label: None }
        }
    } else {
        Directive::Other
    }
}

impl Directive {
    /// What `cmd` asks of the planner.
    pub fn of(cmd: &GCodeCommand) -> (r: Directive)
        ensures
            r@ == directive_of(cmd@),
    {
        match &cmd.op {
            GCodeOperation::Traditional { letter, code, params } => of_traditional(*letter, *code),
            GCodeOperation::Extended { command, params } => of_extended(command),
            GCodeOperation::Move { .. } => Directive::LinearMove,
            GCodeOperation::Nop => match &cmd.comment {
                Some(c) => of_comment(c),
                None => Directive::Other,
            },
        }
    }
}

} // verus!
