//! The time marks that slicers leave in a file, and which of them are
//! written anew once the times are known. A time is whatever the caller
//! measures it in: it is kept and handed back, never computed with.
use vstd::prelude::*;
use std::collections::VecDeque;
use crate::gcode::{text_of, GCodeCommand, GCodeCommandView, GCodeOperation, GCodeOperationView};
use crate::slicer::{capture, captured, SlicerPreset, SlicerPresetView};
use crate::text::{starts_with, starts_with_at, to_chars};

verus! {

/// The family of marks that a slicer writes.
#[derive(Debug, Clone, Copy, PartialEq, Eq, Structural)]
pub enum Marks {
    /// No marks that are written anew.
    Noop,
    /// `M73` alone.
    M73,
    /// `M73` and the comment of the estimated printing time, as PrusaSlicer
    /// and its kin write them.
    Slic3r,
    /// The comments of ideaMaker.
    IdeaMaker,
    /// The comments of Cura.
    Cura,
}

/// The family of marks of a slicer.
pub open spec fn marks_of(preset: SlicerPresetView) -> Marks {
    match preset {
        SlicerPresetView::PrusaSlicer { .. } => Marks::Slic3r,
        SlicerPresetView::SuperSlicer { .. } => Marks::Slic3r,
        SlicerPresetView::OrcaSlicer { .. } => Marks::Slic3r,
        SlicerPresetView::IdeaMaker { .. } => Marks::IdeaMaker,
        SlicerPresetView::Cura { .. } => Marks::Cura,
        SlicerPresetView::Simplify3D { .. } => Marks::Noop,
    }
}

/// What is written in place of a mark. `T` is a time.
#[derive(Debug, PartialEq)]
pub enum Rewrite<T> {
    /// `M73` with the share of the time that has passed at the mark and the
    /// minutes that remain.
    Progress { elapsed: T },
    /// The comment of the estimated printing time: `prefix`, then the whole
    /// time in days, hours, minutes and seconds.
    Estimated { prefix: String },
    /// `Print Time: ` and the whole time.
    PrintTime,
    /// `PRINTING_TIME: ` and the time that has passed at the mark.
    PrintingTime { elapsed: T },
    /// `REMAINING_TIME: ` and the time that remains after the mark.
    RemainingTime { elapsed: T },
    /// `TIME:` and the whole time.
    Time,
    /// `PRINT.TIME:` and the whole time.
    PrintDotTime,
    /// `TIME_ELAPSED:` and the time that has passed at the mark.
    TimeElapsed { elapsed: T },
}

/// A rewrite with its text as a sequence of characters.
pub enum RewriteView<T> {
    Progress { elapsed: T },
    Estimated { prefix: Seq<char> },
    PrintTime,
    PrintingTime { elapsed: T },
    RemainingTime { elapsed: T },
    Time,
    PrintDotTime,
    TimeElapsed { elapsed: T },
}

impl<T> View for Rewrite<T> {
    type V = RewriteView<T>;

    open spec fn view(&self) -> RewriteView<T> {
        match *self {
            Rewrite::Progress { elapsed } => RewriteView::Progress { elapsed },
            Rewrite::Estimated { prefix } => RewriteView::Estimated { prefix: prefix@ },
            Rewrite::PrintTime => RewriteView::PrintTime,
            Rewrite::PrintingTime { elapsed } => RewriteView::PrintingTime { elapsed },
            Rewrite::RemainingTime { elapsed } => RewriteView::RemainingTime { elapsed },
            Rewrite::Time => RewriteView::Time,
            Rewrite::PrintDotTime => RewriteView::PrintDotTime,
            Rewrite::TimeElapsed { elapsed } => RewriteView::TimeElapsed { elapsed },
        }
    }
}

/// The view of an optional rewrite.
pub open spec fn rewrite_view<T>(r: Option<Rewrite<T>>) -> Option<RewriteView<T>> {
    match r {
        Some(r) => Some(r@),
        None => None,
    }
}

/// Whether a command is `M73`.
pub open spec fn is_m73(cmd: GCodeCommandView) -> bool {
    match cmd.op {
        GCodeOperationView::Traditional { letter, code, params } => letter == 'M' && code == 73,
        _ => false,
    }
}

/// Whether the comment of a command begins with `prefix`.
pub open spec fn comment_starts(cmd: GCodeCommandView, prefix: Seq<char>) -> bool {
    cmd.comment is Some && starts_with(cmd.comment.unwrap(), prefix)
}

/// Whether a command is a mark at which the time that has passed is noted.
pub open spec fn notes_time(marks: Marks, cmd: GCodeCommandView) -> bool {
    match marks {
        Marks::Noop => false,
        Marks::M73 => is_m73(cmd),
        Marks::Slic3r => is_m73(cmd),
        Marks::IdeaMaker => comment_starts(cmd, "PRINTING_TIME: "@),
        Marks::Cura => comment_starts(cmd, "TIME_ELAPSED:"@),
    }
}

/// The part of a comment that announces the estimated printing time.
pub open spec fn estimated_prefix(comment: Seq<char>) -> Option<Seq<char>> {
    capture("^ estimated printing time \\(.*?\\) ="@, 0, comment)
}

/// What is written in place of a command, and the times that stay noted.
/// `estimated` is the part of the command's comment that announces the
/// estimated printing time, if it does.
pub open spec fn rewritten<T>(
    marks: Marks,
    noted: Seq<T>,
    cmd: GCodeCommandView,
    estimated: Option<Seq<char>>,
) -> (Option<RewriteView<T>>, Seq<T>) {
    match marks {
        Marks::Noop => (None, noted),
        Marks::M73 => if is_m73(cmd) && noted.len() > 0 {
            (Some(RewriteView::Progress { elapsed: noted[0] }), noted.drop_first())
        } else {
            (None, noted)
        },
        Marks::Slic3r => if is_m73(cmd) && noted.len() > 0 {
            (Some(RewriteView::Progress { elapsed: noted[0] }), noted.drop_first())
        } else if cmd.comment is Some && estimated is Some {
            (Some(RewriteView::Estimated { prefix: estimated.unwrap() }), noted)
        } else {
            (None, noted)
        },
        Marks::IdeaMaker => if comment_starts(cmd, "Print Time: "@) {
            (Some(RewriteView::PrintTime), noted)
        } else if comment_starts(cmd, "PRINTING_TIME: "@) {
            if noted.len() > 0 {
                (Some(RewriteView::PrintingTime { elapsed: noted[0] }), noted)
            } else {
                (None, noted)
            }
        } else if comment_starts(cmd, "REMAINING_TIME: "@) {
            if noted.len() > 0 {
                (Some(RewriteView::RemainingTime { elapsed: noted[0] }), noted.drop_first())
            } else {
                (None, noted)
            }
        } else {
            (None, noted)
        },
        Marks::Cura => if comment_starts(cmd, "TIME:"@) {
            (Some(RewriteView::Time), noted)
        } else if comment_starts(cmd, "PRINT.TIME:"@) {
            (Some(RewriteView::PrintDotTime), noted)
        } else if comment_starts(cmd, "TIME_ELAPSED:"@) {
            if noted.len() > 0 {
                (Some(RewriteView::TimeElapsed { elapsed: noted[0] }), noted.drop_first())
            } else {
                (None, noted)
            }
        } else {
            (None, noted)
        },
    }
}

fn command_is_m73(cmd: &GCodeCommand) -> (r: bool)
    ensures
        r == is_m73(cmd@),
{
    match &cmd.op {
        GCodeOperation::Traditional { letter, code, params } => *letter == 'M' && *code == 73,
        _ => false,
    }
}

fn comment_has_prefix(cmd: &GCodeCommand, prefix: &str) -> (r: bool)
    ensures
        r == comment_starts(cmd@, prefix@),
{
    match &cmd.comment {
        Some(c) => {
            let chars = to_chars(c.as_str());
            let p = to_chars(prefix);
            assert(chars@.subrange(0, chars@.len() as int) == chars@);
            starts_with_at(&chars, 0, chars.len(), &p)
        },
        None => false,
    }
}

/// The marks of one file: their family, and the times noted at the marks
/// that were passed while the file was planned, in their order.
pub struct GCodeInterceptor<T> {
    marks: Marks,
    time_buffer: VecDeque<T>,
}

impl<T: Copy> GCodeInterceptor<T> {
    /// The family of the marks.
    pub closed spec fn marks(&self) -> Marks {
        self.marks
    }

    /// The times noted and not yet written, the oldest first.
    pub closed spec fn noted(&self) -> Seq<T> {
        self.time_buffer@
    }

    /// No marks are written anew where the slicer is not known.
    pub fn new() -> (r: Self)
        ensures
            r.marks() == Marks::Noop,
            r.noted() == Seq::<T>::empty(),
    {
        GCodeInterceptor { marks: Marks::Noop, time_buffer: VecDeque::new() }
    }

    /// The marks of the slicer `preset`.
    pub fn metadata_processor(preset: &SlicerPreset) -> (r: Self)
        ensures
            r.marks() == marks_of(preset@),
            r.noted() == Seq::<T>::empty(),
    {
        let marks = match preset {
            SlicerPreset::PrusaSlicer { .. } => Marks::Slic3r,
            SlicerPreset::SuperSlicer { .. } => Marks::Slic3r,
            SlicerPreset::OrcaSlicer { .. } => Marks::Slic3r,
            SlicerPreset::IdeaMaker { .. } => Marks::IdeaMaker,
            SlicerPreset::Cura { .. } => Marks::Cura,
            SlicerPreset::Simplify3D { .. } => Marks::Noop,
        };
        GCodeInterceptor { marks, time_buffer: VecDeque::new() }
    }

    /// Marks of the family `marks`.
    pub fn with_marks(marks: Marks) -> (r: Self)
        ensures
            r.marks() == marks,
            r.noted() == Seq::<T>::empty(),
    {
        GCodeInterceptor { marks, time_buffer: VecDeque::new() }
    }

    /// Takes a command that was planned and the time that has passed when
    /// the machine has done it; the time is noted where the command is a
    /// mark for it.
    pub fn post_command(&mut self, command: &GCodeCommand, total_time: T)
        ensures
            final(self).marks() == old(self).marks(),
            final(self).noted() == (if notes_time(old(self).marks(), command@) {
                old(self).noted().push(total_time)
            } else {
                old(self).noted()
            }),
    {
        let notes = match self.marks {
            Marks::Noop => false,
            Marks::M73 => command_is_m73(command),
            Marks::Slic3r => command_is_m73(command),
            Marks::IdeaMaker => comment_has_prefix(command, "PRINTING_TIME: "),
            Marks::Cura => comment_has_prefix(command, "TIME_ELAPSED:"),
        };
        if notes {
            self.time_buffer.push_back(total_time);
        }
    }

    fn take(&mut self) -> (r: Option<T>)
        ensures
            final(self).marks() == old(self).marks(),
            match r {
                Some(t) => old(self).noted().len() > 0 && t == old(self).noted()[0]
                    && final(self).noted() == old(self).noted().drop_first(),
                None => old(self).noted().len() == 0 && final(self).noted() == old(self).noted(),
            },
    {
        let r = self.time_buffer.pop_front();
        proof {
            if r is Some {
                assert(self.time_buffer@ =~= old(self).time_buffer@.drop_first());
            }
        }
        r
    }

    /// What is written in place of `command`, given the part of its comment
    /// that announces the estimated printing time, if it does.
    pub fn output_with(&mut self, command: &GCodeCommand, estimated: Option<String>) -> (r: Option<
        Rewrite<T>,
    >)
        ensures
            final(self).marks() == old(self).marks(),
            (rewrite_view(r), final(self).noted()) == rewritten(
                old(self).marks(),
                old(self).noted(),
                command@,
                text_of(estimated),
            ),
    {
        match self.marks {
            Marks::Noop => None,
            Marks::M73 => {
                if command_is_m73(command) {
                    match self.take() {
                        Some(elapsed) => Some(Rewrite::Progress { elapsed }),
                        None => None,
                    }
                } else {
                    None
                }
            },
            Marks::Slic3r => {
                if command_is_m73(command) && self.time_buffer.len() > 0 {
                    match self.take() {
                        Some(elapsed) => Some(Rewrite::Progress { elapsed }),
                        None => None,
                    }
                } else if command.comment.is_some() {
                    match estimated {
                        Some(prefix) => Some(Rewrite::Estimated { prefix }),
                        None => None,
                    }
                } else {
                    None
                }
            },
            Marks::IdeaMaker => {
                if comment_has_prefix(command, "Print Time: ") {
                    Some(Rewrite::PrintTime)
                } else if comment_has_prefix(command, "PRINTING_TIME: ") {
                    if self.time_buffer.len() > 0 {
                        Some(Rewrite::PrintingTime { elapsed: self.time_buffer[0] })
                    } else {
                        None
                    }
                } else if comment_has_prefix(command, "REMAINING_TIME: ") {
                    match self.take() {
                        Some(elapsed) => Some(Rewrite::RemainingTime { elapsed }),
                        None => None,
                    }
                } else {
                    None
                }
            },
            Marks::Cura => {
                if comment_has_prefix(command, "TIME:") {
                    Some(Rewrite::Time)
                } else if comment_has_prefix(command, "PRINT.TIME:") {
                    Some(Rewrite::PrintDotTime)
                } else if comment_has_prefix(command, "TIME_ELAPSED:") {
                    match self.take() {
                        Some(elapsed) => Some(Rewrite::TimeElapsed { elapsed }),
                        None => None,
                    }
                } else {
                    None
                }
            },
        }
    }

    /// What is written in place of `command`; `None` where the command
    /// stays as it is.
    pub fn output_process(&mut self, command: &GCodeCommand) -> (r: Option<Rewrite<T>>)
        ensures
            final(self).marks() == old(self).marks(),
            (rewrite_view(r), final(self).noted()) == rewritten(
                old(self).marks(),
                old(self).noted(),
                command@,
                match command@.comment {
                    Some(c) => estimated_prefix(c),
                    None => None,
                },
            ),
    {
        let estimated = match &command.comment {
            Some(c) => captured("^ estimated printing time \\(.*?\\) =", 0, c.as_str()),
            None => None,
        };
        self.output_with(command, estimated)
    }
}

} // verus!
