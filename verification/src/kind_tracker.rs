//! Registry of the labels that tag planned operations.
use vstd::prelude::*;
use vstd::string::StringExecFns;
use crate::gcode::text_of;
use crate::text::{make_string, starts_with, starts_with_at, to_chars, trim, trim_end_at, trim_start_at};

verus! {

/// Handle of a label held by a [`KindTracker`].
#[derive(Debug, Clone, Copy, PartialEq, Eq, Structural)]
pub struct Kind(usize);

impl Kind {
    /// Position of the label in the registry that issued the handle.
    pub closed spec fn index(self) -> nat {
        self.0 as nat
    }
}

/// Labels in the order of their first use, and the label that untagged
/// commands inherit.
#[derive(Debug)]
pub struct KindTracker {
    labels: Vec<String>,
    current_kind: Option<Kind>,
}

/// The label that a trailing comment stands for: the comment without
/// surrounding whitespace, all layer-change comments folded into one.
pub open spec fn comment_label(comment: Seq<char>) -> Seq<char> {
    let t = trim(comment);
    if starts_with(t, "move to next layer "@) {
        "move to next layer"@
    } else {
        t
    }
}

/// The labels of a registry once `label` has been looked up: it is added
/// at the end on its first use.
pub open spec fn labels_with(labels: Seq<Seq<char>>, label: Seq<char>) -> Seq<Seq<char>> {
    if labels.contains(label) {
        labels
    } else {
        labels.push(label)
    }
}

/// A position at which `label` stands in `labels`.
pub open spec fn position(labels: Seq<Seq<char>>, label: Seq<char>) -> int {
    choose|i: int| 0 <= i < labels.len() && labels[i] == label
}

/// The handle of the label at position `i`.
pub closed spec fn kind_at(i: int) -> Kind {
    Kind(i as usize)
}

/// The handle under which a registry with the labels `labels` holds `label`.
pub open spec fn kind_in(labels: Seq<Seq<char>>, label: Seq<char>) -> Kind {
    kind_at(position(labels, label))
}

/// No label occurs twice.
pub open spec fn distinct(labels: Seq<Seq<char>>) -> bool {
    forall|i: int, j: int| 0 <= i < j < labels.len() ==> labels[i] != labels[j]
}

/// Looking a label up keeps the labels distinct, and the handle it gives
/// is the position of the label.
pub proof fn lemma_labels_with(labels: Seq<Seq<char>>, label: Seq<char>)
    requires
        distinct(labels),
        labels.len() < usize::MAX,
    ensures
        distinct(labels_with(labels, label)),
        labels_with(labels, label).contains(label),
        0 <= position(labels_with(labels, label), label) < labels_with(labels, label).len(),
        labels_with(labels, label)[position(labels_with(labels, label), label)] == label,
        kind_in(labels_with(labels, label), label).index() == position(
            labels_with(labels, label),
            label,
        ),
        forall|i: int|
            0 <= i < labels.len() ==> #[trigger] labels_with(labels, label)[i] == labels[i],
        labels.len() <= labels_with(labels, label).len() <= labels.len() + 1,
{
    let after = labels_with(labels, label);
    if labels.contains(label) {
        let i = choose|i: int| 0 <= i < labels.len() && labels[i] == label;
        assert(after[i] == label);
    } else {
        assert(after[labels.len() as int] == label);
        assert forall|i: int, j: int| 0 <= i < j < after.len() implies after[i] != after[j] by {
            if j == labels.len() {
                assert(labels[i] != label);
            }
        }
    }
}

/// The labels of a registry once the kind of a command with the trailing
/// comment `comment` has been found.
pub open spec fn labels_after_comment(labels: Seq<Seq<char>>, comment: Option<Seq<char>>) -> Seq<
    Seq<char>,
> {
    match comment {
        Some(c) => labels_with(labels, comment_label(c)),
        None => labels,
    }
}

/// The kind of a command with the trailing comment `comment`: that of the
/// comment's label, or the current kind where there is no comment.
pub open spec fn kind_after_comment(
    labels: Seq<Seq<char>>,
    current: Option<Kind>,
    comment: Option<Seq<char>>,
) -> Option<Kind> {
    match comment {
        Some(c) => Some(kind_in(labels_with(labels, comment_label(c)), comment_label(c))),
        None => current,
    }
}

impl KindTracker {
    /// The registered labels; position `i` belongs to the handle of index `i`.
    pub closed spec fn labels(&self) -> Seq<Seq<char>> {
        Seq::new(self.labels@.len(), |i: int| self.labels@[i]@)
    }

    /// The kind given to commands that carry no label of their own.
    pub closed spec fn current(&self) -> Option<Kind> {
        self.current_kind
    }

    /// No label is registered twice.
    pub open spec fn wf(&self) -> bool {
        distinct(self.labels())
    }

    /// Whether `kind` was issued by this registry.
    pub open spec fn knows(&self, kind: Kind) -> bool {
        kind.index() < self.labels().len()
    }

    pub fn new() -> (r: KindTracker)
        ensures
            r.wf(),
            r.labels() == Seq::<Seq<char>>::empty(),
            r.current() == None::<Kind>,
    {
        let r = KindTracker { labels: Vec::new(), current_kind: None };
        assert(r.labels() =~= Seq::<Seq<char>>::empty());
        r
    }

    /// Returns the handle of `s`, registering the label on its first use.
    pub fn get_kind(&mut self, s: &str) -> (k: Kind)
        requires
            old(self).wf(),
        ensures
            final(self).wf(),
            final(self).current() == old(self).current(),
            final(self).labels() == labels_with(old(self).labels(), s@),
            k == kind_in(final(self).labels(), s@),
            final(self).knows(k),
            final(self).labels()[k.index() as int] == s@,
    {
        let label = String::from_str(s);
        let mut i: usize = 0;
        while i < self.labels.len()
            invariant
                *self == *old(self),
                self.wf(),
                label@ == s@,
                i <= self.labels@.len(),
                forall|j: int| 0 <= j < i ==> self.labels()[j] != s@,
            decreases self.labels@.len() - i,
        {
            if self.labels[i] == label {
                proof {
                    assert(self.labels()[i as int] == s@);
                    let p = position(self.labels(), s@);
                    if p < i {
                        assert(self.labels()[p] != self.labels()[i as int]);
                    } else if p > i {
                        assert(self.labels()[i as int] != self.labels()[p]);
                    }
                }
                return Kind(i);
            }
            i += 1;
        }
        let k = Kind(self.labels.len());
        self.labels.push(label);
        proof {
            assert(self.labels() =~= old(self).labels().push(s@));
            assert(!old(self).labels().contains(s@));
            let n = old(self).labels().len() as int;
            assert(self.labels()[n] == s@);
            let p = position(self.labels(), s@);
            if p != n {
                assert(old(self).labels()[p] == s@);
            }
            assert forall|i: int, j: int| 0 <= i < j < self.labels().len() implies self.labels()[i]
                != self.labels()[j] by {
                if j == n {
                    assert(old(self).labels()[i] != s@);
                } else {
                    assert(old(self).labels()[i] != old(self).labels()[j]);
                }
            }
        }
        k
    }

    /// Whether `k` was issued by this registry.
    pub fn is_known(&self, k: Kind) -> (r: bool)
        ensures
            r == self.knows(k),
    {
        k.0 < self.labels.len()
    }

    /// The label behind a handle that this registry issued.
    pub fn resolve_kind(&self, k: Kind) -> (label: &str)
        requires
            self.knows(k),
        ensures
            label@ == self.labels()[k.index() as int],
    {
        self.labels[k.0].as_str()
    }

    /// The kind of a command from its trailing comment; a command without a
    /// comment inherits the current kind.
    pub fn kind_from_comment(&mut self, comment: &Option<String>) -> (r: Option<Kind>)
        requires
            old(self).wf(),
        ensures
            final(self).wf(),
            final(self).current() == old(self).current(),
            final(self).labels() == labels_after_comment(old(self).labels(), text_of(*comment)),
            r == kind_after_comment(old(self).labels(), old(self).current(), text_of(*comment)),
            comment is Some ==> r is Some && final(self).knows(r.unwrap()),
    {
        match comment {
            Some(c) => {
                let chars = to_chars(c.as_str());
                let lo = trim_start_at(&chars, 0, chars.len());
                let hi = trim_end_at(&chars, lo, chars.len());
                assert(chars@.subrange(0, chars@.len() as int) == chars@);
                let prefix = to_chars("move to next layer ");
                if starts_with_at(&chars, lo, hi, &prefix) {
                    Some(self.get_kind("move to next layer"))
                } else {
                    let label = make_string(&chars, lo, hi);
                    Some(self.get_kind(label.as_str()))
                }
            },
            None => self.current_kind,
        }
    }

    pub fn set_current(&mut self, kind: Option<Kind>)
        ensures
            final(self).current() == kind,
            final(self).labels() == old(self).labels(),
    {
        self.current_kind = kind;
    }
}

} // verus!
