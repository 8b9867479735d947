//! Commands of the motion language: their parameters, their shape, and the
//! reader that turns lines into commands.
use vstd::prelude::*;
use vstd::string::StringExecFns;
use crate::text::{char_is_whitespace, is_whitespace, lemma_lex_irreflexive, lemma_lex_total, lemma_lex_transitive, less, lex_less, make_string, push_decimal, push_text, to_chars, decimal};

pub mod parser;

pub use parser::parse_gcode;
pub use parser::GCodeParseError;

verus! {

/// The view of a list of lettered parameters.
pub open spec fn lettered(params: Seq<(char, String)>) -> Seq<(char, Seq<char>)> {
    Seq::new(params.len(), |i: int| (params[i].0, params[i].1@))
}

/// The value of the first parameter that carries the letter `key`.
pub open spec fn first_value(params: Seq<(char, Seq<char>)>, key: char) -> Option<Seq<char>>
    decreases params.len(),
{
    if params.len() == 0 {
        None
    } else if params[0].0 == key {
        Some(params[0].1)
    } else {
        first_value(params.drop_first(), key)
    }
}

/// The value of the last parameter that carries the letter `key` and whose
/// value is marked as a number in `numeric`. A parameter without a mark
/// counts as no number.
pub open spec fn last_number(
    params: Seq<(char, Seq<char>)>,
    numeric: Seq<bool>,
    key: char,
) -> Option<Seq<char>>
    decreases params.len(),
{
    if params.len() == 0 {
        None
    } else {
        let i = params.len() - 1;
        if params[i].0 == key && i < numeric.len() && numeric[i] {
            Some(params[i].1)
        } else {
            last_number(params.drop_last(), numeric, key)
        }
    }
}

/// Parameters of a traditional command, in the order in which they were
/// written: a letter and the text of its value.
#[derive(Debug, Clone, PartialEq)]
pub struct GCodeTraditionalParams(Vec<(char, String)>);

impl View for GCodeTraditionalParams {
    type V = Seq<(char, Seq<char>)>;

    closed spec fn view(&self) -> Seq<(char, Seq<char>)> {
        lettered(self.0@)
    }
}

impl GCodeTraditionalParams {
    pub fn from_vec(vec: Vec<(char, String)>) -> (r: Self)
        ensures
            r@ == lettered(vec@),
    {
        Self(vec)
    }

    /// The text of the first parameter with the letter `key`.
    pub fn get_string(&self, key: char) -> (r: Option<&str>)
        ensures
            match r {
                Some(s) => first_value(self@, key) == Some(s@),
                None => first_value(self@, key) is None,
            },
    {
        let mut i: usize = 0;
        assert(self@.skip(0) == self@);
        while i < self.0.len()
            invariant
                i <= self.0@.len(),
                first_value(self@, key) == first_value(self@.skip(i as int), key),
            decreases self.0@.len() - i,
        {
            if self.0[i].0 == key {
                return Some(self.0[i].1.as_str());
            }
            assert(self@.skip(i as int).drop_first() == self@.skip(i + 1));
            i += 1;
        }
        None
    }

    pub fn len(&self) -> (r: usize)
        ensures
            r == self@.len(),
    {
        self.0.len()
    }

    /// The letter and the text of the parameter at position `i`.
    pub fn get(&self, i: usize) -> (r: (char, &str))
        requires
            i < self@.len(),
        ensures
            r.0 == self@[i as int].0,
            r.1@ == self@[i as int].1,
    {
        (self.0[i].0, self.0[i].1.as_str())
    }
}

/// The mapping that a list of written `key=value` pairs stands for: later
/// pairs replace earlier ones of the same key.
pub open spec fn keyed(pairs: Seq<(Seq<char>, Seq<char>)>) -> Map<Seq<char>, Seq<char>>
    decreases pairs.len(),
{
    if pairs.len() == 0 {
        Map::empty()
    } else {
        keyed(pairs.drop_last()).insert(pairs.last().0, pairs.last().1)
    }
}

/// Whether no key occurs twice in `pairs`.
pub open spec fn distinct_keys(pairs: Seq<(Seq<char>, Seq<char>)>) -> bool {
    forall|i: int, j: int| 0 <= i < j < pairs.len() ==> pairs[i].0 != pairs[j].0
}

/// Where no key occurs twice, the mapping holds each pair as it was
/// written, and no other.
pub proof fn lemma_keyed(pairs: Seq<(Seq<char>, Seq<char>)>)
    requires
        distinct_keys(pairs),
    ensures
        keyed(pairs).dom().finite(),
        keyed(pairs).dom().len() == pairs.len(),
        forall|i: int|
            0 <= i < pairs.len() ==> keyed(pairs).contains_key(#[trigger] pairs[i].0) && keyed(
                pairs,
            )[pairs[i].0] == pairs[i].1,
        forall|k: Seq<char>| #[trigger]
            keyed(pairs).contains_key(k) ==> exists|i: int|
                0 <= i < pairs.len() && #[trigger] pairs[i].0 == k,
    decreases pairs.len(),
{
    if pairs.len() > 0 {
        let front = pairs.drop_last();
        lemma_keyed(front);
        let m = keyed(front);
        assert(!m.contains_key(pairs.last().0)) by {
            if m.contains_key(pairs.last().0) {
                let i = choose|i: int| 0 <= i < front.len() && #[trigger] front[i].0 == pairs.last().0;
                assert(pairs[i].0 == pairs[pairs.len() - 1].0);
            }
        }
        assert(keyed(pairs).dom() =~= m.dom().insert(pairs.last().0));
        assert forall|i: int| 0 <= i < pairs.len() implies keyed(pairs).contains_key(
            #[trigger] pairs[i].0,
        ) && keyed(pairs)[pairs[i].0] == pairs[i].1 by {
            if i < pairs.len() - 1 {
                assert(front[i] == pairs[i]);
            }
        }
        assert forall|k: Seq<char>| #[trigger] keyed(pairs).contains_key(k) implies exists|i: int|
            0 <= i < pairs.len() && #[trigger] pairs[i].0 == k by {
            if k == pairs.last().0 {
                assert(pairs[pairs.len() - 1].0 == k);
            } else {
                let i = choose|i: int| 0 <= i < front.len() && #[trigger] front[i].0 == k;
                assert(pairs[i].0 == k);
            }
        }
    }
}

/// Whether the keys of `pairs` stand in the order of strings, each before
/// the next.
pub open spec fn sorted_keys(pairs: Seq<(Seq<char>, Seq<char>)>) -> bool {
    forall|i: int, j: int| 0 <= i < j < pairs.len() ==> lex_less(pairs[i].0, pairs[j].0)
}

/// Keys in order are distinct.
pub proof fn lemma_sorted_distinct(pairs: Seq<(Seq<char>, Seq<char>)>)
    requires
        sorted_keys(pairs),
    ensures
        distinct_keys(pairs),
{
    assert forall|i: int, j: int| 0 <= i < j < pairs.len() implies pairs[i].0 != pairs[j].0 by {
        lemma_lex_irreflexive(pairs[i].0);
    }
}

/// Whether `s` holds whitespace, so that it is written in quotes.
pub open spec fn needs_quotes(s: Seq<char>) -> bool {
    exists|i: int| 0 <= i < s.len() && is_whitespace(#[trigger] s[i])
}

/// `s` as it is written: in quotes where it holds whitespace.
pub open spec fn quoted(s: Seq<char>) -> Seq<char> {
    if needs_quotes(s) {
        seq!['"'] + s + seq!['"']
    } else {
        s
    }
}

/// A `key=value` parameter as it is written.
pub open spec fn rendered_pair(pair: (Seq<char>, Seq<char>)) -> Seq<char> {
    quoted(pair.0) + seq!['='] + quoted(pair.1)
}

/// `key=value` parameters as they are written: one after the other, with a
/// blank between them.
pub open spec fn rendered_pairs(pairs: Seq<(Seq<char>, Seq<char>)>) -> Seq<char>
    decreases pairs.len(),
{
    if pairs.len() == 0 {
        Seq::empty()
    } else if pairs.len() == 1 {
        rendered_pair(pairs[0])
    } else {
        rendered_pairs(pairs.drop_last()) + seq![' '] + rendered_pair(pairs.last())
    }
}

/// Lettered parameters as they are written: the letter and the value of
/// each, with a blank between them.
pub open spec fn rendered_lettered(params: Seq<(char, Seq<char>)>) -> Seq<char>
    decreases params.len(),
{
    if params.len() == 0 {
        Seq::empty()
    } else if params.len() == 1 {
        seq![params[0].0] + params[0].1
    } else {
        rendered_lettered(params.drop_last()) + seq![' '] + seq![params.last().0]
            + params.last().1
    }
}

fn push_quoted(out: &mut Vec<char>, s: &str)
    ensures
        final(out)@ == old(out)@ + quoted(s@),
{
    if GCodeExtendedParams::requires_quotes(s) {
        out.push('"');
        push_text(out, s);
        out.push('"');
        assert(out@ =~= old(out)@ + (seq!['"'] + s@ + seq!['"']));
    } else {
        push_text(out, s);
    }
}

impl GCodeTraditionalParams {
    /// The parameters as they are written.
    pub fn to_string(&self) -> (r: String)
        ensures
            r@ == rendered_lettered(self@),
    {
        let mut out: Vec<char> = Vec::new();
        self.render(&mut out);
        assert(out@ =~= rendered_lettered(self@));
        make_string(&out, 0, out.len())
    }

    /// Appends the parameters, as they are written, to `out`.
    pub fn render(&self, out: &mut Vec<char>)
        ensures
            final(out)@ == old(out)@ + rendered_lettered(self@),
    {
        let mut i: usize = 0;
        assert(self@.take(0) =~= Seq::empty());
        assert(out@ =~= old(out)@ + rendered_lettered(self@.take(0)));
        while i < self.0.len()
            invariant
                i <= self@.len(),
                self@.len() == self.0@.len(),
                out@ == old(out)@ + rendered_lettered(self@.take(i as int)),
            decreases self@.len() - i,
        {
            let ghost before = out@;
            let ghost done = self@.take(i as int);
            let ghost next = self@.take(i + 1);
            proof {
                assert(next.drop_last() =~= done);
                assert(next.last() == self@[i as int]);
                assert(self@[i as int] == (self.0@[i as int].0, self.0@[i as int].1@));
            }
            if i > 0 {
                out.push(' ');
            }
            out.push(self.0[i].0);
            push_text(out, self.0[i].1.as_str());
            proof {
                if i > 0 {
                    assert(out@ =~= old(out)@ + (rendered_lettered(done) + seq![' '] + seq![
                        next.last().0,
                    ] + next.last().1));
                } else {
                    assert(done =~= Seq::empty());
                    assert(out@ =~= old(out)@ + (seq![next[0].0] + next[0].1));
                }
            }
            i += 1;
        }
        assert(self@.take(self@.len() as int) =~= self@);
    }
}

/// Parameters of an extended command: at most one value for each key, kept
/// in the order of the keys.
#[derive(Debug, Clone, PartialEq)]
pub struct GCodeExtendedParams(Vec<(String, String)>);

impl View for GCodeExtendedParams {
    type V = Map<Seq<char>, Seq<char>>;

    closed spec fn view(&self) -> Map<Seq<char>, Seq<char>> {
        keyed(self.entries())
    }
}

impl GCodeExtendedParams {
    /// The pairs held, in the order of their keys.
    pub closed spec fn entries(&self) -> Seq<(Seq<char>, Seq<char>)> {
        Seq::new(self.0@.len(), |i: int| (self.0@[i].0@, self.0@[i].1@))
    }

    /// The keys stand in order, so that none is held twice.
    pub open spec fn wf(&self) -> bool {
        sorted_keys(self.entries())
    }

    /// The pairs held are those of the mapping that the parameters stand
    /// for.
    pub proof fn lemma_entries(&self)
        requires
            self.wf(),
        ensures
            self@ == keyed(self.entries()),
            self@.dom().finite(),
            self@.dom().len() == self.entries().len(),
            forall|i: int|
                0 <= i < self.entries().len() ==> self@.contains_key(
                    #[trigger] self.entries()[i].0,
                ) && self@[self.entries()[i].0] == self.entries()[i].1,
    {
        lemma_sorted_distinct(self.entries());
        lemma_keyed(self.entries());
    }

    pub fn new() -> (r: Self)
        ensures
            r.wf(),
            r@ == Map::<Seq<char>, Seq<char>>::empty(),
            r.entries() == Seq::<(Seq<char>, Seq<char>)>::empty(),
    {
        let r = Self(Vec::new());
        assert(r.entries() =~= Seq::empty());
        r
    }

    /// Gives `key` the value `value`, in place of the one it had, if any.
    pub fn insert(&mut self, key: String, value: String)
        requires
            old(self).wf(),
        ensures
            final(self).wf(),
            final(self)@ == old(self)@.insert(key@, value@),
    {
        let ghost before = self.entries();
        let mut i: usize = 0;
        while i < self.0.len() && less(self.0[i].0.as_str(), key.as_str())
            invariant
                *self == *old(self),
                before == self.entries(),
                i <= self.0@.len(),
                forall|j: int| 0 <= j < i ==> lex_less(#[trigger] before[j].0, key@),
            decreases self.0@.len() - i,
        {
            i += 1;
        }
        let found = i < self.0.len() && self.0[i].0 == key;
        if found {
            self.0.set(i, (key, value));
        } else {
            self.0.insert(i, (key, value));
        }
        proof {
            let after = self.entries();
            let k = key@;
            let at = i as int;
            if found {
                assert(before[at].0 == k);
                assert(after =~= before.update(at, (k, value@)));
                assert forall|a: int, b: int| 0 <= a < b < after.len() implies lex_less(
                    after[a].0,
                    after[b].0,
                ) by {
                    assert(lex_less(before[a].0, before[b].0));
                }
            } else {
                assert(after =~= before.insert(at, (k, value@)));
                if at < before.len() {
                    lemma_lex_total(before[at].0, k);
                }
                assert forall|a: int, b: int| 0 <= a < b < after.len() implies lex_less(
                    after[a].0,
                    after[b].0,
                ) by {
                    if b < at {
                        assert(lex_less(before[a].0, before[b].0));
                    } else if b == at {
                        assert(lex_less(before[a].0, k));
                    } else if a == at {
                        if b - 1 > at {
                            assert(lex_less(before[at].0, before[b - 1].0));
                            lemma_lex_transitive(k, before[at].0, before[b - 1].0);
                        }
                    } else if a < at {
                        assert(lex_less(before[a].0, before[b - 1].0));
                    } else {
                        assert(lex_less(before[a - 1].0, before[b - 1].0));
                    }
                }
            }
            lemma_sorted_distinct(before);
            lemma_sorted_distinct(after);
            lemma_keyed(before);
            lemma_keyed(after);
            let want = keyed(before).insert(k, value@);
            assert forall|x: Seq<char>| keyed(after).contains_key(x) <==> want.contains_key(
                x,
            ) by {
                if keyed(after).contains_key(x) {
                    let a = choose|a: int| 0 <= a < after.len() && #[trigger] after[a].0 == x;
                    if a != at {
                        let o = if found || a < at {
                            a
                        } else {
                            a - 1
                        };
                        assert(before[o].0 == x);
                    }
                }
                if keyed(before).contains_key(x) {
                    let a = choose|a: int| 0 <= a < before.len() && #[trigger] before[a].0 == x;
                    let n = if found || a < at {
                        a
                    } else {
                        a + 1
                    };
                    assert(after[n].0 == x);
                }
                if x == k {
                    assert(after[at].0 == x);
                }
            }
            assert forall|x: Seq<char>| keyed(after).contains_key(x) implies keyed(after)[x]
                == want[x] by {
                let a = choose|a: int| 0 <= a < after.len() && #[trigger] after[a].0 == x;
                assert(keyed(after)[after[a].0] == after[a].1);
                if a != at {
                    let o = if found || a < at {
                        a
                    } else {
                        a - 1
                    };
                    assert(before[o] == after[a]);
                    assert(keyed(before)[before[o].0] == before[o].1);
                    if a < at {
                        assert(after[a].0 != after[at].0);
                    } else {
                        assert(after[at].0 != after[a].0);
                    }
                }
            }
            assert(keyed(after) =~= want);
        }
    }

    /// The value held for `key`.
    pub fn get_string(&self, key: &str) -> (r: Option<&str>)
        requires
            self.wf(),
        ensures
            match r {
                Some(s) => self@.contains_key(key@) && self@[key@] == s@,
                None => !self@.contains_key(key@),
            },
    {
        let wanted = String::from_str(key);
        let mut i: usize = 0;
        while i < self.0.len()
            invariant
                self.wf(),
                wanted@ == key@,
                i <= self.0@.len(),
                forall|j: int| 0 <= j < i ==> self.entries()[j].0 != key@,
            decreases self.0@.len() - i,
        {
            if self.0[i].0 == wanted {
                proof {
                    self.lemma_entries();
                    assert(self.entries()[i as int].0 == key@);
                }
                return Some(self.0[i].1.as_str());
            }
            i += 1;
        }
        proof {
            lemma_sorted_distinct(self.entries());
            lemma_keyed(self.entries());
        }
        None
    }

    /// The number of keys held.
    pub fn len(&self) -> (r: usize)
        requires
            self.wf(),
        ensures
            r == self@.dom().len(),
            r == self.entries().len(),
    {
        proof {
            self.lemma_entries();
        }
        self.0.len()
    }

    /// Whether `s` holds whitespace, so that it is written in quotes.
    pub fn requires_quotes(s: &str) -> (r: bool)
        ensures
            r == needs_quotes(s@),
    {
        let chars = to_chars(s);
        let mut i: usize = 0;
        while i < chars.len()
            invariant
                i <= chars@.len(),
                chars@ == s@,
                forall|j: int| 0 <= j < i ==> !is_whitespace(#[trigger] s@[j]),
            decreases chars@.len() - i,
        {
            if char_is_whitespace(chars[i]) {
                assert(is_whitespace(s@[i as int]));
                return true;
            }
            i += 1;
        }
        false
    }

    /// The parameters as they are written, in the order of their keys.
    pub fn to_string(&self) -> (r: String)
        ensures
            r@ == rendered_pairs(self.entries()),
    {
        let mut out: Vec<char> = Vec::new();
        self.render(&mut out);
        assert(out@ =~= rendered_pairs(self.entries()));
        make_string(&out, 0, out.len())
    }

    /// Appends the parameters, as they are written, to `out`.
    pub fn render(&self, out: &mut Vec<char>)
        ensures
            final(out)@ == old(out)@ + rendered_pairs(self.entries()),
    {
        let ghost all = self.entries();
        let mut i: usize = 0;
        assert(all.take(0) =~= Seq::empty());
        assert(out@ =~= old(out)@ + rendered_pairs(all.take(0)));
        while i < self.0.len()
            invariant
                i <= all.len(),
                all == self.entries(),
                all.len() == self.0@.len(),
                out@ == old(out)@ + rendered_pairs(all.take(i as int)),
            decreases all.len() - i,
        {
            let ghost done = all.take(i as int);
            let ghost next = all.take(i + 1);
            proof {
                assert(next.drop_last() =~= done);
                assert(next.last() == all[i as int]);
                assert(all[i as int] == (self.0@[i as int].0@, self.0@[i as int].1@));
            }
            if i > 0 {
                out.push(' ');
            }
            push_quoted(out, self.0[i].0.as_str());
            out.push('=');
            push_quoted(out, self.0[i].1.as_str());
            proof {
                if i > 0 {
                    assert(out@ =~= old(out)@ + (rendered_pairs(done) + seq![' '] + rendered_pair(
                        next.last(),
                    )));
                } else {
                    assert(done =~= Seq::empty());
                    assert(out@ =~= old(out)@ + rendered_pair(next[0]));
                }
            }
            i += 1;
        }
        assert(all.take(all.len() as int) =~= all);
    }
}

/// What a line asks of the machine.
#[derive(Debug, Clone, PartialEq)]
pub enum GCodeOperation {
    /// Nothing: an empty line, or a comment alone.
    Nop,
    /// A rapid or linear move. Each target and the feedrate is the text of a
    /// number, absent where the line gives none.
    Move { x: Option<String>, y: Option<String>, z: Option<String>, e: Option<String>, f: Option<
        String,
    > },
    /// A letter, a code and lettered parameters.
    Traditional { letter: char, code: u16, params: GCodeTraditionalParams },
    /// A named command with `key=value` parameters.
    Extended { command: String, params: GCodeExtendedParams },
}

/// An operation with its texts as sequences of characters.
pub enum GCodeOperationView {
    Nop,
    Move {
        x: Option<Seq<char>>,
        y: Option<Seq<char>>,
        z: Option<Seq<char>>,
        e: Option<Seq<char>>,
        f: Option<Seq<char>>,
    },
    Traditional { letter: char, code: u16, params: Seq<(char, Seq<char>)> },
    Extended { command: Seq<char>, params: Map<Seq<char>, Seq<char>> },
}

/// The characters of an optional text.
pub open spec fn text_of(s: Option<String>) -> Option<Seq<char>> {
    match s {
        Some(s) => Some(s@),
        None => None,
    }
}

impl View for GCodeOperation {
    type V = GCodeOperationView;

    open spec fn view(&self) -> GCodeOperationView {
        match *self {
            GCodeOperation::Nop => GCodeOperationView::Nop,
            GCodeOperation::Move { x, y, z, e, f } => GCodeOperationView::Move {
                x: text_of(x),
                y: text_of(y),
                z: text_of(z),
                e: text_of(e),
                f: text_of(f),
            },
            GCodeOperation::Traditional { letter, code, params } => GCodeOperationView::Traditional {
                letter,
                code,
                params: params@,
            },
            GCodeOperation::Extended { command, params } => GCodeOperationView::Extended {
                command: command@,
                params: params@,
            },
        }
    }
}

/// A target of a move as it is written: a blank, the letter of the axis and
/// the number.
pub open spec fn rendered_target(letter: char, value: Option<String>) -> Seq<char> {
    match value {
        Some(v) => seq![' ', letter] + v@,
        None => Seq::empty(),
    }
}

fn push_target(out: &mut Vec<char>, letter: char, value: &Option<String>)
    ensures
        final(out)@ == old(out)@ + rendered_target(letter, *value),
{
    match value {
        Some(v) => {
            out.push(' ');
            out.push(letter);
            push_text(out, v.as_str());
            assert(out@ =~= old(out)@ + (seq![' ', letter] + v@));
        },
        None => {
            assert(out@ =~= old(out)@ + Seq::<char>::empty());
        },
    }
}

impl GCodeOperation {
    /// The parameters of an extended command are kept in order.
    pub open spec fn wf(&self) -> bool {
        match *self {
            GCodeOperation::Extended { command, params } => params.wf(),
            _ => true,
        }
    }

    /// The operation as it is written. A move is written as `G1` with its
    /// targets as they were read; the parameters of an extended command come
    /// in the order of their keys.
    pub open spec fn rendered(&self) -> Seq<char> {
        match *self {
            GCodeOperation::Nop => Seq::empty(),
            GCodeOperation::Move { x, y, z, e, f } => "G1"@ + rendered_target('X', x)
                + rendered_target('Y', y) + rendered_target('Z', z) + rendered_target('E', e)
                + rendered_target('F', f),
            GCodeOperation::Traditional { letter, code, params } => seq![letter] + decimal(
                code as nat,
            ) + (if params@.len() > 0 {
                seq![' '] + rendered_lettered(params@)
            } else {
                Seq::empty()
            }),
            GCodeOperation::Extended { command, params } => command@ + (if params.entries().len()
                > 0 {
                seq![' '] + rendered_pairs(params.entries())
            } else {
                Seq::empty()
            }),
        }
    }

    /// Appends the operation, as it is written, to `out`.
    pub fn render(&self, out: &mut Vec<char>)
        requires
            self.wf(),
        ensures
            final(out)@ == old(out)@ + self.rendered(),
    {
        match self {
            GCodeOperation::Nop => {
                assert(out@ =~= old(out)@ + Seq::<char>::empty());
            },
            GCodeOperation::Move { x, y, z, e, f } => {
                push_text(out, "G1");
                push_target(out, 'X', x);
                push_target(out, 'Y', y);
                push_target(out, 'Z', z);
                push_target(out, 'E', e);
                push_target(out, 'F', f);
                assert(out@ =~= old(out)@ + self.rendered());
            },
            GCodeOperation::Traditional { letter, code, params } => {
                out.push(*letter);
                push_decimal(out, *code as u64);
                if params.len() > 0 {
                    out.push(' ');
                    params.render(out);
                }
                assert(out@ =~= old(out)@ + self.rendered());
            },
            GCodeOperation::Extended { command, params } => {
                push_text(out, command.as_str());
                if params.len() > 0 {
                    out.push(' ');
                    params.render(out);
                }
                assert(out@ =~= old(out)@ + self.rendered());
            },
        }
    }

    /// The operation as it is written.
    pub fn to_string(&self) -> (r: String)
        requires
            self.wf(),
        ensures
            r@ == self.rendered(),
    {
        let mut out: Vec<char> = Vec::new();
        self.render(&mut out);
        assert(out@ =~= self.rendered());
        make_string(&out, 0, out.len())
    }

    pub fn is_nop(&self) -> (r: bool)
        ensures
            r == (self@ is Nop),
    {
        matches!(self, GCodeOperation::Nop)
    }
}

/// The operation that a letter, a code and parameters stand for, where
/// `numeric` marks the parameters whose value is the text of a number:
/// `G0` and `G1` are moves, to the last number given for each axis and at
/// the last one given as feedrate.
pub open spec fn traditional_operation(
    letter: char,
    code: u16,
    params: Seq<(char, Seq<char>)>,
    numeric: Seq<bool>,
) -> GCodeOperationView {
    if letter == 'G' && (code == 0 || code == 1) {
        GCodeOperationView::Move {
            x: last_number(params, numeric, 'X'),
            y: last_number(params, numeric, 'Y'),
            z: last_number(params, numeric, 'Z'),
            e: last_number(params, numeric, 'E'),
            f: last_number(params, numeric, 'F'),
        }
    } else {
        GCodeOperationView::Traditional { letter, code, params }
    }
}

/// Builds the operation of a traditional command. `numeric[i]` says whether
/// the value of `params[i]` is the text of a number.
pub fn map_traditional(
    letter: char,
    code: u16,
    params: Vec<(char, String)>,
    numeric: &Vec<bool>,
) -> (r: GCodeOperation)
    ensures
        r@ == traditional_operation(letter, code, lettered(params@), numeric@),
        r.wf(),
{
    if letter == 'G' && (code == 0 || code == 1) {
        let mut x: Option<String> = None;
        let mut y: Option<String> = None;
        let mut z: Option<String> = None;
        let mut e: Option<String> = None;
        let mut f: Option<String> = None;
        let ghost all = lettered(params@);
        let mut i: usize = 0;
        assert(all.take(0) =~= Seq::empty());
        while i < params.len()
            invariant
                i <= params@.len(),
                all == lettered(params@),
                text_of(x) == last_number(all.take(i as int), numeric@, 'X'),
                text_of(y) == last_number(all.take(i as int), numeric@, 'Y'),
                text_of(z) == last_number(all.take(i as int), numeric@, 'Z'),
                text_of(e) == last_number(all.take(i as int), numeric@, 'E'),
                text_of(f) == last_number(all.take(i as int), numeric@, 'F'),
            decreases params@.len() - i,
        {
            proof {
                assert(all.take(i + 1).drop_last() =~= all.take(i as int));
                assert(all.take(i + 1).last() == all[i as int]);
            }
            if i < numeric.len() && numeric[i] {
                let c = params[i].0;
                if c == 'X' {
                    x = Some(params[i].1.clone());
                } else if c == 'Y' {
                    y = Some(params[i].1.clone());
                } else if c == 'Z' {
                    z = Some(params[i].1.clone());
                } else if c == 'E' {
                    e = Some(params[i].1.clone());
                } else if c == 'F' {
                    f = Some(params[i].1.clone());
                }
            }
            i += 1;
        }
        assert(all.take(params@.len() as int) =~= all);
        GCodeOperation::Move { x, y, z, e, f }
    } else {
        GCodeOperation::Traditional { letter, code, params: GCodeTraditionalParams(params) }
    }
}

/// The operation once the numbers among its parameters are known.
pub open spec fn resolved(op: GCodeOperationView, numeric: Seq<bool>) -> GCodeOperationView {
    match op {
        GCodeOperationView::Traditional { letter, code, params } => traditional_operation(
            letter,
            code,
            params,
            numeric,
        ),
        _ => op,
    }
}

/// A line: its operation and the comment that follows it.
#[derive(Debug, Clone, PartialEq)]
pub struct GCodeCommand {
    pub op: GCodeOperation,
    pub comment: Option<String>,
}

/// A command with its texts as sequences of characters.
pub struct GCodeCommandView {
    pub op: GCodeOperationView,
    pub comment: Option<Seq<char>>,
}

impl View for GCodeCommand {
    type V = GCodeCommandView;

    open spec fn view(&self) -> GCodeCommandView {
        GCodeCommandView { op: self.op@, comment: text_of(self.comment) }
    }
}

impl GCodeCommand {
    /// The command as it is written: the operation, then the comment after
    /// a `;`, which a blank parts from the operation.
    pub open spec fn rendered(&self) -> Seq<char> {
        self.op.rendered() + (match self.comment {
            Some(c) => (if self.op is Nop {
                seq![';']
            } else {
                seq![' ', ';']
            }) + c@,
            None => Seq::empty(),
        })
    }

    /// The command once the numbers among its parameters are known:
    /// `numeric[i]` says whether the value of the parameter at position `i`
    /// is the text of a number. A traditional `G0` or `G1` becomes a move;
    /// any other command stays as it is.
    pub fn resolve(self, numeric: &Vec<bool>) -> (r: GCodeCommand)
        ensures
            r@.comment == self@.comment,
            r@.op == resolved(self@.op, numeric@),
            self.op.wf() ==> r.op.wf(),
    {
        match self.op {
            GCodeOperation::Traditional { letter, code, params } => GCodeCommand {
                op: map_traditional(letter, code, params.0, numeric),
                comment: self.comment,
            },
            op => GCodeCommand { op, comment: self.comment },
        }
    }

    /// The command as it is written.
    pub fn to_string(&self) -> (r: String)
        requires
            self.op.wf(),
        ensures
            r@ == self.rendered(),
    {
        let mut out: Vec<char> = Vec::new();
        self.op.render(&mut out);
        match &self.comment {
            Some(c) => {
                if !self.op.is_nop() {
                    out.push(' ');
                }
                out.push(';');
                push_text(&mut out, c.as_str());
            },
            None => {},
        }
        assert(out@ =~= self.rendered());
        make_string(&out, 0, out.len())
    }
}

/// `std::io::Error`: the failure of a read. It is carried through and never
/// looked into.
#[verifier::external_type_specification]
#[verifier::external_body]
pub struct ExIoError(std::io::Error);

/// Why no command came out of a line.
#[derive(Debug)]
pub enum GCodeReadError {
    /// The line could not be read.
    IO(std::io::Error),
    /// The line holds no command of the language.
    ParseError(GCodeParseError),
}

impl GCodeReadError {
    /// The message of the error.
    pub fn to_string(&self) -> (r: String)
        ensures
            r@ == (if *self is IO {
                "IO error"@
            } else {
                "invalid gcode"@
            }),
    {
        match self {
            GCodeReadError::IO(_) => String::from_str("IO error"),
            GCodeReadError::ParseError(_) => String::from_str("invalid gcode"),
        }
    }
}

/// What reading one line gave: nothing at the end of the input, else the
/// command of the line or the reason why there is none.
pub open spec fn line_outcome(
    line: Seq<char>,
    read: Result<usize, std::io::Error>,
    r: Option<Result<GCodeCommand, GCodeReadError>>,
) -> bool {
    match read {
        Ok(n) => if n == 0 {
            r is None
        } else {
            match parser::parsed(line) {
                Ok(c) => r matches Some(Ok(got)) && got@ == c && got.op.wf(),
                Err(rest) => r matches Some(Err(GCodeReadError::ParseError(e))) && e@ == rest,
            }
        },
        Err(e) => r == Some(Err::<GCodeCommand, GCodeReadError>(GCodeReadError::IO(e))),
    }
}

/// A source of lines together with the line that was read last.
pub struct GCodeReader<R> {
    rdr: R,
    buf: String,
}

impl<R> GCodeReader<R> {
    /// The line that was read last.
    pub closed spec fn line(&self) -> Seq<char> {
        self.buf@
    }

    /// The source of the lines.
    pub closed spec fn source(&self) -> R {
        self.rdr
    }

    pub fn new(rdr: R) -> (r: GCodeReader<R>)
        ensures
            r.line() == Seq::<char>::empty(),
            r.source() == rdr,
    {
        GCodeReader { rdr, buf: String::new() }
    }

    pub fn buffer(&self) -> (r: &str)
        ensures
            r@ == self.line(),
    {
        self.buf.as_str()
    }

    /// Hands out the source, for the next line to be read from it.
    pub fn reader(&mut self) -> (r: &mut R)
        ensures
            *r == old(self).source(),
            final(self).source() == *final(r),
            final(self).line() == old(self).line(),
    {
        &mut self.rdr
    }

    /// Takes the line that was read from the source and what the read
    /// returned: the number of bytes read, or the failure.
    pub fn accept(&mut self, line: String, read: Result<usize, std::io::Error>) -> (r: Option<
        Result<GCodeCommand, GCodeReadError>,
    >)
        ensures
            final(self).line() == line@,
            final(self).source() == old(self).source(),
            line_outcome(line@, read, r),
    {
        self.buf = line;
        match read {
            Ok(n) => {
                if n == 0 {
                    None
                } else {
                    match parse_gcode(self.buf.as_str()) {
                        Ok(c) => Some(Ok(c)),
                        Err(e) => Some(Err(GCodeReadError::ParseError(e))),
                    }
                }
            },
            Err(e) => Some(Err(GCodeReadError::IO(e))),
        }
    }
}

} // verus!
