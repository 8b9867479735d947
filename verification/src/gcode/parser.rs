//! The grammar of one line.
use vstd::prelude::*;
use vstd::string::StringExecFns;
use crate::gcode::{lettered, text_of};
use crate::gcode::{GCodeCommand, GCodeCommandView, GCodeExtendedParams, GCodeOperation, GCodeOperationView, GCodeTraditionalParams};
use crate::text::{alphabetic, lowercase, scan, to_ascii_uppercase, trim, trim_end};
use crate::text::{char_to_ascii_uppercase, make_string, scan_from, to_chars, trim_end_at, trim_start_at, Stop};

verus! {

/// What `lexical_core::parse_partial::<u16>` makes of the UTF-8 bytes of
/// `text`: the number that the text begins with and how many bytes of the
/// text it takes up, or nothing where the crate reports an error.
pub uninterp spec fn partial_u16(text: Seq<char>) -> Option<(u16, usize)>;

/// The same for `lexical_core::parse_partial::<u64>`.
pub uninterp spec fn partial_u64(text: Seq<char>) -> Option<(u64, usize)>;

/// Calls `lexical_core::parse_partial::<u16>` on the characters of `v` from
/// `from` on. The bytes that the crate reports as used are a sign and
/// digits, one byte each, so there are no more of them than characters.
#[verifier::external_body]
fn leading_u16(v: &Vec<char>, from: usize) -> (r: Option<(u16, usize)>)
    requires
        from <= v@.len(),
    ensures
        r == partial_u16(v@.skip(from as int)),
        r matches Some((_, n)) ==> n <= v@.len() - from,
{
    let text: String = v[from..].iter().collect();
    lexical_core::parse_partial::<u16>(text.as_bytes()).ok()
}

/// Calls `lexical_core::parse_partial::<u64>` on the characters of `v` from
/// `from` on. The bytes that the crate reports as used are a sign and
/// digits, one byte each, so there are no more of them than characters.
#[verifier::external_body]
fn leading_u64(v: &Vec<char>, from: usize) -> (r: Option<(u64, usize)>)
    requires
        from <= v@.len(),
    ensures
        r == partial_u64(v@.skip(from as int)),
        r matches Some((_, n)) ==> n <= v@.len() - from,
{
    let text: String = v[from..].iter().collect();
    lexical_core::parse_partial::<u64>(text.as_bytes()).ok()
}

/// The comment that begins at `i`, after blanks: what follows the `;`,
/// without trailing whitespace.
pub open spec fn comment_at(s: Seq<char>, i: int) -> Option<Seq<char>> {
    let j = scan(s, i, Stop::NonBlank);
    if 0 <= j < s.len() && s[j] == ';' {
        Some(trim_end(s.subrange(j + 1, s.len() as int)))
    } else {
        None
    }
}

/// Where the lettered parameter that begins at `j` ends, if one begins
/// there: at the next whitespace or `;`.
pub open spec fn traditional_param_end(s: Seq<char>, j: int) -> Option<int> {
    if 0 <= j < s.len() && alphabetic(s[j]) && s[j] != ';' {
        Some(scan(s, j + 1, Stop::Separator))
    } else {
        None
    }
}

/// The lettered parameter that spans `s[j..e]`.
pub open spec fn traditional_param(s: Seq<char>, j: int, e: int) -> (char, Seq<char>) {
    (to_ascii_uppercase(s[j]), s.subrange(j + 1, e))
}

/// The lettered parameters that follow one that ended at `p`, each after
/// at least one blank, and where the last of them ends.
pub open spec fn traditional_params_after(s: Seq<char>, p: int) -> (Seq<(char, Seq<char>)>, int)
    decreases s.len() - p,
{
    let q = scan(s, p, Stop::NonBlank);
    let end = traditional_param_end(s, q);
    if end is Some && p < q < end.unwrap() <= s.len() {
        let e = end.unwrap();
        let rest = traditional_params_after(s, e);
        (seq![traditional_param(s, q, e)] + rest.0, rest.1)
    } else {
        (Seq::empty(), p)
    }
}

/// The lettered parameters from `j` on, and where the last of them ends.
pub open spec fn traditional_params(s: Seq<char>, j: int) -> (Seq<(char, Seq<char>)>, int) {
    match traditional_param_end(s, j) {
        Some(e) => {
            let rest = traditional_params_after(s, e);
            (seq![traditional_param(s, j, e)] + rest.0, rest.1)
        },
        None => (Seq::empty(), j),
    }
}

/// A traditional command at `i`, where `code` is what was read after its
/// letter: the command needs a letter, and a code that takes up at least one
/// character; then come parameters and a comment.
pub open spec fn traditional_with(s: Seq<char>, i: int, code: Option<(u16, usize)>) -> Option<
    GCodeCommandView,
> {
    if 0 <= i < s.len() && alphabetic(s[i]) && code is Some && code.unwrap().1 != 0 && i + 1
        + code.unwrap().1 <= s.len() {
        let j = scan(s, i + 1 + code.unwrap().1, Stop::NonBlank);
        let (params, k) = traditional_params(s, j);
        Some(
            GCodeCommandView {
                op: GCodeOperationView::Traditional {
                    letter: to_ascii_uppercase(s[i]),
                    code: code.unwrap().0,
                    params,
                },
                comment: comment_at(s, k),
            },
        )
    } else {
        None
    }
}

/// A traditional command at `i`: a letter, the code that `partial_u16`
/// reads after it, then parameters and a comment.
pub open spec fn traditional_at(s: Seq<char>, i: int) -> Option<GCodeCommandView> {
    traditional_with(s, i, partial_u16(s.skip(i + 1)))
}

/// The `key=value` parameter at `j` and where it ends. The key is all that
/// stands before the next `=`, unless a `;` comes first: the rest of the line
/// is a comment then. A value that begins with `"` runs to the next `"`; any
/// other runs to the next whitespace or `;` and holds no `"`.
pub open spec fn extended_param_at(s: Seq<char>, j: int) -> Option<((Seq<char>, Seq<char>), int)> {
    let eq = scan(s, j, Stop::KeyEnd);
    if 0 <= j <= eq < s.len() && s[eq] == '=' {
        let v = eq + 1;
        if v < s.len() && s[v] == '"' {
            let close = scan(s, v + 1, Stop::Char('"'));
            if close < s.len() {
                Some(((s.subrange(j, eq), s.subrange(v + 1, close)), close + 1))
            } else {
                None
            }
        } else {
            let e = scan(s, v, Stop::ValueEnd);
            if e < s.len() && s[e] == '"' {
                None
            } else {
                Some(((s.subrange(j, eq), s.subrange(v, e)), e))
            }
        }
    } else {
        None
    }
}

/// The `key=value` parameters that follow one that ended at `p`, each after
/// at least one blank, and where the last of them ends.
pub open spec fn extended_params_after(s: Seq<char>, p: int) -> (
    Seq<(Seq<char>, Seq<char>)>,
    int,
)
    decreases s.len() - p,
{
    let q = scan(s, p, Stop::NonBlank);
    let next = extended_param_at(s, q);
    if next is Some && p < q < next.unwrap().1 <= s.len() {
        let (pair, e) = next.unwrap();
        let rest = extended_params_after(s, e);
        (seq![pair] + rest.0, rest.1)
    } else {
        (Seq::empty(), p)
    }
}

/// The `key=value` parameters from `j` on, and where the last of them ends.
pub open spec fn extended_params(s: Seq<char>, j: int) -> (Seq<(Seq<char>, Seq<char>)>, int) {
    match extended_param_at(s, j) {
        Some((pair, e)) => {
            let rest = extended_params_after(s, e);
            (seq![pair] + rest.0, rest.1)
        },
        None => (Seq::empty(), j),
    }
}

/// The mapping that written pairs stand for: keys in lower case, later
/// pairs replacing earlier ones of the same key.
pub open spec fn lowered(pairs: Seq<(Seq<char>, Seq<char>)>) -> Map<Seq<char>, Seq<char>>
    decreases pairs.len(),
{
    if pairs.len() == 0 {
        Map::empty()
    } else {
        lowered(pairs.drop_last()).insert(lowercase(pairs.last().0), pairs.last().1)
    }
}

/// An extended command at `i`: a name that begins with a letter and goes
/// on in letters, digits and `_`, then parameters and a comment. Name and
/// keys are kept in lower case.
pub open spec fn extended_at(s: Seq<char>, i: int) -> Option<GCodeCommandView> {
    if 0 <= i < s.len() && alphabetic(s[i]) {
        let e = scan(s, i + 1, Stop::NonName);
        let j = scan(s, e, Stop::NonBlank);
        let (pairs, k) = extended_params(s, j);
        Some(
            GCodeCommandView {
                op: GCodeOperationView::Extended {
                    command: lowercase(s.subrange(i, e)),
                    params: lowered(pairs),
                },
                comment: comment_at(s, k),
            },
        )
    } else {
        None
    }
}

/// Where the command begins, where `number` is what was read after the
/// first character that is no blank: after the blanks, and after a line
/// number, which is an `N` or `n`, the number, and blanks.
pub open spec fn command_start_with(s: Seq<char>, number: Option<(u64, usize)>) -> int {
    let i = scan(s, 0, Stop::NonBlank);
    if i < s.len() && (s[i] == 'N' || s[i] == 'n') && number is Some && i + 1 + number.unwrap().1
        <= s.len() {
        scan(s, i + 1 + number.unwrap().1, Stop::NonBlank)
    } else {
        i
    }
}

/// Where the command begins: after leading blanks and a line number, whose
/// number is what `partial_u64` reads.
pub open spec fn command_start(s: Seq<char>) -> int {
    command_start_with(s, partial_u64(s.skip(scan(s, 0, Stop::NonBlank) + 1)))
}

/// The command that a line without surrounding whitespace stands for, or
/// the rest of the line at which no command could be read. The forms are
/// tried in this order: traditional, extended, comment alone, empty.
pub open spec fn command_of(s: Seq<char>) -> Result<GCodeCommandView, Seq<char>> {
    let i = command_start(s);
    if traditional_at(s, i) is Some {
        Ok(traditional_at(s, i).unwrap())
    } else if extended_at(s, i) is Some {
        Ok(extended_at(s, i).unwrap())
    } else if comment_at(s, i) is Some {
        Ok(GCodeCommandView { op: GCodeOperationView::Nop, comment: comment_at(s, i) })
    } else if i == s.len() {
        Ok(GCodeCommandView { op: GCodeOperationView::Nop, comment: None })
    } else {
        Err(s.skip(i))
    }
}

/// The command that a line stands for.
pub open spec fn parsed(line: Seq<char>) -> Result<GCodeCommandView, Seq<char>> {
    command_of(trim(line))
}

/// Where in a line the grammar could not go on.
#[derive(Debug, Clone, PartialEq)]
pub struct GCodeParseError {
    position: String,
}

impl View for GCodeParseError {
    type V = Seq<char>;

    /// The rest of the line at which no command could be read.
    closed spec fn view(&self) -> Seq<char> {
        self.position@
    }
}

impl GCodeParseError {
    /// The message of the error.
    pub fn to_string(&self) -> (r: String)
        ensures
            r@ == "gcode parse error at: "@ + self@,
    {
        String::from_str("gcode parse error at: ").concat(self.position.as_str())
    }
}

fn parse_comment(v: &Vec<char>, i: usize) -> (r: Option<String>)
    requires
        i <= v@.len(),
    ensures
        text_of(r) == comment_at(v@, i as int),
{
    let j = scan_from(v, i, Stop::NonBlank);
    if j < v.len() && v[j] == ';' {
        let end = trim_end_at(v, j + 1, v.len());
        Some(make_string(v, j + 1, end))
    } else {
        None
    }
}

fn parse_traditional_param(v: &Vec<char>, j: usize) -> (r: Option<usize>)
    requires
        j <= v@.len(),
    ensures
        match r {
            Some(e) => traditional_param_end(v@, j as int) == Some(e as int) && j < e <= v@.len(),
            None => traditional_param_end(v@, j as int) is None,
        },
{
    if j < v.len() && v[j].is_alphabetic() && v[j] != ';' {
        Some(scan_from(v, j + 1, Stop::Separator))
    } else {
        None
    }
}

fn parse_traditional_params(v: &Vec<char>, j: usize) -> (r: (Vec<(char, String)>, usize))
    requires
        j <= v@.len(),
    ensures
        lettered(r.0@) == traditional_params(v@, j as int).0,
        r.1 == traditional_params(v@, j as int).1,
        j <= r.1 <= v@.len(),
{
    let mut params: Vec<(char, String)> = Vec::new();
    let first = parse_traditional_param(v, j);
    match first {
        None => {
            assert(lettered(params@) =~= Seq::empty());
            (params, j)
        },
        Some(e) => {
            params.push((char_to_ascii_uppercase(v[j]), make_string(v, j + 1, e)));
            assert(lettered(params@) =~= seq![traditional_param(v@, j as int, e as int)]);
            let mut p: usize = e;
            let mut done = false;
            while !done
                invariant
                    j < p <= v@.len(),
                    traditional_params(v@, j as int) == (
                        lettered(params@) + traditional_params_after(v@, p as int).0,
                        traditional_params_after(v@, p as int).1,
                    ),
                    done ==> traditional_params_after(v@, p as int) == (
                        Seq::<(char, Seq<char>)>::empty(),
                        p as int,
                    ),
                decreases v@.len() - p, (if done { 0int } else { 1int }),
            {
                let q = scan_from(v, p, Stop::NonBlank);
                let next = if q == p {
                    None
                } else {
                    parse_traditional_param(v, q)
                };
                match next {
                    None => {
                        done = true;
                    },
                    Some(e) => {
                        let ghost before = lettered(params@);
                        params.push((char_to_ascii_uppercase(v[q]), make_string(v, q + 1, e)));
                        proof {
                            let this = traditional_param(v@, q as int, e as int);
                            let rest = traditional_params_after(v@, e as int);
                            assert(lettered(params@) =~= before.push(this));
                            assert(before.push(this) + rest.0 =~= before + (seq![this] + rest.0));
                        }
                        p = e;
                    },
                }
            }
            assert(lettered(params@) + Seq::empty() =~= lettered(params@));
            (params, p)
        },
    }
}

/// Reads a traditional command at `i`, given what was read as its code:
/// the number and the count of characters that it takes up.
pub fn traditional_with_code(v: &Vec<char>, i: usize, code: Option<(u16, usize)>) -> (r: Option<
    GCodeCommand,
>)
    ensures
        match r {
            Some(c) => traditional_with(v@, i as int, code) == Some(c@) && c.op.wf(),
            None => traditional_with(v@, i as int, code) is None,
        },
{
    if i < v.len() && v[i].is_alphabetic() {
        match code {
            Some((code, n)) => {
                if n == 0 || n > v.len() - (i + 1) {
                    return None;
                }
                let j = scan_from(v, i + 1 + n, Stop::NonBlank);
                let (params, k) = parse_traditional_params(v, j);
                let comment = parse_comment(v, k);
                Some(
                    GCodeCommand {
                        op: GCodeOperation::Traditional {
                            letter: char_to_ascii_uppercase(v[i]),
                            code,
                            params: GCodeTraditionalParams::from_vec(params),
                        },
                        comment,
                    },
                )
            },
            None => None,
        }
    } else {
        None
    }
}

fn parse_traditional(v: &Vec<char>, i: usize) -> (r: Option<GCodeCommand>)
    requires
        i <= v@.len(),
    ensures
        match r {
            Some(c) => traditional_at(v@, i as int) == Some(c@) && c.op.wf(),
            None => traditional_at(v@, i as int) is None,
        },
{
    if i < v.len() {
        let code = leading_u16(v, i + 1);
        traditional_with_code(v, i, code)
    } else {
        None
    }
}

fn parse_extended_param(v: &Vec<char>, j: usize) -> (r: Option<(String, String, usize)>)
    requires
        j <= v@.len(),
    ensures
        match r {
            Some((key, value, e)) => extended_param_at(v@, j as int) == Some(
                ((key@, value@), e as int),
            ) && j < e <= v@.len(),
            None => extended_param_at(v@, j as int) is None,
        },
{
    let eq = scan_from(v, j, Stop::KeyEnd);
    if eq < v.len() && v[eq] == '=' {
        let start = eq + 1;
        if start < v.len() && v[start] == '"' {
            let close = scan_from(v, start + 1, Stop::Char('"'));
            if close < v.len() {
                Some((make_string(v, j, eq), make_string(v, start + 1, close), close + 1))
            } else {
                None
            }
        } else {
            let e = scan_from(v, start, Stop::ValueEnd);
            if e < v.len() && v[e] == '"' {
                None
            } else {
                Some((make_string(v, j, eq), make_string(v, start, e), e))
            }
        }
    } else {
        None
    }
}

fn parse_extended_params(v: &Vec<char>, j: usize) -> (r: (GCodeExtendedParams, usize))
    requires
        j <= v@.len(),
    ensures
        r.0@ == lowered(extended_params(v@, j as int).0),
        r.1 == extended_params(v@, j as int).1,
        r.0.wf(),
        j <= r.1 <= v@.len(),
{
    let mut params = GCodeExtendedParams::new();
    let first = parse_extended_param(v, j);
    match first {
        None => (params, j),
        Some((key, value, e)) => {
            let ghost mut seen: Seq<(Seq<char>, Seq<char>)> = seq![(key@, value@)];
            assert(seen.drop_last() =~= Seq::empty());
            params.insert(key.as_str().to_lowercase(), value);
            assert(lowered(seen) == lowered(seen.drop_last()).insert(
                lowercase(seen.last().0),
                seen.last().1,
            ));
            let mut p: usize = e;
            let mut done = false;
            while !done
                invariant
                    j < p <= v@.len(),
                    params.wf(),
                    params@ == lowered(seen),
                    extended_params(v@, j as int) == (
                        seen + extended_params_after(v@, p as int).0,
                        extended_params_after(v@, p as int).1,
                    ),
                    done ==> extended_params_after(v@, p as int) == (
                        Seq::<(Seq<char>, Seq<char>)>::empty(),
                        p as int,
                    ),
                decreases v@.len() - p, (if done { 0int } else { 1int }),
            {
                let q = scan_from(v, p, Stop::NonBlank);
                let next = if q == p {
                    None
                } else {
                    parse_extended_param(v, q)
                };
                match next {
                    None => {
                        done = true;
                    },
                    Some((key, value, e)) => {
                        proof {
                            let rest = extended_params_after(v@, e as int);
                            let pair = (key@, value@);
                            assert(seen.push(pair) + rest.0 =~= seen + (seq![pair] + rest.0));
                            assert(seen.push(pair).drop_last() =~= seen);
                            seen = seen.push(pair);
                        }
                        params.insert(key.as_str().to_lowercase(), value);
                        p = e;
                    },
                }
            }
            assert(seen + Seq::empty() =~= seen);
            (params, p)
        },
    }
}

fn parse_extended(v: &Vec<char>, i: usize) -> (r: Option<GCodeCommand>)
    requires
        i <= v@.len(),
    ensures
        match r {
            Some(c) => extended_at(v@, i as int) == Some(c@) && c.op.wf(),
            None => extended_at(v@, i as int) is None,
        },
{
    if i < v.len() && v[i].is_alphabetic() {
        let e = scan_from(v, i + 1, Stop::NonName);
        let name = make_string(v, i, e);
        let j = scan_from(v, e, Stop::NonBlank);
        let (params, k) = parse_extended_params(v, j);
        let comment = parse_comment(v, k);
        Some(
            GCodeCommand {
                op: GCodeOperation::Extended { command: name.as_str().to_lowercase(), params },
                comment,
            },
        )
    } else {
        None
    }
}

/// Finds where the command begins, given what was read as the number
/// after the first character that is no blank.
pub fn command_start_after(v: &Vec<char>, number: Option<(u64, usize)>) -> (r: usize)
    ensures
        r == command_start_with(v@, number),
        r <= v@.len(),
{
    let i = scan_from(v, 0, Stop::NonBlank);
    if i < v.len() && (v[i] == 'N' || v[i] == 'n') {
        match number {
            Some((_, n)) => {
                if n <= v.len() - (i + 1) {
                    scan_from(v, i + 1 + n, Stop::NonBlank)
                } else {
                    i
                }
            },
            None => i,
        }
    } else {
        i
    }
}

fn parse_line_number(v: &Vec<char>) -> (r: usize)
    ensures
        r == command_start(v@),
        r <= v@.len(),
{
    let i = scan_from(v, 0, Stop::NonBlank);
    if i < v.len() {
        let number = leading_u64(v, i + 1);
        command_start_after(v, number)
    } else {
        command_start_after(v, None)
    }
}

fn parse(v: &Vec<char>) -> (r: Result<GCodeCommand, GCodeParseError>)
    ensures
        match r {
            Ok(c) => command_of(v@) == Ok::<GCodeCommandView, Seq<char>>(c@) && c.op.wf(),
            Err(e) => command_of(v@) == Err::<GCodeCommandView, Seq<char>>(e@),
        },
{
    let i = parse_line_number(v);
    if let Some(c) = parse_traditional(v, i) {
        return Ok(c);
    }
    if let Some(c) = parse_extended(v, i) {
        return Ok(c);
    }
    if let Some(text) = parse_comment(v, i) {
        return Ok(GCodeCommand { op: GCodeOperation::Nop, comment: Some(text) });
    }
    if i == v.len() {
        return Ok(GCodeCommand { op: GCodeOperation::Nop, comment: None });
    }
    Err(GCodeParseError { position: make_string(v, i, v.len()) })
}

/// Reads one line. Surrounding whitespace is dropped first; what follows a
/// command that was read is not looked at.
pub fn parse_gcode(cmd: &str) -> (r: Result<GCodeCommand, GCodeParseError>)
    ensures
        match r {
            Ok(c) => parsed(cmd@) == Ok::<GCodeCommandView, Seq<char>>(c@) && c.op.wf(),
            Err(e) => parsed(cmd@) == Err::<GCodeCommandView, Seq<char>>(e@),
        },
{
    let all = to_chars(cmd);
    let lo = trim_start_at(&all, 0, all.len());
    let hi = trim_end_at(&all, lo, all.len());
    assert(all@.subrange(0, all@.len() as int) == all@);
    let mut line: Vec<char> = Vec::new();
    let mut i: usize = lo;
    while i < hi
        invariant
            lo <= i <= hi <= all@.len(),
            line@ == all@.subrange(lo as int, i as int),
        decreases hi - i,
    {
        line.push(all[i]);
        i += 1;
        assert(all@.subrange(lo as int, i as int) == all@.subrange(lo as int, i - 1).push(
            all@[i - 1],
        ));
    }
    parse(&line)
}

} // verus!
