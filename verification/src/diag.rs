//! Structured parse failures and their rendering as line-anchored text.
//!
//! Every failing parse returns a [`ParseErr`]: the position of the first
//! unconsumed character, an optional expected token, and the stack of named
//! grammar contexts that were active, innermost first. [`report_error`]
//! renders one block per context: the context name, the expected token if
//! any, the 1-based line number, the verbatim text of the offending source
//! line, and a caret line aligned under the failure column.

use vstd::prelude::*;

verus! {

/// A named grammar context, used only for diagnostics.
#[derive(Debug, Clone, Copy, PartialEq, Eq, Structural)]
pub enum Ctx {
    Usize,
    Decimal,
    FloatLit,
    NonescapedString,
    EscapeCode,
    StrBody,
    StrInner,
    StrLit,
    BusTypeTok,
    BusRow,
    GenRow,
    BranchRow,
    CostModelTok,
    GenCostRow,
    ServiceStatusTok,
    DcLineRow,
    VersionTok,
    CommentTok,
    IdentifierTok,
    FunctionKw,
    GetVersion,
    GetBaseMva,
    GetBus,
    GetGen,
    GetGencost,
    GetBranch,
    GetDcline,
    GetBusname,
}

impl Ctx {
    /// The context's name as it appears in a diagnostic.
    pub open spec fn label(self) -> Seq<char> {
        match self {
            Ctx::Usize => seq!['u', 's', 'i', 'z', 'e'],
            Ctx::Decimal => seq!['d', 'e', 'c', 'i', 'm', 'a', 'l'],
            Ctx::FloatLit => seq!['f', 'l', 'o', 'a', 't'],
            Ctx::NonescapedString => seq![
                'n',
                'o',
                'n',
                'e',
                's',
                'c',
                'a',
                'p',
                'e',
                'd',
                '_',
                's',
                't',
                'r',
                'i',
                'n',
                'g',
            ],
            Ctx::EscapeCode => seq!['e', 's', 'c', 'a', 'p', 'e', '_', 'c', 'o', 'd', 'e'],
            Ctx::StrBody => seq!['s', 't', 'r', 'i', 'n', 'g', '_', 'b', 'o', 'd', 'y'],
            Ctx::StrInner => seq!['S', 't', 'r', 'i', 'n', 'g'],
            Ctx::StrLit => seq!['s', 't', 'r', 'i', 'n', 'g'],
            Ctx::BusTypeTok => seq!['b', 'u', 's', '_', 't', 'y', 'p', 'e'],
            Ctx::BusRow => seq!['b', 'u', 's'],
            Ctx::GenRow => seq!['g', 'e', 'n'],
            Ctx::BranchRow => seq!['b', 'r', 'a', 'n', 'c', 'h'],
            Ctx::CostModelTok => seq!['c', 'o', 's', 't', '_', 'm', 'o', 'd', 'e', 'l'],
            Ctx::GenCostRow => seq!['g', 'e', 'n', '_', 'c', 'o', 's', 't'],
            Ctx::ServiceStatusTok => seq![
                's',
                'e',
                'r',
                'v',
                'i',
                'c',
                'e',
                '_',
                's',
                't',
                'a',
                't',
                'u',
                's',
            ],
            Ctx::DcLineRow => seq!['d', 'c', 'l', 'i', 'n', 'e'],
            Ctx::VersionTok => seq!['v', 'e', 'r', 's', 'i', 'o', 'n'],
            Ctx::CommentTok => seq!['c', 'o', 'm', 'm', 'e', 'n', 't'],
            Ctx::IdentifierTok => seq!['i', 'd', 'e', 'n', 't', 'i', 'f', 'i', 'e', 'r'],
            Ctx::FunctionKw => seq!['f', 'u', 'n', 'c', 't', 'i', 'o', 'n'],
            Ctx::GetVersion => seq!['g', 'e', 't', '_', 'v', 'e', 'r', 's', 'i', 'o', 'n'],
            Ctx::GetBaseMva => seq!['g', 'e', 't', '_', 'b', 'a', 's', 'e', '_', 'm', 'v', 'a'],
            Ctx::GetBus => seq!['g', 'e', 't', '_', 'b', 'u', 's'],
            Ctx::GetGen => seq!['g', 'e', 't', '_', 'g', 'e', 'n'],
            Ctx::GetGencost => seq!['g', 'e', 't', '_', 'g', 'e', 'n', 'c', 'o', 's', 't'],
            Ctx::GetBranch => seq!['g', 'e', 't', '_', 'b', 'r', 'a', 'n', 'c', 'h'],
            Ctx::GetDcline => seq!['g', 'e', 't', '_', 'd', 'c', 'l', 'i', 'n', 'e'],
            Ctx::GetBusname => seq!['g', 'e', 't', '_', 'b', 'u', 's', 'n', 'a', 'm', 'e'],
        }
    }

    /// The same name as an executable character vector.
    pub fn label_vec(&self) -> (r: Vec<char>)
        ensures
            r@ == self.label(),
    {
        match self {
            Ctx::Usize => vec!['u', 's', 'i', 'z', 'e'],
            Ctx::Decimal => vec!['d', 'e', 'c', 'i', 'm', 'a', 'l'],
            Ctx::FloatLit => vec!['f', 'l', 'o', 'a', 't'],
            Ctx::NonescapedString => vec![
                'n',
                'o',
                'n',
                'e',
                's',
                'c',
                'a',
                'p',
                'e',
                'd',
                '_',
                's',
                't',
                'r',
                'i',
                'n',
                'g',
            ],
            Ctx::EscapeCode => vec!['e', 's', 'c', 'a', 'p', 'e', '_', 'c', 'o', 'd', 'e'],
            Ctx::StrBody => vec!['s', 't', 'r', 'i', 'n', 'g', '_', 'b', 'o', 'd', 'y'],
            Ctx::StrInner => vec!['S', 't', 'r', 'i', 'n', 'g'],
            Ctx::StrLit => vec!['s', 't', 'r', 'i', 'n', 'g'],
            Ctx::BusTypeTok => vec!['b', 'u', 's', '_', 't', 'y', 'p', 'e'],
            Ctx::BusRow => vec!['b', 'u', 's'],
            Ctx::GenRow => vec!['g', 'e', 'n'],
            Ctx::BranchRow => vec!['b', 'r', 'a', 'n', 'c', 'h'],
            Ctx::CostModelTok => vec!['c', 'o', 's', 't', '_', 'm', 'o', 'd', 'e', 'l'],
            Ctx::GenCostRow => vec!['g', 'e', 'n', '_', 'c', 'o', 's', 't'],
            Ctx::ServiceStatusTok => vec![
                's',
                'e',
                'r',
                'v',
                'i',
                'c',
                'e',
                '_',
                's',
                't',
                'a',
                't',
                'u',
                's',
            ],
            Ctx::DcLineRow => vec!['d', 'c', 'l', 'i', 'n', 'e'],
            Ctx::VersionTok => vec!['v', 'e', 'r', 's', 'i', 'o', 'n'],
            Ctx::CommentTok => vec!['c', 'o', 'm', 'm', 'e', 'n', 't'],
            Ctx::IdentifierTok => vec!['i', 'd', 'e', 'n', 't', 'i', 'f', 'i', 'e', 'r'],
            Ctx::FunctionKw => vec!['f', 'u', 'n', 'c', 't', 'i', 'o', 'n'],
            Ctx::GetVersion => vec!['g', 'e', 't', '_', 'v', 'e', 'r', 's', 'i', 'o', 'n'],
            Ctx::GetBaseMva => vec!['g', 'e', 't', '_', 'b', 'a', 's', 'e', '_', 'm', 'v', 'a'],
            Ctx::GetBus => vec!['g', 'e', 't', '_', 'b', 'u', 's'],
            Ctx::GetGen => vec!['g', 'e', 't', '_', 'g', 'e', 'n'],
            Ctx::GetGencost => vec!['g', 'e', 't', '_', 'g', 'e', 'n', 'c', 'o', 's', 't'],
            Ctx::GetBranch => vec!['g', 'e', 't', '_', 'b', 'r', 'a', 'n', 'c', 'h'],
            Ctx::GetDcline => vec!['g', 'e', 't', '_', 'd', 'c', 'l', 'i', 'n', 'e'],
            Ctx::GetBusname => vec!['g', 'e', 't', '_', 'b', 'u', 's', 'n', 'a', 'm', 'e'],
        }
    }
}

impl DeepView for Ctx {
    type V = Ctx;

    open spec fn deep_view(&self) -> Ctx {
        *self
    }
}

/// A structured parse failure, positions relative to the sequence the
/// failing parser was given.
pub ghost struct SErr {
    pub pos: int,
    pub expected: Option<char>,
    pub contexts: Seq<Ctx>,
}

/// A structured parse failure, positions absolute in the document.
#[derive(Debug, Clone, PartialEq)]
pub struct ParseErr {
    pub pos: usize,
    pub expected: Option<char>,
    pub contexts: Vec<Ctx>,
}

/// How an executable failure at absolute offset `off + se.pos` corresponds
/// to the specification-level failure `se`.
pub open spec fn err_matches(e: ParseErr, se: SErr, off: int) -> bool {
    &&& e.pos as int == off + se.pos
    &&& e.expected == se.expected
    &&& e.contexts@ == se.contexts
}

/// How an executable parse outcome starting at absolute offset `off`
/// corresponds to a specification-level outcome over the remaining input.
pub open spec fn step_matches<T: DeepView>(
    r: Result<(T, usize), ParseErr>,
    sr: Result<(T::V, int), SErr>,
    off: int,
) -> bool {
    match r {
        Ok((v, p)) => sr matches Ok(sv) && v.deep_view() == sv.0 && p as int == off + sv.1,
        Err(e) => sr matches Err(se) && err_matches(e, se, off),
    }
}

/// As `step_matches`, for parsers that return no value.
pub open spec fn pos_matches(r: Result<usize, ParseErr>, sr: Result<int, SErr>, off: int) -> bool {
    match r {
        Ok(p) => sr matches Ok(c) && p as int == off + c,
        Err(e) => sr matches Err(se) && err_matches(e, se, off),
    }
}

pub open spec fn spec_push_ctx(se: SErr, c: Ctx) -> SErr {
    SErr { pos: se.pos, expected: se.expected, contexts: se.contexts.push(c) }
}

pub open spec fn spec_shift(se: SErr, d: int) -> SErr {
    SErr { pos: se.pos + d, expected: se.expected, contexts: se.contexts }
}

/// Appends an enclosing context to a propagating failure.
pub fn push_ctx(e: ParseErr, c: Ctx) -> (r: ParseErr)
    ensures
        r.pos == e.pos,
        r.expected == e.expected,
        r.contexts@ == e.contexts@.push(c),
{
    let mut e = e;
    e.contexts.push(c);
    e
}

pub open spec fn count_nl(s: Seq<char>, p: int) -> int
    decreases p,
{
    if p <= 0 {
        0
    } else {
        count_nl(s, p - 1) + if s[p - 1] == '\n' {
            1int
        } else {
            0int
        }
    }
}

pub open spec fn line_start(s: Seq<char>, p: int) -> int
    decreases p,
{
    if p <= 0 {
        0
    } else if s[p - 1] == '\n' {
        p
    } else {
        line_start(s, p - 1)
    }
}

pub open spec fn line_end(s: Seq<char>, p: int) -> int
    decreases s.len() - p,
{
    if p >= s.len() {
        s.len() as int
    } else if s[p] == '\n' {
        p
    } else {
        line_end(s, p + 1)
    }
}

/// The text of the source line containing position `p`, without the line
/// terminator (a trailing carriage return is dropped as well).
pub open spec fn line_text(s: Seq<char>, p: int) -> Seq<char> {
    let t = s.subrange(line_start(s, p), line_end(s, p));
    if t.len() > 0 && t.last() == '\r' {
        t.drop_last()
    } else {
        t
    }
}

pub open spec fn digit_to_char(d: int) -> char {
    if d == 0 {
        '0'
    } else if d == 1 {
        '1'
    } else if d == 2 {
        '2'
    } else if d == 3 {
        '3'
    } else if d == 4 {
        '4'
    } else if d == 5 {
        '5'
    } else if d == 6 {
        '6'
    } else if d == 7 {
        '7'
    } else if d == 8 {
        '8'
    } else {
        '9'
    }
}

/// The decimal rendering of a number.
pub open spec fn spec_dec(n: nat) -> Seq<char>
    decreases n,
{
    if n < 10 {
        seq![digit_to_char(n as int)]
    } else {
        spec_dec(n / 10) + seq![digit_to_char((n % 10) as int)]
    }
}

pub open spec fn spaces(n: int) -> Seq<char> {
    Seq::new(if n >= 0 {
        n as nat
    } else {
        0nat
    }, |i: int| ' ')
}

pub open spec fn spec_expected_note(expected: Option<char>) -> Seq<char> {
    match expected {
        None => Seq::<char>::empty(),
        Some(c) => seq![' ', '(', 'E', 'x', 'p', 'e', 'c', 't', 'e', 'd', ' ', '\''] + seq![c]
            + seq!['\'', ')'],
    }
}

/// One diagnostic block: context name, expected token, line number, the
/// offending line's text, and a caret aligned under the failure column.
pub open spec fn spec_block(s: Seq<char>, pos: int, expected: Option<char>, c: Ctx) -> Seq<char> {
    seq!['E', 'r', 'r', 'o', 'r', ' ', 'i', 'n', ' ', '"'] + c.label() + seq!['"']
        + spec_expected_note(expected) + seq![' ', 'o', 'n', ' ', 'l', 'i', 'n', 'e', ' ']
        + spec_dec((count_nl(s, pos) + 1) as nat) + seq![':', '\n', '\n'] + line_text(s, pos)
        + seq!['\n'] + spaces(pos - line_start(s, pos)) + seq!['^', '\n', '\n']
}

/// The whole diagnostic: one block per context, innermost first.
pub open spec fn spec_report(
    s: Seq<char>,
    pos: int,
    expected: Option<char>,
    ctxs: Seq<Ctx>,
) -> Seq<char>
    decreases ctxs.len(),
{
    if ctxs.len() == 0 {
        Seq::<char>::empty()
    } else {
        spec_block(s, pos, expected, ctxs[0]) + spec_report(s, pos, expected, ctxs.skip(1))
    }
}

fn count_nl_exec(s: &[char], p: usize) -> (r: usize)
    requires
        p <= s@.len(),
    ensures
        r as int == count_nl(s@, p as int),
        r <= p,
{
    let mut i: usize = 0;
    let mut acc: usize = 0;
    while i < p
        invariant
            0 <= i <= p <= s@.len(),
            acc as int == count_nl(s@, i as int),
            acc <= i,
        decreases p - i,
    {
        if s[i] == '\n' {
            acc = acc + 1;
        }
        i = i + 1;
    }
    acc
}

fn line_start_exec(s: &[char], p: usize) -> (r: usize)
    requires
        p <= s@.len(),
    ensures
        r as int == line_start(s@, p as int),
        r <= p,
{
    let mut i: usize = p;
    while i > 0 && s[i - 1] != '\n'
        invariant
            0 <= i <= p <= s@.len(),
            line_start(s@, p as int) == line_start(s@, i as int),
        decreases i,
    {
        i = i - 1;
    }
    i
}

fn line_end_exec(s: &[char], p: usize) -> (r: usize)
    requires
        p <= s@.len(),
    ensures
        r as int == line_end(s@, p as int),
        p <= r <= s@.len(),
{
    let mut i: usize = p;
    while i < s.len() && s[i] != '\n'
        invariant
            p <= i <= s@.len(),
            line_end(s@, p as int) == line_end(s@, i as int),
        decreases s@.len() - i,
    {
        i = i + 1;
    }
    i
}

fn digit_char_exec(d: usize) -> (r: char)
    requires
        d < 10,
    ensures
        r == digit_to_char(d as int),
{
    if d == 0 {
        '0'
    } else if d == 1 {
        '1'
    } else if d == 2 {
        '2'
    } else if d == 3 {
        '3'
    } else if d == 4 {
        '4'
    } else if d == 5 {
        '5'
    } else if d == 6 {
        '6'
    } else if d == 7 {
        '7'
    } else if d == 8 {
        '8'
    } else {
        '9'
    }
}

fn dec_chars(n: usize) -> (r: Vec<char>)
    ensures
        r@ == spec_dec(n as nat),
    decreases n,
{
    if n < 10 {
        let c = digit_char_exec(n);
        vec![c]
    } else {
        let mut r = dec_chars(n / 10);
        r.push(digit_char_exec(n % 10));
        assert(r@ =~= spec_dec(n as nat));
        r
    }
}

#[verifier::rlimit(100)]
fn block_chars(s: &[char], pos: usize, expected: Option<char>, c: Ctx) -> (r: Vec<char>)
    requires
        pos <= s@.len(),
        s@.len() < usize::MAX,
    ensures
        r@ == spec_block(s@, pos as int, expected, c),
{
    let mut v: Vec<char> = vec!['E', 'r', 'r', 'o', 'r', ' ', 'i', 'n', ' ', '"'];
    let mut lab = c.label_vec();
    v.append(&mut lab);
    v.push('"');
    match expected {
        Some(ch) => {
            let mut e = vec![' ', '(', 'E', 'x', 'p', 'e', 'c', 't', 'e', 'd', ' ', '\''];
            v.append(&mut e);
            v.push(ch);
            v.push('\'');
            v.push(')');
        },
        None => {},
    }
    proof {
        assert(v@ =~= seq!['E', 'r', 'r', 'o', 'r', ' ', 'i', 'n', ' ', '"'] + c.label()
            + seq!['"'] + spec_expected_note(expected));
    }
    let ghost head = v@;
    let mut on = vec![' ', 'o', 'n', ' ', 'l', 'i', 'n', 'e', ' '];
    v.append(&mut on);
    let nl = count_nl_exec(s, pos);
    let mut d = dec_chars(nl + 1);
    v.append(&mut d);
    v.push(':');
    v.push('\n');
    v.push('\n');
    proof {
        assert(v@ =~= head + seq![' ', 'o', 'n', ' ', 'l', 'i', 'n', 'e', ' '] + spec_dec(
            (count_nl(s@, pos as int) + 1) as nat,
        ) + seq![':', '\n', '\n']);
    }
    let ghost head2 = v@;
    let a = line_start_exec(s, pos);
    let b = line_end_exec(s, pos);
    let end: usize = if b > a && s[b - 1] == '\r' {
        b - 1
    } else {
        b
    };
    let mut m = a;
    while m < end
        invariant
            a <= m <= end <= s@.len(),
            v@ == head2 + s@.subrange(a as int, m as int),
        decreases end - m,
    {
        v.push(s[m]);
        proof {
            assert(v@ =~= head2 + s@.subrange(a as int, m + 1));
        }
        m = m + 1;
    }
    proof {
        assert(line_text(s@, pos as int) =~= s@.subrange(a as int, end as int));
    }
    v.push('\n');
    let ghost head3 = v@;
    let col: usize = pos - a;
    let mut m2: usize = 0;
    while m2 < col
        invariant
            0 <= m2 <= col,
            v@ == head3 + spaces(m2 as int),
        decreases col - m2,
    {
        v.push(' ');
        proof {
            assert(v@ =~= head3 + spaces(m2 + 1));
        }
        m2 = m2 + 1;
    }
    v.push('^');
    v.push('\n');
    v.push('\n');
    proof {
        assert(v@ =~= spec_block(s@, pos as int, expected, c));
    }
    v
}

fn report_chars(s: &[char], pos: usize, expected: Option<char>, ctxs: &Vec<Ctx>, k: usize) -> (r:
    Vec<char>)
    requires
        pos <= s@.len(),
        s@.len() < usize::MAX,
        k <= ctxs@.len(),
    ensures
        r@ == spec_report(s@, pos as int, expected, ctxs@.skip(k as int)),
    decreases ctxs@.len() - k,
{
    if k == ctxs.len() {
        Vec::new()
    } else {
        let mut v = block_chars(s, pos, expected, ctxs[k]);
        let mut rest = report_chars(s, pos, expected, ctxs, k + 1);
        v.append(&mut rest);
        proof {
            assert(ctxs@.skip(k as int).skip(1) =~= ctxs@.skip(k + 1));
            assert(ctxs@.skip(k as int)[0] == ctxs@[k as int]);
        }
        v
    }
}

/// Renders a structured failure against the document it arose from, one
/// block per active context, innermost context first.
pub fn report_error(s: &[char], e: &ParseErr) -> (r: Vec<char>)
    requires
        e.pos <= s@.len(),
        s@.len() < usize::MAX,
    ensures
        r@ == spec_report(s@, e.pos as int, e.expected, e.contexts@),
{
    let r = report_chars(s, e.pos, e.expected, &e.contexts, 0);
    proof {
        assert(e.contexts@.skip(0) =~= e.contexts@);
    }
    r
}

/// Relies on `String`'s `FromIterator<char>` implementation: collecting an
/// iterator of characters builds the string holding exactly those
/// characters in order.
#[verifier::external_body]
pub fn chars_to_string(v: &Vec<char>) -> (r: String)
    ensures
        r@ == v@,
{
    v.iter().collect()
}

} // verus!
