//! Section extraction: locating a named assignment anywhere in the document
//! and parsing its bracketed body.
//!
//! Every extractor scans the whole document for the first occurrence of its
//! key, independently of the other sections, so sections may appear in any
//! order. After the key it expects `=`, the opening delimiter, an optional
//! leading comment, one or more rows, and the closing delimiter.

use vstd::prelude::*;

use crate::diag::{
    err_matches, pos_matches, spec_push_ctx, spec_shift, step_matches, Ctx, ParseErr, SErr,
};
use crate::lex::{
    comments0, opt_ws_comment, skip_ws, spec_comments0, spec_identifier, spec_opt_ws_comment,
    spec_skip_ws, spec_string, spec_ws_char, spec_ws_float, string, ws_char, ws_float, identifier,
};
use crate::number::{Float, FloatV};
use crate::records::{
    bus, branch, dcline, gen, gen_cost, spec_branch, spec_bus, spec_dcline, spec_gen,
    spec_gen_cost, spec_version, version, Branch, BranchV, Bus, BusV, DcLine, DcLineV, Gen, GenV,
    GenCost, GenCostV, Version,
};

verus! {

// ---------------------------------------------------------------------------
// Substring search
// ---------------------------------------------------------------------------
/// The first index at or after `i` where `key` occurs in `s`.
pub open spec fn find_from(s: Seq<char>, key: Seq<char>, i: int) -> Option<int>
    decreases s.len() - i,
{
    if i < 0 || key.len() <= 0 || i + key.len() > s.len() {
        None
    } else if s.subrange(i, i + key.len()) == key {
        Some(i)
    } else {
        find_from(s, key, i + 1)
    }
}

/// The first occurrence of `key` in `s`.
pub open spec fn spec_find(s: Seq<char>, key: Seq<char>) -> Option<int> {
    find_from(s, key, 0)
}

pub proof fn lemma_find_from_bounds(s: Seq<char>, key: Seq<char>, i: int)
    ensures
        find_from(s, key, i) matches Some(j) ==> i <= j && j + key.len() <= s.len(),
    decreases s.len() - i,
{
    if !(i < 0 || key.len() <= 0 || i + key.len() > s.len()) {
        if s.subrange(i, i + key.len()) != key {
            lemma_find_from_bounds(s, key, i + 1);
        }
    }
}

fn match_at(s: &[char], key: &[char], i: usize) -> (r: bool)
    requires
        i <= s@.len(),
    ensures
        r <==> (i + key@.len() <= s@.len() && s@.subrange(i as int, i + key@.len()) == key@),
{
    if s.len() - i < key.len() {
        return false;
    }
    let mut j: usize = 0;
    while j < key.len()
        invariant
            0 <= j <= key@.len(),
            i + key@.len() <= s@.len(),
            s@.len() <= usize::MAX,
            forall|m: int| 0 <= m < j ==> s@[i + m] == key@[m],
        decreases key@.len() - j,
    {
        proof {
            assert(i + j < s@.len());
        }
        if s[i + j] != key[j] {
            proof {
                assert(s@.subrange(i as int, i + key@.len())[j as int] != key@[j as int]);
            }
            return false;
        }
        j = j + 1;
    }
    proof {
        assert(s@.subrange(i as int, i + key@.len()) =~= key@);
    }
    true
}

/// Finds the first occurrence of `key` in `s` at or after `start`, scanning
/// left to right.
fn find_sub(s: &[char], key: &[char], start: usize) -> (r: Option<usize>)
    requires
        start <= s@.len(),
    ensures
        match find_from(s@, key@, start as int) {
            Some(i) => r matches Some(x) && x as int == i,
            None => r is None,
        },
        r matches Some(x) ==> x + key@.len() <= s@.len(),
{
    if key.len() == 0 {
        return None;
    }
    let mut i: usize = start;
    while s.len() - i >= key.len()
        invariant
            start <= i <= s@.len(),
            key@.len() >= 1,
            find_from(s@, key@, start as int) == find_from(s@, key@, i as int),
        decreases s@.len() - i,
    {
        if match_at(s, key, i) {
            proof {
                lemma_find_from_bounds(s@, key@, i as int);
            }
            return Some(i);
        }
        i = i + 1;
    }
    None
}

// ---------------------------------------------------------------------------
// Section keys
// ---------------------------------------------------------------------------
pub open spec fn spec_key_function() -> Seq<char> {
    seq!['f', 'u', 'n', 'c', 't', 'i', 'o', 'n']
}

fn key_function() -> (k: Vec<char>)
    ensures
        k@ == spec_key_function(),
{
    vec!['f', 'u', 'n', 'c', 't', 'i', 'o', 'n']
}

pub open spec fn spec_key_version() -> Seq<char> {
    seq!['m', 'p', 'c', '.', 'v', 'e', 'r', 's', 'i', 'o', 'n']
}

fn key_version() -> (k: Vec<char>)
    ensures
        k@ == spec_key_version(),
{
    vec!['m', 'p', 'c', '.', 'v', 'e', 'r', 's', 'i', 'o', 'n']
}

pub open spec fn spec_key_base_mva() -> Seq<char> {
    seq!['m', 'p', 'c', '.', 'b', 'a', 's', 'e', 'M', 'V', 'A']
}

fn key_base_mva() -> (k: Vec<char>)
    ensures
        k@ == spec_key_base_mva(),
{
    vec!['m', 'p', 'c', '.', 'b', 'a', 's', 'e', 'M', 'V', 'A']
}

pub open spec fn spec_key_bus() -> Seq<char> {
    seq!['m', 'p', 'c', '.', 'b', 'u', 's']
}

fn key_bus() -> (k: Vec<char>)
    ensures
        k@ == spec_key_bus(),
{
    vec!['m', 'p', 'c', '.', 'b', 'u', 's']
}

pub open spec fn spec_key_gen() -> Seq<char> {
    seq!['m', 'p', 'c', '.', 'g', 'e', 'n']
}

fn key_gen() -> (k: Vec<char>)
    ensures
        k@ == spec_key_gen(),
{
    vec!['m', 'p', 'c', '.', 'g', 'e', 'n']
}

pub open spec fn spec_key_gencost() -> Seq<char> {
    seq!['m', 'p', 'c', '.', 'g', 'e', 'n', 'c', 'o', 's', 't']
}

fn key_gencost() -> (k: Vec<char>)
    ensures
        k@ == spec_key_gencost(),
{
    vec!['m', 'p', 'c', '.', 'g', 'e', 'n', 'c', 'o', 's', 't']
}

pub open spec fn spec_key_branch() -> Seq<char> {
    seq!['m', 'p', 'c', '.', 'b', 'r', 'a', 'n', 'c', 'h']
}

fn key_branch() -> (k: Vec<char>)
    ensures
        k@ == spec_key_branch(),
{
    vec!['m', 'p', 'c', '.', 'b', 'r', 'a', 'n', 'c', 'h']
}

pub open spec fn spec_key_dcline() -> Seq<char> {
    seq!['m', 'p', 'c', '.', 'd', 'c', 'l', 'i', 'n', 'e']
}

fn key_dcline() -> (k: Vec<char>)
    ensures
        k@ == spec_key_dcline(),
{
    vec!['m', 'p', 'c', '.', 'd', 'c', 'l', 'i', 'n', 'e']
}

pub open spec fn spec_key_busname() -> Seq<char> {
    seq!['m', 'p', 'c', '.', 'b', 'u', 's', '_', 'n', 'a', 'm', 'e']
}

fn key_busname() -> (k: Vec<char>)
    ensures
        k@ == spec_key_busname(),
{
    vec!['m', 'p', 'c', '.', 'b', 'u', 's', '_', 'n', 'a', 'm', 'e']
}

pub open spec fn spec_key_eq() -> Seq<char> {
    seq!['=']
}

fn key_eq() -> (k: Vec<char>)
    ensures
        k@ == spec_key_eq(),
{
    vec!['=']
}

// ---------------------------------------------------------------------------
// Row repetition, one or more rows per section body
// ---------------------------------------------------------------------------
pub open spec fn spec_rows_bus_more(t: Seq<char>) -> (Seq<BusV>, int)
    decreases t.len(),
{
    match spec_bus(t) {
        Ok((b, c)) => if 0 < c <= t.len() {
            let m = spec_rows_bus_more(t.skip(c));
            (seq![b] + m.0, c + m.1)
        } else {
            (Seq::<BusV>::empty(), 0)
        },
        Err(_) => (Seq::<BusV>::empty(), 0),
    }
}

pub open spec fn spec_rows_bus(t: Seq<char>) -> Result<(Seq<BusV>, int), SErr> {
    match spec_bus(t) {
        Err(e) => Err(e),
        Ok((b, c)) => {
            let m = spec_rows_bus_more(t.skip(c));
            Ok((seq![b] + m.0, c + m.1))
        },
    }
}

fn rows_bus_more(s: &[char], pos: usize) -> (r: (Vec<Bus>, usize))
    requires
        pos <= s@.len(),
    ensures
        r.0.deep_view() == spec_rows_bus_more(s@.skip(pos as int)).0,
        r.1 as int == pos + spec_rows_bus_more(s@.skip(pos as int)).1,
        pos <= r.1 <= s@.len(),
    decreases s@.len() - pos,
{
    let ghost t = s@.skip(pos as int);
    match bus(s, pos) {
        Ok((b, p1)) => {
            proof {
                assert(s@.skip(p1 as int) =~= t.skip(p1 - pos));
            }
            let (mut rest, p2) = rows_bus_more(s, p1);
            let ghost rd = rest.deep_view();
            let mut out: Vec<Bus> = Vec::new();
            out.push(b);
            out.append(&mut rest);
            proof {
                assert(out.deep_view() =~= seq![b.deep_view()] + rd);
            }
            (out, p2)
        },
        Err(_) => {
            let v: Vec<Bus> = Vec::new();
            proof {
                assert(v.deep_view() =~= Seq::<BusV>::empty());
            }
            (v, pos)
        },
    }
}

fn rows_bus(s: &[char], pos: usize) -> (r: Result<(Vec<Bus>, usize), ParseErr>)
    requires
        pos <= s@.len(),
    ensures
        match spec_rows_bus(s@.skip(pos as int)) {
            Ok(sv) => r matches Ok(x) && x.0.deep_view() == sv.0 && x.1 as int == pos + sv.1,
            Err(se) => r matches Err(e) && err_matches(e, se, pos as int),
        },
        r matches Ok(x) ==> pos < x.1 <= s@.len(),
        r matches Err(e) ==> pos <= e.pos <= s@.len(),
{
    let ghost t = s@.skip(pos as int);
    match bus(s, pos) {
        Err(e) => Err(e),
        Ok((b, p1)) => {
            proof {
                assert(s@.skip(p1 as int) =~= t.skip(p1 - pos));
            }
            let (mut rest, p2) = rows_bus_more(s, p1);
            let ghost rd = rest.deep_view();
            let mut out: Vec<Bus> = Vec::new();
            out.push(b);
            out.append(&mut rest);
            proof {
                assert(out.deep_view() =~= seq![b.deep_view()] + rd);
            }
            Ok((out, p2))
        },
    }
}

pub open spec fn spec_rows_gen_more(t: Seq<char>) -> (Seq<GenV>, int)
    decreases t.len(),
{
    match spec_gen(t) {
        Ok((b, c)) => if 0 < c <= t.len() {
            let m = spec_rows_gen_more(t.skip(c));
            (seq![b] + m.0, c + m.1)
        } else {
            (Seq::<GenV>::empty(), 0)
        },
        Err(_) => (Seq::<GenV>::empty(), 0),
    }
}

pub open spec fn spec_rows_gen(t: Seq<char>) -> Result<(Seq<GenV>, int), SErr> {
    match spec_gen(t) {
        Err(e) => Err(e),
        Ok((b, c)) => {
            let m = spec_rows_gen_more(t.skip(c));
            Ok((seq![b] + m.0, c + m.1))
        },
    }
}

fn rows_gen_more(s: &[char], pos: usize) -> (r: (Vec<Gen>, usize))
    requires
        pos <= s@.len(),
    ensures
        r.0.deep_view() == spec_rows_gen_more(s@.skip(pos as int)).0,
        r.1 as int == pos + spec_rows_gen_more(s@.skip(pos as int)).1,
        pos <= r.1 <= s@.len(),
    decreases s@.len() - pos,
{
    let ghost t = s@.skip(pos as int);
    match gen(s, pos) {
        Ok((b, p1)) => {
            proof {
                assert(s@.skip(p1 as int) =~= t.skip(p1 - pos));
            }
            let (mut rest, p2) = rows_gen_more(s, p1);
            let ghost rd = rest.deep_view();
            let mut out: Vec<Gen> = Vec::new();
            out.push(b);
            out.append(&mut rest);
            proof {
                assert(out.deep_view() =~= seq![b.deep_view()] + rd);
            }
            (out, p2)
        },
        Err(_) => {
            let v: Vec<Gen> = Vec::new();
            proof {
                assert(v.deep_view() =~= Seq::<GenV>::empty());
            }
            (v, pos)
        },
    }
}

fn rows_gen(s: &[char], pos: usize) -> (r: Result<(Vec<Gen>, usize), ParseErr>)
    requires
        pos <= s@.len(),
    ensures
        match spec_rows_gen(s@.skip(pos as int)) {
            Ok(sv) => r matches Ok(x) && x.0.deep_view() == sv.0 && x.1 as int == pos + sv.1,
            Err(se) => r matches Err(e) && err_matches(e, se, pos as int),
        },
        r matches Ok(x) ==> pos < x.1 <= s@.len(),
        r matches Err(e) ==> pos <= e.pos <= s@.len(),
{
    let ghost t = s@.skip(pos as int);
    match gen(s, pos) {
        Err(e) => Err(e),
        Ok((b, p1)) => {
            proof {
                assert(s@.skip(p1 as int) =~= t.skip(p1 - pos));
            }
            let (mut rest, p2) = rows_gen_more(s, p1);
            let ghost rd = rest.deep_view();
            let mut out: Vec<Gen> = Vec::new();
            out.push(b);
            out.append(&mut rest);
            proof {
                assert(out.deep_view() =~= seq![b.deep_view()] + rd);
            }
            Ok((out, p2))
        },
    }
}

pub open spec fn spec_rows_branch_more(t: Seq<char>) -> (Seq<BranchV>, int)
    decreases t.len(),
{
    match spec_branch(t) {
        Ok((b, c)) => if 0 < c <= t.len() {
            let m = spec_rows_branch_more(t.skip(c));
            (seq![b] + m.0, c + m.1)
        } else {
            (Seq::<BranchV>::empty(), 0)
        },
        Err(_) => (Seq::<BranchV>::empty(), 0),
    }
}

pub open spec fn spec_rows_branch(t: Seq<char>) -> Result<(Seq<BranchV>, int), SErr> {
    match spec_branch(t) {
        Err(e) => Err(e),
        Ok((b, c)) => {
            let m = spec_rows_branch_more(t.skip(c));
            Ok((seq![b] + m.0, c + m.1))
        },
    }
}

fn rows_branch_more(s: &[char], pos: usize) -> (r: (Vec<Branch>, usize))
    requires
        pos <= s@.len(),
    ensures
        r.0.deep_view() == spec_rows_branch_more(s@.skip(pos as int)).0,
        r.1 as int == pos + spec_rows_branch_more(s@.skip(pos as int)).1,
        pos <= r.1 <= s@.len(),
    decreases s@.len() - pos,
{
    let ghost t = s@.skip(pos as int);
    match branch(s, pos) {
        Ok((b, p1)) => {
            proof {
                assert(s@.skip(p1 as int) =~= t.skip(p1 - pos));
            }
            let (mut rest, p2) = rows_branch_more(s, p1);
            let ghost rd = rest.deep_view();
            let mut out: Vec<Branch> = Vec::new();
            out.push(b);
            out.append(&mut rest);
            proof {
                assert(out.deep_view() =~= seq![b.deep_view()] + rd);
            }
            (out, p2)
        },
        Err(_) => {
            let v: Vec<Branch> = Vec::new();
            proof {
                assert(v.deep_view() =~= Seq::<BranchV>::empty());
            }
            (v, pos)
        },
    }
}

fn rows_branch(s: &[char], pos: usize) -> (r: Result<(Vec<Branch>, usize), ParseErr>)
    requires
        pos <= s@.len(),
    ensures
        match spec_rows_branch(s@.skip(pos as int)) {
            Ok(sv) => r matches Ok(x) && x.0.deep_view() == sv.0 && x.1 as int == pos + sv.1,
            Err(se) => r matches Err(e) && err_matches(e, se, pos as int),
        },
        r matches Ok(x) ==> pos < x.1 <= s@.len(),
        r matches Err(e) ==> pos <= e.pos <= s@.len(),
{
    let ghost t = s@.skip(pos as int);
    match branch(s, pos) {
        Err(e) => Err(e),
        Ok((b, p1)) => {
            proof {
                assert(s@.skip(p1 as int) =~= t.skip(p1 - pos));
            }
            let (mut rest, p2) = rows_branch_more(s, p1);
            let ghost rd = rest.deep_view();
            let mut out: Vec<Branch> = Vec::new();
            out.push(b);
            out.append(&mut rest);
            proof {
                assert(out.deep_view() =~= seq![b.deep_view()] + rd);
            }
            Ok((out, p2))
        },
    }
}

pub open spec fn spec_rows_gencost_more(t: Seq<char>) -> (Seq<GenCostV>, int)
    decreases t.len(),
{
    match spec_gen_cost(t) {
        Ok((b, c)) => if 0 < c <= t.len() {
            let m = spec_rows_gencost_more(t.skip(c));
            (seq![b] + m.0, c + m.1)
        } else {
            (Seq::<GenCostV>::empty(), 0)
        },
        Err(_) => (Seq::<GenCostV>::empty(), 0),
    }
}

pub open spec fn spec_rows_gencost(t: Seq<char>) -> Result<(Seq<GenCostV>, int), SErr> {
    match spec_gen_cost(t) {
        Err(e) => Err(e),
        Ok((b, c)) => {
            let m = spec_rows_gencost_more(t.skip(c));
            Ok((seq![b] + m.0, c + m.1))
        },
    }
}

fn rows_gencost_more(s: &[char], pos: usize) -> (r: (Vec<GenCost>, usize))
    requires
        pos <= s@.len(),
    ensures
        r.0.deep_view() == spec_rows_gencost_more(s@.skip(pos as int)).0,
        r.1 as int == pos + spec_rows_gencost_more(s@.skip(pos as int)).1,
        pos <= r.1 <= s@.len(),
    decreases s@.len() - pos,
{
    let ghost t = s@.skip(pos as int);
    match gen_cost(s, pos) {
        Ok((b, p1)) => {
            proof {
                assert(s@.skip(p1 as int) =~= t.skip(p1 - pos));
            }
            let (mut rest, p2) = rows_gencost_more(s, p1);
            let ghost rd = rest.deep_view();
            let mut out: Vec<GenCost> = Vec::new();
            out.push(b);
            out.append(&mut rest);
            proof {
                assert(out.deep_view() =~= seq![b.deep_view()] + rd);
            }
            (out, p2)
        },
        Err(_) => {
            let v: Vec<GenCost> = Vec::new();
            proof {
                assert(v.deep_view() =~= Seq::<GenCostV>::empty());
            }
            (v, pos)
        },
    }
}

fn rows_gencost(s: &[char], pos: usize) -> (r: Result<(Vec<GenCost>, usize), ParseErr>)
    requires
        pos <= s@.len(),
    ensures
        match spec_rows_gencost(s@.skip(pos as int)) {
            Ok(sv) => r matches Ok(x) && x.0.deep_view() == sv.0 && x.1 as int == pos + sv.1,
            Err(se) => r matches Err(e) && err_matches(e, se, pos as int),
        },
        r matches Ok(x) ==> pos < x.1 <= s@.len(),
        r matches Err(e) ==> pos <= e.pos <= s@.len(),
{
    let ghost t = s@.skip(pos as int);
    match gen_cost(s, pos) {
        Err(e) => Err(e),
        Ok((b, p1)) => {
            proof {
                assert(s@.skip(p1 as int) =~= t.skip(p1 - pos));
            }
            let (mut rest, p2) = rows_gencost_more(s, p1);
            let ghost rd = rest.deep_view();
            let mut out: Vec<GenCost> = Vec::new();
            out.push(b);
            out.append(&mut rest);
            proof {
                assert(out.deep_view() =~= seq![b.deep_view()] + rd);
            }
            Ok((out, p2))
        },
    }
}

pub open spec fn spec_rows_dcline_more(t: Seq<char>) -> (Seq<DcLineV>, int)
    decreases t.len(),
{
    match spec_dcline(t) {
        Ok((b, c)) => if 0 < c <= t.len() {
            let m = spec_rows_dcline_more(t.skip(c));
            (seq![b] + m.0, c + m.1)
        } else {
            (Seq::<DcLineV>::empty(), 0)
        },
        Err(_) => (Seq::<DcLineV>::empty(), 0),
    }
}

pub open spec fn spec_rows_dcline(t: Seq<char>) -> Result<(Seq<DcLineV>, int), SErr> {
    match spec_dcline(t) {
        Err(e) => Err(e),
        Ok((b, c)) => {
            let m = spec_rows_dcline_more(t.skip(c));
            Ok((seq![b] + m.0, c + m.1))
        },
    }
}

fn rows_dcline_more(s: &[char], pos: usize) -> (r: (Vec<DcLine>, usize))
    requires
        pos <= s@.len(),
    ensures
        r.0.deep_view() == spec_rows_dcline_more(s@.skip(pos as int)).0,
        r.1 as int == pos + spec_rows_dcline_more(s@.skip(pos as int)).1,
        pos <= r.1 <= s@.len(),
    decreases s@.len() - pos,
{
    let ghost t = s@.skip(pos as int);
    match dcline(s, pos) {
        Ok((b, p1)) => {
            proof {
                assert(s@.skip(p1 as int) =~= t.skip(p1 - pos));
            }
            let (mut rest, p2) = rows_dcline_more(s, p1);
            let ghost rd = rest.deep_view();
            let mut out: Vec<DcLine> = Vec::new();
            out.push(b);
            out.append(&mut rest);
            proof {
                assert(out.deep_view() =~= seq![b.deep_view()] + rd);
            }
            (out, p2)
        },
        Err(_) => {
            let v: Vec<DcLine> = Vec::new();
            proof {
                assert(v.deep_view() =~= Seq::<DcLineV>::empty());
            }
            (v, pos)
        },
    }
}

fn rows_dcline(s: &[char], pos: usize) -> (r: Result<(Vec<DcLine>, usize), ParseErr>)
    requires
        pos <= s@.len(),
    ensures
        match spec_rows_dcline(s@.skip(pos as int)) {
            Ok(sv) => r matches Ok(x) && x.0.deep_view() == sv.0 && x.1 as int == pos + sv.1,
            Err(se) => r matches Err(e) && err_matches(e, se, pos as int),
        },
        r matches Ok(x) ==> pos < x.1 <= s@.len(),
        r matches Err(e) ==> pos <= e.pos <= s@.len(),
{
    let ghost t = s@.skip(pos as int);
    match dcline(s, pos) {
        Err(e) => Err(e),
        Ok((b, p1)) => {
            proof {
                assert(s@.skip(p1 as int) =~= t.skip(p1 - pos));
            }
            let (mut rest, p2) = rows_dcline_more(s, p1);
            let ghost rd = rest.deep_view();
            let mut out: Vec<DcLine> = Vec::new();
            out.push(b);
            out.append(&mut rest);
            proof {
                assert(out.deep_view() =~= seq![b.deep_view()] + rd);
            }
            Ok((out, p2))
        },
    }
}

/// One bus-name row: a quoted string in whitespace, then a semicolon.
pub open spec fn spec_busname_row(t: Seq<char>) -> Result<(Seq<char>, int), SErr> {
    let a = spec_skip_ws(t);
    match spec_string(t.skip(a)) {
        Err(e) => Err(spec_shift(e, a)),
        Ok((v, c)) => {
            let b = spec_skip_ws(t.skip(a + c));
            let o = a + c + b;
            match spec_ws_char(t.skip(o), ';') {
                Err(e) => Err(spec_shift(e, o)),
                Ok(c2) => Ok((v, o + c2)),
            }
        },
    }
}

fn busname_row(s: &[char], pos: usize) -> (r: Result<(String, usize), ParseErr>)
    requires
        pos <= s@.len(),
    ensures
        step_matches(r, spec_busname_row(s@.skip(pos as int)), pos as int),
        r matches Ok(x) ==> pos < x.1 <= s@.len(),
        r matches Err(e) ==> pos <= e.pos <= s@.len(),
{
    let ghost t = s@.skip(pos as int);
    let p1 = skip_ws(s, pos);
    proof {
        assert(s@.skip(p1 as int) =~= t.skip(p1 - pos));
    }
    match string(s, p1) {
        Err(e) => Err(e),
        Ok((v, p2)) => {
            proof {
                assert(s@.skip(p2 as int) =~= t.skip(p2 - pos));
            }
            let p3 = skip_ws(s, p2);
            proof {
                assert(s@.skip(p3 as int) =~= t.skip(p3 - pos));
            }
            match ws_char(s, p3, ';') {
                Err(e) => Err(e),
                Ok(p4) => Ok((v, p4)),
            }
        },
    }
}

pub open spec fn spec_rows_busname_more(t: Seq<char>) -> (Seq<Seq<char>>, int)
    decreases t.len(),
{
    match spec_busname_row(t) {
        Ok((b, c)) => if 0 < c <= t.len() {
            let m = spec_rows_busname_more(t.skip(c));
            (seq![b] + m.0, c + m.1)
        } else {
            (Seq::<Seq<char>>::empty(), 0)
        },
        Err(_) => (Seq::<Seq<char>>::empty(), 0),
    }
}

pub open spec fn spec_rows_busname(t: Seq<char>) -> Result<(Seq<Seq<char>>, int), SErr> {
    match spec_busname_row(t) {
        Err(e) => Err(e),
        Ok((b, c)) => {
            let m = spec_rows_busname_more(t.skip(c));
            Ok((seq![b] + m.0, c + m.1))
        },
    }
}

fn rows_busname_more(s: &[char], pos: usize) -> (r: (Vec<String>, usize))
    requires
        pos <= s@.len(),
    ensures
        r.0.deep_view() == spec_rows_busname_more(s@.skip(pos as int)).0,
        r.1 as int == pos + spec_rows_busname_more(s@.skip(pos as int)).1,
        pos <= r.1 <= s@.len(),
    decreases s@.len() - pos,
{
    let ghost t = s@.skip(pos as int);
    match busname_row(s, pos) {
        Ok((b, p1)) => {
            proof {
                assert(s@.skip(p1 as int) =~= t.skip(p1 - pos));
            }
            let (mut rest, p2) = rows_busname_more(s, p1);
            let ghost rd = rest.deep_view();
            let ghost bd = b.deep_view();
            let mut out: Vec<String> = Vec::new();
            out.push(b);
            out.append(&mut rest);
            proof {
                assert(out.deep_view() =~= seq![bd] + rd);
            }
            (out, p2)
        },
        Err(_) => {
            let v: Vec<String> = Vec::new();
            proof {
                assert(v.deep_view() =~= Seq::<Seq<char>>::empty());
            }
            (v, pos)
        },
    }
}

fn rows_busname(s: &[char], pos: usize) -> (r: Result<(Vec<String>, usize), ParseErr>)
    requires
        pos <= s@.len(),
    ensures
        match spec_rows_busname(s@.skip(pos as int)) {
            Ok(sv) => r matches Ok(x) && x.0.deep_view() == sv.0 && x.1 as int == pos + sv.1,
            Err(se) => r matches Err(e) && err_matches(e, se, pos as int),
        },
        r matches Ok(x) ==> pos < x.1 <= s@.len(),
        r matches Err(e) ==> pos <= e.pos <= s@.len(),
{
    let ghost t = s@.skip(pos as int);
    match busname_row(s, pos) {
        Err(e) => Err(e),
        Ok((b, p1)) => {
            proof {
                assert(s@.skip(p1 as int) =~= t.skip(p1 - pos));
            }
            let (mut rest, p2) = rows_busname_more(s, p1);
            let ghost rd = rest.deep_view();
            let ghost bd = b.deep_view();
            let mut out: Vec<String> = Vec::new();
            out.push(b);
            out.append(&mut rest);
            proof {
                assert(out.deep_view() =~= seq![bd] + rd);
            }
            Ok((out, p2))
        },
    }
}

// ---------------------------------------------------------------------------
// Scalar extractors: case name, version, base power
// ---------------------------------------------------------------------------
/// The case name: from the first `function` keyword, skip to the first `=`
/// after it; the identifier that follows is the name.
pub open spec fn spec_get_name(s: Seq<char>) -> Result<(Seq<char>, int), SErr> {
    match spec_find(s, spec_key_function()) {
        None => Err(SErr { pos: 0, expected: None, contexts: seq![Ctx::FunctionKw] }),
        Some(i) => {
            let j = i + spec_key_function().len();
            match find_from(s, spec_key_eq(), j) {
                None => Err(SErr { pos: j, expected: Some('='), contexts: seq![Ctx::FunctionKw] }),
                Some(k) => match spec_ws_char(s.skip(k), '=') {
                    Err(e) => Err(spec_push_ctx(spec_shift(e, k), Ctx::FunctionKw)),
                    Ok(c1) => match spec_identifier(s.skip(k + c1)) {
                        Err(e) => Err(spec_push_ctx(spec_shift(e, k + c1), Ctx::FunctionKw)),
                        Ok((name, c2)) => Ok((name, k + c1 + c2)),
                    },
                },
            }
        },
    }
}

/// Extracts the case name from the header line.
pub fn get_name(s: &[char]) -> (r: Result<(String, usize), ParseErr>)
    ensures
        step_matches(r, spec_get_name(s@), 0),
        r matches Ok(x) ==> x.1 <= s@.len(),
        r matches Err(e) ==> e.pos <= s@.len(),
{
    let _doc_len = s.len();
    let key = key_function();
    let i = match find_sub(s, key.as_slice(), 0) {
        Some(i) => i,
        None => {
            let e = ParseErr { pos: 0, expected: None, contexts: vec![Ctx::FunctionKw] };
            proof {
                assert(e.contexts@ =~= seq![Ctx::FunctionKw]);
            }
            return Err(e);
        },
    };
    let j = i + key.len();
    let eq = key_eq();
    let k = match find_sub(s, eq.as_slice(), j) {
        Some(k) => k,
        None => {
            let e = ParseErr { pos: j, expected: Some('='), contexts: vec![Ctx::FunctionKw] };
            proof {
                assert(e.contexts@ =~= seq![Ctx::FunctionKw]);
            }
            return Err(e);
        },
    };
    let p1 = match ws_char(s, k, '=') {
        Ok(p) => p,
        Err(e) => {
            return Err(crate::diag::push_ctx(e, Ctx::FunctionKw));
        },
    };
    match identifier(s, p1) {
        Ok((name, p2)) => Ok((name, p2)),
        Err(e) => Err(crate::diag::push_ctx(e, Ctx::FunctionKw)),
    }
}

/// The format version: the first `mpc.version` assignment.
pub open spec fn spec_get_version(s: Seq<char>) -> Result<(Version, int), SErr> {
    match spec_find(s, spec_key_version()) {
        None => Err(SErr { pos: 0, expected: None, contexts: seq![Ctx::GetVersion] }),
        Some(i) => {
            let j = i + spec_key_version().len();
            match spec_ws_char(s.skip(j), '=') {
                Err(e) => Err(spec_push_ctx(spec_shift(e, j), Ctx::GetVersion)),
                Ok(c1) => match spec_version(s.skip(j + c1)) {
                    Err(e) => Err(spec_push_ctx(spec_shift(e, j + c1), Ctx::GetVersion)),
                    Ok((v, c2)) => Ok((v, j + c1 + c2)),
                },
            }
        },
    }
}

/// Extracts the format version.
pub fn get_version(s: &[char]) -> (r: Result<(Version, usize), ParseErr>)
    ensures
        step_matches(r, spec_get_version(s@), 0),
        r matches Ok(x) ==> x.1 <= s@.len(),
        r matches Err(e) ==> e.pos <= s@.len(),
{
    let _doc_len = s.len();
    let key = key_version();
    let i = match find_sub(s, key.as_slice(), 0) {
        Some(i) => i,
        None => {
            let e = ParseErr { pos: 0, expected: None, contexts: vec![Ctx::GetVersion] };
            proof {
                assert(e.contexts@ =~= seq![Ctx::GetVersion]);
            }
            return Err(e);
        },
    };
    let j = i + key.len();
    let p1 = match ws_char(s, j, '=') {
        Ok(p) => p,
        Err(e) => {
            return Err(crate::diag::push_ctx(e, Ctx::GetVersion));
        },
    };
    match version(s, p1) {
        Ok((v, p2)) => Ok((v, p2)),
        Err(e) => Err(crate::diag::push_ctx(e, Ctx::GetVersion)),
    }
}

/// The base power: the first `mpc.baseMVA` assignment.
pub open spec fn spec_get_base_mva(s: Seq<char>) -> Result<(FloatV, int), SErr> {
    match spec_find(s, spec_key_base_mva()) {
        None => Err(SErr { pos: 0, expected: None, contexts: seq![Ctx::GetBaseMva] }),
        Some(i) => {
            let j = i + spec_key_base_mva().len();
            match spec_ws_char(s.skip(j), '=') {
                Err(e) => Err(spec_push_ctx(spec_shift(e, j), Ctx::GetBaseMva)),
                Ok(c1) => match spec_ws_float(s.skip(j + c1)) {
                    Err(e) => Err(spec_push_ctx(spec_shift(e, j + c1), Ctx::GetBaseMva)),
                    Ok((v, c2)) => Ok((v, j + c1 + c2)),
                },
            }
        },
    }
}

/// Extracts the base power value.
pub fn get_base_mva(s: &[char]) -> (r: Result<(Float, usize), ParseErr>)
    ensures
        step_matches(r, spec_get_base_mva(s@), 0),
        r matches Ok(x) ==> x.1 <= s@.len(),
        r matches Err(e) ==> e.pos <= s@.len(),
{
    let _doc_len = s.len();
    let key = key_base_mva();
    let i = match find_sub(s, key.as_slice(), 0) {
        Some(i) => i,
        None => {
            let e = ParseErr { pos: 0, expected: None, contexts: vec![Ctx::GetBaseMva] };
            proof {
                assert(e.contexts@ =~= seq![Ctx::GetBaseMva]);
            }
            return Err(e);
        },
    };
    let j = i + key.len();
    let p1 = match ws_char(s, j, '=') {
        Ok(p) => p,
        Err(e) => {
            return Err(crate::diag::push_ctx(e, Ctx::GetBaseMva));
        },
    };
    match ws_float(s, p1) {
        Ok((v, p2)) => Ok((v, p2)),
        Err(e) => Err(crate::diag::push_ctx(e, Ctx::GetBaseMva)),
    }
}

// ---------------------------------------------------------------------------
// Tabular section extractors
// ---------------------------------------------------------------------------
/// The bus section: `mpc.bus = [` rows `]`, with one optional comment after
/// the opening bracket.
pub open spec fn spec_get_bus(s: Seq<char>) -> Result<(Seq<BusV>, int), SErr> {
    match spec_find(s, spec_key_bus()) {
        None => Err(SErr { pos: 0, expected: None, contexts: seq![Ctx::GetBus] }),
        Some(i) => {
            let j = i + spec_key_bus().len();
            match spec_ws_char(s.skip(j), '=') {
                Err(e) => Err(spec_push_ctx(spec_shift(e, j), Ctx::GetBus)),
                Ok(c1) => {
                    let o1 = j + c1;
                    match spec_ws_char(s.skip(o1), '[') {
                        Err(e) => Err(spec_push_ctx(spec_shift(e, o1), Ctx::GetBus)),
                        Ok(c2) => {
                            let o2 = o1 + c2;
                            let o3 = o2 + spec_opt_ws_comment(s.skip(o2));
                            match spec_rows_bus(s.skip(o3)) {
                                Err(e) => Err(spec_push_ctx(spec_shift(e, o3), Ctx::GetBus)),
                                Ok((rows, c4)) => {
                                    let o4 = o3 + c4;
                                    match spec_ws_char(s.skip(o4), ']') {
                                        Err(e) => Err(
                                            spec_push_ctx(spec_shift(e, o4), Ctx::GetBus),
                                        ),
                                        Ok(c5) => Ok((rows, o4 + c5)),
                                    }
                                },
                            }
                        },
                    }
                },
            }
        },
    }
}

/// Extracts the mandatory bus section.
pub fn get_bus(s: &[char]) -> (r: Result<(Vec<Bus>, usize), ParseErr>)
    ensures
        match spec_get_bus(s@) {
            Ok(sv) => r matches Ok(x) && x.0.deep_view() == sv.0 && x.1 as int == sv.1,
            Err(se) => r matches Err(e) && err_matches(e, se, 0),
        },
        r matches Ok(x) ==> x.1 <= s@.len(),
        r matches Err(e) ==> e.pos <= s@.len(),
{
    let _doc_len = s.len();
    let key = key_bus();
    let i = match find_sub(s, key.as_slice(), 0) {
        Some(i) => i,
        None => {
            let e = ParseErr { pos: 0, expected: None, contexts: vec![Ctx::GetBus] };
            proof {
                assert(e.contexts@ =~= seq![Ctx::GetBus]);
            }
            return Err(e);
        },
    };
    let j = i + key.len();
    let p1 = match ws_char(s, j, '=') {
        Ok(p) => p,
        Err(e) => {
            return Err(crate::diag::push_ctx(e, Ctx::GetBus));
        },
    };
    let p2 = match ws_char(s, p1, '[') {
        Ok(p) => p,
        Err(e) => {
            return Err(crate::diag::push_ctx(e, Ctx::GetBus));
        },
    };
    let p3 = opt_ws_comment(s, p2);
    let (rows, p4) = match rows_bus(s, p3) {
        Ok(x) => x,
        Err(e) => {
            return Err(crate::diag::push_ctx(e, Ctx::GetBus));
        },
    };
    match ws_char(s, p4, ']') {
        Ok(p5) => Ok((rows, p5)),
        Err(e) => Err(crate::diag::push_ctx(e, Ctx::GetBus)),
    }
}

/// The generator section: `mpc.gen = [` rows `]`.
pub open spec fn spec_get_gen(s: Seq<char>) -> Result<(Seq<GenV>, int), SErr> {
    match spec_find(s, spec_key_gen()) {
        None => Err(SErr { pos: 0, expected: None, contexts: seq![Ctx::GetGen] }),
        Some(i) => {
            let j = i + spec_key_gen().len();
            match spec_ws_char(s.skip(j), '=') {
                Err(e) => Err(spec_push_ctx(spec_shift(e, j), Ctx::GetGen)),
                Ok(c1) => {
                    let o1 = j + c1;
                    match spec_ws_char(s.skip(o1), '[') {
                        Err(e) => Err(spec_push_ctx(spec_shift(e, o1), Ctx::GetGen)),
                        Ok(c2) => {
                            let o2 = o1 + c2;
                            let o3 = o2 + spec_opt_ws_comment(s.skip(o2));
                            match spec_rows_gen(s.skip(o3)) {
                                Err(e) => Err(spec_push_ctx(spec_shift(e, o3), Ctx::GetGen)),
                                Ok((rows, c4)) => {
                                    let o4 = o3 + c4;
                                    match spec_ws_char(s.skip(o4), ']') {
                                        Err(e) => Err(
                                            spec_push_ctx(spec_shift(e, o4), Ctx::GetGen),
                                        ),
                                        Ok(c5) => Ok((rows, o4 + c5)),
                                    }
                                },
                            }
                        },
                    }
                },
            }
        },
    }
}

/// Extracts the mandatory generator section.
pub fn get_gen(s: &[char]) -> (r: Result<(Vec<Gen>, usize), ParseErr>)
    ensures
        match spec_get_gen(s@) {
            Ok(sv) => r matches Ok(x) && x.0.deep_view() == sv.0 && x.1 as int == sv.1,
            Err(se) => r matches Err(e) && err_matches(e, se, 0),
        },
        r matches Ok(x) ==> x.1 <= s@.len(),
        r matches Err(e) ==> e.pos <= s@.len(),
{
    let _doc_len = s.len();
    let key = key_gen();
    let i = match find_sub(s, key.as_slice(), 0) {
        Some(i) => i,
        None => {
            let e = ParseErr { pos: 0, expected: None, contexts: vec![Ctx::GetGen] };
            proof {
                assert(e.contexts@ =~= seq![Ctx::GetGen]);
            }
            return Err(e);
        },
    };
    let j = i + key.len();
    let p1 = match ws_char(s, j, '=') {
        Ok(p) => p,
        Err(e) => {
            return Err(crate::diag::push_ctx(e, Ctx::GetGen));
        },
    };
    let p2 = match ws_char(s, p1, '[') {
        Ok(p) => p,
        Err(e) => {
            return Err(crate::diag::push_ctx(e, Ctx::GetGen));
        },
    };
    let p3 = opt_ws_comment(s, p2);
    let (rows, p4) = match rows_gen(s, p3) {
        Ok(x) => x,
        Err(e) => {
            return Err(crate::diag::push_ctx(e, Ctx::GetGen));
        },
    };
    match ws_char(s, p4, ']') {
        Ok(p5) => Ok((rows, p5)),
        Err(e) => Err(crate::diag::push_ctx(e, Ctx::GetGen)),
    }
}

/// The optional generator cost section: `mpc.gencost = [` rows `]`.
pub open spec fn spec_get_gencost(s: Seq<char>) -> Result<(Seq<GenCostV>, int), SErr> {
    match spec_find(s, spec_key_gencost()) {
        None => Err(SErr { pos: 0, expected: None, contexts: seq![Ctx::GetGencost] }),
        Some(i) => {
            let j = i + spec_key_gencost().len();
            match spec_ws_char(s.skip(j), '=') {
                Err(e) => Err(spec_push_ctx(spec_shift(e, j), Ctx::GetGencost)),
                Ok(c1) => {
                    let o1 = j + c1;
                    match spec_ws_char(s.skip(o1), '[') {
                        Err(e) => Err(spec_push_ctx(spec_shift(e, o1), Ctx::GetGencost)),
                        Ok(c2) => {
                            let o2 = o1 + c2;
                            let o3 = o2 + spec_opt_ws_comment(s.skip(o2));
                            match spec_rows_gencost(s.skip(o3)) {
                                Err(e) => Err(spec_push_ctx(spec_shift(e, o3), Ctx::GetGencost)),
                                Ok((rows, c4)) => {
                                    let o4 = o3 + c4;
                                    match spec_ws_char(s.skip(o4), ']') {
                                        Err(e) => Err(
                                            spec_push_ctx(spec_shift(e, o4), Ctx::GetGencost),
                                        ),
                                        Ok(c5) => Ok((rows, o4 + c5)),
                                    }
                                },
                            }
                        },
                    }
                },
            }
        },
    }
}

/// Extracts the optional generator cost section.
pub fn get_gencost(s: &[char]) -> (r: Result<(Vec<GenCost>, usize), ParseErr>)
    ensures
        match spec_get_gencost(s@) {
            Ok(sv) => r matches Ok(x) && x.0.deep_view() == sv.0 && x.1 as int == sv.1,
            Err(se) => r matches Err(e) && err_matches(e, se, 0),
        },
        r matches Ok(x) ==> x.1 <= s@.len(),
        r matches Err(e) ==> e.pos <= s@.len(),
{
    let _doc_len = s.len();
    let key = key_gencost();
    let i = match find_sub(s, key.as_slice(), 0) {
        Some(i) => i,
        None => {
            let e = ParseErr { pos: 0, expected: None, contexts: vec![Ctx::GetGencost] };
            proof {
                assert(e.contexts@ =~= seq![Ctx::GetGencost]);
            }
            return Err(e);
        },
    };
    let j = i + key.len();
    let p1 = match ws_char(s, j, '=') {
        Ok(p) => p,
        Err(e) => {
            return Err(crate::diag::push_ctx(e, Ctx::GetGencost));
        },
    };
    let p2 = match ws_char(s, p1, '[') {
        Ok(p) => p,
        Err(e) => {
            return Err(crate::diag::push_ctx(e, Ctx::GetGencost));
        },
    };
    let p3 = opt_ws_comment(s, p2);
    let (rows, p4) = match rows_gencost(s, p3) {
        Ok(x) => x,
        Err(e) => {
            return Err(crate::diag::push_ctx(e, Ctx::GetGencost));
        },
    };
    match ws_char(s, p4, ']') {
        Ok(p5) => Ok((rows, p5)),
        Err(e) => Err(crate::diag::push_ctx(e, Ctx::GetGencost)),
    }
}

/// The branch section: `mpc.branch = [` rows `]`, allowing a run of leading
/// comments after the opening bracket.
pub open spec fn spec_get_branch(s: Seq<char>) -> Result<(Seq<BranchV>, int), SErr> {
    match spec_find(s, spec_key_branch()) {
        None => Err(SErr { pos: 0, expected: None, contexts: seq![Ctx::GetBranch] }),
        Some(i) => {
            let j = i + spec_key_branch().len();
            match spec_ws_char(s.skip(j), '=') {
                Err(e) => Err(spec_push_ctx(spec_shift(e, j), Ctx::GetBranch)),
                Ok(c1) => {
                    let o1 = j + c1;
                    match spec_ws_char(s.skip(o1), '[') {
                        Err(e) => Err(spec_push_ctx(spec_shift(e, o1), Ctx::GetBranch)),
                        Ok(c2) => {
                            let o2 = o1 + c2;
                            let o3 = o2 + spec_comments0(s.skip(o2));
                            match spec_rows_branch(s.skip(o3)) {
                                Err(e) => Err(spec_push_ctx(spec_shift(e, o3), Ctx::GetBranch)),
                                Ok((rows, c4)) => {
                                    let o4 = o3 + c4;
                                    match spec_ws_char(s.skip(o4), ']') {
                                        Err(e) => Err(
                                            spec_push_ctx(spec_shift(e, o4), Ctx::GetBranch),
                                        ),
                                        Ok(c5) => Ok((rows, o4 + c5)),
                                    }
                                },
                            }
                        },
                    }
                },
            }
        },
    }
}

/// Extracts the mandatory branch section.
pub fn get_branch(s: &[char]) -> (r: Result<(Vec<Branch>, usize), ParseErr>)
    ensures
        match spec_get_branch(s@) {
            Ok(sv) => r matches Ok(x) && x.0.deep_view() == sv.0 && x.1 as int == sv.1,
            Err(se) => r matches Err(e) && err_matches(e, se, 0),
        },
        r matches Ok(x) ==> x.1 <= s@.len(),
        r matches Err(e) ==> e.pos <= s@.len(),
{
    let _doc_len = s.len();
    let key = key_branch();
    let i = match find_sub(s, key.as_slice(), 0) {
        Some(i) => i,
        None => {
            let e = ParseErr { pos: 0, expected: None, contexts: vec![Ctx::GetBranch] };
            proof {
                assert(e.contexts@ =~= seq![Ctx::GetBranch]);
            }
            return Err(e);
        },
    };
    let j = i + key.len();
    let p1 = match ws_char(s, j, '=') {
        Ok(p) => p,
        Err(e) => {
            return Err(crate::diag::push_ctx(e, Ctx::GetBranch));
        },
    };
    let p2 = match ws_char(s, p1, '[') {
        Ok(p) => p,
        Err(e) => {
            return Err(crate::diag::push_ctx(e, Ctx::GetBranch));
        },
    };
    let p3 = comments0(s, p2);
    let (rows, p4) = match rows_branch(s, p3) {
        Ok(x) => x,
        Err(e) => {
            return Err(crate::diag::push_ctx(e, Ctx::GetBranch));
        },
    };
    match ws_char(s, p4, ']') {
        Ok(p5) => Ok((rows, p5)),
        Err(e) => Err(crate::diag::push_ctx(e, Ctx::GetBranch)),
    }
}

/// The optional DC line section: `mpc.dcline = [` rows `]`.
pub open spec fn spec_get_dcline(s: Seq<char>) -> Result<(Seq<DcLineV>, int), SErr> {
    match spec_find(s, spec_key_dcline()) {
        None => Err(SErr { pos: 0, expected: None, contexts: seq![Ctx::GetDcline] }),
        Some(i) => {
            let j = i + spec_key_dcline().len();
            match spec_ws_char(s.skip(j), '=') {
                Err(e) => Err(spec_push_ctx(spec_shift(e, j), Ctx::GetDcline)),
                Ok(c1) => {
                    let o1 = j + c1;
                    match spec_ws_char(s.skip(o1), '[') {
                        Err(e) => Err(spec_push_ctx(spec_shift(e, o1), Ctx::GetDcline)),
                        Ok(c2) => {
                            let o2 = o1 + c2;
                            let o3 = o2 + spec_opt_ws_comment(s.skip(o2));
                            match spec_rows_dcline(s.skip(o3)) {
                                Err(e) => Err(spec_push_ctx(spec_shift(e, o3), Ctx::GetDcline)),
                                Ok((rows, c4)) => {
                                    let o4 = o3 + c4;
                                    match spec_ws_char(s.skip(o4), ']') {
                                        Err(e) => Err(
                                            spec_push_ctx(spec_shift(e, o4), Ctx::GetDcline),
                                        ),
                                        Ok(c5) => Ok((rows, o4 + c5)),
                                    }
                                },
                            }
                        },
                    }
                },
            }
        },
    }
}

/// Extracts the optional DC line section.
pub fn get_dcline(s: &[char]) -> (r: Result<(Vec<DcLine>, usize), ParseErr>)
    ensures
        match spec_get_dcline(s@) {
            Ok(sv) => r matches Ok(x) && x.0.deep_view() == sv.0 && x.1 as int == sv.1,
            Err(se) => r matches Err(e) && err_matches(e, se, 0),
        },
        r matches Ok(x) ==> x.1 <= s@.len(),
        r matches Err(e) ==> e.pos <= s@.len(),
{
    let _doc_len = s.len();
    let key = key_dcline();
    let i = match find_sub(s, key.as_slice(), 0) {
        Some(i) => i,
        None => {
            let e = ParseErr { pos: 0, expected: None, contexts: vec![Ctx::GetDcline] };
            proof {
                assert(e.contexts@ =~= seq![Ctx::GetDcline]);
            }
            return Err(e);
        },
    };
    let j = i + key.len();
    let p1 = match ws_char(s, j, '=') {
        Ok(p) => p,
        Err(e) => {
            return Err(crate::diag::push_ctx(e, Ctx::GetDcline));
        },
    };
    let p2 = match ws_char(s, p1, '[') {
        Ok(p) => p,
        Err(e) => {
            return Err(crate::diag::push_ctx(e, Ctx::GetDcline));
        },
    };
    let p3 = opt_ws_comment(s, p2);
    let (rows, p4) = match rows_dcline(s, p3) {
        Ok(x) => x,
        Err(e) => {
            return Err(crate::diag::push_ctx(e, Ctx::GetDcline));
        },
    };
    match ws_char(s, p4, ']') {
        Ok(p5) => Ok((rows, p5)),
        Err(e) => Err(crate::diag::push_ctx(e, Ctx::GetDcline)),
    }
}

/// The optional bus-name section: `mpc.bus_name = {` quoted names `}`.
pub open spec fn spec_get_busname(s: Seq<char>) -> Result<(Seq<Seq<char>>, int), SErr> {
    match spec_find(s, spec_key_busname()) {
        None => Err(SErr { pos: 0, expected: None, contexts: seq![Ctx::GetBusname] }),
        Some(i) => {
            let j = i + spec_key_busname().len();
            match spec_ws_char(s.skip(j), '=') {
                Err(e) => Err(spec_push_ctx(spec_shift(e, j), Ctx::GetBusname)),
                Ok(c1) => {
                    let o1 = j + c1;
                    match spec_ws_char(s.skip(o1), '{') {
                        Err(e) => Err(spec_push_ctx(spec_shift(e, o1), Ctx::GetBusname)),
                        Ok(c2) => {
                            let o2 = o1 + c2;
                            let o3 = o2 + spec_opt_ws_comment(s.skip(o2));
                            match spec_rows_busname(s.skip(o3)) {
                                Err(e) => Err(spec_push_ctx(spec_shift(e, o3), Ctx::GetBusname)),
                                Ok((rows, c4)) => {
                                    let o4 = o3 + c4;
                                    match spec_ws_char(s.skip(o4), '}') {
                                        Err(e) => Err(
                                            spec_push_ctx(spec_shift(e, o4), Ctx::GetBusname),
                                        ),
                                        Ok(c5) => Ok((rows, o4 + c5)),
                                    }
                                },
                            }
                        },
                    }
                },
            }
        },
    }
}

/// Extracts the optional bus-name section.
pub fn get_busname(s: &[char]) -> (r: Result<(Vec<String>, usize), ParseErr>)
    ensures
        match spec_get_busname(s@) {
            Ok(sv) => r matches Ok(x) && x.0.deep_view() == sv.0 && x.1 as int == sv.1,
            Err(se) => r matches Err(e) && err_matches(e, se, 0),
        },
        r matches Ok(x) ==> x.1 <= s@.len(),
        r matches Err(e) ==> e.pos <= s@.len(),
{
    let _doc_len = s.len();
    let key = key_busname();
    let i = match find_sub(s, key.as_slice(), 0) {
        Some(i) => i,
        None => {
            let e = ParseErr { pos: 0, expected: None, contexts: vec![Ctx::GetBusname] };
            proof {
                assert(e.contexts@ =~= seq![Ctx::GetBusname]);
            }
            return Err(e);
        },
    };
    let j = i + key.len();
    let p1 = match ws_char(s, j, '=') {
        Ok(p) => p,
        Err(e) => {
            return Err(crate::diag::push_ctx(e, Ctx::GetBusname));
        },
    };
    let p2 = match ws_char(s, p1, '{') {
        Ok(p) => p,
        Err(e) => {
            return Err(crate::diag::push_ctx(e, Ctx::GetBusname));
        },
    };
    let p3 = opt_ws_comment(s, p2);
    let (rows, p4) = match rows_busname(s, p3) {
        Ok(x) => x,
        Err(e) => {
            return Err(crate::diag::push_ctx(e, Ctx::GetBusname));
        },
    };
    match ws_char(s, p4, '}') {
        Ok(p5) => Ok((rows, p5)),
        Err(e) => Err(crate::diag::push_ctx(e, Ctx::GetBusname)),
    }
}

} // verus!
