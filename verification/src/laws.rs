//! General properties of the parser, stated and proved over the
//! specification-level grammar that every executable parser is tied to.

use vstd::prelude::*;

use crate::case::{spec_case, CaseV};
use crate::diag::SErr;
use crate::records::{spec_bus_type, spec_gen_cost, BusType, DcLineV, GenCostV};
use crate::sections::{
    spec_find, spec_get_base_mva, spec_get_branch, spec_get_bus, spec_get_busname,
    spec_get_dcline, spec_get_gen, spec_get_gencost, spec_get_name, spec_get_version,
    spec_key_gencost, spec_rows_gencost, spec_rows_gencost_more,
};
use crate::lex::{spec_opt_ws_comment, spec_ws_char};
use crate::diag::Ctx;

verus! {

/// Parsing is a pure function of the document text: identical text parses to
/// identical results, so parsing the same document twice yields structurally
/// equal cases, and equal diagnostics on failure.
pub proof fn lemma_parse_deterministic(s1: Seq<char>, s2: Seq<char>)
    requires
        s1 == s2,
    ensures
        spec_case(s1) == spec_case(s2),
{
}

/// A parsed generator cost record always satisfies the model-dependent
/// length invariant: `ncost` coefficients for a polynomial model, `2 *
/// ncost` for a piecewise-linear one; any other length is rejected at parse
/// time, never silently kept.
pub proof fn lemma_gen_cost_invariant(t: Seq<char>)
    ensures
        spec_gen_cost(t) matches Ok(x) ==> x.0.wf(),
{
    reveal(crate::records::spec_gen_cost);
}

proof fn lemma_rows_gencost_more_wf(t: Seq<char>)
    ensures
        forall|i: int|
            0 <= i < spec_rows_gencost_more(t).0.len() ==> spec_rows_gencost_more(t).0[i].wf(),
    decreases t.len(),
{
    lemma_gen_cost_invariant(t);
    match spec_gen_cost(t) {
        Ok((b, c)) => {
            if 0 < c <= t.len() {
                lemma_rows_gencost_more_wf(t.skip(c));
                let m = spec_rows_gencost_more(t.skip(c));
                assert forall|i: int|
                    0 <= i < spec_rows_gencost_more(t).0.len() implies spec_rows_gencost_more(
                    t,
                ).0[i].wf() by {
                    if i == 0 {
                        assert(spec_rows_gencost_more(t).0[i] == b);
                    } else {
                        assert(spec_rows_gencost_more(t).0[i] == m.0[i - 1]);
                    }
                };
            }
        },
        Err(_) => {},
    }
}

proof fn lemma_rows_gencost_wf(t: Seq<char>)
    ensures
        spec_rows_gencost(t) matches Ok(x) ==> forall|i: int|
            0 <= i < x.0.len() ==> x.0[i].wf(),
{
    lemma_gen_cost_invariant(t);
    match spec_gen_cost(t) {
        Ok((b, c)) => {
            lemma_rows_gencost_more_wf(t.skip(c));
            let m = spec_rows_gencost_more(t.skip(c));
            match spec_rows_gencost(t) {
                Ok((rows, _)) => {
                    assert forall|i: int| 0 <= i < rows.len() implies rows[i].wf() by {
                        if i == 0 {
                            assert(rows[i] == b);
                        } else {
                            assert(rows[i] == m.0[i - 1]);
                        }
                    };
                },
                Err(_) => {},
            }
        },
        Err(_) => {},
    }
}

/// Every generator cost record of a successfully extracted cost section
/// satisfies the length invariant.
pub proof fn lemma_get_gencost_invariant(s: Seq<char>)
    ensures
        spec_get_gencost(s) matches Ok(x) ==> forall|i: int|
            0 <= i < x.0.len() ==> x.0[i].wf(),
{
    match spec_find(s, spec_key_gencost()) {
        None => {},
        Some(i) => {
            let j = i + spec_key_gencost().len();
            match spec_ws_char(s.skip(j), '=') {
                Err(_) => {},
                Ok(c1) => {
                    let o1 = j + c1;
                    match spec_ws_char(s.skip(o1), '[') {
                        Err(_) => {},
                        Ok(c2) => {
                            let o2 = o1 + c2;
                            let o3 = o2 + spec_opt_ws_comment(s.skip(o2));
                            lemma_rows_gencost_wf(s.skip(o3));
                        },
                    }
                },
            }
        },
    }
}

/// Every generator cost record of a successfully parsed case satisfies the
/// length invariant.
pub proof fn lemma_case_gencost_invariant(s: Seq<char>)
    ensures
        spec_case(s) matches Ok(c) ==> forall|i: int|
            0 <= i < c.gencost.len() ==> c.gencost[i].wf(),
{
    lemma_get_gencost_invariant(s);
}

/// The bus-type token accepts exactly `1`, `2`, `3` and `4`, mapping them to
/// PQ, PV, Ref and Isolated; any other token fails.
pub proof fn lemma_bus_type_exact(t: Seq<char>)
    ensures
        spec_bus_type(t) is Ok <==> t.len() > 0 && (t[0] == '1' || t[0] == '2' || t[0] == '3'
            || t[0] == '4'),
        t.len() > 0 && t[0] == '1' ==> spec_bus_type(t) == Ok::<(BusType, int), SErr>(
            (BusType::PQ, 1),
        ),
        t.len() > 0 && t[0] == '2' ==> spec_bus_type(t) == Ok::<(BusType, int), SErr>(
            (BusType::PV, 1),
        ),
        t.len() > 0 && t[0] == '3' ==> spec_bus_type(t) == Ok::<(BusType, int), SErr>(
            (BusType::Ref, 1),
        ),
        t.len() > 0 && t[0] == '4' ==> spec_bus_type(t) == Ok::<(BusType, int), SErr>(
            (BusType::Isolated, 1),
        ),
{
}

/// The assembled case depends only on the nine independent lookups — the
/// header name, the version, the base power, and the six sections — each a
/// scan of the whole document on its own. Two documents on which every
/// lookup agrees parse to the same result. This independence is what makes
/// the textual order of sections irrelevant: moving a section within a
/// document changes no lookup's result, hence not the case.
pub proof fn lemma_lookups_determine_case(s1: Seq<char>, s2: Seq<char>)
    requires
        spec_get_name(s1) == spec_get_name(s2),
        spec_get_version(s1) == spec_get_version(s2),
        spec_get_base_mva(s1) == spec_get_base_mva(s2),
        spec_get_bus(s1) == spec_get_bus(s2),
        spec_get_gen(s1) == spec_get_gen(s2),
        spec_get_branch(s1) == spec_get_branch(s2),
        spec_get_gencost(s1) == spec_get_gencost(s2),
        spec_get_dcline(s1) == spec_get_dcline(s2),
        spec_get_busname(s1) == spec_get_busname(s2),
    ensures
        spec_case(s1) == spec_case(s2),
{
}

/// The generator cost, DC line and bus-name sections are optional: a parse
/// succeeds exactly when the header and the three mandatory sections do, a
/// successfully parsed case carries exactly an optional section's rows when
/// that section parses, and an empty collection when it is missing or
/// malformed.
pub proof fn lemma_optional_sections(s: Seq<char>)
    ensures
        spec_case(s) is Ok <==> spec_get_name(s) is Ok && spec_get_version(s) is Ok
            && spec_get_base_mva(s) is Ok && spec_get_bus(s) is Ok && spec_get_gen(s) is Ok
            && spec_get_branch(s) is Ok,
        spec_case(s) matches Ok(c) ==> match spec_get_gencost(s) {
            Ok(x) => c.gencost == x.0,
            Err(_) => c.gencost == Seq::<GenCostV>::empty(),
        },
        spec_case(s) matches Ok(c) ==> match spec_get_dcline(s) {
            Ok(x) => c.dcline == x.0,
            Err(_) => c.dcline == Seq::<DcLineV>::empty(),
        },
        spec_case(s) matches Ok(c) ==> match spec_get_busname(s) {
            Ok(x) => c.bus_name == x.0,
            Err(_) => c.bus_name == Seq::<Seq<char>>::empty(),
        },
{
}

/// The bus section is mandatory: a parsed case always has a successful bus
/// lookup; and when the header, version and base-power lookups succeed but
/// the bus lookup fails, the whole parse fails with exactly the bus
/// failure, whose innermost-to-outermost context list ends in the bus
/// section's context.
pub proof fn lemma_bus_mandatory(s: Seq<char>)
    ensures
        spec_case(s) is Ok ==> spec_get_bus(s) is Ok,
        spec_get_name(s) is Ok && spec_get_version(s) is Ok && spec_get_base_mva(s) is Ok ==> (
        spec_get_bus(s) matches Err(e) ==> spec_case(s) == Err::<CaseV, SErr>(e)
            && e.contexts.len() > 0 && e.contexts.last() == Ctx::GetBus),
{
}

} // verus!
