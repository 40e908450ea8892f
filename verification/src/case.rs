//! The aggregate case: assembly of the scalar lookups and the five tabular
//! sections into one value, and the single entry point of the library.
//!
//! Each lookup scans the same whole document independently, so the textual
//! order of sections does not matter. The bus, generator and branch sections
//! are mandatory: their absence or any failure inside them aborts the parse
//! with a formatted diagnostic. The generator cost, DC line and bus-name
//! sections are optional: a missing or malformed one degrades to an empty
//! collection.

use vstd::prelude::*;

use crate::diag::{
    chars_to_string, err_matches, report_error, spec_report, Ctx, ParseErr, SErr,
};
use crate::number::{Float, FloatV};
use crate::records::{
    Branch, BranchV, Bus, BusV, DcLine, DcLineV, Gen, GenCost, GenCostV, GenV, Version,
};
use crate::sections::{
    get_base_mva, get_branch, get_bus, get_busname, get_dcline, get_gen, get_gencost, get_name,
    get_version, spec_get_base_mva, spec_get_branch, spec_get_bus, spec_get_busname,
    spec_get_dcline, spec_get_gen, spec_get_gencost, spec_get_name, spec_get_version,
};

verus! {

/// A fully parsed case document.
#[derive(Debug, Clone, PartialEq)]
pub struct Case {
    pub name: String,
    pub version: Version,
    pub base_mva: Float,
    pub bus: Vec<Bus>,
    pub gen: Vec<Gen>,
    pub gencost: Vec<GenCost>,
    pub branch: Vec<Branch>,
    pub dcline: Vec<DcLine>,
    pub bus_name: Vec<String>,
}

pub ghost struct CaseV {
    pub name: Seq<char>,
    pub version: Version,
    pub base_mva: FloatV,
    pub bus: Seq<BusV>,
    pub gen: Seq<GenV>,
    pub gencost: Seq<GenCostV>,
    pub branch: Seq<BranchV>,
    pub dcline: Seq<DcLineV>,
    pub bus_name: Seq<Seq<char>>,
}

impl DeepView for Case {
    type V = CaseV;

    open spec fn deep_view(&self) -> CaseV {
        CaseV {
            name: self.name.deep_view(),
            version: self.version,
            base_mva: self.base_mva.deep_view(),
            bus: self.bus.deep_view(),
            gen: self.gen.deep_view(),
            gencost: self.gencost.deep_view(),
            branch: self.branch.deep_view(),
            dcline: self.dcline.deep_view(),
            bus_name: self.bus_name.deep_view(),
        }
    }
}

/// The assembled case a document denotes, or the failure of the first
/// mandatory lookup that goes wrong. The lookups run in a fixed order —
/// name, version, base power, buses, generators, branches — and the three
/// optional sections degrade to empty collections on any failure.
pub open spec fn spec_case(s: Seq<char>) -> Result<CaseV, SErr> {
    match spec_get_name(s) {
        Err(e) => Err(e),
        Ok((name, _)) => match spec_get_version(s) {
            Err(e) => Err(e),
            Ok((version, _)) => match spec_get_base_mva(s) {
                Err(e) => Err(e),
                Ok((base_mva, _)) => match spec_get_bus(s) {
                    Err(e) => Err(e),
                    Ok((bus, _)) => match spec_get_gen(s) {
                        Err(e) => Err(e),
                        Ok((gens, _)) => match spec_get_branch(s) {
                            Err(e) => Err(e),
                            Ok((branches, _)) => Ok(
                                CaseV {
                                    name,
                                    version,
                                    base_mva,
                                    bus,
                                    gen: gens,
                                    gencost: match spec_get_gencost(s) {
                                        Ok((g, _)) => g,
                                        Err(_) => Seq::<GenCostV>::empty(),
                                    },
                                    branch: branches,
                                    dcline: match spec_get_dcline(s) {
                                        Ok((d, _)) => d,
                                        Err(_) => Seq::<DcLineV>::empty(),
                                    },
                                    bus_name: match spec_get_busname(s) {
                                        Ok((b, _)) => b,
                                        Err(_) => Seq::<Seq<char>>::empty(),
                                    },
                                },
                            ),
                        },
                    },
                },
            },
        },
    }
}

/// The prefix of every diagnostic the entry point returns.
pub open spec fn spec_unable() -> Seq<char> {
    seq![
        'U',
        'n',
        'a',
        'b',
        'l',
        'e',
        ' ',
        't',
        'o',
        ' ',
        'b',
        'u',
        'i',
        'l',
        'd',
        ' ',
        'c',
        'a',
        's',
        'e',
        '.',
        ' ',
    ]
}

/// The full diagnostic text for a failure of the entry point.
pub open spec fn spec_case_msg(s: Seq<char>, se: SErr) -> Seq<char> {
    spec_unable() + spec_report(s, se.pos, se.expected, se.contexts)
}

/// A fatal parse failure: the structured error and its rendered diagnostic.
#[derive(Debug, Clone, PartialEq)]
pub struct Error {
    pub err: ParseErr,
    pub msg: String,
}

impl Error {
    /// The formatted diagnostic text.
    pub fn message(&self) -> (m: &String)
        ensures
            m@ == self.msg@,
    {
        &self.msg
    }
}

fn build_error(s: &[char], e: ParseErr) -> (r: Error)
    requires
        e.pos <= s@.len(),
        s@.len() < usize::MAX,
    ensures
        r.err == e,
        r.msg@ == spec_unable() + spec_report(s@, e.pos as int, e.expected, e.contexts@),
{
    let mut v: Vec<char> = vec![
        'U',
        'n',
        'a',
        'b',
        'l',
        'e',
        ' ',
        't',
        'o',
        ' ',
        'b',
        'u',
        'i',
        'l',
        'd',
        ' ',
        'c',
        'a',
        's',
        'e',
        '.',
        ' ',
    ];
    let mut rep = report_error(s, &e);
    v.append(&mut rep);
    let msg = chars_to_string(&v);
    proof {
        assert(v@ =~= spec_unable() + spec_report(s@, e.pos as int, e.expected, e.contexts@));
    }
    Error { err: e, msg }
}

/// Parses a whole case document: either every mandatory part parses and the
/// assembled `Case` is returned, or the first fatal failure is rendered into
/// a line-anchored diagnostic and no data is returned.
#[verifier::rlimit(100)]
pub fn case(input: &str) -> (r: Result<Case, Error>)
    requires
        input@.len() < usize::MAX,
    ensures
        match r {
            Ok(c) => spec_case(input@) matches Ok(cv) && c.deep_view() == cv,
            Err(e) => spec_case(input@) matches Err(se) && err_matches(e.err, se, 0) && e.msg@
                == spec_case_msg(input@, se),
        },
{
    let n = input.unicode_len();
    let mut chars: Vec<char> = Vec::new();
    let mut i: usize = 0;
    while i < n
        invariant
            0 <= i <= n,
            n as nat == input@.len(),
            chars@ == input@.take(i as int),
        decreases n - i,
    {
        let c = input.get_char(i);
        chars.push(c);
        proof {
            assert(chars@ =~= input@.take(i + 1));
        }
        i = i + 1;
    }
    proof {
        assert(chars@ =~= input@);
    }
    let s = chars.as_slice();
    let (name, _) = match get_name(s) {
        Ok(x) => x,
        Err(e) => {
            return Err(build_error(s, e));
        },
    };
    let (version, _) = match get_version(s) {
        Ok(x) => x,
        Err(e) => {
            return Err(build_error(s, e));
        },
    };
    let (base_mva, _) = match get_base_mva(s) {
        Ok(x) => x,
        Err(e) => {
            return Err(build_error(s, e));
        },
    };
    let (bus, _) = match get_bus(s) {
        Ok(x) => x,
        Err(e) => {
            return Err(build_error(s, e));
        },
    };
    let (gens, _) = match get_gen(s) {
        Ok(x) => x,
        Err(e) => {
            return Err(build_error(s, e));
        },
    };
    let (branches, _) = match get_branch(s) {
        Ok(x) => x,
        Err(e) => {
            return Err(build_error(s, e));
        },
    };
    let gencost = match get_gencost(s) {
        Ok((g, _)) => g,
        Err(_) => {
            let v: Vec<GenCost> = Vec::new();
            proof {
                assert(v.deep_view() =~= Seq::<GenCostV>::empty());
            }
            v
        },
    };
    let dcline = match get_dcline(s) {
        Ok((d, _)) => d,
        Err(_) => {
            let v: Vec<DcLine> = Vec::new();
            proof {
                assert(v.deep_view() =~= Seq::<DcLineV>::empty());
            }
            v
        },
    };
    let bus_name = match get_busname(s) {
        Ok((b, _)) => b,
        Err(_) => {
            let v: Vec<String> = Vec::new();
            proof {
                assert(v.deep_view() =~= Seq::<Seq<char>>::empty());
            }
            v
        },
    };
    Ok(Case { name, version, base_mva, bus, gen: gens, gencost, branch: branches, dcline, bus_name })
}

} // verus!
