//! Row types of the tabular sections and their parsers.
//!
//! Each row parser consumes a fixed sequence of whitespace-separated
//! primitives, then optional trailing fields, then a `;` terminator and any
//! trailing comments. A failing field fails the whole row, with the row's
//! context pushed onto the failure.

use vstd::prelude::*;

use crate::diag::{
    err_matches, pos_matches, spec_push_ctx, spec_shift, step_matches, Ctx, ParseErr, SErr,
};
use crate::lex::{
    row_term, spec_row_term, spec_skip_ws, spec_uint, spec_ws_char, spec_ws_float, spec_ws_uint,
    skip_ws, uint, ws_char, ws_float, ws_uint, spec_float, float,
};
use crate::number::{Float, FloatV};

verus! {

// ---------------------------------------------------------------------------
// Closed token enums
// ---------------------------------------------------------------------------
/// The four bus kinds, written `1` to `4` in a case document.
#[derive(Debug, PartialEq, Eq, Clone, Copy)]
pub enum BusType {
    PQ,
    PV,
    Ref,
    Isolated,
}

impl DeepView for BusType {
    type V = BusType;

    open spec fn deep_view(&self) -> BusType {
        *self
    }
}

/// The two generator cost models, written `1` and `2`.
#[derive(Debug, PartialEq, Eq, Clone, Copy)]
pub enum CostModel {
    PiecewiseLinear,
    Polynomial,
}

impl DeepView for CostModel {
    type V = CostModel;

    open spec fn deep_view(&self) -> CostModel {
        *self
    }
}

/// A DC line's service status, written `0` and `1`.
#[derive(Debug, PartialEq, Eq, Clone, Copy)]
pub enum ServiceStatus {
    OutOfService,
    InService,
}

impl DeepView for ServiceStatus {
    type V = ServiceStatus;

    open spec fn deep_view(&self) -> ServiceStatus {
        *self
    }
}

/// The case format version, written bare or quoted.
#[derive(Debug, PartialEq, Eq, Clone, Copy)]
pub enum Version {
    Version1,
    Version2,
}

impl DeepView for Version {
    type V = Version;

    open spec fn deep_view(&self) -> Version {
        *self
    }
}

/// Exactly the tokens `1`, `2`, `3`, `4` name a bus type; anything else
/// fails.
pub open spec fn spec_bus_type(t: Seq<char>) -> Result<(BusType, int), SErr> {
    if t.len() > 0 && t[0] == '1' {
        Ok((BusType::PQ, 1))
    } else if t.len() > 0 && t[0] == '2' {
        Ok((BusType::PV, 1))
    } else if t.len() > 0 && t[0] == '3' {
        Ok((BusType::Ref, 1))
    } else if t.len() > 0 && t[0] == '4' {
        Ok((BusType::Isolated, 1))
    } else {
        Err(SErr { pos: 0, expected: None, contexts: seq![Ctx::BusTypeTok] })
    }
}

/// Parses a bus-type token.
pub fn bus_type(s: &[char], pos: usize) -> (r: Result<(BusType, usize), ParseErr>)
    requires
        pos <= s@.len(),
    ensures
        step_matches(r, spec_bus_type(s@.skip(pos as int)), pos as int),
        r matches Ok(x) ==> pos < x.1 <= s@.len(),
        r matches Err(e) ==> pos <= e.pos <= s@.len(),
{
    let ghost t = s@.skip(pos as int);
    proof {
        assert(t.len() > 0 ==> t[0] == s@[pos as int]);
    }
    if pos < s.len() && s[pos] == '1' {
        Ok((BusType::PQ, pos + 1))
    } else if pos < s.len() && s[pos] == '2' {
        Ok((BusType::PV, pos + 1))
    } else if pos < s.len() && s[pos] == '3' {
        Ok((BusType::Ref, pos + 1))
    } else if pos < s.len() && s[pos] == '4' {
        Ok((BusType::Isolated, pos + 1))
    } else {
        let e = ParseErr { pos, expected: None, contexts: vec![Ctx::BusTypeTok] };
        proof {
            assert(e.contexts@ =~= seq![Ctx::BusTypeTok]);
        }
        Err(e)
    }
}

/// `1` is a piecewise-linear cost curve, `2` a polynomial one.
pub open spec fn spec_cost_model(t: Seq<char>) -> Result<(CostModel, int), SErr> {
    if t.len() > 0 && t[0] == '1' {
        Ok((CostModel::PiecewiseLinear, 1))
    } else if t.len() > 0 && t[0] == '2' {
        Ok((CostModel::Polynomial, 1))
    } else {
        Err(SErr { pos: 0, expected: None, contexts: seq![Ctx::CostModelTok] })
    }
}

/// Parses a cost-model token.
pub fn cost_model(s: &[char], pos: usize) -> (r: Result<(CostModel, usize), ParseErr>)
    requires
        pos <= s@.len(),
    ensures
        step_matches(r, spec_cost_model(s@.skip(pos as int)), pos as int),
        r matches Ok(x) ==> pos < x.1 <= s@.len(),
        r matches Err(e) ==> pos <= e.pos <= s@.len(),
{
    let ghost t = s@.skip(pos as int);
    proof {
        assert(t.len() > 0 ==> t[0] == s@[pos as int]);
    }
    if pos < s.len() && s[pos] == '1' {
        Ok((CostModel::PiecewiseLinear, pos + 1))
    } else if pos < s.len() && s[pos] == '2' {
        Ok((CostModel::Polynomial, pos + 1))
    } else {
        let e = ParseErr { pos, expected: None, contexts: vec![Ctx::CostModelTok] };
        proof {
            assert(e.contexts@ =~= seq![Ctx::CostModelTok]);
        }
        Err(e)
    }
}

/// `0` is out of service, `1` in service.
pub open spec fn spec_service_status(t: Seq<char>) -> Result<(ServiceStatus, int), SErr> {
    if t.len() > 0 && t[0] == '0' {
        Ok((ServiceStatus::OutOfService, 1))
    } else if t.len() > 0 && t[0] == '1' {
        Ok((ServiceStatus::InService, 1))
    } else {
        Err(SErr { pos: 0, expected: None, contexts: seq![Ctx::ServiceStatusTok] })
    }
}

/// Parses a service-status token.
pub fn service_status(s: &[char], pos: usize) -> (r: Result<(ServiceStatus, usize), ParseErr>)
    requires
        pos <= s@.len(),
    ensures
        step_matches(r, spec_service_status(s@.skip(pos as int)), pos as int),
        r matches Ok(x) ==> pos < x.1 <= s@.len(),
        r matches Err(e) ==> pos <= e.pos <= s@.len(),
{
    let ghost t = s@.skip(pos as int);
    proof {
        assert(t.len() > 0 ==> t[0] == s@[pos as int]);
    }
    if pos < s.len() && s[pos] == '0' {
        Ok((ServiceStatus::OutOfService, pos + 1))
    } else if pos < s.len() && s[pos] == '1' {
        Ok((ServiceStatus::InService, pos + 1))
    } else {
        let e = ParseErr { pos, expected: None, contexts: vec![Ctx::ServiceStatusTok] };
        proof {
            assert(e.contexts@ =~= seq![Ctx::ServiceStatusTok]);
        }
        Err(e)
    }
}

/// A version token: bare `1` or `2`, or quoted `'1'` or `'2'`, each in
/// optional whitespace; anything else fails.
pub open spec fn spec_version(t: Seq<char>) -> Result<(Version, int), SErr> {
    let a = spec_skip_ws(t);
    let t1 = t.skip(a);
    if t1.len() > 0 && t1[0] == '1' {
        Ok((Version::Version1, a + 1 + spec_skip_ws(t.skip(a + 1))))
    } else if t1.len() > 0 && t1[0] == '2' {
        Ok((Version::Version2, a + 1 + spec_skip_ws(t.skip(a + 1))))
    } else if t1.len() >= 3 && t1[0] == '\'' && t1[1] == '1' && t1[2] == '\'' {
        Ok((Version::Version1, a + 3 + spec_skip_ws(t.skip(a + 3))))
    } else if t1.len() >= 3 && t1[0] == '\'' && t1[1] == '2' && t1[2] == '\'' {
        Ok((Version::Version2, a + 3 + spec_skip_ws(t.skip(a + 3))))
    } else {
        Err(SErr { pos: a, expected: None, contexts: seq![Ctx::VersionTok] })
    }
}

/// Parses a version token.
pub fn version(s: &[char], pos: usize) -> (r: Result<(Version, usize), ParseErr>)
    requires
        pos <= s@.len(),
    ensures
        step_matches(r, spec_version(s@.skip(pos as int)), pos as int),
        r matches Ok(x) ==> pos <= x.1 <= s@.len(),
        r matches Err(e) ==> pos <= e.pos <= s@.len(),
{
    let ghost t = s@.skip(pos as int);
    let p1 = skip_ws(s, pos);
    proof {
        assert(forall|i: int| 0 <= i < t.len() ==> t[i] == s@[pos + i]);
    }
    if p1 < s.len() && s[p1] == '1' {
        proof {
            assert(s@.skip(p1 + 1) =~= t.skip(p1 - pos + 1));
        }
        let p2 = skip_ws(s, p1 + 1);
        Ok((Version::Version1, p2))
    } else if p1 < s.len() && s[p1] == '2' {
        proof {
            assert(s@.skip(p1 + 1) =~= t.skip(p1 - pos + 1));
        }
        let p2 = skip_ws(s, p1 + 1);
        Ok((Version::Version2, p2))
    } else if s.len() - p1 >= 3 && s[p1] == '\'' && s[p1 + 1] == '1' && s[p1 + 2] == '\'' {
        proof {
            assert(s@.skip(p1 + 3) =~= t.skip(p1 - pos + 3));
        }
        let p2 = skip_ws(s, p1 + 3);
        Ok((Version::Version1, p2))
    } else if s.len() - p1 >= 3 && s[p1] == '\'' && s[p1 + 1] == '2' && s[p1 + 2] == '\'' {
        proof {
            assert(s@.skip(p1 + 3) =~= t.skip(p1 - pos + 3));
        }
        let p2 = skip_ws(s, p1 + 3);
        Ok((Version::Version2, p2))
    } else {
        let e = ParseErr { pos: p1, expected: None, contexts: vec![Ctx::VersionTok] };
        proof {
            assert(e.contexts@ =~= seq![Ctx::VersionTok]);
        }
        Err(e)
    }
}

// ---------------------------------------------------------------------------
// Whitespace-wrapped tokens and row-field helpers
// ---------------------------------------------------------------------------
pub open spec fn spec_ws_bus_type(t: Seq<char>) -> Result<(BusType, int), SErr> {
    let a = spec_skip_ws(t);
    match spec_bus_type(t.skip(a)) {
        Err(e) => Err(spec_shift(e, a)),
        Ok((v, c)) => Ok((v, a + c + spec_skip_ws(t.skip(a + c)))),
    }
}

fn ws_bus_type(s: &[char], pos: usize) -> (r: Result<(BusType, usize), ParseErr>)
    requires
        pos <= s@.len(),
    ensures
        step_matches(r, spec_ws_bus_type(s@.skip(pos as int)), pos as int),
        r matches Ok(x) ==> pos < x.1 <= s@.len(),
        r matches Err(e) ==> pos <= e.pos <= s@.len(),
{
    let ghost t = s@.skip(pos as int);
    let p1 = skip_ws(s, pos);
    proof {
        assert(s@.skip(p1 as int) =~= t.skip(p1 - pos));
    }
    match bus_type(s, p1) {
        Err(e) => Err(e),
        Ok((v, p2)) => {
            proof {
                assert(s@.skip(p2 as int) =~= t.skip(p2 - pos));
            }
            let p3 = skip_ws(s, p2);
            Ok((v, p3))
        },
    }
}

pub open spec fn spec_ws_cost_model(t: Seq<char>) -> Result<(CostModel, int), SErr> {
    let a = spec_skip_ws(t);
    match spec_cost_model(t.skip(a)) {
        Err(e) => Err(spec_shift(e, a)),
        Ok((v, c)) => Ok((v, a + c + spec_skip_ws(t.skip(a + c)))),
    }
}

fn ws_cost_model(s: &[char], pos: usize) -> (r: Result<(CostModel, usize), ParseErr>)
    requires
        pos <= s@.len(),
    ensures
        step_matches(r, spec_ws_cost_model(s@.skip(pos as int)), pos as int),
        r matches Ok(x) ==> pos < x.1 <= s@.len(),
        r matches Err(e) ==> pos <= e.pos <= s@.len(),
{
    let ghost t = s@.skip(pos as int);
    let p1 = skip_ws(s, pos);
    proof {
        assert(s@.skip(p1 as int) =~= t.skip(p1 - pos));
    }
    match cost_model(s, p1) {
        Err(e) => Err(e),
        Ok((v, p2)) => {
            proof {
                assert(s@.skip(p2 as int) =~= t.skip(p2 - pos));
            }
            let p3 = skip_ws(s, p2);
            Ok((v, p3))
        },
    }
}

pub open spec fn spec_ws_service_status(t: Seq<char>) -> Result<(ServiceStatus, int), SErr> {
    let a = spec_skip_ws(t);
    match spec_service_status(t.skip(a)) {
        Err(e) => Err(spec_shift(e, a)),
        Ok((v, c)) => Ok((v, a + c + spec_skip_ws(t.skip(a + c)))),
    }
}

fn ws_service_status(s: &[char], pos: usize) -> (r: Result<(ServiceStatus, usize), ParseErr>)
    requires
        pos <= s@.len(),
    ensures
        step_matches(r, spec_ws_service_status(s@.skip(pos as int)), pos as int),
        r matches Ok(x) ==> pos < x.1 <= s@.len(),
        r matches Err(e) ==> pos <= e.pos <= s@.len(),
{
    let ghost t = s@.skip(pos as int);
    let p1 = skip_ws(s, pos);
    proof {
        assert(s@.skip(p1 as int) =~= t.skip(p1 - pos));
    }
    match service_status(s, p1) {
        Err(e) => Err(e),
        Ok((v, p2)) => {
            proof {
                assert(s@.skip(p2 as int) =~= t.skip(p2 - pos));
            }
            let p3 = skip_ws(s, p2);
            Ok((v, p3))
        },
    }
}

/// A mandatory whitespace-wrapped float field; a failure carries the row's
/// context.
fn field_float(s: &[char], pos: usize, c: Ctx) -> (r: Result<(Float, usize), ParseErr>)
    requires
        pos <= s@.len(),
    ensures
        match spec_ws_float(s@.skip(pos as int)) {
            Ok(sv) => r matches Ok(x) && x.0@ == sv.0 && x.1 as int == pos + sv.1,
            Err(se) => r matches Err(e) && err_matches(e, spec_push_ctx(se, c), pos as int),
        },
        r matches Ok(x) ==> pos < x.1 <= s@.len(),
        r matches Err(e) ==> pos <= e.pos <= s@.len(),
{
    match ws_float(s, pos) {
        Ok(x) => Ok(x),
        Err(e) => Err(crate::diag::push_ctx(e, c)),
    }
}

/// A mandatory whitespace-wrapped unsigned-integer field.
fn field_uint(s: &[char], pos: usize, c: Ctx) -> (r: Result<(usize, usize), ParseErr>)
    requires
        pos <= s@.len(),
    ensures
        match spec_ws_uint(s@.skip(pos as int)) {
            Ok(sv) => r matches Ok(x) && x.0 == sv.0 && x.1 as int == pos + sv.1,
            Err(se) => r matches Err(e) && err_matches(e, spec_push_ctx(se, c), pos as int),
        },
        r matches Ok(x) ==> pos < x.1 <= s@.len(),
        r matches Err(e) ==> pos <= e.pos <= s@.len(),
{
    match ws_uint(s, pos) {
        Ok(x) => Ok(x),
        Err(e) => Err(crate::diag::push_ctx(e, c)),
    }
}

/// An optional trailing float field: parsed when present, skipped without
/// consuming anything when absent.
pub open spec fn spec_opt_float(t: Seq<char>) -> (Option<FloatV>, int) {
    match spec_ws_float(t) {
        Ok((v, c)) => (Some(v), c),
        Err(_) => (None::<FloatV>, 0),
    }
}

fn opt_field_float(s: &[char], pos: usize) -> (r: (Option<Float>, usize))
    requires
        pos <= s@.len(),
    ensures
        r.0.deep_view() == spec_opt_float(s@.skip(pos as int)).0,
        r.1 as int == pos + spec_opt_float(s@.skip(pos as int)).1,
        pos <= r.1 <= s@.len(),
{
    match ws_float(s, pos) {
        Ok((v, p)) => (Some(v), p),
        Err(_) => (None, pos),
    }
}

/// A mandatory row terminator; a failure carries the row's context.
fn field_term(s: &[char], pos: usize, c: Ctx) -> (r: Result<usize, ParseErr>)
    requires
        pos <= s@.len(),
    ensures
        match spec_row_term(s@.skip(pos as int)) {
            Ok(sc) => r matches Ok(p) && p as int == pos + sc,
            Err(se) => r matches Err(e) && err_matches(e, spec_push_ctx(se, c), pos as int),
        },
        r matches Ok(p) ==> pos < p <= s@.len(),
        r matches Err(e) ==> pos <= e.pos <= s@.len(),
{
    match row_term(s, pos) {
        Ok(p) => Ok(p),
        Err(e) => Err(crate::diag::push_ctx(e, c)),
    }
}

/// A mandatory whitespace-wrapped bus-type field.
fn field_bus_type(s: &[char], pos: usize, c: Ctx) -> (r: Result<(BusType, usize), ParseErr>)
    requires
        pos <= s@.len(),
    ensures
        match spec_ws_bus_type(s@.skip(pos as int)) {
            Ok(sv) => r matches Ok(x) && x.0 == sv.0 && x.1 as int == pos + sv.1,
            Err(se) => r matches Err(e) && err_matches(e, spec_push_ctx(se, c), pos as int),
        },
        r matches Ok(x) ==> pos < x.1 <= s@.len(),
        r matches Err(e) ==> pos <= e.pos <= s@.len(),
{
    match ws_bus_type(s, pos) {
        Ok(x) => Ok(x),
        Err(e) => Err(crate::diag::push_ctx(e, c)),
    }
}

/// A mandatory whitespace-wrapped cost-model field.
fn field_cost_model(s: &[char], pos: usize, c: Ctx) -> (r: Result<(CostModel, usize), ParseErr>)
    requires
        pos <= s@.len(),
    ensures
        match spec_ws_cost_model(s@.skip(pos as int)) {
            Ok(sv) => r matches Ok(x) && x.0 == sv.0 && x.1 as int == pos + sv.1,
            Err(se) => r matches Err(e) && err_matches(e, spec_push_ctx(se, c), pos as int),
        },
        r matches Ok(x) ==> pos < x.1 <= s@.len(),
        r matches Err(e) ==> pos <= e.pos <= s@.len(),
{
    match ws_cost_model(s, pos) {
        Ok(x) => Ok(x),
        Err(e) => Err(crate::diag::push_ctx(e, c)),
    }
}

/// A mandatory whitespace-wrapped service-status field.
fn field_service_status(s: &[char], pos: usize, c: Ctx) -> (r: Result<
    (ServiceStatus, usize),
    ParseErr,
>)
    requires
        pos <= s@.len(),
    ensures
        match spec_ws_service_status(s@.skip(pos as int)) {
            Ok(sv) => r matches Ok(x) && x.0 == sv.0 && x.1 as int == pos + sv.1,
            Err(se) => r matches Err(e) && err_matches(e, spec_push_ctx(se, c), pos as int),
        },
        r matches Ok(x) ==> pos < x.1 <= s@.len(),
        r matches Err(e) ==> pos <= e.pos <= s@.len(),
{
    match ws_service_status(s, pos) {
        Ok(x) => Ok(x),
        Err(e) => Err(crate::diag::push_ctx(e, c)),
    }
}

// ---------------------------------------------------------------------------
// Bus rows
// ---------------------------------------------------------------------------
/// An electrical network node: thirteen mandatory fields and four optional
/// solution multipliers.
#[derive(Debug, Clone, PartialEq)]
pub struct Bus {
    pub idx: usize,
    pub bus_type: BusType,
    pub pd: Float,
    pub qd: Float,
    pub shunt_conductance: Float,
    pub shunt_susceptance: Float,
    pub area: usize,
    pub voltage_mag: Float,
    pub voltage_ang: Float,
    pub base_kv: Float,
    pub zone: usize,
    pub v_max: Float,
    pub v_min: Float,
    pub lam_p: Option<Float>,
    pub lam_q: Option<Float>,
    pub mu_vmax: Option<Float>,
    pub mu_vmin: Option<Float>,
}

pub ghost struct BusV {
    pub idx: usize,
    pub bus_type: BusType,
    pub pd: FloatV,
    pub qd: FloatV,
    pub shunt_conductance: FloatV,
    pub shunt_susceptance: FloatV,
    pub area: usize,
    pub voltage_mag: FloatV,
    pub voltage_ang: FloatV,
    pub base_kv: FloatV,
    pub zone: usize,
    pub v_max: FloatV,
    pub v_min: FloatV,
    pub lam_p: Option<FloatV>,
    pub lam_q: Option<FloatV>,
    pub mu_vmax: Option<FloatV>,
    pub mu_vmin: Option<FloatV>,
}

impl DeepView for Bus {
    type V = BusV;

    open spec fn deep_view(&self) -> BusV {
        BusV {
            idx: self.idx,
            bus_type: self.bus_type,
            pd: self.pd.deep_view(),
            qd: self.qd.deep_view(),
            shunt_conductance: self.shunt_conductance.deep_view(),
            shunt_susceptance: self.shunt_susceptance.deep_view(),
            area: self.area,
            voltage_mag: self.voltage_mag.deep_view(),
            voltage_ang: self.voltage_ang.deep_view(),
            base_kv: self.base_kv.deep_view(),
            zone: self.zone,
            v_max: self.v_max.deep_view(),
            v_min: self.v_min.deep_view(),
            lam_p: self.lam_p.deep_view(),
            lam_q: self.lam_q.deep_view(),
            mu_vmax: self.mu_vmax.deep_view(),
            mu_vmin: self.mu_vmin.deep_view(),
        }
    }
}

// ---------------------------------------------------------------------------
// Runs of mandatory and optional float fields
// ---------------------------------------------------------------------------
/// Exactly `n` mandatory whitespace-wrapped floats.
pub open spec fn spec_floats_n(t: Seq<char>, n: int) -> Result<(Seq<FloatV>, int), SErr>
    decreases n,
{
    if n <= 0 {
        Ok((Seq::<FloatV>::empty(), 0))
    } else {
        match spec_ws_float(t) {
            Err(e) => Err(e),
            Ok((v, c)) => match spec_floats_n(t.skip(c), n - 1) {
                Err(e) => Err(spec_shift(e, c)),
                Ok((vs, c2)) => Ok((seq![v] + vs, c + c2)),
            },
        }
    }
}

fn floats_n(s: &[char], pos: usize, n: usize) -> (r: Result<(Vec<Float>, usize), ParseErr>)
    requires
        pos <= s@.len(),
    ensures
        match spec_floats_n(s@.skip(pos as int), n as int) {
            Ok(sv) => r matches Ok(x) && x.0.deep_view() == sv.0 && x.0@.len() == n && x.1 as int
                == pos + sv.1,
            Err(se) => r matches Err(e) && err_matches(e, se, pos as int),
        },
        r matches Ok(x) ==> pos <= x.1 <= s@.len(),
        r matches Err(e) ==> pos <= e.pos <= s@.len(),
    decreases n,
{
    if n == 0 {
        let v: Vec<Float> = Vec::new();
        proof {
            assert(v.deep_view() =~= Seq::<FloatV>::empty());
        }
        Ok((v, pos))
    } else {
        match ws_float(s, pos) {
            Err(e) => Err(e),
            Ok((f, p1)) => {
                proof {
                    assert(s@.skip(p1 as int) =~= s@.skip(pos as int).skip(p1 - pos));
                }
                match floats_n(s, p1, n - 1) {
                    Err(e) => Err(e),
                    Ok((mut vs, p2)) => {
                        let ghost vsd = vs.deep_view();
                        let mut out: Vec<Float> = Vec::new();
                        out.push(f);
                        out.append(&mut vs);
                        proof {
                            assert(out.deep_view() =~= seq![f.deep_view()] + vsd);
                        }
                        Ok((out, p2))
                    },
                }
            },
        }
    }
}

/// Up to `n` optional trailing floats, each absent one consuming nothing.
pub open spec fn spec_opts_n(t: Seq<char>, n: int) -> (Seq<Option<FloatV>>, int)
    decreases n,
{
    if n <= 0 {
        (Seq::<Option<FloatV>>::empty(), 0)
    } else {
        let m = spec_opt_float(t);
        let r = spec_opts_n(t.skip(m.1), n - 1);
        (seq![m.0] + r.0, m.1 + r.1)
    }
}

fn opts_n(s: &[char], pos: usize, n: usize) -> (r: (Vec<Option<Float>>, usize))
    requires
        pos <= s@.len(),
    ensures
        r.0.deep_view() == spec_opts_n(s@.skip(pos as int), n as int).0,
        r.0@.len() == n,
        r.1 as int == pos + spec_opts_n(s@.skip(pos as int), n as int).1,
        pos <= r.1 <= s@.len(),
    decreases n,
{
    if n == 0 {
        let v: Vec<Option<Float>> = Vec::new();
        proof {
            assert(v.deep_view() =~= Seq::<Option<FloatV>>::empty());
        }
        (v, pos)
    } else {
        let (m, p1) = opt_field_float(s, pos);
        proof {
            assert(s@.skip(p1 as int) =~= s@.skip(pos as int).skip(p1 - pos));
        }
        let (mut vs, p2) = opts_n(s, p1, n - 1);
        let ghost vsd = vs.deep_view();
        let ghost md = m.deep_view();
        let mut out: Vec<Option<Float>> = Vec::new();
        out.push(m);
        out.append(&mut vs);
        proof {
            assert(out.deep_view() =~= seq![md] + vsd);
        }
        (out, p2)
    }
}

/// A bus row: index, bus type, four demand and shunt values, area, voltage
/// magnitude and angle, base voltage, zone, the voltage bounds, up to four
/// optional multipliers, then the terminator.
#[verifier::opaque]
pub open spec fn spec_bus(t: Seq<char>) -> Result<(BusV, int), SErr> {
    match spec_ws_uint(t) {
        Err(e) => Err(spec_push_ctx(e, Ctx::BusRow)),
        Ok((idx, o1)) => match spec_ws_bus_type(t.skip(o1)) {
            Err(e) => Err(spec_push_ctx(spec_shift(e, o1), Ctx::BusRow)),
            Ok((bt, c2)) => {
                let o2 = o1 + c2;
                match spec_floats_n(t.skip(o2), 4) {
                    Err(e) => Err(spec_push_ctx(spec_shift(e, o2), Ctx::BusRow)),
                    Ok((fs1, c3)) => {
                        let o3 = o2 + c3;
                        match spec_ws_uint(t.skip(o3)) {
                            Err(e) => Err(spec_push_ctx(spec_shift(e, o3), Ctx::BusRow)),
                            Ok((area, c4)) => {
                                let o4 = o3 + c4;
                                match spec_floats_n(t.skip(o4), 3) {
                                    Err(e) => Err(spec_push_ctx(spec_shift(e, o4), Ctx::BusRow)),
                                    Ok((fs2, c5)) => {
                                        let o5 = o4 + c5;
                                        match spec_ws_uint(t.skip(o5)) {
                                            Err(e) => Err(
                                                spec_push_ctx(spec_shift(e, o5), Ctx::BusRow),
                                            ),
                                            Ok((zone, c6)) => {
                                                let o6 = o5 + c6;
                                                match spec_floats_n(t.skip(o6), 2) {
                                                    Err(e) => Err(
                                                        spec_push_ctx(
                                                            spec_shift(e, o6),
                                                            Ctx::BusRow,
                                                        ),
                                                    ),
                                                    Ok((fs3, c7)) => {
                                                        let o7 = o6 + c7;
                                                        let op = spec_opts_n(t.skip(o7), 4);
                                                        let o8 = o7 + op.1;
                                                        match spec_row_term(t.skip(o8)) {
                                                            Err(e) => Err(
                                                                spec_push_ctx(
                                                                    spec_shift(e, o8),
                                                                    Ctx::BusRow,
                                                                ),
                                                            ),
                                                            Ok(c9) => Ok(
                                                                (
                                                                    BusV {
                                                                        idx,
                                                                        bus_type: bt,
                                                                        pd: fs1[0],
                                                                        qd: fs1[1],
                                                                        shunt_conductance: fs1[2],
                                                                        shunt_susceptance: fs1[3],
                                                                        area,
                                                                        voltage_mag: fs2[0],
                                                                        voltage_ang: fs2[1],
                                                                        base_kv: fs2[2],
                                                                        zone,
                                                                        v_max: fs3[0],
                                                                        v_min: fs3[1],
                                                                        lam_p: op.0[0],
                                                                        lam_q: op.0[1],
                                                                        mu_vmax: op.0[2],
                                                                        mu_vmin: op.0[3],
                                                                    },
                                                                    o8 + c9,
                                                                ),
                                                            ),
                                                        }
                                                    },
                                                }
                                            },
                                        }
                                    },
                                }
                            },
                        }
                    },
                }
            },
        },
    }
}

/// Parses one bus row.
#[verifier::rlimit(100)]
pub fn bus(s: &[char], pos: usize) -> (r: Result<(Bus, usize), ParseErr>)
    requires
        pos <= s@.len(),
    ensures
        step_matches(r, spec_bus(s@.skip(pos as int)), pos as int),
        r matches Ok(x) ==> pos < x.1 <= s@.len(),
        r matches Err(e) ==> pos <= e.pos <= s@.len(),
{
    proof {
        reveal(spec_bus);
    }
    let ghost t = s@.skip(pos as int);
    let (idx, p1) = match field_uint(s, pos, Ctx::BusRow) {
        Ok(x) => x,
        Err(e) => {
            return Err(e);
        },
    };
    proof {
        assert(s@.skip(p1 as int) =~= t.skip(p1 - pos));
    }
    let (bt, p2) = match field_bus_type(s, p1, Ctx::BusRow) {
        Ok(x) => x,
        Err(e) => {
            return Err(e);
        },
    };
    proof {
        assert(s@.skip(p2 as int) =~= t.skip(p2 - pos));
    }
    let (mut fs1, p3) = match floats_n(s, p2, 4) {
        Ok(x) => x,
        Err(e) => {
            return Err(crate::diag::push_ctx(e, Ctx::BusRow));
        },
    };
    proof {
        assert(s@.skip(p3 as int) =~= t.skip(p3 - pos));
    }
    let (area, p4) = match field_uint(s, p3, Ctx::BusRow) {
        Ok(x) => x,
        Err(e) => {
            return Err(e);
        },
    };
    proof {
        assert(s@.skip(p4 as int) =~= t.skip(p4 - pos));
    }
    let (mut fs2, p5) = match floats_n(s, p4, 3) {
        Ok(x) => x,
        Err(e) => {
            return Err(crate::diag::push_ctx(e, Ctx::BusRow));
        },
    };
    proof {
        assert(s@.skip(p5 as int) =~= t.skip(p5 - pos));
    }
    let (zone, p6) = match field_uint(s, p5, Ctx::BusRow) {
        Ok(x) => x,
        Err(e) => {
            return Err(e);
        },
    };
    proof {
        assert(s@.skip(p6 as int) =~= t.skip(p6 - pos));
    }
    let (mut fs3, p7) = match floats_n(s, p6, 2) {
        Ok(x) => x,
        Err(e) => {
            return Err(crate::diag::push_ctx(e, Ctx::BusRow));
        },
    };
    proof {
        assert(s@.skip(p7 as int) =~= t.skip(p7 - pos));
    }
    let (mut ops, p8) = opts_n(s, p7, 4);
    proof {
        assert(s@.skip(p8 as int) =~= t.skip(p8 - pos));
    }
    let p9 = match field_term(s, p8, Ctx::BusRow) {
        Ok(x) => x,
        Err(e) => {
            return Err(e);
        },
    };
    let bs = fs1.pop().unwrap();
    let gs = fs1.pop().unwrap();
    let qd = fs1.pop().unwrap();
    let pd = fs1.pop().unwrap();
    let kv = fs2.pop().unwrap();
    let va = fs2.pop().unwrap();
    let vm = fs2.pop().unwrap();
    let vmin = fs3.pop().unwrap();
    let vmax = fs3.pop().unwrap();
    let mu_vmin = ops.pop().unwrap();
    let mu_vmax = ops.pop().unwrap();
    let lam_q = ops.pop().unwrap();
    let lam_p = ops.pop().unwrap();
    let b = Bus {
        idx,
        bus_type: bt,
        pd,
        qd,
        shunt_conductance: gs,
        shunt_susceptance: bs,
        area,
        voltage_mag: vm,
        voltage_ang: va,
        base_kv: kv,
        zone,
        v_max: vmax,
        v_min: vmin,
        lam_p,
        lam_q,
        mu_vmax,
        mu_vmin,
    };
    Ok((b, p9))
}

// ---------------------------------------------------------------------------
// Gen rows
// ---------------------------------------------------------------------------
/// A generator record: twenty-one mandatory fields and four optional
/// multipliers.
#[derive(Debug, Clone, PartialEq)]
pub struct Gen {
    pub gen: usize,
    pub pg: Float,
    pub qg: Float,
    pub qmax: Float,
    pub qmin: Float,
    pub vg: Float,
    pub mbase: Float,
    pub gen_status: usize,
    pub pmax: Float,
    pub pmin: Float,
    pub pc1: Float,
    pub pc2: Float,
    pub qc1min: Float,
    pub qc1max: Float,
    pub qc2min: Float,
    pub qc2max: Float,
    pub ramp_agc: Float,
    pub ramp_10: Float,
    pub ramp_30: Float,
    pub ramp_q: Float,
    pub apf: Float,
    pub mu_pmax: Option<Float>,
    pub mu_pmin: Option<Float>,
    pub mu_qmax: Option<Float>,
    pub mu_qmin: Option<Float>,
}

pub ghost struct GenV {
    pub gen: usize,
    pub pg: FloatV,
    pub qg: FloatV,
    pub qmax: FloatV,
    pub qmin: FloatV,
    pub vg: FloatV,
    pub mbase: FloatV,
    pub gen_status: usize,
    pub pmax: FloatV,
    pub pmin: FloatV,
    pub pc1: FloatV,
    pub pc2: FloatV,
    pub qc1min: FloatV,
    pub qc1max: FloatV,
    pub qc2min: FloatV,
    pub qc2max: FloatV,
    pub ramp_agc: FloatV,
    pub ramp_10: FloatV,
    pub ramp_30: FloatV,
    pub ramp_q: FloatV,
    pub apf: FloatV,
    pub mu_pmax: Option<FloatV>,
    pub mu_pmin: Option<FloatV>,
    pub mu_qmax: Option<FloatV>,
    pub mu_qmin: Option<FloatV>,
}

impl DeepView for Gen {
    type V = GenV;

    open spec fn deep_view(&self) -> GenV {
        GenV {
            gen: self.gen,
            pg: self.pg.deep_view(),
            qg: self.qg.deep_view(),
            qmax: self.qmax.deep_view(),
            qmin: self.qmin.deep_view(),
            vg: self.vg.deep_view(),
            mbase: self.mbase.deep_view(),
            gen_status: self.gen_status,
            pmax: self.pmax.deep_view(),
            pmin: self.pmin.deep_view(),
            pc1: self.pc1.deep_view(),
            pc2: self.pc2.deep_view(),
            qc1min: self.qc1min.deep_view(),
            qc1max: self.qc1max.deep_view(),
            qc2min: self.qc2min.deep_view(),
            qc2max: self.qc2max.deep_view(),
            ramp_agc: self.ramp_agc.deep_view(),
            ramp_10: self.ramp_10.deep_view(),
            ramp_30: self.ramp_30.deep_view(),
            ramp_q: self.ramp_q.deep_view(),
            apf: self.apf.deep_view(),
            mu_pmax: self.mu_pmax.deep_view(),
            mu_pmin: self.mu_pmin.deep_view(),
            mu_qmax: self.mu_qmax.deep_view(),
            mu_qmin: self.mu_qmin.deep_view(),
        }
    }
}

/// A generator row: the attached bus, six output and rating values, the
/// status, thirteen limit and ramp values, up to four optional multipliers,
/// then the terminator.
#[verifier::opaque]
pub open spec fn spec_gen(t: Seq<char>) -> Result<(GenV, int), SErr> {
    match spec_ws_uint(t) {
        Err(e) => Err(spec_push_ctx(e, Ctx::GenRow)),
        Ok((gen, o1)) => match spec_floats_n(t.skip(o1), 6) {
            Err(e) => Err(spec_push_ctx(spec_shift(e, o1), Ctx::GenRow)),
            Ok((fs1, c2)) => {
                let o2 = o1 + c2;
                match spec_ws_uint(t.skip(o2)) {
                    Err(e) => Err(spec_push_ctx(spec_shift(e, o2), Ctx::GenRow)),
                    Ok((status, c3)) => {
                        let o3 = o2 + c3;
                        match spec_floats_n(t.skip(o3), 13) {
                            Err(e) => Err(spec_push_ctx(spec_shift(e, o3), Ctx::GenRow)),
                            Ok((fs2, c4)) => {
                                let o4 = o3 + c4;
                                let op = spec_opts_n(t.skip(o4), 4);
                                let o5 = o4 + op.1;
                                match spec_row_term(t.skip(o5)) {
                                    Err(e) => Err(spec_push_ctx(spec_shift(e, o5), Ctx::GenRow)),
                                    Ok(c6) => Ok(
                                        (
                                            GenV {
                                                gen,
                                                pg: fs1[0],
                                                qg: fs1[1],
                                                qmax: fs1[2],
                                                qmin: fs1[3],
                                                vg: fs1[4],
                                                mbase: fs1[5],
                                                gen_status: status,
                                                pmax: fs2[0],
                                                pmin: fs2[1],
                                                pc1: fs2[2],
                                                pc2: fs2[3],
                                                qc1min: fs2[4],
                                                qc1max: fs2[5],
                                                qc2min: fs2[6],
                                                qc2max: fs2[7],
                                                ramp_agc: fs2[8],
                                                ramp_10: fs2[9],
                                                ramp_30: fs2[10],
                                                ramp_q: fs2[11],
                                                apf: fs2[12],
                                                mu_pmax: op.0[0],
                                                mu_pmin: op.0[1],
                                                mu_qmax: op.0[2],
                                                mu_qmin: op.0[3],
                                            },
                                            o5 + c6,
                                        ),
                                    ),
                                }
                            },
                        }
                    },
                }
            },
        },
    }
}

/// Parses one generator row.
#[verifier::rlimit(100)]
pub fn gen(s: &[char], pos: usize) -> (r: Result<(Gen, usize), ParseErr>)
    requires
        pos <= s@.len(),
    ensures
        step_matches(r, spec_gen(s@.skip(pos as int)), pos as int),
        r matches Ok(x) ==> pos < x.1 <= s@.len(),
        r matches Err(e) ==> pos <= e.pos <= s@.len(),
{
    proof {
        reveal(spec_gen);
    }
    let ghost t = s@.skip(pos as int);
    let (g, p1) = match field_uint(s, pos, Ctx::GenRow) {
        Ok(x) => x,
        Err(e) => {
            return Err(e);
        },
    };
    proof {
        assert(s@.skip(p1 as int) =~= t.skip(p1 - pos));
    }
    let (mut fs1, p2) = match floats_n(s, p1, 6) {
        Ok(x) => x,
        Err(e) => {
            return Err(crate::diag::push_ctx(e, Ctx::GenRow));
        },
    };
    proof {
        assert(s@.skip(p2 as int) =~= t.skip(p2 - pos));
    }
    let (status, p3) = match field_uint(s, p2, Ctx::GenRow) {
        Ok(x) => x,
        Err(e) => {
            return Err(e);
        },
    };
    proof {
        assert(s@.skip(p3 as int) =~= t.skip(p3 - pos));
    }
    let (mut fs2, p4) = match floats_n(s, p3, 13) {
        Ok(x) => x,
        Err(e) => {
            return Err(crate::diag::push_ctx(e, Ctx::GenRow));
        },
    };
    proof {
        assert(s@.skip(p4 as int) =~= t.skip(p4 - pos));
    }
    let (mut ops, p5) = opts_n(s, p4, 4);
    proof {
        assert(s@.skip(p5 as int) =~= t.skip(p5 - pos));
    }
    let p6 = match field_term(s, p5, Ctx::GenRow) {
        Ok(x) => x,
        Err(e) => {
            return Err(e);
        },
    };
    let mbase = fs1.pop().unwrap();
    let vg = fs1.pop().unwrap();
    let qmin = fs1.pop().unwrap();
    let qmax = fs1.pop().unwrap();
    let qg = fs1.pop().unwrap();
    let pg = fs1.pop().unwrap();
    let apf = fs2.pop().unwrap();
    let ramp_q = fs2.pop().unwrap();
    let ramp_30 = fs2.pop().unwrap();
    let ramp_10 = fs2.pop().unwrap();
    let ramp_agc = fs2.pop().unwrap();
    let qc2max = fs2.pop().unwrap();
    let qc2min = fs2.pop().unwrap();
    let qc1max = fs2.pop().unwrap();
    let qc1min = fs2.pop().unwrap();
    let pc2 = fs2.pop().unwrap();
    let pc1 = fs2.pop().unwrap();
    let pmin = fs2.pop().unwrap();
    let pmax = fs2.pop().unwrap();
    let mu_qmin = ops.pop().unwrap();
    let mu_qmax = ops.pop().unwrap();
    let mu_pmin = ops.pop().unwrap();
    let mu_pmax = ops.pop().unwrap();
    let v = Gen {
        gen: g,
        pg,
        qg,
        qmax,
        qmin,
        vg,
        mbase,
        gen_status: status,
        pmax,
        pmin,
        pc1,
        pc2,
        qc1min,
        qc1max,
        qc2min,
        qc2max,
        ramp_agc,
        ramp_10,
        ramp_30,
        ramp_q,
        apf,
        mu_pmax,
        mu_pmin,
        mu_qmax,
        mu_qmin,
    };
    Ok((v, p6))
}

// ---------------------------------------------------------------------------
// Branch rows
// ---------------------------------------------------------------------------
/// A transmission line or transformer: thirteen mandatory fields and eight
/// optional flow and multiplier fields. The endpoint bus numbers follow the
/// float grammar, as in the source format.
#[derive(Debug, Clone, PartialEq)]
pub struct Branch {
    pub f_bus: Float,
    pub t_bus: Float,
    pub br_r: Float,
    pub br_x: Float,
    pub br_b: Float,
    pub rate_a: Float,
    pub rate_b: Float,
    pub rate_c: Float,
    pub tap: Float,
    pub shift: Float,
    pub br_status: Float,
    pub angmin: Float,
    pub angmax: Float,
    pub pf: Option<Float>,
    pub qf: Option<Float>,
    pub pt: Option<Float>,
    pub qt: Option<Float>,
    pub mu_sf: Option<Float>,
    pub mu_st: Option<Float>,
    pub mu_angmin: Option<Float>,
    pub mu_angmax: Option<Float>,
}

pub ghost struct BranchV {
    pub f_bus: FloatV,
    pub t_bus: FloatV,
    pub br_r: FloatV,
    pub br_x: FloatV,
    pub br_b: FloatV,
    pub rate_a: FloatV,
    pub rate_b: FloatV,
    pub rate_c: FloatV,
    pub tap: FloatV,
    pub shift: FloatV,
    pub br_status: FloatV,
    pub angmin: FloatV,
    pub angmax: FloatV,
    pub pf: Option<FloatV>,
    pub qf: Option<FloatV>,
    pub pt: Option<FloatV>,
    pub qt: Option<FloatV>,
    pub mu_sf: Option<FloatV>,
    pub mu_st: Option<FloatV>,
    pub mu_angmin: Option<FloatV>,
    pub mu_angmax: Option<FloatV>,
}

impl DeepView for Branch {
    type V = BranchV;

    open spec fn deep_view(&self) -> BranchV {
        BranchV {
            f_bus: self.f_bus.deep_view(),
            t_bus: self.t_bus.deep_view(),
            br_r: self.br_r.deep_view(),
            br_x: self.br_x.deep_view(),
            br_b: self.br_b.deep_view(),
            rate_a: self.rate_a.deep_view(),
            rate_b: self.rate_b.deep_view(),
            rate_c: self.rate_c.deep_view(),
            tap: self.tap.deep_view(),
            shift: self.shift.deep_view(),
            br_status: self.br_status.deep_view(),
            angmin: self.angmin.deep_view(),
            angmax: self.angmax.deep_view(),
            pf: self.pf.deep_view(),
            qf: self.qf.deep_view(),
            pt: self.pt.deep_view(),
            qt: self.qt.deep_view(),
            mu_sf: self.mu_sf.deep_view(),
            mu_st: self.mu_st.deep_view(),
            mu_angmin: self.mu_angmin.deep_view(),
            mu_angmax: self.mu_angmax.deep_view(),
        }
    }
}

/// A branch row: thirteen mandatory values, up to eight optional ones, then
/// the terminator.
#[verifier::opaque]
pub open spec fn spec_branch(t: Seq<char>) -> Result<(BranchV, int), SErr> {
    match spec_floats_n(t, 13) {
        Err(e) => Err(spec_push_ctx(e, Ctx::BranchRow)),
        Ok((fs, c1)) => {
            let op = spec_opts_n(t.skip(c1), 8);
            let o2 = c1 + op.1;
            match spec_row_term(t.skip(o2)) {
                Err(e) => Err(spec_push_ctx(spec_shift(e, o2), Ctx::BranchRow)),
                Ok(c3) => Ok(
                    (
                        BranchV {
                            f_bus: fs[0],
                            t_bus: fs[1],
                            br_r: fs[2],
                            br_x: fs[3],
                            br_b: fs[4],
                            rate_a: fs[5],
                            rate_b: fs[6],
                            rate_c: fs[7],
                            tap: fs[8],
                            shift: fs[9],
                            br_status: fs[10],
                            angmin: fs[11],
                            angmax: fs[12],
                            pf: op.0[0],
                            qf: op.0[1],
                            pt: op.0[2],
                            qt: op.0[3],
                            mu_sf: op.0[4],
                            mu_st: op.0[5],
                            mu_angmin: op.0[6],
                            mu_angmax: op.0[7],
                        },
                        o2 + c3,
                    ),
                ),
            }
        },
    }
}

/// Parses one branch row.
#[verifier::rlimit(100)]
pub fn branch(s: &[char], pos: usize) -> (r: Result<(Branch, usize), ParseErr>)
    requires
        pos <= s@.len(),
    ensures
        step_matches(r, spec_branch(s@.skip(pos as int)), pos as int),
        r matches Ok(x) ==> pos < x.1 <= s@.len(),
        r matches Err(e) ==> pos <= e.pos <= s@.len(),
{
    proof {
        reveal(spec_branch);
    }
    let ghost t = s@.skip(pos as int);
    let (mut fs, p1) = match floats_n(s, pos, 13) {
        Ok(x) => x,
        Err(e) => {
            return Err(crate::diag::push_ctx(e, Ctx::BranchRow));
        },
    };
    proof {
        assert(s@.skip(p1 as int) =~= t.skip(p1 - pos));
    }
    let (mut ops, p2) = opts_n(s, p1, 8);
    proof {
        assert(s@.skip(p2 as int) =~= t.skip(p2 - pos));
    }
    let p3 = match field_term(s, p2, Ctx::BranchRow) {
        Ok(x) => x,
        Err(e) => {
            return Err(e);
        },
    };
    let angmax = fs.pop().unwrap();
    let angmin = fs.pop().unwrap();
    let br_status = fs.pop().unwrap();
    let shift = fs.pop().unwrap();
    let tap = fs.pop().unwrap();
    let rate_c = fs.pop().unwrap();
    let rate_b = fs.pop().unwrap();
    let rate_a = fs.pop().unwrap();
    let br_b = fs.pop().unwrap();
    let br_x = fs.pop().unwrap();
    let br_r = fs.pop().unwrap();
    let t_bus = fs.pop().unwrap();
    let f_bus = fs.pop().unwrap();
    let mu_angmax = ops.pop().unwrap();
    let mu_angmin = ops.pop().unwrap();
    let mu_st = ops.pop().unwrap();
    let mu_sf = ops.pop().unwrap();
    let qt = ops.pop().unwrap();
    let pt = ops.pop().unwrap();
    let qf = ops.pop().unwrap();
    let pf = ops.pop().unwrap();
    let v = Branch {
        f_bus,
        t_bus,
        br_r,
        br_x,
        br_b,
        rate_a,
        rate_b,
        rate_c,
        tap,
        shift,
        br_status,
        angmin,
        angmax,
        pf,
        qf,
        pt,
        qt,
        mu_sf,
        mu_st,
        mu_angmin,
        mu_angmax,
    };
    Ok((v, p3))
}

// ---------------------------------------------------------------------------
// DC line rows
// ---------------------------------------------------------------------------
/// A high-voltage DC line: seventeen mandatory fields and six optional
/// multipliers.
#[derive(Debug, Clone, PartialEq)]
pub struct DcLine {
    pub f_bus: usize,
    pub t_bus: usize,
    pub br_status: ServiceStatus,
    pub pf: Float,
    pub pt: Float,
    pub qf: Float,
    pub qt: Float,
    pub vf: Float,
    pub vt: Float,
    pub pmin: Float,
    pub pmax: Float,
    pub qminf: Float,
    pub qmaxf: Float,
    pub qmint: Float,
    pub qmaxt: Float,
    pub loss0: Float,
    pub loss1: Float,
    pub mu_pmin: Option<Float>,
    pub mu_pmax: Option<Float>,
    pub mu_qminf: Option<Float>,
    pub mu_qmaxf: Option<Float>,
    pub mu_qmint: Option<Float>,
    pub mu_qmaxt: Option<Float>,
}

pub ghost struct DcLineV {
    pub f_bus: usize,
    pub t_bus: usize,
    pub br_status: ServiceStatus,
    pub pf: FloatV,
    pub pt: FloatV,
    pub qf: FloatV,
    pub qt: FloatV,
    pub vf: FloatV,
    pub vt: FloatV,
    pub pmin: FloatV,
    pub pmax: FloatV,
    pub qminf: FloatV,
    pub qmaxf: FloatV,
    pub qmint: FloatV,
    pub qmaxt: FloatV,
    pub loss0: FloatV,
    pub loss1: FloatV,
    pub mu_pmin: Option<FloatV>,
    pub mu_pmax: Option<FloatV>,
    pub mu_qminf: Option<FloatV>,
    pub mu_qmaxf: Option<FloatV>,
    pub mu_qmint: Option<FloatV>,
    pub mu_qmaxt: Option<FloatV>,
}

impl DeepView for DcLine {
    type V = DcLineV;

    open spec fn deep_view(&self) -> DcLineV {
        DcLineV {
            f_bus: self.f_bus,
            t_bus: self.t_bus,
            br_status: self.br_status,
            pf: self.pf.deep_view(),
            pt: self.pt.deep_view(),
            qf: self.qf.deep_view(),
            qt: self.qt.deep_view(),
            vf: self.vf.deep_view(),
            vt: self.vt.deep_view(),
            pmin: self.pmin.deep_view(),
            pmax: self.pmax.deep_view(),
            qminf: self.qminf.deep_view(),
            qmaxf: self.qmaxf.deep_view(),
            qmint: self.qmint.deep_view(),
            qmaxt: self.qmaxt.deep_view(),
            loss0: self.loss0.deep_view(),
            loss1: self.loss1.deep_view(),
            mu_pmin: self.mu_pmin.deep_view(),
            mu_pmax: self.mu_pmax.deep_view(),
            mu_qminf: self.mu_qminf.deep_view(),
            mu_qmaxf: self.mu_qmaxf.deep_view(),
            mu_qmint: self.mu_qmint.deep_view(),
            mu_qmaxt: self.mu_qmaxt.deep_view(),
        }
    }
}

/// A DC line row: the two endpoints, the service status, fourteen flow and
/// limit values, up to six optional multipliers, then the terminator.
#[verifier::opaque]
pub open spec fn spec_dcline(t: Seq<char>) -> Result<(DcLineV, int), SErr> {
    match spec_ws_uint(t) {
        Err(e) => Err(spec_push_ctx(e, Ctx::DcLineRow)),
        Ok((fb, o1)) => match spec_ws_uint(t.skip(o1)) {
            Err(e) => Err(spec_push_ctx(spec_shift(e, o1), Ctx::DcLineRow)),
            Ok((tb, c2)) => {
                let o2 = o1 + c2;
                match spec_ws_service_status(t.skip(o2)) {
                    Err(e) => Err(spec_push_ctx(spec_shift(e, o2), Ctx::DcLineRow)),
                    Ok((st, c3)) => {
                        let o3 = o2 + c3;
                        match spec_floats_n(t.skip(o3), 14) {
                            Err(e) => Err(spec_push_ctx(spec_shift(e, o3), Ctx::DcLineRow)),
                            Ok((fs, c4)) => {
                                let o4 = o3 + c4;
                                let op = spec_opts_n(t.skip(o4), 6);
                                let o5 = o4 + op.1;
                                match spec_row_term(t.skip(o5)) {
                                    Err(e) => Err(
                                        spec_push_ctx(spec_shift(e, o5), Ctx::DcLineRow),
                                    ),
                                    Ok(c6) => Ok(
                                        (
                                            DcLineV {
                                                f_bus: fb,
                                                t_bus: tb,
                                                br_status: st,
                                                pf: fs[0],
                                                pt: fs[1],
                                                qf: fs[2],
                                                qt: fs[3],
                                                vf: fs[4],
                                                vt: fs[5],
                                                pmin: fs[6],
                                                pmax: fs[7],
                                                qminf: fs[8],
                                                qmaxf: fs[9],
                                                qmint: fs[10],
                                                qmaxt: fs[11],
                                                loss0: fs[12],
                                                loss1: fs[13],
                                                mu_pmin: op.0[0],
                                                mu_pmax: op.0[1],
                                                mu_qminf: op.0[2],
                                                mu_qmaxf: op.0[3],
                                                mu_qmint: op.0[4],
                                                mu_qmaxt: op.0[5],
                                            },
                                            o5 + c6,
                                        ),
                                    ),
                                }
                            },
                        }
                    },
                }
            },
        },
    }
}

/// Parses one DC line row.
#[verifier::rlimit(100)]
pub fn dcline(s: &[char], pos: usize) -> (r: Result<(DcLine, usize), ParseErr>)
    requires
        pos <= s@.len(),
    ensures
        step_matches(r, spec_dcline(s@.skip(pos as int)), pos as int),
        r matches Ok(x) ==> pos < x.1 <= s@.len(),
        r matches Err(e) ==> pos <= e.pos <= s@.len(),
{
    proof {
        reveal(spec_dcline);
    }
    let ghost t = s@.skip(pos as int);
    let (fb, p1) = match field_uint(s, pos, Ctx::DcLineRow) {
        Ok(x) => x,
        Err(e) => {
            return Err(e);
        },
    };
    proof {
        assert(s@.skip(p1 as int) =~= t.skip(p1 - pos));
    }
    let (tb, p2) = match field_uint(s, p1, Ctx::DcLineRow) {
        Ok(x) => x,
        Err(e) => {
            return Err(e);
        },
    };
    proof {
        assert(s@.skip(p2 as int) =~= t.skip(p2 - pos));
    }
    let (st, p3) = match field_service_status(s, p2, Ctx::DcLineRow) {
        Ok(x) => x,
        Err(e) => {
            return Err(e);
        },
    };
    proof {
        assert(s@.skip(p3 as int) =~= t.skip(p3 - pos));
    }
    let (mut fs, p4) = match floats_n(s, p3, 14) {
        Ok(x) => x,
        Err(e) => {
            return Err(crate::diag::push_ctx(e, Ctx::DcLineRow));
        },
    };
    proof {
        assert(s@.skip(p4 as int) =~= t.skip(p4 - pos));
    }
    let (mut ops, p5) = opts_n(s, p4, 6);
    proof {
        assert(s@.skip(p5 as int) =~= t.skip(p5 - pos));
    }
    let p6 = match field_term(s, p5, Ctx::DcLineRow) {
        Ok(x) => x,
        Err(e) => {
            return Err(e);
        },
    };
    let loss1 = fs.pop().unwrap();
    let loss0 = fs.pop().unwrap();
    let qmaxt = fs.pop().unwrap();
    let qmint = fs.pop().unwrap();
    let qmaxf = fs.pop().unwrap();
    let qminf = fs.pop().unwrap();
    let pmax = fs.pop().unwrap();
    let pmin = fs.pop().unwrap();
    let vt = fs.pop().unwrap();
    let vf = fs.pop().unwrap();
    let qt = fs.pop().unwrap();
    let qf = fs.pop().unwrap();
    let pt = fs.pop().unwrap();
    let pf = fs.pop().unwrap();
    let mu_qmaxt = ops.pop().unwrap();
    let mu_qmint = ops.pop().unwrap();
    let mu_qmaxf = ops.pop().unwrap();
    let mu_qminf = ops.pop().unwrap();
    let mu_pmax = ops.pop().unwrap();
    let mu_pmin = ops.pop().unwrap();
    let v = DcLine {
        f_bus: fb,
        t_bus: tb,
        br_status: st,
        pf,
        pt,
        qf,
        qt,
        vf,
        vt,
        pmin,
        pmax,
        qminf,
        qmaxf,
        qmint,
        qmaxt,
        loss0,
        loss1,
        mu_pmin,
        mu_pmax,
        mu_qminf,
        mu_qmaxf,
        mu_qmint,
        mu_qmaxt,
    };
    Ok((v, p6))
}

// ---------------------------------------------------------------------------
// Generator cost rows
// ---------------------------------------------------------------------------
/// A generator cost record. The length of `cost` is tied to `ncost` by the
/// model: `ncost` coefficients for a polynomial, `2 * ncost` endpoint
/// coordinates for a piecewise-linear curve.
#[derive(Debug, Clone, PartialEq)]
pub struct GenCost {
    pub model: CostModel,
    pub startup: Float,
    pub shutdown: Float,
    pub ncost: usize,
    pub cost: Vec<Float>,
}

pub ghost struct GenCostV {
    pub model: CostModel,
    pub startup: FloatV,
    pub shutdown: FloatV,
    pub ncost: usize,
    pub cost: Seq<FloatV>,
}

impl GenCostV {
    /// The model-dependent length invariant every parsed record satisfies.
    pub open spec fn wf(self) -> bool {
        match self.model {
            CostModel::Polynomial => self.cost.len() == self.ncost as int,
            CostModel::PiecewiseLinear => self.cost.len() == 2 * (self.ncost as int),
        }
    }
}

impl DeepView for GenCost {
    type V = GenCostV;

    open spec fn deep_view(&self) -> GenCostV {
        GenCostV {
            model: self.model,
            startup: self.startup.deep_view(),
            shutdown: self.shutdown.deep_view(),
            ncost: self.ncost,
            cost: self.cost.deep_view(),
        }
    }
}

/// The cost coefficients after the first: each one more float preceded by a
/// single tab or space; the run ends where that pattern stops.
pub open spec fn spec_cost_more(t: Seq<char>) -> (Seq<FloatV>, int)
    decreases t.len(),
{
    if t.len() > 0 && (t[0] == '\t' || t[0] == ' ') {
        match spec_float(t.skip(1)) {
            Ok((v, c)) => if 0 < 1 + c <= t.len() {
                let m = spec_cost_more(t.skip(1 + c));
                (seq![v] + m.0, 1 + c + m.1)
            } else {
                (Seq::<FloatV>::empty(), 0)
            },
            Err(_) => (Seq::<FloatV>::empty(), 0),
        }
    } else {
        (Seq::<FloatV>::empty(), 0)
    }
}

/// One or more cost coefficients, separated by a single tab or space.
pub open spec fn spec_cost_list(t: Seq<char>) -> Result<(Seq<FloatV>, int), SErr> {
    match spec_float(t) {
        Err(e) => Err(e),
        Ok((v, c)) => {
            let m = spec_cost_more(t.skip(c));
            Ok((seq![v] + m.0, c + m.1))
        },
    }
}

fn cost_more(s: &[char], pos: usize) -> (r: (Vec<Float>, usize))
    requires
        pos <= s@.len(),
    ensures
        r.0.deep_view() == spec_cost_more(s@.skip(pos as int)).0,
        r.1 as int == pos + spec_cost_more(s@.skip(pos as int)).1,
        pos <= r.1 <= s@.len(),
    decreases s@.len() - pos,
{
    let ghost t = s@.skip(pos as int);
    proof {
        assert(t.len() > 0 ==> t[0] == s@[pos as int]);
    }
    if pos < s.len() && (s[pos] == '\t' || s[pos] == ' ') {
        proof {
            assert(s@.skip(pos + 1) =~= t.skip(1));
        }
        match float(s, pos + 1) {
            Ok((v, p1)) => {
                proof {
                    assert(s@.skip(p1 as int) =~= t.skip(p1 - pos));
                }
                let (mut rest, p2) = cost_more(s, p1);
                let ghost rd = rest.deep_view();
                let mut out: Vec<Float> = Vec::new();
                out.push(v);
                out.append(&mut rest);
                proof {
                    assert(out.deep_view() =~= seq![v.deep_view()] + rd);
                }
                (out, p2)
            },
            Err(_) => {
                let v: Vec<Float> = Vec::new();
                proof {
                    assert(v.deep_view() =~= Seq::<FloatV>::empty());
                }
                (v, pos)
            },
        }
    } else {
        let v: Vec<Float> = Vec::new();
        proof {
            assert(v.deep_view() =~= Seq::<FloatV>::empty());
        }
        (v, pos)
    }
}

fn cost_list(s: &[char], pos: usize) -> (r: Result<(Vec<Float>, usize), ParseErr>)
    requires
        pos <= s@.len(),
    ensures
        match spec_cost_list(s@.skip(pos as int)) {
            Ok(sv) => r matches Ok(x) && x.0.deep_view() == sv.0 && x.1 as int == pos + sv.1,
            Err(se) => r matches Err(e) && err_matches(e, se, pos as int),
        },
        r matches Ok(x) ==> pos < x.1 <= s@.len(),
        r matches Err(e) ==> pos <= e.pos <= s@.len(),
{
    let ghost t = s@.skip(pos as int);
    match float(s, pos) {
        Err(e) => Err(e),
        Ok((v, p1)) => {
            proof {
                assert(s@.skip(p1 as int) =~= t.skip(p1 - pos));
            }
            let (mut rest, p2) = cost_more(s, p1);
            let ghost rd = rest.deep_view();
            let mut out: Vec<Float> = Vec::new();
            out.push(v);
            out.append(&mut rest);
            proof {
                assert(out.deep_view() =~= seq![v.deep_view()] + rd);
            }
            Ok((out, p2))
        },
    }
}

/// A generator cost row: the model, startup and shutdown costs, the count
/// `ncost`, the coefficient list and the terminator; a list whose length
/// disagrees with the model is rejected.
#[verifier::opaque]
pub open spec fn spec_gen_cost(t: Seq<char>) -> Result<(GenCostV, int), SErr> {
    match spec_ws_cost_model(t) {
        Err(e) => Err(spec_push_ctx(e, Ctx::GenCostRow)),
        Ok((model, o1)) => match spec_floats_n(t.skip(o1), 2) {
            Err(e) => Err(spec_push_ctx(spec_shift(e, o1), Ctx::GenCostRow)),
            Ok((ss, c2)) => {
                let o2 = o1 + c2;
                match spec_ws_uint(t.skip(o2)) {
                    Err(e) => Err(spec_push_ctx(spec_shift(e, o2), Ctx::GenCostRow)),
                    Ok((n, c3)) => {
                        let o3 = o2 + c3;
                        match spec_cost_list(t.skip(o3)) {
                            Err(e) => Err(spec_push_ctx(spec_shift(e, o3), Ctx::GenCostRow)),
                            Ok((cost, c4)) => {
                                let o4 = o3 + c4;
                                match spec_row_term(t.skip(o4)) {
                                    Err(e) => Err(
                                        spec_push_ctx(spec_shift(e, o4), Ctx::GenCostRow),
                                    ),
                                    Ok(c5) => if (model == CostModel::Polynomial && cost.len()
                                        == n as int) || (model == CostModel::PiecewiseLinear
                                        && cost.len() == 2 * (n as int)) {
                                        Ok(
                                            (
                                                GenCostV {
                                                    model,
                                                    startup: ss[0],
                                                    shutdown: ss[1],
                                                    ncost: n,
                                                    cost,
                                                },
                                                o4 + c5,
                                            ),
                                        )
                                    } else {
                                        Err(
                                            SErr {
                                                pos: 0,
                                                expected: None,
                                                contexts: seq![Ctx::GenCostRow],
                                            },
                                        )
                                    },
                                }
                            },
                        }
                    },
                }
            },
        },
    }
}

/// Parses one generator cost row.
#[verifier::rlimit(100)]
pub fn gen_cost(s: &[char], pos: usize) -> (r: Result<(GenCost, usize), ParseErr>)
    requires
        pos <= s@.len(),
    ensures
        step_matches(r, spec_gen_cost(s@.skip(pos as int)), pos as int),
        r matches Ok(x) ==> pos < x.1 <= s@.len() && x.0.deep_view().wf(),
        r matches Err(e) ==> pos <= e.pos <= s@.len(),
{
    proof {
        reveal(spec_gen_cost);
    }
    let ghost t = s@.skip(pos as int);
    let (model, p1) = match field_cost_model(s, pos, Ctx::GenCostRow) {
        Ok(x) => x,
        Err(e) => {
            return Err(e);
        },
    };
    proof {
        assert(s@.skip(p1 as int) =~= t.skip(p1 - pos));
    }
    let (mut ss, p2) = match floats_n(s, p1, 2) {
        Ok(x) => x,
        Err(e) => {
            return Err(crate::diag::push_ctx(e, Ctx::GenCostRow));
        },
    };
    proof {
        assert(s@.skip(p2 as int) =~= t.skip(p2 - pos));
    }
    let (n, p3) = match field_uint(s, p2, Ctx::GenCostRow) {
        Ok(x) => x,
        Err(e) => {
            return Err(e);
        },
    };
    proof {
        assert(s@.skip(p3 as int) =~= t.skip(p3 - pos));
    }
    let (cost, p4) = match cost_list(s, p3) {
        Ok(x) => x,
        Err(e) => {
            return Err(crate::diag::push_ctx(e, Ctx::GenCostRow));
        },
    };
    proof {
        assert(s@.skip(p4 as int) =~= t.skip(p4 - pos));
    }
    let p5 = match field_term(s, p4, Ctx::GenCostRow) {
        Ok(x) => x,
        Err(e) => {
            return Err(e);
        },
    };
    let len_ok = match model {
        CostModel::Polynomial => cost.len() == n,
        CostModel::PiecewiseLinear => n <= cost.len() && cost.len() - n == n,
    };
    if !len_ok {
        let e = ParseErr { pos, expected: None, contexts: vec![Ctx::GenCostRow] };
        proof {
            assert(e.contexts@ =~= seq![Ctx::GenCostRow]);
        }
        return Err(e);
    }
    let shutdown = ss.pop().unwrap();
    let startup = ss.pop().unwrap();
    let v = GenCost { model, startup, shutdown, ncost: n, cost };
    Ok((v, p5))
}

} // verus!
