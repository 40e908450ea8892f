use matpower::lex::{float, string, uint};
use matpower::number::Float;
use matpower::records::{
    bus, bus_type, branch, cost_model, dcline, gen, gen_cost, service_status, version, Branch,
    Bus, BusType, CostModel, DcLine, Gen, GenCost, ServiceStatus, Version,
};
use matpower::sections::{get_busname, get_name};

fn cs(s: &str) -> Vec<char> {
    s.chars().collect()
}

fn num(neg: bool, digits: Vec<u8>, exp: i64) -> Float {
    Float::decimal(neg, digits, exp)
}

fn zero() -> Float {
    Float::decimal(false, vec![0], 0)
}

#[test]
fn test_usize() {
    assert_eq!(uint(&cs("020"), 0).unwrap().0, 20);
}

#[test]
fn test_float() {
    let neg360 = num(true, vec![3, 6, 0], 0);
    assert_eq!(float(&cs("-360.0"), 0).unwrap().0, neg360);
    assert_eq!(float(&cs("-360"), 0).unwrap().0, num(true, vec![3, 6, 0], 0));
    assert_eq!(float(&cs(".02"), 0).unwrap().0, num(false, vec![2], -2));
    assert_eq!(float(&cs("1.0"), 0).unwrap().0, num(false, vec![1], 0));
    assert_eq!(float(&cs("1"), 0).unwrap().0, num(false, vec![1], 0));
    assert_eq!(float(&cs("42.32e32"), 0).unwrap().0, num(false, vec![4, 2, 3, 2], 30));
    assert_eq!(float(&cs("Inf"), 0).unwrap().0, Float::Inf { neg: false });
    assert_eq!(float(&cs("-Inf"), 0).unwrap().0, Float::Inf { neg: true });
}

#[test]
fn test_string() {
    assert_eq!(string(&cs("'WHuntngd V2'"), 0).unwrap().0, "WHuntngd V2");
    assert!(string(&cs(""), 0).is_err());
    assert!(string(&cs("abs"), 0).is_err());
}

#[test]
fn test_bus_type() {
    assert_eq!(bus_type(&cs("1"), 0).unwrap().0, BusType::PQ);
    assert_eq!(bus_type(&cs("2"), 0).unwrap().0, BusType::PV);
    assert_eq!(bus_type(&cs("3"), 0).unwrap().0, BusType::Ref);
    assert_eq!(bus_type(&cs("4"), 0).unwrap().0, BusType::Isolated);
    assert!(bus_type(&cs("5"), 0).is_err());
}

#[test]
fn test_bus() {
    let row = cs("\t1\t2\t51\t27\t0\t0\t1\t0.955\t10.67\t138\t1\t1.06\t0.94;");
    assert_eq!(bus(&row, 0).unwrap().0, Bus {
        idx: 1,
        bus_type: BusType::PV,
        pd: num(false, vec![5, 1], 0),
        qd: num(false, vec![2, 7], 0),
        shunt_conductance: zero(),
        shunt_susceptance: zero(),
        area: 1,
        voltage_mag: num(false, vec![9, 5, 5], -3),
        voltage_ang: num(false, vec![1, 0, 6, 7], -2),
        base_kv: num(false, vec![1, 3, 8], 0),
        zone: 1,
        v_max: num(false, vec![1, 0, 6], -2),
        v_min: num(false, vec![9, 4], -2),
        lam_p: None,
        lam_q: None,
        mu_vmax: None,
        mu_vmin: None,
    });
}

#[test]
fn test_gen() {
    let row = cs("\t1\t0\t0\t15\t-5\t0.955\t100\t1\t100\t0\t0\t0\t0\t0\t0\t0\t0\t0\t0\t0\t0;");
    assert_eq!(gen(&row, 0).unwrap().0, Gen {
        gen: 1,
        pg: zero(),
        qg: zero(),
        qmax: num(false, vec![1, 5], 0),
        qmin: num(true, vec![5], 0),
        vg: num(false, vec![9, 5, 5], -3),
        mbase: num(false, vec![1, 0, 0], 0),
        gen_status: 1,
        pmax: num(false, vec![1, 0, 0], 0),
        pmin: zero(),
        pc1: zero(),
        pc2: zero(),
        qc1min: zero(),
        qc1max: zero(),
        qc2min: zero(),
        qc2max: zero(),
        ramp_agc: zero(),
        ramp_10: zero(),
        ramp_30: zero(),
        ramp_q: zero(),
        apf: zero(),
        mu_pmax: None,
        mu_pmin: None,
        mu_qmax: None,
        mu_qmin: None,
    });
}

#[test]
fn test_branch() {
    let row = cs("\t1\t2\t0.0303\t0.0999\t0.0254\t0\t0\t0\t0\t0\t1\t-360\t360;");
    assert_eq!(branch(&row, 0).unwrap().0, Branch {
        f_bus: num(false, vec![1], 0),
        t_bus: num(false, vec![2], 0),
        br_r: num(false, vec![3, 0, 3], -4),
        br_x: num(false, vec![9, 9, 9], -4),
        br_b: num(false, vec![2, 5, 4], -4),
        rate_a: zero(),
        rate_b: zero(),
        rate_c: zero(),
        tap: zero(),
        shift: zero(),
        br_status: num(false, vec![1], 0),
        angmin: num(true, vec![3, 6, 0], 0),
        angmax: num(false, vec![3, 6, 0], 0),
        pf: None,
        qf: None,
        pt: None,
        qt: None,
        mu_sf: None,
        mu_st: None,
        mu_angmin: None,
        mu_angmax: None,
    });
}

#[test]
fn test_cost_model() {
    assert_eq!(cost_model(&cs("1"), 0).unwrap().0, CostModel::PiecewiseLinear);
    assert_eq!(cost_model(&cs("2"), 0).unwrap().0, CostModel::Polynomial);
    assert!(cost_model(&cs("5"), 0).is_err());
}

#[test]
fn test_gen_cost() {
    let row = cs("\t2\t0\t0\t3\t0.025\t16.242\t880.2;");
    assert_eq!(gen_cost(&row, 0).unwrap().0, GenCost {
        model: CostModel::Polynomial,
        startup: zero(),
        shutdown: zero(),
        ncost: 3,
        cost: vec![
            num(false, vec![2, 5], -3),
            num(false, vec![1, 6, 2, 4, 2], -3),
            num(false, vec![8, 8, 0, 2], -1),
        ],
    });
    let row2 = cs("\t1\t0\t0\t2\t0.025\t0.025\t16.242\t880.2;");
    assert_eq!(gen_cost(&row2, 0).unwrap().0, GenCost {
        model: CostModel::PiecewiseLinear,
        startup: zero(),
        shutdown: zero(),
        ncost: 2,
        cost: vec![
            num(false, vec![2, 5], -3),
            num(false, vec![2, 5], -3),
            num(false, vec![1, 6, 2, 4, 2], -3),
            num(false, vec![8, 8, 0, 2], -1),
        ],
    });
}

#[test]
fn test_service_status() {
    assert_eq!(service_status(&cs("0"), 0).unwrap().0, ServiceStatus::OutOfService);
    assert_eq!(service_status(&cs("1"), 0).unwrap().0, ServiceStatus::InService);
    assert!(service_status(&cs("5"), 0).is_err());
}

#[test]
fn test_dcline() {
    let row = cs(
        "\t2060653\t66353\t1\t500\t465.35\t-370.36\t-369.49\t0.96984\t0.92617\t500\t500\t-370.36\t-370.36\t-369.49\t-369.49\t0\t0\t0.0000\t0.0000\t0.0000\t0.0000\t0.0000\t0.0000;",
    );
    assert_eq!(dcline(&row, 0).unwrap().0, DcLine {
        f_bus: 2060653,
        t_bus: 66353,
        br_status: ServiceStatus::InService,
        pf: num(false, vec![5, 0, 0], 0),
        pt: num(false, vec![4, 6, 5, 3, 5], -2),
        qf: num(true, vec![3, 7, 0, 3, 6], -2),
        qt: num(true, vec![3, 6, 9, 4, 9], -2),
        vf: num(false, vec![9, 6, 9, 8, 4], -5),
        vt: num(false, vec![9, 2, 6, 1, 7], -5),
        pmin: num(false, vec![5, 0, 0], 0),
        pmax: num(false, vec![5, 0, 0], 0),
        qminf: num(true, vec![3, 7, 0, 3, 6], -2),
        qmaxf: num(true, vec![3, 7, 0, 3, 6], -2),
        qmint: num(true, vec![3, 6, 9, 4, 9], -2),
        qmaxt: num(true, vec![3, 6, 9, 4, 9], -2),
        loss0: zero(),
        loss1: zero(),
        mu_pmin: Some(zero()),
        mu_pmax: Some(zero()),
        mu_qminf: Some(zero()),
        mu_qmaxf: Some(zero()),
        mu_qmint: Some(zero()),
        mu_qmaxt: Some(zero()),
    });
}

#[test]
fn test_version() {
    assert_eq!(version(&cs("1"), 0).unwrap().0, Version::Version1);
    assert_eq!(version(&cs("2"), 0).unwrap().0, Version::Version2);
    assert_eq!(version(&cs("'1'"), 0).unwrap().0, Version::Version1);
    assert_eq!(version(&cs("'2'"), 0).unwrap().0, Version::Version2);
    assert!(version(&cs("5"), 0).is_err());
}

#[test]
fn test_get_name() {
    assert_eq!(get_name(&cs("function mpc    = case118")).unwrap().0, "case118");
    assert_eq!(
        get_name(&cs("function chgtab = scenarios_ACTIVSg2000")).unwrap().0,
        "scenarios_ACTIVSg2000"
    );
}

#[test]
fn test_get_busname() {
    let data = cs("%% Ignore this line\nmpc.bus_name = {\n\t'Riversde  V2';\n\t'Pokagon   V2';\n  }");
    assert_eq!(get_busname(&data).unwrap().0.len(), 2);
}
