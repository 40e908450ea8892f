use matpower::case::case;
use matpower::lex::{comment, decimal, float, identifier, string, uint};
use matpower::number::Float;
use matpower::records::{gen_cost, BusType, Version};

fn cs(s: &str) -> Vec<char> {
    s.chars().collect()
}

fn num(neg: bool, digits: Vec<u8>, exp: i64) -> Float {
    Float::decimal(neg, digits, exp)
}

const CASE5: &str = "function mpc = case5\n\
mpc.version = '2';\n\
mpc.baseMVA = 100;\n\
mpc.bus = [\n\
1 3 0 0 0 0 1 1.0 0 132 1 1.1 0.9;\n\
];\n\
mpc.gen = [\n\
1 50 20 30 -10 1.0 100 1 100 0 0 0 0 0 0 0 0 0 0 0 0;\n\
];\n\
mpc.branch = [\n\
1 2 0.01 0.05 0 250 250 250 0 0 1 -360 360;\n\
];\n";

#[test]
fn test_case_end_to_end() {
    let c = case(CASE5).unwrap();
    assert_eq!(c.name, "case5");
    assert_eq!(c.version, Version::Version2);
    assert_eq!(c.base_mva, num(false, vec![1, 0, 0], 0));
    assert_eq!(c.bus.len(), 1);
    assert_eq!(c.bus[0].idx, 1);
    assert_eq!(c.bus[0].bus_type, BusType::Ref);
    assert_eq!(c.bus[0].v_max, num(false, vec![1, 1], -1));
    assert_eq!(c.bus[0].v_min, num(false, vec![9], -1));
    assert_eq!(c.gen.len(), 1);
    assert_eq!(c.gen[0].pg, num(false, vec![5, 0], 0));
    assert_eq!(c.gen[0].qg, num(false, vec![2, 0], 0));
    assert_eq!(c.branch.len(), 1);
    assert_eq!(c.branch[0].rate_a, num(false, vec![2, 5, 0], 0));
    assert_eq!(c.branch[0].angmin, num(true, vec![3, 6, 0], 0));
    assert_eq!(c.branch[0].angmax, num(false, vec![3, 6, 0], 0));
    assert!(c.gencost.is_empty());
    assert!(c.dcline.is_empty());
    assert!(c.bus_name.is_empty());
}

#[test]
fn test_parse_twice_equal() {
    let a = case(CASE5).unwrap();
    let b = case(CASE5).unwrap();
    assert_eq!(a, b);
}

#[test]
fn test_section_order_swapped() {
    let swapped = "function mpc = case5\n\
mpc.version = '2';\n\
mpc.baseMVA = 100;\n\
mpc.branch = [\n\
1 2 0.01 0.05 0 250 250 250 0 0 1 -360 360;\n\
];\n\
mpc.gen = [\n\
1 50 20 30 -10 1.0 100 1 100 0 0 0 0 0 0 0 0 0 0 0 0;\n\
];\n\
mpc.bus = [\n\
1 3 0 0 0 0 1 1.0 0 132 1 1.1 0.9;\n\
];\n";
    assert_eq!(case(CASE5).unwrap(), case(swapped).unwrap());
}

#[test]
fn test_gencost_present_and_omitted() {
    let with_cost = "function mpc = case5\n\
mpc.version = '2';\n\
mpc.baseMVA = 100;\n\
mpc.bus = [\n\
1 3 0 0 0 0 1 1.0 0 132 1 1.1 0.9;\n\
];\n\
mpc.gen = [\n\
1 50 20 30 -10 1.0 100 1 100 0 0 0 0 0 0 0 0 0 0 0 0;\n\
];\n\
mpc.branch = [\n\
1 2 0.01 0.05 0 250 250 250 0 0 1 -360 360;\n\
];\n\
mpc.gencost = [\n\
2 0 0 3 0.025 16.242 880.2;\n\
];\n";
    let c = case(with_cost).unwrap();
    assert_eq!(c.gencost.len(), 1);
    assert_eq!(c.gencost[0].ncost, 3);
    assert_eq!(c.gencost[0].cost.len(), 3);
    // The same document without the section still parses, with no records.
    let without = case(CASE5).unwrap();
    assert!(without.gencost.is_empty());
}

#[test]
fn test_malformed_gencost_degrades_to_empty() {
    let bad_cost = "function mpc = case5\n\
mpc.version = '2';\n\
mpc.baseMVA = 100;\n\
mpc.bus = [\n\
1 3 0 0 0 0 1 1.0 0 132 1 1.1 0.9;\n\
];\n\
mpc.gen = [\n\
1 50 20 30 -10 1.0 100 1 100 0 0 0 0 0 0 0 0 0 0 0 0;\n\
];\n\
mpc.branch = [\n\
1 2 0.01 0.05 0 250 250 250 0 0 1 -360 360;\n\
];\n\
mpc.gencost = [\n\
2 0 0 3 0.025 16.242;\n\
];\n";
    let c = case(bad_cost).unwrap();
    assert!(c.gencost.is_empty());
}

#[test]
fn test_bus_missing_fatal() {
    let no_bus = "function mpc = case5\n\
mpc.version = '2';\n\
mpc.baseMVA = 100;\n\
mpc.gen = [\n\
1 50 20 30 -10 1.0 100 1 100 0 0 0 0 0 0 0 0 0 0 0 0;\n\
];\n\
mpc.branch = [\n\
1 2 0.01 0.05 0 250 250 250 0 0 1 -360 360;\n\
];\n";
    let e = case(no_bus).unwrap_err();
    assert!(e.msg.contains("get_bus"));
    assert_eq!(
        e.msg,
        "Unable to build case. Error in \"get_bus\" on line 1:\n\nfunction mpc = case5\n^\n\n"
    );
}

#[test]
fn test_version_bad_token_fatal() {
    let bad_version = "function mpc = case5\n\
mpc.version = 5;\n\
mpc.baseMVA = 100;\n\
mpc.bus = [\n\
1 3 0 0 0 0 1 1.0 0 132 1 1.1 0.9;\n\
];\n\
mpc.gen = [\n\
1 50 20 30 -10 1.0 100 1 100 0 0 0 0 0 0 0 0 0 0 0 0;\n\
];\n\
mpc.branch = [\n\
1 2 0.01 0.05 0 250 250 250 0 0 1 -360 360;\n\
];\n";
    let e = case(bad_version).unwrap_err();
    assert!(e.msg.contains("version"));
}

#[test]
fn test_gen_cost_length_mismatch_rejected() {
    // Polynomial model announcing three coefficients but carrying two.
    assert!(gen_cost(&cs("\t2\t0\t0\t3\t0.025\t16.242;"), 0).is_err());
    // Piecewise-linear model with an odd coefficient count.
    assert!(gen_cost(&cs("\t1\t0\t0\t2\t0.025\t16.242\t880.2;"), 0).is_err());
}

#[test]
fn test_uint_overflow_rejected() {
    assert!(uint(&cs("99999999999999999999999999"), 0).is_err());
}

#[test]
fn test_uint_grouping_underscores() {
    let (v, consumed) = uint(&cs("1_234_5 rest"), 0).unwrap();
    assert_eq!(v, 12345);
    assert_eq!(consumed, 7);
}

#[test]
fn test_decimal_keeps_digits() {
    let (ds, consumed) = decimal(&cs("0_2_0x"), 0).unwrap();
    assert_eq!(ds, vec![0, 2, 0]);
    assert_eq!(consumed, 5);
}

#[test]
fn test_float_scientific_consumed_whole() {
    let (v, consumed) = float(&cs("1.5e3,"), 0).unwrap();
    assert_eq!(v, num(false, vec![1, 5], 2));
    assert_eq!(consumed, 5);
}

#[test]
fn test_comment_needs_text() {
    assert_eq!(comment(&cs("% hello\nx"), 0).unwrap(), 7);
    assert!(comment(&cs("%\nx"), 0).is_err());
    assert!(comment(&cs("x"), 0).is_err());
}

#[test]
fn test_string_keeps_escapes_raw() {
    assert_eq!(string(&cs("'a\\nb'"), 0).unwrap().0, "a\\nb");
    assert!(string(&cs("'abc"), 0).is_err());
    assert!(string(&cs("''"), 0).is_err());
}

#[test]
fn test_identifier_shape() {
    assert_eq!(identifier(&cs("_ab1 x"), 0).unwrap().0, "_ab1");
    assert!(identifier(&cs("1ab"), 0).is_err());
}

#[test]
fn test_busname_values() {
    let data = cs("mpc.bus_name = {\n\t'Riversde  V2';\n\t'Pokagon   V2';\n}");
    let (names, _) = matpower::sections::get_busname(&data).unwrap();
    assert_eq!(names, vec!["Riversde  V2".to_string(), "Pokagon   V2".to_string()]);
}
