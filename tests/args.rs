use fractalinator::args::{is_f64, is_list_of_f64, is_u32, parse_tripple};

fn s(t: &str) -> String {
    t.to_string()
}

#[test]
fn tripple_reads_three_channels() {
    assert_eq!(parse_tripple("255,128,0"), Some((255, 128, 0)));
    assert_eq!(parse_tripple("+1,02,3"), Some((1, 2, 3)));
}

#[test]
fn tripple_ignores_pieces_after_the_third() {
    assert_eq!(parse_tripple("1,2,3,junk"), Some((1, 2, 3)));
}

#[test]
fn tripple_needs_three_pieces() {
    assert_eq!(parse_tripple("1,2"), None);
    assert_eq!(parse_tripple(""), None);
}

#[test]
fn tripple_rejects_out_of_range_and_junk() {
    assert_eq!(parse_tripple("256,0,0"), None);
    assert_eq!(parse_tripple("a,b,c"), None);
    assert_eq!(parse_tripple("1, 2,3"), None);
    assert_eq!(parse_tripple("-1,2,3"), None);
    assert_eq!(parse_tripple("1,,3"), None);
}

#[test]
fn u32_accepts_the_full_range() {
    assert_eq!(is_u32(s("0")), Ok(()));
    assert_eq!(is_u32(s("4294967295")), Ok(()));
    assert_eq!(is_u32(s("+7")), Ok(()));
    assert_eq!(is_u32(s("000000000000123")), Ok(()));
}

#[test]
fn u32_rejects_overflow_signs_and_spaces() {
    let err = Err(s("Not a valid u32!"));
    assert_eq!(is_u32(s("4294967296")), err);
    assert_eq!(is_u32(s("+")), err);
    assert_eq!(is_u32(s("-1")), err);
    assert_eq!(is_u32(s("")), err);
    assert_eq!(is_u32(s(" 1")), err);
    assert_eq!(is_u32(s("1.0")), err);
}

#[test]
fn u32_agrees_with_std() {
    for t in ["0", "12", "+3", "+", "-0", "99999999999", "4294967295", "x1", "", "1 "] {
        assert_eq!(is_u32(s(t)).is_ok(), t.parse::<u32>().is_ok(), "{}", t);
    }
}

#[test]
fn f64_accepts_decimal_and_special_forms() {
    for t in ["1.5", "-2", ".5", "5.", "1e10", "1E-3", "+0.0e+0", "inf", "-Infinity", "NaN", "iNf"] {
        assert_eq!(is_f64(s(t)), Ok(()), "{}", t);
    }
}

#[test]
fn f64_rejects_malformed_text() {
    for t in [".", "e5", "1e", "1.2.3", "", " 1", "abc", "+", "1e+", "infinit", "--1", "1,0"] {
        assert_eq!(is_f64(s(t)), Err(s("Not a valid f64!")), "{}", t);
    }
}

#[test]
fn f64_agrees_with_std() {
    let cases = [
        "0", "-0.0", "3.14159", "1e308", ".e1", "1.e1", ".1e-1", "nan", "-nan", "INFINITY",
        "in", "1_000", "0x10", "1e1.5", "e", "E", "-", "+.", "7E+", "12ee3",
    ];
    for t in cases {
        assert_eq!(is_f64(s(t)).is_ok(), t.parse::<f64>().is_ok(), "{}", t);
    }
}

#[test]
fn list_of_f64_checks_every_piece() {
    assert_eq!(is_list_of_f64(s("1.0 2.5")), Ok(()));
    assert_eq!(is_list_of_f64(s("-0.5")), Ok(()));
    assert_eq!(is_list_of_f64(s("1.0 x")), Err(s("Not a valid f64!")));
    assert_eq!(is_list_of_f64(s("1.0  2")), Err(s("Not a valid f64!")));
    assert_eq!(is_list_of_f64(s("")), Err(s("Not a valid f64!")));
}
