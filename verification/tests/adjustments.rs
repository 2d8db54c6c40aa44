use imv_tui::adjustments::{parse_adjustment_i32, parse_adjustment_u32, parse_adjustment_usize, split_adjustment, Adjustment, AdjustmentKind};

#[test]
fn test_absolute_adjustment_prefix() {
    // Absolute with prefix =
    let adj = parse_adjustment_i32("=-10").unwrap();
    assert_eq!(adj, Adjustment::Absolute(-10));

    let adj2 = parse_adjustment_i32("=50").unwrap();
    assert_eq!(adj2, Adjustment::Absolute(50));

    // Relative with signs
    let adj3 = parse_adjustment_i32("-10").unwrap();
    assert_eq!(adj3, Adjustment::RelativeSub(10));

    let adj4 = parse_adjustment_i32("+10").unwrap();
    assert_eq!(adj4, Adjustment::RelativeAdd(10));
}

#[test]
fn adjustment_without_prefix_is_absolute() {
    assert_eq!(parse_adjustment_i32("  42 ").unwrap(), Adjustment::Absolute(42));
    assert_eq!(parse_adjustment_u32("7").unwrap(), Adjustment::Absolute(7));
    assert_eq!(parse_adjustment_usize("+3").unwrap(), Adjustment::RelativeAdd(3));
}

#[test]
fn adjustment_errors_name_the_kind() {
    assert_eq!(parse_adjustment_i32("").unwrap_err(), "Empty input");
    assert_eq!(parse_adjustment_i32("   ").unwrap_err(), "Empty input");
    assert_eq!(parse_adjustment_i32("abc").unwrap_err(), "Invalid absolute value");
    assert_eq!(parse_adjustment_i32("+x").unwrap_err(), "Invalid positive offset");
    assert_eq!(parse_adjustment_i32("-y").unwrap_err(), "Invalid negative offset");
    assert_eq!(parse_adjustment_u32("=-1").unwrap_err(), "Invalid absolute value");
}

#[test]
fn adjustment_range_limits() {
    assert_eq!(parse_adjustment_i32("2147483647").unwrap(), Adjustment::Absolute(i32::MAX));
    assert!(parse_adjustment_i32("2147483648").is_err());
    assert_eq!(parse_adjustment_u32("4294967295").unwrap(), Adjustment::Absolute(u32::MAX));
    assert!(parse_adjustment_u32("4294967296").is_err());
}

#[test]
fn split_adjustment_kinds() {
    let (k, rest) = split_adjustment(" =12 ").unwrap();
    assert_eq!(k, AdjustmentKind::Absolute);
    assert_eq!(rest, vec!['1', '2']);
    let (k2, rest2) = split_adjustment("-5").unwrap();
    assert_eq!(k2, AdjustmentKind::RelativeSub);
    assert_eq!(rest2, vec!['5']);
}
