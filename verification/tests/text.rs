use street_ui::text::{decimal, prettyprint_usize};

#[test]
fn decimal_writes_digits() {
    assert_eq!(decimal(0), "0");
    assert_eq!(decimal(7), "7");
    assert_eq!(decimal(10), "10");
    assert_eq!(decimal(42), "42");
    assert_eq!(decimal(1000), "1000");
    assert_eq!(decimal(90210), "90210");
}

#[test]
fn decimal_agrees_with_std() {
    let samples: Vec<usize> = vec![0, 1, 9, 10, 11, 99, 100, 101, 999, 1000, 12345, 1000000, usize::MAX];
    for n in samples {
        assert_eq!(decimal(n), format!("{}", n));
    }
}

#[test]
fn prettyprint_below_a_thousand_has_no_comma() {
    assert_eq!(prettyprint_usize(0), "0");
    assert_eq!(prettyprint_usize(5), "5");
    assert_eq!(prettyprint_usize(999), "999");
}

#[test]
fn prettyprint_groups_thousands() {
    assert_eq!(prettyprint_usize(1000), "1,000");
    assert_eq!(prettyprint_usize(1234), "1,234");
    assert_eq!(prettyprint_usize(10000), "10,000");
    assert_eq!(prettyprint_usize(100000), "100,000");
    assert_eq!(prettyprint_usize(1234567), "1,234,567");
}

#[test]
fn prettyprint_keeps_zeros_inside_groups() {
    assert_eq!(prettyprint_usize(1000000), "1,000,000");
    assert_eq!(prettyprint_usize(1002003), "1,002,003");
    assert_eq!(prettyprint_usize(5000040), "5,000,040");
}

#[test]
fn grouped_numbers_read_back() {
    let samples: Vec<usize> = vec![0, 12, 999, 1000, 1001, 20300, 999999, 1000000, 123456789];
    for n in samples {
        let text = prettyprint_usize(n);
        let plain: String = text.chars().filter(|c| *c != ',').collect();
        assert_eq!(plain, decimal(n));
        assert_eq!(plain.parse::<usize>(), Ok(n));
        assert!(!text.starts_with(','));
        assert!(n == 0 || !text.starts_with('0'));
    }
}
