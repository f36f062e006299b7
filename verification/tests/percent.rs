use codetree::percent::{format_percent, percent_in_tenths, power_of_two, to_binary};

fn reference(part: u64, whole: u64) -> String {
    let value = if whole > 0 { part as f64 / whole as f64 * 100.0 } else { 0.0 };
    format!("{:.1}", value)
}

#[test]
fn percent_exact_values() {
    assert_eq!(format_percent(0, 0), "0.0");
    assert_eq!(format_percent(5, 0), "0.0");
    assert_eq!(format_percent(0, 7), "0.0");
    assert_eq!(format_percent(1, 1), "100.0");
    assert_eq!(format_percent(1, 2), "50.0");
    assert_eq!(format_percent(1, 3), "33.3");
    assert_eq!(format_percent(2, 3), "66.7");
    assert_eq!(format_percent(1, 8), "12.5");
    assert_eq!(format_percent(1, 1000), "0.1");
    assert_eq!(format_percent(3, 2), "150.0");
    assert_eq!(format_percent(u64::MAX, 1), "1844674407370955161600.0");
    assert_eq!(format_percent(1, u64::MAX), "0.0");
}

#[test]
fn percent_follows_the_double_where_the_exact_share_is_a_tie() {
    // One share in two thousand is 0.05 percent exactly; the double-precision
    // result lies a little above or below, and the digits follow it.
    for (part, whole) in [
        (1u64, 2000u64),
        (3, 2000),
        (1, 16),
        (3, 16),
        (5, 16),
        (7, 16),
        (1, 32),
        (1, 400),
        (7, 400),
        (9, 2000),
        (13, 4000),
        (1, 160),
        (29, 200),
        (57, 200),
    ] {
        assert_eq!(format_percent(part, whole), reference(part, whole), "{} / {}", part, whole);
    }
}

#[test]
fn percent_agrees_with_floating_point_on_small_numbers() {
    for whole in 1..=300u64 {
        for part in 0..=(whole + 5) {
            assert_eq!(format_percent(part, whole), reference(part, whole), "{} / {}", part, whole);
        }
    }
}

#[test]
fn percent_agrees_with_floating_point_on_scattered_numbers() {
    let mut x: u64 = 0x2545_F491_4F6C_DD1D;
    let mut next = || {
        x ^= x << 13;
        x ^= x >> 7;
        x ^= x << 17;
        x
    };
    for _ in 0..100000 {
        let a = next();
        let b = next();
        let part = a >> (next() % 64);
        let whole = (b >> (next() % 64)).max(1);
        assert_eq!(format_percent(part, whole), reference(part, whole), "{} / {}", part, whole);
        let small = part % 5000;
        let total = whole % 5000 + 1;
        assert_eq!(format_percent(small, total), reference(small, total), "{} / {}", small, total);
    }
}

#[test]
fn percent_agrees_with_floating_point_near_powers_of_two() {
    for i in 0..64u32 {
        for j in 0..64u32 {
            for da in [0u64, 1, 2] {
                for db in [0u64, 1, 3] {
                    let part = (1u64 << i).wrapping_sub(da);
                    let whole = (1u64 << j).wrapping_add(db).max(1);
                    assert_eq!(
                        format_percent(part, whole),
                        reference(part, whole),
                        "{} / {}",
                        part,
                        whole
                    );
                }
            }
        }
    }
}

#[test]
fn binary_scaling() {
    assert_eq!(to_binary(0, 5), (0, 0, 0));
    assert_eq!(to_binary(1, 1), (1 << 52, 52, 0));
    assert_eq!(to_binary(1, 2), (1 << 52, 53, 0));
    assert_eq!(to_binary(3, 1), (3 << 51, 51, 0));
    assert_eq!(to_binary(1 << 53, 1), (1 << 52, 0, 1));
    assert_eq!(to_binary(1 << 64, 1), (1 << 52, 0, 12));
    assert_eq!(to_binary((1 << 53) + 1, 1), (1 << 52, 0, 1));
    assert_eq!(to_binary((1 << 53) + 3, 1), ((1 << 52) + 2, 0, 1));
    assert_eq!(percent_in_tenths(1, 4), 250);
    assert_eq!(power_of_two(0), 1);
    assert_eq!(power_of_two(10), 1024);
    assert_eq!(power_of_two(127), 1u128 << 127);
}
