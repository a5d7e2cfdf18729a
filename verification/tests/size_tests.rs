use finspect::size::format_size;

#[test]
fn plain_byte_counts_under_1000() {
    assert_eq!(format_size(0), "0B");
    assert_eq!(format_size(1), "1B");
    assert_eq!(format_size(512), "512B");
    assert_eq!(format_size(999), "999B");
}

#[test]
fn kilo_boundary() {
    assert_eq!(format_size(1000), "1.0K");
    assert_eq!(format_size(1049), "1.0K");
    assert_eq!(format_size(1050), "1.0K");
    assert_eq!(format_size(1100), "1.1K");
}

#[test]
fn epsilon_keeps_nine_nine_from_rounding_up() {
    // true quotient 9.999: the bias must keep the label below ten units
    assert_eq!(format_size(9999), "9.9K");
    assert_eq!(format_size(9994), "9.9K");
    assert_eq!(format_size(9995000), "9.9M");
    // once the biased value itself reaches ten units the label moves on
    assert_eq!(format_size(9999999), "10.0M");
}

#[test]
fn two_kilobytes() {
    assert_eq!(format_size(2048), "2.0K");
}

#[test]
fn larger_units() {
    assert_eq!(format_size(1000000), "1.0M");
    assert_eq!(format_size(123456789), "123.5M");
    assert_eq!(format_size(1000000000), "1.0G");
    assert_eq!(format_size(1000000000000), "1.0T");
    assert_eq!(format_size(1000000000000000), "1.0P");
    assert_eq!(format_size(1000000000000000000), "1.0E");
}

#[test]
fn just_under_a_unit_step() {
    // 999999 stays under the mega step and rounds up within kilo
    assert_eq!(format_size(999999), "1000.0K");
}

#[test]
fn largest_count() {
    assert_eq!(format_size(u64::MAX), "18.4E");
}

fn decoded_tenths(label: &str) -> (u64, char) {
    let suffix = label.chars().last().unwrap();
    let digits: String = label.chars().take(label.chars().count() - 1).collect();
    let mut parts = digits.split('.');
    let whole: u64 = parts.next().unwrap().parse().unwrap();
    let tenth: u64 = parts.next().unwrap().parse().unwrap();
    (whole * 10 + tenth, suffix)
}

#[test]
fn numeric_part_is_monotone_within_a_suffix() {
    let mut prev: Option<(u64, char)> = None;
    for n in 1000u64..4000 {
        let (tenths, suffix) = decoded_tenths(&format_size(n));
        if let Some((ptenths, psuffix)) = prev {
            if psuffix == suffix {
                assert!(ptenths <= tenths, "label shrank at {}", n);
            }
        }
        prev = Some((tenths, suffix));
    }
    // spot pairs around the ten-unit switch of the rounding rule
    for (lo, hi) in [(9999u64, 10000u64), (9994, 10050), (999949, 999999)] {
        let (lt, ls) = decoded_tenths(&format_size(lo));
        let (ht, hs) = decoded_tenths(&format_size(hi));
        assert_eq!(ls, hs);
        assert!(lt <= ht);
    }
}
