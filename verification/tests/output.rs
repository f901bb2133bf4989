use auberge::output::{format_duration, format_size};

#[test]
fn small_sizes_are_written_in_bytes() {
    assert_eq!(format_size(0), "0 B");
    assert_eq!(format_size(1), "1 B");
    assert_eq!(format_size(1023), "1023 B");
}

#[test]
fn sizes_from_a_kibibyte_on_have_two_decimals() {
    assert_eq!(format_size(1024), "1.00 KB");
    assert_eq!(format_size(1536), "1.50 KB");
    assert_eq!(format_size(1024 * 1024 - 1), "1024.00 KB");
    assert_eq!(format_size(1024 * 1024), "1.00 MB");
    assert_eq!(format_size(5 * 1024 * 1024 + 512 * 1024), "5.50 MB");
    assert_eq!(format_size(1024 * 1024 * 1024), "1.00 GB");
    assert_eq!(format_size(3 * 1024 * 1024 * 1024 / 2), "1.50 GB");
}

#[test]
fn a_tie_goes_to_the_even_hundredth() {
    assert_eq!(format_size(1152), "1.12 KB");
    assert_eq!(format_size(1029), "1.00 KB");
    assert_eq!(format_size(1030), "1.01 KB");
    assert_eq!(format_size(1172), "1.14 KB");
    assert_eq!(format_size(1193), "1.17 KB");
}

#[test]
fn the_largest_size() {
    assert_eq!(format_size(u64::MAX), "17179869184.00 GB");
}

#[test]
fn sizes_beyond_the_exact_range_are_rounded_first() {
    assert_eq!(format_size(1u64 << 53), "8388608.00 GB");
    assert_eq!(format_size((1u64 << 53) + 1), "8388608.00 GB");
    assert_eq!(format_size(1u64 << 63), "8589934592.00 GB");
}

#[test]
fn sizes_agree_with_division_in_double_precision() {
    let kb = 1024u64;
    let mb = kb * 1024;
    let gb = mb * 1024;
    let mut bytes: u64 = 1;
    let mut step: u64 = 1;
    while bytes < u64::MAX / 3 {
        for n in [bytes, bytes + 1, bytes * 3 / 2, bytes - 1 + step / 2] {
            let expected = if n >= gb {
                format!("{:.2} GB", n as f64 / gb as f64)
            } else if n >= mb {
                format!("{:.2} MB", n as f64 / mb as f64)
            } else if n >= kb {
                format!("{:.2} KB", n as f64 / kb as f64)
            } else {
                format!("{} B", n)
            };
            assert_eq!(format_size(n), expected, "for {} bytes", n);
        }
        step = step * 2 + 1;
        bytes = bytes + step;
    }
}

#[test]
fn ties_agree_with_division_in_double_precision() {
    for n in [1152u64, 1029, 1203, 1208, 1213, 1024 + 128, 2 * 1024 + 128, 1048576 + 131072, 1179648 + 5243] {
        let expected = if n >= 1048576 {
            format!("{:.2} MB", n as f64 / 1048576.0)
        } else {
            format!("{:.2} KB", n as f64 / 1024.0)
        };
        assert_eq!(format_size(n), expected, "for {} bytes", n);
    }
}

#[test]
fn spans_of_time_are_written_in_minutes_and_seconds() {
    assert_eq!(format_duration(0), "0s");
    assert_eq!(format_duration(1), "1s");
    assert_eq!(format_duration(59), "59s");
    assert_eq!(format_duration(60), "1m 0s");
    assert_eq!(format_duration(61), "1m 1s");
    assert_eq!(format_duration(125), "2m 5s");
    assert_eq!(format_duration(3600), "60m 0s");
    assert_eq!(format_duration(u64::MAX), "307445734561825860m 15s");
}
