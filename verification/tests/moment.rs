use auberge::moment::{stamp_now, stamp_of, LAST_MOMENT};

fn has_the_form(stamp: &str) -> bool {
    stamp.len() == 19
        && stamp.bytes().enumerate().all(|(i, b)| match i {
            4 | 7 | 13 | 16 => b == b'-',
            10 => b == b'_',
            _ => b.is_ascii_digit(),
        })
}

#[test]
fn moments_are_written_as_date_and_time() {
    assert_eq!(stamp_of(0), Some("1970-01-01_00-00-00".to_string()));
    assert_eq!(stamp_of(59), Some("1970-01-01_00-00-59".to_string()));
    assert_eq!(stamp_of(86_399), Some("1970-01-01_23-59-59".to_string()));
    assert_eq!(stamp_of(86_400), Some("1970-01-02_00-00-00".to_string()));
    assert_eq!(stamp_of(951_782_400), Some("2000-02-29_00-00-00".to_string()));
    assert_eq!(stamp_of(1_704_067_200), Some("2024-01-01_00-00-00".to_string()));
    assert_eq!(stamp_of(1_718_454_600), Some("2024-06-15_12-30-00".to_string()));
}

#[test]
fn the_last_moment_with_a_name_ends_the_year_9999() {
    assert_eq!(LAST_MOMENT, 253_402_300_799);
    assert_eq!(stamp_of(LAST_MOMENT), Some("9999-12-31_23-59-59".to_string()));
    assert_eq!(stamp_of(LAST_MOMENT + 1), None);
    assert_eq!(stamp_of(u64::MAX), None);
}

#[test]
fn every_name_of_a_moment_has_the_same_form() {
    let mut seconds: u64 = 0;
    while seconds <= LAST_MOMENT {
        let stamp = stamp_of(seconds).expect("a moment before the year 10000");
        assert!(has_the_form(&stamp), "{:?}", stamp);
        seconds = seconds * 3 + 987_654_321;
    }
}

#[test]
fn later_moments_have_later_names() {
    let moments = [0, 1, 59, 60, 3_599, 3_600, 86_399, 86_400, 951_782_400, 1_704_067_200,
        1_718_454_600, 32_503_680_000, LAST_MOMENT];
    for pair in moments.windows(2) {
        let earlier = stamp_of(pair[0]).unwrap();
        let later = stamp_of(pair[1]).unwrap();
        assert!(earlier < later, "{:?} {:?}", earlier, later);
    }
}

#[test]
fn the_present_moment_has_a_name() {
    let stamp = stamp_now().expect("a clock after the start of 1970");
    assert!(has_the_form(&stamp), "{:?}", stamp);
    assert!(stamp.as_str() >= "2024-01-01_00-00-00");
}
