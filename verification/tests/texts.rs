use riverborn::text::{
    count_text, decimal, half_points, letters, pad_before, pad_behind, signed_decimal, trim,
};

#[test]
fn numbers_are_written_in_decimal() {
    for n in [0, 7, 10, 99, 1000, 4_294_967_295, u64::MAX] {
        assert_eq!(decimal(n), n.to_string());
    }
    for n in [0, -1, 5, -1200, i64::MAX, i64::MIN + 1] {
        assert_eq!(signed_decimal(n), n.to_string());
    }
    assert_eq!(count_text(12), "12");
}

#[test]
fn half_points_have_one_digit() {
    for n in 0..40u32 {
        assert_eq!(half_points(n), format!("{:.1}", n as f32 / 2.0));
    }
}

#[test]
fn padding_counts_characters() {
    for s in ["", "ab", "夜场", "a long one indeed"] {
        assert_eq!(pad_behind(s, 6), format!("{s:<6}"));
        assert_eq!(pad_before(s, 6), format!("{s:>6}"));
    }
}

#[test]
fn white_space_is_what_it_is_everywhere() {
    for n in 0..=0x10ffffu32 {
        if let Some(c) = char::from_u32(n) {
            let white = matches!(
                n,
                0x9..=0xd | 0x20 | 0x85 | 0xa0 | 0x1680 | 0x2000..=0x200a | 0x2028 | 0x2029
                    | 0x202f | 0x205f | 0x3000
            );
            assert_eq!(c.is_whitespace(), white);
            let control = n <= 0x1f || (0x7f..=0x9f).contains(&n);
            assert_eq!(c.is_control(), control);
        }
    }
}

#[test]
fn upper_case_of_ascii_changes_letters_only() {
    let all: String = (0..128u8).map(|b| b as char).collect();
    let upper: String = (0..128u8).map(|b| b.to_ascii_uppercase() as char).collect();
    assert_eq!(all.to_uppercase(), upper);
}

#[test]
fn trimming_takes_both_ends() {
    for s in ["", "  ", " a b ", "\u{3000}夜\u{a0}", "x", "\t\r\nx\u{2029}"] {
        assert_eq!(trim(s), s.trim());
        assert_eq!(letters(s), s.chars().collect::<Vec<char>>());
    }
}
