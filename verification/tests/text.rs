use linux_rtfm::text::{digit_str, numbered, push_decimal};

#[test]
fn digits_are_single_characters() {
    let all: Vec<&str> = (0u8..10).map(digit_str).collect();
    assert_eq!(all, vec!["0", "1", "2", "3", "4", "5", "6", "7", "8", "9"]);
}

#[test]
fn decimal_numerals_have_no_leading_zeros() {
    for n in 0u8..=255 {
        let mut s = String::from("x");
        push_decimal(&mut s, n);
        assert_eq!(s, format!("x{}", n));
    }
}

#[test]
fn numbered_appends_the_numeral() {
    assert_eq!(numbered("RT", 0), "RT0");
    assert_eq!(numbered("RT", 10), "RT10");
    assert_eq!(numbered("", 255), "255");
}
