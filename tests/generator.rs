use database::decimal::{decimal_text, parse_decimal};
use database::{
    GetRandComb, GetRandInt, LettersFromDraws, GetRandString, GetRandVecInt, GetRandVecIntAsString,
};

fn is_upper(s: &str) -> bool {
    s.chars().all(|c| c.is_ascii_uppercase())
}

fn is_digits(s: &str) -> bool {
    s.chars().all(|c| c.is_ascii_digit())
}

#[test]
fn rand_string_has_count_uppercase_letters() {
    for count in [0, 1, 5, 40] {
        let s = GetRandString(count);
        assert_eq!(s.chars().count(), count as usize);
        assert!(is_upper(&s));
    }
}

#[test]
fn rand_string_of_negative_count_is_empty() {
    assert_eq!(GetRandString(-3), "");
}

#[test]
fn rand_vec_int_holds_digits() {
    let v = GetRandVecInt(50);
    assert_eq!(v.len(), 50);
    assert!(v.iter().all(|d| (0..=9).contains(d)));
    assert!(GetRandVecInt(0).is_empty());
    assert!(GetRandVecInt(-1).is_empty());
}

#[test]
fn vec_int_as_string_takes_first_characters() {
    assert_eq!(GetRandVecIntAsString(vec![1, 2, 3]), "123");
    assert_eq!(GetRandVecIntAsString(vec![45, -3, 0, 907]), "4-09");
    assert_eq!(GetRandVecIntAsString(vec![]), "");
}

#[test]
fn rand_int_stays_in_range() {
    assert_eq!(GetRandInt(3, 3), 3);
    for _ in 0..1000 {
        let v = GetRandInt(-5, 5);
        assert!((-5..=5).contains(&v));
    }
}

#[test]
fn rand_int_is_roughly_uniform() {
    let draws = 10_000;
    let mut counts = [0u32; 10];
    for _ in 0..draws {
        counts[GetRandInt(0, 9) as usize] += 1;
    }
    let expected = draws as f64 / 10.0;
    let chi2: f64 = counts
        .iter()
        .map(|&c| {
            let d = c as f64 - expected;
            d * d / expected
        })
        .sum();
    // 9 degrees of freedom: 27.88 is the 0.999 quantile.
    assert!(chi2 < 27.88, "chi-square {}", chi2);
}

#[test]
fn digit_sequence_has_count_digits() {
    let s = GetRandComb(String::from("1"), vec![7]).ok().unwrap();
    assert_eq!(s.len(), 7);
    assert!(is_digits(&s));
}

#[test]
fn ground_code_shape() {
    for _ in 0..100 {
        let s = GetRandComb(String::from("001"), vec![3, 3, 4]).ok().unwrap();
        let parts: Vec<&str> = s.split('_').collect();
        assert_eq!(parts.len(), 3);
        assert_eq!(parts[0].len(), 3);
        assert!(is_upper(parts[0]));
        assert_eq!(parts[1].len(), 3);
        assert!(is_upper(parts[1]));
        assert_eq!(parts[2].len(), 4);
        assert!(is_digits(parts[2]));
    }
}

#[test]
fn helmet_code_shape() {
    for _ in 0..100 {
        let s = GetRandComb(String::from("1"), vec![4]).ok().unwrap();
        assert_eq!(s.len(), 4);
        assert!(is_digits(&s));
    }
}

#[test]
fn mixed_grammar_shape() {
    let s = GetRandComb(String::from("010"), vec![2, 3, 1]).ok().unwrap();
    let c: Vec<char> = s.chars().collect();
    assert_eq!(c.len(), 8);
    assert!(c[0].is_ascii_uppercase() && c[1].is_ascii_uppercase());
    assert_eq!(c[2], '_');
    assert!(c[3].is_ascii_digit() && c[4].is_ascii_digit() && c[5].is_ascii_digit());
    assert_eq!(c[6], '_');
    assert!(c[7].is_ascii_uppercase());
}

#[test]
fn empty_grammar_gives_empty_code() {
    assert_eq!(GetRandComb(String::new(), vec![]).ok().unwrap(), "");
}

#[test]
fn mismatched_grammar_is_an_error() {
    let e = GetRandComb(String::from("01"), vec![1]).err().unwrap();
    assert_eq!(e.mask_len, 2);
    assert_eq!(e.lengths_len, 1);
    let e = GetRandComb(String::from("0"), vec![1, 2, 3]).err().unwrap();
    assert_eq!(e.mask_len, 1);
    assert_eq!(e.lengths_len, 3);
}

#[test]
fn decimal_text_is_canonical() {
    assert_eq!(decimal_text(0), "0");
    assert_eq!(decimal_text(7), "7");
    assert_eq!(decimal_text(65535), "65535");
    assert_eq!(decimal_text(100), "100");
}

#[test]
fn parse_decimal_reads_unsigned_text() {
    assert_eq!(parse_decimal("42", 65535), Some(42));
    assert_eq!(parse_decimal("+12", 100), Some(12));
    assert_eq!(parse_decimal("007", 255), Some(7));
    assert_eq!(parse_decimal("255", 255), Some(255));
    assert_eq!(parse_decimal("256", 255), None);
    assert_eq!(parse_decimal("70000", 65535), None);
    assert_eq!(parse_decimal("", 255), None);
    assert_eq!(parse_decimal("+", 255), None);
    assert_eq!(parse_decimal("-1", 255), None);
    assert_eq!(parse_decimal("12a", 255), None);
    assert_eq!(parse_decimal("not-a-number", 255), None);
}

#[test]
fn letters_from_draws_maps_codes() {
    assert_eq!(LettersFromDraws(&vec![65, 90, 77]), "AZM");
    assert_eq!(LettersFromDraws(&vec![]), "");
}

#[test]
fn two_codes_of_one_grammar_share_their_shape() {
    for _ in 0..50 {
        let a = GetRandComb(String::from("010"), vec![2, 3, 1]).ok().unwrap();
        let b = GetRandComb(String::from("010"), vec![2, 3, 1]).ok().unwrap();
        assert_eq!(a.len(), b.len());
        for (x, y) in a.chars().zip(b.chars()) {
            assert_eq!(x == '_', y == '_');
            assert_eq!(x.is_ascii_uppercase(), y.is_ascii_uppercase());
        }
    }
}
