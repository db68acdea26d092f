use maniparse::version::{decimal_text, whole_text, Version};

#[test]
fn classify_takes_digits_for_a_whole_number() {
    assert_eq!(Version::classify("7"), Version::Int(7));
    assert_eq!(Version::classify("0"), Version::Int(0));
    assert_eq!(Version::classify("65535"), Version::Int(65535));
}

#[test]
fn classify_takes_a_decimal_for_a_real() {
    assert_eq!(Version::classify("7.1"), Version::Float("7.1".to_string()));
    assert_eq!(Version::classify("-0.5"), Version::Float("-0.5".to_string()));
    assert_eq!(Version::classify("+12.25"), Version::Float("+12.25".to_string()));
}

#[test]
fn classify_takes_the_rest_for_a_text() {
    assert_eq!(Version::classify("7.3.2"), Version::String("7.3.2".to_string()));
    assert_eq!(Version::classify("v1"), Version::String("v1".to_string()));
    assert_eq!(Version::classify(""), Version::String(String::new()));
    assert_eq!(Version::classify("7."), Version::String("7.".to_string()));
    assert_eq!(Version::classify(".5"), Version::String(".5".to_string()));
    assert_eq!(Version::classify("-"), Version::String("-".to_string()));
    assert_eq!(Version::classify("1e5"), Version::String("1e5".to_string()));
}

#[test]
fn classify_tries_the_integer_pattern_before_the_float_pattern() {
    // Too large for a whole number, or written with a leading zero or a
    // sign: these have the float pattern only.
    assert_eq!(Version::classify("65536"), Version::Float("65536".to_string()));
    assert_eq!(Version::classify("123456"), Version::Float("123456".to_string()));
    assert_eq!(Version::classify("007"), Version::Float("007".to_string()));
    assert_eq!(Version::classify("-7"), Version::Float("-7".to_string()));
}

#[test]
fn text_of_each_variant() {
    assert_eq!(Version::String("7.3.2".to_string()).to_text(), "7.3.2");
    assert_eq!(Version::Float("7.1".to_string()).to_text(), "7.1");
    assert_eq!(Version::Int(7).to_text(), "7");
    assert_eq!(Version::Int(0).to_text(), "0");
    assert_eq!(Version::Int(10).to_text(), "10");
    assert_eq!(Version::Int(65535).to_text(), "65535");
}

#[test]
fn decimal_text_agrees_with_std() {
    for n in [0u16, 1, 9, 10, 11, 99, 100, 101, 999, 1000, 9999, 10000, 54321, 65535] {
        assert_eq!(decimal_text(n), n.to_string());
    }
}

#[test]
fn whole_text_reads_what_decimal_text_writes() {
    for n in [0u16, 5, 10, 42, 100, 4096, 65535] {
        assert_eq!(whole_text(&decimal_text(n)), Some(n));
    }
    assert_eq!(whole_text("65536"), None);
    assert_eq!(whole_text("00"), None);
    assert_eq!(whole_text("1a"), None);
    assert_eq!(whole_text(""), None);
}

#[test]
fn text_of_a_whole_number_round_trips() {
    for n in [0u16, 7, 70, 700, 7000, 65535] {
        let v = Version::Int(n);
        assert_eq!(Version::classify(&v.to_text()), v);
    }
}

#[test]
fn text_of_a_real_or_plain_text_round_trips() {
    let real = Version::Float("7.25".to_string());
    assert_eq!(Version::classify(&real.to_text()), real);
    let text = Version::String("release-2".to_string());
    assert_eq!(Version::classify(&text.to_text()), text);
}

#[test]
fn a_text_that_looks_like_a_number_does_not_round_trip() {
    let v = Version::String("7".to_string());
    assert_eq!(Version::classify(&v.to_text()), Version::Int(7));
    assert_ne!(Version::classify(&v.to_text()), v);
}

#[test]
fn versions_compare_by_variant_first() {
    let text = Version::String("zzz".to_string());
    let real = Version::Float("0.1".to_string());
    let whole = Version::Int(0);
    assert!(text < real);
    assert!(real < whole);
    assert!(Version::Int(2) < Version::Int(10));
    assert!(Version::String("10".to_string()) < Version::String("2".to_string()));
    assert_eq!(Version::Int(3), Version::Int(3));
    assert_ne!(Version::Int(3), Version::String("3".to_string()));
}

#[test]
fn texts_compare_character_by_character() {
    let t = |s: &str| Version::String(s.to_string());
    assert!(t("ab") < t("abc"));
    assert!(t("abc") > t("ab"));
    assert!(t("b") > t("abc"));
    assert!(t("") < t("a"));
    assert!(t("Z") < t("a"));
    assert!(t("z") < t("é"));
    assert_eq!(t("same").partial_cmp(&t("same")), Some(std::cmp::Ordering::Equal));
    assert_eq!(t("").partial_cmp(&t("")), Some(std::cmp::Ordering::Equal));
}

#[test]
fn reals_compare_as_their_texts() {
    let r = |s: &str| Version::Float(s.to_string());
    assert!(r("1.5") < r("1.6"));
    assert!(r("10.5") < r("9.5"));
    assert_eq!(r("1.5"), r("1.5"));
    assert_ne!(r("1.5"), r("1.50"));
    assert_ne!(r("1.5"), Version::String("1.5".to_string()));
}

#[test]
fn comparing_the_other_way_round_swaps_the_outcome() {
    let all = [
        Version::String("a".to_string()),
        Version::String("b".to_string()),
        Version::Float("1.5".to_string()),
        Version::Float("2.5".to_string()),
        Version::Int(1),
        Version::Int(2),
    ];
    for (i, a) in all.iter().enumerate() {
        for (j, b) in all.iter().enumerate() {
            assert_eq!(a.partial_cmp(b), Some(i.cmp(&j)));
            assert_eq!(b.partial_cmp(a), Some(j.cmp(&i)));
            assert_eq!(a == b, i == j);
        }
    }
}
