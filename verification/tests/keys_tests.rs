use edpdgen::keys::{make_group_id, make_sort_key, make_toc_id};
use edpdgen::strutil::{pad3_string, to_dec_string};

#[test]
fn test_sort_key() {
    assert_eq!(make_sort_key("ābādha"), "ābādha");
    assert_eq!(make_sort_key("adhikāra 1"), "adhikāra 001");
    assert_eq!(make_sort_key("adhikāra 10"), "adhikāra 010");
}

#[test]
fn test_sort_key_large_ordinal() {
    assert_eq!(make_sort_key("pada 123"), "pada 123");
    assert_eq!(make_sort_key("pada 1234"), "pada 1234");
    // Digits that overflow a 32-bit signed integer fall back to zero.
    assert_eq!(make_sort_key("pada 99999999999"), "pada 000");
    assert_eq!(make_sort_key("pada 2147483647"), "pada 2147483647");
}

#[test]
fn test_sort_key_leading_zeros() {
    assert_eq!(make_sort_key("a 0007"), "a 007");
    assert_eq!(make_sort_key("a 0"), "a 000");
}

#[test]
fn test_sort_key_no_match() {
    assert_eq!(make_sort_key("ab12"), "ab12");
    assert_eq!(make_sort_key("12"), "12");
    assert_eq!(make_sort_key("a 12x"), "a 12x");
    assert_eq!(make_sort_key(""), "");
}

#[test]
fn test_group_id() {
    assert_eq!(make_group_id("abahulīkata"), "abahulīkata");
    assert_eq!(make_group_id("abala 1"), "abala");
    assert_eq!(make_group_id("adhikāra 10"), "adhikāra");
    assert_eq!(make_group_id("a b 12"), "a b");
}

#[test]
fn test_group_key_is_strict_prefix_of_sort_key() {
    // With a trailing ordinal the group key is a strict prefix of the sort
    // key and the sort key ends in the three-digit zero-padded ordinal.
    let h = "pada 7";
    let g = make_group_id(h);
    let sk = make_sort_key(h);
    assert!(sk.starts_with(&g));
    assert!(sk.len() > g.len());
    assert!(sk.ends_with("007"));
    // Without one, both keys are the headword itself.
    let h2 = "pada";
    assert_eq!(make_group_id(h2), h2);
    assert_eq!(make_sort_key(h2), h2);
}

#[test]
fn test_toc_id() {
    assert_eq!(make_toc_id("abahulīkata", "dps"), "abahulīkata_dps");
    assert_eq!(make_toc_id("abala 1", "dps"), "abala_1_dps");
    assert_eq!(make_toc_id("adhikāra 10", "dps"), "adhikāra_10_dps");
    assert_eq!(make_toc_id("abahulīkata", "dpd"), "abahulīkata_dpd");
}

#[test]
fn test_decimal_rendering() {
    assert_eq!(to_dec_string(0), "0");
    assert_eq!(to_dec_string(7), "7");
    assert_eq!(to_dec_string(1234567890), "1234567890");
    assert_eq!(pad3_string(0), "000");
    assert_eq!(pad3_string(7), "007");
    assert_eq!(pad3_string(42), "042");
    assert_eq!(pad3_string(999), "999");
    assert_eq!(pad3_string(1000), "1000");
}
