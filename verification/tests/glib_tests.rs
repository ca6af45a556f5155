use core::cmp::Ordering;
use edpdgen::glib::g_ascii_strcasecmp;
use edpdgen::strutil::str_cmp;

#[test]
fn case_insensitive_for_ascii() {
    assert_eq!(g_ascii_strcasecmp("Abc", "abc"), Ordering::Equal);
    assert_eq!(g_ascii_strcasecmp("abc", "abd"), Ordering::Less);
    assert_eq!(g_ascii_strcasecmp("ab", "abc"), Ordering::Less);
    assert_eq!(g_ascii_strcasecmp("abc", "ab"), Ordering::Greater);
    assert_eq!(g_ascii_strcasecmp("", ""), Ordering::Equal);
    assert_eq!(g_ascii_strcasecmp("STARDICT", "stardict"), Ordering::Equal);
}

#[test]
fn non_ascii_mismatch_falls_back_to_raw_order() {
    // 'ā' (U+0101) against 'a' (U+0061) compares by raw code point, so the
    // non-ASCII side sorts after, with no case folding at that position.
    assert_eq!(g_ascii_strcasecmp("āX", "aY"), Ordering::Greater);
    assert_eq!(g_ascii_strcasecmp("aY", "āX"), Ordering::Less);
    // 'Ā' (U+0100) and 'ā' (U+0101) differ case-sensitively.
    assert_eq!(g_ascii_strcasecmp("Ā", "ā"), Ordering::Less);
}

#[test]
fn uppercase_then_lowercase_tie_break() {
    // '_' (0x5F) folds nowhere: against a letter it compares by the
    // lowercase values, so it sorts before every lower-case letter.
    assert_eq!(g_ascii_strcasecmp("_", "a"), Ordering::Less);
    assert_eq!(g_ascii_strcasecmp("[", "a"), Ordering::Less);
}

#[test]
fn raw_comparator_is_code_point_order() {
    assert_eq!(str_cmp("abc", "abd"), Ordering::Less);
    assert_eq!(str_cmp("Abc", "abc"), Ordering::Less);
    assert_eq!(str_cmp("ab", "abc"), Ordering::Less);
    assert_eq!(str_cmp("b", "ā"), Ordering::Less);
    assert_eq!(str_cmp("pada 001", "pada 002"), Ordering::Less);
}
