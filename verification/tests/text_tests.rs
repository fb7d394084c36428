use cosmic_ext_applet_crypto::text::{clone_all, is_white_space, same_strings, str_eq};

#[test]
fn whitespace_agrees_with_std_for_every_char() {
    for code in 0..=0x10FFFFu32 {
        if let Some(c) = char::from_u32(code) {
            assert_eq!(is_white_space(c), c.is_whitespace(), "U+{code:04X}");
        }
    }
}

#[test]
fn string_lists_compare_and_clone() {
    let a = vec!["a".to_string(), "b".to_string()];
    let b = clone_all(&a);
    assert_eq!(a, b);
    assert!(same_strings(&a, &b));
    assert!(!same_strings(&a, &b[..1]));
    assert!(!same_strings(&a, &["a".to_string(), "c".to_string()]));
}

#[test]
fn strings_compare_by_characters() {
    assert!(str_eq("usd", "usd"));
    assert!(!str_eq("usd", "usdt"));
    assert!(!str_eq("usd", "eur"));
    assert!(str_eq("", ""));
    assert!(str_eq("€", "€"));
}
