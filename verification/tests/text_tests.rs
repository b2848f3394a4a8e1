use keyvault::text::{decimal_string, mask, numbered, sanitize_filename, trim_string};

#[test]
fn mask_keeps_line_breaks() {
    assert_eq!(mask("ab\ncd\r\ne"), "**\n**\r\n*");
    assert_eq!(mask(""), "");
    assert_eq!(mask("pässwörd"), "********");
}

#[test]
fn sanitize_filename_replaces_unsafe_chars_and_trims() {
    assert_eq!(sanitize_filename("  a<b>c:d\"e/f\\g|h?i*j  "), "a_b_c_d_e_f_g_h_i_j");
    assert_eq!(sanitize_filename("tab\there"), "tab_here");
    assert_eq!(sanitize_filename("My Secrets"), "My Secrets");
    assert_eq!(sanitize_filename("   "), "");
}

#[test]
fn trim_removes_unicode_whitespace() {
    assert_eq!(trim_string("\u{3000} x y \u{a0}\n"), "x y");
    assert_eq!(trim_string(" \t "), "");
    assert_eq!(trim_string("abc"), "abc");
}

#[test]
fn decimal_matches_display() {
    for n in [0u128, 7, 10, 42, 100, 1234567890, u64::MAX as u128] {
        assert_eq!(decimal_string(n), n.to_string());
    }
    assert_eq!(numbered("Tab ", 3), "Tab 3");
}
