use toolkit::stringsx::truncate::truncate_byte_len;

#[test]
fn test_truncate() {
    assert_eq!(truncate_byte_len("Test", 10), "Test");
    assert_eq!(truncate_byte_len("Hello, World", 5), "Hello");
    assert_eq!(truncate_byte_len("Hello,ðŸš§", 7), "Hello,");
}

#[test]
fn truncate_zero_length_keeps_text() {
    assert_eq!(truncate_byte_len("Hello", 0), "Hello");
}

#[test]
fn truncate_exact_length_keeps_text() {
    assert_eq!(truncate_byte_len("Hello", 5), "Hello");
}

#[test]
fn truncate_backs_off_inside_multibyte_char() {
    // "é" takes two bytes: a cut after its first byte backs off before it
    assert_eq!(truncate_byte_len("aé", 2), "a");
    assert_eq!(truncate_byte_len("aéb", 3), "aé");
    // "🚧" takes four bytes
    assert_eq!(truncate_byte_len("x🚧y", 4), "x");
    assert_eq!(truncate_byte_len("x🚧y", 5), "x🚧");
}

#[test]
fn truncate_every_limit_gives_longest_boundary_prefix() {
    let s = "aé🚧b中";
    for limit in 0..=s.len() {
        let r = truncate_byte_len(s, limit);
        assert!(s.starts_with(r));
        if limit == 0 {
            assert_eq!(r, s);
        } else {
            assert!(r.len() <= limit);
            assert!(s.is_char_boundary(r.len()));
            for j in (r.len() + 1)..=limit {
                assert!(!s.is_char_boundary(j));
            }
        }
    }
}
