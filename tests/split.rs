use toolkit::stringsx::split::splitx;

#[test]
fn test_split() {
    assert_eq!(splitx("hello world", " "), vec!["hello", "world"]);
    assert_eq!(splitx("", ""), Vec::<&str>::new());
}

#[test]
fn split_empty_text_gives_nothing() {
    assert_eq!(splitx("", ","), Vec::<&str>::new());
}

#[test]
fn split_absent_separator_gives_whole() {
    assert_eq!(splitx("abc", ","), vec!["abc"]);
}

#[test]
fn split_keeps_empty_pieces() {
    assert_eq!(splitx(",a,,b,", ","), vec!["", "a", "", "b", ""]);
}

#[test]
fn split_multichar_separator_without_overlap() {
    assert_eq!(splitx("aaa", "aa"), vec!["", "a"]);
    assert_eq!(splitx("a::b::c", "::"), vec!["a", "b", "c"]);
    assert_eq!(splitx("héllo wörld", "ö"), vec!["héllo w", "rld"]);
}

#[test]
fn split_empty_separator_gives_each_char() {
    assert_eq!(splitx("abc", ""), vec!["", "a", "b", "c", ""]);
    assert_eq!(splitx("é", ""), vec!["", "é", ""]);
}

#[test]
fn split_matches_std_split() {
    let cases = [("a,b,c", ","), ("xyxyx", "xy"), ("no sep here", "|"), ("  ", " "), ("ab", "abc")];
    for (s, sep) in cases {
        let expected: Vec<&str> = s.split(sep).collect();
        assert_eq!(splitx(s, sep), expected);
    }
}
