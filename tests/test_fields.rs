use cli_utils::{get_field, split_by_delimiter};

#[test]
fn test_split_by_delimiter() {
    let output = split_by_delimiter("abc,efg", ",");
    assert_eq!(output, vec!["abc", "efg"]);
}

#[test]
fn test_get_field() {
    let ok_output = get_field(vec!["abc", "efg"], 0);
    assert_eq!(ok_output, Ok("abc"));
}

#[test]
fn split_without_delimiter_gives_whole_text() {
    assert_eq!(split_by_delimiter("abc efg", ","), vec!["abc efg"]);
    assert_eq!(split_by_delimiter("", ","), vec![""]);
    assert_eq!(split_by_delimiter("a,b", ",,"), vec!["a,b"]);
}

#[test]
fn split_then_join_gives_back_the_text() {
    for (s, d) in [
        ("abc,efg", ","),
        (",,a,,", ","),
        ("a--b---c", "--"),
        ("héllo wörld", "ö"),
        ("abc", ""),
        ("", ""),
    ] {
        assert_eq!(split_by_delimiter(s, d).join(d), s);
    }
}

#[test]
fn split_keeps_empty_fields() {
    assert_eq!(split_by_delimiter(",a,,b,", ","), vec!["", "a", "", "b", ""]);
    assert_eq!(split_by_delimiter("a--b---c", "--"), vec!["a", "b", "-c"]);
    assert_eq!(split_by_delimiter("aaa", "aa"), vec!["", "a"]);
}

#[test]
fn split_by_empty_delimiter_matches_every_boundary() {
    assert_eq!(split_by_delimiter("ab", ""), vec!["", "a", "b", ""]);
    assert_eq!(split_by_delimiter("", ""), vec!["", ""]);
    assert_eq!(split_by_delimiter("é", ""), "é".split("").collect::<Vec<_>>());
}

#[test]
fn split_matches_std_split() {
    for (s, d) in [("x;y;;z", ";"), ("ßaßbß", "ß"), ("abcabc", "bc"), ("abc", "abcd")] {
        assert_eq!(split_by_delimiter(s, d), s.split(d).collect::<Vec<_>>());
    }
}

#[test]
fn first_field_of_a_split_always_exists() {
    let parts = split_by_delimiter("", "x");
    assert_eq!(get_field(parts, 0), Ok(""));
    let parts = split_by_delimiter("abc,efg", ",");
    assert_eq!(get_field(parts, 1), Ok("efg"));
}

#[test]
fn index_past_the_end_is_field_not_found() {
    let parts = split_by_delimiter("abc,efg", ",");
    assert_eq!(get_field(parts, 5), Err("No field found at index"));
    assert_eq!(get_field(vec!["a", "b"], 2), Err("No field found at index"));
    assert_eq!(get_field(Vec::new(), 0), Err("No field found at index"));
}
