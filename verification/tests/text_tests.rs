use gbuf::text::{parse_usize, split_fields};

#[test]
fn split_fields_cuts_at_every_delimiter() {
    assert_eq!(split_fields("a:b:c", ':'), vec!["a", "b", "c"]);
    assert_eq!(split_fields("-gbuf:afile", ':'), vec!["-gbuf", "afile"]);
    assert_eq!(split_fields("", ':'), vec![""]);
    assert_eq!(split_fields("::", ':'), vec!["", "", ""]);
    assert_eq!(split_fields("é:ü", ':'), vec!["é", "ü"]);
}

#[test]
fn parse_usize_reads_decimal_numbers() {
    assert_eq!(parse_usize("18"), Some(18));
    assert_eq!(parse_usize("+5"), Some(5));
    assert_eq!(parse_usize("007"), Some(7));
    assert_eq!(parse_usize(""), None);
    assert_eq!(parse_usize("+"), None);
    assert_eq!(parse_usize("-1"), None);
    assert_eq!(parse_usize("12a"), None);
    assert_eq!(parse_usize(" 1"), None);
    assert_eq!(parse_usize(&usize::MAX.to_string()), Some(usize::MAX));
    let too_big = format!("{}0", usize::MAX);
    assert_eq!(parse_usize(&too_big), None);
}

#[test]
fn parse_usize_agrees_with_std() {
    for s in ["0", "42", "+42", "-0", "1_000", "99999999999999999999999", "4 2"] {
        assert_eq!(parse_usize(s), s.parse::<usize>().ok(), "input {:?}", s);
    }
}
