use command_engine::parser::{
    ensure_rest_is_empty, is_surrounded_by, maybe_quoted_arg, parse_args, split_once_whitespace,
    strip_delimits, trim_full, unprefix_with, ParseError,
};

#[test]
fn overly_ugly_arguments() {
    let s = r#"    foo    bar "baz\n    `.-_' thing" abc-goo'`" "sample text \\\"* ;    "#;
    assert_eq!(
        Ok(vec![
            r#"foo"#,
            r#"bar"#,
            r#"baz\n    `.-_' thing"#,
            r#"abc-goo'`""#,
            r#"sample text \\\"#,
            r#"*"#,
            r#";"#,
        ]),
        parse_args(s)
    );
}

#[test]
fn empty_arguments() {
    let s = "";
    assert_eq!(Ok(vec![]), parse_args(s));

    let s = "  \t  ";
    assert_eq!(Ok(vec![]), parse_args(s));
}

#[test]
fn parse_one_arg() {
    let s = r#"    foo    bar"#;
    assert_eq!(Ok(("foo", Some(r#"   bar"#))), maybe_quoted_arg(s));

    let s = r#"foo bar"#;
    assert_eq!(Ok(("foo", Some(r#"bar"#))), maybe_quoted_arg(s));

    let s = r#"    "foo"bar "#;
    assert_eq!(Ok(("foo", Some(r#"bar "#))), maybe_quoted_arg(s));

    let s = r#""foo" bar "#;
    assert_eq!(Ok(("foo", Some(r#" bar "#))), maybe_quoted_arg(s));
}

#[test]
fn quoted_token_keeps_trailing_text_verbatim() {
    // Text directly after a closing delimiter is legal and stays unsplit.
    assert_eq!(Ok(("foo", Some("bar "))), maybe_quoted_arg("\"foo\"bar "));
    assert_eq!(Ok(("a b", Some("`c`"))), maybe_quoted_arg("  'a b'`c`"));
}

#[test]
fn unmatched_delimiter_is_an_error() {
    match maybe_quoted_arg("   \"abc def") {
        Err(ParseError::Other(m)) => {
            assert_eq!(m, "Missing matching delimiter: '\"abc def', expected one of: \" ' `");
        },
        other => panic!("expected an unmatched-delimiter error, got {other:?}"),
    }
    match parse_args("ok `broken") {
        Err(ParseError::Other(m)) => {
            assert!(m.contains("`broken"));
            assert!(m.contains("expected one of"));
        },
        other => panic!("expected an unmatched-delimiter error, got {other:?}"),
    }
}

#[test]
fn whitespace_joined_tokens_round_trip() {
    let tokens = vec!["alpha", "beta-2", "x:y,z", "abc-goo'`\""];
    let joined = tokens.join(" ");
    assert_eq!(Ok(tokens), parse_args(&joined));
}

#[test]
fn split_once_whitespace_cases() {
    assert_eq!(("foo", Some("  bar")), split_once_whitespace("foo   bar"));
    assert_eq!(("foo", None), split_once_whitespace("foo"));
    assert_eq!(("", Some("lead")), split_once_whitespace(" lead"));
    assert_eq!(("", None), split_once_whitespace(""));
}

#[test]
fn unprefix_with_matches_first_prefix() {
    let prefixes = vec!["!!".to_string(), "!".to_string()];
    assert_eq!(Some(("!!", "cmd")), unprefix_with(&prefixes, "!!cmd"));
    assert_eq!(Some(("!", "x y")), unprefix_with(&prefixes, "!x y"));
    assert_eq!(None, unprefix_with(&prefixes, "cmd"));
    let empty: Vec<String> = Vec::new();
    assert_eq!(None, unprefix_with(&empty, "!cmd"));
}

#[test]
fn surrounded_and_stripped_delimiters() {
    let delims = vec!['"', '\'', '`'];
    assert_eq!(Some(true), is_surrounded_by("\"abc\"", &delims));
    assert_eq!(Some(false), is_surrounded_by("\"abc'", &delims));
    assert_eq!(Some(false), is_surrounded_by("xabcx", &delims));
    assert_eq!(None, is_surrounded_by("\"", &delims));
    assert_eq!(None, is_surrounded_by("", &delims));

    assert_eq!("abc", strip_delimits("\"abc\"", &delims));
    assert_eq!("\"abc'", strip_delimits("\"abc'", &delims));
    assert_eq!("plain", strip_delimits("plain", &delims));
    assert_eq!("", strip_delimits("''", &delims));
}

#[test]
fn rest_must_be_empty() {
    assert_eq!(Ok(()), ensure_rest_is_empty(None));
    assert_eq!(Ok(()), ensure_rest_is_empty(Some("   \t ")));
    match ensure_rest_is_empty(Some("  junk")) {
        Err(ParseError::UnexpectedArgs(m)) => assert_eq!(m, "Unexpected '  junk'"),
        other => panic!("expected trailing-input error, got {other:?}"),
    }
}

#[test]
fn trim_full_removes_both_ends() {
    assert_eq!("a b", trim_full("  a b \t"));
    assert_eq!("", trim_full("   "));
    assert_eq!("x", trim_full("x"));
}
