use shell_eval::bind::bind_args;
use shell_eval::encoding::get_encoding;
use shell_eval::error::ErrorKind;
use shell_eval::from_csv::{parse_csv, run_from_csv, split_on_exec};
use shell_eval::hostread::{parse_host_response, HostRead};
use shell_eval::open_cmd::{decode_to_value, path_extension, Open};
use shell_eval::parse::parse_line;
use shell_eval::value::{Span, Tag, Tagged, UntaggedValue, Value};

fn tag0() -> Tag {
    Tag { span: Span::new(0, 0), anchor: None }
}

fn label(s: &str, start: usize, end: usize) -> Option<Tagged<String>> {
    Some(Tagged { item: s.to_string(), tag: Tag { span: Span::new(start, end), anchor: None } })
}

#[test]
fn resolve_no_label_is_utf8() {
    let (enc, name) = get_encoding(&None).unwrap();
    assert!(enc == encoding_rs::UTF_8);
    assert_eq!(name, "UTF-8");
    assert_eq!(enc.name(), "UTF-8");
}

#[test]
fn resolve_valid_labels_canonical() {
    let (enc, name) = get_encoding(&label("latin1", 3, 9)).unwrap();
    assert!(enc == encoding_rs::WINDOWS_1252);
    assert_eq!(name, "windows-1252");
    assert_eq!(enc.name(), "windows-1252");
    let (enc, name) = get_encoding(&label("UTF-8", 0, 5)).unwrap();
    assert_eq!(name, "UTF-8");
    assert_eq!(enc.name(), "UTF-8");
    let (enc, name) = get_encoding(&label("utf-16be", 0, 8)).unwrap();
    assert_eq!(name, "UTF-16BE");
    assert_eq!(enc.name(), "UTF-16BE");
}

#[test]
fn resolve_invalid_label_fails() {
    let err = get_encoding(&label("not-a-real-encoding", 7, 26)).unwrap_err();
    assert_eq!(err.kind, ErrorKind::InvalidEncoding);
    assert_eq!(err.span, Span::new(7, 26));
    assert_eq!(err.message, "not-a-real-encoding is not a valid encoding");
}

#[test]
fn decode_valid_utf8_yields_string() {
    let r = decode_to_value(b"hello world".to_vec(), tag0(), &None).unwrap();
    match r.value {
        UntaggedValue::Str(s) => assert_eq!(s, "hello world"),
        other => panic!("expected a string value, got {:?}", other),
    }
}

#[test]
fn decode_strips_byte_order_mark_by_default() {
    let r = decode_to_value(vec![0xEF, 0xBB, 0xBF, b'h', b'i'], tag0(), &None).unwrap();
    match r.value {
        UntaggedValue::Str(s) => assert_eq!(s, "hi"),
        other => panic!("expected a string value, got {:?}", other),
    }
}

#[test]
fn decode_invalid_utf8_yields_binary() {
    let bytes = vec![b'a', 0x80, b'b'];
    let r = decode_to_value(bytes.clone(), tag0(), &None).unwrap();
    match r.value {
        UntaggedValue::Binary(b) => assert_eq!(b, bytes),
        other => panic!("expected a binary value, got {:?}", other),
    }
}

#[test]
fn decode_explicit_encoding_never_binary() {
    let bytes = vec![b'a', 0x80, b'b'];
    let r = decode_to_value(bytes, tag0(), &label("utf-8", 0, 5)).unwrap();
    match r.value {
        UntaggedValue::Str(s) => assert_eq!(s, "a\u{FFFD}b"),
        other => panic!("expected a string value, got {:?}", other),
    }
}

#[test]
fn decode_explicit_latin1() {
    let r = decode_to_value(vec![0xE9], tag0(), &label("latin1", 0, 6)).unwrap();
    match r.value {
        UntaggedValue::Str(s) => assert_eq!(s, "\u{00E9}"),
        other => panic!("expected a string value, got {:?}", other),
    }
}

#[test]
fn decode_explicit_invalid_label_errors() {
    let r = decode_to_value(vec![b'a'], tag0(), &label("nope", 9, 13));
    let err = r.unwrap_err();
    assert_eq!(err.kind, ErrorKind::InvalidEncoding);
    assert_eq!(err.span, Span::new(9, 13));
}

#[test]
fn extension_from_path() {
    assert_eq!(path_extension("data.csv"), Some("csv".to_string()));
    assert_eq!(path_extension("dir.d/data.json"), Some("json".to_string()));
    assert_eq!(path_extension("noext"), None);
    assert_eq!(path_extension(".hidden"), None);
    assert_eq!(path_extension("dir.d/file"), None);
    assert_eq!(path_extension("trailing."), Some(String::new()));
    // the path library's corner cases: trailing separators are ignored,
    // `.` and `..` components have no extension
    assert_eq!(path_extension("dir.d/"), Some("d".to_string()));
    assert_eq!(path_extension("data.csv//"), Some("csv".to_string()));
    assert_eq!(path_extension("."), None);
    assert_eq!(path_extension(".."), None);
    assert_eq!(path_extension("x/.."), None);
    assert_eq!(path_extension(""), None);
}

#[test]
fn host_response_bytes() {
    match parse_host_response(&"{\"Ok\":{\"data\":[104,105]}}".to_string()) {
        HostRead::Bytes(b) => assert_eq!(b, vec![104, 105]),
        other => panic!("expected bytes, got {:?}", other),
    }
    match parse_host_response(&"{\"Ok\":{\"data\":[]}}".to_string()) {
        HostRead::Bytes(b) => assert!(b.is_empty()),
        other => panic!("expected bytes, got {:?}", other),
    }
}

#[test]
fn host_response_error_with_escapes() {
    match parse_host_response(&"{\"Err\":\"no \\\"such\\\" file\"}".to_string()) {
        HostRead::HostErr(m) => assert_eq!(m, "no \"such\" file"),
        other => panic!("expected a host error, got {:?}", other),
    }
}

#[test]
fn host_response_malformed() {
    for s in [
        "",
        "{\"Ok\":{\"data\":[256]}}",
        "{\"Ok\":{\"data\":[1,]}}",
        "{\"Ok\":{\"data\":[1,2]}} ",
        "{\"Ok\":{\"data\":[1 2]}}",
        "{\"Err\":\"unterminated}",
        "plainly wrong",
    ] {
        assert!(matches!(parse_host_response(&s.to_string()), HostRead::Malformed), "{}", s);
    }
}

#[test]
fn parse_splits_stages_and_tokens() {
    let stages = parse_line("open data.csv | from csv").unwrap();
    assert_eq!(stages.len(), 2);
    assert_eq!(stages[0].tokens.len(), 2);
    assert_eq!(stages[0].tokens[0].text, "open");
    assert_eq!(stages[0].tokens[0].span, Span::new(0, 4));
    assert_eq!(stages[0].tokens[1].text, "data.csv");
    assert_eq!(stages[0].tokens[1].span, Span::new(5, 13));
    assert_eq!(stages[0].span, Span::new(0, 13));
    assert_eq!(stages[1].tokens.len(), 2);
    assert_eq!(stages[1].tokens[0].text, "from");
    assert_eq!(stages[1].tokens[1].text, "csv");
}

#[test]
fn parse_quoted_token_keeps_spaces() {
    let stages = parse_line("open \"my file.csv\"").unwrap();
    assert_eq!(stages.len(), 1);
    assert_eq!(stages[0].tokens[1].text, "my file.csv");
    assert_eq!(stages[0].tokens[1].span, Span::new(5, 18));
}

#[test]
fn parse_unclosed_quote_fails() {
    let err = parse_line("open \"broken").unwrap_err();
    assert_eq!(err.kind, ErrorKind::Parse);
    assert_eq!(err.span, Span::new(5, 12));
}

#[test]
fn parse_empty_stage_fails() {
    let err = parse_line("open a | | from csv").unwrap_err();
    assert_eq!(err.kind, ErrorKind::Parse);
    assert_eq!(err.span, Span::new(9, 10));
    let err = parse_line("| open a").unwrap_err();
    assert_eq!(err.kind, ErrorKind::Parse);
    assert_eq!(err.span, Span::new(0, 1));
}

#[test]
fn bind_collects_flags_and_positionals() {
    let sig = Open.signature();
    let stages = parse_line("open data.csv --raw -e latin1").unwrap();
    let b = bind_args(&sig, stages[0].span, &stages[0].tokens, 1).unwrap();
    assert_eq!(b.positional.len(), 1);
    assert_eq!(b.positional[0].text, "data.csv");
    assert_eq!(b.switches, vec!["raw".to_string()]);
    assert_eq!(b.named.len(), 1);
    assert_eq!(b.named[0].0, "encoding");
    assert_eq!(b.named[0].1.text, "latin1");
}

#[test]
fn bind_missing_required_positional() {
    let sig = Open.signature();
    let stages = parse_line("open").unwrap();
    let err = bind_args(&sig, stages[0].span, &stages[0].tokens, 1).unwrap_err();
    assert_eq!(err.kind, ErrorKind::MissingArgument);
    assert_eq!(err.span, Span::new(0, 4));
}

#[test]
fn bind_flag_without_value() {
    let sig = Open.signature();
    let stages = parse_line("open data.csv --encoding").unwrap();
    let err = bind_args(&sig, stages[0].span, &stages[0].tokens, 1).unwrap_err();
    assert_eq!(err.kind, ErrorKind::MissingArgument);
    assert_eq!(err.span, Span::new(14, 24));
}

#[test]
fn bind_unknown_flag() {
    let sig = Open.signature();
    let stages = parse_line("open data.csv --fast").unwrap();
    let err = bind_args(&sig, stages[0].span, &stages[0].tokens, 1).unwrap_err();
    assert_eq!(err.kind, ErrorKind::TypeMismatch);
    assert_eq!(err.span, Span::new(14, 20));
}

#[test]
fn split_and_csv_cells() {
    assert_eq!(split_on_exec("a,b,,c", ','), vec!["a", "b", "", "c"]);
    assert_eq!(split_on_exec("", ','), vec![""]);
    let cells = parse_csv("a,b\n1,2\n3,4\n");
    assert_eq!(cells, vec![vec!["a", "b"], vec!["1", "2"], vec!["3", "4"]]);
    let cells = parse_csv("a,b\n1");
    assert_eq!(cells, vec![vec!["a", "b"], vec!["1"]]);
}

#[test]
fn from_csv_builds_rows() {
    let v = Value {
        value: UntaggedValue::Str("name,age\nab,3\ncd,4\n".to_string()),
        tag: tag0(),
    };
    let out = run_from_csv(v, Span::new(0, 8)).unwrap();
    match out.value {
        UntaggedValue::Table(rows) => {
            assert_eq!(rows.len(), 2);
            match &rows[0].value {
                UntaggedValue::Row(cols) => {
                    assert_eq!(cols.len(), 2);
                    assert_eq!(cols[0].0, "name");
                    match &cols[0].1.value {
                        UntaggedValue::Str(s) => assert_eq!(s, "ab"),
                        other => panic!("expected string cell, got {:?}", other),
                    }
                    assert_eq!(cols[1].0, "age");
                },
                other => panic!("expected a row, got {:?}", other),
            }
        },
        other => panic!("expected a table, got {:?}", other),
    }
}

#[test]
fn from_csv_uneven_columns_truncate() {
    let v = Value { value: UntaggedValue::Str("a,b,c\n1\n".to_string()), tag: tag0() };
    let out = run_from_csv(v, Span::new(0, 1)).unwrap();
    match out.value {
        UntaggedValue::Table(rows) => {
            match &rows[0].value {
                UntaggedValue::Row(cols) => assert_eq!(cols.len(), 1),
                other => panic!("expected a row, got {:?}", other),
            }
        },
        other => panic!("expected a table, got {:?}", other),
    }
}

#[test]
fn from_csv_rejects_non_string() {
    let v = Value { value: UntaggedValue::Bool(true), tag: tag0() };
    let err = run_from_csv(v, Span::new(2, 5)).unwrap_err();
    assert_eq!(err.kind, ErrorKind::TypeMismatch);
    assert_eq!(err.span, Span::new(2, 5));
}
