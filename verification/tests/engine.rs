use shell_eval::error::{ErrorKind, Outcome, ShellError};
use shell_eval::eval::{create_default_context, evaluate};
use shell_eval::host::Host;
use shell_eval::response::encode_response;
use shell_eval::run_nu;
use shell_eval::value::{Span, UntaggedValue, Value};

/// A host serving an in-memory set of files, in the wire form the engine
/// expects from its read callback.
struct MockHost {
    files: Vec<(String, Vec<u8>)>,
}

impl MockHost {
    fn new(files: &[(&str, &[u8])]) -> MockHost {
        MockHost {
            files: files.iter().map(|(p, b)| (p.to_string(), b.to_vec())).collect(),
        }
    }
}

impl Host for MockHost {
    fn read_file(&self, path: &String) -> String {
        for (p, bytes) in &self.files {
            if p == path {
                let nums: Vec<String> = bytes.iter().map(|b| b.to_string()).collect();
                return format!("{{\"Ok\":{{\"data\":[{}]}}}}", nums.join(","));
            }
        }
        format!("{{\"Err\":\"no such file: {}\"}}", path)
    }
}

/// A host whose responses fit no valid form.
struct BrokenHost;

impl Host for BrokenHost {
    fn read_file(&self, _path: &String) -> String {
        "garbage".to_string()
    }
}

#[test]
fn open_csv_auto_converts() {
    let host = MockHost::new(&[("data.csv", b"a,b\n1,2\n")]);
    let r = run_nu("open data.csv", &host);
    assert_eq!(
        r,
        "{\"Ok\":{\"Table\":[{\"Row\":[[\"a\",{\"Str\":\"1\"}],[\"b\",{\"Str\":\"2\"}]]}]}}"
    );
}

#[test]
fn open_csv_raw_keeps_string() {
    let host = MockHost::new(&[("data.csv", b"a,b\n1,2\n")]);
    let r = run_nu("open data.csv --raw", &host);
    assert_eq!(r, "{\"Ok\":{\"Str\":\"a,b\n1,2\n\"}}");
    let r_short = run_nu("open data.csv -r", &host);
    assert_eq!(r_short, r);
}

#[test]
fn open_txt_no_conversion() {
    let host = MockHost::new(&[("notes.txt", b"plain text")]);
    let r = run_nu("open notes.txt", &host);
    assert_eq!(r, "{\"Ok\":{\"Str\":\"plain text\"}}");
}

#[test]
fn open_binary_fallback_end_to_end() {
    let host = MockHost::new(&[("blob.bin", &[0x00, 0x80, 0xFF])]);
    let r = run_nu("open blob.bin", &host);
    assert_eq!(r, "{\"Ok\":{\"Binary\":[0,128,255]}}");
}

#[test]
fn open_explicit_encoding_end_to_end() {
    let host = MockHost::new(&[("acc.txt", &[0xE9])]);
    let r = run_nu("open acc.txt -e latin1", &host);
    assert_eq!(r, "{\"Ok\":{\"Str\":\"\u{00E9}\"}}");
}

#[test]
fn open_invalid_encoding_end_to_end() {
    let host = MockHost::new(&[("a.txt", b"x")]);
    let r = run_nu("open a.txt --encoding nope", &host);
    assert_eq!(
        r,
        "{\"Error\":{\"kind\":\"InvalidEncoding\",\"message\":\"nope is not a valid encoding\",\"span\":{\"start\":22,\"end\":26}}}"
    );
}

#[test]
fn missing_file_is_could_not_open() {
    let host = MockHost::new(&[]);
    let r = run_nu("open gone.csv", &host);
    assert_eq!(
        r,
        "{\"Error\":{\"kind\":\"CouldNotOpen\",\"message\":\"could not open file: no such file: gone.csv\",\"span\":{\"start\":5,\"end\":13}}}"
    );
}

#[test]
fn malformed_host_response_is_could_not_open() {
    let r = run_nu("open a.csv", &BrokenHost);
    assert!(r.contains("\"kind\":\"CouldNotOpen\""), "{}", r);
    assert!(r.contains("malformed host response"), "{}", r);
}

#[test]
fn unknown_command_is_command_not_found() {
    let host = MockHost::new(&[]);
    let r = run_nu("nosuch arg", &host);
    assert_eq!(
        r,
        "{\"Error\":{\"kind\":\"CommandNotFound\",\"message\":\"command not found: nosuch\",\"span\":{\"start\":0,\"end\":6}}}"
    );
}

#[test]
fn unknown_command_in_later_stage_aborts() {
    let host = MockHost::new(&[("data.csv", b"a\n1\n")]);
    let r = run_nu("open data.csv | nosuch", &host);
    assert_eq!(
        r,
        "{\"Error\":{\"kind\":\"CommandNotFound\",\"message\":\"command not found: nosuch\",\"span\":{\"start\":16,\"end\":22}}}"
    );
}

#[test]
fn missing_argument_tied_to_stage_span() {
    let host = MockHost::new(&[]);
    let r = run_nu("open", &host);
    assert_eq!(
        r,
        "{\"Error\":{\"kind\":\"MissingArgument\",\"message\":\"missing required argument\",\"span\":{\"start\":0,\"end\":4}}}"
    );
}

#[test]
fn parse_error_end_to_end() {
    let host = MockHost::new(&[]);
    let r = run_nu("open \"x", &host);
    assert_eq!(
        r,
        "{\"Error\":{\"kind\":\"Parse\",\"message\":\"unclosed quote\",\"span\":{\"start\":5,\"end\":7}}}"
    );
}

#[test]
fn empty_line_is_nothing() {
    let host = MockHost::new(&[]);
    let r = run_nu("", &host);
    assert_eq!(r, "{\"Ok\":{\"Nothing\":null}}");
    let r = run_nu("   ", &host);
    assert_eq!(r, "{\"Ok\":{\"Nothing\":null}}");
}

#[test]
fn raw_then_explicit_from_csv_stage() {
    let host = MockHost::new(&[("data.csv", b"h\nv\n")]);
    let r = run_nu("open data.csv --raw | from csv", &host);
    assert_eq!(r, "{\"Ok\":{\"Table\":[{\"Row\":[[\"h\",{\"Str\":\"v\"}]]}]}}");
}

#[test]
fn utf16_byte_order_mark_decodes_as_text() {
    // bytes that are invalid UTF-8 but open with a UTF-16 byte-order mark:
    // sniffing decodes them as text, so no binary fallback occurs
    let host = MockHost::new(&[("w.txt", &[0xFF, 0xFE, 0x41, 0x00])]);
    let r = run_nu("open w.txt", &host);
    assert_eq!(r, "{\"Ok\":{\"Str\":\"A\"}}");
}

#[test]
fn from_csv_after_auto_convert_rejects_table() {
    let host = MockHost::new(&[("data.csv", b"a\n1\n")]);
    let r = run_nu("open data.csv | from csv", &host);
    assert!(r.contains("\"kind\":\"TypeMismatch\""), "{}", r);
}

#[test]
fn host_free_line_always_succeeds() {
    // a pipeline of conversion stages alone involves no host call and
    // cannot fail
    let host = MockHost::new(&[]);
    assert_eq!(run_nu("from csv", &host), "{\"Ok\":{\"Nothing\":null}}");
    assert_eq!(run_nu("from csv | from csv", &host), "{\"Ok\":{\"Nothing\":null}}");
}

#[test]
fn quoted_path_with_spaces() {
    let host = MockHost::new(&[("my file.txt", b"ok")]);
    let r = run_nu("open \"my file.txt\"", &host);
    assert_eq!(r, "{\"Ok\":{\"Str\":\"ok\"}}");
}

#[test]
fn independent_evaluations_share_nothing() {
    let host_a = MockHost::new(&[("f.txt", b"first")]);
    let host_b = MockHost::new(&[("f.txt", b"second")]);
    let ctx_a = create_default_context().unwrap();
    let ctx_b = create_default_context().unwrap();
    let out_a1 = evaluate("open f.txt", &ctx_a, &host_a);
    let out_b = evaluate("open f.txt", &ctx_b, &host_b);
    let out_a2 = evaluate("open f.txt", &ctx_a, &host_a);
    assert_eq!(encode_response(&out_a1), "{\"Ok\":{\"Str\":\"first\"}}");
    assert_eq!(encode_response(&out_b), "{\"Ok\":{\"Str\":\"second\"}}");
    assert_eq!(encode_response(&out_a2), encode_response(&out_a1));
    assert_eq!(ctx_a.registry.cmds.len(), 2);
    assert_eq!(ctx_b.registry.cmds.len(), 2);
}

#[test]
fn encoder_escapes_and_internal_error() {
    let o = Outcome::InternalError("a \"quoted\" \\ thing".to_string());
    assert_eq!(
        encode_response(&o),
        "{\"InternalError\":\"a \\\"quoted\\\" \\\\ thing\"}"
    );
    let o = Outcome::Error(ShellError {
        kind: ErrorKind::TypeMismatch,
        message: "bad \"x\"".to_string(),
        span: Span::new(3, 7),
    });
    assert_eq!(
        encode_response(&o),
        "{\"Error\":{\"kind\":\"TypeMismatch\",\"message\":\"bad \\\"x\\\"\",\"span\":{\"start\":3,\"end\":7}}}"
    );
}

#[test]
fn encoder_value_kinds() {
    let t = shell_eval::value::Tag { span: Span::new(0, 0), anchor: None };
    let v = Value { value: UntaggedValue::Bool(true), tag: t };
    assert_eq!(encode_response(&Outcome::Success(v)), "{\"Ok\":{\"Bool\":true}}");
}
