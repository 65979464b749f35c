use vstd::prelude::*;
use vstd::string::*;
use crate::error::{ErrorKind, Outcome, ShellError};
use crate::value::{UntaggedValue, Value};

verus! {

broadcast use vstd::std_specs::vec::group_vec_axioms;

/// How one character appears inside a JSON string: quote and backslash
/// escaped, everything else as itself.
pub open spec fn esc_char(c: char) -> Seq<char> {
    if c == '"' {
        seq!['\\', '"']
    } else if c == '\\' {
        seq!['\\', '\\']
    } else {
        seq![c]
    }
}

pub open spec fn json_escape(s: Seq<char>) -> Seq<char>
    decreases s.len(),
{
    if s.len() == 0 {
        Seq::empty()
    } else {
        esc_char(s[0]) + json_escape(s.drop_first())
    }
}

proof fn lemma_escape_concat(a: Seq<char>, b: Seq<char>)
    ensures
        json_escape(a + b) == json_escape(a) + json_escape(b),
    decreases a.len(),
{
    if a.len() == 0 {
        assert(a + b =~= b);
        assert(json_escape(a) + json_escape(b) =~= json_escape(b));
    } else {
        assert((a + b).drop_first() =~= a.drop_first() + b);
        assert((a + b)[0] == a[0]);
        lemma_escape_concat(a.drop_first(), b);
        assert(esc_char(a[0]) + (json_escape(a.drop_first()) + json_escape(b)) =~= (esc_char(a[0])
            + json_escape(a.drop_first())) + json_escape(b));
    }
}

proof fn lemma_escape_plain(a: Seq<char>)
    requires
        forall|k: int| 0 <= k < a.len() ==> a[k] != '"' && a[k] != '\\',
    ensures
        json_escape(a) == a,
    decreases a.len(),
{
    if a.len() > 0 {
        lemma_escape_plain(a.drop_first());
        assert(seq![a[0]] + a.drop_first() =~= a);
    }
}

/// Appends the JSON escaping of `s` to `out`.
fn escape_into(out: &mut String, s: &str)
    ensures
        final(out)@ == old(out)@ + json_escape(s@),
{
    let n = s.unicode_len();
    let ghost base = out@;
    let mut i: usize = 0;
    let mut run_start: usize = 0;
    proof {
        assert(s@.subrange(0, 0) =~= Seq::<char>::empty());
        assert(base + Seq::<char>::empty() =~= base);
    }
    while i < n
        invariant
            0 <= run_start <= i <= n,
            n == s@.len(),
            out@ == base + json_escape(s@.subrange(0, run_start as int)),
            forall|k: int| run_start <= k < i ==> s@[k] != '"' && s@[k] != '\\',
        decreases n - i,
    {
        let c = s.get_char(i);
        if c == '"' || c == '\\' {
            let run = s.substring_char(run_start, i);
            out.append(run);
            if c == '"' {
                out.append("\\\"");
            } else {
                out.append("\\\\");
            }
            proof {
                reveal_strlit("\\\"");
                reveal_strlit("\\\\");
                let a = s@.subrange(0, run_start as int);
                let b = s@.subrange(run_start as int, i as int);
                lemma_escape_plain(b);
                lemma_escape_concat(a, b);
                assert(a + b =~= s@.subrange(0, i as int));
                lemma_escape_concat(s@.subrange(0, i as int), seq![s@[i as int]]);
                assert(s@.subrange(0, i as int) + seq![s@[i as int]] =~= s@.subrange(0, i + 1));
                if c == '"' {
                    assert("\\\""@ =~= esc_char(s@[i as int]));
                } else {
                    assert("\\\\"@ =~= esc_char(s@[i as int]));
                }
                assert(seq![s@[i as int]].drop_first() =~= Seq::<char>::empty());
                assert(esc_char(s@[i as int]) + json_escape(Seq::<char>::empty()) =~= esc_char(
                    s@[i as int],
                ));
                assert(json_escape(seq![s@[i as int]]) =~= esc_char(s@[i as int]));
                assert((base + json_escape(a) + b) + esc_char(s@[i as int]) =~= base + json_escape(
                    s@.subrange(0, i + 1),
                ));
            }
            i = i + 1;
            run_start = i;
        } else {
            i = i + 1;
        }
    }
    let run = s.substring_char(run_start, n);
    out.append(run);
    proof {
        let a = s@.subrange(0, run_start as int);
        let b = s@.subrange(run_start as int, n as int);
        lemma_escape_plain(b);
        lemma_escape_concat(a, b);
        assert(a + b =~= s@);
        assert((base + json_escape(a)) + b =~= base + json_escape(s@));
    }
}

pub open spec fn dec_digit(d: int) -> char {
    ((48 + d) as u8) as char
}

/// The decimal digits of a non-negative number.
pub open spec fn dec_nat(n: int) -> Seq<char>
    decreases n,
{
    if n < 0 {
        Seq::empty()
    } else if n < 10 {
        seq![dec_digit(n)]
    } else {
        dec_nat(n / 10).push(dec_digit(n % 10))
    }
}

fn append_digit(out: &mut String, d: usize)
    requires
        d < 10,
    ensures
        final(out)@ == old(out)@ + seq![dec_digit(d as int)],
{
    let ghost base = out@;
    match d {
        0 => out.append("0"),
        1 => out.append("1"),
        2 => out.append("2"),
        3 => out.append("3"),
        4 => out.append("4"),
        5 => out.append("5"),
        6 => out.append("6"),
        7 => out.append("7"),
        8 => out.append("8"),
        _ => out.append("9"),
    }
    proof {
        reveal_strlit("0");
        reveal_strlit("1");
        reveal_strlit("2");
        reveal_strlit("3");
        reveal_strlit("4");
        reveal_strlit("5");
        reveal_strlit("6");
        reveal_strlit("7");
        reveal_strlit("8");
        reveal_strlit("9");
        assert(out@ =~= base + seq![dec_digit(d as int)]);
    }
}

/// Appends the decimal form of `n` to `out`.
fn write_dec(out: &mut String, n: usize)
    ensures
        final(out)@ == old(out)@ + dec_nat(n as int),
    decreases n,
{
    if n < 10 {
        append_digit(out, n);
    } else {
        let ghost base = out@;
        write_dec(out, n / 10);
        append_digit(out, n % 10);
        proof {
            assert((base + dec_nat(n as int / 10)) + seq![dec_digit(n as int % 10)] =~= base
                + dec_nat(n as int));
        }
    }
}

/// The wire form of a value's payload: the kind as discriminant, the
/// payload nested, tables and records recursively.
pub open spec fn json_of_value(v: Value) -> Seq<char>
    decreases v, 0int,
{
    match v.value {
        UntaggedValue::Str(s) => "{\"Str\":\""@ + json_escape(s@) + "\"}"@,
        UntaggedValue::Binary(b) => "{\"Binary\":["@ + bytes_list(b@) + "]}"@,
        UntaggedValue::Bool(b) => if b {
            "{\"Bool\":true}"@
        } else {
            "{\"Bool\":false}"@
        },
        UntaggedValue::Table(vs) => "{\"Table\":["@ + values_list(vs) + "]}"@,
        UntaggedValue::Row(cols) => "{\"Row\":["@ + cols_list(cols) + "]}"@,
        UntaggedValue::Nothing => "{\"Nothing\":null}"@,
    }
}

pub open spec fn values_list(vs: Vec<Value>) -> Seq<char>
    decreases vs, vs@.len() + 1,
{
    if vs@.len() == 0 {
        Seq::empty()
    } else {
        json_of_value(vs@[0]) + values_rest(vs, 1)
    }
}

pub open spec fn values_rest(vs: Vec<Value>, i: int) -> Seq<char>
    decreases vs, vs@.len() - i,
{
    if i < 0 || i >= vs@.len() {
        Seq::empty()
    } else {
        seq![','] + json_of_value(vs@[i]) + values_rest(vs, i + 1)
    }
}

pub open spec fn col_item(name: Seq<char>, v: Value) -> Seq<char>
    decreases v, 1int,
{
    "[\""@ + json_escape(name) + "\","@ + json_of_value(v) + "]"@
}

pub open spec fn cols_list(cols: Vec<(String, Value)>) -> Seq<char>
    decreases cols, cols@.len() + 1,
{
    if cols@.len() == 0 {
        Seq::empty()
    } else {
        col_item(cols@[0].0@, cols@[0].1) + cols_rest(cols, 1)
    }
}

pub open spec fn cols_rest(cols: Vec<(String, Value)>, i: int) -> Seq<char>
    decreases cols, cols@.len() - i,
{
    if i < 0 || i >= cols@.len() {
        Seq::empty()
    } else {
        seq![','] + col_item(cols@[i].0@, cols@[i].1) + cols_rest(cols, i + 1)
    }
}

pub open spec fn bytes_rest(b: Seq<u8>, i: int) -> Seq<char>
    decreases b.len() - i,
{
    if i < 0 || i >= b.len() {
        Seq::empty()
    } else {
        seq![','] + dec_nat(b[i] as int) + bytes_rest(b, i + 1)
    }
}

pub open spec fn bytes_list(b: Seq<u8>) -> Seq<char> {
    if b.len() == 0 {
        Seq::empty()
    } else {
        dec_nat(b[0] as int) + bytes_rest(b, 1)
    }
}

fn write_bytes(out: &mut String, b: &Vec<u8>)
    ensures
        final(out)@ == old(out)@ + bytes_list(b@),
{
    let ghost base = out@;
    if b.len() == 0 {
        proof {
            assert(base + Seq::<char>::empty() =~= base);
        }
        return ;
    }
    write_dec(out, b[0] as usize);
    let ghost head = dec_nat(b@[0] as int);
    let n = b.len();
    let mut j: usize = 1;
    let ghost mut written: Seq<char> = Seq::empty();
    proof {
        assert(written + bytes_rest(b@, 1) =~= bytes_rest(b@, 1));
        assert(out@ =~= (base + head) + written);
    }
    while j < n
        invariant
            1 <= j <= n,
            n == b@.len(),
            out@ == (base + head) + written,
            written + bytes_rest(b@, j as int) == bytes_rest(b@, 1),
        decreases n - j,
    {
        let ghost w0 = written;
        out.append(",");
        write_dec(out, b[j] as usize);
        proof {
            reveal_strlit(",");
            assert(","@ =~= seq![',']);
            written = w0 + seq![','] + dec_nat(b@[j as int] as int);
            assert(out@ =~= (base + head) + written);
            assert(bytes_rest(b@, j as int) == seq![','] + dec_nat(b@[j as int] as int)
                + bytes_rest(b@, j + 1));
            assert(written + bytes_rest(b@, j + 1) =~= w0 + bytes_rest(b@, j as int));
        }
        j = j + 1;
    }
    proof {
        assert(bytes_rest(b@, n as int) =~= Seq::<char>::empty());
        assert(written =~= bytes_rest(b@, 1));
        assert((base + head) + bytes_rest(b@, 1) =~= base + bytes_list(b@));
    }
}

/// Appends the wire form of a value to `out`.
fn write_value(out: &mut String, v: &Value)
    ensures
        final(out)@ == old(out)@ + json_of_value(*v),
    decreases v,
{
    let ghost base = out@;
    match &v.value {
        UntaggedValue::Str(s) => {
            out.append("{\"Str\":\"");
            escape_into(out, s.as_str());
            out.append("\"}");
            proof {
                assert(out@ =~= base + ("{\"Str\":\""@ + json_escape(s@) + "\"}"@));
            }
        },
        UntaggedValue::Binary(b) => {
            out.append("{\"Binary\":[");
            write_bytes(out, b);
            out.append("]}");
            proof {
                assert(out@ =~= base + ("{\"Binary\":["@ + bytes_list(b@) + "]}"@));
            }
        },
        UntaggedValue::Bool(b) => {
            if *b {
                out.append("{\"Bool\":true}");
            } else {
                out.append("{\"Bool\":false}");
            }
        },
        UntaggedValue::Table(vs) => {
            out.append("{\"Table\":[");
            let ghost base2 = out@;
            let n = vs.len();
            if n > 0 {
                write_value(out, &vs[0]);
                let ghost head = json_of_value(vs@[0]);
                let mut j: usize = 1;
                let ghost mut written: Seq<char> = Seq::empty();
                proof {
                    assert(written + values_rest(*vs, 1) =~= values_rest(*vs, 1));
                    assert(out@ =~= (base2 + head) + written);
                }
                while j < n
                    invariant
                        1 <= j <= n,
                        n == vs@.len(),
                        v.value == UntaggedValue::Table(*vs),
                        out@ == (base2 + head) + written,
                        written + values_rest(*vs, j as int) == values_rest(*vs, 1),
                    decreases n - j,
                {
                    let ghost w0 = written;
                    proof {
                        assert(v.value == UntaggedValue::Table(*vs));
                        assert(decreases_to!(*v => v.value));
                        assert(decreases_to!(v.value => v.value->Table_0));
                        assert(decreases_to!(*vs => vs@[j as int]));
                    }
                    out.append(",");
                    write_value(out, &vs[j]);
                    proof {
                        reveal_strlit(",");
                        assert(","@ =~= seq![',']);
                        written = w0 + seq![','] + json_of_value(vs@[j as int]);
                        assert(out@ =~= (base2 + head) + written);
                        assert(values_rest(*vs, j as int) == seq![','] + json_of_value(
                            vs@[j as int],
                        ) + values_rest(*vs, j + 1));
                        assert(written + values_rest(*vs, j + 1) =~= w0 + values_rest(
                            *vs,
                            j as int,
                        ));
                    }
                    j = j + 1;
                }
                proof {
                    assert(values_rest(*vs, n as int) =~= Seq::<char>::empty());
                    assert(written =~= values_rest(*vs, 1));
                }
            }
            out.append("]}");
            proof {
                assert(out@ =~= base + ("{\"Table\":["@ + values_list(*vs) + "]}"@));
            }
        },
        UntaggedValue::Row(cols) => {
            out.append("{\"Row\":[");
            let ghost base2 = out@;
            let n = cols.len();
            if n > 0 {
                write_col(out, &cols[0]);
                let ghost head = col_item(cols@[0].0@, cols@[0].1);
                let mut j: usize = 1;
                let ghost mut written: Seq<char> = Seq::empty();
                proof {
                    assert(written + cols_rest(*cols, 1) =~= cols_rest(*cols, 1));
                    assert(out@ =~= (base2 + head) + written);
                }
                while j < n
                    invariant
                        1 <= j <= n,
                        n == cols@.len(),
                        v.value == UntaggedValue::Row(*cols),
                        out@ == (base2 + head) + written,
                        written + cols_rest(*cols, j as int) == cols_rest(*cols, 1),
                    decreases n - j,
                {
                    let ghost w0 = written;
                    proof {
                        assert(v.value == UntaggedValue::Row(*cols));
                        assert(decreases_to!(*v => v.value));
                        assert(decreases_to!(v.value => v.value->Row_0));
                        assert(decreases_to!(*cols => cols@[j as int]));
                    }
                    out.append(",");
                    write_col(out, &cols[j]);
                    proof {
                        reveal_strlit(",");
                        assert(","@ =~= seq![',']);
                        written = w0 + seq![','] + col_item(cols@[j as int].0@, cols@[j as int].1);
                        assert(out@ =~= (base2 + head) + written);
                        assert(cols_rest(*cols, j as int) == seq![','] + col_item(
                            cols@[j as int].0@,
                            cols@[j as int].1,
                        ) + cols_rest(*cols, j + 1));
                        assert(written + cols_rest(*cols, j + 1) =~= w0 + cols_rest(
                            *cols,
                            j as int,
                        ));
                    }
                    j = j + 1;
                }
                proof {
                    assert(cols_rest(*cols, n as int) =~= Seq::<char>::empty());
                    assert(written =~= cols_rest(*cols, 1));
                }
            }
            out.append("]}");
            proof {
                assert(out@ =~= base + ("{\"Row\":["@ + cols_list(*cols) + "]}"@));
            }
        },
        UntaggedValue::Nothing => {
            out.append("{\"Nothing\":null}");
        },
    }
}

fn write_col(out: &mut String, col: &(String, Value))
    ensures
        final(out)@ == old(out)@ + col_item(col.0@, col.1),
    decreases col,
{
    let ghost base = out@;
    out.append("[\"");
    escape_into(out, col.0.as_str());
    out.append("\",");
    write_value(out, &col.1);
    out.append("]");
    proof {
        assert(out@ =~= base + ("[\""@ + json_escape(col.0@) + "\","@ + json_of_value(col.1)
            + "]"@));
    }
}

pub open spec fn kind_name(k: ErrorKind) -> Seq<char> {
    match k {
        ErrorKind::Parse => "Parse"@,
        ErrorKind::CommandNotFound => "CommandNotFound"@,
        ErrorKind::MissingArgument => "MissingArgument"@,
        ErrorKind::TypeMismatch => "TypeMismatch"@,
        ErrorKind::InvalidEncoding => "InvalidEncoding"@,
        ErrorKind::CouldNotOpen => "CouldNotOpen"@,
    }
}

/// The wire form of a shell error: its kind, message and span.
pub open spec fn json_of_error(e: ShellError) -> Seq<char> {
    "{\"kind\":\""@ + kind_name(e.kind) + "\",\"message\":\""@ + json_escape(e.message@)
        + "\",\"span\":{\"start\":"@ + dec_nat(e.span.start as int) + ",\"end\":"@ + dec_nat(
        e.span.end as int,
    ) + "}}"@
}

/// The wire form of an outcome: a discriminant distinguishing success,
/// shell error and internal error, with the payload nested.
pub open spec fn json_of_outcome(o: Outcome) -> Seq<char> {
    match o {
        Outcome::Success(v) => "{\"Ok\":"@ + json_of_value(v) + "}"@,
        Outcome::Error(e) => "{\"Error\":"@ + json_of_error(e) + "}"@,
        Outcome::InternalError(m) => "{\"InternalError\":\""@ + json_escape(m@) + "\"}"@,
    }
}

fn write_error(out: &mut String, e: &ShellError)
    ensures
        final(out)@ == old(out)@ + json_of_error(*e),
{
    let ghost base = out@;
    out.append("{\"kind\":\"");
    match e.kind {
        ErrorKind::Parse => out.append("Parse"),
        ErrorKind::CommandNotFound => out.append("CommandNotFound"),
        ErrorKind::MissingArgument => out.append("MissingArgument"),
        ErrorKind::TypeMismatch => out.append("TypeMismatch"),
        ErrorKind::InvalidEncoding => out.append("InvalidEncoding"),
        ErrorKind::CouldNotOpen => out.append("CouldNotOpen"),
    }
    out.append("\",\"message\":\"");
    escape_into(out, e.message.as_str());
    out.append("\",\"span\":{\"start\":");
    write_dec(out, e.span.start);
    out.append(",\"end\":");
    write_dec(out, e.span.end);
    out.append("}}");
    proof {
        assert(out@ =~= base + json_of_error(*e));
    }
}

/// Serializes an outcome to its wire text. The encoding is total: every
/// outcome has a wire form and nothing here can fail or panic, so the host
/// always receives a response.
pub fn encode_response(o: &Outcome) -> (r: String)
    ensures
        r@ == json_of_outcome(*o),
{
    let mut out = String::new();
    match o {
        Outcome::Success(v) => {
            out.append("{\"Ok\":");
            write_value(&mut out, v);
            out.append("}");
            proof {
                assert(out@ =~= json_of_outcome(*o));
            }
        },
        Outcome::Error(e) => {
            out.append("{\"Error\":");
            write_error(&mut out, e);
            out.append("}");
            proof {
                assert(out@ =~= json_of_outcome(*o));
            }
        },
        Outcome::InternalError(m) => {
            out.append("{\"InternalError\":\"");
            escape_into(&mut out, m.as_str());
            out.append("\"}");
            proof {
                assert(out@ =~= json_of_outcome(*o));
            }
        },
    }
    out
}

} // verus!
