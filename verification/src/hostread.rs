use vstd::prelude::*;
use vstd::string::*;

verus! {

/// What the engine makes of one host read response: the file's bytes, a
/// host-side failure message, or a response that fits neither form.
#[derive(Debug)]
pub enum HostRead {
    Bytes(Vec<u8>),
    HostErr(String),
    Malformed,
}

/// The mathematical counterpart of `HostRead`.
pub enum HostReadV {
    Bytes(Seq<u8>),
    HostErr(Seq<char>),
    Malformed,
}

pub open spec fn is_digit(c: char) -> bool {
    48 <= c as u32 <= 57
}

pub open spec fn digit_val(c: char) -> int {
    c as u32 - 48
}

/// The opening of a successful response, `{"Ok":{"data":[`.
pub open spec fn ok_prefix() -> Seq<char> {
    seq!['{', '"', 'O', 'k', '"', ':', '{', '"', 'd', 'a', 't', 'a', '"', ':', '[']
}

/// The opening of a failed response, `{"Err":"`.
pub open spec fn err_prefix() -> Seq<char> {
    seq!['{', '"', 'E', 'r', 'r', '"', ':', '"']
}

pub open spec fn has_prefix(s: Seq<char>, p: Seq<char>) -> bool {
    p.len() <= s.len() && forall|k: int| 0 <= k < p.len() ==> s[k] == p[k]
}

/// Reads the comma-separated decimal bytes of a response from position `i`
/// up to and including the closing bracket. `acc` holds the bytes already
/// read; `cur` the value of the digits of the item being read, if any digit
/// of it has been seen. Redundant leading zeros are tolerated; anything
/// else beyond the stated form is not. Yields the bytes and the position
/// after `]`.
pub open spec fn parse_byte_items(s: Seq<char>, i: int, acc: Seq<u8>, cur: Option<int>) -> Option<
    (Seq<u8>, int),
>
    decreases s.len() - i,
{
    if i < 0 || i >= s.len() {
        None
    } else if is_digit(s[i]) {
        let v = match cur {
            Option::None => digit_val(s[i]),
            Option::Some(n) => n * 10 + digit_val(s[i]),
        };
        if v > 255 {
            None
        } else {
            parse_byte_items(s, i + 1, acc, Some(v))
        }
    } else if s[i] == ',' {
        match cur {
            Option::None => None,
            Option::Some(n) => parse_byte_items(s, i + 1, acc.push(n as u8), None),
        }
    } else if s[i] == ']' {
        match cur {
            Option::None => None,
            Option::Some(n) => Some((acc.push(n as u8), i + 1)),
        }
    } else {
        None
    }
}

/// Reads the characters of a host failure message from position `i` up to
/// and including the closing quote, honouring the `\"` and `\\` escapes.
/// Yields the message and the position after the quote.
pub open spec fn parse_err_msg(s: Seq<char>, i: int, acc: Seq<char>) -> Option<(Seq<char>, int)>
    decreases s.len() - i,
{
    if i < 0 || i >= s.len() {
        None
    } else if s[i] == '"' {
        Some((acc, i + 1))
    } else if s[i] == '\\' {
        if i + 1 < s.len() && (s[i + 1] == '"' || s[i + 1] == '\\') {
            parse_err_msg(s, i + 2, acc.push(s[i + 1]))
        } else {
            None
        }
    } else {
        parse_err_msg(s, i + 1, acc.push(s[i]))
    }
}

/// The meaning of one host read response: `{"Ok":{"data":[b,..]}}`
/// carrying bytes or `{"Err":"msg"}` carrying a message, in their exact
/// compact form. Everything else is malformed.
pub open spec fn host_response_model(s: Seq<char>) -> HostReadV {
    if has_prefix(s, ok_prefix()) {
        if s.len() == 18 && s[15] == ']' && s[16] == '}' && s[17] == '}' {
            HostReadV::Bytes(Seq::empty())
        } else {
            match parse_byte_items(s, 15, Seq::empty(), None) {
                Option::Some((bytes, j)) => if j + 2 == s.len() && s[j] == '}' && s[j + 1]
                    == '}' {
                    HostReadV::Bytes(bytes)
                } else {
                    HostReadV::Malformed
                },
                Option::None => HostReadV::Malformed,
            }
        }
    } else if has_prefix(s, err_prefix()) {
        match parse_err_msg(s, 8, Seq::empty()) {
            Option::Some((msg, j)) => if j + 1 == s.len() && s[j] == '}' {
                HostReadV::HostErr(msg)
            } else {
                HostReadV::Malformed
            },
            Option::None => HostReadV::Malformed,
        }
    } else {
        HostReadV::Malformed
    }
}

spec fn opt_int(o: Option<u32>) -> Option<int> {
    match o {
        Option::None => None,
        Option::Some(v) => Some(v as int),
    }
}

fn parse_bytes_exec(s: &str, n: usize) -> (r: Option<(Vec<u8>, usize)>)
    requires
        n == s@.len(),
        15 <= n,
    ensures
        match r {
            Option::Some((b, j)) => parse_byte_items(s@, 15, Seq::empty(), None) == Some(
                (b@, j as int),
            ),
            Option::None => parse_byte_items(s@, 15, Seq::empty(), None) is None,
        },
{
    let mut acc: Vec<u8> = Vec::new();
    let mut cur: Option<u32> = None;
    let mut i: usize = 15;
    loop
        invariant
            15 <= i <= n,
            n == s@.len(),
            cur matches Some(v) ==> v <= 255,
            parse_byte_items(s@, 15, Seq::empty(), None) == parse_byte_items(
                s@,
                i as int,
                acc@,
                opt_int(cur),
            ),
        decreases n - i,
    {
        if i >= n {
            return None;
        }
        let c = s.get_char(i);
        let cu = c as u32;
        if 48 <= cu && cu <= 57 {
            let d = cu - 48;
            let v = match cur {
                None => d,
                Some(prev) => prev * 10 + d,
            };
            if v > 255 {
                return None;
            }
            cur = Some(v);
            i = i + 1;
        } else if c == ',' {
            match cur {
                None => {
                    return None;
                },
                Some(v) => {
                    acc.push(v as u8);
                    cur = None;
                    i = i + 1;
                },
            }
        } else if c == ']' {
            match cur {
                None => {
                    return None;
                },
                Some(v) => {
                    acc.push(v as u8);
                    return Some((acc, i + 1));
                },
            }
        } else {
            return None;
        }
    }
}

fn parse_err_exec(s: &str, n: usize) -> (r: Option<(String, usize)>)
    requires
        n == s@.len(),
        8 <= n,
    ensures
        match r {
            Option::Some((m, j)) => parse_err_msg(s@, 8, Seq::empty()) == Some((m@, j as int)),
            Option::None => parse_err_msg(s@, 8, Seq::empty()) is None,
        },
{
    let mut msg = String::new();
    let mut i: usize = 8;
    let mut run_start: usize = 8;
    loop
        invariant
            8 <= run_start <= i <= n,
            n == s@.len(),
            parse_err_msg(s@, 8, Seq::empty()) == parse_err_msg(
                s@,
                i as int,
                msg@ + s@.subrange(run_start as int, i as int),
            ),
        decreases n - i,
    {
        if i >= n {
            return None;
        }
        let c = s.get_char(i);
        let ghost acc_pre = msg@ + s@.subrange(run_start as int, i as int);
        if c == '"' {
            let run = s.substring_char(run_start, i);
            msg.append(run);
            proof {
                assert(msg@ =~= acc_pre);
            }
            return Some((msg, i + 1));
        } else if c == '\\' {
            if i + 1 < n {
                let e = s.get_char(i + 1);
                if e == '"' || e == '\\' {
                    let run = s.substring_char(run_start, i);
                    msg.append(run);
                    let esc = s.substring_char(i + 1, i + 2);
                    msg.append(esc);
                    proof {
                        assert(s@.subrange(i + 1, i + 2) =~= seq![s@[i as int + 1]]);
                        assert(msg@ =~= acc_pre.push(s@[i as int + 1]));
                        assert(msg@ + s@.subrange(i + 2, i + 2) =~= msg@);
                    }
                    i = i + 2;
                    run_start = i;
                } else {
                    return None;
                }
            } else {
                return None;
            }
        } else {
            proof {
                assert(msg@ + s@.subrange(run_start as int, i + 1) =~= acc_pre.push(
                    s@[i as int],
                ));
            }
            i = i + 1;
        }
    }
}

fn has_ok_prefix(s: &str, n: usize) -> (b: bool)
    requires
        n == s@.len(),
    ensures
        b == has_prefix(s@, ok_prefix()),
{
    if n < 15 {
        assert(!has_prefix(s@, ok_prefix()));
        return false;
    }
    let ok = s.get_char(0) == '{' && s.get_char(1) == '"' && s.get_char(2) == 'O' && s.get_char(3)
        == 'k' && s.get_char(4) == '"' && s.get_char(5) == ':' && s.get_char(6) == '{'
        && s.get_char(7) == '"' && s.get_char(8) == 'd' && s.get_char(9) == 'a' && s.get_char(10)
        == 't' && s.get_char(11) == 'a' && s.get_char(12) == '"' && s.get_char(13) == ':'
        && s.get_char(14) == '[';
    proof {
        if !ok {
            if has_prefix(s@, ok_prefix()) {
                assert(forall|k: int| 0 <= k < 15 ==> s@[k] == #[trigger] ok_prefix()[k]);
                assert(false);
            }
        }
    }
    ok
}

fn has_err_prefix(s: &str, n: usize) -> (b: bool)
    requires
        n == s@.len(),
    ensures
        b == has_prefix(s@, err_prefix()),
{
    if n < 8 {
        assert(!has_prefix(s@, err_prefix()));
        return false;
    }
    let ok = s.get_char(0) == '{' && s.get_char(1) == '"' && s.get_char(2) == 'E' && s.get_char(3)
        == 'r' && s.get_char(4) == 'r' && s.get_char(5) == '"' && s.get_char(6) == ':'
        && s.get_char(7) == '"';
    proof {
        if !ok {
            if has_prefix(s@, err_prefix()) {
                assert(forall|k: int| 0 <= k < 8 ==> s@[k] == #[trigger] err_prefix()[k]);
                assert(false);
            }
        }
    }
    ok
}

/// Validates one host read response against the response grammar and
/// extracts the bytes or the host's failure message.
pub fn parse_host_response(s: &String) -> (r: HostRead)
    ensures
        match r {
            HostRead::Bytes(b) => host_response_model(s@) == HostReadV::Bytes(b@),
            HostRead::HostErr(m) => host_response_model(s@) == HostReadV::HostErr(m@),
            HostRead::Malformed => host_response_model(s@) == HostReadV::Malformed,
        },
{
    let st = s.as_str();
    let n = st.unicode_len();
    if has_ok_prefix(st, n) {
        if n == 18 && st.get_char(15) == ']' && st.get_char(16) == '}' && st.get_char(17) == '}' {
            return HostRead::Bytes(Vec::new());
        }
        match parse_bytes_exec(st, n) {
            Some((bytes, j)) => {
                if n >= 2 && j == n - 2 && st.get_char(j) == '}' && st.get_char(j + 1) == '}' {
                    HostRead::Bytes(bytes)
                } else {
                    HostRead::Malformed
                }
            },
            None => HostRead::Malformed,
        }
    } else if has_err_prefix(st, n) {
        match parse_err_exec(st, n) {
            Some((msg, j)) => {
                if n >= 1 && j == n - 1 && st.get_char(j) == '}' {
                    HostRead::HostErr(msg)
                } else {
                    HostRead::Malformed
                }
            },
            None => HostRead::Malformed,
        }
    } else {
        HostRead::Malformed
    }
}

} // verus!
