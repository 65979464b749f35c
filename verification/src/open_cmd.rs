use vstd::prelude::*;
use vstd::string::*;
use crate::bind::{BoundArgs, BoundV};
use crate::encoding::{
    decode_utf8_sniffed, decode_with_label, is_encoding_label, labeled_decode, resolve_fails,
    utf8_sniff_decode, utf8_sniff_replacements,
};
use crate::error::{ErrorKind, ShellError};
use crate::host::Host;
use crate::hostread::{parse_host_response, HostRead};
use crate::parse::{Token, TokenV};
use crate::registry::{lookup_model, CommandRegistry};
use crate::signature::{sig_names, sig_wf, Signature, SyntaxShape};
use crate::value::{CommandAction, ReturnValue, Span, Tag, Tagged, UntaggedValue, Value};

verus! {

/// The largest position in `s` holding `c`, or -1 if none.
pub open spec fn last_pos(s: Seq<char>, c: char) -> int
    decreases s.len(),
{
    if s.len() == 0 {
        -1
    } else if s[s.len() - 1] == c {
        s.len() - 1
    } else {
        last_pos(s.drop_last(), c)
    }
}

/// The largest position in `s` holding `c` is below the length.
pub proof fn lemma_last_pos_range(s: Seq<char>, c: char)
    ensures
        -1 <= last_pos(s, c) < s.len(),
    decreases s.len(),
{
    if s.len() > 0 && s.last() != c {
        lemma_last_pos_range(s.drop_last(), c);
    }
}

/// How the last position of `c` moves under dropping a prefix.
pub proof fn lemma_last_pos_skip(s: Seq<char>, c: char, k: int)
    requires
        0 <= k <= s.len(),
    ensures
        last_pos(s.skip(k), c) == if last_pos(s, c) >= k {
            last_pos(s, c) - k
        } else {
            -1int
        },
    decreases s.len(),
{
    lemma_last_pos_range(s, c);
    if s.len() == k {
        assert(s.skip(k) =~= Seq::<char>::empty());
    } else {
        assert(s.skip(k).len() == s.len() - k);
        assert(s.skip(k).last() == s.last());
        if s.last() == c {
        } else {
            assert(s.skip(k).drop_last() =~= s.drop_last().skip(k));
            lemma_last_pos_skip(s.drop_last(), c, k);
        }
    }
}

/// The sequence with every trailing `c` removed.
pub open spec fn strip_trailing(s: Seq<char>, c: char) -> Seq<char>
    decreases s.len(),
{
    if s.len() > 0 && s.last() == c {
        strip_trailing(s.drop_last(), c)
    } else {
        s
    }
}

/// The extension of a path: trailing separators are ignored; then it is
/// the final component's text after its last dot, provided the component
/// is not `.` or `..` and the dot neither starts the component nor is
/// absent. It may be empty (a trailing dot). This matches the usual path
/// library's rule except that a final `.` component counts as the
/// component itself here rather than being skipped.
pub open spec fn ext_of(path: Seq<char>) -> Option<Seq<char>> {
    let stripped = strip_trailing(path, '/');
    let comp = stripped.skip(last_pos(stripped, '/') + 1);
    if comp.len() == 0 || (comp.len() == 1 && comp[0] == '.') || (comp.len() == 2 && comp[0]
        == '.' && comp[1] == '.') {
        None
    } else {
        let d = last_pos(comp, '.');
        if d <= 0 {
            None
        } else {
            Some(comp.skip(d + 1))
        }
    }
}

pub open spec fn opt_view(o: Option<String>) -> Option<Seq<char>> {
    match o {
        Option::None => None,
        Option::Some(s) => Some(s@),
    }
}

fn last_pos_exec(s: &str, m: usize, c: char) -> (r: Option<usize>)
    requires
        m <= s@.len(),
    ensures
        match r {
            Option::Some(k) => last_pos(s@.subrange(0, m as int), c) == k as int && k < m,
            Option::None => last_pos(s@.subrange(0, m as int), c) == -1,
        },
{
    let mut best: Option<usize> = None;
    let mut i: usize = 0;
    proof {
        assert(s@.subrange(0, 0) =~= Seq::<char>::empty());
    }
    while i < m
        invariant
            0 <= i <= m,
            m <= s@.len(),
            match best {
                Option::Some(k) => last_pos(s@.subrange(0, i as int), c) == k as int && k < i,
                Option::None => last_pos(s@.subrange(0, i as int), c) == -1,
            },
        decreases m - i,
    {
        proof {
            assert(s@.subrange(0, i + 1).drop_last() =~= s@.subrange(0, i as int));
            assert(s@.subrange(0, i + 1).last() == s@[i as int]);
        }
        if s.get_char(i) == c {
            best = Some(i);
        }
        i = i + 1;
    }
    best
}

/// Derives the candidate format tag from a path's file extension.
pub fn path_extension(path: &str) -> (r: Option<String>)
    ensures
        opt_view(r) == ext_of(path@),
{
    let n0 = path.unicode_len();
    let mut m: usize = n0;
    proof {
        assert(path@.subrange(0, n0 as int) =~= path@);
    }
    while m > 0 && path.get_char(m - 1) == '/'
        invariant
            0 <= m <= n0,
            n0 == path@.len(),
            strip_trailing(path@, '/') == strip_trailing(path@.subrange(0, m as int), '/'),
        decreases m,
    {
        proof {
            assert(path@.subrange(0, m as int).last() == path@[m - 1]);
            assert(path@.subrange(0, m as int).drop_last() =~= path@.subrange(0, m - 1));
        }
        m = m - 1;
    }
    let ghost stripped = strip_trailing(path@, '/');
    proof {
        assert(stripped =~= path@.subrange(0, m as int));
    }
    let sl = last_pos_exec(path, m, '/');
    let start: usize = match sl {
        Some(x) => x + 1,
        None => 0,
    };
    let ghost comp = stripped.skip(last_pos(stripped, '/') + 1);
    proof {
        assert(comp =~= path@.subrange(start as int, m as int));
    }
    let clen = m - start;
    if clen == 0 {
        return None;
    }
    if clen == 1 && path.get_char(start) == '.' {
        return None;
    }
    if clen == 2 && path.get_char(start) == '.' && path.get_char(start + 1) == '.' {
        return None;
    }
    let dot = last_pos_exec(path, m, '.');
    proof {
        lemma_last_pos_skip(path@.subrange(0, m as int), '.', start as int);
    }
    match dot {
        None => None,
        Some(dabs) => {
            if dabs < start + 1 {
                None
            } else {
                let e = String::from_str(path.substring_char(dabs + 1, m));
                proof {
                    assert(e@ =~= comp.skip(dabs - start + 1));
                }
                Some(e)
            }
        },
    }
}

/// What holds of a value produced by decoding with the default UTF-8
/// sniffing path from the byte sequence `b`: binary holding exactly the
/// original bytes when replacement characters were needed, otherwise the
/// decoded text.
pub open spec fn sniffed_value_of(v: Value, b: Seq<u8>) -> bool {
    if utf8_sniff_replacements(b) {
        v.value matches UntaggedValue::Binary(bb) && bb@ == b
    } else {
        v.value matches UntaggedValue::Str(s) && s@ == utf8_sniff_decode(b)
    }
}

/// What holds of a value decoded from the byte sequence `b` under the given
/// encoding choice: the sniffing policy without one, the chosen decoder's
/// text — never a binary fallback — with one.
pub open spec fn decoded_value_of(v: Value, choice: Option<Tagged<String>>, b: Seq<u8>) -> bool {
    match choice {
        Option::None => sniffed_value_of(v, b),
        Option::Some(l) => v.value matches UntaggedValue::Str(s) && s@ == labeled_decode(
            l.item@,
            b,
        ),
    }
}

/// Decodes the bytes read from the host into the stage's value. With no
/// explicit encoding, the UTF-8 default with byte-order-mark sniffing is
/// used, and a decode that needed replacement characters yields the raw
/// bytes as a binary value instead of corrupted text. With an explicit
/// encoding the user's assertion is trusted: byte-order-mark sniffing is
/// off and there is never a fallback to binary.
pub fn decode_to_value(bytes: Vec<u8>, file_tag: Tag, encoding_choice: &Option<Tagged<String>>)
    -> (r: Result<Value, ShellError>)
    requires
        bytes@.len() <= usize::MAX / 8,
    ensures
        r matches Ok(v) ==> v.tag == file_tag,
        encoding_choice is None ==> r is Ok,
        r matches Ok(v) ==> decoded_value_of(v, *encoding_choice, bytes@),
        encoding_choice matches Some(l) ==> (is_encoding_label(l.item@) ==> (r matches Ok(v) && (
        v.value matches UntaggedValue::Str(s) && s@ == labeled_decode(l.item@, bytes@)))),
        r is Err <==> resolve_fails(*encoding_choice),
        r matches Err(e) ==> e.kind == ErrorKind::InvalidEncoding && (encoding_choice matches
            Some(l) && e.span == l.tag.span && e.message@ == l.item@
            + " is not a valid encoding"@),
{
    match encoding_choice {
        None => {
            let (text, replacements) = decode_utf8_sniffed(&bytes);
            if replacements {
                Ok(UntaggedValue::binary(bytes).into_value(file_tag))
            } else {
                Ok(UntaggedValue::string(text).into_value(file_tag))
            }
        },
        Some(l) => {
            match decode_with_label(&l.item, &bytes) {
                Some(text) => Ok(UntaggedValue::string(text).into_value(file_tag)),
                None => {
                    let msg = String::from_str(l.item.as_str()).concat(
                        " is not a valid encoding",
                    );
                    Err(ShellError::labeled(ErrorKind::InvalidEncoding, msg, l.tag.span))
                },
            }
        },
    }
}

/// Loads a path's contents through the host, decodes them, and derives the
/// candidate format tag. The produced value is anchored at the path and
/// carries the path token's span; every failure of the host read is a
/// CouldNotOpen at that span, and an unknown explicit encoding is an
/// InvalidEncoding at the label's span.
pub fn fetch<H: Host>(
    host: &H,
    path: &String,
    span: Span,
    raw: bool,
    encoding_choice: &Option<Tagged<String>>,
) -> (r: Result<(Option<String>, Value), ShellError>)
    ensures
        r matches Ok((ext, v)) ==> {
            &&& (raw ==> ext is None)
            &&& (!raw ==> opt_view(ext) == ext_of(path@))
            &&& v.tag.span == span
            &&& (v.tag.anchor matches Some(a) && a@ == path@)
            &&& (encoding_choice is Some ==> v.value matches UntaggedValue::Str(_))
            &&& exists|b: Seq<u8>| #[trigger] decoded_value_of(v, *encoding_choice, b)
        },
        r matches Err(e) ==> (e.kind == ErrorKind::CouldNotOpen && e.span == span
            && "could not open file: "@.is_prefix_of(e.message@)) || (
        resolve_fails(*encoding_choice) && e.kind == ErrorKind::InvalidEncoding && (encoding_choice
            matches Some(l) && e.span == l.tag.span)),
        resolve_fails(*encoding_choice) ==> r is Err,
{
    let ext = if raw {
        None
    } else {
        path_extension(path.as_str())
    };
    let file_tag = Tag::anchored(span, path.clone());
    let resp = host.read_file(path);
    match parse_host_response(&resp) {
        HostRead::HostErr(m) => {
            let msg = String::from_str("could not open file: ").concat(m.as_str());
            proof {
                assert(msg@.subrange(0, "could not open file: "@.len() as int)
                    =~= "could not open file: "@);
            }
            Err(ShellError::labeled(ErrorKind::CouldNotOpen, msg, span))
        },
        HostRead::Malformed => {
            let msg = String::from_str("could not open file: ").concat("malformed host response");
            proof {
                assert(msg@.subrange(0, "could not open file: "@.len() as int)
                    =~= "could not open file: "@);
            }
            Err(ShellError::labeled(ErrorKind::CouldNotOpen, msg, span))
        },
        HostRead::Bytes(bytes) => {
            if bytes.len() > usize::MAX / 8 {
                let msg = String::from_str("could not open file: ").concat("file too large");
                proof {
                    assert(msg@.subrange(0, "could not open file: "@.len() as int)
                        =~= "could not open file: "@);
                }
                return Err(ShellError::labeled(ErrorKind::CouldNotOpen, msg, span));
            }
            let ghost bv = bytes@;
            match decode_to_value(bytes, file_tag, encoding_choice) {
                Err(e) => Err(e),
                Ok(v) => {
                    proof {
                        assert(decoded_value_of(v, *encoding_choice, bv));
                    }
                    Ok((ext, v))
                },
            }
        },
    }
}

/// The typed arguments of the open command, produced by structural
/// matching against its signature.
#[derive(Debug)]
pub struct OpenArgs {
    pub path: Tagged<String>,
    pub raw: Tagged<bool>,
    pub encoding: Option<Tagged<String>>,
}

/// The value token of the first binding of the given named parameter.
pub open spec fn find_named(named: Seq<(Seq<char>, TokenV)>, name: Seq<char>) -> Option<TokenV>
    decreases named.len(),
{
    if named.len() == 0 {
        None
    } else if named[0].0 == name {
        Some(named[0].1)
    } else {
        find_named(named.drop_first(), name)
    }
}

/// The token `find_named` yields is the value of one of the bindings.
pub proof fn lemma_find_named_mem(named: Seq<(Seq<char>, TokenV)>, name: Seq<char>, tv: TokenV)
    requires
        find_named(named, name) == Some(tv),
    ensures
        exists|t: int| 0 <= t < named.len() && (#[trigger] named[t]).1 == tv,
    decreases named.len(),
{
    if named.len() > 0 {
        if named[0].0 == name {
            assert(named[0].1 == tv);
        } else {
            lemma_find_named_mem(named.drop_first(), name, tv);
            let t0 = choose|t: int|
                0 <= t < named.drop_first().len() && (#[trigger] named.drop_first()[t]).1 == tv;
            assert(named[t0 + 1].1 == tv);
        }
    }
}

pub open spec fn raw_set(b: BoundV) -> bool {
    exists|k: int| 0 <= k < b.switches.len() && b.switches[k] == "raw"@
}

pub open spec fn open_choice(b: BoundV) -> Option<TokenV> {
    find_named(b.named, "encoding"@)
}

fn raw_switch_set(b: &BoundArgs) -> (r: bool)
    ensures
        r == raw_set(b@),
{
    let raw_name = String::from_str("raw");
    let n = b.switches.len();
    let mut i: usize = 0;
    while i < n
        invariant
            0 <= i <= n,
            n == b.switches@.len(),
            raw_name@ == "raw"@,
            forall|k: int| 0 <= k < i ==> b@.switches[k] != "raw"@,
        decreases n - i,
    {
        if b.switches[i] == raw_name {
            proof {
                assert(b@.switches[i as int] == "raw"@);
            }
            return true;
        }
        i = i + 1;
    }
    false
}

fn named_lookup(b: &BoundArgs, name: &String) -> (r: Option<Token>)
    ensures
        match r {
            Option::Some(t) => find_named(b@.named, name@) == Some(t@),
            Option::None => find_named(b@.named, name@) is None,
        },
{
    let n = b.named.len();
    let mut i: usize = 0;
    proof {
        assert(b@.named.skip(0) =~= b@.named);
    }
    while i < n
        invariant
            0 <= i <= n,
            n == b.named@.len(),
            find_named(b@.named, name@) == find_named(b@.named.skip(i as int), name@),
        decreases n - i,
    {
        proof {
            assert(b@.named.skip(i as int)[0] == b@.named[i as int]);
            assert(b@.named.skip(i as int).drop_first() =~= b@.named.skip(i + 1));
        }
        if b.named[i].0 == *name {
            return Some(b.named[i].1.dup());
        }
        i = i + 1;
    }
    proof {
        assert(b@.named.skip(n as int) =~= Seq::<(Seq<char>, TokenV)>::empty());
    }
    None
}

impl OpenArgs {
    /// Extracts the open command's typed arguments from a stage's binding.
    pub fn from_bound(b: &BoundArgs, stage_span: Span) -> (r: Result<OpenArgs, ShellError>)
        ensures
            b@.positional.len() == 0 ==> (r matches Err(e) && e.kind == ErrorKind::MissingArgument
                && e.span == stage_span),
            b@.positional.len() > 0 ==> (r matches Ok(a) && {
                &&& a.path.item@ == b@.positional[0].text
                &&& a.path.tag.span == b@.positional[0].span
                &&& a.raw.item == raw_set(b@)
                &&& (match open_choice(b@) {
                    Option::Some(tv) => a.encoding matches Some(l) && l.item@ == tv.text
                        && l.tag.span == tv.span,
                    Option::None => a.encoding is None,
                })
            }),
    {
        if b.positional.len() == 0 {
            return Err(
                ShellError::labeled(
                    ErrorKind::MissingArgument,
                    String::from_str("missing required argument"),
                    stage_span,
                ),
            );
        }
        let ptok = b.positional[0].dup();
        let path = Tagged::new(ptok.text, Tag::from_span(ptok.span));
        let raw_b = raw_switch_set(b);
        let raw = Tagged::new(raw_b, Tag::from_span(stage_span));
        let enc_name = String::from_str("encoding");
        let encoding = match named_lookup(b, &enc_name) {
            Some(tok) => Some(Tagged::new(tok.text, Tag::from_span(tok.span))),
            None => None,
        };
        Ok(OpenArgs { path, raw, encoding })
    }
}

/// The name of the conversion command for a format tag.
pub open spec fn from_cmd_name(ext: Seq<char>) -> Seq<char> {
    "from "@ + ext
}

/// Whether an auto-conversion applies: the path has an extension and a
/// conversion command for it is registered.
pub open spec fn auto_applies(b: BoundV, reg: CommandRegistry) -> bool {
    match ext_of(b.positional[0].text) {
        Option::Some(e) => lookup_model(reg, from_cmd_name(e)) is Some,
        Option::None => false,
    }
}

/// What holds of the value the open command produced: anchored at the path,
/// carrying the path token's span; with an explicit encoding it is never
/// binary, and its text is that encoding's decoding of whatever bytes the
/// host returned.
pub open spec fn opened_value(v: Value, b: BoundV) -> bool {
    &&& v.tag.span == b.positional[0].span
    &&& (v.tag.anchor matches Some(a) && a@ == b.positional[0].text)
    &&& (open_choice(b) matches Some(tv) ==> (v.value matches UntaggedValue::Str(s) && exists|
        bb: Seq<u8>,
    | s@ == #[trigger] labeled_decode(tv.text, bb)))
    &&& (open_choice(b) is None ==> exists|bb: Seq<u8>| #[trigger] sniffed_value_of(v, bb))
}

pub open spec fn ret_ok(rv: ReturnValue, b: BoundV, reg: CommandRegistry) -> bool {
    match rv {
        ReturnValue::Val(v) => opened_value(v, b),
        ReturnValue::Action(a) => match a {
            CommandAction::AutoConvert(v, e) => {
                &&& opened_value(v, b)
                &&& !raw_set(b)
                &&& ext_of(b.positional[0].text) == Some(e@)
                &&& lookup_model(reg, from_cmd_name(e@)) is Some
            },
        },
    }
}

/// The open command's contract: a missing path is a missing argument at
/// the stage's span, and only then; an unknown explicit encoding always
/// fails; every error kind is tied to its span — the stage for a missing
/// argument, the path token for a failed read, the label token for an
/// unknown encoding. On success there is exactly one output element, an
/// auto-conversion request exactly when structural interpretation is
/// wanted, the path has a known extension and its conversion command is
/// registered — a plain value otherwise, in particular always a plain
/// value under `--raw`.
pub open spec fn open_run_post(
    b: BoundV,
    reg: CommandRegistry,
    stage_span: Span,
    r: Result<Vec<ReturnValue>, ShellError>,
) -> bool {
    &&& (b.positional.len() == 0 ==> (r matches Err(e) && e.kind == ErrorKind::MissingArgument
        && e.span == stage_span))
    &&& (r matches Ok(out) ==> b.positional.len() > 0 && out@.len() == 1 && ret_ok(
        out@[0],
        b,
        reg,
    ))
    &&& (raw_set(b) ==> (r matches Ok(out) ==> out@[0] matches ReturnValue::Val(_)))
    &&& (b.positional.len() > 0 ==> ((!raw_set(b) && auto_applies(b, reg)) ==> (r matches Ok(out)
        ==> out@[0] matches ReturnValue::Action(_))))
    &&& (open_choice(b) matches Some(tv) ==> (!is_encoding_label(tv.text) ==> r is Err))
    &&& (r matches Err(e) ==> {
        ||| (e.kind == ErrorKind::MissingArgument && b.positional.len() == 0 && e.span
            == stage_span)
        ||| (e.kind == ErrorKind::CouldNotOpen && b.positional.len() > 0 && e.span
            == b.positional[0].span && "could not open file: "@.is_prefix_of(e.message@))
        ||| (e.kind == ErrorKind::InvalidEncoding && b.positional.len() > 0 && (open_choice(b)
            matches Some(tv) && e.span == tv.span && !is_encoding_label(tv.text)))
    })
}

/// Runs the open command on a stage's bound arguments.
pub fn run_open<H: Host>(
    host: &H,
    bound: &BoundArgs,
    stage_span: Span,
    registry: &CommandRegistry,
) -> (r: Result<Vec<ReturnValue>, ShellError>)
    ensures
        open_run_post(bound@, *registry, stage_span, r),
{
    let args = match OpenArgs::from_bound(bound, stage_span) {
        Err(e) => {
            return Err(e);
        },
        Ok(a) => a,
    };
    match fetch(host, &args.path.item, args.path.tag.span, args.raw.item, &args.encoding) {
        Err(e) => Err(e),
        Ok((ext_opt, value)) => {
            proof {
                match args.encoding {
                    Option::Some(l) => {
                        let bb = choose|bb: Seq<u8>|
                            decoded_value_of(value, Some(l), bb);
                        assert(decoded_value_of(value, Some(l), bb));
                        match &value.value {
                            UntaggedValue::Str(sv) => {
                                assert(sv@ == labeled_decode(l.item@, bb));
                                match open_choice(bound@) {
                                    Option::Some(tv) => {
                                        assert(sv@ == labeled_decode(tv.text, bb));
                                        assert(exists|bb2: Seq<u8>|
                                            sv@ == #[trigger] labeled_decode(tv.text, bb2));
                                    },
                                    Option::None => {},
                                }
                            },
                            _ => {},
                        }
                    },
                    Option::None => {
                        let bb = choose|bb: Seq<u8>|
                            decoded_value_of(value, Option::<Tagged<String>>::None, bb);
                        assert(decoded_value_of(value, Option::<Tagged<String>>::None, bb));
                        assert(sniffed_value_of(value, bb));
                    },
                }
            }
            let mut out: Vec<ReturnValue> = Vec::new();
            match ext_opt {
                Some(ext) => {
                    let cmd_name = String::from_str("from ").concat(ext.as_str());
                    match registry.find_command(&cmd_name) {
                        Some(_) => {
                            out.push(
                                ReturnValue::Action(CommandAction::AutoConvert(value, ext)),
                            );
                        },
                        None => {
                            out.push(ReturnValue::Val(value));
                        },
                    }
                },
                None => {
                    out.push(ReturnValue::Val(value));
                },
            }
            Ok(out)
        },
    }
}

/// An explicit encoding never falls back to binary: whenever a binding
/// carries an encoding label, every value the open command can produce —
/// plain or handed on for auto-conversion — is a string value, whatever
/// bytes the host returned.
pub proof fn lemma_explicit_encoding_never_binary(
    b: BoundV,
    reg: CommandRegistry,
    stage_span: Span,
    r: Result<Vec<ReturnValue>, ShellError>,
)
    requires
        open_run_post(b, reg, stage_span, r),
        open_choice(b) is Some,
    ensures
        r matches Ok(out) ==> (match out@[0] {
            ReturnValue::Val(v) => v.value matches UntaggedValue::Str(_),
            ReturnValue::Action(a) => match a {
                CommandAction::AutoConvert(v, _) => v.value matches UntaggedValue::Str(_),
            },
        }),
{
}

/// An illustrative invocation, for documentation only.
#[derive(Debug)]
pub struct Example {
    pub description: String,
    pub example: String,
}

/// Whether a signature is the open command's: a required `path`, a `raw`
/// switch and an `encoding` named parameter, with unique names.
pub open spec fn open_sig_ok(s: Signature) -> bool {
    &&& s.name@ == "open"@
    &&& s.positional@.len() == 1
    &&& s.positional@[0].name@ == "path"@
    &&& s.positional@[0].shape == SyntaxShape::Path
    &&& s.named@.len() == 1
    &&& s.named@[0].name@ == "encoding"@
    &&& s.named@[0].shape == SyntaxShape::Text
    &&& s.named@[0].short == Some('e')
    &&& s.switches@.len() == 1
    &&& s.switches@[0].name@ == "raw"@
    &&& s.switches@[0].short == Some('r')
    &&& sig_wf(s)
}

/// The representative built-in that loads a file through the host.
#[derive(Debug)]
pub struct Open;

impl Open {
    pub fn name(&self) -> (r: &'static str)
        ensures
            r@ == "open"@,
    {
        "open"
    }

    pub fn usage(&self) -> (r: &'static str)
        ensures
            r@
                == "Load a file into a cell, convert to table if possible (avoid by appending '--raw')."@,
    {
        "Load a file into a cell, convert to table if possible (avoid by appending '--raw')."
    }

    pub fn signature(&self) -> (s: Signature)
        ensures
            open_sig_ok(s),
    {
        let s = Signature::build(String::from_str("open")).required(
            String::from_str("path"),
            SyntaxShape::Path,
            String::from_str("the file path to load values from"),
        ).switch(
            String::from_str("raw"),
            String::from_str("load content as a string instead of a table"),
            Some('r'),
        ).named_arg(
            String::from_str("encoding"),
            SyntaxShape::Text,
            String::from_str("encoding to use to open file"),
            Some('e'),
        );
        proof {
            reveal_strlit("path");
            reveal_strlit("encoding");
            reveal_strlit("raw");
            assert(sig_names(s) =~= seq!["path"@, "encoding"@, "raw"@]);
            assert(sig_wf(s)) by {
                assert(sig_names(s)[0] == "path"@);
                assert(sig_names(s)[1] == "encoding"@);
                assert(sig_names(s)[2] == "raw"@);
                assert("path"@.len() == 4);
                assert("encoding"@.len() == 8);
                assert("raw"@.len() == 3);
                assert(forall|i: int, j: int|
                    0 <= i < j < sig_names(s).len() ==> sig_names(s)[i] != sig_names(s)[j]);
            }
        }
        s
    }

    pub fn examples(&self) -> (r: Vec<Example>)
        ensures
            r@.len() == 1,
    {
        let mut v: Vec<Example> = Vec::new();
        v.push(
            Example {
                description: String::from_str(
                    "Opens \"users.csv\" and creates a table from the data",
                ),
                example: String::from_str("open users.csv"),
            },
        );
        v
    }

    /// Loads and decodes the path, handing the evaluator an auto-conversion
    /// request when one applies.
    pub fn run<H: Host>(
        &self,
        host: &H,
        bound: &BoundArgs,
        stage_span: Span,
        registry: &CommandRegistry,
    ) -> (r: Result<Vec<ReturnValue>, ShellError>)
        ensures
            open_run_post(bound@, *registry, stage_span, r),
    {
        run_open(host, bound, stage_span, registry)
    }
}

} // verus!
