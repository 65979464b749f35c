use vstd::prelude::*;
use vstd::string::*;
use crate::error::{ErrorKind, ShellError};
use crate::value::Tagged;

verus! {

#[verifier::external_type_specification]
#[verifier::external_body]
pub struct ExEncoding(encoding_rs::Encoding);

/// Whether a label names an encoding of the WHATWG Encoding Standard
/// registry, as `encoding_rs::Encoding::for_label` decides it (after
/// ASCII-lowercasing and trimming, against the registry's label table).
pub uninterp spec fn is_encoding_label(label: Seq<char>) -> bool;

/// The text that the registry's UTF-8 decoder with byte-order-mark sniffing
/// produces from the given bytes, and whether it had to substitute
/// replacement characters for malformed sequences. Both depend on the bytes
/// alone.
pub uninterp spec fn utf8_sniff_decode(bytes: Seq<u8>) -> Seq<char>;

pub uninterp spec fn utf8_sniff_replacements(bytes: Seq<u8>) -> bool;

/// The canonical name of the encoding the registry maps `label` to, as
/// `Encoding::name` renders it; a function of the label alone.
pub uninterp spec fn canon_of(label: Seq<char>) -> Seq<char>;

/// Relies on encoding_rs::Encoding::for_label and Encoding::name: looks
/// the label up in the WHATWG Encoding Standard registry and renders the
/// found encoding's canonical name; both depend on the label alone.
#[verifier::external_body]
fn encoding_for_label(label: &String) -> (r: Option<(&'static encoding_rs::Encoding, String)>)
    ensures
        r is Some <==> is_encoding_label(label@),
        r matches Some(p) ==> p.1@ == canon_of(label@),
{
    match encoding_rs::Encoding::for_label(label.as_bytes()) {
        Some(enc) => Some((enc, enc.name().to_string())),
        None => None,
    }
}

/// Relies on encoding_rs::UTF_8 and Encoding::name: the registry's UTF-8
/// encoding, whose documented canonical name is "UTF-8".
#[verifier::external_body]
fn utf8_encoding() -> (r: (&'static encoding_rs::Encoding, String))
    ensures
        r.1@ == "UTF-8"@,
{
    (encoding_rs::UTF_8, encoding_rs::UTF_8.name().to_string())
}

/// Relies on encoding_rs::Encoding::decode invoked on UTF_8: byte-order-mark
/// sniffing, then decoding with replacement, reporting whether any malformed
/// sequence was replaced. The result is a function of the bytes alone. The
/// length bound keeps clear of the documented panic on backing-buffer size
/// overflow.
#[verifier::external_body]
pub(crate) fn decode_utf8_sniffed(bytes: &Vec<u8>) -> (r: (String, bool))
    requires
        bytes@.len() <= usize::MAX / 8,
    ensures
        r.0@ == utf8_sniff_decode(bytes@),
        r.1 == utf8_sniff_replacements(bytes@),
{
    let (cow, _actual, replacements) = encoding_rs::UTF_8.decode(bytes);
    (cow.into_owned(), replacements)
}

/// The text that the registry's decoder for `label` produces from the
/// given bytes with byte-order-mark removal. Both the label lookup and the
/// decode are functions of their arguments alone.
pub uninterp spec fn labeled_decode(label: Seq<char>, bytes: Seq<u8>) -> Seq<char>;

/// Relies on encoding_rs::Encoding::for_label and
/// Encoding::decode_with_bom_removal: resolves the label in the registry
/// and, when it is known, decodes with replacement, removing a leading
/// byte-order mark of that encoding only. Label lookup and decode are both
/// deterministic, so the produced text is a function of label and bytes
/// alone. The length bound keeps clear of the documented panic on
/// backing-buffer size overflow.
#[verifier::external_body]
pub(crate) fn decode_with_label(label: &String, bytes: &Vec<u8>) -> (r: Option<String>)
    requires
        bytes@.len() <= usize::MAX / 8,
    ensures
        r is Some <==> is_encoding_label(label@),
        r matches Some(s) ==> s@ == labeled_decode(label@, bytes@),
{
    match encoding_rs::Encoding::for_label(label.as_bytes()) {
        Some(enc) => {
            let (cow, _replacements) = enc.decode_with_bom_removal(bytes);
            Some(cow.into_owned())
        },
        None => None,
    }
}

/// Exactly when resolving fails: a label was given and it is not in the
/// registry.
pub open spec fn resolve_fails(opt: Option<Tagged<String>>) -> bool {
    opt matches Some(l) && !is_encoding_label(l.item@)
}

/// The canonical name resolving is owed: UTF-8 when no label was given,
/// the label's canonical form otherwise.
pub open spec fn resolved_name(opt: Option<Tagged<String>>) -> Seq<char> {
    match opt {
        Option::None => "UTF-8"@,
        Option::Some(l) => canon_of(l.item@),
    }
}

/// Maps a user-supplied encoding label to a concrete decoder, handed back
/// with its canonical name. No label means the UTF-8 default; an unknown
/// label is an InvalidEncoding error pointing at the label's span.
pub fn get_encoding(opt: &Option<Tagged<String>>) -> (r: Result<
    (&'static encoding_rs::Encoding, String),
    ShellError,
>)
    ensures
        r is Ok <==> !resolve_fails(*opt),
        r matches Ok(d) ==> d.1@ == resolved_name(*opt),
        resolve_fails(*opt) ==> (r matches Err(e) && (opt matches Some(l) && {
            &&& e.kind == ErrorKind::InvalidEncoding
            &&& e.span == l.tag.span
            &&& e.message@ == l.item@ + " is not a valid encoding"@
        })),
{
    match opt {
        None => Ok(utf8_encoding()),
        Some(label) => match encoding_for_label(&label.item) {
            Some(d) => Ok(d),
            None => {
                let msg = String::from_str(label.item.as_str()).concat(
                    " is not a valid encoding",
                );
                Err(ShellError::labeled(ErrorKind::InvalidEncoding, msg, label.tag.span))
            },
        },
    }
}

} // verus!
