use vstd::prelude::*;
use vstd::string::*;
use crate::error::{ErrorKind, ShellError};
use crate::parse::{Token, TokenV};
use crate::signature::{
    find_short_named, find_short_switch, has_named, has_switch, named_exists, short_named,
    short_switch, switch_exists, Signature,
};
use crate::value::Span;

verus! {

/// The arguments of one stage after structural matching against the
/// signature: the positional values in order, each named parameter with its
/// value token, and the switches that were set.
#[derive(Debug)]
pub struct BoundArgs {
    pub positional: Vec<Token>,
    pub named: Vec<(String, Token)>,
    pub switches: Vec<String>,
}

/// The mathematical counterpart of `BoundArgs`.
pub struct BoundV {
    pub positional: Seq<TokenV>,
    pub named: Seq<(Seq<char>, TokenV)>,
    pub switches: Seq<Seq<char>>,
}

impl View for BoundArgs {
    type V = BoundV;

    open spec fn view(&self) -> BoundV {
        BoundV {
            positional: self.positional.deep_view(),
            named: self.named.deep_view(),
            switches: self.switches.deep_view(),
        }
    }
}

/// A binding failure: which kind of error and the span it points at.
pub struct BindFailV {
    pub kind: ErrorKind,
    pub span: Span,
}

pub open spec fn empty_bound() -> BoundV {
    BoundV { positional: Seq::empty(), named: Seq::empty(), switches: Seq::empty() }
}

pub open spec fn is_long_flag(t: Seq<char>) -> bool {
    t.len() >= 2 && t[0] == '-' && t[1] == '-'
}

pub open spec fn is_short_flag(t: Seq<char>) -> bool {
    t.len() >= 2 && t[0] == '-' && t[1] != '-'
}

/// Structural matching of a stage's argument tokens against a signature,
/// one token at a time. A `--name` or `-x` flag must be a declared switch
/// or named parameter (else a type mismatch at the flag); a named parameter
/// takes the following token as its value (a missing one is a missing
/// argument at the flag); any other token fills the next positional slot (a
/// surplus one is a type mismatch at that token). A required positional
/// left unfilled at the end is a missing argument at the stage's span.
pub open spec fn bind_fold(
    sig: Signature,
    stage_span: Span,
    tokens: Seq<TokenV>,
    i: int,
    acc: BoundV,
) -> Result<BoundV, BindFailV>
    decreases tokens.len() - i,
{
    if i < 0 || i >= tokens.len() {
        if acc.positional.len() < sig.positional@.len() {
            Err(BindFailV { kind: ErrorKind::MissingArgument, span: stage_span })
        } else {
            Ok(acc)
        }
    } else {
        let t = tokens[i];
        if is_long_flag(t.text) {
            let name = t.text.skip(2);
            if has_switch(sig, name) {
                bind_fold(
                    sig,
                    stage_span,
                    tokens,
                    i + 1,
                    BoundV { switches: acc.switches.push(name), ..acc },
                )
            } else if has_named(sig, name) {
                if i + 1 < tokens.len() {
                    bind_fold(
                        sig,
                        stage_span,
                        tokens,
                        i + 2,
                        BoundV { named: acc.named.push((name, tokens[i + 1])), ..acc },
                    )
                } else {
                    Err(BindFailV { kind: ErrorKind::MissingArgument, span: t.span })
                }
            } else {
                Err(BindFailV { kind: ErrorKind::TypeMismatch, span: t.span })
            }
        } else if is_short_flag(t.text) {
            if t.text.len() != 2 {
                Err(BindFailV { kind: ErrorKind::TypeMismatch, span: t.span })
            } else {
                let c = t.text[1];
                match find_short_switch(sig.switches@, c) {
                    Option::Some(name) => bind_fold(
                        sig,
                        stage_span,
                        tokens,
                        i + 1,
                        BoundV { switches: acc.switches.push(name), ..acc },
                    ),
                    Option::None => match find_short_named(sig.named@, c) {
                        Option::Some(name) => if i + 1 < tokens.len() {
                            bind_fold(
                                sig,
                                stage_span,
                                tokens,
                                i + 2,
                                BoundV { named: acc.named.push((name, tokens[i + 1])), ..acc },
                            )
                        } else {
                            Err(BindFailV { kind: ErrorKind::MissingArgument, span: t.span })
                        },
                        Option::None => Err(
                            BindFailV { kind: ErrorKind::TypeMismatch, span: t.span },
                        ),
                    },
                }
            }
        } else {
            if acc.positional.len() >= sig.positional@.len() {
                Err(BindFailV { kind: ErrorKind::TypeMismatch, span: t.span })
            } else {
                bind_fold(
                    sig,
                    stage_span,
                    tokens,
                    i + 1,
                    BoundV { positional: acc.positional.push(t), ..acc },
                )
            }
        }
    }
}

/// The meaning of binding a stage: fold over its argument tokens, starting
/// after the command name, from an empty binding.
pub open spec fn bind_model(
    sig: Signature,
    stage_span: Span,
    tokens: Seq<TokenV>,
    from: int,
) -> Result<BoundV, BindFailV> {
    bind_fold(sig, stage_span, tokens, from, empty_bound())
}

/// Every token a binding holds — positional values and named parameters'
/// values — is one of the tokens it was built from.
pub open spec fn bound_from(b: BoundV, tokens: Seq<TokenV>) -> bool {
    &&& (forall|t: int|
        0 <= t < b.positional.len() ==> exists|j: int|
            0 <= j < tokens.len() && (#[trigger] b.positional[t]) == tokens[j])
    &&& (forall|t: int|
        0 <= t < b.named.len() ==> exists|j: int|
            0 <= j < tokens.len() && (#[trigger] b.named[t]).1 == tokens[j])
}

pub proof fn lemma_bind_tokens(
    sig: Signature,
    stage_span: Span,
    tokens: Seq<TokenV>,
    i: int,
    acc: BoundV,
    b: BoundV,
)
    requires
        bound_from(acc, tokens),
        bind_fold(sig, stage_span, tokens, i, acc) == Result::<BoundV, BindFailV>::Ok(b),
    ensures
        bound_from(b, tokens),
    decreases tokens.len() - i,
{
    if 0 <= i < tokens.len() {
        let t = tokens[i];
        if is_long_flag(t.text) {
            let name = t.text.skip(2);
            if has_switch(sig, name) {
                lemma_bind_tokens(
                    sig,
                    stage_span,
                    tokens,
                    i + 1,
                    BoundV { switches: acc.switches.push(name), ..acc },
                    b,
                );
            } else if has_named(sig, name) {
                if i + 1 < tokens.len() {
                    let acc2 = BoundV { named: acc.named.push((name, tokens[i + 1])), ..acc };
                    assert(bound_from(acc2, tokens)) by {
                        assert(forall|s: int|
                            0 <= s < acc.named.len() ==> (#[trigger] acc2.named[s]) == acc.named[s]);
                        assert(acc2.named[acc.named.len() as int].1 == tokens[i + 1]);
                    }
                    lemma_bind_tokens(sig, stage_span, tokens, i + 2, acc2, b);
                }
            }
        } else if is_short_flag(t.text) {
            if t.text.len() == 2 {
                let c = t.text[1];
                match find_short_switch(sig.switches@, c) {
                    Option::Some(name) => {
                        lemma_bind_tokens(
                            sig,
                            stage_span,
                            tokens,
                            i + 1,
                            BoundV { switches: acc.switches.push(name), ..acc },
                            b,
                        );
                    },
                    Option::None => {
                        match find_short_named(sig.named@, c) {
                            Option::Some(name) => {
                                if i + 1 < tokens.len() {
                                    let acc2 = BoundV {
                                        named: acc.named.push((name, tokens[i + 1])),
                                        ..acc
                                    };
                                    assert(bound_from(acc2, tokens)) by {
                                        assert(forall|s: int|
                                            0 <= s < acc.named.len() ==> (#[trigger] acc2.named[s])
                                                == acc.named[s]);
                                        assert(acc2.named[acc.named.len() as int].1 == tokens[
                                            i + 1
                                        ]);
                                    }
                                    lemma_bind_tokens(sig, stage_span, tokens, i + 2, acc2, b);
                                }
                            },
                            Option::None => {},
                        }
                    },
                }
            }
        } else {
            if acc.positional.len() < sig.positional@.len() {
                let acc2 = BoundV { positional: acc.positional.push(t), ..acc };
                assert(bound_from(acc2, tokens)) by {
                    assert(forall|s: int|
                        0 <= s < acc.positional.len() ==> (#[trigger] acc2.positional[s])
                            == acc.positional[s]);
                    assert(acc2.positional[acc.positional.len() as int] == tokens[i]);
                }
                lemma_bind_tokens(sig, stage_span, tokens, i + 1, acc2, b);
            }
        }
    }
}

fn flag_kind(t: &Token) -> (r: (bool, bool))
    ensures
        r.0 == is_long_flag(t@.text),
        r.1 == is_short_flag(t@.text),
{
    let st = t.text.as_str();
    let n = st.unicode_len();
    if n < 2 {
        (false, false)
    } else {
        let c0 = st.get_char(0);
        let c1 = st.get_char(1);
        (c0 == '-' && c1 == '-', c0 == '-' && c1 != '-')
    }
}

/// Binds the argument tokens of one stage (those from position `from` on)
/// against the command's signature, producing the typed binding or the
/// structural error, exactly as `bind_model` says.
pub fn bind_args(sig: &Signature, stage_span: Span, tokens: &Vec<Token>, from: usize) -> (r:
    Result<BoundArgs, ShellError>)
    requires
        from <= tokens@.len(),
    ensures
        match r {
            Result::Ok(b) => bind_model(*sig, stage_span, tokens.deep_view(), from as int)
                == Result::<BoundV, BindFailV>::Ok(b@),
            Result::Err(e) => bind_model(*sig, stage_span, tokens.deep_view(), from as int)
                matches Result::Err(f) && f.kind == e.kind && f.span == e.span && (e.kind
                == ErrorKind::MissingArgument || e.kind == ErrorKind::TypeMismatch),
        },
{
    let n = tokens.len();
    let mut acc = BoundArgs { positional: Vec::new(), named: Vec::new(), switches: Vec::new() };
    let mut i: usize = from;
    proof {
        assert(acc@.positional =~= empty_bound().positional);
        assert(acc@.named =~= empty_bound().named);
        assert(acc@.switches =~= empty_bound().switches);
    }
    loop
        invariant
            from <= i <= n,
            n == tokens@.len(),
            bind_model(*sig, stage_span, tokens.deep_view(), from as int) == bind_fold(
                *sig,
                stage_span,
                tokens.deep_view(),
                i as int,
                acc@,
            ),
        decreases n - i,
    {
        let ghost toks = tokens.deep_view();
        let ghost accv = acc@;
        if i >= n {
            if acc.positional.len() < sig.positional.len() {
                return Err(
                    ShellError::labeled(
                        ErrorKind::MissingArgument,
                        String::from_str("missing required argument"),
                        stage_span,
                    ),
                );
            }
            return Ok(acc);
        }
        let t = &tokens[i];
        let ghost tv = toks[i as int];
        let (long, short) = flag_kind(t);
        if long {
            let st = t.text.as_str();
            let len = st.unicode_len();
            let name = String::from_str(st.substring_char(2, len));
            proof {
                assert(name@ =~= tv.text.skip(2));
            }
            if switch_exists(sig, &name) {
                acc.switches.push(name);
                proof {
                    assert(acc@.switches =~= accv.switches.push(tv.text.skip(2)));
                    assert(acc@ == BoundV { switches: accv.switches.push(tv.text.skip(2)), ..accv });
                }
                i = i + 1;
            } else if named_exists(sig, &name) {
                if i + 1 < n {
                    let v = tokens[i + 1].dup();
                    acc.named.push((name, v));
                    proof {
                        assert(acc@.named =~= accv.named.push((tv.text.skip(2), toks[i as int + 1])));
                        assert(acc@ == BoundV {
                            named: accv.named.push((tv.text.skip(2), toks[i as int + 1])),
                            ..accv
                        });
                    }
                    i = i + 2;
                } else {
                    return Err(
                        ShellError::labeled(
                            ErrorKind::MissingArgument,
                            String::from_str("flag needs a value"),
                            t.span,
                        ),
                    );
                }
            } else {
                return Err(
                    ShellError::labeled(
                        ErrorKind::TypeMismatch,
                        String::from_str("unrecognized flag"),
                        t.span,
                    ),
                );
            }
        } else if short {
            let st = t.text.as_str();
            let len = st.unicode_len();
            if len != 2 {
                return Err(
                    ShellError::labeled(
                        ErrorKind::TypeMismatch,
                        String::from_str("unrecognized flag"),
                        t.span,
                    ),
                );
            }
            let c = st.get_char(1);
            match short_switch(sig, c) {
                Some(name) => {
                    let ghost namev = name@;
                    acc.switches.push(name);
                    proof {
                        assert(acc@.switches =~= accv.switches.push(namev));
                        assert(acc@ == BoundV { switches: accv.switches.push(namev), ..accv });
                    }
                    i = i + 1;
                },
                None => {
                    match short_named(sig, c) {
                        Some(name) => {
                            if i + 1 < n {
                                let ghost namev = name@;
                                let v = tokens[i + 1].dup();
                                acc.named.push((name, v));
                                proof {
                                    assert(acc@.named =~= accv.named.push(
                                        (namev, toks[i as int + 1]),
                                    ));
                                    assert(acc@ == BoundV {
                                        named: accv.named.push((namev, toks[i as int + 1])),
                                        ..accv
                                    });
                                }
                                i = i + 2;
                            } else {
                                return Err(
                                    ShellError::labeled(
                                        ErrorKind::MissingArgument,
                                        String::from_str("flag needs a value"),
                                        t.span,
                                    ),
                                );
                            }
                        },
                        None => {
                            return Err(
                                ShellError::labeled(
                                    ErrorKind::TypeMismatch,
                                    String::from_str("unrecognized flag"),
                                    t.span,
                                ),
                            );
                        },
                    }
                },
            }
        } else {
            if acc.positional.len() >= sig.positional.len() {
                return Err(
                    ShellError::labeled(
                        ErrorKind::TypeMismatch,
                        String::from_str("unexpected argument"),
                        t.span,
                    ),
                );
            }
            let v = t.dup();
            acc.positional.push(v);
            proof {
                assert(acc@.positional =~= accv.positional.push(tv));
                assert(acc@ == BoundV { positional: accv.positional.push(tv), ..accv });
            }
            i = i + 1;
        }
    }
}

} // verus!
