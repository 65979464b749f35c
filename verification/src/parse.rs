use vstd::prelude::*;
use vstd::string::*;
use crate::error::{ErrorKind, ShellError};
use crate::value::Span;

verus! {

/// One word of the input line, with the place it came from. A token is
/// either a bare run of characters or the inside of a quoted section.
#[derive(Debug)]
pub struct Token {
    pub text: String,
    pub span: Span,
}

/// The mathematical counterpart of `Token`.
pub struct TokenV {
    pub text: Seq<char>,
    pub span: Span,
}

impl View for Token {
    type V = TokenV;

    open spec fn view(&self) -> TokenV {
        TokenV { text: self.text@, span: self.span }
    }
}

impl DeepView for Token {
    type V = TokenV;

    open spec fn deep_view(&self) -> TokenV {
        self.view()
    }
}

impl Token {
    /// A structural copy.
    pub fn dup(&self) -> (t: Token)
        ensures
            t@ == self@,
    {
        Token { text: self.text.clone(), span: self.span }
    }
}

/// One stage of a pipeline: its tokens (the first is the command name) and
/// the span the stage covers.
#[derive(Debug)]
pub struct Stage {
    pub tokens: Vec<Token>,
    pub span: Span,
}

/// The mathematical counterpart of `Stage`.
pub struct StageV {
    pub tokens: Seq<TokenV>,
    pub span: Span,
}

impl View for Stage {
    type V = StageV;

    open spec fn view(&self) -> StageV {
        StageV { tokens: self.tokens.deep_view(), span: self.span }
    }
}

impl DeepView for Stage {
    type V = StageV;

    open spec fn deep_view(&self) -> StageV {
        self.view()
    }
}

/// A raw item of the lexed line: a token, or a pipe delimiter with its span.
pub enum RawItem {
    Tok(Token),
    Pipe(Span),
}

pub enum RawItemV {
    Tok(TokenV),
    Pipe(Span),
}

impl View for RawItem {
    type V = RawItemV;

    open spec fn view(&self) -> RawItemV {
        match self {
            RawItem::Tok(t) => RawItemV::Tok(t@),
            RawItem::Pipe(p) => RawItemV::Pipe(*p),
        }
    }
}

impl DeepView for RawItem {
    type V = RawItemV;

    open spec fn deep_view(&self) -> RawItemV {
        self.view()
    }
}

/// The first position at or after `i` holding `c`, or the length if none.
pub open spec fn find_char(s: Seq<char>, c: char, i: int) -> int
    decreases s.len() - i,
{
    if i < 0 || i >= s.len() {
        s.len() as int
    } else if s[i] == c {
        i
    } else {
        find_char(s, c, i + 1)
    }
}

pub proof fn lemma_find_char_bounds(s: Seq<char>, c: char, i: int)
    requires
        0 <= i <= s.len(),
    ensures
        i <= find_char(s, c, i) <= s.len(),
        find_char(s, c, i) < s.len() ==> s[find_char(s, c, i)] == c,
        forall|k: int| i <= k < find_char(s, c, i) ==> s[k] != c,
    decreases s.len() - i,
{
    if i < s.len() && s[i] != c {
        lemma_find_char_bounds(s, c, i + 1);
    }
}

pub open spec fn is_sep(c: char) -> bool {
    c == ' ' || c == '|' || c == '"'
}

/// The first position at or after `i` holding a separator, or the length.
pub open spec fn find_sep(s: Seq<char>, i: int) -> int
    decreases s.len() - i,
{
    if i < 0 || i >= s.len() {
        s.len() as int
    } else if is_sep(s[i]) {
        i
    } else {
        find_sep(s, i + 1)
    }
}

pub proof fn lemma_find_sep_bounds(s: Seq<char>, i: int)
    requires
        0 <= i <= s.len(),
    ensures
        i <= find_sep(s, i) <= s.len(),
        find_sep(s, i) < s.len() ==> is_sep(s[find_sep(s, i)]),
        forall|k: int| i <= k < find_sep(s, i) ==> !is_sep(s[k]),
    decreases s.len() - i,
{
    if i < s.len() && !is_sep(s[i]) {
        lemma_find_sep_bounds(s, i + 1);
    }
}

pub open spec fn sp(i: int, j: int) -> Span {
    Span { start: i as usize, end: j as usize }
}

pub open spec fn cons_item(x: RawItemV, r: Result<Seq<RawItemV>, int>) -> Result<
    Seq<RawItemV>,
    int,
> {
    match r {
        Result::Ok(rest) => Ok(seq![x] + rest),
        Result::Err(q) => Err(q),
    }
}

/// The lexical reading of the line from position `i` on: spaces separate,
/// `|` stands alone, a quoted section is one token holding its inside, any
/// other run up to a separator is one token. An unclosed quote fails with
/// the position of the opening quote.
pub open spec fn lex(s: Seq<char>, i: int) -> Result<Seq<RawItemV>, int>
    decreases s.len() - i,
    via lex_dec
{
    if i < 0 || i >= s.len() {
        Ok(Seq::empty())
    } else if s[i] == ' ' {
        lex(s, i + 1)
    } else if s[i] == '|' {
        cons_item(RawItemV::Pipe(sp(i, i + 1)), lex(s, i + 1))
    } else if s[i] == '"' {
        let j = find_char(s, '"', i + 1);
        if j >= s.len() {
            Err(i)
        } else {
            cons_item(
                RawItemV::Tok(TokenV { text: s.subrange(i + 1, j), span: sp(i, j + 1) }),
                lex(s, j + 1),
            )
        }
    } else {
        let j = find_sep(s, i);
        cons_item(RawItemV::Tok(TokenV { text: s.subrange(i, j), span: sp(i, j) }), lex(s, j))
    }
}

#[via_fn]
proof fn lex_dec(s: Seq<char>, i: int) {
    if 0 <= i < s.len() {
        if s[i] == '"' {
            lemma_find_char_bounds(s, '"', i + 1);
        } else if s[i] != ' ' && s[i] != '|' {
            lemma_find_sep_bounds(s, i);
        }
    }
}

pub open spec fn mk_stage(tokens: Seq<TokenV>) -> StageV
    recommends
        tokens.len() > 0,
{
    StageV {
        tokens,
        span: Span {
            start: tokens[0].span.start,
            end: tokens[tokens.len() - 1].span.end,
        },
    }
}

/// Groups the lexed items into stages at the pipe delimiters. A stage with
/// no tokens — a leading, doubled or trailing pipe — fails with the span of
/// the pipe concerned.
pub open spec fn group_items(
    items: Seq<RawItemV>,
    i: int,
    cur: Seq<TokenV>,
    acc: Seq<StageV>,
    last_pipe: Option<Span>,
) -> Result<Seq<StageV>, Span>
    decreases items.len() - i,
{
    if i < 0 || i >= items.len() {
        if cur.len() > 0 {
            Ok(acc.push(mk_stage(cur)))
        } else {
            match last_pipe {
                Option::Some(p) => Err(p),
                Option::None => Ok(acc),
            }
        }
    } else {
        match items[i] {
            RawItemV::Pipe(p) => if cur.len() == 0 {
                Err(p)
            } else {
                group_items(items, i + 1, Seq::empty(), acc.push(mk_stage(cur)), Some(p))
            },
            RawItemV::Tok(t) => group_items(items, i + 1, cur.push(t), acc, last_pipe),
        }
    }
}

pub proof fn lemma_group_nonempty(
    items: Seq<RawItemV>,
    i: int,
    cur: Seq<TokenV>,
    acc: Seq<StageV>,
    lp: Option<Span>,
    stages: Seq<StageV>,
)
    requires
        forall|t: int| 0 <= t < acc.len() ==> #[trigger] acc[t].tokens.len() > 0,
        group_items(items, i, cur, acc, lp) == Result::<Seq<StageV>, Span>::Ok(stages),
    ensures
        forall|t: int| 0 <= t < stages.len() ==> #[trigger] stages[t].tokens.len() > 0,
    decreases items.len() - i,
{
    if 0 <= i < items.len() {
        match items[i] {
            RawItemV::Pipe(p) => {
                if cur.len() > 0 {
                    lemma_group_nonempty(
                        items,
                        i + 1,
                        Seq::empty(),
                        acc.push(mk_stage(cur)),
                        Some(p),
                        stages,
                    );
                }
            },
            RawItemV::Tok(t) => {
                lemma_group_nonempty(items, i + 1, cur.push(t), acc, lp, stages);
            },
        }
    }
}

/// Every stage a successful parse yields holds at least its command name.
pub proof fn lemma_parse_stages_nonempty(s: Seq<char>, stages: Seq<StageV>)
    requires
        parse_model(s) == Result::<Seq<StageV>, Span>::Ok(stages),
    ensures
        forall|t: int| 0 <= t < stages.len() ==> #[trigger] stages[t].tokens.len() > 0,
{
    match lex(s, 0) {
        Result::Ok(items) => {
            lemma_group_nonempty(items, 0, Seq::empty(), Seq::empty(), None, stages);
        },
        Result::Err(_) => {},
    }
}

/// The meaning of parsing one line: the stages, or the span of the parse
/// failure (an unclosed quote or an empty stage).
pub open spec fn parse_model(s: Seq<char>) -> Result<Seq<StageV>, Span> {
    match lex(s, 0) {
        Result::Ok(items) => group_items(items, 0, Seq::empty(), Seq::empty(), None),
        Result::Err(q) => Err(sp(q, s.len() as int)),
    }
}

spec fn lex_app(done: Seq<RawItemV>, r: Result<Seq<RawItemV>, int>) -> Result<
    Seq<RawItemV>,
    int,
> {
    match r {
        Result::Ok(rest) => Ok(done + rest),
        Result::Err(q) => Err(q),
    }
}

fn scan_to_quote(s: &str, n: usize, from: usize) -> (j: usize)
    requires
        n == s@.len(),
        from <= n,
    ensures
        j as int == find_char(s@, '"', from as int),
        from <= j <= n,
{
    let mut j: usize = from;
    while j < n && s.get_char(j) != '"'
        invariant
            from <= j <= n,
            n == s@.len(),
            find_char(s@, '"', from as int) == find_char(s@, '"', j as int),
        decreases n - j,
    {
        assert(find_char(s@, '"', j as int) == find_char(s@, '"', j + 1));
        j = j + 1;
    }
    proof {
        assert(find_char(s@, '"', j as int) == j as int);
        lemma_find_char_bounds(s@, '"', from as int);
    }
    j
}

fn scan_to_sep(s: &str, n: usize, from: usize) -> (j: usize)
    requires
        n == s@.len(),
        from <= n,
    ensures
        j as int == find_sep(s@, from as int),
        from <= j <= n,
{
    let mut j: usize = from;
    while j < n && s.get_char(j) != ' ' && s.get_char(j) != '|' && s.get_char(j) != '"'
        invariant
            from <= j <= n,
            n == s@.len(),
            find_sep(s@, from as int) == find_sep(s@, j as int),
        decreases n - j,
    {
        assert(find_sep(s@, j as int) == find_sep(s@, j + 1));
        j = j + 1;
    }
    proof {
        assert(find_sep(s@, j as int) == j as int);
        lemma_find_sep_bounds(s@, from as int);
    }
    j
}

fn lex_exec(s: &str, n: usize) -> (r: Result<Vec<RawItem>, usize>)
    requires
        n == s@.len(),
    ensures
        match r {
            Result::Ok(items) => lex(s@, 0) == Result::<Seq<RawItemV>, int>::Ok(items.deep_view()),
            Result::Err(q) => lex(s@, 0) == Result::<Seq<RawItemV>, int>::Err(q as int),
        },
{
    let mut done: Vec<RawItem> = Vec::new();
    let mut i: usize = 0;
    proof {
        assert(Seq::<RawItemV>::empty() + Seq::<RawItemV>::empty() =~= Seq::<RawItemV>::empty());
    }
    loop
        invariant
            0 <= i <= n,
            n == s@.len(),
            lex(s@, 0) == lex_app(done.deep_view(), lex(s@, i as int)),
        decreases n - i,
    {
        if i >= n {
            proof {
                assert(lex(s@, i as int) == Result::<Seq<RawItemV>, int>::Ok(Seq::empty()));
                assert(done.deep_view() + Seq::<RawItemV>::empty() =~= done.deep_view());
            }
            return Ok(done);
        }
        let ghost pre = done.deep_view();
        let c = s.get_char(i);
        if c == ' ' {
            proof {
                assert(lex(s@, i as int) == lex(s@, i + 1));
            }
            i = i + 1;
        } else if c == '|' {
            let ghost item = RawItemV::Pipe(sp(i as int, i as int + 1));
            proof {
                assert(lex(s@, i as int) == cons_item(item, lex(s@, i + 1)));
            }
            done.push(RawItem::Pipe(Span::new(i, i + 1)));
            proof {
                assert(done.deep_view() =~= pre.push(item));
                lemma_lex_app_push(pre, item, lex(s@, i + 1));
            }
            i = i + 1;
        } else if c == '"' {
            let j = scan_to_quote(s, n, i + 1);
            if j >= n {
                proof {
                    assert(lex(s@, i as int) == Result::<Seq<RawItemV>, int>::Err(i as int));
                }
                return Err(i);
            }
            let text = String::from_str(s.substring_char(i + 1, j));
            let tok = Token { text, span: Span::new(i, j + 1) };
            let ghost tv = tok@;
            proof {
                assert(tv.text =~= s@.subrange(i + 1, j as int));
                assert(lex(s@, i as int) == cons_item(RawItemV::Tok(tv), lex(s@, j + 1)));
            }
            done.push(RawItem::Tok(tok));
            proof {
                assert(done.deep_view() =~= pre.push(RawItemV::Tok(tv)));
                lemma_lex_app_push(pre, RawItemV::Tok(tv), lex(s@, j + 1));
            }
            i = j + 1;
        } else {
            let j = scan_to_sep(s, n, i);
            proof {
                assert(find_sep(s@, i as int) == find_sep(s@, i + 1));
                lemma_find_sep_bounds(s@, i + 1);
            }
            let text = String::from_str(s.substring_char(i, j));
            let tok = Token { text, span: Span::new(i, j) };
            let ghost tv = tok@;
            proof {
                assert(tv.text =~= s@.subrange(i as int, j as int));
                assert(lex(s@, i as int) == cons_item(RawItemV::Tok(tv), lex(s@, j as int)));
            }
            done.push(RawItem::Tok(tok));
            proof {
                assert(done.deep_view() =~= pre.push(RawItemV::Tok(tv)));
                lemma_lex_app_push(pre, RawItemV::Tok(tv), lex(s@, j as int));
            }
            i = j;
        }
    }
}

proof fn lemma_lex_app_push(pre: Seq<RawItemV>, item: RawItemV, r: Result<Seq<RawItemV>, int>)
    ensures
        lex_app(pre, cons_item(item, r)) == lex_app(pre.push(item), r),
{
    match r {
        Result::Ok(rest) => {
            assert(pre + (seq![item] + rest) =~= pre.push(item) + rest);
        },
        Result::Err(_) => {},
    }
}

fn group_exec(items: Vec<RawItem>) -> (r: Result<Vec<Stage>, Span>)
    ensures
        match r {
            Result::Ok(stages) => group_items(items.deep_view(), 0, Seq::empty(), Seq::empty(), None)
                == Result::<Seq<StageV>, Span>::Ok(stages.deep_view()),
            Result::Err(e) => group_items(items.deep_view(), 0, Seq::empty(), Seq::empty(), None)
                == Result::<Seq<StageV>, Span>::Err(e),
        },
{
    let n = items.len();
    let mut acc: Vec<Stage> = Vec::new();
    let mut cur: Vec<Token> = Vec::new();
    let mut cur_span = Span::new(0, 0);
    let mut last_pipe: Option<Span> = None;
    let mut i: usize = 0;
    proof {
        assert(cur.deep_view() =~= Seq::<TokenV>::empty());
        assert(acc.deep_view() =~= Seq::<StageV>::empty());
    }
    while i < n
        invariant
            0 <= i <= n,
            n == items.len(),
            cur@.len() > 0 ==> cur_span == mk_stage(cur.deep_view()).span,
            group_items(items.deep_view(), 0, Seq::empty(), Seq::empty(), None) == group_items(
                items.deep_view(),
                i as int,
                cur.deep_view(),
                acc.deep_view(),
                last_pipe,
            ),
        decreases n - i,
    {
        let ghost curv = cur.deep_view();
        let ghost accv = acc.deep_view();
        match &items[i] {
            RawItem::Pipe(p) => {
                let pspan = *p;
                if cur.len() == 0 {
                    return Err(pspan);
                }
                let stage = Stage { tokens: cur, span: cur_span };
                proof {
                    assert(stage@.tokens =~= curv);
                    assert(acc.deep_view().push(stage@) =~= accv.push(mk_stage(curv)));
                }
                acc.push(stage);
                proof {
                    assert(acc.deep_view() =~= accv.push(mk_stage(curv)));
                }
                cur = Vec::new();
                proof {
                    assert(cur.deep_view() =~= Seq::<TokenV>::empty());
                }
                last_pipe = Some(pspan);
            },
            RawItem::Tok(t) => {
                let td = t.dup();
                let ghost tv = td@;
                if cur.len() == 0 {
                    cur_span = Span::new(td.span.start, td.span.end);
                } else {
                    cur_span = Span::new(cur_span.start, td.span.end);
                }
                cur.push(td);
                proof {
                    assert(cur.deep_view() =~= curv.push(tv));
                    assert(cur.deep_view()[0] == cur.deep_view().first());
                }
            },
        }
        i = i + 1;
    }
    let ghost curv = cur.deep_view();
    let ghost accv = acc.deep_view();
    if cur.len() > 0 {
        let stage = Stage { tokens: cur, span: cur_span };
        proof {
            assert(stage@.tokens =~= curv);
        }
        acc.push(stage);
        proof {
            assert(acc.deep_view() =~= accv.push(mk_stage(curv)));
        }
        return Ok(acc);
    }
    match last_pipe {
        Some(p) => Err(p),
        None => {
            proof {
                assert(acc.deep_view() =~= accv);
            }
            Ok(acc)
        },
    }
}

/// Parses one raw line into its ordered pipeline stages, or reports the
/// parse failure with the span it concerns.
pub fn parse_line(s: &str) -> (r: Result<Vec<Stage>, ShellError>)
    ensures
        match r {
            Result::Ok(stages) => parse_model(s@) == Result::<Seq<StageV>, Span>::Ok(
                stages.deep_view(),
            ),
            Result::Err(e) => e.kind == ErrorKind::Parse && parse_model(s@) == Result::<
                Seq<StageV>,
                Span,
            >::Err(e.span),
        },
{
    let n = s.unicode_len();
    match lex_exec(s, n) {
        Err(q) => Err(
            ShellError::labeled(
                ErrorKind::Parse,
                String::from_str("unclosed quote"),
                Span::new(q, n),
            ),
        ),
        Ok(items) => match group_exec(items) {
            Err(span) => Err(
                ShellError::labeled(ErrorKind::Parse, String::from_str("empty pipeline stage"), span),
            ),
            Ok(stages) => Ok(stages),
        },
    }
}

} // verus!
