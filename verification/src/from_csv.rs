use vstd::prelude::*;
use vstd::string::*;
use crate::error::{ErrorKind, ShellError};
use crate::parse::{find_char, lemma_find_char_bounds};
use crate::value::{Span, Tag, UntaggedValue, Value};

verus! {

/// The pieces of `s` between occurrences of `c`, from position `i` on.
/// There is always at least one piece; a trailing separator yields a final
/// empty piece.
pub open spec fn split_from(s: Seq<char>, c: char, i: int) -> Seq<Seq<char>>
    decreases s.len() - i,
    via split_from_dec
{
    if i < 0 {
        Seq::empty()
    } else {
        let j = find_char(s, c, i);
        if j >= s.len() {
            seq![s.subrange(i, s.len() as int)]
        } else {
            seq![s.subrange(i, j)] + split_from(s, c, j + 1)
        }
    }
}

#[via_fn]
proof fn split_from_dec(s: Seq<char>, c: char, i: int) {
    if 0 <= i <= s.len() {
        lemma_find_char_bounds(s, c, i);
    }
}

pub open spec fn split_on(s: Seq<char>, c: char) -> Seq<Seq<char>> {
    split_from(s, c, 0)
}

/// The cell matrix of a text taken as comma-separated values: one row per
/// line, a final empty line (from a trailing newline) dropped, each line
/// split at the commas.
pub open spec fn csv_cells(text: Seq<char>) -> Seq<Seq<Seq<char>>> {
    let lines = split_on(text, '\n');
    let trimmed = if lines.len() > 0 && lines.last().len() == 0 {
        lines.drop_last()
    } else {
        lines
    };
    trimmed.map_values(|l: Seq<char>| split_on(l, ','))
}

fn scan_char(s: &str, n: usize, from: usize, c: char) -> (j: usize)
    requires
        n == s@.len(),
        from <= n,
    ensures
        j as int == find_char(s@, c, from as int),
        from <= j <= n,
{
    let mut j: usize = from;
    while j < n && s.get_char(j) != c
        invariant
            from <= j <= n,
            n == s@.len(),
            find_char(s@, c, from as int) == find_char(s@, c, j as int),
        decreases n - j,
    {
        assert(find_char(s@, c, j as int) == find_char(s@, c, j + 1));
        j = j + 1;
    }
    proof {
        assert(find_char(s@, c, j as int) == j as int);
        lemma_find_char_bounds(s@, c, from as int);
    }
    j
}

/// Splits a string at every occurrence of `c`, exactly as `split_on` says.
pub fn split_on_exec(s: &str, c: char) -> (r: Vec<String>)
    ensures
        r.deep_view() == split_on(s@, c),
{
    let n = s.unicode_len();
    let mut out: Vec<String> = Vec::new();
    let mut start: usize = 0;
    proof {
        assert(Seq::<Seq<char>>::empty() + split_from(s@, c, 0) =~= split_from(s@, c, 0));
    }
    loop
        invariant
            0 <= start <= n,
            n == s@.len(),
            split_on(s@, c) == out.deep_view() + split_from(s@, c, start as int),
        decreases n - start + 1,
    {
        let ghost pre = out.deep_view();
        let j = scan_char(s, n, start, c);
        if j >= n {
            let piece = String::from_str(s.substring_char(start, n));
            out.push(piece);
            proof {
                assert(split_from(s@, c, start as int) == seq![s@.subrange(start as int, n as int)]);
                assert(out.deep_view() =~= pre.push(s@.subrange(start as int, n as int)));
                assert(pre + seq![s@.subrange(start as int, n as int)] =~= out.deep_view());
            }
            return out;
        }
        let piece = String::from_str(s.substring_char(start, j));
        out.push(piece);
        proof {
            assert(out.deep_view() =~= pre.push(s@.subrange(start as int, j as int)));
            assert(pre + (seq![s@.subrange(start as int, j as int)] + split_from(s@, c, j + 1))
                =~= out.deep_view() + split_from(s@, c, j + 1));
        }
        start = j + 1;
    }
}

/// Splits a text into its comma-separated cells, exactly as `csv_cells`
/// says.
pub fn parse_csv(text: &str) -> (r: Vec<Vec<String>>)
    ensures
        r.deep_view() == csv_cells(text@),
{
    let mut lines = split_on_exec(text, '\n');
    let ghost lines0 = lines.deep_view();
    if lines.len() > 0 && lines[lines.len() - 1].as_str().is_empty() {
        lines.pop();
        proof {
            assert(lines.deep_view() =~= lines0.drop_last());
        }
    }
    let ghost trimmed = lines.deep_view();
    let n = lines.len();
    let mut out: Vec<Vec<String>> = Vec::new();
    let mut i: usize = 0;
    while i < n
        invariant
            0 <= i <= n,
            n == lines@.len(),
            trimmed == lines.deep_view(),
            out.deep_view() =~= trimmed.subrange(0, i as int).map_values(
                |l: Seq<char>| split_on(l, ','),
            ),
        decreases n - i,
    {
        let ghost pre = out.deep_view();
        let row = split_on_exec(lines[i].as_str(), ',');
        out.push(row);
        proof {
            assert(out.deep_view() =~= pre.push(split_on(trimmed[i as int], ',')));
            assert(trimmed.subrange(0, i + 1).map_values(|l: Seq<char>| split_on(l, ','))
                =~= trimmed.subrange(0, i as int).map_values(|l: Seq<char>| split_on(l, ',')).push(
                split_on(trimmed[i as int], ','),
            ));
        }
        i = i + 1;
    }
    proof {
        assert(trimmed.subrange(0, n as int) =~= trimmed);
        assert(csv_cells(text@) == trimmed.map_values(|l: Seq<char>| split_on(l, ',')));
    }
    out
}

/// Two tags carrying the same provenance.
pub open spec fn tag_like(a: Tag, b: Tag) -> bool {
    &&& a.span == b.span
    &&& (match (a.anchor, b.anchor) {
        (Option::None, Option::None) => true,
        (Option::Some(x), Option::Some(y)) => x@ == y@,
        _ => false,
    })
}

/// One row of the produced table: a record pairing each header with the
/// corresponding field of its line, surplus fields or headers dropped.
pub open spec fn row_ok(v: Value, headers: Seq<Seq<char>>, fields: Seq<Seq<char>>, tag: Tag)
    -> bool {
    &&& tag_like(v.tag, tag)
    &&& (v.value matches UntaggedValue::Row(cols) && {
        let m: int = if headers.len() <= fields.len() {
            headers.len() as int
        } else {
            fields.len() as int
        };
        &&& cols@.len() == m
        &&& (forall|j: int|
            0 <= j < m ==> (#[trigger] cols@[j]).0@ == headers[j] && (cols@[j].1.value matches
                UntaggedValue::Str(t) && t@ == fields[j]) && tag_like(cols@[j].1.tag, tag))
    })
}

/// The produced table: the first line gives the headers, each further line
/// one row.
pub open spec fn csv_table_ok(rows: Seq<Value>, cells: Seq<Seq<Seq<char>>>, tag: Tag) -> bool {
    if cells.len() == 0 {
        rows.len() == 0
    } else {
        &&& rows.len() == cells.len() - 1
        &&& (forall|i: int|
            0 <= i < rows.len() ==> row_ok(#[trigger] rows[i], cells[0], cells[i + 1], tag))
    }
}

fn dup_tag(t: &Tag) -> (r: Tag)
    ensures
        tag_like(r, *t),
{
    let anchor = match &t.anchor {
        Some(a) => Some(a.clone()),
        None => None,
    };
    Tag { span: t.span, anchor }
}

/// Converts a string value holding comma-separated text into a table of
/// records, one per data line, keyed by the header line; the tags of the
/// input value are inherited. Any other kind of input is a type mismatch
/// at the stage's span.
pub fn run_from_csv(v: Value, stage_span: Span) -> (r: Result<Value, ShellError>)
    ensures
        v.value matches UntaggedValue::Str(s) ==> (r matches Ok(out) && tag_like(out.tag, v.tag)
            && (out.value matches UntaggedValue::Table(rows) && csv_table_ok(
            rows@,
            csv_cells(s@),
            v.tag,
        ))),
        !(v.value matches UntaggedValue::Str(_)) ==> (r matches Err(e) && e.kind
            == ErrorKind::TypeMismatch && e.span == stage_span),
{
    let Value { value, tag } = v;
    let text = match value {
        UntaggedValue::Str(s) => s,
        _ => {
            return Err(
                ShellError::labeled(
                    ErrorKind::TypeMismatch,
                    String::from_str("expected text input"),
                    stage_span,
                ),
            );
        },
    };
    let ghost cells_spec = csv_cells(text@);
    let cells = parse_csv(text.as_str());
    let mut rows: Vec<Value> = Vec::new();
    if cells.len() > 0 {
        let nrows = cells.len() - 1;
        let mut i: usize = 0;
        while i < nrows
            invariant
                0 <= i <= nrows,
                nrows == cells@.len() - 1,
                cells.deep_view() == cells_spec,
                cells_spec.len() > 0,
                rows@.len() == i,
                forall|t: int|
                    0 <= t < i ==> row_ok(#[trigger] rows@[t], cells_spec[0], cells_spec[t + 1], tag),
            decreases nrows - i,
        {
            let headers = &cells[0];
            let fields = &cells[i + 1];
            let m = if headers.len() <= fields.len() {
                headers.len()
            } else {
                fields.len()
            };
            let mut cols: Vec<(String, Value)> = Vec::new();
            let mut j: usize = 0;
            while j < m
                invariant
                    0 <= j <= m,
                    m <= headers@.len(),
                    m <= fields@.len(),
                    headers.deep_view() == cells_spec[0],
                    fields.deep_view() == cells_spec[i as int + 1],
                    cells_spec.len() > 0,
                    0 <= i < cells_spec.len() - 1,
                    cols@.len() == j,
                    forall|t: int|
                        0 <= t < j ==> (#[trigger] cols@[t]).0@ == cells_spec[0][t] && (
                        cols@[t].1.value matches UntaggedValue::Str(f) && f@ == cells_spec[
                            i as int + 1
                        ][t]) && tag_like(cols@[t].1.tag, tag),
                decreases m - j,
            {
                let field = Value {
                    value: UntaggedValue::Str(fields[j].clone()),
                    tag: dup_tag(&tag),
                };
                cols.push((headers[j].clone(), field));
                j = j + 1;
            }
            let rowv = Value { value: UntaggedValue::Row(cols), tag: dup_tag(&tag) };
            rows.push(rowv);
            i = i + 1;
        }
    }
    let out = Value { value: UntaggedValue::Table(rows), tag: dup_tag(&tag) };
    Ok(out)
}

} // verus!
