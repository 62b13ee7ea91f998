//! Table output: records of named cells laid out under the union of their
//! field names, in lexicographic order, then drawn by comfy-table.
use vstd::prelude::*;

use crate::text::chars_of;

verus! {

/// `a` sorts before `b`, comparing characters by code point, a proper
/// prefix first; the order of `str` and of a `BTreeSet<&str>`.
pub open spec fn lex_lt(a: Seq<char>, b: Seq<char>) -> bool
    decreases a.len(),
{
    if a.len() == 0 {
        b.len() > 0
    } else if b.len() == 0 {
        false
    } else if a[0] != b[0] {
        a[0] < b[0]
    } else {
        lex_lt(a.drop_first(), b.drop_first())
    }
}

/// Nothing sorts before itself.
pub proof fn lemma_lex_irreflexive(a: Seq<char>)
    ensures
        !lex_lt(a, a),
    decreases a.len(),
{
    if a.len() > 0 {
        lemma_lex_irreflexive(a.drop_first());
    }
}

/// The order is transitive.
pub proof fn lemma_lex_transitive(a: Seq<char>, b: Seq<char>, c: Seq<char>)
    requires
        lex_lt(a, b),
        lex_lt(b, c),
    ensures
        lex_lt(a, c),
    decreases a.len(),
{
    if a.len() > 0 && b.len() > 0 && c.len() > 0 && a[0] == b[0] && b[0] == c[0] {
        lemma_lex_transitive(a.drop_first(), b.drop_first(), c.drop_first());
    }
}

/// Two different texts are ordered one way or the other.
pub proof fn lemma_lex_total(a: Seq<char>, b: Seq<char>)
    requires
        a != b,
    ensures
        lex_lt(a, b) || lex_lt(b, a),
    decreases a.len(),
{
    if a.len() > 0 && b.len() > 0 && a[0] == b[0] {
        if a.drop_first() == b.drop_first() {
            assert(a =~= seq![a[0]] + a.drop_first());
            assert(b =~= seq![b[0]] + b.drop_first());
        }
        lemma_lex_total(a.drop_first(), b.drop_first());
    } else if a.len() == 0 && b.len() == 0 {
        assert(a =~= b);
    }
}

/// Whether `a` sorts before `b`.
pub fn lex_less(a: &Vec<char>, b: &Vec<char>) -> (r: bool)
    ensures
        r == lex_lt(a@, b@),
{
    let mut i: usize = 0;
    assert(a@.skip(0) =~= a@);
    assert(b@.skip(0) =~= b@);
    while i < a.len() && i < b.len() && a[i] == b[i]
        invariant
            i <= a.len(),
            i <= b.len(),
            lex_lt(a@, b@) == lex_lt(a@.skip(i as int), b@.skip(i as int)),
        decreases a.len() - i,
    {
        assert(a@.skip(i as int).drop_first() =~= a@.skip(i + 1));
        assert(b@.skip(i as int).drop_first() =~= b@.skip(i + 1));
        i = i + 1;
    }
    if i == a.len() {
        i < b.len()
    } else if i == b.len() {
        false
    } else {
        a[i] < b[i]
    }
}

/// A record: its field names, each with the cell text shown for it.
pub open spec fn record_has_key(record: Seq<(Seq<char>, Seq<char>)>, key: Seq<char>) -> bool {
    exists|j: int| 0 <= j < record.len() && record[j].0 == key
}

/// The cell a record shows under `key`: the text given with its first
/// field of that name, or nothing.
pub open spec fn cell_for(record: Seq<(Seq<char>, Seq<char>)>, key: Seq<char>) -> Seq<char>
    decreases record.len(),
{
    if record.len() == 0 {
        Seq::empty()
    } else if record[0].0 == key {
        record[0].1
    } else {
        cell_for(record.drop_first(), key)
    }
}

/// Some record has a field named `key`.
pub open spec fn some_record_has(records: Seq<Seq<(Seq<char>, Seq<char>)>>, key: Seq<char>) -> bool {
    exists|i: int| 0 <= i < records.len() && record_has_key(records[i], key)
}

/// The headers are the field names that occur, each once, in increasing
/// order.
pub open spec fn is_header_row(records: Seq<Seq<(Seq<char>, Seq<char>)>>, headers: Seq<Seq<char>>) -> bool {
    &&& forall|a: int, b: int| 0 <= a < b < headers.len() ==> lex_lt(headers[a], headers[b])
    &&& forall|c: int| 0 <= c < headers.len() ==> some_record_has(records, #[trigger] headers[c])
    &&& forall|i: int, j: int|
        0 <= i < records.len() && 0 <= j < records[i].len() ==> headers.contains(#[trigger] records[i][j].0)
}

/// Each record becomes one row, with its cell under each header.
pub open spec fn is_body(
    records: Seq<Seq<(Seq<char>, Seq<char>)>>,
    headers: Seq<Seq<char>>,
    rows: Seq<Seq<Seq<char>>>,
) -> bool {
    &&& rows.len() == records.len()
    &&& forall|i: int| 0 <= i < rows.len() ==> (#[trigger] rows[i]).len() == headers.len()
    &&& forall|i: int, c: int|
        0 <= i < rows.len() && 0 <= c < headers.len() ==> #[trigger] rows[i][c] == cell_for(records[i], headers[c])
}

spec fn sorted_strictly(s: Seq<Seq<char>>) -> bool {
    forall|a: int, b: int| 0 <= a < b < s.len() ==> lex_lt(s[a], s[b])
}

/// Inserts `key` into the sorted, duplicate-free `headers` unless it is
/// there already. The header names form an ordered set; vstd specifies
/// `BTreeSet::insert` only for keys whose `Ord` it knows to obey its laws,
/// which `String`'s is not, so a sorted list without repeats holds the set
/// here, ordered by code points as `String` orders.
fn insert_header(headers: &mut Vec<String>, key: &String)
    requires
        sorted_strictly(old(headers).deep_view()),
    ensures
        sorted_strictly(final(headers).deep_view()),
        final(headers).deep_view().contains(key@),
        forall|h: Seq<char>| #[trigger]
            final(headers).deep_view().contains(h) <==> (old(headers).deep_view().contains(h) || h == key@),
{
    let ghost old_v = headers.deep_view();
    let k = chars_of(key.as_str());
    let mut p: usize = 0;
    while p < headers.len() && lex_less(&chars_of(headers[p].as_str()), &k)
        invariant
            p <= headers.len(),
            headers.deep_view() == old_v,
            forall|a: int| 0 <= a < p ==> lex_lt(old_v[a], k@),
        decreases headers.len() - p,
    {
        p = p + 1;
    }
    if p < headers.len() && crate::text::text_eq(&headers[p], key.as_str()) {
        assert(old_v[p as int] == key@);
        return;
    }
    proof {
        if p < old_v.len() {
            assert(!lex_lt(old_v[p as int], k@));
            lemma_lex_total(old_v[p as int], k@);
        }
    }
    headers.insert(p, key.clone());
    proof {
        let new_v = headers.deep_view();
        old_v.insert_ensures(p as int, key@);
        assert(new_v =~= old_v.insert(p as int, key@));
        assert forall|a: int, b: int| 0 <= a < b < new_v.len() implies lex_lt(new_v[a], new_v[b]) by {
            if b < p {
            } else if b == p {
            } else if a < p {
                assert(new_v[b] == old_v[b - 1]);
            } else if a == p {
                assert(new_v[b] == old_v[b - 1]);
                if b - 1 > p {
                    lemma_lex_transitive(key@, old_v[p as int], old_v[b - 1]);
                }
            } else {
                assert(new_v[a] == old_v[a - 1]);
                assert(new_v[b] == old_v[b - 1]);
            }
        }
        assert(new_v[p as int] == key@);
        assert forall|h: Seq<char>| #[trigger] new_v.contains(h) <==> (old_v.contains(h) || h == key@) by {
            if new_v.contains(h) {
                let a = choose|a: int| 0 <= a < new_v.len() && new_v[a] == h;
                if a < p {
                } else if a > p {
                    assert(new_v[a] == old_v[a - 1]);
                }
            }
            if old_v.contains(h) {
                let a = choose|a: int| 0 <= a < old_v.len() && old_v[a] == h;
                if a < p {
                    assert(new_v[a] == h);
                } else {
                    assert(new_v[a + 1] == h);
                }
            }
        }
    }
}

/// The cell `record` shows under `key`.
fn cell_of(record: &Vec<(String, String)>, key: &String) -> (r: String)
    ensures
        r@ == cell_for(record.deep_view(), key@),
{
    let ghost rv = record.deep_view();
    let mut j: usize = 0;
    assert(rv.skip(0) =~= rv);
    while j < record.len()
        invariant
            j <= record.len(),
            rv == record.deep_view(),
            cell_for(rv, key@) == cell_for(rv.skip(j as int), key@),
        decreases record.len() - j,
    {
        assert(rv[j as int] == (record@[j as int].0@, record@[j as int].1@));
        if crate::text::text_eq(&record[j].0, key.as_str()) {
            return record[j].1.clone();
        }
        assert(rv.skip(j as int).drop_first() =~= rv.skip(j + 1));
        j = j + 1;
    }
    String::new()
}

/// The header row and the body of a table of `records`: the field names
/// that occur, each once, in increasing order, and for each record its cell
/// under each of them (empty where it has no such field).
pub fn table_layout(records: &Vec<Vec<(String, String)>>) -> (r: (Vec<String>, Vec<Vec<String>>))
    ensures
        is_header_row(records.deep_view(), r.0.deep_view()),
        is_body(records.deep_view(), r.0.deep_view(), r.1.deep_view()),
{
    let ghost recs = records.deep_view();
    let mut headers: Vec<String> = Vec::new();
    let mut i: usize = 0;
    while i < records.len()
        invariant
            i <= records.len(),
            recs == records.deep_view(),
            sorted_strictly(headers.deep_view()),
            forall|x: Seq<char>| #[trigger] headers.deep_view().contains(x) ==> some_record_has(recs, x),
            forall|a: int, b: int|
                0 <= a < i && 0 <= b < recs[a].len() ==> headers.deep_view().contains(#[trigger] recs[a][b].0),
        decreases records.len() - i,
    {
        let mut j: usize = 0;
        while j < records[i].len()
            invariant
                i < records.len(),
                j <= records@[i as int].len(),
                recs == records.deep_view(),
                sorted_strictly(headers.deep_view()),
                forall|x: Seq<char>| #[trigger] headers.deep_view().contains(x) ==> some_record_has(recs, x),
                forall|a: int, b: int|
                    0 <= a < i && 0 <= b < recs[a].len() ==> headers.deep_view().contains(#[trigger] recs[a][b].0),
                forall|b: int| 0 <= b < j ==> headers.deep_view().contains(#[trigger] recs[i as int][b].0),
            decreases records@[i as int].len() - j,
        {
            let ghost before = headers.deep_view();
            insert_header(&mut headers, &records[i][j].0);
            proof {
                assert(recs[i as int][j as int].0 == records@[i as int]@[j as int].0@);
                assert(record_has_key(recs[i as int], recs[i as int][j as int].0));
                assert(some_record_has(recs, recs[i as int][j as int].0));
            }
            j = j + 1;
        }
        i = i + 1;
    }
    let mut rows: Vec<Vec<String>> = Vec::new();
    let mut i: usize = 0;
    while i < records.len()
        invariant
            i <= records.len(),
            recs == records.deep_view(),
            rows.len() == i,
            forall|a: int| 0 <= a < i ==> (#[trigger] rows.deep_view()[a]).len() == headers.len(),
            forall|a: int, c: int|
                0 <= a < i && 0 <= c < headers.len() ==> #[trigger] rows.deep_view()[a][c] == cell_for(
                    recs[a],
                    headers.deep_view()[c],
                ),
        decreases records.len() - i,
    {
        let mut row: Vec<String> = Vec::new();
        let mut c: usize = 0;
        while c < headers.len()
            invariant
                i < records.len(),
                c <= headers.len(),
                recs == records.deep_view(),
                row.len() == c,
                forall|d: int| 0 <= d < c ==> #[trigger] row.deep_view()[d] == cell_for(
                    recs[i as int],
                    headers.deep_view()[d],
                ),
            decreases headers.len() - c,
        {
            let cell = cell_of(&records[i], &headers[c]);
            let ghost before = row.deep_view();
            row.push(cell);
            proof {
                assert(recs[i as int] == records@[i as int].deep_view());
                assert(headers.deep_view()[c as int] == headers@[c as int]@);
                assert(row.deep_view() =~= before.push(cell@));
            }
            c = c + 1;
        }
        let ghost before = rows.deep_view();
        let ghost rowv = row.deep_view();
        rows.push(row);
        proof {
            assert(rows.deep_view() =~= before.push(rowv));
        }
        i = i + 1;
    }
    proof {
        let hv = headers.deep_view();
        assert forall|c: int| 0 <= c < hv.len() implies some_record_has(recs, #[trigger] hv[c]) by {
            assert(hv.contains(hv[c]));
        }
    }
    (headers, rows)
}

/// The text comfy-table draws for a header row and body, with its default
/// `ASCII_FULL` preset and no width limit.
pub uninterp spec fn comfy_table_text(headers: Seq<Seq<char>>, rows: Seq<Seq<Seq<char>>>) -> Seq<char>;

/// Draws a table with `comfy_table::Table`: `new`, `set_header`, `add_rows`,
/// then `to_string`.
#[verifier::external_body]
fn render_table(headers: &Vec<String>, rows: &Vec<Vec<String>>) -> (r: String)
    ensures
        r@ == comfy_table_text(headers.deep_view(), rows.deep_view()),
{
    let mut table = comfy_table::Table::new();
    table.set_header(headers.clone());
    table.add_rows(rows.iter().cloned());
    table.to_string()
}

/// The table of `records` as text: nothing for no records, else the header
/// row and one row per record, as `table_layout` lays them out, drawn by
/// comfy-table.
pub fn format_table(records: &Vec<Vec<(String, String)>>) -> (r: String)
    ensures
        records.len() == 0 ==> r@ == Seq::<char>::empty(),
        records.len() > 0 ==> exists|headers: Seq<Seq<char>>, rows: Seq<Seq<Seq<char>>>|
            is_header_row(records.deep_view(), headers) && is_body(records.deep_view(), headers, rows)
                && r@ == comfy_table_text(headers, rows),
{
    if records.len() == 0 {
        return String::new();
    }
    let (headers, rows) = table_layout(records);
    render_table(&headers, &rows)
}

} // verus!
