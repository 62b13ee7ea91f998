//! Rows of the measurement CSV files: spreadsheet-safe export fields, and
//! import rows whose columns are found by header name.
use vstd::prelude::*;

use crate::text::{
    all_digits, chars_of, decimal, parse_i64, push_char, push_str, push_u64, spec_parse_i64, string_of,
    text_eq, trim, trim_chars, trim_text,
};
use crate::calendar::{canonical_instant, in_four_digit_years, is_canonical};
use crate::timestamp::{rfc3339_epoch_millis, spec_normalize};

verus! {

/// The columns an import needs, in the order they are checked.
pub open spec fn required_column(k: int) -> Seq<char> {
    if k == 0 {
        "timestamp"@
    } else if k == 1 {
        "download_kbps"@
    } else if k == 2 {
        "upload_kbps"@
    } else {
        "latency_ms"@
    }
}

/// Leading characters a spreadsheet reads as the start of a formula.
pub open spec fn is_formula_prefix(c: char) -> bool {
    c == '=' || c == '+' || c == '-' || c == '@' || c == '\t'
}

/// `value` made safe to open in a spreadsheet: a leading formula character
/// gets a `'` in front of it, anything else is kept as it is.
pub open spec fn spec_sanitize(value: Seq<char>) -> Seq<char> {
    if value.len() > 0 && is_formula_prefix(value[0]) {
        seq!['\''] + value
    } else {
        value
    }
}

/// Neutralises a leading formula character (`=`, `+`, `-`, `@`, tab) by
/// prefixing `'`, so that an exported file cannot run code when opened.
pub fn sanitize_csv_field(value: &str) -> (r: String)
    ensures
        r@ == spec_sanitize(value@),
{
    let cs = chars_of(value);
    if cs.len() > 0 {
        let c = cs[0];
        if c == '=' || c == '+' || c == '-' || c == '@' || c == '\t' {
            let mut r = String::new();
            push_char(&mut r, '\'');
            push_str(&mut r, value);
            assert(r@ =~= seq!['\''] + value@);
            return r;
        }
    }
    string_of(&cs)
}

/// `c` with ASCII upper-case letters folded to lower case.
pub open spec fn ascii_lower(c: char) -> char {
    if 'A' <= c && c <= 'Z' {
        ((c as u32) + 32) as char
    } else {
        c
    }
}

/// `s` equals the lower-case `word` once ASCII case is ignored.
pub open spec fn equals_ignoring_ascii_case(s: Seq<char>, word: Seq<char>) -> bool {
    s.len() == word.len() && forall|i: int| 0 <= i < s.len() ==> ascii_lower(s[i]) == word[i]
}

/// The position of the first `a` or `b` in `s`, or its length.
pub open spec fn first_of(s: Seq<char>, a: char, b: char) -> int
    decreases s.len(),
{
    if s.len() == 0 {
        0
    } else if s[0] == a || s[0] == b {
        0
    } else {
        1 + first_of(s.drop_first(), a, b)
    }
}

/// `s` without a leading `+` or `-`.
pub open spec fn unsigned_part(s: Seq<char>) -> Seq<char> {
    if s.len() > 0 && (s[0] == '+' || s[0] == '-') {
        s.drop_first()
    } else {
        s
    }
}

/// Digits with at most one `.` among them, and at least one digit.
pub open spec fn is_decimal_mantissa(m: Seq<char>) -> bool {
    let d = first_of(m, '.', '.');
    if d == m.len() {
        m.len() > 0 && all_digits(m)
    } else {
        all_digits(m.take(d)) && all_digits(m.skip(d + 1)) && (d > 0 || m.len() > d + 1)
    }
}

/// A decimal number with an optional exponent (`e` or `E`, an optional
/// sign, then digits).
pub open spec fn is_float_number(s: Seq<char>) -> bool {
    let k = first_of(s, 'e', 'E');
    is_decimal_mantissa(s.take(k)) && (k == s.len() || {
        let e = unsigned_part(s.skip(k + 1));
        e.len() > 0 && all_digits(e)
    })
}

/// The texts `f64::from_str` accepts, as its documentation gives the
/// grammar: an optional sign, then `inf`, `infinity` or `nan` in any ASCII
/// case, or a decimal number with an optional exponent. White space is not
/// accepted.
pub open spec fn is_float_literal(s: Seq<char>) -> bool {
    let u = unsigned_part(s);
    equals_ignoring_ascii_case(u, "inf"@) || equals_ignoring_ascii_case(u, "infinity"@)
        || equals_ignoring_ascii_case(u, "nan"@) || is_float_number(u)
}

/// `c` with an ASCII upper-case letter folded to lower case.
fn lower_ascii(c: char) -> (r: char)
    ensures
        r == ascii_lower(c),
{
    if 'A' <= c && c <= 'Z' {
        ((c as u8) + 32) as char
    } else {
        c
    }
}

/// Whether `u` spells `word` (lower case) when ASCII case is ignored.
fn spells_ignoring_case(u: &Vec<char>, word: &str) -> (r: bool)
    ensures
        r == equals_ignoring_ascii_case(u@, word@),
{
    let w = chars_of(word);
    if u.len() != w.len() {
        return false;
    }
    let mut i: usize = 0;
    while i < u.len()
        invariant
            i <= u.len(),
            u.len() == w.len(),
            w@ == word@,
            forall|j: int| 0 <= j < i ==> ascii_lower(u@[j]) == w@[j],
        decreases u.len() - i,
    {
        if lower_ascii(u[i]) != w[i] {
            return false;
        }
        i = i + 1;
    }
    true
}

/// The position of the first `a` or `b` in `v`, or its length.
fn find_either(v: &Vec<char>, a: char, b: char) -> (r: usize)
    ensures
        r == first_of(v@, a, b),
        r <= v.len(),
{
    let mut i: usize = 0;
    assert(v@.skip(0) =~= v@);
    while i < v.len() && v[i] != a && v[i] != b
        invariant
            i <= v.len(),
            first_of(v@, a, b) == i + first_of(v@.skip(i as int), a, b),
        decreases v.len() - i,
    {
        assert(v@.skip(i as int).drop_first() =~= v@.skip(i + 1));
        i = i + 1;
    }
    proof {
        if i == v.len() {
            assert(v@.skip(i as int).len() == 0);
        } else {
            assert(v@.skip(i as int)[0] == v@[i as int]);
        }
    }
    i
}

/// Whether every character of `v` is an ASCII digit.
fn digits_only(v: &Vec<char>) -> (r: bool)
    ensures
        r == all_digits(v@),
{
    let mut i: usize = 0;
    while i < v.len()
        invariant
            i <= v.len(),
            forall|j: int| 0 <= j < i ==> crate::text::is_digit(#[trigger] v@[j]),
        decreases v.len() - i,
    {
        if !('0' <= v[i] && v[i] <= '9') {
            return false;
        }
        i = i + 1;
    }
    true
}

/// `v` without a leading sign.
fn without_sign(v: &Vec<char>) -> (r: Vec<char>)
    ensures
        r@ == unsigned_part(v@),
{
    if v.len() > 0 && (v[0] == '+' || v[0] == '-') {
        let r = crate::text::sub_chars(v, 1, v.len());
        assert(r@ =~= v@.drop_first());
        r
    } else {
        let r = crate::text::sub_chars(v, 0, v.len());
        assert(r@ =~= v@);
        r
    }
}

/// Whether `m` is digits with at most one `.` and at least one digit.
fn decimal_mantissa(m: &Vec<char>) -> (r: bool)
    ensures
        r == is_decimal_mantissa(m@),
{
    let d = find_either(m, '.', '.');
    if d == m.len() {
        m.len() > 0 && digits_only(m)
    } else {
        let whole = crate::text::sub_chars(m, 0, d);
        let frac = crate::text::sub_chars(m, d + 1, m.len());
        assert(whole@ =~= m@.take(d as int));
        assert(frac@ =~= m@.skip(d + 1));
        digits_only(&whole) && digits_only(&frac) && (d > 0 || m.len() > d + 1)
    }
}

/// Whether `s.parse::<f64>()` succeeds: `s` matches the grammar that
/// `f64::from_str` documents.
pub fn is_float_text(s: &str) -> (r: bool)
    ensures
        r == is_float_literal(s@),
{
    let u = without_sign(&chars_of(s));
    if spells_ignoring_case(&u, "inf") || spells_ignoring_case(&u, "infinity") || spells_ignoring_case(&u, "nan") {
        return true;
    }
    let k = find_either(&u, 'e', 'E');
    let mantissa = crate::text::sub_chars(&u, 0, k);
    assert(mantissa@ =~= u@.take(k as int));
    if !decimal_mantissa(&mantissa) {
        return false;
    }
    if k == u.len() {
        return true;
    }
    let rest = crate::text::sub_chars(&u, k + 1, u.len());
    assert(rest@ =~= u@.skip(k + 1));
    let e = without_sign(&rest);
    e.len() > 0 && digits_only(&e)
}

/// Rewrites an RFC 3339 timestamp (any offset, any sub-second precision) in
/// the canonical UTC form; `None` when the text is not RFC 3339.
pub fn parse_timestamp(text: &str) -> (r: Option<String>)
    ensures
        match r {
            Some(s) => spec_normalize(text@) == Some(s@),
            None => spec_normalize(text@) is None,
        },
        r is Some <==> rfc3339_epoch_millis(text@) is Some,
        match rfc3339_epoch_millis(text@) {
            Some(ms) => in_four_digit_years(ms as int) ==> (r matches Some(s) && is_canonical(s@)
                && canonical_instant(s@) == ms && spec_normalize(s@) == Some(s@)),
            None => true,
        },
{
    match crate::timestamp::rfc3339_millis(text) {
        Some(ms) => crate::timestamp::format_utc_millis(ms, crate::timestamp::TIMESTAMP_FORMAT),
        None => None,
    }
}

/// A sanitised field never starts with a formula character, and it is the
/// field itself or the field behind one added `'`.
pub proof fn law_sanitized_fields_are_inert(value: Seq<char>)
    ensures
        !(spec_sanitize(value).len() > 0 && is_formula_prefix(spec_sanitize(value)[0])),
        spec_sanitize(value) == value || spec_sanitize(value) == seq!['\''] + value,
{
}

/// One imported row. The three measured values are kept as the text the
/// file holds (trimmed), which `f64::from_str` accepts; the caller reads
/// them as numbers.
#[derive(Debug)]
pub struct ImportRow {
    pub timestamp: String,
    pub download_kbps: String,
    pub upload_kbps: String,
    pub latency_ms: String,
    pub provider_id: Option<i64>,
    pub plan_id: Option<String>,
}

/// Why a row could not be imported.
#[derive(Debug)]
pub enum ImportRowError {
    /// A required column is not in the header; the header's names follow.
    MissingColumn { name: String, found: Vec<String> },
    /// The `timestamp` field on this line is not RFC 3339.
    InvalidTimestamp { line: usize, value: String },
    /// The `provider_id` field on this line is not an integer.
    InvalidProviderId { line: usize, raw: String },
    /// A measured value on this line, in the column named, is not a number.
    InvalidNumber { line: usize, column: String, raw: String },
}

/// The texts of a list of strings.
pub open spec fn texts(v: Seq<String>) -> Seq<Seq<char>> {
    v.map_values(|s: String| s@)
}

/// The position of the first header that reads `name` once trimmed.
pub open spec fn column_index(headers: Seq<Seq<char>>, name: Seq<char>) -> Option<int>
    decreases headers.len(),
{
    if headers.len() == 0 {
        None
    } else {
        let earlier = column_index(headers.drop_last(), name);
        if earlier is Some {
            earlier
        } else if trim(headers.last()) == name {
            Some(headers.len() - 1)
        } else {
            None
        }
    }
}

/// The trimmed field under the column `name`; empty when the column or the
/// field is missing.
pub open spec fn field_text(headers: Seq<Seq<char>>, record: Seq<Seq<char>>, name: Seq<char>) -> Seq<char> {
    match column_index(headers, name) {
        Some(i) => if i < record.len() {
            trim(record[i])
        } else {
            Seq::empty()
        },
        None => Seq::empty(),
    }
}

/// The first required column the header lacks, if any.
pub open spec fn first_missing(headers: Seq<Seq<char>>) -> Option<int> {
    if column_index(headers, required_column(0)) is None {
        Some(0)
    } else if column_index(headers, required_column(1)) is None {
        Some(1)
    } else if column_index(headers, required_column(2)) is None {
        Some(2)
    } else if column_index(headers, required_column(3)) is None {
        Some(3)
    } else {
        None
    }
}

/// No two headers have the same trimmed name.
pub open spec fn header_names_distinct(headers: Seq<Seq<char>>) -> bool {
    forall|i: int, j: int|
        0 <= i < j < headers.len() ==> trim(#[trigger] headers[i]) != trim(#[trigger] headers[j])
}

/// `k` occurs among the first `n` entries of `p`.
pub open spec fn is_listed(p: Seq<int>, n: int, k: int) -> bool {
    exists|i: int| 0 <= i < n && #[trigger] p[i] == k
}

/// `p` lists each of `0..n` exactly once.
pub open spec fn is_permutation(p: Seq<int>, n: int) -> bool {
    &&& p.len() == n
    &&& forall|i: int| 0 <= i < n ==> 0 <= #[trigger] p[i] < n
    &&& forall|i: int, j: int| 0 <= i < j < n ==> #[trigger] p[i] != #[trigger] p[j]
    &&& forall|k: int| 0 <= k < n ==> #[trigger] is_listed(p, n, k)
}

/// The column found for a name carries that name, and where none is found
/// no header carries it; with distinct names, a header carrying the name is
/// the one found.
proof fn lemma_column_index(headers: Seq<Seq<char>>, name: Seq<char>)
    ensures
        column_index(headers, name) matches Some(i) ==> 0 <= i < headers.len() && trim(headers[i]) == name,
        column_index(headers, name) is None ==> forall|i: int|
            0 <= i < headers.len() ==> trim(#[trigger] headers[i]) != name,
        header_names_distinct(headers) ==> forall|i: int|
            0 <= i < headers.len() && trim(#[trigger] headers[i]) == name ==> column_index(headers, name)
                == Some(i),
    decreases headers.len(),
{
    if headers.len() > 0 {
        let init = headers.drop_last();
        lemma_column_index(init, name);
        assert forall|i: int| 0 <= i < init.len() implies init[i] == headers[i] by {}
        if header_names_distinct(headers) {
            assert forall|i: int, j: int| 0 <= i < j < init.len() implies trim(#[trigger] init[i]) != trim(
                #[trigger] init[j],
            ) by {
                assert(init[i] == headers[i] && init[j] == headers[j]);
            }
            assert forall|i: int| 0 <= i < headers.len() && trim(#[trigger] headers[i]) == name implies column_index(
                headers,
                name,
            ) == Some(i) by {
                if i < headers.len() - 1 {
                    assert(init[i] == headers[i]);
                } else {
                    if let Some(k) = column_index(init, name) {
                        assert(init[k] == headers[k]);
                        assert(trim(headers[k]) != trim(headers[i]));
                    }
                }
            }
        }
    }
}

/// Reordering the columns of a header and a record alike leaves the field
/// under each name as it was.
proof fn lemma_field_survives_reordering(
    headers: Seq<Seq<char>>,
    record: Seq<Seq<char>>,
    headers2: Seq<Seq<char>>,
    record2: Seq<Seq<char>>,
    p: Seq<int>,
    name: Seq<char>,
)
    requires
        header_names_distinct(headers),
        record.len() == headers.len(),
        is_permutation(p, headers.len() as int),
        headers2.len() == headers.len(),
        record2.len() == headers.len(),
        forall|i: int| 0 <= i < headers.len() ==> headers2[i] == headers[#[trigger] p[i]],
        forall|i: int| 0 <= i < headers.len() ==> record2[i] == record[#[trigger] p[i]],
    ensures
        (column_index(headers2, name) is None) == (column_index(headers, name) is None),
        field_text(headers2, record2, name) == field_text(headers, record, name),
{
    let n = headers.len() as int;
    assert forall|i: int, j: int| 0 <= i < j < n implies trim(#[trigger] headers2[i]) != trim(
        #[trigger] headers2[j],
    ) by {
        assert(headers2[i] == headers[p[i]] && headers2[j] == headers[p[j]]);
        assert(p[i] != p[j]);
    }
    lemma_column_index(headers, name);
    lemma_column_index(headers2, name);
    match column_index(headers, name) {
        Some(j) => {
            assert(is_listed(p, n, j));
            let i = choose|i: int| 0 <= i < n && #[trigger] p[i] == j;
            assert(headers2[i] == headers[p[i]]);
            assert(record2[i] == record[p[i]]);
            assert(column_index(headers2, name) == Some(i));
        },
        None => {
            assert forall|i: int| 0 <= i < n implies trim(#[trigger] headers2[i]) != name by {
                assert(headers2[i] == headers[p[i]]);
            }
            if let Some(i) = column_index(headers2, name) {
                assert(trim(headers2[i]) == name);
            }
        },
    }
}

/// Fields are found by their column's name, never by position: with
/// distinct header names, reordering the columns of a header and a record
/// alike reads the same row, or fails the same way.
pub proof fn law_column_order_is_irrelevant(
    headers: Seq<Seq<char>>,
    record: Seq<Seq<char>>,
    headers2: Seq<Seq<char>>,
    record2: Seq<Seq<char>>,
    p: Seq<int>,
)
    requires
        header_names_distinct(headers),
        record.len() == headers.len(),
        is_permutation(p, headers.len() as int),
        headers2.len() == headers.len(),
        record2.len() == headers.len(),
        forall|i: int| 0 <= i < headers.len() ==> headers2[i] == headers[#[trigger] p[i]],
        forall|i: int| 0 <= i < headers.len() ==> record2[i] == record[#[trigger] p[i]],
    ensures
        spec_from_record(headers2, record2) == spec_from_record(headers, record),
{
    lemma_field_survives_reordering(headers, record, headers2, record2, p, required_column(0));
    lemma_field_survives_reordering(headers, record, headers2, record2, p, required_column(1));
    lemma_field_survives_reordering(headers, record, headers2, record2, p, required_column(2));
    lemma_field_survives_reordering(headers, record, headers2, record2, p, required_column(3));
    lemma_field_survives_reordering(headers, record, headers2, record2, p, "provider_id"@);
    lemma_field_survives_reordering(headers, record, headers2, record2, p, "plan_id"@);
    assert(first_missing(headers2) == first_missing(headers));
}

fn find_column(headers: &Vec<String>, name: &str) -> (r: Option<usize>)
    ensures
        match r {
            Some(i) => column_index(texts(headers@), name@) == Some(i as int) && i < headers.len(),
            None => column_index(texts(headers@), name@) is None,
        },
{
    let mut i: usize = 0;
    while i < headers.len()
        invariant
            i <= headers.len(),
            column_index(texts(headers@).take(i as int), name@) is None,
        decreases headers.len() - i,
    {
        proof {
            assert(texts(headers@).take(i + 1).drop_last() =~= texts(headers@).take(i as int));
            assert(texts(headers@).take(i + 1).last() == headers@[i as int]@);
        }
        let h = trim_text(headers[i].as_str());
        if text_eq(&h, name) {
            proof {
                lemma_column_index_extends(texts(headers@), name@, i as int + 1, headers.len() as int);
                assert(texts(headers@).take(headers.len() as int) =~= texts(headers@));
            }
            return Some(i);
        }
        i = i + 1;
    }
    proof {
        assert(texts(headers@).take(headers.len() as int) =~= texts(headers@));
    }
    None
}

proof fn lemma_column_index_extends(headers: Seq<Seq<char>>, name: Seq<char>, n: int, m: int)
    requires
        0 < n <= m <= headers.len(),
        column_index(headers.take(n), name) is Some,
    ensures
        column_index(headers.take(m), name) == column_index(headers.take(n), name),
    decreases m - n,
{
    if m > n {
        lemma_column_index_extends(headers, name, n, m - 1);
        assert(headers.take(m).drop_last() =~= headers.take(m - 1));
    }
}

fn field(headers: &Vec<String>, record: &Vec<String>, name: &str) -> (r: String)
    ensures
        r@ == field_text(texts(headers@), texts(record@), name@),
{
    match find_column(headers, name) {
        Some(i) => {
            if i < record.len() {
                trim_text(record[i].as_str())
            } else {
                String::new()
            }
        },
        None => String::new(),
    }
}

/// What an import makes of one record under the given header.
pub open spec fn spec_from_record(headers: Seq<Seq<char>>, record: Seq<Seq<char>>) -> Result<
    (Seq<char>, Seq<char>, Seq<char>, Seq<char>, Option<int>, Option<Seq<char>>),
    int,
> {
    if first_missing(headers) is Some {
        Err(0)
    } else if spec_normalize(field_text(headers, record, "timestamp"@)) is None {
        Err(1)
    } else if field_text(headers, record, "provider_id"@).len() > 0 && spec_parse_i64(
        field_text(headers, record, "provider_id"@),
    ) is None {
        Err(2)
    } else if !is_float_literal(field_text(headers, record, "download_kbps"@)) {
        Err(3)
    } else if !is_float_literal(field_text(headers, record, "upload_kbps"@)) {
        Err(4)
    } else if !is_float_literal(field_text(headers, record, "latency_ms"@)) {
        Err(5)
    } else {
        let pid = field_text(headers, record, "provider_id"@);
        let plan = field_text(headers, record, "plan_id"@);
        Ok(
            (
                spec_normalize(field_text(headers, record, "timestamp"@))->0,
                field_text(headers, record, "download_kbps"@),
                field_text(headers, record, "upload_kbps"@),
                field_text(headers, record, "latency_ms"@),
                if pid.len() == 0 { None } else { spec_parse_i64(pid) },
                if plan.len() == 0 { None } else { Some(plan) },
            ),
        )
    }
}

impl ImportRow {
    /// Reads one record, finding each field by its column's name (headers
    /// are compared trimmed, fields are trimmed). The four required columns
    /// must all be present; the timestamp is normalised to the canonical UTC
    /// form; an empty `provider_id` or `plan_id` becomes `None`. `line` is
    /// the record's 1-based line in the file, for the error.
    pub fn from_record(headers: &Vec<String>, record: &Vec<String>, line: usize) -> (r: Result<
        ImportRow,
        ImportRowError,
    >)
        ensures
            ({
                let spec = spec_from_record(texts(headers@), texts(record@));
                match r {
                    Ok(row) => spec matches Ok(t) && row.timestamp@ == t.0 && row.download_kbps@
                        == t.1 && row.upload_kbps@ == t.2 && row.latency_ms@ == t.3 && match row.provider_id {
                        Some(p) => t.4 == Some(p as int),
                        None => t.4 is None,
                    } && match row.plan_id {
                        Some(p) => t.5 == Some(p@),
                        None => t.5 is None,
                    },
                    Err(ImportRowError::MissingColumn { name, found }) => spec == Err::<
                        (Seq<char>, Seq<char>, Seq<char>, Seq<char>, Option<int>, Option<Seq<char>>),
                        int,
                    >(0) && name@ == required_column(first_missing(texts(headers@))->0)
                        && texts(found@) == texts(headers@),
                    Err(ImportRowError::InvalidTimestamp { line: l, value }) => spec == Err::<
                        (Seq<char>, Seq<char>, Seq<char>, Seq<char>, Option<int>, Option<Seq<char>>),
                        int,
                    >(1) && l == line && value@ == field_text(texts(headers@), texts(record@), "timestamp"@)
                        && rfc3339_epoch_millis(value@) is None,
                    Err(ImportRowError::InvalidProviderId { line: l, raw }) => spec == Err::<
                        (Seq<char>, Seq<char>, Seq<char>, Seq<char>, Option<int>, Option<Seq<char>>),
                        int,
                    >(2) && l == line && raw@ == field_text(texts(headers@), texts(record@), "provider_id"@),
                    Err(ImportRowError::InvalidNumber { line: l, column, raw }) => spec matches Err(k) && 3
                        <= k <= 5 && column@ == required_column(k - 2) && l == line && raw@ == field_text(
                        texts(headers@),
                        texts(record@),
                        required_column(k - 2),
                    ),
                }
            }),
            r is Ok <==> spec_from_record(texts(headers@), texts(record@)) is Ok,
    {
        let names: [&str; 4] = ["timestamp", "download_kbps", "upload_kbps", "latency_ms"];
        let mut k: usize = 0;
        while k < 4
            invariant
                k <= 4,
                names@.len() == 4,
                names@[0]@ == required_column(0),
                names@[1]@ == required_column(1),
                names@[2]@ == required_column(2),
                names@[3]@ == required_column(3),
                forall|j: int| 0 <= j < k ==> #[trigger] column_index(texts(headers@), required_column(j)) is Some,
            decreases 4 - k,
        {
            if find_column(headers, names[k]).is_none() {
                let mut found: Vec<String> = Vec::new();
                let mut j: usize = 0;
                while j < headers.len()
                    invariant
                        j <= headers.len(),
                        texts(found@) == texts(headers@).take(j as int),
                        found@.len() == j,
                    decreases headers.len() - j,
                {
                    let h: String = headers[j].clone();
                    let ghost before = found@;
                    found.push(h);
                    proof {
                        assert(h@ == headers@[j as int]@);
                        assert(found@ =~= before.push(h));
                        assert(texts(found@).len() == j + 1);
                        assert forall|x: int| 0 <= x < j + 1 implies texts(found@)[x] == texts(headers@).take(j + 1)[x] by {
                            if x < j {
                                assert(texts(found@)[x] == found@[x]@);
                                assert(found@[x] == before[x]);
                                assert(texts(before)[x] == before[x]@);
                            }
                        }
                        assert(texts(found@) =~= texts(headers@).take(j + 1));
                    }
                    j = j + 1;
                }
                proof {
                    assert(texts(headers@).take(headers.len() as int) =~= texts(headers@));
                    assert(column_index(texts(headers@), required_column(k as int)) is None);
                }
                return Err(
                    ImportRowError::MissingColumn { name: String::from_str(names[k]), found },
                );
            }
            k = k + 1;
        }
        let ts_text = field(headers, record, "timestamp");
        let timestamp = match parse_timestamp(ts_text.as_str()) {
            Some(t) => t,
            None => {
                return Err(ImportRowError::InvalidTimestamp { line, value: ts_text });
            },
        };
        let pid_text = field(headers, record, "provider_id");
        let pid_chars = chars_of(pid_text.as_str());
        let provider_id = if pid_chars.len() == 0 {
            None
        } else {
            match parse_i64(&pid_chars) {
                Some(v) => Some(v),
                None => {
                    return Err(ImportRowError::InvalidProviderId { line, raw: pid_text });
                },
            }
        };
        let download_kbps = field(headers, record, "download_kbps");
        if !is_float_text(download_kbps.as_str()) {
            return Err(
                ImportRowError::InvalidNumber {
                    line,
                    column: String::from_str("download_kbps"),
                    raw: download_kbps,
                },
            );
        }
        let upload_kbps = field(headers, record, "upload_kbps");
        if !is_float_text(upload_kbps.as_str()) {
            return Err(
                ImportRowError::InvalidNumber { line, column: String::from_str("upload_kbps"), raw: upload_kbps },
            );
        }
        let latency_ms = field(headers, record, "latency_ms");
        if !is_float_text(latency_ms.as_str()) {
            return Err(
                ImportRowError::InvalidNumber { line, column: String::from_str("latency_ms"), raw: latency_ms },
            );
        }
        let plan_text = field(headers, record, "plan_id");
        let plan_id = if plan_text.as_str().unicode_len() == 0 {
            None
        } else {
            Some(plan_text)
        };
        Ok(
            ImportRow {
                timestamp,
                download_kbps,
                upload_kbps,
                latency_ms,
                provider_id,
                plan_id,
            },
        )
    }
}

/// The texts of `v` joined by `, `.
pub open spec fn joined(v: Seq<Seq<char>>) -> Seq<char>
    decreases v.len(),
{
    if v.len() == 0 {
        Seq::empty()
    } else if v.len() == 1 {
        v[0]
    } else {
        joined(v.drop_last()) + ", "@ + v.last()
    }
}

/// The message the command line prints for an import error.
pub open spec fn spec_import_row_message(e: ImportRowError) -> Seq<char> {
    match e {
        ImportRowError::MissingColumn { name, found } => "missing required column \""@ + name@
            + "\"; found columns: "@ + joined(texts(found@)),
        ImportRowError::InvalidTimestamp { line, value } => "line "@ + decimal(line as nat)
            + ": column \"timestamp\" is invalid: invalid timestamp \""@ + value@
            + "\" (expected RFC 3339)"@,
        ImportRowError::InvalidProviderId { line, raw } => "line "@ + decimal(line as nat)
            + ": column \"provider_id\" has invalid integer \""@ + raw@ + "\""@,
        ImportRowError::InvalidNumber { line, column, raw } => "line "@ + decimal(line as nat)
            + ": column \""@ + column@ + "\" has invalid number \""@ + raw@ + "\""@,
    }
}

impl ImportRowError {
    /// The error as the command line prints it: the line and the column
    /// for a bad field, the columns found for a missing one.
    pub fn message(&self) -> (m: String)
        ensures
            m@ == spec_import_row_message(*self),
    {
        let mut m = String::new();
        match self {
            ImportRowError::MissingColumn { name, found } => {
                push_str(&mut m, "missing required column \"");
                push_str(&mut m, name.as_str());
                push_str(&mut m, "\"; found columns: ");
                let ghost start = m@;
                let mut i: usize = 0;
                while i < found.len()
                    invariant
                        i <= found.len(),
                        m@ == start + joined(texts(found@).take(i as int)),
                    decreases found.len() - i,
                {
                    if i > 0 {
                        push_str(&mut m, ", ");
                    }
                    push_str(&mut m, found[i].as_str());
                    proof {
                        let t = texts(found@).take(i + 1);
                        assert(t.drop_last() =~= texts(found@).take(i as int));
                        assert(t.last() == found@[i as int]@);
                        if i == 0 {
                            assert(t.len() == 1);
                        }
                    }
                    i = i + 1;
                }
                assert(texts(found@).take(found.len() as int) =~= texts(found@));
            },
            ImportRowError::InvalidTimestamp { line, value } => {
                push_str(&mut m, "line ");
                push_u64(&mut m, *line as u64);
                push_str(&mut m, ": column \"timestamp\" is invalid: invalid timestamp \"");
                push_str(&mut m, value.as_str());
                push_str(&mut m, "\" (expected RFC 3339)");
            },
            ImportRowError::InvalidProviderId { line, raw } => {
                push_str(&mut m, "line ");
                push_u64(&mut m, *line as u64);
                push_str(&mut m, ": column \"provider_id\" has invalid integer \"");
                push_str(&mut m, raw.as_str());
                push_str(&mut m, "\"");
            },
            ImportRowError::InvalidNumber { line, column, raw } => {
                push_str(&mut m, "line ");
                push_u64(&mut m, *line as u64);
                push_str(&mut m, ": column \"");
                push_str(&mut m, column.as_str());
                push_str(&mut m, "\" has invalid number \"");
                push_str(&mut m, raw.as_str());
                push_str(&mut m, "\"");
            },
        }
        m
    }
}

} // verus!
