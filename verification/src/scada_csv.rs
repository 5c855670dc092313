//! SCADA telemetry exported as CSV: which files to read, how a row's fields
//! are found by header, how alarm codes are split, and which points are the
//! latest.
use vstd::prelude::*;

use crate::connectors::PointKey;
use crate::document::extension;
use crate::ranking::{lemma_insert_contents, lemma_insert_sorted, sorted_by, strict_total_order};
use crate::text::{
    chars_of, eq_ignore_ascii_case, lower, seq_lt, str_eq, str_lt, string_of, string_views, trim,
    trim_vec,
};

verus! {

/// A directory of SCADA CSV exports.
pub struct ScadaCsvConnector {
    pub data_dir: String,
}

// ---------------------------------------------------------------------------
// Files and fields
// ---------------------------------------------------------------------------

/// Whether a path names a CSV file: its extension is `csv`, ignoring ASCII case.
pub fn is_csv(path: &str) -> (r: bool)
    ensures
        r == (extension(path@) matches Some(e) && lower(e) == lower("csv"@)),
{
    let p = chars_of(path);
    let ext = crate::document::path_extension(&p);
    match ext {
        Some(e) => {
            let s = string_of(&e);
            eq_ignore_ascii_case(s.as_str(), "csv")
        },
        None => false,
    }
}

/// The first header equal to `name` ignoring ASCII case.
pub open spec fn header_position(headers: Seq<Seq<char>>, name: Seq<char>) -> Option<int>
    decreases headers.len(),
{
    if headers.len() == 0 {
        None
    } else if lower(headers[0]) == lower(name) {
        Some(0)
    } else {
        match header_position(headers.drop_first(), name) {
            Some(i) => Some(i + 1),
            None => None,
        }
    }
}

/// The trimmed value of the named column in a row, when present and not empty.
pub open spec fn field_spec(headers: Seq<Seq<char>>, record: Seq<Seq<char>>, name: Seq<char>) -> Option<
    Seq<char>,
> {
    match header_position(headers, name) {
        Some(i) => if i < record.len() && trim(record[i]).len() > 0 {
            Some(trim(record[i]))
        } else {
            None
        },
        None => None,
    }
}

/// The trimmed value of the named column in a row (the header is matched
/// ignoring ASCII case); none when the column is missing, the row is short
/// or the value is blank.
pub fn field(headers: &Vec<String>, record: &Vec<String>, name: &str) -> (r: Option<String>)
    ensures
        match r {
            Some(v) => field_spec(string_views(headers@), string_views(record@), name@) == Some(v@),
            None => field_spec(string_views(headers@), string_views(record@), name@) is None,
        },
{
    let ghost hs = string_views(headers@);
    let mut i: usize = 0;
    assert(hs.skip(0) =~= hs);
    while i < headers.len()
        invariant
            i <= headers.len(),
            hs == string_views(headers@),
            forall|k: int| 0 <= k < i ==> lower(#[trigger] hs[k]) != lower(name@),
            header_position(hs, name@) == match header_position(hs.skip(i as int), name@) {
                Some(j) => Some(j + i),
                None => None::<int>,
            },
        decreases headers.len() - i,
    {
        assert(hs.skip(i as int)[0] == hs[i as int]);
        assert(hs.skip(i as int).drop_first() =~= hs.skip(i + 1));
        if eq_ignore_ascii_case(headers[i].as_str(), name) {
            assert(header_position(hs, name@) == Some(i as int));
            if i < record.len() {
                let c = chars_of(record[i].as_str());
                let t = trim_vec(&c);
                assert(string_views(record@)[i as int] == record@[i as int]@);
                if t.len() > 0 {
                    return Some(string_of(&t));
                }
            }
            return None;
        }
        i = i + 1;
    }
    assert(hs.skip(i as int).len() == 0);
    None
}

// ---------------------------------------------------------------------------
// Alarm codes
// ---------------------------------------------------------------------------

/// `s` with leading characters `a` or `b` removed.
pub open spec fn strip_start_of(s: Seq<char>, a: char, b: char) -> Seq<char>
    decreases s.len(),
{
    if s.len() > 0 && (s[0] == a || s[0] == b) {
        strip_start_of(s.drop_first(), a, b)
    } else {
        s
    }
}

/// `s` with trailing characters `a` or `b` removed.
pub open spec fn strip_end_of(s: Seq<char>, a: char, b: char) -> Seq<char>
    decreases s.len(),
{
    if s.len() > 0 && (s.last() == a || s.last() == b) {
        strip_end_of(s.drop_last(), a, b)
    } else {
        s
    }
}

/// `s` with leading and trailing characters `a` or `b` removed (`trim_matches`).
pub open spec fn strip_of(s: Seq<char>, a: char, b: char) -> Seq<char> {
    strip_end_of(strip_start_of(s, a, b), a, b)
}

/// An alarm-code separator.
pub open spec fn is_code_separator(c: char) -> bool {
    c == ';' || c == '|' || c == ','
}

/// The pieces of `s` between separators (one more than the separators).
pub open spec fn code_pieces(s: Seq<char>) -> Seq<Seq<char>>
    decreases s.len(),
{
    if s.len() == 0 {
        seq![Seq::empty()]
    } else if is_code_separator(s.last()) {
        code_pieces(s.drop_last()).push(Seq::empty())
    } else {
        let p = code_pieces(s.drop_last());
        p.update(p.len() - 1, p.last().push(s.last()))
    }
}

/// A piece trimmed of whitespace and then of surrounding double quotes.
pub open spec fn clean_code(piece: Seq<char>) -> Seq<char> {
    strip_of(trim(piece), '"', '"')
}

/// The cleaned pieces that are not empty.
pub open spec fn codes_of(pieces: Seq<Seq<char>>) -> Seq<Seq<char>>
    decreases pieces.len(),
{
    if pieces.len() == 0 {
        Seq::empty()
    } else {
        let c = clean_code(pieces.last());
        codes_of(pieces.drop_last()) + if c.len() > 0 {
            seq![c]
        } else {
            Seq::empty()
        }
    }
}

/// The alarm codes of a field value.
pub open spec fn alarm_codes_spec(value: Seq<char>) -> Seq<Seq<char>> {
    codes_of(code_pieces(strip_of(value, '[', ']')))
}

proof fn lemma_code_pieces_nonempty(s: Seq<char>)
    ensures
        code_pieces(s).len() >= 1,
    decreases s.len(),
{
    if s.len() > 0 {
        lemma_code_pieces_nonempty(s.drop_last());
    }
}

/// The characters of `v` without leading and trailing `a` or `b`.
fn strip_chars(v: &Vec<char>, a: char, b: char) -> (r: Vec<char>)
    ensures
        r@ == strip_of(v@, a, b),
{
    let mut start: usize = 0;
    assert(v@.subrange(0, v.len() as int) =~= v@);
    while start < v.len() && (v[start] == a || v[start] == b)
        invariant
            start <= v.len(),
            strip_start_of(v@, a, b) == strip_start_of(v@.subrange(start as int, v.len() as int), a, b),
        decreases v.len() - start,
    {
        assert(v@.subrange(start as int, v.len() as int).drop_first() =~= v@.subrange(
            start + 1,
            v.len() as int,
        ));
        start = start + 1;
    }
    let ghost head = v@.subrange(start as int, v.len() as int);
    let mut end: usize = v.len();
    while end > start && (v[end - 1] == a || v[end - 1] == b)
        invariant
            start <= end <= v.len(),
            head == v@.subrange(start as int, v.len() as int),
            strip_end_of(head, a, b) == strip_end_of(v@.subrange(start as int, end as int), a, b),
        decreases end - start,
    {
        assert(v@.subrange(start as int, end as int).drop_last() =~= v@.subrange(
            start as int,
            end - 1,
        ));
        end = end - 1;
    }
    let mut r: Vec<char> = Vec::new();
    let mut i: usize = start;
    while i < end
        invariant
            start <= i <= end,
            end <= v.len(),
            r@ =~= v@.subrange(start as int, i as int),
        decreases end - i,
    {
        r.push(v[i]);
        i = i + 1;
    }
    r
}

/// Appends the cleaned piece when it is not empty.
fn push_code(out: &mut Vec<String>, piece: &Vec<char>)
    ensures
        string_views(final(out)@) == string_views(old(out)@) + if clean_code(piece@).len() > 0 {
            seq![clean_code(piece@)]
        } else {
            Seq::empty()
        },
{
    let t = trim_vec(piece);
    let c = strip_chars(&t, '"', '"');
    let ghost before = out@;
    if c.len() > 0 {
        out.push(string_of(&c));
        assert(string_views(out@) =~= string_views(before) + seq![c@]);
    } else {
        assert(string_views(out@) =~= string_views(before) + Seq::<Seq<char>>::empty());
    }
}

/// The alarm codes of a field value: surrounding brackets removed, split
/// at `;`, `|` or `,`, each piece trimmed of whitespace and then of double
/// quotes, empty pieces dropped. No value has no codes.
pub fn split_alarm_codes(value: Option<&str>) -> (r: Vec<String>)
    ensures
        string_views(r@) == alarm_codes_spec(
            match value {
                Some(v) => v@,
                None => Seq::empty(),
            },
        ),
{
    let raw: Vec<char> = match value {
        Some(v) => chars_of(v),
        None => Vec::new(),
    };
    let s = strip_chars(&raw, '[', ']');
    let mut out: Vec<String> = Vec::new();
    let mut cur: Vec<char> = Vec::new();
    let mut i: usize = 0;
    assert(s@.take(0) =~= Seq::<char>::empty());
    assert(string_views(out@) =~= Seq::<Seq<char>>::empty());
    while i < s.len()
        invariant
            i <= s.len(),
            code_pieces(s@.take(i as int)).len() >= 1,
            string_views(out@) == codes_of(code_pieces(s@.take(i as int)).drop_last()),
            cur@ == code_pieces(s@.take(i as int)).last(),
        decreases s.len() - i,
    {
        let c = s[i];
        let ghost pre = s@.take(i as int);
        let ghost next = s@.take(i + 1);
        assert(next.drop_last() =~= pre);
        assert(next.last() == c);
        proof {
            lemma_code_pieces_nonempty(pre);
        }
        if c == ';' || c == '|' || c == ',' {
            push_code(&mut out, &cur);
            cur = Vec::new();
            let ghost ps = code_pieces(pre);
            assert(code_pieces(next) == ps.push(Seq::<char>::empty()));
            assert(ps.push(Seq::<char>::empty()).drop_last() =~= ps);
            assert(ps =~= ps.drop_last().push(ps.last()));
            assert(codes_of(ps) == codes_of(ps.drop_last()) + if clean_code(ps.last()).len() > 0 {
                seq![clean_code(ps.last())]
            } else {
                Seq::<Seq<char>>::empty()
            });
            assert(cur@ =~= Seq::<char>::empty());
        } else {
            let ghost ps = code_pieces(pre);
            cur.push(c);
            let ghost np = ps.update(ps.len() - 1, ps.last().push(c));
            assert(code_pieces(next) == np);
            assert(np.drop_last() =~= ps.drop_last());
        }
        i = i + 1;
    }
    assert(s@.take(s.len() as int) =~= s@);
    proof {
        lemma_code_pieces_nonempty(s@);
    }
    let ghost ps = code_pieces(s@);
    push_code(&mut out, &cur);
    assert(ps =~= ps.drop_last().push(ps.last()));
    out
}

// ---------------------------------------------------------------------------
// Latest points
// ---------------------------------------------------------------------------

/// Newest first, then by turbine; equal keys keep their order.
pub open spec fn latest_first(keys: Seq<PointKey>) -> spec_fn(int, int) -> bool {
    |i: int, j: int|
        {
            let (ti, tj) = (keys[i].timestamp@, keys[j].timestamp@);
            let (ui, uj) = (keys[i].turbine_id@, keys[j].turbine_id@);
            ||| seq_lt(tj, ti)
            ||| ti == tj && seq_lt(ui, uj)
            ||| ti == tj && ui == uj && i < j
        }
}

proof fn lemma_latest_first_order(keys: Seq<PointKey>)
    ensures
        strict_total_order(latest_first(keys), keys.len() as int),
{
    let f = latest_first(keys);
    assert forall|i: int| 0 <= i < keys.len() implies !#[trigger] f(i, i) by {
        crate::text::lemma_seq_lt_asym(keys[i].timestamp@, keys[i].timestamp@);
        crate::text::lemma_seq_lt_asym(keys[i].turbine_id@, keys[i].turbine_id@);
    }
    assert forall|i: int, j: int|
        0 <= i < keys.len() && 0 <= j < keys.len() && #[trigger] f(i, j) implies !#[trigger] f(j, i) by {
        crate::text::lemma_seq_lt_asym(keys[i].timestamp@, keys[j].timestamp@);
        crate::text::lemma_seq_lt_asym(keys[i].turbine_id@, keys[j].turbine_id@);
        crate::text::lemma_seq_lt_asym(keys[i].timestamp@, keys[i].timestamp@);
        crate::text::lemma_seq_lt_asym(keys[i].turbine_id@, keys[i].turbine_id@);
    }
    assert forall|i: int, j: int|
        0 <= i < keys.len() && 0 <= j < keys.len() && i != j implies #[trigger] f(i, j) || #[trigger] f(
        j,
        i,
    ) by {
        crate::text::lemma_seq_lt_total(keys[i].timestamp@, keys[j].timestamp@);
        crate::text::lemma_seq_lt_total(keys[i].turbine_id@, keys[j].turbine_id@);
    }
    assert forall|i: int, j: int, k: int|
        0 <= i < keys.len() && 0 <= j < keys.len() && 0 <= k < keys.len() && #[trigger] f(i, j)
            && #[trigger] f(j, k) implies f(i, k) by {
        let (a, b, c) = (keys[i].timestamp@, keys[j].timestamp@, keys[k].timestamp@);
        let (x, y, z) = (keys[i].turbine_id@, keys[j].turbine_id@, keys[k].turbine_id@);
        if seq_lt(c, b) && seq_lt(b, a) {
            crate::text::lemma_seq_lt_trans(c, b, a);
        }
        if seq_lt(x, y) && seq_lt(y, z) {
            crate::text::lemma_seq_lt_trans(x, y, z);
        }
    }
}

fn latest_first_exec(keys: &Vec<PointKey>, i: usize, j: usize) -> (r: bool)
    requires
        i < keys.len(),
        j < keys.len(),
    ensures
        r == latest_first(keys@)(i as int, j as int),
{
    let ti = keys[i].timestamp.as_str();
    let tj = keys[j].timestamp.as_str();
    if str_lt(tj, ti) {
        return true;
    }
    if !str_eq(ti, tj) {
        return false;
    }
    let ui = keys[i].turbine_id.as_str();
    let uj = keys[j].turbine_id.as_str();
    str_lt(ui, uj) || (str_eq(ui, uj) && i < j)
}

/// The latest points of all files read: newest first, then by turbine, at
/// most 32.
pub fn select_latest(keys: &Vec<PointKey>) -> (r: Vec<usize>)
    ensures
        exists|order: Seq<usize>|
            {
                &&& forall|a: int| 0 <= a < order.len() ==> (#[trigger] order[a]) < keys.len()
                &&& forall|i: int| 0 <= i < keys.len() ==> #[trigger] order.contains(i as usize)
                &&& sorted_by(order, latest_first(keys@))
                &&& r@ == order.take(
                    (if order.len() < 32 {
                        order.len()
                    } else {
                        32
                    }) as int,
                )
            },
{
    proof {
        lemma_latest_first_order(keys@);
    }
    let mut order: Vec<usize> = Vec::new();
    let mut i: usize = 0;
    while i < keys.len()
        invariant
            i <= keys.len(),
            strict_total_order(latest_first(keys@), keys.len() as int),
            forall|a: int| 0 <= a < order.len() ==> (#[trigger] order@[a]) < i,
            forall|k: int| 0 <= k < i ==> #[trigger] order@.contains(k as usize),
            sorted_by(order@, latest_first(keys@)),
        decreases keys.len() - i,
    {
        let mut p: usize = 0;
        while p < order.len() && latest_first_exec(keys, order[p], i)
            invariant
                p <= order.len(),
                i < keys.len(),
                forall|a: int| 0 <= a < order.len() ==> (#[trigger] order@[a]) < i,
                forall|a: int| 0 <= a < p ==> latest_first(keys@)(#[trigger] order@[a] as int, i as int),
            decreases order.len() - p,
        {
            p = p + 1;
        }
        proof {
            lemma_insert_sorted(order@, p as int, i, latest_first(keys@), keys.len() as int);
            lemma_insert_contents(order@, p as int, i);
        }
        let ghost old_order = order@;
        order.insert(p, i);
        assert forall|a: int| 0 <= a < order.len() implies (#[trigger] order@[a]) < i + 1 by {
            if a < p {
                assert(order@[a] == old_order[a]);
            } else if a > p {
                assert(order@[a] == old_order[a - 1]);
            }
        }
        i = i + 1;
    }
    let count = if order.len() < 32 {
        order.len()
    } else {
        32
    };
    let mut r: Vec<usize> = Vec::new();
    let mut k: usize = 0;
    while k < count
        invariant
            k <= count <= order.len(),
            r@ =~= order@.take(k as int),
        decreases count - k,
    {
        r.push(order[k]);
        k = k + 1;
    }
    r
}

/// The key of a CSV row for a request: its turbine and timestamp fields,
/// when both are present and the turbine is the requested one (any turbine
/// when none is requested).
pub fn row_key(headers: &Vec<String>, record: &Vec<String>, turbine_id: Option<&str>) -> (r: Option<
    PointKey,
>)
    ensures
        ({
            let t = field_spec(string_views(headers@), string_views(record@), "turbine_id"@);
            let ts = field_spec(string_views(headers@), string_views(record@), "timestamp"@);
            let wanted = match turbine_id {
                Some(want) => t == Some(want@),
                None => true,
            };
            match r {
                Some(k) => t == Some(k.turbine_id@) && ts == Some(k.timestamp@) && wanted,
                None => t is None || ts is None || !wanted,
            }
        }),
{
    let t = field(headers, record, "turbine_id");
    let ts = field(headers, record, "timestamp");
    match (t, ts) {
        (Some(t), Some(ts)) => {
            let wanted = match turbine_id {
                Some(want) => str_eq(want, t.as_str()),
                None => true,
            };
            if wanted {
                Some(PointKey { turbine_id: t, timestamp: ts })
            } else {
                None
            }
        },
        _ => None,
    }
}

// ---------------------------------------------------------------------------
// Reading a CSV export
// ---------------------------------------------------------------------------

/// What the `csv` crate reads from some bytes, with every field trimmed and
/// rows of any length allowed: the header row and the records, or, when
/// reading fails, whether it failed on the header row and the error's text.
pub uninterp spec fn csv_table(bytes: Seq<u8>) -> Result<
    (Seq<Seq<char>>, Seq<Seq<Seq<char>>>),
    (bool, Seq<char>),
>;

/// The records of a table as plain values.
pub open spec fn record_views(records: Seq<Vec<String>>) -> Seq<Seq<Seq<char>>> {
    Seq::new(records.len(), |i: int| string_views(records[i]@))
}

/// Reads a CSV table held in memory (`csv::ReaderBuilder` with `Trim::All`
/// and `flexible`, `from_reader`, then `headers` and `records`); the first
/// error stops the reading. The outcome is a function of the bytes.
#[verifier::external_body]
fn parse_csv_table(bytes: &Vec<u8>) -> (r: Result<(Vec<String>, Vec<Vec<String>>), (bool, String)>)
    ensures
        match r {
            Ok((h, rows)) => csv_table(bytes@) == Ok::<(Seq<Seq<char>>, Seq<Seq<Seq<char>>>), (bool, Seq<char>)>(
                (string_views(h@), record_views(rows@)),
            ),
            Err((on_headers, e)) => csv_table(bytes@) == Err::<(Seq<Seq<char>>, Seq<Seq<Seq<char>>>), (bool, Seq<char>)>(
                (on_headers, e@),
            ),
        },
{
    let mut reader = csv::ReaderBuilder::new()
        .trim(csv::Trim::All)
        .flexible(true)
        .from_reader(bytes.as_slice());
    let headers = reader.headers().map_err(|e| (true, e.to_string()))?;
    let headers: Vec<String> = headers.iter().map(|f| f.to_string()).collect();
    let rows: Vec<Vec<String>> = reader
        .records()
        .map(|r| r.map(|r| r.iter().map(|f| f.to_string()).collect()))
        .collect::<Result<_, _>>()
        .map_err(|e| (false, e.to_string()))?;
    Ok((headers, rows))
}

/// The text fields of one SCADA row: its turbine and time, the raw text of
/// its measured values, and its alarm codes.
pub struct ScadaRowFacts {
    pub turbine_id: String,
    pub timestamp: String,
    pub wind_speed: Option<String>,
    pub power: Option<String>,
    pub gearbox_oil_temp: Option<String>,
    pub generator_temp: Option<String>,
    pub vibration: Option<String>,
    pub alarm_codes: Vec<String>,
}

/// A row's facts as plain values.
pub open spec fn row_facts_view(f: ScadaRowFacts) -> (
    Seq<char>,
    Seq<char>,
    Seq<Option<Seq<char>>>,
    Seq<Seq<char>>,
) {
    (
        f.turbine_id@,
        f.timestamp@,
        seq![
            crate::graph::opt_view(f.wind_speed),
            crate::graph::opt_view(f.power),
            crate::graph::opt_view(f.gearbox_oil_temp),
            crate::graph::opt_view(f.generator_temp),
            crate::graph::opt_view(f.vibration),
        ],
        string_views(f.alarm_codes@),
    )
}

/// A row is kept when it names a turbine and a time and, when a turbine is
/// asked for, that turbine.
pub open spec fn row_kept(h: Seq<Seq<char>>, rec: Seq<Seq<char>>, turbine_id: Option<Seq<char>>) -> bool {
    &&& field_spec(h, rec, "turbine_id"@) is Some
    &&& field_spec(h, rec, "timestamp"@) is Some
    &&& match turbine_id {
        Some(t) => field_spec(h, rec, "turbine_id"@) == Some(t),
        None => true,
    }
}

/// The facts of a kept row.
pub open spec fn row_facts_spec(h: Seq<Seq<char>>, rec: Seq<Seq<char>>) -> (
    Seq<char>,
    Seq<char>,
    Seq<Option<Seq<char>>>,
    Seq<Seq<char>>,
) {
    (
        field_spec(h, rec, "turbine_id"@)->0,
        field_spec(h, rec, "timestamp"@)->0,
        seq![
            field_spec(h, rec, "wind_speed"@),
            field_spec(h, rec, "power"@),
            field_spec(h, rec, "gearbox_oil_temp"@),
            field_spec(h, rec, "generator_temp"@),
            field_spec(h, rec, "vibration"@),
        ],
        alarm_codes_spec(
            match field_spec(h, rec, "alarm_codes"@) {
                Some(v) => v,
                None => Seq::empty(),
            },
        ),
    )
}

/// The facts of the kept rows among the first `n` records, in order.
pub open spec fn rows_spec(
    h: Seq<Seq<char>>,
    records: Seq<Seq<Seq<char>>>,
    turbine_id: Option<Seq<char>>,
    n: int,
) -> Seq<(Seq<char>, Seq<char>, Seq<Option<Seq<char>>>, Seq<Seq<char>>)>
    decreases n,
{
    if n <= 0 {
        Seq::empty()
    } else {
        let before = rows_spec(h, records, turbine_id, n - 1);
        if row_kept(h, records[n - 1], turbine_id) {
            before.push(row_facts_spec(h, records[n - 1]))
        } else {
            before
        }
    }
}

fn field_text(headers: &Vec<String>, record: &Vec<String>, name: &str) -> (r: Option<String>)
    ensures
        crate::graph::opt_view(r) == field_spec(string_views(headers@), string_views(record@), name@),
{
    field(headers, record, name)
}

/// The facts of the rows of a SCADA table that name a turbine and a time,
/// of the requested turbine when one is named.
pub fn scada_rows(headers: &Vec<String>, records: &Vec<Vec<String>>, turbine_id: Option<&str>) -> (r: Vec<
    ScadaRowFacts,
>)
    ensures
        Seq::new(r@.len(), |i: int| row_facts_view(r@[i])) == rows_spec(
            string_views(headers@),
            record_views(records@),
            crate::graph::opt_str_view(turbine_id),
            records@.len() as int,
        ),
{
    let ghost h = string_views(headers@);
    let ghost recs = record_views(records@);
    let ghost t = crate::graph::opt_str_view(turbine_id);
    let mut out: Vec<ScadaRowFacts> = Vec::new();
    let mut i: usize = 0;
    while i < records.len()
        invariant
            i <= records.len(),
            h == string_views(headers@),
            recs == record_views(records@),
            t == crate::graph::opt_str_view(turbine_id),
            Seq::new(out@.len(), |q: int| row_facts_view(out@[q])) == rows_spec(h, recs, t, i as int),
        decreases records.len() - i,
    {
        let rec = &records[i];
        assert(recs[i as int] == string_views(rec@));
        let ghost before = Seq::new(out@.len(), |q: int| row_facts_view(out@[q]));
        match row_key(headers, rec, turbine_id) {
            Some(k) => {
                let wind_speed = field_text(headers, rec, "wind_speed");
                let power = field_text(headers, rec, "power");
                let gearbox_oil_temp = field_text(headers, rec, "gearbox_oil_temp");
                let generator_temp = field_text(headers, rec, "generator_temp");
                let vibration = field_text(headers, rec, "vibration");
                let alarms = field(headers, rec, "alarm_codes");
                let alarm_codes = match &alarms {
                    Some(a) => split_alarm_codes(Some(a.as_str())),
                    None => split_alarm_codes(None),
                };
                let f = ScadaRowFacts {
                    turbine_id: k.turbine_id,
                    timestamp: k.timestamp,
                    wind_speed,
                    power,
                    gearbox_oil_temp,
                    generator_temp,
                    vibration,
                    alarm_codes,
                };
                assert(row_facts_view(f) =~= row_facts_spec(h, recs[i as int]));
                out.push(f);
                assert(Seq::new(out@.len(), |q: int| row_facts_view(out@[q])) =~= before.push(row_facts_view(f)));
            },
            None => {},
        }
        i = i + 1;
    }
    out
}

/// The rows of a SCADA CSV export held in memory (`path` names it in error
/// messages): the facts of its kept rows, or why it could not be read.
pub open spec fn scada_table_spec(bytes: Seq<u8>, path: Seq<char>, turbine_id: Option<Seq<char>>) -> Result<
    Seq<(Seq<char>, Seq<char>, Seq<Option<Seq<char>>>, Seq<Seq<char>>)>,
    Seq<char>,
> {
    match csv_table(bytes) {
        Ok((h, recs)) => Ok(rows_spec(h, recs, turbine_id, recs.len() as int)),
        Err((true, e)) => Err("read SCADA csv headers "@ + path + ": "@ + e),
        Err((false, e)) => Err("read SCADA csv row "@ + path + ": "@ + e),
    }
}

/// The rows of a SCADA CSV export held in memory.
pub fn read_scada_csv(bytes: &Vec<u8>, path: &str, turbine_id: Option<&str>) -> (r: Result<
    Vec<ScadaRowFacts>,
    String,
>)
    ensures
        match r {
            Ok(rows) => scada_table_spec(bytes@, path@, crate::graph::opt_str_view(turbine_id)) == Ok::<
                Seq<(Seq<char>, Seq<char>, Seq<Option<Seq<char>>>, Seq<Seq<char>>)>,
                Seq<char>,
            >(Seq::new(rows@.len(), |i: int| row_facts_view(rows@[i]))),
            Err(e) => scada_table_spec(bytes@, path@, crate::graph::opt_str_view(turbine_id)) == Err::<
                Seq<(Seq<char>, Seq<char>, Seq<Option<Seq<char>>>, Seq<Seq<char>>)>,
                Seq<char>,
            >(e@),
        },
{
    match parse_csv_table(bytes) {
        Ok((headers, records)) => Ok(scada_rows(&headers, &records, turbine_id)),
        Err((on_headers, e)) => {
            let mut m = if on_headers {
                crate::text::concat("read SCADA csv headers ", path)
            } else {
                crate::text::concat("read SCADA csv row ", path)
            };
            crate::text::push_str(&mut m, ": ");
            crate::text::push_str(&mut m, e.as_str());
            Err(m)
        },
    }
}

} // verus!
