//! Character-level text primitives shared by the wind-domain rules:
//! substring search, ASCII case folding, Unicode whitespace trimming and
//! decimal formatting, each with a specification over `Seq<char>`.
use vstd::prelude::*;

verus! {

// ---------------------------------------------------------------------------
// Specifications
// ---------------------------------------------------------------------------

/// ASCII lower-casing of one character; every other character is unchanged.
pub open spec fn lower_char(c: char) -> char {
    if 'A' <= c && c <= 'Z' {
        ((c as u32) + 32) as char
    } else {
        c
    }
}

/// ASCII lower-casing of a character sequence.
pub open spec fn lower(s: Seq<char>) -> Seq<char> {
    Seq::new(s.len(), |i: int| lower_char(s[i]))
}

/// `needle` occurs in `hay` starting at position `i`.
pub open spec fn occurs_at(hay: Seq<char>, needle: Seq<char>, i: int) -> bool {
    &&& 0 <= i
    &&& i + needle.len() <= hay.len()
    &&& hay.subrange(i, i + needle.len()) == needle
}

/// `needle` is a contiguous part of `hay` (the empty needle is part of every text).
pub open spec fn has_sub(hay: Seq<char>, needle: Seq<char>) -> bool {
    exists|i: int| occurs_at(hay, needle, i)
}

/// Some needle of the list is a contiguous part of `hay`.
pub open spec fn has_any(hay: Seq<char>, needles: Seq<Seq<char>>) -> bool {
    exists|k: int| 0 <= k < needles.len() && has_sub(hay, #[trigger] needles[k])
}

/// Some needle of the list occurs in `hay` when both are ASCII lower-cased.
pub open spec fn has_any_folded(hay: Seq<char>, needles: Seq<Seq<char>>) -> bool {
    exists|k: int| 0 <= k < needles.len() && has_sub(lower(hay), lower(#[trigger] needles[k]))
}

/// The views of a list of string slices.
pub open spec fn views(items: Seq<&str>) -> Seq<Seq<char>> {
    Seq::new(items.len(), |i: int| items[i]@)
}

/// The views of a list of owned strings.
pub open spec fn string_views(items: Seq<String>) -> Seq<Seq<char>> {
    Seq::new(items.len(), |i: int| items[i]@)
}

/// The characters with the Unicode `White_Space` property, which is what
/// `char::is_whitespace` and `str::trim` use.
pub open spec fn is_ws(c: char) -> bool {
    let u = c as u32;
    ||| 0x09 <= u <= 0x0d
    ||| u == 0x20
    ||| u == 0x85
    ||| u == 0xa0
    ||| u == 0x1680
    ||| 0x2000 <= u <= 0x200a
    ||| u == 0x2028
    ||| u == 0x2029
    ||| u == 0x202f
    ||| u == 0x205f
    ||| u == 0x3000
}

/// Every character is whitespace (so trimming leaves nothing).
pub open spec fn all_ws(s: Seq<char>) -> bool {
    forall|i: int| 0 <= i < s.len() ==> is_ws(#[trigger] s[i])
}

/// Leading whitespace removed.
pub open spec fn trim_start(s: Seq<char>) -> Seq<char>
    decreases s.len(),
{
    if s.len() > 0 && is_ws(s[0]) {
        trim_start(s.drop_first())
    } else {
        s
    }
}

/// Trailing whitespace removed.
pub open spec fn trim_end(s: Seq<char>) -> Seq<char>
    decreases s.len(),
{
    if s.len() > 0 && is_ws(s.last()) {
        trim_end(s.drop_last())
    } else {
        s
    }
}

/// Leading and trailing whitespace removed, as `str::trim` does.
pub open spec fn trim(s: Seq<char>) -> Seq<char> {
    trim_end(trim_start(s))
}

/// The decimal digit character for `d < 10`.
pub open spec fn digit(d: nat) -> char {
    (('0' as u32) + d) as char
}

/// The decimal representation of a natural number, without leading zeros.
pub open spec fn decimal(n: nat) -> Seq<char>
    decreases n,
{
    if n < 10 {
        seq![digit(n)]
    } else {
        decimal(n / 10).push(digit(n % 10))
    }
}

/// `n` zero characters.
pub open spec fn zeros(n: nat) -> Seq<char> {
    Seq::new(n, |i: int| '0')
}

/// An integer written with at least `width` characters, padded with zeros
/// after the sign, as the `{:0width}` format does.
pub open spec fn zero_padded(v: int, width: nat) -> Seq<char> {
    if v < 0 {
        let digits = decimal((-v) as nat);
        let pad = if digits.len() + 1 >= width { 0 } else { (width - 1 - digits.len()) as nat };
        seq!['-'] + zeros(pad) + digits
    } else {
        let digits = decimal(v as nat);
        let pad = if digits.len() >= width { 0 } else { (width - digits.len()) as nat };
        zeros(pad) + digits
    }
}

// ---------------------------------------------------------------------------
// Lemmas
// ---------------------------------------------------------------------------

/// Trimming an all-whitespace sequence leaves nothing, and only then.
pub proof fn lemma_trim_empty_iff_all_ws(s: Seq<char>)
    ensures
        (trim(s).len() == 0) == all_ws(s),
{
    lemma_trim_start_all_ws(s);
    lemma_trim_start_keeps_first(s);
    lemma_trim_end_empty_iff(trim_start(s));
}

proof fn lemma_trim_start_all_ws(s: Seq<char>)
    ensures
        (trim_start(s).len() == 0) == all_ws(s),
    decreases s.len(),
{
    if s.len() > 0 && is_ws(s[0]) {
        lemma_trim_start_all_ws(s.drop_first());
        if all_ws(s.drop_first()) {
            assert forall|i: int| 0 <= i < s.len() implies is_ws(#[trigger] s[i]) by {
                if i > 0 {
                    assert(s[i] == s.drop_first()[i - 1]);
                }
            }
        }
        if all_ws(s) {
            assert forall|i: int| 0 <= i < s.drop_first().len() implies is_ws(
                #[trigger] s.drop_first()[i],
            ) by {
                assert(s.drop_first()[i] == s[i + 1]);
            }
        }
    } else if s.len() > 0 {
        assert(!is_ws(s[0]));
    }
}

proof fn lemma_trim_start_keeps_first(s: Seq<char>)
    ensures
        trim_start(s).len() > 0 ==> !is_ws(trim_start(s)[0]),
    decreases s.len(),
{
    if s.len() > 0 && is_ws(s[0]) {
        lemma_trim_start_keeps_first(s.drop_first());
    }
}

proof fn lemma_trim_end_empty_iff(s: Seq<char>)
    requires
        s.len() > 0 ==> !is_ws(s[0]),
    ensures
        (trim_end(s).len() == 0) == (s.len() == 0),
    decreases s.len(),
{
    if s.len() > 0 && is_ws(s.last()) {
        if s.len() == 1 {
            assert(s.last() == s[0]);
        } else {
            assert(s.drop_last()[0] == s[0]);
            lemma_trim_end_empty_iff(s.drop_last());
        }
    }
}

/// A sequence that contains `a + b`-style occurrences keeps them after extension.
pub proof fn lemma_has_sub_prefix(hay: Seq<char>, extra: Seq<char>, needle: Seq<char>)
    requires
        has_sub(hay, needle),
    ensures
        has_sub(hay + extra, needle),
{
    let i = choose|i: int| occurs_at(hay, needle, i);
    assert((hay + extra).subrange(i, i + needle.len()) =~= hay.subrange(i, i + needle.len()));
    assert(occurs_at(hay + extra, needle, i));
}

/// A text that contains a part still contains it once both are ASCII lower-cased.
pub proof fn lemma_has_sub_lower(hay: Seq<char>, needle: Seq<char>)
    requires
        has_sub(hay, needle),
    ensures
        has_sub(lower(hay), lower(needle)),
{
    let i = choose|i: int| occurs_at(hay, needle, i);
    assert forall|j: int| 0 <= j < needle.len() implies #[trigger] lower(hay).subrange(i, i + needle.len())[j]
        == lower(needle)[j] by {
        assert(hay.subrange(i, i + needle.len())[j] == hay[i + j]);
    }
    assert(lower(hay).subrange(i, i + needle.len()) =~= lower(needle));
    assert(occurs_at(lower(hay), lower(needle), i));
}

/// The suffix of a concatenation is part of it.
pub proof fn lemma_has_sub_suffix(hay: Seq<char>, tail: Seq<char>)
    ensures
        has_sub(hay + tail, tail),
{
    assert((hay + tail).subrange(hay.len() as int, (hay.len() + tail.len()) as int) =~= tail);
    assert(occurs_at(hay + tail, tail, hay.len() as int));
}

// ---------------------------------------------------------------------------
// Executable primitives
// ---------------------------------------------------------------------------

/// The characters of a string slice.
pub fn chars_of(s: &str) -> (v: Vec<char>)
    ensures
        v@ == s@,
{
    let mut v: Vec<char> = Vec::new();
    for c in it: s.chars()
        invariant
            it.seq() == s@,
            v@ == it.seq().take(it.index() as int),
    {
        v.push(c);
    }
    v
}

/// Appends one character to a string (`String::push`).
#[verifier::external_body]
pub(crate) fn push_char(s: &mut String, c: char)
    ensures
        final(s)@ == old(s)@.push(c),
{
    s.push(c);
}

/// Appends a string slice to a string.
pub(crate) fn push_str(s: &mut String, t: &str)
    ensures
        final(s)@ == old(s)@ + t@,
{
    s.append(t);
}

/// An owned copy of a string slice.
pub fn owned(s: &str) -> (r: String)
    ensures
        r@ == s@,
{
    s.to_owned()
}

/// The string made of the given characters.
pub fn string_of(v: &Vec<char>) -> (s: String)
    ensures
        s@ == v@,
{
    let mut s = String::new();
    let mut i: usize = 0;
    while i < v.len()
        invariant
            i <= v.len(),
            s@ == v@.take(i as int),
        decreases v.len() - i,
    {
        push_char(&mut s, v[i]);
        assert(v@.take(i as int).push(v@[i as int]) =~= v@.take(i + 1));
        i = i + 1;
    }
    assert(v@.take(v.len() as int) =~= v@);
    s
}

/// The concatenation of two string slices.
pub fn concat(a: &str, b: &str) -> (r: String)
    ensures
        r@ == a@ + b@,
{
    let mut r = owned(a);
    push_str(&mut r, b);
    r
}

/// ASCII lower-casing of one character.
pub fn lower_char_exec(c: char) -> (r: char)
    ensures
        r == lower_char(c),
{
    if 'A' <= c && c <= 'Z' {
        let b: u8 = c as u8;
        assert(b == c as u32);
        ((b + 32) as char)
    } else {
        c
    }
}

/// ASCII lower-casing of a character sequence.
pub fn lower_vec(v: &Vec<char>) -> (r: Vec<char>)
    ensures
        r@ == lower(v@),
{
    let mut r: Vec<char> = Vec::new();
    let mut i: usize = 0;
    while i < v.len()
        invariant
            i <= v.len(),
            r@ =~= lower(v@.take(i as int)),
        decreases v.len() - i,
    {
        r.push(lower_char_exec(v[i]));
        i = i + 1;
    }
    assert(v@.take(v.len() as int) =~= v@);
    r
}

/// ASCII lower-cased characters of a string slice.
pub fn lower_str(s: &str) -> (r: Vec<char>)
    ensures
        r@ == lower(s@),
{
    let v = chars_of(s);
    lower_vec(&v)
}

/// Whether `needle` occurs in `hay` at position `i`.
fn occurs_at_exec(hay: &Vec<char>, needle: &Vec<char>, i: usize) -> (r: bool)
    requires
        i + needle.len() <= hay.len(),
    ensures
        r == occurs_at(hay@, needle@, i as int),
{
    let mut j: usize = 0;
    while j < needle.len()
        invariant
            j <= needle.len(),
            i + needle.len() <= hay.len(),
            forall|k: int| 0 <= k < j ==> hay@[i + k] == needle@[k],
        decreases needle.len() - j,
    {
        if hay[i + j] != needle[j] {
            assert(hay@.subrange(i as int, i + needle.len())[j as int] != needle@[j as int]);
            return false;
        }
        j = j + 1;
    }
    assert(hay@.subrange(i as int, i + needle.len()) =~= needle@);
    true
}

/// Whether `needle` is a contiguous part of `hay`.
pub fn vec_contains(hay: &Vec<char>, needle: &Vec<char>) -> (r: bool)
    ensures
        r == has_sub(hay@, needle@),
{
    if needle.len() > hay.len() {
        assert forall|i: int| !occurs_at(hay@, needle@, i) by {}
        return false;
    }
    let last = hay.len() - needle.len();
    let mut i: usize = 0;
    while i < last
        invariant
            last == hay.len() - needle.len(),
            needle.len() <= hay.len(),
            i <= last,
            forall|k: int| 0 <= k < i ==> !occurs_at(hay@, needle@, k),
        decreases last - i,
    {
        if occurs_at_exec(hay, needle, i) {
            return true;
        }
        i = i + 1;
    }
    if occurs_at_exec(hay, needle, last) {
        return true;
    }
    assert forall|k: int| !occurs_at(hay@, needle@, k) by {
        if 0 <= k < i {
        }
    }
    false
}

/// Whether `needle` is a contiguous part of `hay` (`str::contains`).
pub fn str_contains(hay: &str, needle: &str) -> (r: bool)
    ensures
        r == has_sub(hay@, needle@),
{
    let h = chars_of(hay);
    let n = chars_of(needle);
    vec_contains(&h, &n)
}

/// Whether some needle is a contiguous part of `hay`.
pub fn contains_any(hay: &str, needles: &[&str]) -> (r: bool)
    ensures
        r == has_any(hay@, views(needles@)),
{
    let h = chars_of(hay);
    chars_contain_any(&h, needles)
}

/// Whether some needle is a contiguous part of the characters `h`.
pub fn chars_contain_any(h: &Vec<char>, needles: &[&str]) -> (r: bool)
    ensures
        r == has_any(h@, views(needles@)),
{
    let ghost hay = h@;
    let mut k: usize = 0;
    while k < needles.len()
        invariant
            k <= needles.len(),
            h@ == hay,
            forall|j: int| 0 <= j < k ==> !has_sub(hay, #[trigger] views(needles@)[j]),
        decreases needles.len() - k,
    {
        let n = chars_of(needles[k]);
        if vec_contains(h, &n) {
            assert(has_sub(hay, views(needles@)[k as int]));
            return true;
        }
        k = k + 1;
    }
    false
}

/// Whether some needle occurs in `value`, ignoring ASCII case on both sides.
pub fn contains_any_text(value: &str, needles: &[&str]) -> (r: bool)
    ensures
        r == has_any_folded(value@, views(needles@)),
{
    let h = lower_str(value);
    let mut k: usize = 0;
    while k < needles.len()
        invariant
            k <= needles.len(),
            h@ == lower(value@),
            forall|j: int|
                0 <= j < k ==> !has_sub(lower(value@), lower(#[trigger] views(needles@)[j])),
        decreases needles.len() - k,
    {
        let n = lower_str(needles[k]);
        if vec_contains(&h, &n) {
            assert(has_sub(lower(value@), lower(views(needles@)[k as int])));
            return true;
        }
        k = k + 1;
    }
    false
}

/// Whether two slices hold the same characters (`==` on `str`).
pub fn str_eq(a: &str, b: &str) -> (r: bool)
    ensures
        r == (a@ == b@),
{
    let x = chars_of(a);
    let y = chars_of(b);
    vec_eq(&x, &y)
}

/// Whether two character vectors are equal.
pub fn vec_eq(x: &Vec<char>, y: &Vec<char>) -> (r: bool)
    ensures
        r == (x@ == y@),
{
    if x.len() != y.len() {
        return false;
    }
    let mut i: usize = 0;
    while i < x.len()
        invariant
            i <= x.len(),
            x.len() == y.len(),
            forall|k: int| 0 <= k < i ==> x@[k] == y@[k],
        decreases x.len() - i,
    {
        if x[i] != y[i] {
            return false;
        }
        i = i + 1;
    }
    assert(x@ =~= y@);
    true
}

/// Whether two slices are equal ignoring ASCII case (`eq_ignore_ascii_case`).
pub fn eq_ignore_ascii_case(a: &str, b: &str) -> (r: bool)
    ensures
        r == (lower(a@) == lower(b@)),
{
    let x = lower_str(a);
    let y = lower_str(b);
    vec_eq(&x, &y)
}

/// Whether a character is Unicode whitespace (`char::is_whitespace`).
pub fn is_ws_exec(c: char) -> (r: bool)
    ensures
        r == is_ws(c),
{
    let u = c as u32;
    (0x09 <= u && u <= 0x0d) || u == 0x20 || u == 0x85 || u == 0xa0 || u == 0x1680 || (0x2000 <= u
        && u <= 0x200a) || u == 0x2028 || u == 0x2029 || u == 0x202f || u == 0x205f || u == 0x3000
}

/// The characters of `v` between the first and last non-whitespace ones.
pub fn trim_vec(v: &Vec<char>) -> (r: Vec<char>)
    ensures
        r@ == trim(v@),
{
    let mut start: usize = 0;
    assert(v@.subrange(0, v.len() as int) =~= v@);
    while start < v.len() && is_ws_exec(v[start])
        invariant
            start <= v.len(),
            trim_start(v@) == trim_start(v@.subrange(start as int, v.len() as int)),
        decreases v.len() - start,
    {
        let ghost rest = v@.subrange(start as int, v.len() as int);
        assert(rest.drop_first() =~= v@.subrange(start + 1, v.len() as int));
        start = start + 1;
    }
    let ghost head = v@.subrange(start as int, v.len() as int);
    assert(trim_start(head) == head);
    let mut end: usize = v.len();
    while end > start && is_ws_exec(v[end - 1])
        invariant
            start <= end <= v.len(),
            head == v@.subrange(start as int, v.len() as int),
            trim_end(head) == trim_end(v@.subrange(start as int, end as int)),
        decreases end - start,
    {
        let ghost cur = v@.subrange(start as int, end as int);
        assert(cur.drop_last() =~= v@.subrange(start as int, end - 1));
        end = end - 1;
    }
    let ghost mid = v@.subrange(start as int, end as int);
    assert(trim_end(mid) == mid);
    let mut r: Vec<char> = Vec::new();
    let mut i: usize = start;
    while i < end
        invariant
            start <= i <= end,
            end <= v.len(),
            r@ =~= v@.subrange(start as int, i as int),
        decreases end - i,
    {
        r.push(v[i]);
        i = i + 1;
    }
    r
}

/// `str::trim` followed by an owned copy.
pub fn trim_str(s: &str) -> (r: String)
    ensures
        r@ == trim(s@),
{
    let v = chars_of(s);
    let t = trim_vec(&v);
    string_of(&t)
}

/// Whether a slice is empty after trimming (`s.trim().is_empty()`).
pub fn is_blank(s: &str) -> (r: bool)
    ensures
        r == all_ws(s@),
{
    let v = chars_of(s);
    let t = trim_vec(&v);
    proof {
        lemma_trim_empty_iff_all_ws(s@);
    }
    t.len() == 0
}

/// The digit character for `d < 10`.
fn digit_exec(d: u64) -> (c: char)
    requires
        d < 10,
    ensures
        c == digit(d as nat),
{
    let b: u8 = d as u8;
    let c = (b + 48) as char;
    c
}

/// The decimal representation of a number.
pub fn decimal_vec(n: u64) -> (r: Vec<char>)
    ensures
        r@ == decimal(n as nat),
    decreases n,
{
    if n < 10 {
        let mut r = Vec::new();
        r.push(digit_exec(n));
        proof {
            assert(r@ =~= seq![digit(n as nat)]);
        }
        r
    } else {
        let mut r = decimal_vec(n / 10);
        r.push(digit_exec(n % 10));
        r
    }
}

/// The decimal representation of a number as a string (`to_string`).
pub fn decimal_string(n: u64) -> (s: String)
    ensures
        s@ == decimal(n as nat),
{
    let v = decimal_vec(n);
    string_of(&v)
}

/// Appends `count` copies of `c`.
fn push_repeat(r: &mut Vec<char>, c: char, count: usize)
    ensures
        final(r)@ == old(r)@ + Seq::new(count as nat, |i: int| c),
{
    let ghost start = r@;
    let mut i: usize = 0;
    while i < count
        invariant
            i <= count,
            r@ =~= start + Seq::new(i as nat, |k: int| c),
        decreases count - i,
    {
        r.push(c);
        i = i + 1;
    }
}

/// A signed number written with at least `width` characters, zero-padded
/// after the sign (the `{:0width}` format).
pub fn zero_padded_vec(v: i64, width: usize) -> (r: Vec<char>)
    ensures
        r@ == zero_padded(v as int, width as nat),
{
    if v < 0 {
        let mag: u64 = if v == i64::MIN {
            9223372036854775808u64
        } else {
            (-v) as u64
        };
        let digits = decimal_vec(mag);
        let pad: usize = if width <= digits.len() || width - digits.len() <= 1 {
            0
        } else {
            width - 1 - digits.len()
        };
        let mut r: Vec<char> = Vec::new();
        r.push('-');
        push_repeat(&mut r, '0', pad);
        let mut i: usize = 0;
        let ghost pre = r@;
        while i < digits.len()
            invariant
                i <= digits.len(),
                r@ =~= pre + digits@.take(i as int),
            decreases digits.len() - i,
        {
            r.push(digits[i]);
            i = i + 1;
        }
        assert(digits@.take(digits.len() as int) =~= digits@);
        assert(zeros(pad as nat) =~= Seq::new(pad as nat, |k: int| '0'));
        assert(r@ =~= seq!['-'] + zeros(pad as nat) + digits@);
        r
    } else {
        let digits = decimal_vec(v as u64);
        let pad: usize = if digits.len() >= width {
            0
        } else {
            width - digits.len()
        };
        let mut r: Vec<char> = Vec::new();
        push_repeat(&mut r, '0', pad);
        let mut i: usize = 0;
        let ghost pre = r@;
        while i < digits.len()
            invariant
                i <= digits.len(),
                r@ =~= pre + digits@.take(i as int),
            decreases digits.len() - i,
        {
            r.push(digits[i]);
            i = i + 1;
        }
        assert(digits@.take(digits.len() as int) =~= digits@);
        assert(zeros(pad as nat) =~= Seq::new(pad as nat, |k: int| '0'));
        r
    }
}

// ---------------------------------------------------------------------------
// Lexicographic order
// ---------------------------------------------------------------------------

/// Lexicographic order of character sequences by code point, which is the
/// order of `String`'s `Ord` (UTF-8 preserves code point order).
pub open spec fn seq_lt(a: Seq<char>, b: Seq<char>) -> bool
    decreases a.len(),
{
    if a.len() == 0 {
        b.len() > 0
    } else if b.len() == 0 {
        false
    } else if a[0] < b[0] {
        true
    } else if a[0] > b[0] {
        false
    } else {
        seq_lt(a.drop_first(), b.drop_first())
    }
}

/// The order is irreflexive and asymmetric.
pub proof fn lemma_seq_lt_asym(a: Seq<char>, b: Seq<char>)
    ensures
        !(seq_lt(a, b) && seq_lt(b, a)),
        !seq_lt(a, a),
    decreases a.len(),
{
    if a.len() > 0 && b.len() > 0 && a[0] == b[0] {
        lemma_seq_lt_asym(a.drop_first(), b.drop_first());
    }
    if a.len() > 0 {
        lemma_seq_lt_asym(a.drop_first(), a.drop_first());
    }
}

/// Two different sequences are ordered one way or the other.
pub proof fn lemma_seq_lt_total(a: Seq<char>, b: Seq<char>)
    ensures
        a != b ==> seq_lt(a, b) || seq_lt(b, a),
    decreases a.len(),
{
    if a.len() > 0 && b.len() > 0 && a[0] == b[0] {
        lemma_seq_lt_total(a.drop_first(), b.drop_first());
        if a.drop_first() == b.drop_first() {
            assert(a =~= seq![a[0]] + a.drop_first());
            assert(b =~= seq![b[0]] + b.drop_first());
        }
    } else if a.len() == 0 && b.len() == 0 {
        assert(a =~= b);
    }
}

/// The order is transitive.
pub proof fn lemma_seq_lt_trans(a: Seq<char>, b: Seq<char>, c: Seq<char>)
    requires
        seq_lt(a, b),
        seq_lt(b, c),
    ensures
        seq_lt(a, c),
    decreases a.len(),
{
    if a.len() > 0 && b.len() > 0 && c.len() > 0 && a[0] == b[0] && b[0] == c[0] {
        lemma_seq_lt_trans(a.drop_first(), b.drop_first(), c.drop_first());
    }
}

/// A sequence with one more element holds what it held and the new element.
pub proof fn lemma_push_contains(s: Seq<Seq<char>>, v: Seq<char>, x: Seq<char>)
    ensures
        s.push(v).contains(x) <==> (s.contains(x) || x == v),
{
    let t = s.push(v);
    if t.contains(x) {
        let j = choose|j: int| 0 <= j < t.len() && t[j] == x;
        if j < s.len() {
            assert(s[j] == x);
        }
    }
    if s.contains(x) {
        let j = choose|j: int| 0 <= j < s.len() && s[j] == x;
        assert(t[j] == x);
    }
    if x == v {
        assert(t[s.len() as int] == x);
    }
}

/// Each element comes strictly before the next.
pub open spec fn strictly_sorted(s: Seq<Seq<char>>) -> bool {
    forall|a: int, b: int| 0 <= a < b < s.len() ==> seq_lt(#[trigger] s[a], #[trigger] s[b])
}

/// Two strictly sorted sequences with the same elements are equal.
pub proof fn lemma_sorted_sets_equal(x: Seq<Seq<char>>, y: Seq<Seq<char>>)
    requires
        strictly_sorted(x),
        strictly_sorted(y),
        forall|e: Seq<char>| x.contains(e) <==> y.contains(e),
    ensures
        x == y,
    decreases x.len(),
{
    if x.len() == 0 {
        if y.len() > 0 {
            assert(y.contains(y[0]));
        }
        assert(x =~= y);
    } else {
        assert(x.contains(x[0]));
        let j0 = choose|j: int| 0 <= j < y.len() && y[j] == x[0];
        assert(y.contains(y[0]));
        let i0 = choose|i: int| 0 <= i < x.len() && x[i] == y[0];
        lemma_seq_lt_asym(x[0], y[0]);
        if x[0] != y[0] {
            assert(i0 != 0 && j0 != 0);
            assert(seq_lt(x[0], x[i0]));
            assert(seq_lt(y[0], y[j0]));
        }
        let xt = x.drop_first();
        let yt = y.drop_first();
        assert forall|e: Seq<char>| xt.contains(e) <==> yt.contains(e) by {
            if xt.contains(e) {
                let i = choose|i: int| 0 <= i < xt.len() && xt[i] == e;
                assert(x[i + 1] == e);
                assert(seq_lt(x[0], x[i + 1]));
                lemma_seq_lt_asym(e, e);
                assert(y.contains(e));
                let j = choose|j: int| 0 <= j < y.len() && y[j] == e;
                assert(j != 0);
                assert(yt[j - 1] == e);
            }
            if yt.contains(e) {
                let j = choose|j: int| 0 <= j < yt.len() && yt[j] == e;
                assert(y[j + 1] == e);
                assert(seq_lt(y[0], y[j + 1]));
                lemma_seq_lt_asym(e, e);
                assert(x.contains(e));
                let i = choose|i: int| 0 <= i < x.len() && x[i] == e;
                assert(i != 0);
                assert(xt[i - 1] == e);
            }
        }
        assert(strictly_sorted(xt)) by {
            assert forall|a: int, b: int| 0 <= a < b < xt.len() implies seq_lt(
                #[trigger] xt[a],
                #[trigger] xt[b],
            ) by {
                assert(xt[a] == x[a + 1] && xt[b] == x[b + 1]);
            }
        }
        assert(strictly_sorted(yt)) by {
            assert forall|a: int, b: int| 0 <= a < b < yt.len() implies seq_lt(
                #[trigger] yt[a],
                #[trigger] yt[b],
            ) by {
                assert(yt[a] == y[a + 1] && yt[b] == y[b + 1]);
            }
        }
        lemma_sorted_sets_equal(xt, yt);
        assert(x =~= seq![x[0]] + xt);
        assert(y =~= seq![y[0]] + yt);
    }
}

/// Inserts a string into a strictly sorted list unless it is there.
pub fn insert_sorted_unique(r: &mut Vec<String>, v: &str)
    requires
        strictly_sorted(string_views(old(r)@)),
    ensures
        strictly_sorted(string_views(final(r)@)),
        forall|x: Seq<char>|
            #[trigger] string_views(final(r)@).contains(x) <==> (string_views(old(r)@).contains(x)
                || x == v@),
{
    let ghost before = string_views(r@);
    let mut p: usize = 0;
    while p < r.len() && str_lt(r[p].as_str(), v)
        invariant
            p <= r.len(),
            before == string_views(r@),
            forall|a: int| 0 <= a < p ==> seq_lt(#[trigger] before[a], v@),
        decreases r.len() - p,
    {
        p = p + 1;
    }
    if p < r.len() && str_eq(r[p].as_str(), v) {
        assert(before[p as int] == v@);
        return;
    }
    proof {
        assert forall|a: int| p <= a < before.len() implies seq_lt(v@, #[trigger] before[a]) by {
            lemma_seq_lt_total(v@, before[p as int]);
            if a > p {
                lemma_seq_lt_trans(v@, before[p as int], before[a]);
            }
        }
    }
    r.insert(p, owned(v));
    let ghost n = string_views(r@);
    assert(n =~= before.insert(p as int, v@));
    assert forall|a: int, b: int| 0 <= a < b < n.len() implies seq_lt(#[trigger] n[a], #[trigger] n[b]) by {
        if b < p {
            assert(n[a] == before[a] && n[b] == before[b]);
        } else if b == p {
            assert(n[a] == before[a]);
        } else if a < p {
            assert(n[a] == before[a] && n[b] == before[b - 1]);
            lemma_seq_lt_trans(before[a], v@, before[b - 1]);
        } else if a == p {
            assert(n[b] == before[b - 1]);
        } else {
            assert(n[a] == before[a - 1] && n[b] == before[b - 1]);
        }
    }
    assert forall|x: Seq<char>| #[trigger] n.contains(x) <==> (before.contains(x) || x == v@) by {
        if n.contains(x) {
            let a = choose|a: int| 0 <= a < n.len() && n[a] == x;
            if a < p {
                assert(before[a] == x);
            } else if a > p {
                assert(before[a - 1] == x);
            }
        }
        if before.contains(x) {
            let a = choose|a: int| 0 <= a < before.len() && before[a] == x;
            if a < p {
                assert(n[a] == x);
            } else {
                assert(n[a + 1] == x);
            }
        }
        if x == v@ {
            assert(n[p as int] == x);
        }
    }
}

/// The distinct values in ascending order.
pub fn sorted_unique(values: &Vec<String>) -> (r: Vec<String>)
    ensures
        strictly_sorted(string_views(r@)),
        forall|x: Seq<char>| #[trigger] string_views(r@).contains(x) <==> string_views(values@).contains(x),
{
    let mut r: Vec<String> = Vec::new();
    let mut i: usize = 0;
    assert(string_views(r@) =~= Seq::<Seq<char>>::empty());
    while i < values.len()
        invariant
            i <= values.len(),
            strictly_sorted(string_views(r@)),
            forall|x: Seq<char>|
                #[trigger] string_views(r@).contains(x) <==> string_views(values@).take(i as int).contains(x),
        decreases values.len() - i,
    {
        let ghost t0 = string_views(values@).take(i as int);
        let ghost t1 = string_views(values@).take(i + 1);
        assert(t1 =~= t0.push(values@[i as int]@));
        let ghost old_r = string_views(r@);
        assert(forall|x: Seq<char>| #[trigger] old_r.contains(x) <==> t0.contains(x));
        insert_sorted_unique(&mut r, values[i].as_str());
        assert forall|x: Seq<char>| #[trigger] string_views(r@).contains(x) <==> t1.contains(x) by {
            assert(old_r.contains(x) <==> t0.contains(x));
            if x == values@[i as int]@ {
                assert(t1[i as int] == x);
            }
            if t1.contains(x) {
                let j = choose|j: int| 0 <= j < t1.len() && t1[j] == x;
                if j < i {
                    assert(t0[j] == x);
                }
            }
            if t0.contains(x) {
                let j = choose|j: int| 0 <= j < t0.len() && t0[j] == x;
                assert(t1[j] == x);
            }
        }
        i = i + 1;
    }
    assert(string_views(values@).take(values.len() as int) =~= string_views(values@));
    r
}

/// Whether `a` comes strictly before `b` in lexicographic order.
pub fn vec_lt(a: &Vec<char>, b: &Vec<char>) -> (r: bool)
    ensures
        r == seq_lt(a@, b@),
{
    let mut i: usize = 0;
    assert(a@.skip(0) =~= a@ && b@.skip(0) =~= b@);
    while i < a.len() && i < b.len() && a[i] == b[i]
        invariant
            i <= a.len(),
            i <= b.len(),
            seq_lt(a@, b@) == seq_lt(a@.skip(i as int), b@.skip(i as int)),
        decreases a.len() - i,
    {
        assert(a@.skip(i as int).drop_first() =~= a@.skip(i + 1));
        assert(b@.skip(i as int).drop_first() =~= b@.skip(i + 1));
        i = i + 1;
    }
    let ghost sa = a@.skip(i as int);
    let ghost sb = b@.skip(i as int);
    if i == a.len() {
        assert(sa.len() == 0);
        i < b.len()
    } else if i == b.len() {
        false
    } else {
        assert(sa[0] == a@[i as int] && sb[0] == b@[i as int]);
        a[i] < b[i]
    }
}

/// Whether string `a` comes strictly before string `b` (`a < b` on `str`).
pub fn str_lt(a: &str, b: &str) -> (r: bool)
    ensures
        r == seq_lt(a@, b@),
{
    let x = chars_of(a);
    let y = chars_of(b);
    vec_lt(&x, &y)
}

/// A copy of a list of strings.
pub fn clone_strings(v: &Vec<String>) -> (r: Vec<String>)
    ensures
        string_views(r@) == string_views(v@),
        r@ == v@,
{
    let mut r: Vec<String> = Vec::new();
    let mut i: usize = 0;
    while i < v.len()
        invariant
            i <= v.len(),
            r@ =~= v@.take(i as int),
        decreases v.len() - i,
    {
        r.push(v[i].clone());
        i = i + 1;
    }
    assert(v@.take(v.len() as int) =~= v@);
    r
}

/// A copy of an optional string.
pub fn clone_opt(o: &Option<String>) -> (r: Option<String>)
    ensures
        r == *o,
{
    match o {
        Some(s) => Some(s.clone()),
        None => None,
    }
}

} // verus!
