//! Splitting document text into overlapping character windows.
use vstd::prelude::*;

use crate::text::{all_ws, chars_of, has_sub, is_ws, is_ws_exec, occurs_at, string_views};

verus! {

/// The distance between the starts of two consecutive windows: the window
/// length minus the overlap, where the overlap is capped at `max_chars - 1`.
pub open spec fn window_step(max_chars: nat, overlap: nat) -> nat {
    let capped = if overlap < max_chars - 1 { overlap } else { (max_chars - 1) as nat };
    (max_chars - capped) as nat
}

/// The non-blank windows of `s` whose starts are `start`, `start + step`, ...,
/// each `max_chars` long (or shorter at the end), stopping after the first
/// window that reaches the end of `s`.
pub open spec fn windows(s: Seq<char>, start: nat, max_chars: nat, step: nat) -> Seq<Seq<char>>
    decreases s.len() - start,
{
    if step == 0 || step > max_chars || start >= s.len() {
        Seq::empty()
    } else {
        let end: int = if start + max_chars < s.len() { (start + max_chars) as int } else { s.len() as int };
        let piece = s.subrange(start as int, end);
        let rest = if end >= s.len() {
            Seq::<Seq<char>>::empty()
        } else {
            windows(s, start + step, max_chars, step)
        };
        if all_ws(piece) {
            rest
        } else {
            seq![piece] + rest
        }
    }
}

/// The chunks of a text: nothing for a zero window length, else its windows.
pub open spec fn chunks_spec(s: Seq<char>, max_chars: nat, overlap: nat) -> Seq<Seq<char>> {
    if max_chars == 0 {
        Seq::empty()
    } else {
        windows(s, 0, max_chars, window_step(max_chars, overlap))
    }
}

/// Whether the characters `v[start..end]` are all whitespace.
fn range_is_blank(v: &Vec<char>, start: usize, end: usize) -> (r: bool)
    requires
        start <= end <= v.len(),
    ensures
        r == all_ws(v@.subrange(start as int, end as int)),
{
    let mut i: usize = start;
    while i < end
        invariant
            start <= i <= end <= v.len(),
            forall|j: int| start <= j < i ==> is_ws(#[trigger] v@[j]),
        decreases end - i,
    {
        if !is_ws_exec(v[i]) {
            assert(v@.subrange(start as int, end as int)[i - start] == v@[i as int]);
            return false;
        }
        i = i + 1;
    }
    let ghost piece = v@.subrange(start as int, end as int);
    assert forall|j: int| 0 <= j < piece.len() implies is_ws(#[trigger] piece[j]) by {
        assert(piece[j] == v@[start + j]);
    }
    true
}

/// The string made of the characters `v[start..end]`.
fn string_of_range(v: &Vec<char>, start: usize, end: usize) -> (s: String)
    requires
        start <= end <= v.len(),
    ensures
        s@ == v@.subrange(start as int, end as int),
{
    let mut s = String::new();
    let mut i: usize = start;
    while i < end
        invariant
            start <= i <= end <= v.len(),
            s@ == v@.subrange(start as int, i as int),
        decreases end - i,
    {
        crate::text::push_char(&mut s, v[i]);
        assert(v@.subrange(start as int, i as int).push(v@[i as int]) =~= v@.subrange(
            start as int,
            i + 1,
        ));
        i = i + 1;
    }
    s
}

/// Splits `text` into windows of `max_chars` characters, consecutive windows
/// overlapping by `overlap` characters (at most `max_chars - 1`), and keeps
/// the windows that are not blank.
pub fn chunk_text(text: &str, max_chars: usize, overlap: usize) -> (out: Vec<String>)
    ensures
        string_views(out@) == chunks_spec(text@, max_chars as nat, overlap as nat),
{
    let mut out: Vec<String> = Vec::new();
    if max_chars == 0 {
        proof {
            assert(string_views(out@) =~= Seq::<Seq<char>>::empty());
        }
        return out;
    }
    let capped = if overlap < max_chars - 1 {
        overlap
    } else {
        max_chars - 1
    };
    let step = max_chars - capped;
    let chars = chars_of(text);
    let ghost s = text@;
    if chars.len() == 0 {
        proof {
            assert(string_views(out@) =~= Seq::<Seq<char>>::empty());
        }
        return out;
    }
    let mut start: usize = 0;
    proof {
        assert(string_views(out@) =~= Seq::<Seq<char>>::empty());
        assert(Seq::<Seq<char>>::empty() + windows(s, 0, max_chars as nat, step as nat) =~= windows(
            s,
            0,
            max_chars as nat,
            step as nat,
        ));
    }
    loop
        invariant_except_break
            start < chars.len(),
            string_views(out@) + windows(s, start as nat, max_chars as nat, step as nat)
                == chunks_spec(s, max_chars as nat, overlap as nat),
        invariant
            chars@ == s,
            s == text@,
            max_chars > 0,
            0 < step <= max_chars,
            step == window_step(max_chars as nat, overlap as nat),
        ensures
            string_views(out@) == chunks_spec(s, max_chars as nat, overlap as nat),
        decreases chars.len() - start,
    {
        let end = if max_chars < chars.len() - start {
            start + max_chars
        } else {
            chars.len()
        };
        let ghost before = out@;
        let ghost rest = if end >= chars.len() {
            Seq::<Seq<char>>::empty()
        } else {
            windows(s, (start + step) as nat, max_chars as nat, step as nat)
        };
        let blank = range_is_blank(&chars, start, end);
        if !blank {
            let piece = string_of_range(&chars, start, end);
            out.push(piece);
            proof {
                assert(string_views(out@) =~= string_views(before).push(piece@));
                assert(string_views(before).push(piece@) + rest =~= string_views(before) + (seq![
                    piece@] + rest));
            }
        }
        if end >= chars.len() {
            proof {
                assert(string_views(out@) + Seq::<Seq<char>>::empty() =~= string_views(out@));
            }
            break;
        }
        start = start + step;
    }
    out
}

// ---------------------------------------------------------------------------
// Laws
// ---------------------------------------------------------------------------

proof fn lemma_windows_shape(s: Seq<char>, start: nat, max_chars: nat, step: nat)
    ensures
        forall|k: int|
            0 <= k < windows(s, start, max_chars, step).len() ==> {
                let w = #[trigger] windows(s, start, max_chars, step)[k];
                &&& 0 < w.len() <= max_chars
                &&& !all_ws(w)
                &&& has_sub(s, w)
            },
    decreases s.len() - start,
{
    if step == 0 || step > max_chars || start >= s.len() {
    } else {
        let end: int = if start + max_chars < s.len() { (start + max_chars) as int } else { s.len() as int };
        let piece = s.subrange(start as int, end);
        assert(occurs_at(s, piece, start as int));
        if end < s.len() {
            lemma_windows_shape(s, start + step, max_chars, step);
        }
        let ws = windows(s, start, max_chars, step);
        assert forall|k: int| 0 <= k < ws.len() implies {
            let w = #[trigger] ws[k];
            &&& 0 < w.len() <= max_chars
            &&& !all_ws(w)
            &&& has_sub(s, w)
        } by {
            if !all_ws(piece) && k == 0 {
                assert(ws[0] == piece);
                if piece.len() == 0 {
                    assert(all_ws(piece));
                }
            } else if !all_ws(piece) {
                assert(ws[k] == windows(s, start + step, max_chars, step)[k - 1]);
            } else {
                assert(ws[k] == windows(s, start + step, max_chars, step)[k]);
            }
        }
    }
}

/// Every chunk is a non-empty, non-blank contiguous part of the text, no
/// longer than the window length.
pub proof fn lemma_chunks_are_windows(s: Seq<char>, max_chars: nat, overlap: nat)
    ensures
        forall|k: int|
            0 <= k < chunks_spec(s, max_chars, overlap).len() ==> {
                let w = #[trigger] chunks_spec(s, max_chars, overlap)[k];
                &&& 0 < w.len() <= max_chars
                &&& !all_ws(w)
                &&& has_sub(s, w)
            },
{
    if max_chars > 0 {
        lemma_windows_shape(s, 0, max_chars, window_step(max_chars, overlap));
    }
}

/// A text that fits in one window and is not blank is its own single chunk,
/// whatever the overlap.
pub proof fn lemma_short_text_is_one_chunk(s: Seq<char>, max_chars: nat, overlap: nat)
    requires
        0 < s.len() <= max_chars,
        !all_ws(s),
    ensures
        chunks_spec(s, max_chars, overlap) == seq![s],
{
    let step = window_step(max_chars, overlap);
    assert(s.subrange(0, s.len() as int) =~= s);
    assert(seq![s] + Seq::<Seq<char>>::empty() =~= seq![s]);
}

/// A blank text has no chunks.
pub proof fn lemma_blank_text_has_no_chunks(s: Seq<char>, max_chars: nat, overlap: nat)
    requires
        all_ws(s),
    ensures
        chunks_spec(s, max_chars, overlap).len() == 0,
{
    if max_chars > 0 {
        lemma_blank_windows(s, 0, max_chars, window_step(max_chars, overlap));
    }
}

proof fn lemma_blank_windows(s: Seq<char>, start: nat, max_chars: nat, step: nat)
    requires
        all_ws(s),
    ensures
        windows(s, start, max_chars, step).len() == 0,
    decreases s.len() - start,
{
    if step == 0 || step > max_chars || start >= s.len() {
    } else {
        let end: int = if start + max_chars < s.len() { (start + max_chars) as int } else { s.len() as int };
        let piece = s.subrange(start as int, end);
        assert forall|j: int| 0 <= j < piece.len() implies is_ws(#[trigger] piece[j]) by {
            assert(piece[j] == s[start + j]);
        }
        if end < s.len() {
            lemma_blank_windows(s, start + step, max_chars, step);
        }
    }
}

} // verus!
