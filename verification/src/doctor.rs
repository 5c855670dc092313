//! The environment doctor's report: the checks it ran, each with a level,
//! a summary and details, and the text that sums them up.
use vstd::prelude::*;

use crate::desktop::{find_ws_from, first_ws, lemma_first_ws_found, ws_parts};
use crate::document_text::slice_chars;
use crate::inspection::{join, joined_by};
use crate::json::JsonValue;
use crate::text::{lower_char, lower_char_exec, chars_of, decimal, decimal_string, owned, push_str, string_of, string_views, trim, trim_vec};

verus! {

/// How a check came out.
#[derive(Clone, Copy, Debug, PartialEq, Eq, Structural)]
pub enum DiagnosticLevel {
    Pass,
    Warn,
    Fail,
}

/// The label of a level.
pub open spec fn label_spec(level: DiagnosticLevel) -> Seq<char> {
    match level {
        DiagnosticLevel::Pass => "ok"@,
        DiagnosticLevel::Warn => "warn"@,
        DiagnosticLevel::Fail => "fail"@,
    }
}

impl DiagnosticLevel {
    /// The label of the level: `ok`, `warn` or `fail`.
    pub fn label(self) -> (r: &'static str)
        ensures
            r@ == label_spec(self),
    {
        match self {
            DiagnosticLevel::Pass => "ok",
            DiagnosticLevel::Warn => "warn",
            DiagnosticLevel::Fail => "fail",
        }
    }

    /// Whether the level is a failure.
    pub fn is_failure(self) -> (r: bool)
        ensures
            r == (self == DiagnosticLevel::Fail),
    {
        match self {
            DiagnosticLevel::Fail => true,
            _ => false,
        }
    }
}

/// One check of the doctor: its name, level, summary, details, data and,
/// for a warning or failure, a hint on what to do.
pub struct DiagnosticCheck {
    pub name: String,
    pub level: DiagnosticLevel,
    pub summary: String,
    pub details: Vec<String>,
    pub data: Vec<(String, JsonValue)>,
    pub hint: Option<String>,
}

impl DiagnosticCheck {
    /// A check with no details, data or hint.
    pub fn new(name: &str, level: DiagnosticLevel, summary: String) -> (r: Self)
        ensures
            r.name@ == name@,
            r.level == level,
            r.summary == summary,
            r.details@.len() == 0,
            r.data@.len() == 0,
            r.hint is None,
    {
        DiagnosticCheck {
            name: owned(name),
            level,
            summary,
            details: Vec::new(),
            data: Vec::new(),
            hint: None,
        }
    }

    /// The check with these details.
    pub fn with_details(self, details: Vec<String>) -> (r: Self)
        ensures
            r == (DiagnosticCheck { details, ..self }),
    {
        DiagnosticCheck { details, ..self }
    }

    /// The check with this data.
    pub fn with_data(self, data: Vec<(String, JsonValue)>) -> (r: Self)
        ensures
            r == (DiagnosticCheck { data, ..self }),
    {
        DiagnosticCheck { data, ..self }
    }

    /// The check with this hint; an empty hint leaves the check as it was.
    pub fn with_hint(self, hint: String) -> (r: Self)
        ensures
            r == (if hint@.len() > 0 {
                DiagnosticCheck { hint: Some(hint), ..self }
            } else {
                self
            }),
    {
        if !hint.as_str().is_empty() {
            DiagnosticCheck { hint: Some(hint), ..self }
        } else {
            self
        }
    }
}

/// The identifier of a check's name: ASCII lower-cased, with spaces and
/// hyphens turned into underscores.
pub open spec fn check_id_spec(name: Seq<char>) -> Seq<char> {
    Seq::new(
        name.len(),
        |i: int|
            if lower_char(name[i]) == ' ' || lower_char(name[i]) == '-' {
                '_'
            } else {
                lower_char(name[i])
            },
    )
}

/// The identifier of a check's name.
pub fn check_id(name: &str) -> (r: String)
    ensures
        r@ == check_id_spec(name@),
{
    let v = chars_of(name);
    let mut out: Vec<char> = Vec::new();
    let mut i: usize = 0;
    while i < v.len()
        invariant
            i <= v.len(),
            v@ == name@,
            out@ =~= check_id_spec(name@).take(i as int),
        decreases v.len() - i,
    {
        let c = lower_char_exec(v[i]);
        if c == ' ' || c == '-' {
            out.push('_');
        } else {
            out.push(c);
        }
        i = i + 1;
    }
    assert(check_id_spec(name@).take(v.len() as int) =~= check_id_spec(name@));
    string_of(&out)
}

// ---------------------------------------------------------------------------
// Details
// ---------------------------------------------------------------------------

/// Two spaces start at `k`.
pub open spec fn double_space_at(s: Seq<char>, k: int) -> bool {
    0 <= k && k + 1 < s.len() && s[k] == ' ' && s[k + 1] == ' '
}

/// Where the first two consecutive spaces start.
pub open spec fn first_double_space(s: Seq<char>) -> Option<int>
    decreases s.len(),
{
    if s.len() < 2 {
        None
    } else if s[0] == ' ' && s[1] == ' ' {
        Some(0)
    } else {
        match first_double_space(s.drop_first()) {
            Some(i) => Some(i + 1),
            None => None,
        }
    }
}

proof fn lemma_first_double_space(s: Seq<char>, j: int)
    requires
        0 <= j,
        j + 1 <= s.len(),
        forall|k: int| 0 <= k < j ==> !#[trigger] double_space_at(s, k),
        j + 1 < s.len() ==> double_space_at(s, j),
    ensures
        first_double_space(s) == (if j + 1 < s.len() {
            Some(j)
        } else {
            None::<int>
        }),
    decreases s.len(),
{
    if s.len() >= 2 && j > 0 {
        assert forall|k: int| 0 <= k < j - 1 implies !#[trigger] double_space_at(s.drop_first(), k) by {
            assert(s.drop_first()[k] == s[k + 1]);
            assert(s.drop_first()[k + 1] == s[k + 2]);
            assert(!double_space_at(s, k + 1));
        }
        assert(!double_space_at(s, 0));
        lemma_first_double_space(s.drop_first(), j - 1);
    }
}

/// The words of a text joined by single spaces (`split_whitespace` then
/// `join(" ")`).
pub open spec fn collapse_ws(s: Seq<char>) -> Seq<char> {
    joined_by(ws_parts(s), " "@)
}

/// A detail line as a key and a value: split at the first two consecutive
/// spaces, both sides trimmed and the value's words joined by single
/// spaces; when there are no two spaces or either side is blank, the
/// trimmed line with an empty value.
pub open spec fn detail_entry_spec(d: Seq<char>) -> (Seq<char>, Seq<char>) {
    match first_double_space(d) {
        Some(i) => {
            let k = trim(d.take(i));
            let v = trim(d.skip(i + 2));
            if k.len() > 0 && v.len() > 0 {
                (k, collapse_ws(v))
            } else {
                (trim(d), Seq::empty())
            }
        },
        None => (trim(d), Seq::empty()),
    }
}

fn find_double_space(v: &Vec<char>) -> (r: Option<usize>)
    ensures
        match r {
            Some(j) => j + 1 < v.len() && first_double_space(v@) == Some(j as int),
            None => first_double_space(v@) is None,
        },
{
    if v.len() < 2 {
        return None;
    }
    let mut i: usize = 0;
    while i + 1 < v.len()
        invariant
            v.len() >= 2,
            i + 1 <= v.len(),
            forall|k: int| 0 <= k < i ==> !#[trigger] double_space_at(v@, k),
        decreases v.len() - i,
    {
        if v[i] == ' ' && v[i + 1] == ' ' {
            proof {
                lemma_first_double_space(v@, i as int);
            }
            return Some(i);
        }
        i = i + 1;
    }
    proof {
        lemma_first_double_space(v@, i as int);
    }
    None
}

/// The whitespace-separated words of a text.
fn words(v: &Vec<char>) -> (r: Vec<String>)
    ensures
        string_views(r@) == ws_parts(v@),
{
    let mut out: Vec<String> = Vec::new();
    let mut pos: usize = 0;
    assert(v@.skip(0) =~= v@);
    while pos < v.len()
        invariant
            pos <= v.len(),
            ws_parts(v@) == string_views(out@) + ws_parts(v@.skip(pos as int)),
        decreases v.len() - pos,
    {
        let ghost rest = v@.skip(pos as int);
        let ghost before = string_views(out@);
        let end = match find_ws_from(v, pos) {
            Some(e) => e,
            None => v.len(),
        };
        let part = slice_chars(v, pos, end);
        assert(rest.take(end - pos) =~= part@);
        if end == v.len() {
            assert(part@ =~= rest);
            proof {
                lemma_first_ws_found(rest);
            }
            if part.len() > 0 {
                assert(ws_parts(rest) =~= seq![part@]);
                out.push(string_of(&part));
                assert(string_views(out@) =~= before + seq![part@]);
            } else {
                assert(ws_parts(rest) =~= Seq::<Seq<char>>::empty());
                assert(before + ws_parts(rest) =~= before);
            }
            assert(v@.skip(v.len() as int) =~= Seq::<char>::empty());
            assert(ws_parts(v@.skip(v.len() as int)) =~= Seq::<Seq<char>>::empty());
            assert(string_views(out@) + ws_parts(v@.skip(v.len() as int)) =~= string_views(out@));
            pos = v.len();
        } else {
            assert(rest.skip(end - pos + 1) =~= v@.skip(end + 1));
            let ghost head = if end > pos {
                seq![part@]
            } else {
                Seq::<Seq<char>>::empty()
            };
            assert(ws_parts(rest) == head + ws_parts(v@.skip(end + 1)));
            if end > pos {
                out.push(string_of(&part));
                assert(string_views(out@) =~= before + head);
            } else {
                assert(before + head =~= before);
            }
            assert(before + (head + ws_parts(v@.skip(end + 1))) =~= (before + head) + ws_parts(
                v@.skip(end + 1),
            ));
            pos = end + 1;
        }
    }
    assert(ws_parts(v@.skip(pos as int)) =~= Seq::<Seq<char>>::empty()) by {
        assert(v@.skip(pos as int) =~= Seq::<char>::empty());
    }
    assert(string_views(out@) + Seq::<Seq<char>>::empty() =~= string_views(out@));
    out
}

/// A detail line as a key and a value.
pub fn split_detail_entry(detail: &str) -> (r: (String, String))
    ensures
        (r.0@, r.1@) == detail_entry_spec(detail@),
{
    let v = chars_of(detail);
    match find_double_space(&v) {
        Some(i) => {
            let key = trim_vec(&slice_chars(&v, 0, i));
            let value = trim_vec(&slice_chars(&v, i + 2, v.len()));
            assert(v@.take(i as int) =~= v@.subrange(0, i as int));
            assert(v@.skip(i + 2) =~= v@.subrange(i + 2, v.len() as int));
            if key.len() > 0 && value.len() > 0 {
                let parts = words(&value);
                return (string_of(&key), join(&parts, " "));
            }
        },
        None => {},
    }
    (string_of(&trim_vec(&v)), String::new())
}

// ---------------------------------------------------------------------------
// The report
// ---------------------------------------------------------------------------

/// All checks the doctor ran.
pub struct DoctorReport {
    pub checks: Vec<DiagnosticCheck>,
}

/// The number of checks at a level.
pub open spec fn count_level(checks: Seq<DiagnosticCheck>, level: DiagnosticLevel) -> nat
    decreases checks.len(),
{
    if checks.len() == 0 {
        0
    } else {
        count_level(checks.drop_last(), level) + (if checks.last().level == level {
            1nat
        } else {
            0nat
        })
    }
}

proof fn lemma_count_level_bound(checks: Seq<DiagnosticCheck>, level: DiagnosticLevel)
    ensures
        count_level(checks, level) <= checks.len(),
    decreases checks.len(),
{
    if checks.len() > 0 {
        lemma_count_level_bound(checks.drop_last(), level);
    }
}

proof fn lemma_count_level_zero(checks: Seq<DiagnosticCheck>, level: DiagnosticLevel)
    ensures
        count_level(checks, level) == 0 <==> forall|i: int|
            0 <= i < checks.len() ==> (#[trigger] checks[i]).level != level,
    decreases checks.len(),
{
    if checks.len() > 0 {
        lemma_count_level_zero(checks.drop_last(), level);
        assert forall|i: int| 0 <= i < checks.len() - 1 implies checks.drop_last()[i] == checks[i] by {}
        if count_level(checks, level) == 0 {
            assert forall|i: int| 0 <= i < checks.len() implies (#[trigger] checks[i]).level != level by {
                if i < checks.len() - 1 {
                    assert(checks.drop_last()[i] == checks[i]);
                }
            }
        }
    }
}

/// The report's status: `fail` when a check failed, else `warn` when one
/// warned, else `ok`.
pub open spec fn status_spec(checks: Seq<DiagnosticCheck>) -> Seq<char> {
    if count_level(checks, DiagnosticLevel::Fail) > 0 {
        "fail"@
    } else if count_level(checks, DiagnosticLevel::Warn) > 0 {
        "warn"@
    } else {
        "ok"@
    }
}

/// The lines of a check's text: its name, status and summary, then its
/// details, if any, under a heading.
pub open spec fn check_lines(c: DiagnosticCheck) -> Seq<Seq<char>> {
    let head = c.name@ + "\n  Status           "@ + label_spec(c.level) + "\n  Summary          "@
        + c.summary@;
    if c.details@.len() == 0 {
        seq![head]
    } else {
        seq![head, "  Details"@] + Seq::new(
            c.details@.len(),
            |i: int| "    - "@ + c.details@[i]@,
        )
    }
}

/// The text of a check.
pub open spec fn check_text(c: DiagnosticCheck) -> Seq<char> {
    joined_by(check_lines(c), "\n"@)
}

/// The summary block of the report's text.
pub open spec fn summary_text(ok: nat, warn: nat, fail: nat) -> Seq<char> {
    "Summary\n  OK               "@ + decimal(ok) + "\n  Warnings         "@ + decimal(warn)
        + "\n  Failures         "@ + decimal(fail)
}

/// The report's text: a title, the summary, and each check's text, in
/// blocks separated by blank lines.
pub open spec fn report_text(checks: Seq<DiagnosticCheck>) -> Seq<char> {
    joined_by(
        seq![
            "Doctor"@,
            summary_text(
                count_level(checks, DiagnosticLevel::Pass),
                count_level(checks, DiagnosticLevel::Warn),
                count_level(checks, DiagnosticLevel::Fail),
            ),
        ] + Seq::new(checks.len(), |i: int| check_text(checks[i])),
        "\n\n"@,
    )
}

/// The text of a check.
pub fn render_diagnostic_check(check: &DiagnosticCheck) -> (r: String)
    ensures
        r@ == check_text(*check),
{
    let mut head = owned(check.name.as_str());
    push_str(&mut head, "\n  Status           ");
    push_str(&mut head, check.level.label());
    push_str(&mut head, "\n  Summary          ");
    push_str(&mut head, check.summary.as_str());
    let ghost h = head@;
    let mut lines: Vec<String> = Vec::new();
    lines.push(head);
    assert(string_views(lines@) =~= seq![h]);
    if check.details.len() > 0 {
        lines.push(owned("  Details"));
        let mut i: usize = 0;
        assert(string_views(lines@) =~= seq![h, "  Details"@] + Seq::new(
            0 as nat,
            |k: int| "    - "@ + check.details@[k]@,
        ));
        while i < check.details.len()
            invariant
                i <= check.details.len(),
                string_views(lines@) == seq![h, "  Details"@] + Seq::new(
                    i as nat,
                    |k: int| "    - "@ + check.details@[k]@,
                ),
            decreases check.details.len() - i,
        {
            let ghost before = string_views(lines@);
            let mut line = owned("    - ");
            push_str(&mut line, check.details[i].as_str());
            lines.push(line);
            assert(string_views(lines@) =~= before.push(line@));
            assert(string_views(lines@) =~= seq![h, "  Details"@] + Seq::new(
                (i + 1) as nat,
                |k: int| "    - "@ + check.details@[k]@,
            ));
            i = i + 1;
        }
    }
    assert(string_views(lines@) =~= check_lines(*check));
    join(&lines, "\n")
}

impl DoctorReport {
    /// The numbers of checks that passed, warned and failed.
    pub fn counts(&self) -> (r: (usize, usize, usize))
        ensures
            r.0 == count_level(self.checks@, DiagnosticLevel::Pass),
            r.1 == count_level(self.checks@, DiagnosticLevel::Warn),
            r.2 == count_level(self.checks@, DiagnosticLevel::Fail),
    {
        let mut ok: usize = 0;
        let mut warn: usize = 0;
        let mut fail: usize = 0;
        let mut i: usize = 0;
        while i < self.checks.len()
            invariant
                i <= self.checks.len(),
                ok == count_level(self.checks@.take(i as int), DiagnosticLevel::Pass),
                warn == count_level(self.checks@.take(i as int), DiagnosticLevel::Warn),
                fail == count_level(self.checks@.take(i as int), DiagnosticLevel::Fail),
            decreases self.checks.len() - i,
        {
            let ghost t = self.checks@.take(i + 1);
            assert(t.drop_last() =~= self.checks@.take(i as int));
            proof {
                lemma_count_level_bound(self.checks@.take(i as int), DiagnosticLevel::Pass);
                lemma_count_level_bound(self.checks@.take(i as int), DiagnosticLevel::Warn);
                lemma_count_level_bound(self.checks@.take(i as int), DiagnosticLevel::Fail);
            }
            match self.checks[i].level {
                DiagnosticLevel::Pass => ok = ok + 1,
                DiagnosticLevel::Warn => warn = warn + 1,
                DiagnosticLevel::Fail => fail = fail + 1,
            }
            i = i + 1;
        }
        assert(self.checks@.take(self.checks.len() as int) =~= self.checks@);
        (ok, warn, fail)
    }

    /// Whether some check failed.
    pub fn has_failures(&self) -> (r: bool)
        ensures
            r == exists|i: int|
                0 <= i < self.checks@.len() && (#[trigger] self.checks@[i]).level
                    == DiagnosticLevel::Fail,
    {
        let mut i: usize = 0;
        while i < self.checks.len()
            invariant
                i <= self.checks.len(),
                forall|k: int| 0 <= k < i ==> (#[trigger] self.checks@[k]).level != DiagnosticLevel::Fail,
            decreases self.checks.len() - i,
        {
            if self.checks[i].level.is_failure() {
                return true;
            }
            i = i + 1;
        }
        false
    }

    /// The report's status: `fail`, `warn` or `ok`.
    pub fn status(&self) -> (r: &'static str)
        ensures
            r@ == status_spec(self.checks@),
    {
        let (_, warn, fail) = self.counts();
        if fail > 0 {
            "fail"
        } else if warn > 0 {
            "warn"
        } else {
            "ok"
        }
    }

    /// The report's text.
    pub fn render(&self) -> (r: String)
        ensures
            r@ == report_text(self.checks@),
    {
        let (ok, warn, fail) = self.counts();
        let mut summary = owned("Summary\n  OK               ");
        push_str(&mut summary, decimal_string(ok as u64).as_str());
        push_str(&mut summary, "\n  Warnings         ");
        push_str(&mut summary, decimal_string(warn as u64).as_str());
        push_str(&mut summary, "\n  Failures         ");
        push_str(&mut summary, decimal_string(fail as u64).as_str());
        let mut blocks: Vec<String> = Vec::new();
        blocks.push(owned("Doctor"));
        blocks.push(summary);
        let ghost first = string_views(blocks@);
        let mut i: usize = 0;
        while i < self.checks.len()
            invariant
                i <= self.checks.len(),
                first.len() == 2,
                string_views(blocks@) == first + Seq::new(
                    i as nat,
                    |k: int| check_text(self.checks@[k]),
                ),
            decreases self.checks.len() - i,
        {
            let ghost before = string_views(blocks@);
            let text = render_diagnostic_check(&self.checks[i]);
            blocks.push(text);
            assert(string_views(blocks@) =~= before.push(check_text(self.checks@[i as int])));
            assert(string_views(blocks@) =~= first + Seq::new(
                (i + 1) as nat,
                |k: int| check_text(self.checks@[k]),
            ));
            i = i + 1;
        }
        assert(first =~= seq![
            "Doctor"@,
            summary_text(
                count_level(self.checks@, DiagnosticLevel::Pass),
                count_level(self.checks@, DiagnosticLevel::Warn),
                count_level(self.checks@, DiagnosticLevel::Fail),
            ),
        ]);
        join(&blocks, "\n\n")
    }
}

/// A report fails exactly when some check fails, and its status says so.
pub proof fn lemma_failures_mean_fail_status(checks: Seq<DiagnosticCheck>)
    ensures
        (exists|i: int| 0 <= i < checks.len() && (#[trigger] checks[i]).level == DiagnosticLevel::Fail)
            <==> status_spec(checks) == "fail"@,
{
    lemma_count_level_zero(checks, DiagnosticLevel::Fail);
    reveal_strlit("fail");
    reveal_strlit("warn");
    reveal_strlit("ok");
    assert("warn"@[0] != "fail"@[0]);
    assert("ok"@.len() != "fail"@.len());
}

} // verus!
