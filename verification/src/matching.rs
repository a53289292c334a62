//! The line matcher: decides, line by line, whether a file's line is reported
//! for a target, applying the case policy and the escape-marker suppression,
//! and collects the occurrences of one (file, target) pair in line order.

use vstd::prelude::*;
use crate::text::{contains_seq, contains_sub, string_views};

verus! {

/// The case-folded form of a character sequence, as the regex engine's
/// case-insensitive literal matching compares it. Unknown here by design:
/// contracts relate results through this name rather than restate Unicode
/// case folding.
pub uninterp spec fn fold_of(s: Seq<char>) -> Seq<char>;

/// Relies on `regex::escape` (the returned string is the input as a literal
/// pattern, every meta character escaped), `regex::RegexBuilder` (building a
/// case-insensitive matcher for that literal, folding only case; with the
/// size limit lifted, an escaped literal is valid syntax and building cannot
/// fail), and `regex::Regex::is_match` (true exactly when the haystack holds
/// a match), which together test containment between the case-folded forms.
#[verifier::external_body]
fn ci_is_match(line: &str, target: &str) -> (r: bool)
    ensures
        r == contains_seq(fold_of(line@), fold_of(target@)),
{
    let re = regex::RegexBuilder::new(&regex::escape(target))
        .case_insensitive(true)
        .size_limit(usize::MAX)
        .build()
        .unwrap();
    re.is_match(line)
}

/// A line is reported for `target` when it does not carry the escape marker
/// and contains the target under the active case rule: literally when
/// `case_sensitive`, else up to case folding.
pub open spec fn line_is_reported(
    line: Seq<char>,
    target: Seq<char>,
    case_sensitive: bool,
    escape: Seq<char>,
) -> bool {
    &&& !contains_seq(line, escape)
    &&& if case_sensitive {
        contains_seq(line, target)
    } else {
        contains_seq(fold_of(line), fold_of(target))
    }
}

/// The per-line decision of the matcher.
pub fn line_matches(line: &str, target: &str, case_sensitive: bool, escape: &str) -> (r: bool)
    ensures
        r == line_is_reported(line@, target@, case_sensitive, escape@),
{
    if contains_sub(line, escape) {
        false
    } else if case_sensitive {
        contains_sub(line, target)
    } else {
        ci_is_match(line, target)
    }
}

/// One matched line: which file, which (1-based) line, which target matched,
/// and the full original line.
pub struct Occurrence {
    pub file_path: String,
    pub line_number: usize,
    pub target: String,
    pub line_text: String,
}

/// The mathematical shadow of an `Occurrence`.
pub struct OccurrenceModel {
    pub file_path: Seq<char>,
    pub line_number: nat,
    pub target: Seq<char>,
    pub line_text: Seq<char>,
}

impl View for Occurrence {
    type V = OccurrenceModel;

    open spec fn view(&self) -> OccurrenceModel {
        OccurrenceModel {
            file_path: self.file_path@,
            line_number: self.line_number as nat,
            target: self.target@,
            line_text: self.line_text@,
        }
    }
}

/// The views of a sequence of occurrences.
pub open spec fn occ_views(s: Seq<Occurrence>) -> Seq<OccurrenceModel> {
    s.map_values(|o: Occurrence| o@)
}

/// The occurrences among the first `n` lines, in line order; line `k`
/// (0-based) is reported as line number `k + 1`.
pub open spec fn occurrences_upto(
    path: Seq<char>,
    lines: Seq<Seq<char>>,
    target: Seq<char>,
    case_sensitive: bool,
    escape: Seq<char>,
    n: int,
) -> Seq<OccurrenceModel>
    decreases n,
{
    if n <= 0 {
        Seq::empty()
    } else {
        let prior = occurrences_upto(path, lines, target, case_sensitive, escape, n - 1);
        if line_is_reported(lines[n - 1], target, case_sensitive, escape) {
            prior.push(
                OccurrenceModel {
                    file_path: path,
                    line_number: n as nat,
                    target: target,
                    line_text: lines[n - 1],
                },
            )
        } else {
            prior
        }
    }
}

/// All occurrences of one (file, target) pair, in line order.
pub open spec fn file_occurrences(
    path: Seq<char>,
    lines: Seq<Seq<char>>,
    target: Seq<char>,
    case_sensitive: bool,
    escape: Seq<char>,
) -> Seq<OccurrenceModel> {
    occurrences_upto(path, lines, target, case_sensitive, escape, lines.len() as int)
}

/// What every collected occurrence of one (file, target) pair satisfies: it
/// names that file and that target, its line number points into the file,
/// its text is that very line, and that line is reported under the policy.
pub open spec fn occurrence_wf(
    o: OccurrenceModel,
    path: Seq<char>,
    lines: Seq<Seq<char>>,
    target: Seq<char>,
    case_sensitive: bool,
    escape: Seq<char>,
) -> bool {
    &&& o.file_path == path
    &&& o.target == target
    &&& 1 <= o.line_number <= lines.len()
    &&& o.line_text == lines[o.line_number - 1]
    &&& line_is_reported(o.line_text, target, case_sensitive, escape)
}

proof fn lemma_occurrences_upto_wf(
    path: Seq<char>,
    lines: Seq<Seq<char>>,
    target: Seq<char>,
    case_sensitive: bool,
    escape: Seq<char>,
    n: int,
)
    requires
        n <= lines.len(),
    ensures
        forall|k: int|
            0 <= k < occurrences_upto(path, lines, target, case_sensitive, escape, n).len()
                ==> occurrence_wf(
                #[trigger] occurrences_upto(path, lines, target, case_sensitive, escape, n)[k],
                path,
                lines,
                target,
                case_sensitive,
                escape,
            ),
    decreases n,
{
    if n > 0 {
        lemma_occurrences_upto_wf(path, lines, target, case_sensitive, escape, n - 1);
        let prior = occurrences_upto(path, lines, target, case_sensitive, escape, n - 1);
        let cur = occurrences_upto(path, lines, target, case_sensitive, escape, n);
        assert forall|k: int| 0 <= k < cur.len() implies occurrence_wf(
            cur[k],
            path,
            lines,
            target,
            case_sensitive,
            escape,
        ) by {
            if k < prior.len() {
                assert(occurrence_wf(prior[k], path, lines, target, case_sensitive, escape));
                assert(cur[k] == prior[k]);
            }
        }
    }
}

/// Law: every occurrence of a (file, target) scan is well formed — it records
/// one of the file's lines under its true 1-based line number, and that line
/// is reported for the target under the active policy.
pub proof fn lemma_occurrence_invariant(
    path: Seq<char>,
    lines: Seq<Seq<char>>,
    target: Seq<char>,
    case_sensitive: bool,
    escape: Seq<char>,
)
    ensures
        forall|k: int|
            0 <= k < file_occurrences(path, lines, target, case_sensitive, escape).len()
                ==> occurrence_wf(
                #[trigger] file_occurrences(path, lines, target, case_sensitive, escape)[k],
                path,
                lines,
                target,
                case_sensitive,
                escape,
            ),
{
    lemma_occurrences_upto_wf(path, lines, target, case_sensitive, escape, lines.len() as int);
}

/// Law: a line that carries the escape marker is never reported — no
/// occurrence holds such a line as its text, and no occurrence points at the
/// line number of such a line, whatever the case mode.
pub proof fn lemma_escape_suppression(
    path: Seq<char>,
    lines: Seq<Seq<char>>,
    target: Seq<char>,
    case_sensitive: bool,
    escape: Seq<char>,
)
    ensures
        forall|k: int|
            0 <= k < file_occurrences(path, lines, target, case_sensitive, escape).len()
                ==> !contains_seq(
                (#[trigger] file_occurrences(path, lines, target, case_sensitive, escape)[k]).line_text,
                escape,
            ),
        forall|j: int, k: int|
            0 <= j < lines.len() && contains_seq(#[trigger] lines[j], escape) && 0 <= k
                < file_occurrences(path, lines, target, case_sensitive, escape).len()
                ==> (#[trigger] file_occurrences(path, lines, target, case_sensitive, escape)[k]).line_number
                != j + 1,
{
    lemma_occurrence_invariant(path, lines, target, case_sensitive, escape);
}

/// The number of lines among `lines` that are reported for `target`.
pub open spec fn reported_line_count(
    lines: Seq<Seq<char>>,
    target: Seq<char>,
    case_sensitive: bool,
    escape: Seq<char>,
) -> nat {
    lines.filter(|l: Seq<char>| line_is_reported(l, target, case_sensitive, escape)).len()
}

proof fn lemma_occurrence_count_upto(
    path: Seq<char>,
    lines: Seq<Seq<char>>,
    target: Seq<char>,
    case_sensitive: bool,
    escape: Seq<char>,
    n: int,
)
    requires
        0 <= n <= lines.len(),
    ensures
        occurrences_upto(path, lines, target, case_sensitive, escape, n).len() == lines.take(
            n,
        ).filter(|l: Seq<char>| line_is_reported(l, target, case_sensitive, escape)).len(),
    decreases n,
{
    let pred = |l: Seq<char>| line_is_reported(l, target, case_sensitive, escape);
    if n == 0 {
        assert(lines.take(0) =~= Seq::<Seq<char>>::empty());
        assert(lines.take(0).filter(pred).len() == 0);
    } else {
        lemma_occurrence_count_upto(path, lines, target, case_sensitive, escape, n - 1);
        lines.take(n - 1).lemma_filter_push(lines[n - 1], pred);
        assert(lines.take(n) =~= lines.take(n - 1).push(lines[n - 1]));
    }
}

/// Law: the occurrence count reported for a (file, target) pair equals the
/// number of the file's lines that contain the target under the active case
/// rule and do not contain the escape marker.
pub proof fn lemma_occurrence_count(
    path: Seq<char>,
    lines: Seq<Seq<char>>,
    target: Seq<char>,
    case_sensitive: bool,
    escape: Seq<char>,
)
    ensures
        file_occurrences(path, lines, target, case_sensitive, escape).len()
            == reported_line_count(lines, target, case_sensitive, escape),
{
    lemma_occurrence_count_upto(
        path,
        lines,
        target,
        case_sensitive,
        escape,
        lines.len() as int,
    );
    assert(lines.take(lines.len() as int) =~= lines);
}

/// Scans one file's decoded lines for one target, appending each matching
/// line's occurrence to `results` in line order; reports whether any line
/// matched.
pub fn scan_file_lines(
    path: &str,
    lines: &Vec<String>,
    target: &str,
    case_sensitive: bool,
    escape: &str,
    results: &mut Vec<Occurrence>,
) -> (found: bool)
    ensures
        occ_views(final(results)@) == occ_views(old(results)@) + file_occurrences(
            path@,
            string_views(lines@),
            target@,
            case_sensitive,
            escape@,
        ),
        found == (file_occurrences(path@, string_views(lines@), target@, case_sensitive, escape@).len() > 0),
{
    let ghost lvs = string_views(lines@);
    let ghost base = occ_views(results@);
    let mut found = false;
    let mut i: usize = 0;
    assert(occ_views(results@) =~= base + occurrences_upto(path@, lvs, target@, case_sensitive, escape@, 0));
    while i < lines.len()
        invariant
            i <= lines@.len(),
            lvs == string_views(lines@),
            base == occ_views(old(results)@),
            occ_views(results@) == base + occurrences_upto(
                path@,
                lvs,
                target@,
                case_sensitive,
                escape@,
                i as int,
            ),
            found == (occurrences_upto(path@, lvs, target@, case_sensitive, escape@, i as int).len() > 0),
        decreases lines@.len() - i,
    {
        assert(lvs[i as int] == lines@[i as int]@);
        if line_matches(lines[i].as_str(), target, case_sensitive, escape) {
            let occurrence = Occurrence {
                file_path: path.to_owned(),
                line_number: i + 1,
                target: target.to_owned(),
                line_text: lines[i].clone(),
            };
            let ghost om = occurrence@;
            let ghost pre = results@;
            results.push(occurrence);
            found = true;
            proof {
                let m = OccurrenceModel {
                    file_path: path@,
                    line_number: (i + 1) as nat,
                    target: target@,
                    line_text: lvs[i as int],
                };
                assert(om == m);
                assert(line_is_reported(lvs[i as int], target@, case_sensitive, escape@));
                assert(occurrences_upto(path@, lvs, target@, case_sensitive, escape@, i + 1)
                    == occurrences_upto(path@, lvs, target@, case_sensitive, escape@, i as int).push(m));
                assert(occ_views(results@) =~= occ_views(pre).push(om));
                assert(occ_views(results@) =~= base + occurrences_upto(
                    path@, lvs, target@, case_sensitive, escape@, i + 1,
                ));
            }
        } else {
            assert(occ_views(results@) =~= base + occurrences_upto(
                path@, lvs, target@, case_sensitive, escape@, i + 1,
            ));
        }
        i += 1;
    }
    found
}

} // verus!
