//! The reporter: renders every occurrence as one aligned text line — the
//! `path:line` label left-padded to a common width, an arrow, then the line
//! with each case-insensitive match of the target wrapped in the two highlight
//! markers — and derives the process exit status.

use vstd::prelude::*;
use crate::matching::{fold_of, occ_views, Occurrence, OccurrenceModel};
use crate::text::{contains_seq, string_views};

verus! {

/// The marker emitted just before a highlighted match (bold on).
pub open spec fn bold_start() -> Seq<char> {
    "\x1b[1m"@
}

/// The marker emitted just after a highlighted match (bold off).
pub open spec fn bold_end() -> Seq<char> {
    "\x1b[0m"@
}

/// A string wrapped in the two highlight markers.
pub fn wrap_bold(s: &str) -> (r: String)
    ensures
        r@ == bold_start() + s@ + bold_end(),
{
    let mut r = ("\x1b[1m").to_owned();
    r.append(s);
    r.append("\x1b[0m");
    assert(r@ =~= bold_start() + s@ + bold_end());
    r
}

/// The line with every case-insensitive literal match of the target wrapped
/// in the highlight markers, exactly as the regex engine rewrites it. Unknown
/// here by design; a line without such a match stays unchanged.
pub uninterp spec fn highlight_of(line: Seq<char>, target: Seq<char>) -> Seq<char>;

/// Relies on `regex::Regex::replace_all` over the same case-insensitive
/// escaped-literal matcher the line matcher builds (valid literal syntax and a
/// lifted size limit, so building cannot fail): each non-overlapping match is
/// replaced by the replacer's output for it — here the matched text wrapped in
/// the highlight markers by a verified function — and a haystack without a
/// match comes back unchanged. The result depends on the two strings alone.
#[verifier::external_body]
fn highlight_matches(line: &str, target: &str) -> (r: String)
    ensures
        r@ == highlight_of(line@, target@),
        !contains_seq(fold_of(line@), fold_of(target@)) ==> r@ == line@,
{
    let re = regex::RegexBuilder::new(&regex::escape(target))
        .case_insensitive(true)
        .size_limit(usize::MAX)
        .build()
        .unwrap();
    re.replace_all(line, |caps: &regex::Captures| wrap_bold(&caps[0])).to_string()
}

/// The character of one decimal digit.
pub open spec fn digit_char(d: nat) -> char {
    if d == 0 {
        '0'
    } else if d == 1 {
        '1'
    } else if d == 2 {
        '2'
    } else if d == 3 {
        '3'
    } else if d == 4 {
        '4'
    } else if d == 5 {
        '5'
    } else if d == 6 {
        '6'
    } else if d == 7 {
        '7'
    } else if d == 8 {
        '8'
    } else {
        '9'
    }
}

/// The decimal numeral of `n`, most significant digit first, no leading zero
/// except for `n == 0` itself.
pub open spec fn dec_digits(n: nat) -> Seq<char>
    decreases n,
{
    if n < 10 {
        seq![digit_char(n)]
    } else {
        dec_digits(n / 10) + seq![digit_char(n % 10)]
    }
}

fn digit_str(d: usize) -> (r: &'static str)
    requires
        d < 10,
    ensures
        r@ == seq![digit_char(d as nat)],
{
    proof {
        reveal_strlit("0");
        reveal_strlit("1");
        reveal_strlit("2");
        reveal_strlit("3");
        reveal_strlit("4");
        reveal_strlit("5");
        reveal_strlit("6");
        reveal_strlit("7");
        reveal_strlit("8");
        reveal_strlit("9");
    }
    let r = if d == 0 {
        "0"
    } else if d == 1 {
        "1"
    } else if d == 2 {
        "2"
    } else if d == 3 {
        "3"
    } else if d == 4 {
        "4"
    } else if d == 5 {
        "5"
    } else if d == 6 {
        "6"
    } else if d == 7 {
        "7"
    } else if d == 8 {
        "8"
    } else {
        "9"
    };
    assert(r@ =~= seq![digit_char(d as nat)]);
    r
}

/// Renders `n` as its decimal numeral.
pub fn usize_to_string(n: usize) -> (r: String)
    ensures
        r@ == dec_digits(n as nat),
    decreases n,
{
    if n < 10 {
        digit_str(n).to_owned()
    } else {
        let mut r = usize_to_string(n / 10);
        r.append(digit_str(n % 10));
        assert(r@ =~= dec_digits(n as nat));
        r
    }
}

/// The `path:line` label of an occurrence.
pub open spec fn occ_label(o: OccurrenceModel) -> Seq<char> {
    o.file_path + seq![':'] + dec_digits(o.line_number)
}

/// Builds the `path:line` label of an occurrence.
pub fn format_label(o: &Occurrence) -> (r: String)
    ensures
        r@ == occ_label(o@),
{
    proof {
        reveal_strlit(":");
    }
    let mut r = o.file_path.clone();
    r.append(":");
    let number = usize_to_string(o.line_number);
    r.append(number.as_str());
    assert(r@ =~= occ_label(o@));
    r
}

/// The padding width of a report: one more than the widest path-plus-numeral
/// pair — which is exactly the widest `path:line` label — or zero when there
/// is nothing to report.
pub open spec fn report_width_upto(occs: Seq<OccurrenceModel>, n: int) -> nat
    decreases n,
{
    if n <= 0 {
        0
    } else {
        let prior = report_width_upto(occs, n - 1);
        let here = occ_label(occs[n - 1]).len();
        if here >= prior {
            here
        } else {
            prior
        }
    }
}

/// The padding width over a whole report.
pub open spec fn report_width(occs: Seq<OccurrenceModel>) -> nat {
    report_width_upto(occs, occs.len() as int)
}

/// Computes the padding width of a report.
pub fn compute_width(results: &Vec<Occurrence>) -> (w: usize)
    ensures
        w == report_width(occ_views(results@)),
{
    let ghost ovs = occ_views(results@);
    let mut w: usize = 0;
    let mut i: usize = 0;
    while i < results.len()
        invariant
            i <= results@.len(),
            ovs == occ_views(results@),
            w == report_width_upto(ovs, i as int),
        decreases results@.len() - i,
    {
        assert(ovs[i as int] == results@[i as int]@);
        let label = format_label(&results[i]);
        let len = label.as_str().unicode_len();
        if len > w {
            w = len;
        }
        i += 1;
    }
    w
}

/// A sequence of `n` spaces.
pub open spec fn spaces(n: nat) -> Seq<char>
    decreases n,
{
    if n == 0 {
        Seq::empty()
    } else {
        spaces((n - 1) as nat).push(' ')
    }
}

/// `s` left-justified in a field of `width`: untouched when already as wide,
/// else filled up with spaces on the right.
pub open spec fn padded(s: Seq<char>, width: nat) -> Seq<char> {
    if s.len() >= width {
        s
    } else {
        s + spaces((width - s.len()) as nat)
    }
}

/// Pads `s` on the right with spaces up to `width`.
fn pad_to(s: &mut String, width: usize)
    ensures
        final(s)@ == padded(old(s)@, width as nat),
{
    let mut len = s.as_str().unicode_len();
    let ghost start = len as nat;
    if len >= width {
        return ;
    }
    while len < width
        invariant
            start <= len <= width,
            len == s@.len(),
            s@ == old(s)@ + spaces((len - start) as nat),
        decreases width - len,
    {
        proof {
            reveal_strlit(" ");
        }
        assert(" "@ =~= seq![' ']);
        s.append(" ");
        assert(s@ =~= old(s)@ + spaces((len + 1 - start) as nat));
        len += 1;
    }
    assert(s@ =~= padded(old(s)@, width as nat));
}

/// One rendered report line: the padded label, the arrow, then the line text
/// with its matches highlighted.
pub open spec fn rendered_line(o: OccurrenceModel, width: nat) -> Seq<char> {
    padded(occ_label(o), width) + " -> "@ + highlight_of(o.line_text, o.target)
}

/// Renders one occurrence at the given padding width.
pub fn render_line(o: &Occurrence, width: usize) -> (r: String)
    ensures
        r@ == rendered_line(o@, width as nat),
{
    let mut r = format_label(o);
    pad_to(&mut r, width);
    r.append(" -> ");
    let highlighted = highlight_matches(o.line_text.as_str(), o.target.as_str());
    r.append(highlighted.as_str());
    assert(r@ =~= rendered_line(o@, width as nat));
    r
}

/// The whole report: every occurrence rendered in order, all at the width of
/// the widest label.
pub open spec fn report_lines(occs: Seq<OccurrenceModel>) -> Seq<Seq<char>> {
    occs.map_values(|o: OccurrenceModel| rendered_line(o, report_width(occs)))
}

/// Law: the rendered report is a function of the occurrence list alone, so a
/// rescan of unchanged files renders character-identical output.
pub proof fn lemma_report_deterministic(a: Seq<OccurrenceModel>, b: Seq<OccurrenceModel>)
    requires
        a == b,
    ensures
        report_lines(a) == report_lines(b),
{
}

/// Renders the whole report in occurrence order.
pub fn render_report(results: &Vec<Occurrence>) -> (lines: Vec<String>)
    ensures
        string_views(lines@) == report_lines(occ_views(results@)),
{
    let ghost ovs = occ_views(results@);
    let width = compute_width(results);
    let mut lines: Vec<String> = Vec::new();
    let mut i: usize = 0;
    while i < results.len()
        invariant
            i <= results@.len(),
            ovs == occ_views(results@),
            width == report_width(ovs),
            string_views(lines@) =~= report_lines(ovs).take(i as int),
        decreases results@.len() - i,
    {
        assert(ovs[i as int] == results@[i as int]@);
        let line = render_line(&results[i], width);
        let ghost lv = line@;
        let ghost pre = lines@;
        lines.push(line);
        assert(string_views(lines@) =~= string_views(pre).push(lv));
        assert(report_lines(ovs)[i as int] == rendered_line(ovs[i as int], report_width(ovs)));
        assert(report_lines(ovs).take(i + 1) =~= report_lines(ovs).take(i as int).push(
            report_lines(ovs)[i as int],
        ));
        assert(string_views(lines@) =~= report_lines(ovs).take(i + 1));
        i += 1;
    }
    assert(report_lines(ovs).take(results@.len() as int) =~= report_lines(ovs));
    lines
}

/// The process exit status: one when anything was found, zero when nothing.
pub fn exit_status(results: &Vec<Occurrence>) -> (code: i32)
    ensures
        code == 1 <==> results@.len() > 0,
        code == 0 <==> results@.len() == 0,
{
    if results.len() > 0 {
        1
    } else {
        0
    }
}

} // verus!
