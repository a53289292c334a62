//! Verified string primitives the scanner is built on: literal substring
//! containment, string equality, and splitting text into lines.

use vstd::prelude::*;

verus! {

/// `pat` occurs in `hay` as a contiguous run starting at position `i`.
pub open spec fn matches_at(hay: Seq<char>, pat: Seq<char>, i: int) -> bool {
    &&& 0 <= i
    &&& i + pat.len() <= hay.len()
    &&& hay.subrange(i, i + pat.len() as int) == pat
}

/// `hay` contains `pat` as a contiguous substring (always true of an empty `pat`).
pub open spec fn contains_seq(hay: Seq<char>, pat: Seq<char>) -> bool {
    exists|i: int| matches_at(hay, pat, i)
}

/// `pat` occurs in `hay` exactly at position `i`.
fn match_at(hay: &str, pat: &str, i: usize, hay_len: usize, pat_len: usize) -> (r: bool)
    requires
        hay_len == hay@.len(),
        pat_len == pat@.len(),
        i + pat_len <= hay_len,
    ensures
        r == matches_at(hay@, pat@, i as int),
{
    let mut j: usize = 0;
    while j < pat_len
        invariant
            hay_len == hay@.len(),
            pat_len == pat@.len(),
            i + pat_len <= hay_len,
            j <= pat_len,
            forall|k: int| 0 <= k < j ==> hay@[i + k] == pat@[k],
        decreases pat_len - j,
    {
        if hay.get_char(i + j) != pat.get_char(j) {
            assert(!matches_at(hay@, pat@, i as int)) by {
                if hay@.subrange(i as int, i + pat@.len() as int) == pat@ {
                    assert(hay@.subrange(i as int, i + pat@.len() as int)[j as int]
                        == hay@[i + j]);
                }
            }
            return false;
        }
        j += 1;
    }
    assert(hay@.subrange(i as int, i + pat@.len() as int) =~= pat@);
    true
}

/// Literal substring test: the case-sensitive match rule of the scanner.
pub fn contains_sub(hay: &str, pat: &str) -> (r: bool)
    ensures
        r == contains_seq(hay@, pat@),
{
    let hay_len = hay.unicode_len();
    let pat_len = pat.unicode_len();
    if pat_len > hay_len {
        assert(forall|i: int| !matches_at(hay@, pat@, i));
        return false;
    }
    if pat_len == 0 {
        assert(matches_at(hay@, pat@, 0)) by {
            assert(hay@.subrange(0, 0) =~= pat@);
        }
        return true;
    }
    let mut i: usize = 0;
    while i <= hay_len - pat_len
        invariant
            hay_len == hay@.len(),
            pat_len == pat@.len(),
            0 < pat_len <= hay_len,
            i <= hay_len - pat_len + 1,
            forall|k: int| 0 <= k < i ==> !matches_at(hay@, pat@, k),
        decreases hay_len - i,
    {
        if match_at(hay, pat, i, hay_len, pat_len) {
            return true;
        }
        i += 1;
    }
    assert(forall|k: int| k > hay_len - pat_len ==> !matches_at(hay@, pat@, k));
    false
}

/// A line with a trailing carriage return dropped, as line-oriented reading
/// strips a carriage-return-and-newline pair.
pub open spec fn strip_cr(l: Seq<char>) -> Seq<char> {
    if l.len() > 0 && l.last() == '\r' {
        l.drop_last()
    } else {
        l
    }
}

/// The lines of the text from position `i` on, `cur` being the part of the
/// current line already passed: a newline ends the current line (a carriage
/// return just before it is dropped), and a non-empty final fragment counts
/// as a last line, its characters kept as they stand.
pub open spec fn lines_from(s: Seq<char>, i: int, cur: Seq<char>) -> Seq<Seq<char>>
    decreases s.len() - i,
{
    if i >= s.len() {
        if cur.len() == 0 {
            Seq::empty()
        } else {
            seq![cur]
        }
    } else if s[i] == '\n' {
        seq![strip_cr(cur)] + lines_from(s, i + 1, Seq::empty())
    } else {
        lines_from(s, i + 1, cur.push(s[i]))
    }
}

/// The lines of a whole text, as line-oriented reading of it yields them.
pub open spec fn lines_of(s: Seq<char>) -> Seq<Seq<char>> {
    lines_from(s, 0, Seq::empty())
}

/// The views of a sequence of strings.
pub open spec fn string_views(s: Seq<String>) -> Seq<Seq<char>> {
    s.map_values(|l: String| l@)
}

/// Relies on std's `String: FromIterator<char>` through `Iterator::collect`:
/// the string holding exactly the vector's characters in order.
#[verifier::external_body]
fn string_from_chars(v: &Vec<char>) -> (s: String)
    ensures
        s@ == v@,
{
    v.iter().collect()
}

/// Splits a decoded text into its lines, as line-oriented reading would
/// deliver them.
pub fn split_lines(text: &str) -> (lines: Vec<String>)
    ensures
        string_views(lines@) == lines_of(text@),
{
    let n = text.unicode_len();
    let mut lines: Vec<String> = Vec::new();
    let mut cur: Vec<char> = Vec::new();
    let mut i: usize = 0;
    assert(string_views(lines@) =~= Seq::empty());
    while i < n
        invariant
            i <= n,
            n == text@.len(),
            lines_of(text@) == string_views(lines@) + lines_from(text@, i as int, cur@),
        decreases n - i,
    {
        let c = text.get_char(i);
        if c == '\n' {
            let ghost cur_spec = cur@;
            let mut finished = cur;
            if finished.len() > 0 && finished[finished.len() - 1] == '\r' {
                finished.pop();
                assert(finished@ =~= strip_cr(cur_spec));
            }
            assert(finished@ == strip_cr(cur_spec));
            let ghost pre = lines@;
            let line = string_from_chars(&finished);
            lines.push(line);
            cur = Vec::new();
            assert(string_views(lines@) =~= string_views(pre).push(strip_cr(cur_spec)));
            assert(string_views(lines@) + lines_from(text@, i + 1, cur@) =~= string_views(pre)
                + lines_from(text@, i as int, cur_spec));
        } else {
            cur.push(c);
        }
        i += 1;
    }
    if cur.len() > 0 {
        let ghost pre = lines@;
        let line = string_from_chars(&cur);
        lines.push(line);
        assert(string_views(lines@) =~= string_views(pre).push(cur@));
        assert(string_views(lines@) =~= lines_of(text@));
    } else {
        assert(string_views(lines@) + lines_from(text@, n as int, cur@) =~= string_views(lines@));
    }
    lines
}

/// The two strings hold the same characters.
pub fn str_eq(a: &str, b: &str) -> (r: bool)
    ensures
        r == (a@ == b@),
{
    let a_len = a.unicode_len();
    let b_len = b.unicode_len();
    if a_len != b_len {
        return false;
    }
    let mut i: usize = 0;
    while i < a_len
        invariant
            a_len == a@.len(),
            b_len == b@.len(),
            a_len == b_len,
            i <= a_len,
            forall|k: int| 0 <= k < i ==> a@[k] == b@[k],
        decreases a_len - i,
    {
        if a.get_char(i) != b.get_char(i) {
            return false;
        }
        i += 1;
    }
    assert(a@ =~= b@);
    true
}

} // verus!
