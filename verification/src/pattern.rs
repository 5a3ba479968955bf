//! Searching texts for patterns. The search itself is the work of the
//! `regex` crate; this module states what the library relies on, and
//! searches texts line by line.

use crate::text::{chars_of, pieces_view, split, split_on, string_of};
use vstd::prelude::*;

verus! {

/// Declares `regex::Regex`, a compiled pattern.
#[verifier::external_type_specification]
#[verifier::external_body]
pub struct ExRegex(regex::Regex);

/// Declares `regex::Error`, the crate's account of a pattern that it does
/// not compile.
#[verifier::external_type_specification]
#[verifier::external_body]
pub struct ExRegexError(regex::Error);

/// The pattern that a compiled expression was compiled from.
pub uninterp spec fn regex_source(re: regex::Regex) -> Seq<char>;

/// Whether the `regex` crate compiles the pattern.
pub uninterp spec fn regex_compiles(pattern: Seq<char>) -> bool;

/// Where the leftmost match of the pattern in the text ends, counted in
/// characters from the start of the text; nothing where the pattern does
/// not match.
pub uninterp spec fn regex_match_end(pattern: Seq<char>, text: Seq<char>) -> Option<nat>;

/// What the group of the given number captures in the leftmost match of the
/// pattern in the text; nothing where the pattern does not match or the
/// group takes no part in the match.
pub uninterp spec fn regex_capture(pattern: Seq<char>, text: Seq<char>, group: nat) -> Option<
    Seq<char>,
>;

/// Compiles a pattern with `regex::Regex::new`. The compiled expression
/// remembers the pattern it was made from.
#[verifier::external_body]
pub(crate) fn regex_new(pattern: &str) -> (r: Result<regex::Regex, regex::Error>)
    ensures
        match r {
            Ok(re) => regex_compiles(pattern@) && regex_source(re) == pattern@,
            Err(_) => !regex_compiles(pattern@),
        },
{
    regex::Regex::new(pattern)
}

/// Calls `regex::Regex::find` and cuts the text where the match ends: the
/// text up to the end of the leftmost match, and the rest.
#[verifier::external_body]
pub(crate) fn regex_cut_after(re: &regex::Regex, text: &str) -> (r: Option<(String, String)>)
    ensures
        match r {
            Some((head, tail)) => regex_match_end(regex_source(*re), text@) == Some(head@.len())
                && head@ + tail@ == text@,
            None => regex_match_end(regex_source(*re), text@) is None,
        },
{
    re.find(text).map(|m| (text[..m.end()].to_string(), text[m.end()..].to_string()))
}

/// Calls `regex::Regex::captures` and `regex::Captures::get`: the text that
/// a group captured in the leftmost match.
#[verifier::external_body]
pub(crate) fn regex_group(re: &regex::Regex, text: &str, group: usize) -> (r: Option<String>)
    ensures
        match r {
            Some(s) => regex_capture(regex_source(*re), text@, group as nat) == Some(s@),
            None => regex_capture(regex_source(*re), text@, group as nat) is None,
        },
{
    re.captures(text).and_then(|c| c.get(group)).map(|m| m.as_str().to_string())
}

/// The lines of a text: what stands between its line feeds.
pub open spec fn lines_of(text: Seq<char>) -> Seq<Seq<char>> {
    split_on(text, "\n"@)
}

/// What the group captures in the first of the lines that the pattern
/// matches with the group taking part.
pub open spec fn first_capture(pattern: Seq<char>, lines: Seq<Seq<char>>, group: nat) -> Option<
    Seq<char>,
>
    decreases lines.len(),
{
    if lines.len() == 0 {
        None
    } else {
        match first_capture(pattern, lines.drop_last(), group) {
            Some(s) => Some(s),
            None => regex_capture(pattern, lines.last(), group),
        }
    }
}

/// What the group captures in the last of the lines that the pattern
/// matches with the group taking part.
pub open spec fn last_capture(pattern: Seq<char>, lines: Seq<Seq<char>>, group: nat) -> Option<
    Seq<char>,
>
    decreases lines.len(),
{
    if lines.len() == 0 {
        None
    } else {
        match regex_capture(pattern, lines.last(), group) {
            Some(s) => Some(s),
            None => last_capture(pattern, lines.drop_last(), group),
        }
    }
}

proof fn lemma_first_capture_stable(
    pattern: Seq<char>,
    lines: Seq<Seq<char>>,
    group: nat,
    n: int,
)
    requires
        0 <= n <= lines.len(),
        first_capture(pattern, lines.take(n), group) is Some,
    ensures
        first_capture(pattern, lines, group) == first_capture(pattern, lines.take(n), group),
    decreases lines.len() - n,
{
    if n < lines.len() {
        assert(lines.take(n + 1).drop_last() =~= lines.take(n));
        lemma_first_capture_stable(pattern, lines, group, n + 1);
    } else {
        assert(lines.take(n) =~= lines);
    }
}

/// Searches a text line by line and hands out what the group captures in
/// the first line (`first`) or in the last line (otherwise) in which it
/// captures anything. A pattern that does not compile captures nothing.
pub fn capture_in_lines(pattern: &str, text: &str, group: usize, first: bool) -> (r: Option<String>)
    ensures
        match r {
            Some(s) => regex_compiles(pattern@) && Some(s@) == if first {
                first_capture(pattern@, lines_of(text@), group as nat)
            } else {
                last_capture(pattern@, lines_of(text@), group as nat)
            },
            None => !regex_compiles(pattern@) || (if first {
                first_capture(pattern@, lines_of(text@), group as nat)
            } else {
                last_capture(pattern@, lines_of(text@), group as nat)
            }) is None,
        },
{
    let re = match regex_new(pattern) {
        Ok(re) => re,
        Err(_) => {
            return None;
        },
    };
    let lines = split(&chars_of(text), &chars_of("\n"));
    let ghost all = lines_of(text@);
    if first {
        let mut i: usize = 0;
        assert(all.take(0) =~= Seq::<Seq<char>>::empty());
        while i < lines.len()
            invariant
                i <= lines.len(),
                all == pieces_view(lines@),
                all == lines_of(text@),
                first,
                regex_compiles(pattern@),
                regex_source(re) == pattern@,
                first_capture(pattern@, all.take(i as int), group as nat) is None,
            decreases lines.len() - i,
        {
            proof {
                assert(all.take(i + 1).drop_last() =~= all.take(i as int));
                assert(all.take(i + 1).last() == lines@[i as int]@);
            }
            let line = string_of(&lines[i]);
            match regex_group(&re, line.as_str(), group) {
                Some(s) => {
                    proof {
                        lemma_first_capture_stable(pattern@, all, group as nat, i as int + 1);
                    }
                    return Some(s);
                },
                None => {},
            }
            i += 1;
        }
        assert(all.take(lines.len() as int) =~= all);
        None
    } else {
        let mut i: usize = lines.len();
        assert(all.take(i as int) =~= all);
        while i > 0
            invariant
                i <= lines.len(),
                all == pieces_view(lines@),
                all == lines_of(text@),
                !first,
                regex_compiles(pattern@),
                regex_source(re) == pattern@,
                last_capture(pattern@, all, group as nat) == last_capture(
                    pattern@,
                    all.take(i as int),
                    group as nat,
                ),
            decreases i,
        {
            proof {
                assert(all.take(i as int).drop_last() =~= all.take(i - 1));
                assert(all.take(i as int).last() == lines@[i - 1]@);
            }
            let line = string_of(&lines[i - 1]);
            match regex_group(&re, line.as_str(), group) {
                Some(s) => {
                    return Some(s);
                },
                None => {},
            }
            i -= 1;
        }
        None
    }
}

} // verus!
