//! Markdown headings: the line-level transformation that turns a `#`
//! heading into its HTML tag. Reading the source file and collecting the
//! document is the caller's business.

use vstd::prelude::*;

use crate::num::digit_char;
use crate::text::{chars_vec, push_str, string_of};

verus! {

/// How many `#` characters open the line, capped at six.
pub open spec fn heading_level(s: Seq<char>) -> int
    decreases s.len(),
{
    if s.len() == 0 || s[0] != '#' {
        0
    } else {
        let rest = heading_level(s.drop_first());
        if rest >= 6 {
            6
        } else {
            rest + 1
        }
    }
}

/// The heading text: the line with its `#` prefix gone and one following
/// space, when there is one, gone too.
pub open spec fn heading_text(s: Seq<char>) -> Seq<char> {
    let rest = s.skip(heading_level(s));
    if rest.len() > 0 && rest[0] == ' ' {
        rest.drop_first()
    } else {
        rest
    }
}

/// The HTML tag for a heading line of level `n` holding `text`.
pub open spec fn heading_tag(n: int, text: Seq<char>) -> Seq<char> {
    seq!['<', 'h', digit_char(n), '>'] + text + seq!['<', '/', 'h', digit_char(n), '>']
}

/// Turns a Markdown heading line into its HTML tag; a line that does not
/// open with `#` is left alone.
pub fn heading(line: &str) -> (r: Option<String>)
    ensures
        match r {
            Some(h) => line@.len() > 0 && line@[0] == '#' && h@ == heading_tag(
                heading_level(line@),
                heading_text(line@),
            ),
            None => line@.len() == 0 || line@[0] != '#',
        },
{
    let chars = chars_vec(line);
    if chars.len() == 0 {
        return None;
    }
    if chars[0] != '#' {
        return None;
    }
    let mut level: usize = 0;
    while level < 6 && level < chars.len() && chars[level] == '#'
        invariant
            0 <= level <= 6,
            level <= chars@.len(),
            chars@ == line@,
            chars@.len() > 0 && chars@[0] == '#',
            forall|j: int| 0 <= j < level ==> chars@[j] == '#',
        decreases 6 - level,
    {
        level += 1;
    }
    proof {
        lemma_heading_level(chars@, level as int);
    }
    let mut start: usize = level;
    if start < chars.len() && chars[start] == ' ' {
        start += 1;
    }
    let mut out: Vec<char> = Vec::new();
    out.push('<');
    out.push('h');
    let d: u8 = 48 + (level as u8);
    out.push(d as char);
    out.push('>');
    let ghost open_part = seq!['<', 'h', digit_char(level as int), '>'];
    proof {
        assert(out@ =~= open_part);
    }
    let mut i: usize = start;
    while i < chars.len()
        invariant
            start <= i <= chars@.len(),
            chars@ == line@,
            out@ == open_part + chars@.skip(start as int).take(i - start),
        decreases chars@.len() - i,
    {
        out.push(chars[i]);
        proof {
            assert(chars@.skip(start as int).take(i + 1 - start) =~= chars@.skip(
                start as int,
            ).take(i - start).push(chars@[i as int]));
            assert(out@ =~= open_part + chars@.skip(start as int).take(i + 1 - start));
        }
        i += 1;
    }
    out.push('<');
    out.push('/');
    out.push('h');
    out.push(d as char);
    out.push('>');
    proof {
        assert(chars@.skip(start as int).take(chars@.len() - start) =~= chars@.skip(
            start as int,
        ));
        assert(chars@.skip(start as int) =~= heading_text(line@));
        assert(out@ =~= heading_tag(heading_level(line@), heading_text(line@)));
    }
    Some(string_of(&out))
}

/// Scanning stops exactly at the heading level: when six hashes were
/// seen, or a non-hash follows, or the line ends.
proof fn lemma_heading_level(s: Seq<char>, k: int)
    requires
        0 <= k <= 6,
        k <= s.len(),
        forall|j: int| 0 <= j < k ==> s[j] == '#',
        k == 6 || k == s.len() || s[k] != '#',
    ensures
        heading_level(s) == k,
    decreases s.len(),
{
    if k > 0 {
        assert(s[0] == '#');
        assert forall|j: int| 0 <= j < k - 1 implies s.drop_first()[j] == '#' by {
            assert(s.drop_first()[j] == s[j + 1]);
        }
        if k < s.len() {
            assert(s.drop_first()[k - 1] == s[k]);
        }
        if k == 6 {
            lemma_heading_level_min(s.drop_first(), 5);
        } else {
            lemma_heading_level(s.drop_first(), k - 1);
        }
    }
}

/// A heading level is never negative.
proof fn lemma_heading_level_nonneg(s: Seq<char>)
    ensures
        heading_level(s) >= 0,
    decreases s.len(),
{
    if s.len() > 0 && s[0] == '#' {
        lemma_heading_level_nonneg(s.drop_first());
    }
}

/// A sequence opening with `k` hashes has heading level at least `k`.
proof fn lemma_heading_level_min(s: Seq<char>, k: int)
    requires
        0 <= k <= 6,
        k <= s.len(),
        forall|j: int| 0 <= j < k ==> s[j] == '#',
    ensures
        heading_level(s) >= k,
    decreases k,
{
    lemma_heading_level_nonneg(s);
    if k > 0 {
        assert(s[0] == '#');
        assert forall|j: int| 0 <= j < k - 1 implies s.drop_first()[j] == '#' by {
            assert(s.drop_first()[j] == s[j + 1]);
        }
        lemma_heading_level_min(s.drop_first(), k - 1);
    }
}

} // verus!
