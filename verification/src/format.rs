//! Display-name and link formatting: canonical (lower-case,
//! underscored) names, title-cased pretty names, and site links.

use vstd::prelude::*;

verus! {

/// Relies on `String::push`: appends the given character to the end
/// of the string.
pub assume_specification[ String::push ](s: &mut String, c: char)
    ensures
        final(s)@ == old(s)@.push(c),
;

/// A lower-case ASCII letter mapped to upper case; every other
/// character unchanged.
pub open spec fn upper_char(c: char) -> char {
    if 97 <= c as u32 <= 122 {
        ((c as u32 - 32) as u32) as char
    } else {
        c
    }
}

/// An upper-case ASCII letter mapped to lower case; every other
/// character unchanged.
pub open spec fn lower_char(c: char) -> char {
    if 65 <= c as u32 <= 90 {
        ((c as u32 + 32) as u32) as char
    } else {
        c
    }
}

fn to_upper(c: char) -> (r: char)
    ensures
        r == upper_char(c),
{
    let u = c as u32;
    if 97 <= u && u <= 122 {
        ((u - 32) as u8) as char
    } else {
        c
    }
}

fn to_lower(c: char) -> (r: char)
    ensures
        r == lower_char(c),
{
    let u = c as u32;
    if 65 <= u && u <= 90 {
        ((u + 32) as u8) as char
    } else {
        c
    }
}

/// One character of a canonical name: a space becomes an underscore,
/// an ASCII letter lower-case.
pub open spec fn canon_char(c: char) -> char {
    if c == ' ' {
        '_'
    } else {
        lower_char(c)
    }
}

/// A whole name in canonical form.
pub open spec fn canon_seq(s: Seq<char>) -> Seq<char> {
    Seq::new(s.len(), |i: int| canon_char(s[i]))
}

/// Maps a display name to the canonical form the site uses in URLs:
/// spaces become underscores and ASCII letters lower-case.
pub fn canonicalize_name(name: &str) -> (r: String)
    ensures
        r@ == canon_seq(name@),
{
    let n = name.unicode_len();
    let mut out = String::new();
    let mut i: usize = 0;
    while i < n
        invariant
            i <= n,
            n == name@.len(),
            out@.len() == i,
            forall|k: int| 0 <= k < i ==> out@[k] == canon_char(#[trigger] name@[k]),
        decreases n - i,
    {
        let c = name.get_char(i);
        if c == ' ' {
            out.push('_');
        } else {
            out.push(to_lower(c));
        }
        i = i + 1;
    }
    proof {
        assert(out@ =~= canon_seq(name@));
    }
    out
}

/// The underscores of a raw name turned into spaces.
pub open spec fn underscored(s: Seq<char>) -> Seq<char> {
    Seq::new(s.len(), |i: int| if s[i] == '_' {
        ' '
    } else {
        s[i]
    })
}

/// The index just past the word that starts at or covers `i`: the
/// first space at or after `i`, or the end of the text.
pub open spec fn word_end(s: Seq<char>, i: int) -> int
    decreases s.len() - i,
{
    if i < 0 || i >= s.len() {
        s.len() as int
    } else if s[i] == ' ' {
        i
    } else {
        word_end(s, i + 1)
    }
}

/// True where a word begins at `i`: a non-space that is first in the
/// text or follows a space.
pub open spec fn is_word_start(s: Seq<char>, i: int) -> bool {
    0 <= i < s.len() && s[i] != ' ' && (i == 0 || s[i - 1] == ' ')
}

/// The short words that stay lower-case inside a pretty name.
pub open spec fn is_stop_word(w: Seq<char>) -> bool {
    ||| (w.len() == 1 && w[0] == 'a')
    ||| (w.len() == 2 && ((w[0] == 'a' && w[1] == 'n') || (w[0] == 'o' && w[1] == 'r') || (w[0]
        == 'o' && w[1] == 'n') || (w[0] == 'a' && w[1] == 't') || (w[0] == 't' && w[1] == 'o') || (
    w[0] == 'i' && w[1] == 'n') || (w[0] == 'o' && w[1] == 'f')))
    ||| (w.len() == 3 && ((w[0] == 't' && w[1] == 'h' && w[2] == 'e') || (w[0] == 'a' && w[1] == 'n'
        && w[2] == 'd') || (w[0] == 'b' && w[1] == 'u' && w[2] == 't') || (w[0] == 'f' && w[1]
        == 'o' && w[2] == 'r') || (w[0] == 'n' && w[1] == 'o' && w[2] == 'r')))
}

/// One character of a pretty name: the first letter of each word is
/// upper-cased, except in the listed short words; spaces and word
/// interiors pass through.
pub open spec fn pretty_char(s: Seq<char>, i: int) -> char {
    if is_word_start(s, i) && !is_stop_word(s.subrange(i, word_end(s, i))) {
        upper_char(s[i])
    } else {
        s[i]
    }
}

proof fn lemma_word_end_is(s: Seq<char>, i: int, j: int)
    requires
        0 <= i <= j <= s.len(),
        forall|k: int| i <= k < j ==> s[k] != ' ',
        j == s.len() || s[j] == ' ',
    ensures
        word_end(s, i) == j,
    decreases j - i,
{
    if i < j {
        lemma_word_end_is(s, i + 1, j);
    }
}

fn stop_word_in(t: &Vec<char>, start: usize, end: usize) -> (r: bool)
    requires
        start <= end <= t@.len(),
    ensures
        r == is_stop_word(t@.subrange(start as int, end as int)),
{
    let len = end - start;
    if len == 1 {
        let c0 = t[start];
        c0 == 'a'
    } else if len == 2 {
        let c0 = t[start];
        let c1 = t[start + 1];
        (c0 == 'a' && c1 == 'n') || (c0 == 'o' && c1 == 'r') || (c0 == 'o' && c1 == 'n') || (c0
            == 'a' && c1 == 't') || (c0 == 't' && c1 == 'o') || (c0 == 'i' && c1 == 'n') || (c0
            == 'o' && c1 == 'f')
    } else if len == 3 {
        let c0 = t[start];
        let c1 = t[start + 1];
        let c2 = t[start + 2];
        (c0 == 't' && c1 == 'h' && c2 == 'e') || (c0 == 'a' && c1 == 'n' && c2 == 'd') || (c0
            == 'b' && c1 == 'u' && c2 == 't') || (c0 == 'f' && c1 == 'o' && c2 == 'r') || (c0
            == 'n' && c1 == 'o' && c2 == 'r')
    } else {
        false
    }
}

/// Maps a raw name to its display form: underscores become spaces,
/// and each word is title-cased unless it is one of the short words
/// kept lower-case.
pub fn prettify_name(name: &str) -> (r: String)
    ensures
        r@.len() == name@.len(),
        forall|i: int|
            0 <= i < name@.len() ==> r@[i] == pretty_char(underscored(name@), i),
{
    let n = name.unicode_len();
    let mut t: Vec<char> = Vec::new();
    let mut i: usize = 0;
    while i < n
        invariant
            i <= n,
            n == name@.len(),
            t@.len() == i,
            forall|k: int| 0 <= k < i ==> t@[k] == underscored(name@)[k],
        decreases n - i,
    {
        let c = name.get_char(i);
        if c == '_' {
            t.push(' ');
        } else {
            t.push(c);
        }
        i = i + 1;
    }
    proof {
        assert(t@ =~= underscored(name@));
    }
    let ghost s = t@;
    let mut out = String::new();
    let mut i: usize = 0;
    while i < n
        invariant
            i <= n,
            n == s.len(),
            t@ == s,
            s == underscored(name@),
            name@.len() == n,
            out@.len() == i,
            forall|k: int| 0 <= k < i ==> out@[k] == pretty_char(s, k),
        decreases n - i,
    {
        let c = t[i];
        let at_start = if i == 0 {
            true
        } else {
            t[i - 1] == ' '
        };
        if c != ' ' && at_start {
            let mut j = i;
            while j < n && t[j] != ' '
                invariant
                    i <= j <= n,
                    n == s.len(),
                    t@ == s,
                    forall|k: int| i <= k < j ==> s[k] != ' ',
                decreases n - j,
            {
                j = j + 1;
            }
            proof {
                lemma_word_end_is(s, i as int, j as int);
            }
            if stop_word_in(&t, i, j) {
                out.push(c);
            } else {
                out.push(to_upper(c));
            }
        } else {
            out.push(c);
        }
        i = i + 1;
    }
    out
}

/// The link to a nation's page, from its display or canonical name.
pub fn nation_link(nation: &str) -> (r: String)
    ensures
        r@ == "https://www.nationstates.net/nation="@ + canon_seq(nation@),
{
    let mut out = String::from_str("https://www.nationstates.net/nation=");
    let canon = canonicalize_name(nation);
    out.append(canon.as_str());
    out
}

/// The link to a region's page, from its display or canonical name.
pub fn region_link(region: &str) -> (r: String)
    ensures
        r@ == "https://www.nationstates.net/region="@ + canon_seq(region@),
{
    let mut out = String::from_str("https://www.nationstates.net/region=");
    let canon = canonicalize_name(region);
    out.append(canon.as_str());
    out
}

/// The link to one message-board post of a region.
pub fn rmb_link(region: &str, postid: &str) -> (r: String)
    ensures
        r@ == "https://www.nationstates.net/page=display_region_rmb/region="@ + canon_seq(region@)
            + "?postid="@ + postid@ + "#p"@ + postid@,
{
    let mut out = String::from_str("https://www.nationstates.net/page=display_region_rmb/region=");
    let canon = canonicalize_name(region);
    out.append(canon.as_str());
    out.append("?postid=");
    out.append(postid);
    out.append("#p");
    out.append(postid);
    out
}

} // verus!
