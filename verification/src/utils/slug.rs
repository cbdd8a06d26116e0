//! Small clean-ups of text: the closing slash of an address, and names made
//! fit for a path.

use vstd::prelude::*;
use crate::utils::text::{push_range, to_chars};

verus! {

/// `s` without its last character if that is a slash.
pub open spec fn without_end_slash(s: Seq<char>) -> Seq<char> {
    if s.len() > 0 && s.last() == '/' {
        s.drop_last()
    } else {
        s
    }
}

/// Takes one closing slash off `s`, if it has one.
pub fn trim_end_slash(s: String) -> (r: String)
    ensures
        r@ == without_end_slash(s@),
{
    let v = to_chars(s.as_str());
    let n = v.len();
    if n > 0 && v[n - 1] == '/' {
        let mut r = String::new();
        push_range(&mut r, &v, 0, n - 1);
        r
    } else {
        s
    }
}

/// Removes the closing slash from an address.
pub fn remove_end_slash(url: &str) -> (r: String)
    ensures
        r@ == without_end_slash(url@),
{
    trim_end_slash(String::from_str(url))
}

/// The lower-case form of an ASCII capital; any other character itself.
pub open spec fn ascii_lower(c: char) -> char {
    if 'A' <= c <= 'Z' {
        ((c as u8) + 32) as char
    } else {
        c
    }
}

/// The characters that a name loses.
pub open spec fn is_unsafe(c: char) -> bool {
    c == '@' || c == '!' || c == '&' || c == '#' || c == '\'' || c == '$' || c == ',' || c == '.'
}

/// White space, as Unicode defines it.
pub open spec fn is_space(c: char) -> bool {
    ||| '\u{9}' <= c <= '\u{d}'
    ||| c == ' '
    ||| c == '\u{85}'
    ||| c == '\u{a0}'
    ||| c == '\u{1680}'
    ||| '\u{2000}' <= c <= '\u{200a}'
    ||| c == '\u{2028}'
    ||| c == '\u{2029}'
    ||| c == '\u{202f}'
    ||| c == '\u{205f}'
    ||| c == '\u{3000}'
}

/// A hyphen for white space; any other character itself.
pub open spec fn hyphen_for_space(c: char) -> char {
    if is_space(c) {
        '-'
    } else {
        c
    }
}

/// The name `raw` made fit for a path: in lower case, without the unsafe
/// characters, with a hyphen for each white-space character.
pub open spec fn slug(raw: Seq<char>) -> Seq<char> {
    raw.map_values(|c: char| ascii_lower(c)).filter(|c: char| !is_unsafe(c)).map_values(
        |c: char| hyphen_for_space(c),
    )
}

/// What one more character adds to a slug.
pub proof fn lemma_slug_push(raw: Seq<char>, c: char)
    ensures
        slug(raw.push(c)) == if is_unsafe(ascii_lower(c)) {
            slug(raw)
        } else {
            slug(raw).push(hyphen_for_space(ascii_lower(c)))
        },
{
    let lower = |c: char| ascii_lower(c);
    let keep = |c: char| !is_unsafe(c);
    let hyphen = |c: char| hyphen_for_space(c);
    let lowered = raw.map_values(lower);
    assert(raw.push(c).map_values(lower) =~= lowered.push(ascii_lower(c)));
    lowered.lemma_filter_push(ascii_lower(c), keep);
    let kept = lowered.filter(keep);
    assert(kept.push(ascii_lower(c)).map_values(hyphen) =~= kept.map_values(hyphen).push(
        hyphen_for_space(ascii_lower(c)),
    ));
}

/// The lower-case form of `c`.
fn to_ascii_lower(c: char) -> (r: char)
    ensures
        r == ascii_lower(c),
{
    if 'A' <= c && c <= 'Z' {
        ((c as u8) + 32) as char
    } else {
        c
    }
}

/// Whether a name loses `c`.
fn loses(c: char) -> (r: bool)
    ensures
        r == is_unsafe(c),
{
    c == '@' || c == '!' || c == '&' || c == '#' || c == '\'' || c == '$' || c == ',' || c == '.'
}

/// Whether `c` is white space.
fn is_white_space(c: char) -> (r: bool)
    ensures
        r == is_space(c),
{
    ('\u{9}' <= c && c <= '\u{d}') || c == ' ' || c == '\u{85}' || c == '\u{a0}' || c
        == '\u{1680}' || ('\u{2000}' <= c && c <= '\u{200a}') || c == '\u{2028}' || c
        == '\u{2029}' || c == '\u{202f}' || c == '\u{205f}' || c == '\u{3000}'
}

/// Takes a piece of text and makes it fit for a path: lower case, no
/// unsafe characters, a hyphen for each white-space character.
pub fn urlify(raw_text: &str) -> (r: String)
    ensures
        r@ == slug(raw_text@),
{
    let v = to_chars(raw_text);
    let mut r = String::new();
    let mut i: usize = 0;
    proof {
        assert(v@.take(0) =~= Seq::<char>::empty());
        assert(slug(Seq::<char>::empty()) =~= Seq::<char>::empty()) by {
            reveal(Seq::filter);
        }
    }
    while i < v.len()
        invariant
            i <= v.len(),
            r@ == slug(v@.take(i as int)),
        decreases v.len() - i,
    {
        let c = to_ascii_lower(v[i]);
        proof {
            lemma_slug_push(v@.take(i as int), v@[i as int]);
            assert(v@.take(i as int).push(v@[i as int]) =~= v@.take(i + 1));
        }
        if !loses(c) {
            if is_white_space(c) {
                r.push('-');
            } else {
                r.push(c);
            }
        }
        i += 1;
    }
    proof {
        assert(v@.take(i as int) =~= v@);
    }
    r
}

} // verus!
