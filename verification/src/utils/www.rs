//! The `www.` label of an address and the transform that toggles it.
//!
//! An address is read as `scheme://host/rest`: the host starts behind the
//! first `://` (at the very start where there is none) and ends before the
//! first `/`, `?` or `#` that follows. Inside the host, labels are separated
//! by dots; a `www.` label is a label `www` with its closing dot.

use vstd::prelude::*;
use crate::utils::text::{push_range, to_chars};
use crate::utils::www_laws::{lemma_first_separator_is, lemma_host_end_is};

verus! {

/// The three characters `://` stand in `u` at index `i`.
pub open spec fn separator_at(u: Seq<char>, i: int) -> bool {
    &&& 0 <= i
    &&& i + 3 <= u.len()
    &&& u[i] == ':'
    &&& u[i + 1] == '/'
    &&& u[i + 2] == '/'
}

/// `u` holds a scheme separator somewhere.
pub open spec fn has_separator(u: Seq<char>) -> bool {
    exists|i: int| separator_at(u, i)
}

/// `i` is where the first `://` of `u` stands.
pub open spec fn is_first_separator(u: Seq<char>, i: int) -> bool {
    &&& separator_at(u, i)
    &&& forall|j: int| 0 <= j < i ==> !separator_at(u, j)
}

/// Where the first `://` of `u` stands, for a `u` with a separator.
pub open spec fn first_separator(u: Seq<char>) -> int {
    choose|i: int| is_first_separator(u, i)
}

/// Where the host of `u` starts: right behind the first `://`, or at 0.
pub open spec fn host_start(u: Seq<char>) -> int {
    if has_separator(u) {
        first_separator(u) + 3
    } else {
        0
    }
}

/// The characters that close the host part of an address.
pub open spec fn ends_host(c: char) -> bool {
    c == '/' || c == '?' || c == '#'
}

/// `e` is where the host of `u` ends: the first closing character at or
/// behind the host's start, or the end of `u`.
pub open spec fn is_host_end(u: Seq<char>, e: int) -> bool {
    &&& host_start(u) <= e <= u.len()
    &&& forall|k: int| host_start(u) <= k < e ==> !ends_host(#[trigger] u[k])
    &&& e < u.len() ==> ends_host(u[e])
}

/// Where the host of `u` ends.
pub open spec fn host_end(u: Seq<char>) -> int {
    choose|e: int| is_host_end(u, e)
}

/// The host of `u`.
pub open spec fn host_of(u: Seq<char>) -> Seq<char> {
    u.subrange(host_start(u), host_end(u))
}

/// The four characters `www.` stand in `s` at index `i`.
pub open spec fn www_at(s: Seq<char>, i: int) -> bool {
    &&& 0 <= i
    &&& i + 4 <= s.len()
    &&& s[i] == 'w'
    &&& s[i + 1] == 'w'
    &&& s[i + 2] == 'w'
    &&& s[i + 3] == '.'
}

/// A label of the host `h` starts at index `i`.
pub open spec fn label_starts(h: Seq<char>, i: int) -> bool {
    i == 0 || (0 < i <= h.len() && h[i - 1] == '.')
}

/// The host `h` has a `www.` label at index `i`.
pub open spec fn www_label_in_host(h: Seq<char>, i: int) -> bool {
    label_starts(h, i) && www_at(h, i)
}

/// The address `u` has a `www.` label at index `p`, inside its host.
pub open spec fn www_label_at(u: Seq<char>, p: int) -> bool {
    www_label_in_host(host_of(u), p - host_start(u))
}

/// The host of `u` contains a `www.` label.
pub open spec fn contains_www(u: Seq<char>) -> bool {
    exists|p: int| www_label_at(u, p)
}

/// What is left of `h[i..]` once every `www.` label is taken out.
pub open spec fn strip_labels(h: Seq<char>, i: int) -> Seq<char>
    decreases h.len() - i,
{
    if i < 0 || i >= h.len() {
        Seq::empty()
    } else if www_label_in_host(h, i) {
        strip_labels(h, i + 4)
    } else {
        seq![h[i]] + strip_labels(h, i + 1)
    }
}

/// `u` with every `www.` label taken out of its host.
pub open spec fn without_www(u: Seq<char>) -> Seq<char> {
    u.take(host_start(u)) + strip_labels(host_of(u), 0) + u.skip(host_end(u))
}

/// The label `www.`.
pub open spec fn www_label() -> Seq<char> {
    seq!['w', 'w', 'w', '.']
}

/// `u` with `www.` put right behind its scheme separator; `u` itself where
/// it has no separator.
pub open spec fn with_www(u: Seq<char>) -> Seq<char> {
    if has_separator(u) {
        u.take(host_start(u)) + www_label() + u.skip(host_start(u))
    } else {
        u
    }
}

/// `u` with `www.` put in, unless it has a `www.` label already.
pub open spec fn with_one_www(u: Seq<char>) -> Seq<char> {
    if contains_www(u) {
        u
    } else {
        with_www(u)
    }
}

/// The sibling of `u`: without its `www.` labels if it has one, with a
/// leading `www.` label otherwise.
pub open spec fn swapped(u: Seq<char>) -> Seq<char> {
    if contains_www(u) {
        without_www(u)
    } else {
        with_www(u)
    }
}

/// The index right behind the first `://` of `v`, if it has one.
fn find_separator(v: &Vec<char>) -> (r: Option<usize>)
    ensures
        r is Some <==> has_separator(v@),
        r matches Some(i) ==> i == host_start(v@) && i <= v.len(),
{
    let n = v.len();
    let mut i: usize = 0;
    while n - i >= 3
        invariant
            n == v.len(),
            i <= n,
            forall|j: int| 0 <= j < i ==> !separator_at(v@, j),
        decreases n - i,
    {
        if v[i] == ':' && v[i + 1] == '/' && v[i + 2] == '/' {
            proof {
                lemma_first_separator_is(v@, i as int);
            }
            return Some(i + 3);
        }
        i += 1;
    }
    proof {
        assert forall|j: int| !separator_at(v@, j) by {
            if 0 <= j < i {
                assert(!separator_at(v@, j));
            }
        }
    }
    None
}

/// Where the host of `v` starts.
fn find_host_start(v: &Vec<char>) -> (r: usize)
    ensures
        r == host_start(v@),
        r <= v.len(),
{
    match find_separator(v) {
        Some(i) => i,
        None => 0,
    }
}

/// Where the host of `v` ends.
fn find_host_end(v: &Vec<char>, start: usize) -> (r: usize)
    requires
        start == host_start(v@),
        start <= v.len(),
    ensures
        r == host_end(v@),
        start <= r <= v.len(),
{
    let n = v.len();
    let mut i: usize = start;
    while i < n && !(v[i] == '/' || v[i] == '?' || v[i] == '#')
        invariant
            n == v.len(),
            start == host_start(v@),
            start <= i <= n,
            forall|k: int| start <= k < i ==> !ends_host(#[trigger] v@[k]),
        decreases n - i,
    {
        i += 1;
    }
    proof {
        lemma_host_end_is(v@, i as int);
    }
    i
}

/// Where the host of `v` starts and ends.
fn host_span(v: &Vec<char>) -> (r: (usize, usize))
    ensures
        r.0 == host_start(v@),
        r.1 == host_end(v@),
        r.0 <= r.1 <= v.len(),
{
    let start = find_host_start(v);
    let end = find_host_end(v, start);
    (start, end)
}

/// Whether `v` has a `www.` label at `p`, for a host `v[start..end]`.
fn is_www_label(v: &Vec<char>, start: usize, end: usize, p: usize) -> (r: bool)
    requires
        start == host_start(v@),
        end == host_end(v@),
        start <= p < end <= v.len(),
    ensures
        r == www_label_at(v@, p as int),
{
    let starts_label = p == start || v[p - 1] == '.';
    let reads_www = end - p >= 4 && v[p] == 'w' && v[p + 1] == 'w' && v[p + 2] == 'w';
    starts_label && reads_www && v[p + 3] == '.'
}

/// Whether the host `v[start..end]` contains a `www.` label.
fn host_has_www(v: &Vec<char>, start: usize, end: usize) -> (r: bool)
    requires
        start == host_start(v@),
        end == host_end(v@),
        start <= end <= v.len(),
    ensures
        r == contains_www(v@),
{
    let mut p: usize = start;
    while p < end
        invariant
            start == host_start(v@),
            end == host_end(v@),
            start <= p <= end <= v.len(),
            forall|q: int| start <= q < p ==> !www_label_at(v@, q),
        decreases end - p,
    {
        if is_www_label(v, start, end, p) {
            return true;
        }
        p += 1;
    }
    proof {
        assert forall|q: int| !www_label_at(v@, q) by {
            if start <= q < p {
                assert(!www_label_at(v@, q));
            }
        }
    }
    false
}

/// `v` without the `www.` labels of its host `v[start..end]`.
fn strip_host(v: &Vec<char>, start: usize, end: usize) -> (r: String)
    requires
        start == host_start(v@),
        end == host_end(v@),
        start <= end <= v.len(),
    ensures
        r@ == without_www(v@),
{
    let ghost h = host_of(v@);
    let mut r = String::new();
    push_range(&mut r, v, 0, start);
    let mut p: usize = start;
    while p < end
        invariant
            start == host_start(v@),
            end == host_end(v@),
            start <= p <= end <= v.len(),
            h == host_of(v@),
            r@ + strip_labels(h, p - start) == v@.take(start as int) + strip_labels(h, 0),
        decreases end - p,
    {
        if is_www_label(v, start, end, p) {
            p += 4;
        } else {
            proof {
                assert(h[p - start] == v@[p as int]);
                assert(r@.push(v@[p as int]) + strip_labels(h, p - start + 1) == r@
                    + strip_labels(h, p - start));
            }
            r.push(v[p]);
            p += 1;
        }
    }
    proof {
        assert(r@ + strip_labels(h, p - start) == r@);
    }
    push_range(&mut r, v, end, v.len());
    r
}

/// `v` with `www.` behind its scheme separator.
fn insert_www(v: &Vec<char>) -> (r: String)
    ensures
        r@ == with_www(v@),
{
    let mut r = String::new();
    match find_separator(v) {
        Some(start) => {
            push_range(&mut r, v, 0, start);
            r.push('w');
            r.push('w');
            r.push('w');
            r.push('.');
            proof {
                assert(r@ == v@.take(start as int) + www_label());
            }
            push_range(&mut r, v, start, v.len());
        },
        None => {
            push_range(&mut r, v, 0, v.len());
            proof {
                assert(r@ == v@);
            }
        },
    }
    r
}

/// Checks whether an address uses `www.`: whether its host contains a
/// `www.` label.
pub fn has_www(url: &str) -> (r: bool)
    ensures
        r == contains_www(url@),
{
    let v = to_chars(url);
    let (start, end) = host_span(&v);
    host_has_www(&v, start, end)
}

/// Removes `www.` from an address: every `www.` label of its host.
pub fn remove_www(url: &str) -> (r: String)
    ensures
        r@ == without_www(url@),
{
    let v = to_chars(url);
    let (start, end) = host_span(&v);
    strip_host(&v, start, end)
}

/// Adds `www.` to an address that has none: right behind the scheme
/// separator. An address that has it, or has no separator, stays as it is.
pub fn add_www(url: &str) -> (r: String)
    ensures
        r@ == with_one_www(url@),
{
    let v = to_chars(url);
    let (start, end) = host_span(&v);
    if host_has_www(&v, start, end) {
        String::from_str(url)
    } else {
        insert_www(&v)
    }
}

/// Removes `www.` if an address has it, and adds it if it has not.
pub fn swap_www(url: &str) -> (r: String)
    ensures
        r@ == swapped(url@),
{
    let v = to_chars(url);
    let (start, end) = host_span(&v);
    if host_has_www(&v, start, end) {
        strip_host(&v, start, end)
    } else {
        insert_www(&v)
    }
}

} // verus!
