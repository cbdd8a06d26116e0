//! What holds of the `www.` toggle: where a host starts and ends, what
//! taking the labels out and putting one in do to it, and when swapping
//! undoes itself.

use vstd::prelude::*;
use crate::utils::candidate::scheme_prefix;
use crate::utils::www::{
    contains_www, ends_host, first_separator, has_separator, host_end, host_of, host_start,
    is_first_separator, is_host_end, label_starts, separator_at, strip_labels, swapped, with_www,
    without_www, www_at, www_label, www_label_at, www_label_in_host,
};

verus! {

/// A separator with none before it is the first one.
pub proof fn lemma_first_separator_is(u: Seq<char>, i: int)
    requires
        is_first_separator(u, i),
    ensures
        has_separator(u),
        first_separator(u) == i,
        host_start(u) == i + 3,
{
    let f = first_separator(u);
    assert(is_first_separator(u, f));
    if f < i {
        assert(!separator_at(u, f));
    }
    if i < f {
        assert(!separator_at(u, i));
    }
}

/// Below any separator stands a first one.
proof fn lemma_least_separator(u: Seq<char>, i: int) -> (f: int)
    requires
        separator_at(u, i),
    ensures
        is_first_separator(u, f),
        f <= i,
    decreases i,
{
    if exists|j: int| 0 <= j < i && separator_at(u, j) {
        let j = choose|j: int| 0 <= j < i && separator_at(u, j);
        lemma_least_separator(u, j)
    } else {
        i
    }
}

/// The host's start lies inside `u`, behind the first separator if there
/// is one.
pub proof fn lemma_host_start(u: Seq<char>)
    ensures
        0 <= host_start(u) <= u.len(),
        has_separator(u) ==> is_first_separator(u, host_start(u) - 3),
        !has_separator(u) ==> host_start(u) == 0,
{
    if has_separator(u) {
        let i = choose|i: int| separator_at(u, i);
        let f = lemma_least_separator(u, i);
        lemma_first_separator_is(u, f);
    }
}

/// From `i` on, a host end is found.
proof fn lemma_host_end_from(u: Seq<char>, i: int) -> (e: int)
    requires
        host_start(u) <= i <= u.len(),
        forall|k: int| host_start(u) <= k < i ==> !ends_host(#[trigger] u[k]),
    ensures
        is_host_end(u, e),
    decreases u.len() - i,
{
    if i < u.len() && !ends_host(u[i]) {
        lemma_host_end_from(u, i + 1)
    } else {
        i
    }
}

/// An index that closes the host is the host's end.
pub proof fn lemma_host_end_is(u: Seq<char>, e: int)
    requires
        is_host_end(u, e),
    ensures
        host_end(u) == e,
{
    let c = host_end(u);
    assert(is_host_end(u, c));
    if c < e {
        assert(ends_host(u[c]));
    }
    if e < c {
        assert(ends_host(u[e]));
    }
}

/// The host's end closes the host.
pub proof fn lemma_host_end(u: Seq<char>)
    ensures
        is_host_end(u, host_end(u)),
{
    lemma_host_start(u);
    let e = lemma_host_end_from(u, host_start(u));
    lemma_host_end_is(u, e);
}

/// Where no `www.` label starts at or behind `i`, nothing is taken out.
pub proof fn lemma_strip_without_labels(h: Seq<char>, i: int)
    requires
        0 <= i <= h.len(),
        forall|k: int| i <= k < h.len() ==> !www_label_in_host(h, k),
    ensures
        strip_labels(h, i) == h.skip(i),
    decreases h.len() - i,
{
    if i < h.len() {
        lemma_strip_without_labels(h, i + 1);
        assert(!www_label_in_host(h, i));
        assert(seq![h[i]] + h.skip(i + 1) == h.skip(i));
    }
}

/// The host of an address that got `www.` behind its separator: it starts
/// where it did, and is the old host behind the new label.
proof fn lemma_host_after_insert(u: Seq<char>)
    requires
        has_separator(u),
    ensures
        has_separator(with_www(u)),
        host_start(with_www(u)) == host_start(u),
        host_end(with_www(u)) == host_end(u) + 4,
        host_of(with_www(u)) == www_label() + host_of(u),
{
    lemma_host_start(u);
    lemma_host_end(u);
    let s = host_start(u);
    let e = host_end(u);
    let w = with_www(u);
    assert(w.len() == u.len() + 4);
    assert forall|k: int| 0 <= k < w.len() implies w[k] == (if k < s {
        u[k]
    } else if k < s + 4 {
        www_label()[k - s]
    } else {
        u[k - 4]
    }) by {}
    assert(is_first_separator(w, s - 3)) by {
        assert(separator_at(u, s - 3));
        assert forall|j: int| 0 <= j < s - 3 implies !separator_at(w, j) by {
            assert(!separator_at(u, j));
        }
    }
    lemma_first_separator_is(w, s - 3);
    assert(is_host_end(w, e + 4)) by {
        assert forall|k: int| s <= k < e + 4 implies !ends_host(#[trigger] w[k]) by {
            if k >= s + 4 {
                assert(!ends_host(u[k - 4]));
            }
        }
    }
    lemma_host_end_is(w, e + 4);
    assert(host_of(w) =~= www_label() + host_of(u));
}

/// The host of an address that lost a leading `www.` label: it starts where
/// it did, and is the old host without its first four characters.
proof fn lemma_host_after_cut(u: Seq<char>)
    requires
        has_separator(u),
        www_label_at(u, host_start(u)),
    ensures
        host_start(u) + 4 <= host_end(u),
        has_separator(u.take(host_start(u)) + u.skip(host_start(u) + 4)),
        host_start(u.take(host_start(u)) + u.skip(host_start(u) + 4)) == host_start(u),
        host_end(u.take(host_start(u)) + u.skip(host_start(u) + 4)) == host_end(u) - 4,
        host_of(u.take(host_start(u)) + u.skip(host_start(u) + 4)) == host_of(u).skip(4),
{
    lemma_host_start(u);
    lemma_host_end(u);
    let s = host_start(u);
    let e = host_end(u);
    let c = u.take(s) + u.skip(s + 4);
    assert(www_at(host_of(u), 0));
    assert(c.len() == u.len() - 4);
    assert forall|k: int| 0 <= k < c.len() implies c[k] == (if k < s {
        u[k]
    } else {
        u[k + 4]
    }) by {}
    assert(is_first_separator(c, s - 3)) by {
        assert(separator_at(u, s - 3));
        assert forall|j: int| 0 <= j < s - 3 implies !separator_at(c, j) by {
            assert(!separator_at(u, j));
        }
    }
    lemma_first_separator_is(c, s - 3);
    assert(is_host_end(c, e - 4)) by {
        assert forall|k: int| s <= k < e - 4 implies !ends_host(#[trigger] c[k]) by {
            assert(!ends_host(u[k + 4]));
        }
    }
    lemma_host_end_is(c, e - 4);
    assert(host_of(c) =~= host_of(u).skip(4));
}

/// What `strip_labels` leaves of a host holds none of the characters that
/// close a host.
proof fn lemma_strip_keeps_host_chars(h: Seq<char>, i: int)
    requires
        0 <= i <= h.len(),
        forall|k: int| 0 <= k < h.len() ==> !ends_host(#[trigger] h[k]),
    ensures
        forall|j: int|
            0 <= j < strip_labels(h, i).len() ==> !ends_host(#[trigger] strip_labels(h, i)[j]),
    decreases h.len() - i,
{
    if i < h.len() {
        if www_label_in_host(h, i) {
            lemma_strip_keeps_host_chars(h, i + 4);
            assert(strip_labels(h, i) == strip_labels(h, i + 4));
        } else {
            lemma_strip_keeps_host_chars(h, i + 1);
            let r = strip_labels(h, i);
            let t = strip_labels(h, i + 1);
            assert forall|j: int| 0 <= j < r.len() implies !ends_host(#[trigger] r[j]) by {
                if j > 0 {
                    assert(r[j] == t[j - 1]);
                }
            }
        }
    } else {
        assert(strip_labels(h, i).len() == 0);
    }
}

/// What `strip_labels` leaves ends as the host ends, or with a dot.
proof fn lemma_strip_last(h: Seq<char>, i: int)
    requires
        0 <= i <= h.len(),
    ensures
        strip_labels(h, i).len() > 0 ==> h.len() > 0 && (strip_labels(h, i).last() == h.last()
            || strip_labels(h, i).last() == '.'),
    decreases h.len() - i,
{
    if i < h.len() {
        if www_label_in_host(h, i) {
            lemma_strip_last(h, i + 4);
        } else {
            lemma_strip_last(h, i + 1);
            if i + 1 < h.len() && !www_label_in_host(h, i + 1) {
                assert(strip_labels(h, i + 1).len() > 0);
            }
        }
    }
}

/// `s` reads `www.` at `j`, and a label starts there: at the start of `s`
/// that is for `at_start` to say.
spec fn reads_label(s: Seq<char>, j: int, at_start: bool) -> bool {
    www_at(s, j) && if j == 0 {
        at_start
    } else {
        s[j - 1] == '.'
    }
}

/// What `strip_labels` leaves of `h[i..]` reads no `www.` label, also when
/// it is put where `h[i..]` stood.
proof fn lemma_strip_leaves_none(h: Seq<char>, i: int)
    requires
        0 <= i <= h.len(),
    ensures
        forall|j: int| !reads_label(strip_labels(h, i), j, label_starts(h, i)),
    decreases h.len() - i,
{
    let r = strip_labels(h, i);
    if i < h.len() {
        if www_label_in_host(h, i) {
            lemma_strip_leaves_none(h, i + 4);
            assert(label_starts(h, i + 4));
            assert forall|j: int| !reads_label(r, j, label_starts(h, i)) by {
                assert(!reads_label(strip_labels(h, i + 4), j, true));
            }
        } else {
            lemma_strip_leaves_none(h, i + 1);
            let t = strip_labels(h, i + 1);
            assert(r == seq![h[i]] + t);
            assert forall|j: int| !reads_label(r, j, label_starts(h, i)) by {
                if reads_label(r, j, label_starts(h, i)) {
                    if j >= 1 {
                        assert(www_at(t, j - 1));
                        if j >= 2 {
                            assert(t[j - 2] == r[j - 1]);
                        }
                        assert(reads_label(t, j - 1, label_starts(h, i + 1)));
                    } else {
                        assert(r[0] == h[i]);
                        assert(t[0] == r[1] && t[1] == r[2] && t[2] == r[3]);
                        assert(!www_label_in_host(h, i + 1));
                        let t2 = strip_labels(h, i + 2);
                        assert(t == seq![h[i + 1]] + t2);
                        assert(t2[0] == t[1] && t2[1] == t[2]);
                        assert(!www_label_in_host(h, i + 2));
                        let t3 = strip_labels(h, i + 3);
                        assert(t2 == seq![h[i + 2]] + t3);
                        assert(t3[0] == t2[1]);
                        assert(!www_label_in_host(h, i + 3));
                        assert(t3 == seq![h[i + 3]] + strip_labels(h, i + 4));
                        assert(www_label_in_host(h, i));
                    }
                }
            }
        }
    } else {
        assert(r.len() == 0);
    }
}

/// The host of an address that lost its `www.` labels: it starts where it
/// did, and is what `strip_labels` left of the old host.
proof fn lemma_host_after_strip(u: Seq<char>)
    ensures
        has_separator(without_www(u)) == has_separator(u),
        host_start(without_www(u)) == host_start(u),
        host_of(without_www(u)) == strip_labels(host_of(u), 0),
{
    lemma_host_start(u);
    lemma_host_end(u);
    let s = host_start(u);
    let e = host_end(u);
    let h = host_of(u);
    let r = strip_labels(h, 0);
    let c = without_www(u);
    assert(c.len() == s + r.len() + (u.len() - e));
    assert forall|k: int| 0 <= k < c.len() implies c[k] == (if k < s {
        u[k]
    } else if k < s + r.len() {
        r[k - s]
    } else {
        u[k - s - r.len() + e]
    }) by {}
    assert forall|k: int| 0 <= k < h.len() implies !ends_host(#[trigger] h[k]) by {
        assert(h[k] == u[s + k]);
    }
    lemma_strip_keeps_host_chars(h, 0);
    lemma_strip_last(h, 0);
    if has_separator(u) {
        assert(is_first_separator(c, s - 3)) by {
            assert(separator_at(u, s - 3));
            assert forall|j: int| 0 <= j < s - 3 implies !separator_at(c, j) by {
                assert(!separator_at(u, j));
            }
        }
        lemma_first_separator_is(c, s - 3);
    } else {
        assert forall|k: int| !separator_at(c, k) by {
            if separator_at(c, k) {
                if k + 1 < r.len() {
                    assert(ends_host(r[k + 1]));
                } else if k >= r.len() {
                    assert(separator_at(u, k - r.len() + e));
                } else {
                    assert(r.last() == ':');
                    assert(h.last() == u[e - 1]);
                    assert(separator_at(u, e - 1));
                }
            }
        }
    }
    assert(is_host_end(c, s + r.len())) by {
        assert forall|k: int| s <= k < s + r.len() implies !ends_host(#[trigger] c[k]) by {
            assert(!ends_host(r[k - s]));
        }
    }
    lemma_host_end_is(c, s + r.len());
    assert(host_of(c) =~= r);
}

/// Taking the `www.` labels out of an address leaves it without any.
pub proof fn lemma_without_www_has_none(u: Seq<char>)
    ensures
        !contains_www(without_www(u)),
{
    lemma_host_after_strip(u);
    let h = host_of(u);
    let r = strip_labels(h, 0);
    lemma_strip_leaves_none(h, 0);
    assert forall|p: int| !www_label_at(without_www(u), p) by {
        let j = p - host_start(u);
        if www_label_in_host(r, j) {
            assert(reads_label(r, j, label_starts(h, 0)));
        }
    }
}

/// Putting `www.` behind the separator of an address gives it a `www.`
/// label.
pub proof fn lemma_with_www_has_one(u: Seq<char>)
    requires
        has_separator(u),
    ensures
        contains_www(with_www(u)),
{
    lemma_host_after_insert(u);
    assert(www_label_in_host(host_of(with_www(u)), 0));
    assert(www_label_at(with_www(u), host_start(u)));
}

/// Swapping toggles the `www.` label of every address with a scheme
/// separator: the sibling has one exactly if the address has none.
pub proof fn lemma_swap_toggles(u: Seq<char>)
    requires
        has_separator(u),
    ensures
        contains_www(swapped(u)) == !contains_www(u),
        has_separator(swapped(u)),
{
    if contains_www(u) {
        lemma_without_www_has_none(u);
        lemma_host_after_strip(u);
    } else {
        lemma_with_www_has_one(u);
        lemma_host_after_insert(u);
    }
}

/// An address that starts with `http://` or `https://` has its host right
/// behind that, and its sibling is another address: with `www.` at the
/// start of the host if the address has no such label, without any
/// otherwise.
pub proof fn lemma_sibling_of_web_address(u: Seq<char>, secure: bool)
    requires
        scheme_prefix(secure).is_prefix_of(u),
    ensures
        has_separator(u),
        host_start(u) == scheme_prefix(secure).len(),
        contains_www(swapped(u)) == !contains_www(u),
        swapped(u) != u,
        !contains_www(u) ==> swapped(u) == scheme_prefix(secure) + www_label() + u.skip(
            host_start(u),
        ),
{
    reveal_strlit("https://");
    reveal_strlit("http://");
    let scheme = scheme_prefix(secure);
    let n = scheme.len() as int;
    assert forall|k: int| 0 <= k < n implies u[k] == scheme[k] by {
        assert(u.subrange(0, n)[k] == scheme[k]);
    }
    lemma_first_separator_is(u, n - 3);
    lemma_swap_toggles(u);
    assert(u.take(n) =~= scheme);
}

/// Every `www.` label of `u` is the first label of its host, and that host
/// stands behind a scheme separator.
pub open spec fn www_only_leads(u: Seq<char>) -> bool {
    &&& forall|p: int| www_label_at(u, p) ==> p == host_start(u)
    &&& contains_www(u) ==> has_separator(u)
}

/// Putting `www.` into an address that has a separator and no `www.` label
/// gives an address whose one `www.` label leads its host.
proof fn lemma_with_www_leads(u: Seq<char>)
    requires
        has_separator(u),
        !contains_www(u),
    ensures
        www_label_at(with_www(u), host_start(u)),
        www_only_leads(with_www(u)),
{
    lemma_host_after_insert(u);
    let s = host_start(u);
    let h = host_of(u);
    let w = with_www(u);
    let hw = host_of(w);
    assert(www_label_in_host(hw, 0));
    assert forall|p: int| www_label_at(w, p) implies p == s by {
        let k = p - s;
        if k != 0 {
            assert(hw[k] == h[k - 4]);
            assert(www_label_in_host(h, k - 4));
            assert(www_label_at(u, s + k - 4));
        }
    }
}

/// Swapping twice gives the address back, for every address whose `www.`
/// labels, if it has any, are one label at the start of a host that stands
/// behind a scheme separator.
pub proof fn lemma_swap_twice(u: Seq<char>)
    requires
        www_only_leads(u),
    ensures
        swapped(swapped(u)) == u,
{
    lemma_host_start(u);
    lemma_host_end(u);
    let s = host_start(u);
    let e = host_end(u);
    let h = host_of(u);
    if contains_www(u) {
        let p = choose|p: int| www_label_at(u, p);
        assert(p == s);
        assert(www_label_in_host(h, 0));
        lemma_host_after_cut(u);
        let c = u.take(s) + u.skip(s + 4);
        assert forall|k: int| 4 <= k < h.len() implies !www_label_in_host(h, k) by {
            if www_label_in_host(h, k) {
                assert(www_label_at(u, s + k));
            }
        }
        lemma_strip_without_labels(h, 4);
        assert(strip_labels(h, 0) == h.skip(4));
        assert(without_www(u) =~= c);
        let hc = host_of(c);
        assert forall|q: int| !www_label_at(c, q) by {
            let i = q - s;
            if www_label_in_host(hc, i) {
                assert(hc[i] == h[i + 4]);
                assert(www_label_in_host(h, i + 4));
            }
        }
        assert(with_www(c) =~= u) by {
            assert(www_at(h, 0));
            assert(h[0] == u[s] && h[1] == u[s + 1] && h[2] == u[s + 2] && h[3] == u[s + 3]);
        }
    } else if has_separator(u) {
        lemma_host_after_insert(u);
        lemma_with_www_leads(u);
        let w = with_www(u);
        let hw = host_of(w);
        assert forall|k: int| 4 <= k < hw.len() implies !www_label_in_host(hw, k) by {
            if www_label_in_host(hw, k) {
                assert(www_label_at(w, s + k));
            }
        }
        lemma_strip_without_labels(hw, 4);
        assert(strip_labels(hw, 0) == hw.skip(4));
        assert(hw.skip(4) =~= h);
        assert(without_www(w) =~= u);
    }
}

/// Swapping twice gives the address back for these addresses only.
pub proof fn lemma_swap_twice_only_there(u: Seq<char>)
    ensures
        swapped(swapped(u)) == u <==> www_only_leads(u),
{
    if www_only_leads(u) {
        lemma_swap_twice(u);
    } else {
        assert(contains_www(u));
        let c = without_www(u);
        lemma_without_www_has_none(u);
        lemma_host_after_strip(u);
        if has_separator(c) {
            lemma_with_www_leads(c);
        }
        assert(www_only_leads(swapped(c)));
    }
}

} // verus!
