//! Substring scanning over character sequences: first-occurrence search and
//! the slicing helpers the protocol parsers are written with.

use vstd::prelude::*;

verus! {

/// The needle `n` occurs in `h` at position `i`.
pub open spec fn match_at(h: Seq<char>, n: Seq<char>, i: int) -> bool {
    0 <= i && i + n.len() <= h.len() && h.subrange(i, i + n.len()) == n
}

/// The first position at or after `i` where `n` occurs in `h`, if any.
pub open spec fn spec_find_from(h: Seq<char>, n: Seq<char>, i: int) -> Option<int>
    recommends
        0 <= i,
    decreases h.len() - i,
    when 0 <= i
{
    if i + n.len() > h.len() {
        Option::<int>::None
    } else if h.subrange(i, i + n.len()) =~= n {
        Option::Some(i)
    } else {
        spec_find_from(h, n, i + 1)
    }
}

/// The first position where `n` occurs in `h`, if any.
pub open spec fn spec_find(h: Seq<char>, n: Seq<char>) -> Option<int> {
    spec_find_from(h, n, 0)
}

/// A found position is a match, and nothing earlier (at or after the search
/// start) matches; an absent result means nothing matches at all.
pub proof fn lemma_find_from_correct(h: Seq<char>, n: Seq<char>, i: int)
    requires
        0 <= i,
    ensures
        spec_find_from(h, n, i) matches Some(j) ==> i <= j && match_at(h, n, j) && forall|k: int|
            i <= k < j ==> !match_at(h, n, k),
        spec_find_from(h, n, i) is None ==> forall|k: int| i <= k ==> !match_at(h, n, k),
    decreases h.len() - i,
{
    if i + n.len() > h.len() {
        assert forall|k: int| i <= k implies !match_at(h, n, k) by {}
    } else if h.subrange(i, i + n.len()) =~= n {
    } else {
        lemma_find_from_correct(h, n, i + 1);
        if spec_find_from(h, n, i) is None {
            assert forall|k: int| i <= k implies !match_at(h, n, k) by {
                if k > i {
                    assert(!match_at(h, n, k));
                }
            }
        }
    }
}

/// Whether the needle occurs at position `i` of the haystack.
pub fn match_at_exec(h: &str, n: &str, i: usize, hlen: usize, nlen: usize) -> (r: bool)
    requires
        hlen == h@.len(),
        nlen == n@.len(),
        i + nlen <= hlen,
    ensures
        r == match_at(h@, n@, i as int),
{
    let mut k: usize = 0;
    while k < nlen
        invariant
            k <= nlen,
            nlen == n@.len(),
            hlen == h@.len(),
            i + nlen <= hlen,
            forall|m: int| 0 <= m < k ==> h@[i + m] == n@[m],
        decreases nlen - k,
    {
        if h.get_char(i + k) != n.get_char(k) {
            proof {
                assert(h@.subrange(i as int, i + n@.len())[k as int] != n@[k as int]);
            }
            return false;
        }
        k = k + 1;
    }
    proof {
        assert(h@.subrange(i as int, i + n@.len()) =~= n@);
    }
    true
}

/// The first position where the needle occurs in the haystack, if any.
pub fn find(h: &str, n: &str) -> (r: Option<usize>)
    ensures
        r matches Some(i) ==> spec_find(h@, n@) == Some(i as int),
        r is None ==> spec_find(h@, n@) is None,
{
    let hlen = h.unicode_len();
    let nlen = n.unicode_len();
    if nlen > hlen {
        return None;
    }
    if nlen == 0 {
        proof {
            assert(h@.subrange(0, 0) =~= n@);
        }
        return Some(0);
    }
    let mut i: usize = 0;
    while i <= hlen - nlen
        invariant
            hlen == h@.len(),
            nlen == n@.len(),
            0 < nlen <= hlen,
            i <= hlen - nlen + 1,
            spec_find(h@, n@) == spec_find_from(h@, n@, i as int),
        decreases hlen - i,
    {
        if match_at_exec(h, n, i, hlen, nlen) {
            proof {
                assert(h@.subrange(i as int, i + n@.len()) =~= n@);
            }
            return Some(i);
        }
        i = i + 1;
    }
    None
}

/// Whether the string begins with the given prefix.
pub fn starts_with(s: &str, p: &str) -> (r: bool)
    ensures
        r == p@.is_prefix_of(s@),
{
    let slen = s.unicode_len();
    let plen = p.unicode_len();
    if plen > slen {
        return false;
    }
    let r = match_at_exec(s, p, 0, slen, plen);
    proof {
        assert(match_at(s@, p@, 0) == p@.is_prefix_of(s@));
    }
    r
}

/// The text standing between the first occurrence of `from_tag` and the next
/// occurrence of `to_tag` after it, if both are present.
pub open spec fn spec_between(body: Seq<char>, from_tag: Seq<char>, to_tag: Seq<char>) -> Option<
    Seq<char>,
> {
    match spec_find(body, from_tag) {
        Option::None => Option::<Seq<char>>::None,
        Option::Some(i) => {
            let rest = body.subrange(i + from_tag.len(), body.len() as int);
            match spec_find(rest, to_tag) {
                Option::None => Option::<Seq<char>>::None,
                Option::Some(j) => Option::Some(rest.subrange(0, j)),
            }
        },
    }
}

/// Extracts the text between the first occurrence of `from_tag` and the next
/// occurrence of `to_tag` after it.
pub fn between(body: &str, from_tag: &str, to_tag: &str) -> (r: Option<String>)
    ensures
        r.deep_view() == spec_between(body@, from_tag@, to_tag@),
{
    let _blen = body.unicode_len();
    match find(body, from_tag) {
        Option::None => None,
        Option::Some(i) => {
            proof {
                lemma_find_from_correct(body@, from_tag@, 0);
            }
            let rest = tail_from(body, i + from_tag.unicode_len());
            match find(rest.as_str(), to_tag) {
                Option::None => None,
                Option::Some(j) => {
                    proof {
                        lemma_find_from_correct(rest@, to_tag@, 0);
                    }
                    Some(head_to(rest.as_str(), j))
                },
            }
        },
    }
}

/// The suffix of the string starting at position `i`, as an owned string.
pub fn tail_from(s: &str, i: usize) -> (r: String)
    requires
        i <= s@.len(),
    ensures
        r@ == s@.subrange(i as int, s@.len() as int),
{
    let len = s.unicode_len();
    String::from_str(s.substring_char(i, len))
}

/// The prefix of the string up to position `j`, as an owned string.
pub fn head_to(s: &str, j: usize) -> (r: String)
    requires
        j <= s@.len(),
    ensures
        r@ == s@.subrange(0, j as int),
{
    String::from_str(s.substring_char(0, j))
}

} // verus!
