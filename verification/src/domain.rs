//! Relaxed domain alignment: two domains align when they are equal or share
//! their organizational domain (the last two labels).

use vstd::prelude::*;

use crate::text::{chars_of, last_index_of, lemma_last_index_of, lemma_last_index_of_concat,
    rfind_before, str_eq};

verus! {

/// The organizational domain of `d`: everything after the second-to-last
/// dot, or all of `d` when it holds fewer than two dots.
pub open spec fn org_domain(d: Seq<char>) -> Seq<char> {
    match last_index_of(d, '.') {
        None => d,
        Some(last) => match last_index_of(d.take(last), '.') {
            None => d,
            Some(p) => d.skip(p + 1),
        },
    }
}

/// Two domains align when they are equal or have the same organizational
/// domain.
pub open spec fn domains_align_spec(a: Seq<char>, b: Seq<char>) -> bool {
    a == b || org_domain(a) == org_domain(b)
}

/// The organizational domain of `domain`, a suffix of it.
pub fn organizational_domain(domain: &str) -> (r: &str)
    ensures
        r@ == org_domain(domain@),
{
    let v = chars_of(domain);
    let last = match rfind_before(&v, v.len(), '.') {
        Some(pos) => pos,
        None => {
            assert(v@.take(v@.len() as int) =~= v@);
            return domain;
        },
    };
    assert(v@.take(v@.len() as int) =~= v@);
    proof {
        lemma_last_index_of(v@, '.');
    }
    let found = rfind_before(&v, last, '.');
    proof {
        lemma_last_index_of(v@.take(last as int), '.');
    }
    let second_last: usize = match found {
        Some(p) => p + 1,
        None => 0,
    };
    let r = domain.substring_char(second_last, v.len());
    assert(second_last == 0 ==> r@ =~= domain@);
    assert(r@ =~= domain@.skip(second_last as int));
    r
}

/// Whether two (already lower-cased) domains align.
pub fn domains_align(domain_a: &str, domain_b: &str) -> (r: bool)
    ensures
        r == domains_align_spec(domain_a@, domain_b@),
{
    if str_eq(domain_a, domain_b) {
        return true;
    }
    let org_a = organizational_domain(domain_a);
    let org_b = organizational_domain(domain_b);
    str_eq(org_a, org_b)
}

/// The organizational domain of a domain is one of its suffixes.
pub proof fn lemma_org_domain_is_suffix(d: Seq<char>)
    ensures
        org_domain(d).is_suffix_of(d),
{
    lemma_last_index_of(d, '.');
    if let Some(last) = last_index_of(d, '.') {
        lemma_last_index_of(d.take(last), '.');
        if let Some(p) = last_index_of(d.take(last), '.') {
            assert(d.skip(p + 1) =~= d.subrange(d.len() - d.skip(p + 1).len(), d.len() as int));
        }
    }
    assert(d =~= d.subrange(0, d.len() as int));
}

/// Taking the organizational domain twice changes nothing.
pub proof fn lemma_org_domain_idempotent(d: Seq<char>)
    ensures
        org_domain(org_domain(d)) == org_domain(d),
{
    lemma_last_index_of(d, '.');
    if let Some(last) = last_index_of(d, '.') {
        lemma_last_index_of(d.take(last), '.');
        if let Some(p) = last_index_of(d.take(last), '.') {
            let o = d.skip(p + 1);
            let head = d.take(p + 1);
            assert(d =~= head + o);
            lemma_last_index_of_concat(head, o, '.');
            lemma_last_index_of(o, '.');
            assert(o[last - p - 1] == '.');
            let i = last - p - 1;
            assert(last_index_of(o, '.') == Some(i));
            assert(d.take(last) =~= head + o.take(i));
            lemma_last_index_of_concat(head, o.take(i), '.');
            lemma_last_index_of(o.take(i), '.');
            assert(last_index_of(o.take(i), '.') is None);
        }
    }
}

/// Alignment is reflexive and symmetric.
pub proof fn lemma_domains_align_reflexive_symmetric(a: Seq<char>, b: Seq<char>)
    ensures
        domains_align_spec(a, a),
        domains_align_spec(a, b) == domains_align_spec(b, a),
{
}

/// A subdomain of a domain that has at least one dot aligns with it:
/// `label.example.com` aligns with `example.com`.
pub proof fn lemma_subdomain_aligns(label: Seq<char>, d: Seq<char>)
    requires
        d.contains('.'),
    ensures
        domains_align_spec(label + seq!['.'] + d, d),
        org_domain(label + seq!['.'] + d) == org_domain(d),
{
    let head = label + seq!['.'];
    let x = head + d;
    assert(label + seq!['.'] + d == x);
    lemma_last_index_of(d, '.');
    let k = choose|k: int| 0 <= k < d.len() && d[k] == '.';
    assert(d[k] == '.');
    let last = last_index_of(d, '.')->0;
    lemma_last_index_of_concat(head, d, '.');
    assert(last_index_of(x, '.') == Some(head.len() + last));
    assert(x.take(head.len() + last) =~= head + d.take(last));
    lemma_last_index_of_concat(head, d.take(last), '.');
    lemma_last_index_of(d.take(last), '.');
    match last_index_of(d.take(last), '.') {
        Some(q) => {
            assert(x.skip(head.len() + q + 1) =~= d.skip(q + 1));
        },
        None => {
            assert(head =~= label + seq!['.']);
            assert(head.last() == '.');
            assert(head.drop_last() =~= label);
            assert(last_index_of(head, '.') == Some(label.len() as int));
            assert(x.skip(label.len() + 1int) =~= d);
        },
    }
}

/// No two dots in `s`.
pub open spec fn at_most_one_dot(s: Seq<char>) -> bool {
    forall|i: int, j: int| 0 <= i < j < s.len() && s[i] == '.' ==> s[j] != '.'
}

/// The organizational domain is the longest suffix of the domain that holds
/// at most one dot: it is a suffix, it has at most one dot, and one more
/// character of the domain in front of it would make a second dot.
pub proof fn lemma_org_domain_longest_suffix_with_one_dot(d: Seq<char>)
    ensures
        org_domain(d).is_suffix_of(d),
        at_most_one_dot(org_domain(d)),
        org_domain(d).len() < d.len() ==> d[d.len() - org_domain(d).len() - 1] == '.',
        org_domain(d).len() < d.len() ==> !at_most_one_dot(
            d.skip(d.len() - org_domain(d).len() - 1),
        ),
{
    lemma_org_domain_is_suffix(d);
    lemma_last_index_of(d, '.');
    match last_index_of(d, '.') {
        None => {},
        Some(last) => {
            let t = d.take(last);
            lemma_last_index_of(t, '.');
            match last_index_of(t, '.') {
                None => {
                    assert forall|i: int, j: int|
                        0 <= i < j < d.len() && d[i] == '.' implies d[j] != '.' by {
                        if i < last {
                            assert(t[i] == d[i]);
                        }
                    }
                },
                Some(p) => {
                    let o = d.skip(p + 1);
                    assert(o.len() == d.len() - p - 1);
                    assert forall|i: int, j: int|
                        0 <= i < j < o.len() && o[i] == '.' implies o[j] != '.' by {
                        assert(o[i] == d[p + 1 + i]);
                        assert(o[j] == d[p + 1 + j]);
                        if p + 1 + i < last {
                            assert(t[p + 1 + i] == d[p + 1 + i]);
                        }
                    }
                    assert(t[p] == d[p]);
                    let e = d.skip(p);
                    assert(d.len() - o.len() - 1 == p);
                    assert(e[0] == '.');
                    assert(e[last - p] == d[last]);
                }
            }
        },
    }
}

/// Two domains align exactly when they are equal or their organizational
/// domains (longest suffixes with at most one dot) are equal; so
/// `example.com` and `example.net` do not align.
pub proof fn lemma_domains_align_meaning(a: Seq<char>, b: Seq<char>)
    ensures
        domains_align_spec(a, b) <==> (a == b || org_domain(a) == org_domain(b)),
{
}

/// A domain with at most one dot is its own organizational domain.
pub proof fn lemma_org_domain_of_short_domain(d: Seq<char>)
    requires
        at_most_one_dot(d),
    ensures
        org_domain(d) == d,
{
    lemma_org_domain_longest_suffix_with_one_dot(d);
    if org_domain(d).len() < d.len() {
        let k = d.len() - org_domain(d).len() - 1;
        let e = d.skip(k);
        assert forall|i: int, j: int| 0 <= i < j < e.len() && e[i] == '.' implies e[j] != '.' by {
            assert(e[i] == d[k + i]);
            assert(e[j] == d[k + j]);
        }
    }
    assert(org_domain(d).is_suffix_of(d));
    assert(org_domain(d) =~= d);
}

/// Different domains that each hold at most one dot never align: `example.com`
/// does not align with `example.net`, nor `example.com` with `other.com`.
pub proof fn lemma_distinct_registered_domains_do_not_align(a: Seq<char>, b: Seq<char>)
    requires
        at_most_one_dot(a),
        at_most_one_dot(b),
        a != b,
    ensures
        !domains_align_spec(a, b),
{
    lemma_org_domain_of_short_domain(a);
    lemma_org_domain_of_short_domain(b);
}

} // verus!
