//! Post-processing pipeline for enumeration results: each record's
//! text field is split on newlines, every candidate is trimmed,
//! wildcard entries are dropped, and the remainder is unioned into a
//! duplicate-free collection keyed by exact case-sensitive equality.
use vstd::prelude::*;
use crate::text::{
    contains_char, lemma_push_contains, split_char, split_on, trim_spec, trim_str,
    vec_contains_string,
};

verus! {

/// The cleaned candidates of a list of raw pieces, in order: each piece
/// trimmed, wildcard entries dropped; duplicates are kept here.
pub open spec fn clean_pieces(pieces: Seq<Seq<char>>) -> Seq<Seq<char>>
    decreases pieces.len(),
{
    if pieces.len() == 0 {
        Seq::empty()
    } else {
        let rest = clean_pieces(pieces.drop_last());
        let t = trim_spec(pieces.last());
        if t.contains('*') {
            rest
        } else {
            rest.push(t)
        }
    }
}

/// The cleaned candidate names of one record's text field.
pub open spec fn clean_candidates(s: Seq<char>) -> Seq<Seq<char>> {
    clean_pieces(split_on(s, '\n'))
}

/// All cleaned candidates of all records, as a set: the union is
/// deduplicated by exact, case-sensitive string equality.
pub open spec fn subdomain_pool(records: Seq<Seq<char>>) -> Set<Seq<char>>
    decreases records.len(),
{
    if records.len() == 0 {
        Set::empty()
    } else {
        subdomain_pool(records.drop_last()).union(clean_candidates(records.last()).to_set())
    }
}

/// Splits one record's text field on newlines, trims each candidate,
/// and drops any candidate containing a wildcard.
pub fn clean_entry(s: &str) -> (r: Vec<String>)
    ensures
        r.deep_view() == clean_candidates(s@),
{
    let pieces = split_char(s, '\n');
    let mut out: Vec<String> = Vec::new();
    proof {
        assert(pieces.deep_view().take(0) =~= Seq::<Seq<char>>::empty());
    }
    let mut k: usize = 0;
    while k < pieces.len()
        invariant
            k <= pieces.len(),
            pieces.deep_view() == split_on(s@, '\n'),
            pieces.deep_view().len() == pieces@.len(),
            out.deep_view() == clean_pieces(pieces.deep_view().take(k as int)),
        decreases pieces.len() - k,
    {
        let t = trim_str(pieces[k].as_str());
        let ghost old_deep = out.deep_view();
        let keep = !contains_char(t, '*');
        if keep {
            out.push(t.to_owned());
        }
        proof {
            let pk = pieces.deep_view().take(k as int + 1);
            assert(pk.drop_last() =~= pieces.deep_view().take(k as int));
            assert(pk.last() == pieces.deep_view()[k as int]);
            assert(pieces.deep_view()[k as int] == pieces@[k as int]@);
            if keep {
                assert(out.deep_view() =~= old_deep.push(trim_spec(pieces@[k as int]@)));
            }
            assert(out.deep_view() =~~= clean_pieces(pk));
        }
        k = k + 1;
    }
    proof {
        assert(pieces.deep_view().take(pieces@.len() as int) =~= pieces.deep_view());
    }
    out
}

/// Cleans every record's text field and unions the candidates into one
/// duplicate-free collection; the order of the result is not
/// significant.
pub fn clean_subdomains(records: &Vec<String>) -> (r: Vec<String>)
    ensures
        r.deep_view().to_set() == subdomain_pool(records.deep_view()),
        forall|k1: int, k2: int|
            0 <= k1 < k2 < r.deep_view().len() ==> r.deep_view()[k1] != r.deep_view()[k2],
{
    let mut out: Vec<String> = Vec::new();
    proof {
        assert(subdomain_pool(records.deep_view().take(0)) =~= Set::<Seq<char>>::empty());
    }
    let mut i: usize = 0;
    while i < records.len()
        invariant
            i <= records.len(),
            records.deep_view().len() == records@.len(),
            forall|t: Seq<char>| #[trigger]
                out.deep_view().contains(t) <==> subdomain_pool(
                    records.deep_view().take(i as int),
                ).contains(t),
            forall|k1: int, k2: int|
                0 <= k1 < k2 < out.deep_view().len() ==> out.deep_view()[k1]
                    != out.deep_view()[k2],
        decreases records.len() - i,
    {
        let cands = clean_entry(records[i].as_str());
        proof {
            assert(records.deep_view()[i as int] == records@[i as int]@);
            assert(cands.deep_view().take(0) =~= Seq::<Seq<char>>::empty());
        }
        let mut j: usize = 0;
        while j < cands.len()
            invariant
                j <= cands.len(),
                i < records.len(),
                records.deep_view().len() == records@.len(),
                cands.deep_view() == clean_candidates(records.deep_view()[i as int]),
                cands.deep_view().len() == cands@.len(),
                forall|t: Seq<char>| #[trigger]
                    out.deep_view().contains(t) <==> (subdomain_pool(
                        records.deep_view().take(i as int),
                    ).contains(t) || cands.deep_view().take(j as int).contains(t)),
                forall|k1: int, k2: int|
                    0 <= k1 < k2 < out.deep_view().len() ==> out.deep_view()[k1]
                        != out.deep_view()[k2],
            decreases cands.len() - j,
        {
            let c = &cands[j];
            let ghost old_deep = out.deep_view();
            let fresh = !vec_contains_string(&out, c);
            if fresh {
                out.push(c.clone());
            }
            proof {
                assert(cands.deep_view()[j as int] == c@);
                assert(cands.deep_view().take(j as int + 1) =~= cands.deep_view().take(
                    j as int,
                ).push(c@));
                assert forall|t: Seq<char>|
                    #[trigger] cands.deep_view().take(j as int + 1).contains(t) <==> (
                    cands.deep_view().take(j as int).contains(t) || t == c@) by {
                    lemma_push_contains(cands.deep_view().take(j as int), c@, t);
                }
                if fresh {
                    assert(out.deep_view() =~= old_deep.push(c@));
                    assert forall|t: Seq<char>| #[trigger]
                        out.deep_view().contains(t) <==> (old_deep.contains(t) || t == c@) by {
                        lemma_push_contains(old_deep, c@, t);
                    }
                    assert(forall|k1: int|
                        0 <= k1 < old_deep.len() ==> old_deep[k1] != c@) by {
                        if exists|k1: int| 0 <= k1 < old_deep.len() && old_deep[k1] == c@ {
                            let k1 = choose|k1: int|
                                0 <= k1 < old_deep.len() && old_deep[k1] == c@;
                            assert(old_deep.contains(c@));
                        }
                    }
                } else {
                    assert(old_deep.contains(c@));
                }
            }
            j = j + 1;
        }
        proof {
            let rk = records.deep_view().take(i as int + 1);
            assert(rk.drop_last() =~= records.deep_view().take(i as int));
            assert(rk.last() == records.deep_view()[i as int]);
            assert(cands.deep_view().take(cands@.len() as int) =~= cands.deep_view());
        }
        i = i + 1;
    }
    proof {
        assert(records.deep_view().take(records@.len() as int) =~= records.deep_view());
        assert(out.deep_view().to_set() =~= subdomain_pool(records.deep_view()));
    }
    out
}

} // verus!
