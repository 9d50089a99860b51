//! Multi-substring heuristic classification: a policy is a list of
//! substring sets, and a text is positive when it contains every
//! substring of at least one set (a disjunction of conjunctions).
use vstd::prelude::*;
use crate::text::{contains_seq, contains_str};

verus! {

/// Every needle of the set occurs in the text.
pub open spec fn set_satisfied(needles: Seq<Seq<char>>, text: Seq<char>) -> bool {
    forall|j: int| 0 <= j < needles.len() ==> contains_seq(text, #[trigger] needles[j])
}

/// Some substring set of the policy is fully satisfied by the text.
pub open spec fn policy_match(policy: Seq<Seq<Seq<char>>>, text: Seq<char>) -> bool {
    exists|i: int| 0 <= i < policy.len() && #[trigger] set_satisfied(policy[i], text)
}

/// Classifies `text` against the policy: positive exactly when all
/// substrings of some one set occur in it.
pub fn heuristic_match(policy: &Vec<Vec<String>>, text: &str) -> (r: bool)
    ensures
        r == policy_match(policy.deep_view(), text@),
{
    let mut i: usize = 0;
    while i < policy.len()
        invariant
            i <= policy.len(),
            policy.deep_view().len() == policy@.len(),
            forall|i2: int| 0 <= i2 < i ==> !set_satisfied(#[trigger] policy.deep_view()[i2], text@),
        decreases policy.len() - i,
    {
        let needles = &policy[i];
        proof {
            assert(policy.deep_view()[i as int] == policy@[i as int].deep_view());
        }
        let mut j: usize = 0;
        let mut all = true;
        while j < needles.len()
            invariant
                j <= needles.len(),
                needles.deep_view().len() == needles@.len(),
                needles.deep_view() == policy@[i as int].deep_view(),
                all ==> forall|j2: int|
                    0 <= j2 < j ==> contains_seq(text@, #[trigger] needles.deep_view()[j2]),
                !all ==> !set_satisfied(needles.deep_view(), text@),
            ensures
                j <= needles.len(),
                all ==> forall|j2: int|
                    0 <= j2 < j ==> contains_seq(text@, #[trigger] needles.deep_view()[j2]),
                !all ==> !set_satisfied(needles.deep_view(), text@),
                all ==> j == needles.len(),
            decreases needles.len() - j,
        {
            if !contains_str(text, needles[j].as_str()) {
                proof {
                    assert(needles.deep_view()[j as int] == needles@[j as int]@);
                }
                all = false;
                break ;
            }
            proof {
                assert(needles.deep_view()[j as int] == needles@[j as int]@);
            }
            j = j + 1;
        }
        if all {
            proof {
                assert(set_satisfied(policy.deep_view()[i as int], text@));
            }
            return true;
        }
        i = i + 1;
    }
    proof {
        assert(!policy_match(policy.deep_view(), text@)) by {
            if policy_match(policy.deep_view(), text@) {
                let w = choose|w: int|
                    0 <= w < policy.deep_view().len() && #[trigger] set_satisfied(
                        policy.deep_view()[w],
                        text@,
                    );
                assert(!set_satisfied(policy.deep_view()[w], text@));
            }
        }
    }
    false
}

} // verus!
