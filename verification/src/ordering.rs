//! The order of names, and the first place where a list of names leaves it.
//!
//! Names are compared as strings are: character by character, by code point, a
//! proper prefix before the longer text.

use vstd::prelude::*;
use vstd::std_specs::iter::IteratorSpec;
use vstd::string::StringExecFns;

verus! {

/// `a` comes strictly before `b` in lexicographic order of the code points.
pub open spec fn precedes(a: Seq<char>, b: Seq<char>) -> bool
    decreases a.len(),
{
    if b.len() == 0 {
        false
    } else if a.len() == 0 {
        true
    } else if a[0] == b[0] {
        precedes(a.drop_first(), b.drop_first())
    } else {
        (a[0] as u32) < (b[0] as u32)
    }
}

/// No text comes before itself.
pub proof fn lemma_precedes_irreflexive(a: Seq<char>)
    ensures
        !precedes(a, a),
    decreases a.len(),
{
    if a.len() > 0 {
        lemma_precedes_irreflexive(a.drop_first());
    }
}

/// Of two different texts one comes before the other.
pub proof fn lemma_precedes_total(a: Seq<char>, b: Seq<char>)
    ensures
        a == b || precedes(a, b) || precedes(b, a),
    decreases a.len(),
{
    if a.len() == 0 || b.len() == 0 {
        if a.len() == 0 && b.len() == 0 {
            assert(a =~= b);
        }
    } else if a[0] == b[0] {
        lemma_precedes_total(a.drop_first(), b.drop_first());
        if a.drop_first() == b.drop_first() {
            assert(a =~= seq![a[0]] + a.drop_first());
            assert(b =~= seq![b[0]] + b.drop_first());
        }
    } else {
        vstd::utf8::char_u32_cast(a[0], a[0] as u32);
        vstd::utf8::char_u32_cast(b[0], b[0] as u32);
    }
}

/// What comes before a text comes before everything after it.
pub proof fn lemma_precedes_transitive(a: Seq<char>, b: Seq<char>, c: Seq<char>)
    requires
        precedes(a, b),
        precedes(b, c),
    ensures
        precedes(a, c),
    decreases a.len(),
{
    if a.len() > 0 && a[0] == b[0] && b[0] == c[0] {
        lemma_precedes_transitive(a.drop_first(), b.drop_first(), c.drop_first());
    }
}

/// If `a` comes before `b`, then `b` does not come before `a`.
pub proof fn lemma_precedes_asymmetric(a: Seq<char>, b: Seq<char>)
    requires
        precedes(a, b),
    ensures
        !precedes(b, a),
{
    if precedes(b, a) {
        lemma_precedes_transitive(a, b, a);
        lemma_precedes_irreflexive(a);
    }
}

/// What comes before `b` comes before everything that does not come before `b`.
pub proof fn lemma_precedes_below_bound(a: Seq<char>, b: Seq<char>, c: Seq<char>)
    requires
        precedes(a, b),
        !precedes(c, b),
    ensures
        precedes(a, c),
{
    lemma_precedes_total(b, c);
    if b != c {
        lemma_precedes_transitive(a, b, c);
    }
}

/// Tells whether `a` comes strictly before `b`.
pub fn text_precedes(a: &str, b: &str) -> (r: bool)
    ensures
        r == precedes(a@, b@),
{
    let mut left = a.chars();
    let mut right = b.chars();
    loop
        invariant
            precedes(a@, b@) == precedes(left.remaining(), right.remaining()),
            left.decrease() is Some,
        decreases left.decrease()->0,
    {
        let ghost left_before = left;
        let ghost right_before = right;
        let x = left.next();
        let y = right.next();
        proof {
            vstd::string::next_postcondition(&left_before, &left, x);
            vstd::string::next_postcondition(&right_before, &right, y);
        }
        match (x, y) {
            (_, None) => {
                return false;
            },
            (None, Some(_)) => {
                return true;
            },
            (Some(c), Some(d)) => {
                if c != d {
                    return (c as u32) < (d as u32);
                }
            },
        }
    }
}

/// Every name comes strictly before all the names after it.
pub open spec fn strictly_increasing(names: Seq<Seq<char>>) -> bool {
    forall|i: int, j: int| 0 <= i < j < names.len() ==> precedes(names[i], names[j])
}

/// Some name after `at` comes strictly before the name at `at`.
pub open spec fn descent_at(names: Seq<Seq<char>>, at: int) -> bool {
    exists|j: int| at < j < names.len() && precedes(#[trigger] names[j], names[at])
}

/// Some name after `at` is equal to the name at `at`.
pub open spec fn repeat_at(names: Seq<Seq<char>>, at: int) -> bool {
    exists|j: int| at < j < names.len() && #[trigger] names[j] == names[at]
}

/// No name is followed by a smaller one.
pub open spec fn never_descends(names: Seq<Seq<char>>) -> bool {
    forall|i: int| 0 <= i < names.len() ==> !descent_at(names, i)
}

/// `at` is the place that an error is reported at: the first place that is followed
/// by a strictly smaller name; or, where no name is followed by a smaller one, the
/// first place whose name comes again.
pub open spec fn first_break(names: Seq<Seq<char>>, at: int) -> bool {
    &&& 0 <= at < names.len()
    &&& if never_descends(names) {
        repeat_at(names, at) && forall|i: int| 0 <= i < at ==> !repeat_at(names, i)
    } else {
        descent_at(names, at) && forall|i: int| 0 <= i < at ==> !descent_at(names, i)
    }
}

/// Among the names from `from` on, the one at `least` is the smallest, and the first
/// of those that are equal to it.
pub open spec fn first_least(names: Seq<Seq<char>>, from: int, least: int) -> bool {
    &&& 0 <= from <= least < names.len()
    &&& forall|k: int| from <= k < names.len() ==> !precedes(names[k], names[least])
    &&& forall|k: int| from <= k < least ==> precedes(names[least], names[k])
}

/// The message of an order error.
pub open spec fn order_message(misplaced: Seq<char>, before: Seq<char>) -> Seq<char> {
    misplaced + " should sort before "@ + before
}

/// A break of the order: the name at `misplaced` belongs where the name at `before`
/// stands, or is the same name once more.
#[derive(Debug, PartialEq, Eq)]
pub struct OrderError {
    /// The index of the name that stands too late.
    pub misplaced: usize,
    /// The index of the name that the misplaced one should stand before.
    pub before: usize,
    /// `<misplaced name> should sort before <name at before>`.
    pub message: String,
}

/// What `check_order` owes for `names`: nothing to report exactly where the names
/// are strictly increasing; otherwise the place of the break, the first smallest
/// name after it, and the message about the two.
pub open spec fn order_checked(names: Seq<Seq<char>>, result: Result<(), OrderError>) -> bool {
    match result {
        Ok(_) => strictly_increasing(names),
        Err(error) => {
            &&& first_break(names, error.before as int)
            &&& first_least(names, error.before + 1, error.misplaced as int)
            &&& error.message@ == order_message(
                names[error.misplaced as int],
                names[error.before as int],
            )
        },
    }
}

/// An order error is reported only for names that are not strictly increasing.
pub proof fn lemma_error_means_disorder(names: Seq<Seq<char>>, at: int)
    requires
        first_break(names, at),
    ensures
        !strictly_increasing(names),
{
    if never_descends(names) {
        let j = choose|j: int| at < j < names.len() && #[trigger] names[j] == names[at];
        lemma_precedes_irreflexive(names[at]);
        assert(!precedes(names[at], names[j]));
    } else {
        let j = choose|j: int| at < j < names.len() && precedes(#[trigger] names[j], names[at]);
        lemma_precedes_asymmetric(names[j], names[at]);
        assert(!precedes(names[at], names[j]));
    }
}

/// In `X should sort before Y`, Y is written before X, and X is not greater than Y.
/// Where some name is followed by a smaller one, X is strictly smaller than Y. Only
/// where none is are X and Y equal, and then X is the name right after Y.
pub proof fn lemma_reported_pair(names: Seq<Seq<char>>, before: int, misplaced: int)
    requires
        first_break(names, before),
        first_least(names, before + 1, misplaced),
    ensures
        before < misplaced,
        !precedes(names[before], names[misplaced]),
        !never_descends(names) ==> precedes(names[misplaced], names[before]),
        never_descends(names) ==> names[misplaced] == names[before] && misplaced == before + 1,
{
    if never_descends(names) {
        let j = choose|j: int| before < j < names.len() && #[trigger] names[j] == names[before];
        assert(!descent_at(names, before));
        assert(!precedes(names[misplaced], names[before]));
        assert(!precedes(names[j], names[misplaced]));
        lemma_precedes_total(names[misplaced], names[before]);
        lemma_precedes_irreflexive(names[before]);
        if misplaced > before + 1 {
            assert(!descent_at(names, before + 1));
            assert(precedes(names[misplaced], names[before + 1]));
        }
    } else {
        let j = choose|j: int|
            before < j < names.len() && precedes(#[trigger] names[j], names[before]);
        lemma_precedes_total(names[misplaced], names[j]);
        if names[misplaced] != names[j] {
            lemma_precedes_transitive(names[misplaced], names[j], names[before]);
        }
        lemma_precedes_asymmetric(names[misplaced], names[before]);
    }
}

/// What is reported is determined by the names: there is one place of the break
/// and one first smallest name after it.
pub proof fn lemma_order_error_is_unique(
    names: Seq<Seq<char>>,
    before_a: int,
    misplaced_a: int,
    before_b: int,
    misplaced_b: int,
)
    requires
        first_break(names, before_a),
        first_least(names, before_a + 1, misplaced_a),
        first_break(names, before_b),
        first_least(names, before_b + 1, misplaced_b),
    ensures
        before_a == before_b,
        misplaced_a == misplaced_b,
{
    if before_a < before_b {
        assert(!descent_at(names, before_a) || !repeat_at(names, before_a));
    }
    if before_b < before_a {
        assert(!descent_at(names, before_b) || !repeat_at(names, before_b));
    }
    if misplaced_a < misplaced_b {
        assert(precedes(names[misplaced_b], names[misplaced_a]));
    }
    if misplaced_b < misplaced_a {
        assert(precedes(names[misplaced_a], names[misplaced_b]));
    }
}

/// For each place, the index of the first smallest name from there on.
fn suffix_least(names: &Vec<String>) -> (least: Vec<usize>)
    ensures
        least.len() == names.len(),
        forall|k: int| 0 <= k < names.len() ==> first_least(names.deep_view(), k, least@[k] as int),
{
    let ghost texts = names.deep_view();
    let len = names.len();
    let mut least: Vec<usize> = Vec::new();
    let mut filled: usize = 0;
    while filled < len
        invariant
            filled <= len,
            least.len() == filled,
        decreases len - filled,
    {
        least.push(0);
        filled += 1;
    }
    let mut k: usize = len;
    while k > 0
        invariant
            k <= len,
            len == names.len(),
            least.len() == len,
            texts == names.deep_view(),
            forall|m: int| k <= m < len ==> first_least(texts, m, least@[m] as int),
        decreases k,
    {
        k -= 1;
        assert(texts[k as int] == names@[k as int]@);
        if k + 1 == len {
            least.set(k, k);
            proof {
                lemma_precedes_irreflexive(texts[k as int]);
            }
        } else {
            let rest = least[k + 1];
            assert(first_least(texts, k + 1, rest as int));
            assert(texts[rest as int] == names@[rest as int]@);
            if text_precedes(names[rest].as_str(), names[k].as_str()) {
                least.set(k, rest);
                proof {
                    lemma_precedes_asymmetric(texts[rest as int], texts[k as int]);
                }
            } else {
                least.set(k, k);
                proof {
                    lemma_precedes_irreflexive(texts[k as int]);
                    assert forall|m: int| k <= m < len implies !precedes(
                        texts[m],
                        texts[k as int],
                    ) by {
                        if m > k && precedes(texts[m], texts[k as int]) {
                            lemma_precedes_below_bound(
                                texts[m],
                                texts[k as int],
                                texts[rest as int],
                            );
                        }
                    }
                }
            }
        }
    }
    least
}

/// Checks that `names` are strictly increasing.
///
/// Where a name is followed by a smaller one, the error is about the first such
/// place and the smallest of the names after it: that one stands too late. Where
/// the names only fail to increase because one is written twice, the error is about
/// the first name that comes again and its repetition right after it.
pub fn check_order(names: &Vec<String>) -> (r: Result<(), OrderError>)
    ensures
        order_checked(names.deep_view(), r),
{
    let ghost texts = names.deep_view();
    let len = names.len();
    let least = suffix_least(names);
    let mut i: usize = 0;
    while len - i > 1
        invariant
            i <= len,
            len == names.len(),
            least.len() == len,
            texts == names.deep_view(),
            forall|k: int| 0 <= k < len ==> first_least(texts, k, least@[k] as int),
            forall|k: int| 0 <= k < i ==> !descent_at(texts, k),
        decreases len - i,
    {
        let next = least[i + 1];
        assert(first_least(texts, i + 1, next as int));
        assert(texts[next as int] == names@[next as int]@);
        assert(texts[i as int] == names@[i as int]@);
        if text_precedes(names[next].as_str(), names[i].as_str()) {
            let message = names[next].clone().concat(" should sort before ").concat(
                names[i].as_str(),
            );
            assert(descent_at(texts, i as int));
            return Err(OrderError { misplaced: next, before: i, message });
        }
        proof {
            assert forall|j: int| i < j < len implies !precedes(
                #[trigger] texts[j],
                texts[i as int],
            ) by {
                if precedes(texts[j], texts[i as int]) {
                    lemma_precedes_below_bound(texts[j], texts[i as int], texts[next as int]);
                }
            }
        }
        i += 1;
    }
    assert(never_descends(texts));
    let mut j: usize = 0;
    while len - j > 1
        invariant
            j <= len,
            len == names.len(),
            texts == names.deep_view(),
            never_descends(texts),
            forall|k: int| 0 <= k < j ==> !repeat_at(texts, k),
        decreases len - j,
    {
        assert(texts[j as int] == names@[j as int]@);
        assert(texts[j + 1] == names@[j + 1]@);
        assert(!descent_at(texts, j as int));
        assert(!descent_at(texts, j + 1));
        if names[j] == names[j + 1] {
            let message = names[j + 1].clone().concat(" should sort before ").concat(
                names[j].as_str(),
            );
            assert(repeat_at(texts, j as int));
            return Err(OrderError { misplaced: j + 1, before: j, message });
        }
        proof {
            assert(!precedes(texts[j + 1], texts[j as int]));
            lemma_precedes_total(texts[j as int], texts[j + 1]);
            assert forall|m: int| j < m < len implies #[trigger] texts[m] != texts[j as int] by {
                if m > j + 1 {
                    assert(!precedes(texts[m], texts[j + 1]));
                }
            }
        }
        j += 1;
    }
    proof {
        assert forall|a: int, b: int| 0 <= a < b < len implies precedes(texts[a], texts[b]) by {
            assert(!descent_at(texts, a));
            assert(!repeat_at(texts, a));
            assert(!precedes(texts[b], texts[a]));
            assert(texts[b] != texts[a]);
            lemma_precedes_total(texts[a], texts[b]);
        }
    }
    Ok(())
}

} // verus!
