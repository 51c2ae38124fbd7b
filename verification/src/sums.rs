//! Sums over all quests, and over what the host was asked to do.

use vstd::prelude::*;
use vstd::seq_lib::seq_to_set_is_finite;
use vstd::set_lib::{lemma_int_range, lemma_subset_equality, set_int_range};

use crate::model::{Step, World};

verus! {

/// The sum of a quantity over the quests with an id below `end`.
pub open spec fn sum_below(quantity: spec_fn(u32) -> int, end: nat) -> int
    decreases end,
{
    if end == 0 {
        0
    } else {
        sum_below(quantity, (end - 1) as nat) + quantity((end - 1) as u32)
    }
}

/// The sum of a quantity over all quests.
pub open spec fn over_quests(quantity: spec_fn(u32) -> int) -> int {
    sum_below(quantity, 0x1_0000_0000)
}

/// The tokens in all pools together.
pub open spec fn pools(w: World) -> int {
    over_quests(|quest_id: u32| w.pool(quest_id) as int)
}

/// What was distributed for all quests together.
pub open spec fn payouts(w: World) -> int {
    over_quests(|quest_id: u32| w.distributed(quest_id) as int)
}

/// The number of quests that have an authority.
pub open spec fn funded_quests(w: World) -> int {
    over_quests(
        |quest_id: u32|
            if w.authority(quest_id) is Some {
                1int
            } else {
                0
            },
    )
}

proof fn lemma_sum_below_change(f: spec_fn(u32) -> int, g: spec_fn(u32) -> int, at: u32, end: nat)
    requires
        end <= 0x1_0000_0000,
        forall|id: u32| id != at ==> #[trigger] f(id) == g(id),
    ensures
        sum_below(g, end) == sum_below(f, end) + (if at < end {
            g(at) - f(at)
        } else {
            0
        }),
    decreases end,
{
    if end > 0 {
        lemma_sum_below_change(f, g, at, (end - 1) as nat);
        let last = (end - 1) as u32;
        assert(last != at ==> f(last) == g(last));
    }
}

/// Where a quantity changes for one quest only, its sum changes by as much.
pub proof fn lemma_sum_change(f: spec_fn(u32) -> int, g: spec_fn(u32) -> int, at: u32)
    requires
        forall|id: u32| id != at ==> #[trigger] f(id) == g(id),
    ensures
        over_quests(g) == over_quests(f) + g(at) - f(at),
{
    lemma_sum_below_change(f, g, at, 0x1_0000_0000);
}

proof fn lemma_sum_below_least(f: spec_fn(u32) -> int, at: u32, end: nat)
    requires
        end <= 0x1_0000_0000,
        forall|id: u32| 0 <= #[trigger] f(id),
    ensures
        sum_below(f, end) >= 0,
        at < end ==> sum_below(f, end) >= f(at),
    decreases end,
{
    if end > 0 {
        lemma_sum_below_least(f, at, (end - 1) as nat);
        assert(0 <= f((end - 1) as u32));
    }
}

/// The sum of a quantity that is never negative is no less than any part of it.
pub proof fn lemma_sum_least(f: spec_fn(u32) -> int, at: u32)
    requires
        forall|id: u32| 0 <= #[trigger] f(id),
    ensures
        over_quests(f) >= f(at),
        over_quests(f) >= 0,
{
    lemma_sum_below_least(f, at, 0x1_0000_0000);
}

proof fn lemma_sum_below_zero(f: spec_fn(u32) -> int, end: nat)
    requires
        end <= 0x1_0000_0000,
        forall|id: u32| #[trigger] f(id) == 0,
    ensures
        sum_below(f, end) == 0,
    decreases end,
{
    if end > 0 {
        lemma_sum_below_zero(f, (end - 1) as nat);
        assert(f((end - 1) as u32) == 0);
    }
}

/// The sum of nothing is 0.
pub proof fn lemma_sum_zero(f: spec_fn(u32) -> int)
    requires
        forall|id: u32| #[trigger] f(id) == 0,
    ensures
        over_quests(f) == 0,
{
    lemma_sum_below_zero(f, 0x1_0000_0000);
}

/// The sum of a quantity over a finite set.
pub open spec fn sum_over<A>(set: Set<A>, quantity: spec_fn(A) -> int) -> int
    decreases set.len(),
{
    if set.finite() && set.len() > 0 {
        let a = set.choose();
        quantity(a) + sum_over(set.remove(a), quantity)
    } else {
        0
    }
}

/// Any item can be taken out of a sum.
pub proof fn lemma_sum_over_remove<A>(set: Set<A>, quantity: spec_fn(A) -> int, a: A)
    requires
        set.finite(),
        set.contains(a),
    ensures
        sum_over(set, quantity) == quantity(a) + sum_over(set.remove(a), quantity),
    decreases set.len(),
{
    let c = set.choose();
    if a != c {
        lemma_sum_over_remove(set.remove(c), quantity, a);
        lemma_sum_over_remove(set.remove(a), quantity, c);
        assert(set.remove(c).remove(a) =~= set.remove(a).remove(c));
    }
}

/// Two quantities that agree on a set have the same sum over it.
pub proof fn lemma_sum_over_same<A>(set: Set<A>, f: spec_fn(A) -> int, g: spec_fn(A) -> int)
    requires
        set.finite(),
        forall|a: A| set.contains(a) ==> #[trigger] f(a) == g(a),
    ensures
        sum_over(set, f) == sum_over(set, g),
    decreases set.len(),
{
    if set.len() > 0 {
        let c = set.choose();
        assert(f(c) == g(c));
        lemma_sum_over_same(set.remove(c), f, g);
    }
}

/// The users who have earned something.
pub open spec fn earners(w: World) -> Set<Seq<u8>> {
    Set::new(|user: Seq<u8>| w.earnings(user) != 0)
}

/// What all users earned together: those who earned nothing add nothing.
pub open spec fn earned(w: World) -> int {
    sum_over(earners(w), |user: Seq<u8>| w.earnings(user) as int)
}

/// The sum of a quantity along the first items of a sequence.
pub open spec fn sum_along(items: Seq<int>, quantity: spec_fn(int) -> int, count: nat) -> int
    decreases count,
{
    if count == 0 {
        0
    } else {
        sum_along(items, quantity, (count - 1) as nat) + quantity(items[count - 1])
    }
}

/// Whether a sequence names each of the first numbers once.
pub open spec fn rearranges(order: Seq<int>, count: nat) -> bool {
    &&& order.len() == count
    &&& order.no_duplicates()
    &&& forall|i: int| 0 <= i < count ==> 0 <= #[trigger] order[i] < count
}

proof fn lemma_sum_along_set(order: Seq<int>, quantity: spec_fn(int) -> int, count: nat)
    requires
        count <= order.len(),
        order.no_duplicates(),
    ensures
        order.take(count as int).to_set().finite(),
        sum_along(order, quantity, count) == sum_over(
            order.take(count as int).to_set(),
            quantity,
        ),
    decreases count,
{
    let set = order.take(count as int).to_set();
    seq_to_set_is_finite(order.take(count as int));
    if count == 0 {
        assert(set =~= Set::empty());
    } else {
        let last = order[count - 1];
        let shorter = order.take(count - 1);
        lemma_sum_along_set(order, quantity, (count - 1) as nat);
        assert(order.take(count as int)[count - 1] == last);
        assert(set.contains(last));
        assert forall|a: int| set.remove(last).contains(a) <==> #[trigger] shorter.to_set().contains(
            a,
        ) by {
            if set.remove(last).contains(a) {
                let i = choose|i: int| 0 <= i < count && order.take(count as int)[i] == a;
                assert(shorter[i] == a);
            }
            if shorter.to_set().contains(a) {
                let i = choose|i: int| 0 <= i < count - 1 && shorter[i] == a;
                assert(order.take(count as int)[i] == a);
                assert(order[i] != order[count - 1]);
            }
        }
        assert(set.remove(last) =~= shorter.to_set());
        lemma_sum_over_remove(set, quantity, last);
    }
}

/// The order in which the first numbers are taken does not change a sum over
/// them.
pub proof fn lemma_sum_rearranged(
    one: Seq<int>,
    other: Seq<int>,
    quantity: spec_fn(int) -> int,
    count: nat,
)
    requires
        rearranges(one, count),
        rearranges(other, count),
    ensures
        sum_along(one, quantity, count) == sum_along(other, quantity, count),
{
    lemma_rearranged_set(one, count);
    lemma_rearranged_set(other, count);
    assert(one.take(count as int) =~= one);
    assert(other.take(count as int) =~= other);
    lemma_sum_along_set(one, quantity, count);
    lemma_sum_along_set(other, quantity, count);
}

/// A sequence that names each of the first numbers once leaves none out.
pub proof fn lemma_rearranged_set(order: Seq<int>, count: nat)
    requires
        rearranges(order, count),
    ensures
        order.to_set() == set_int_range(0, count as int),
{
    lemma_int_range(0, count as int);
    order.unique_seq_to_set();
    assert(order.to_set().subset_of(set_int_range(0, count as int)));
    lemma_subset_equality(order.to_set(), set_int_range(0, count as int));
}

/// What a move of tokens brings to an address, less what it takes from it.
pub open spec fn payment_flow(amount: int, from: Seq<u8>, to: Seq<u8>, who: Seq<u8>) -> int {
    (if to == who {
        amount
    } else {
        0
    }) - (if from == who {
        amount
    } else {
        0
    })
}

/// What a step brings to an address, less what it takes from it.
pub open spec fn flow(step: Step, own: Seq<u8>) -> int {
    match step {
        Step::Transferred { token, from, to, amount } => {
            payment_flow(amount as int, from, to, own)
        },
        _ => 0,
    }
}

/// What all steps brought to an address, less what they took from it.
pub open spec fn held(steps: Seq<Step>, own: Seq<u8>) -> int
    decreases steps.len(),
{
    if steps.len() == 0 {
        0
    } else {
        held(steps.drop_last(), own) + flow(steps.last(), own)
    }
}

/// One more step adds what it brings.
pub broadcast proof fn lemma_held_push(steps: Seq<Step>, step: Step, own: Seq<u8>)
    ensures
        #[trigger] held(steps.push(step), own) == held(steps, own) + flow(step, own),
{
    assert(steps.push(step).drop_last() =~= steps);
}

} // verus!
