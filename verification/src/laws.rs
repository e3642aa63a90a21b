//! Laws of the registry: properties that hold of every input and every
//! sequence of transitions, stated over the spec-level transitions of
//! `registry` and proved once for all values.

use crate::ledger::AccountBalance;
use crate::ledger::free_of;
use crate::ledger::ledger_wf;
use crate::ledger::reserved_of;
use crate::registry::Error;
use crate::registry::PalletView;
use crate::registry::TagModel;
use crate::registry::create_tag_spec;
use crate::registry::destroy_tag_spec;
use crate::registry::indices_live_below_counter;
use crate::registry::pallet_wf;
use vstd::prelude::*;

verus! {

/// One registry transition, as some caller would request it.
pub ghost enum RegistryOp {
    Create { who: u64, name: Seq<u8> },
    Destroy { who: u64, index: u64 },
}

/// The state after one transition, whether it succeeded or failed.
pub open spec fn apply_op(
    r: PalletView,
    l: Map<u64, AccountBalance>,
    op: RegistryOp,
) -> (PalletView, Map<u64, AccountBalance>) {
    match op {
        RegistryOp::Create { who, name } => {
            let step = create_tag_spec(r, l, who, name);
            (step.0, step.1)
        },
        RegistryOp::Destroy { who, index } => {
            let step = destroy_tag_spec(r, l, who, index);
            (step.0, step.1)
        },
    }
}

/// The state after a whole sequence of transitions, applied oldest first.
pub open spec fn apply_ops(
    r: PalletView,
    l: Map<u64, AccountBalance>,
    ops: Seq<RegistryOp>,
) -> (PalletView, Map<u64, AccountBalance>)
    decreases ops.len(),
{
    if ops.len() == 0 {
        (r, l)
    } else {
        let next = apply_op(r, l, ops.first());
        apply_ops(next.0, next.1, ops.drop_first())
    }
}

/// No single transition ever decreases the index counter.
pub proof fn lemma_op_keeps_counter(r: PalletView, l: Map<u64, AccountBalance>, op: RegistryOp)
    ensures
        apply_op(r, l, op).0.tag_index >= r.tag_index,
{
}

/// Over any sequence of transitions the index counter never decreases:
/// destroying a tag in particular never hands its index back.
pub proof fn lemma_ops_keep_counter(
    r: PalletView,
    l: Map<u64, AccountBalance>,
    ops: Seq<RegistryOp>,
)
    ensures
        apply_ops(r, l, ops).0.tag_index >= r.tag_index,
    decreases ops.len(),
{
    if ops.len() != 0 {
        let next = apply_op(r, l, ops.first());
        lemma_op_keeps_counter(r, l, ops.first());
        lemma_ops_keep_counter(next.0, next.1, ops.drop_first());
    }
}

/// A successful creation consumes exactly one index: it returns the old
/// counter value, advances the counter by exactly one, and stores a tag
/// owned by the caller with the deposit configured at call time, while
/// moving exactly that deposit from the caller's free balance into
/// reservation.
pub proof fn lemma_create_tag_success(
    r0: PalletView,
    l0: Map<u64, AccountBalance>,
    who: u64,
    name: Seq<u8>,
)
    requires
        ledger_wf(l0),
    ensures
        ({
            let step = create_tag_spec(r0, l0, who, name);
            let deposit = r0.config.tag_deposit_amount;
            step.2 is Ok ==> {
                &&& step.2->Ok_0 == r0.tag_index
                &&& step.0.tag_index == r0.tag_index + 1
                &&& step.0.tags.contains_key(r0.tag_index)
                &&& step.0.tags[r0.tag_index] == (TagModel { name, owner: who, deposit })
                &&& free_of(step.1, who) == free_of(l0, who) - deposit
                &&& reserved_of(step.1, who) == reserved_of(l0, who) + deposit
            }
        }),
{
}

/// A successful destruction removes exactly the destroyed tag, keeps the
/// counter where it was, and gives the caller back exactly the recorded
/// deposit — in full, provided the caller's reservation covers it, as it
/// always does when every reservation was taken by `create_tag`.
pub proof fn lemma_destroy_tag_success(
    r0: PalletView,
    l0: Map<u64, AccountBalance>,
    who: u64,
    index: u64,
)
    requires
        ledger_wf(l0),
        destroy_tag_spec(r0, l0, who, index).2 is Ok,
        reserved_of(l0, who) >= r0.tags[index].deposit,
    ensures
        ({
            let step = destroy_tag_spec(r0, l0, who, index);
            let deposit = r0.tags[index].deposit;
            &&& step.0.tags == r0.tags.remove(index)
            &&& step.0.tag_index == r0.tag_index
            &&& free_of(step.1, who) == free_of(l0, who) + deposit
            &&& reserved_of(step.1, who) == reserved_of(l0, who) - deposit
        }),
{
}

/// An index is never assigned twice: when a creation succeeds and returns
/// index `i`, no later successful creation returns `i` again, whatever
/// transitions run in between — including one that destroys the tag at `i`.
pub proof fn lemma_index_never_reassigned(
    r0: PalletView,
    l0: Map<u64, AccountBalance>,
    who1: u64,
    name1: Seq<u8>,
    ops: Seq<RegistryOp>,
    who2: u64,
    name2: Seq<u8>,
)
    ensures
        ({
            let first = create_tag_spec(r0, l0, who1, name1);
            let mid = apply_ops(first.0, first.1, ops);
            let second = create_tag_spec(mid.0, mid.1, who2, name2);
            first.2 is Ok && second.2 is Ok ==> second.2->Ok_0 != first.2->Ok_0
                && second.2->Ok_0 > first.2->Ok_0
        }),
{
    let first = create_tag_spec(r0, l0, who1, name1);
    if first.2 is Ok {
        lemma_ops_keep_counter(first.0, first.1, ops);
    }
}

/// Round trip: creating a tag and immediately destroying it succeeds,
/// restores the caller's spendable and reserved balances exactly, puts the
/// tag store back as it was, and leaves the index vacant.
pub proof fn lemma_create_then_destroy_round_trip(
    r0: PalletView,
    l0: Map<u64, AccountBalance>,
    who: u64,
    name: Seq<u8>,
)
    requires
        pallet_wf(r0),
        ledger_wf(l0),
        create_tag_spec(r0, l0, who, name).2 is Ok,
    ensures
        ({
            let first = create_tag_spec(r0, l0, who, name);
            let second = destroy_tag_spec(first.0, first.1, who, first.2->Ok_0);
            &&& second.2 is Ok
            &&& !second.0.tags.contains_key(first.2->Ok_0)
            &&& second.0.tags == r0.tags
            &&& free_of(second.1, who) == free_of(l0, who)
            &&& reserved_of(second.1, who) == reserved_of(l0, who)
        }),
{
    let first = create_tag_spec(r0, l0, who, name);
    let index = first.2->Ok_0;
    let second = destroy_tag_spec(first.0, first.1, who, index);
    assert(!r0.tags.contains_key(index));
    assert(second.0.tags =~= r0.tags);
}

/// Idempotence of failure: after a destroy of an index — successful, or
/// itself already failed with `InvalidTag` — a second destroy of the same
/// index fails with `InvalidTag`, whoever calls it.
pub proof fn lemma_destroy_twice(
    r0: PalletView,
    l0: Map<u64, AccountBalance>,
    who1: u64,
    who2: u64,
    index: u64,
)
    ensures
        ({
            let first = destroy_tag_spec(r0, l0, who1, index);
            let second = destroy_tag_spec(first.0, first.1, who2, index);
            first.2 is Ok || first.2 == Err::<(), Error>(Error::InvalidTag) ==> second.2 == Err::<
                (),
                Error,
            >(Error::InvalidTag)
        }),
{
}

/// An unauthorized destroy mutates nothing: when the tag at `index` exists
/// and is not owned by `who`, the destroy fails with `NotAllowed`, the
/// stored tag is untouched, and every account's balance — the owner's and
/// the caller's included — is unchanged.
pub proof fn lemma_unauthorized_destroy_is_harmless(
    r0: PalletView,
    l0: Map<u64, AccountBalance>,
    who: u64,
    index: u64,
)
    requires
        r0.tags.contains_key(index),
        r0.tags[index].owner != who,
    ensures
        destroy_tag_spec(r0, l0, who, index) == (r0, l0, Err::<(), Error>(Error::NotAllowed)),
{
}

/// What one stored tag contributes to the reservation `who` must hold.
pub open spec fn deposit_toward(t: TagModel, who: u64) -> int {
    if t.owner == who {
        t.deposit as int
    } else {
        0
    }
}

/// The sum of the deposits recorded on the live tags that `who` owns.
pub open spec fn deposits_of(tags: Map<u64, TagModel>, who: u64) -> int
    decreases tags.dom().len(),
    when tags.dom().finite()
{
    if tags.dom().len() == 0 {
        0
    } else {
        let i = tags.dom().choose();
        deposit_toward(tags[i], who) + deposits_of(tags.remove(i), who)
    }
}

/// The sum of deposits is a sum of non-negative contributions.
proof fn lemma_deposits_of_nonneg(tags: Map<u64, TagModel>, who: u64)
    requires
        tags.dom().finite(),
    ensures
        deposits_of(tags, who) >= 0,
    decreases tags.dom().len(),
{
    if tags.dom().len() != 0 {
        lemma_deposits_of_nonneg(tags.remove(tags.dom().choose()), who);
    }
}

/// Taking one live tag out of the map takes exactly its contribution out of
/// the sum.
proof fn lemma_deposits_of_remove(tags: Map<u64, TagModel>, who: u64, i: u64)
    requires
        tags.dom().finite(),
        tags.contains_key(i),
    ensures
        deposits_of(tags, who) == deposit_toward(tags[i], who) + deposits_of(
            tags.remove(i),
            who,
        ),
    decreases tags.dom().len(),
{
    let j = tags.dom().choose();
    assert(tags.dom().contains(j));
    if j != i {
        let mj = tags.remove(j);
        let mi = tags.remove(i);
        lemma_deposits_of_remove(mj, who, i);
        lemma_deposits_of_remove(mi, who, j);
        assert(mj.remove(i) =~= mi.remove(j));
    }
}

/// Putting a tag in at a fresh index puts exactly its contribution into the
/// sum.
proof fn lemma_deposits_of_insert(tags: Map<u64, TagModel>, who: u64, i: u64, t: TagModel)
    requires
        tags.dom().finite(),
        !tags.contains_key(i),
    ensures
        deposits_of(tags.insert(i, t), who) == deposits_of(tags, who) + deposit_toward(t, who),
{
    lemma_deposits_of_remove(tags.insert(i, t), who, i);
    assert(tags.insert(i, t).remove(i) =~= tags);
}

/// The deposit coupling: account by account, the ledger holds in reservation
/// at least the sum of the deposits recorded on the live tags that account
/// owns — so a destruction can always release its tag's deposit in full.
pub open spec fn deposits_covered(r: PalletView, l: Map<u64, AccountBalance>) -> bool {
    &&& r.tags.dom().finite()
    &&& forall|who: u64| #[trigger] deposits_of(r.tags, who) <= reserved_of(l, who)
}

/// A registry with no tags is covered by any ledger: nothing is owed yet.
pub proof fn lemma_empty_registry_is_covered(r: PalletView, l: Map<u64, AccountBalance>)
    requires
        r.tags == Map::<u64, TagModel>::empty(),
    ensures
        deposits_covered(r, l),
{
    assert(r.tags.dom() =~= Set::<u64>::empty());
    assert forall|who: u64| #[trigger] deposits_of(r.tags, who) <= reserved_of(l, who) by {
        assert(deposits_of(r.tags, who) == 0);
    };
}

/// One transition keeps the deposit coupling, along with the index
/// allocation invariant and the ledger's well-formedness.
pub proof fn lemma_op_preserves_coverage(
    r: PalletView,
    l: Map<u64, AccountBalance>,
    op: RegistryOp,
)
    requires
        indices_live_below_counter(r),
        ledger_wf(l),
        deposits_covered(r, l),
    ensures
        ({
            let next = apply_op(r, l, op);
            &&& indices_live_below_counter(next.0)
            &&& ledger_wf(next.1)
            &&& deposits_covered(next.0, next.1)
        }),
{
    match op {
        RegistryOp::Create { who, name } => {
            let step = create_tag_spec(r, l, who, name);
            if step.2 is Ok {
                let deposit = r.config.tag_deposit_amount;
                let index = r.tag_index;
                let t = TagModel { name, owner: who, deposit };
                assert(!r.tags.contains_key(index));
                assert forall|i: u64| #[trigger] step.0.tags.contains_key(i) implies i
                    < step.0.tag_index by {
                    if i != index {
                        assert(r.tags.contains_key(i));
                    }
                };
                assert forall|a: u64| #[trigger] step.1.contains_key(a) implies step.1[a].free
                    + step.1[a].reserved <= u64::MAX by {
                    if a != who {
                        assert(l.contains_key(a));
                    }
                };
                assert forall|w: u64| #[trigger] deposits_of(step.0.tags, w) <= reserved_of(
                    step.1,
                    w,
                ) by {
                    lemma_deposits_of_insert(r.tags, w, index, t);
                };
            }
        },
        RegistryOp::Destroy { who, index } => {
            let step = destroy_tag_spec(r, l, who, index);
            if step.2 is Ok {
                let deposit = r.tags[index].deposit;
                lemma_deposits_of_remove(r.tags, who, index);
                lemma_deposits_of_nonneg(r.tags.remove(index), who);
                assert(reserved_of(l, who) >= deposit);
                assert forall|a: u64| #[trigger] step.1.contains_key(a) implies step.1[a].free
                    + step.1[a].reserved <= u64::MAX by {
                    if a != who {
                        assert(l.contains_key(a));
                    }
                };
                assert forall|w: u64| #[trigger] deposits_of(step.0.tags, w) <= reserved_of(
                    step.1,
                    w,
                ) by {
                    lemma_deposits_of_remove(r.tags, w, index);
                };
            }
        },
    }
}

/// The deposit coupling holds after any sequence of transitions — in
/// particular starting from a fresh registry, whose tag map is empty and
/// which any ledger covers.
pub proof fn lemma_ops_keep_coverage(
    r: PalletView,
    l: Map<u64, AccountBalance>,
    ops: Seq<RegistryOp>,
)
    requires
        indices_live_below_counter(r),
        ledger_wf(l),
        deposits_covered(r, l),
    ensures
        ({
            let end = apply_ops(r, l, ops);
            &&& indices_live_below_counter(end.0)
            &&& ledger_wf(end.1)
            &&& deposits_covered(end.0, end.1)
        }),
    decreases ops.len(),
{
    if ops.len() != 0 {
        let next = apply_op(r, l, ops.first());
        lemma_op_preserves_coverage(r, l, ops.first());
        lemma_ops_keep_coverage(next.0, next.1, ops.drop_first());
    }
}

/// Under the deposit coupling, a successful destruction releases exactly the
/// recorded deposit, in full.
pub proof fn lemma_covered_destroy_releases_in_full(
    r0: PalletView,
    l0: Map<u64, AccountBalance>,
    who: u64,
    index: u64,
)
    requires
        ledger_wf(l0),
        deposits_covered(r0, l0),
        destroy_tag_spec(r0, l0, who, index).2 is Ok,
    ensures
        ({
            let step = destroy_tag_spec(r0, l0, who, index);
            let deposit = r0.tags[index].deposit;
            &&& free_of(step.1, who) == free_of(l0, who) + deposit
            &&& reserved_of(step.1, who) == reserved_of(l0, who) - deposit
        }),
{
    lemma_deposits_of_remove(r0.tags, who, index);
    lemma_deposits_of_nonneg(r0.tags.remove(index), who);
    lemma_destroy_tag_success(r0, l0, who, index);
}

} // verus!
