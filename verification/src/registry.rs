//! The tag registry: index allocation, the tag store, and the create/destroy
//! transitions against a ledger.
//!
//! The registry is meant to run one transition (`create_tag` or
//! `destroy_tag`) at a time to completion. Reserving funds and writing the
//! tag record are two separate calls with no cross-system lock, so under
//! concurrent multi-writer execution the two steps would have to be wrapped
//! in a single serializable transaction; the host must serialize transitions.

use crate::ledger::AccountBalance;
use crate::ledger::Ledger;
use crate::ledger::free_of;
use crate::ledger::ledger_wf;
use crate::ledger::release_spec;
use crate::ledger::reserve_spec;
use std::collections::HashMap;
use vstd::prelude::*;

verus! {

broadcast use vstd::std_specs::hash::group_hash_axioms;

/// The two constants the registry reads from its deployment: the bound on a
/// tag name's length, and the deposit locked for each newly created tag.
/// Changing the deposit between deployments does not affect tags that
/// already exist: each tag records the deposit it was created with.
#[derive(Clone, Copy, PartialEq, Eq, Structural, Debug)]
pub struct Config {
    /// Upper bound on a tag name's length, in bytes.
    pub tag_name_limit: u32,
    /// The deposit reserved for each newly created tag.
    pub tag_deposit_amount: u64,
}

/// The ways a registry transition can fail. Every failure leaves the
/// registry and the ledger unchanged.
#[derive(Clone, Copy, PartialEq, Eq, Structural, Debug)]
pub enum Error {
    /// The caller's spendable balance cannot cover the deposit.
    InsufficientFunds,
    /// The index counter is exhausted: no further tag can be stored.
    StorageOverflow,
    /// No tag lives at the given index.
    InvalidTag,
    /// The caller does not own the tag it tried to destroy.
    NotAllowed,
}

/// What the registry announces after a transition commits.
#[derive(Clone, Copy, PartialEq, Eq, Structural, Debug)]
pub enum Event {
    /// A tag was created.
    TagCreated { index: u64, who: u64, deposit: u64 },
    /// A tag was destroyed by its owner.
    TagDestroyed { index: u64, who: u64 },
}

/// A stored tag: its name, the principal that created it, and the deposit
/// reserved for it at creation time. The owner never changes once the tag
/// exists.
pub struct Tag {
    /// The tag's name; names need not be unique.
    pub name: Vec<u8>,
    /// The principal that created the tag.
    pub owner: u64,
    /// The amount held in reservation for the owner on this tag's account.
    pub deposit: u64,
}

/// The mathematical value of a stored tag.
#[verifier::ext_equal]
pub ghost struct TagModel {
    pub name: Seq<u8>,
    pub owner: u64,
    pub deposit: u64,
}

impl View for Tag {
    type V = TagModel;

    open spec fn view(&self) -> TagModel {
        TagModel { name: self.name@, owner: self.owner, deposit: self.deposit }
    }
}

/// The mathematical state of the registry.
#[verifier::ext_equal]
pub ghost struct PalletView {
    pub config: Config,
    /// The next index to assign; also the number of successful creations so
    /// far. It never decreases and never revisits an index.
    pub tag_index: u64,
    /// The live tags. Absence of a key means no tag currently occupies that
    /// index: it was either never assigned or has been destroyed.
    pub tags: Map<u64, TagModel>,
    /// Everything announced so far, oldest first.
    pub events: Seq<Event>,
}

/// The store's mathematical content.
pub open spec fn tags_view(m: Map<u64, Tag>) -> Map<u64, TagModel> {
    m.map_values(|t: Tag| t@)
}

/// A tag is only live at an index that has been allocated: every key of the
/// tag map lies below the counter.
pub open spec fn indices_live_below_counter(r: PalletView) -> bool {
    forall|i: u64| #[trigger] r.tags.contains_key(i) ==> i < r.tag_index
}

/// Every stored name is within the configured length bound.
pub open spec fn names_within_limit(r: PalletView) -> bool {
    forall|i: u64| #[trigger] r.tags.contains_key(i) ==> r.tags[i].name.len()
        <= r.config.tag_name_limit
}

/// The registry's internal invariant.
pub open spec fn pallet_wf(r: PalletView) -> bool {
    &&& indices_live_below_counter(r)
    &&& names_within_limit(r)
}

/// The `create_tag` transition: the state the registry and the ledger move
/// to, and the result the caller sees.
///
/// The deposit is reserved before the index is allocated; when allocation
/// would overflow, the reservation is rolled back, so both error branches
/// leave the registry and the ledger as they were.
pub open spec fn create_tag_spec(
    r: PalletView,
    l: Map<u64, AccountBalance>,
    who: u64,
    name: Seq<u8>,
) -> (PalletView, Map<u64, AccountBalance>, Result<u64, Error>) {
    let deposit = r.config.tag_deposit_amount;
    if free_of(l, who) < deposit {
        (r, l, Err(Error::InsufficientFunds))
    } else if r.tag_index == u64::MAX {
        (r, l, Err(Error::StorageOverflow))
    } else {
        let index = r.tag_index;
        (
            (PalletView {
                tag_index: (index + 1) as u64,
                tags: r.tags.insert(index, TagModel { name, owner: who, deposit }),
                events: r.events.push(Event::TagCreated { index, who, deposit }),
                config: r.config,
            }),
            reserve_spec(l, who, deposit),
            Ok(index),
        )
    }
}

/// The `destroy_tag` transition: the state the registry and the ledger move
/// to, and the result the caller sees.
pub open spec fn destroy_tag_spec(
    r: PalletView,
    l: Map<u64, AccountBalance>,
    who: u64,
    tag_index: u64,
) -> (PalletView, Map<u64, AccountBalance>, Result<(), Error>) {
    if !r.tags.contains_key(tag_index) {
        (r, l, Err(Error::InvalidTag))
    } else if r.tags[tag_index].owner != who {
        (r, l, Err(Error::NotAllowed))
    } else {
        (
            (PalletView {
                tags: r.tags.remove(tag_index),
                events: r.events.push(Event::TagDestroyed { index: tag_index, who }),
                config: r.config,
                tag_index: r.tag_index,
            }),
            release_spec(l, who, r.tags[tag_index].deposit),
            Ok(()),
        )
    }
}

/// The registry: the index counter, the tag store, and the event log. It
/// orchestrates creation and destruction against a ledger handed in by the
/// caller.
pub struct Pallet {
    config: Config,
    tag_index: u64,
    tags: HashMap<u64, Tag>,
    events: Vec<Event>,
}

impl View for Pallet {
    type V = PalletView;

    closed spec fn view(&self) -> PalletView {
        PalletView {
            config: self.config,
            tag_index: self.tag_index,
            tags: tags_view(self.tags@),
            events: self.events@,
        }
    }
}

impl Pallet {
    /// A fresh registry: the counter at zero, no tags, nothing announced.
    pub fn new(config: Config) -> (r: Pallet)
        ensures
            r@ == (PalletView {
                config,
                tag_index: 0,
                tags: Map::<u64, TagModel>::empty(),
                events: Seq::<Event>::empty(),
            }),
            pallet_wf(r@),
    {
        let p = Pallet { config, tag_index: 0, tags: HashMap::new(), events: Vec::new() };
        proof {
            assert(tags_view(p.tags@) =~= Map::<u64, TagModel>::empty());
            assert(p@ =~= (PalletView {
                config,
                tag_index: 0,
                tags: Map::<u64, TagModel>::empty(),
                events: Seq::<Event>::empty(),
            }));
        }
        p
    }

    /// A registry resumed with its counter already at `tag_index` and no
    /// live tags: the state a registry reaches after `tag_index` creations
    /// whose tags have all been destroyed. Destroyed indices stay vacant, so
    /// resuming must keep the counter rather than rewind it.
    pub fn resume_at(config: Config, tag_index: u64) -> (r: Pallet)
        ensures
            r@ == (PalletView {
                config,
                tag_index,
                tags: Map::<u64, TagModel>::empty(),
                events: Seq::<Event>::empty(),
            }),
            pallet_wf(r@),
    {
        let p = Pallet { config, tag_index, tags: HashMap::new(), events: Vec::new() };
        proof {
            assert(tags_view(p.tags@) =~= Map::<u64, TagModel>::empty());
            assert(p@ =~= (PalletView {
                config,
                tag_index,
                tags: Map::<u64, TagModel>::empty(),
                events: Seq::<Event>::empty(),
            }));
        }
        p
    }

    /// The configuration this registry was deployed with.
    pub fn config(&self) -> (r: Config)
        ensures
            r == self@.config,
    {
        self.config
    }

    /// The next index a successful creation will assign.
    pub fn tag_index(&self) -> (r: u64)
        ensures
            r == self@.tag_index,
    {
        self.tag_index
    }

    /// The tag at `index`, when one is live there.
    pub fn tag_info(&self, index: u64) -> (r: Option<&Tag>)
        ensures
            match r {
                Some(t) => self@.tags.contains_key(index) && t@ == self@.tags[index],
                None => !self@.tags.contains_key(index),
            },
    {
        self.tags.get(&index)
    }

    /// Everything the registry has announced so far, oldest first.
    pub fn events(&self) -> (r: &Vec<Event>)
        ensures
            r@ == self@.events,
    {
        &self.events
    }

    /// The most recently announced event.
    pub fn last_event(&self) -> (r: Option<Event>)
        ensures
            match r {
                Some(e) => self@.events.len() > 0 && e == self@.events.last(),
                None => self@.events.len() == 0,
            },
    {
        if self.events.len() == 0 {
            None
        } else {
            Some(self.events[self.events.len() - 1])
        }
    }

    /// Claims a new tag named `name` for `who`, locking the configured
    /// deposit in `ledger`, and returns the index the tag was stored at.
    ///
    /// The deposit is reserved first; if allocating the index then fails
    /// because the counter is exhausted, the reservation is released again
    /// before the error returns. Either way, a failed creation consumes no
    /// index and leaves the registry and every balance unchanged.
    ///
    /// The caller's boundary layer has already validated the name against
    /// the configured length bound.
    pub fn create_tag(&mut self, ledger: &mut Ledger, who: u64, name: Vec<u8>) -> (r: Result<
        u64,
        Error,
    >)
        requires
            pallet_wf(old(self)@),
            ledger_wf(old(ledger)@),
            name@.len() <= old(self)@.config.tag_name_limit,
        ensures
            (final(self)@, final(ledger)@, r) == create_tag_spec(
                old(self)@,
                old(ledger)@,
                who,
                name@,
            ),
            pallet_wf(final(self)@),
            ledger_wf(final(ledger)@),
            r is Ok <==> free_of(old(ledger)@, who) >= old(self)@.config.tag_deposit_amount
                && old(self)@.tag_index < u64::MAX,
            r is Err ==> final(self)@ == old(self)@ && final(ledger)@ == old(ledger)@,
    {
        let ghost name_model = name@;
        let deposit = self.config.tag_deposit_amount;

        // Step one: take the deposit. The ledger rejects the whole operation
        // when the caller's spendable balance cannot cover it.
        if let Err(_) = ledger.reserve(who, deposit) {
            return Err(Error::InsufficientFunds);
        }

        // Step two: allocate the next index. On exhaustion the reservation
        // just taken is rolled back before the error returns.
        let index = self.tag_index;
        match index.checked_add(1) {
            None => {
                ledger.release(who, deposit);
                proof {
                    assert(ledger@ =~= old(ledger)@);
                }
                Err(Error::StorageOverflow)
            },
            Some(next) => {
                // Step three: commit the record and announce it.
                self.tag_index = next;
                self.tags.insert(index, Tag { name, owner: who, deposit });
                self.events.push(Event::TagCreated { index, who, deposit });
                proof {
                    let target = create_tag_spec(old(self)@, old(ledger)@, who, name_model).0;
                    assert(self@.tags =~= target.tags);
                    assert(self@ =~= target);
                    assert forall|i: u64| #[trigger] self@.tags.contains_key(i) implies i
                        < self@.tag_index by {
                        if i != index {
                            assert(old(self)@.tags.contains_key(i));
                        }
                    };
                    assert forall|i: u64| #[trigger] self@.tags.contains_key(i) implies
                        self@.tags[i].name.len() <= self@.config.tag_name_limit by {
                        if i != index {
                            assert(old(self)@.tags.contains_key(i));
                        }
                    };
                }
                Ok(index)
            },
        }
    }

    /// Destroys the tag at `tag_index` and releases its recorded deposit
    /// back to its owner, provided the tag exists and `who` is its owner.
    /// The index stays permanently vacant: the counter never hands it out
    /// again.
    pub fn destroy_tag(&mut self, ledger: &mut Ledger, who: u64, tag_index: u64) -> (r: Result<
        (),
        Error,
    >)
        requires
            pallet_wf(old(self)@),
            ledger_wf(old(ledger)@),
        ensures
            (final(self)@, final(ledger)@, r) == destroy_tag_spec(
                old(self)@,
                old(ledger)@,
                who,
                tag_index,
            ),
            pallet_wf(final(self)@),
            ledger_wf(final(ledger)@),
            r is Ok <==> old(self)@.tags.contains_key(tag_index)
                && old(self)@.tags[tag_index].owner == who,
            r is Err ==> final(self)@ == old(self)@ && final(ledger)@ == old(ledger)@,
            r is Ok ==> !final(self)@.tags.contains_key(tag_index),
    {
        let deposit: u64;
        match self.tags.get(&tag_index) {
            None => {
                return Err(Error::InvalidTag);
            },
            Some(t) => {
                // Pure authorization check: only the recorded owner may
                // destroy the tag.
                if t.owner != who {
                    return Err(Error::NotAllowed);
                }
                deposit = t.deposit;
            },
        }

        // The tag exists and the caller owns it: give the deposit back,
        // drop the record, announce it. A release never fails.
        ledger.release(who, deposit);
        self.tags.remove(&tag_index);
        self.events.push(Event::TagDestroyed { index: tag_index, who });
        proof {
            let target = destroy_tag_spec(old(self)@, old(ledger)@, who, tag_index).0;
            assert(self@.tags =~= target.tags);
            assert(self@ =~= target);
            assert forall|i: u64| #[trigger] self@.tags.contains_key(i) implies i
                < self@.tag_index by {
                assert(old(self)@.tags.contains_key(i));
            };
            assert forall|i: u64| #[trigger] self@.tags.contains_key(i) implies
                self@.tags[i].name.len() <= self@.config.tag_name_limit by {
                assert(old(self)@.tags.contains_key(i));
            };
        }
        Ok(())
    }
}

} // verus!
