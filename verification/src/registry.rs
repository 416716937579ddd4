//! The resource registry: stable tokens backed by a slab of packed slots.
//!
//! The registry owns the mapping from [`Token`] to [`SlotState`]. Slots are
//! kept packed as plain integers inside a `slab::Slab`, whose occupied
//! entries are abstracted as a map from key to stored word. Registration
//! hands out a key not currently in use, deregistration vacates it, and a
//! token resolves exactly while its slot is live.

use vstd::prelude::*;
use vstd::map::*;

use crate::slot::DESC_LIMIT;
use crate::slot::SlotState;
use crate::slot::Token;
use crate::slot::pack;
use crate::slot::unpack;
use crate::slot::unpack_spec;

verus! {

/// A registry operation was aimed at a token that is not live.
#[derive(Clone, Copy, PartialEq, Eq, Structural, Debug)]
pub enum RegistryError {
    /// The token does not resolve: never issued, or already deregistered.
    UnknownToken,
}

#[verifier::external_type_specification]
#[verifier::external_body]
#[verifier::reject_recursive_types(T)]
pub struct ExSlab<T>(slab::Slab<T>);

/// What the slab holds: its occupied entries, keyed by slab key.
pub uninterp spec fn slab_entries(s: slab::Slab<u64>) -> Map<int, u64>;

/// Relies on slab::Slab::new: a fresh slab has no occupied entry.
#[verifier::external_body]
fn slab_new() -> (r: slab::Slab<u64>)
    ensures
        slab_entries(r).dom() == Set::<int>::empty(),
{
    slab::Slab::new()
}

/// Relies on slab::Slab::insert: the value lands under a key that was
/// vacant, and every other entry stays as it was.
#[verifier::external_body]
fn slab_insert(s: &mut slab::Slab<u64>, v: u64) -> (key: usize)
    ensures
        !slab_entries(*old(s)).dom().contains(key as int),
        slab_entries(*final(s)) == slab_entries(*old(s)).insert(key as int, v),
{
    s.insert(v)
}

/// Relies on slab::Slab::try_remove: an occupied key is vacated and its
/// value returned; a vacant key leaves the slab untouched.
#[verifier::external_body]
fn slab_try_remove(s: &mut slab::Slab<u64>, key: usize) -> (r: Option<u64>)
    ensures
        slab_entries(*old(s)).dom().contains(key as int) ==> r == Some(
            slab_entries(*old(s))[key as int],
        ) && slab_entries(*final(s)) == slab_entries(*old(s)).remove(key as int),
        !slab_entries(*old(s)).dom().contains(key as int) ==> r is None && slab_entries(
            *final(s),
        ) == slab_entries(*old(s)),
{
    s.try_remove(key)
}

/// Relies on slab::Slab::get: returns the entry at an occupied key and
/// nothing at a vacant one.
#[verifier::external_body]
fn slab_get(s: &slab::Slab<u64>, key: usize) -> (r: Option<u64>)
    ensures
        slab_entries(*s).dom().contains(key as int) ==> r == Some(slab_entries(*s)[key as int]),
        !slab_entries(*s).dom().contains(key as int) ==> r is None,
{
    s.get(key).copied()
}

/// Relies on slab::Slab::get_mut: overwrites the entry at an occupied key
/// in place; a vacant key leaves the slab untouched.
#[verifier::external_body]
fn slab_set(s: &mut slab::Slab<u64>, key: usize, v: u64) -> (r: bool)
    ensures
        r == slab_entries(*old(s)).dom().contains(key as int),
        r ==> slab_entries(*final(s)) == slab_entries(*old(s)).insert(key as int, v),
        !r ==> slab_entries(*final(s)) == slab_entries(*old(s)),
{
    match s.get_mut(key) {
        Some(entry) => {
            *entry = v;
            true
        },
        None => false,
    }
}

/// Stores per-resource state indexed by the small integer tokens handed to
/// the multiplexer; owns the mapping from token to slot.
pub struct Registry {
    slots: slab::Slab<u64>,
}

impl Registry {
    /// The registry as a map from live token index to the slot it resolves
    /// to.
    pub closed spec fn slots_map(self) -> Map<int, SlotState> {
        slab_entries(self.slots).map_values(|v: u64| unpack_spec(v))
    }

    /// A token is live while its slot has not been vacated.
    pub open spec fn is_live(self, t: Token) -> bool {
        self.slots_map().dom().contains(t.idx as int)
    }

    /// A registry with nothing registered.
    pub fn new() -> (r: Registry)
        ensures
            r.slots_map() == Map::<int, SlotState>::empty(),
    {
        let slots = slab_new();
        proof {
            assert(slab_entries(slots).map_values(|v: u64| unpack_spec(v)) =~= Map::<
                int,
                SlotState,
            >::empty());
        }
        Registry { slots }
    }

    /// Registers a resource with its initial interest mask. The token handed
    /// back was not live before the call, and afterwards resolves to the
    /// freshly initialized slot; no other slot moves.
    pub fn register(&mut self, desc: u64, read: bool, write: bool) -> (t: Token)
        requires
            desc <= DESC_LIMIT,
        ensures
            !old(self).is_live(t),
            final(self).slots_map() == old(self).slots_map().insert(
                t.idx as int,
                SlotState::initial_spec(desc, read, write),
            ),
    {
        let s = SlotState::initial(desc, read, write);
        let word = pack(s);
        let key = slab_insert(&mut self.slots, word);
        proof {
            assert(final(self).slots_map() =~= old(self).slots_map().insert(key as int, s));
        }
        Token { idx: key }
    }

    /// Deregisters a live token, vacating its slot; aiming at a token that
    /// is not live is a reported error and changes nothing.
    pub fn deregister(&mut self, t: Token) -> (r: Result<(), RegistryError>)
        ensures
            r is Ok <==> old(self).is_live(t),
            old(self).is_live(t) ==> final(self).slots_map() == old(self).slots_map().remove(
                t.idx as int,
            ),
            !old(self).is_live(t) ==> final(self).slots_map() == old(self).slots_map()
                && r == Err::<(), RegistryError>(RegistryError::UnknownToken),
    {
        let removed = slab_try_remove(&mut self.slots, t.idx);
        proof {
            if old(self).is_live(t) {
                assert(final(self).slots_map() =~= old(self).slots_map().remove(t.idx as int));
            } else {
                assert(final(self).slots_map() =~= old(self).slots_map());
            }
        }
        match removed {
            Some(_) => Ok(()),
            None => Err(RegistryError::UnknownToken),
        }
    }

    /// Replaces the interest mask of a live token's slot, keeping its
    /// descriptor, pending readiness and parked waiters; a token that is not
    /// live is a reported error and changes nothing.
    pub fn reregister(&mut self, t: Token, read: bool, write: bool) -> (r: Result<
        (),
        RegistryError,
    >)
        ensures
            r is Ok <==> old(self).is_live(t),
            old(self).is_live(t) ==> final(self).slots_map() == old(self).slots_map().insert(
                t.idx as int,
                SlotState {
                    read_interest: read,
                    write_interest: write,
                    ..old(self).slots_map()[t.idx as int]
                },
            ),
            !old(self).is_live(t) ==> final(self).slots_map() == old(self).slots_map()
                && r == Err::<(), RegistryError>(RegistryError::UnknownToken),
    {
        match slab_get(&self.slots, t.idx) {
            Some(word) => {
                let s = unpack(word);
                let updated = SlotState { read_interest: read, write_interest: write, ..s };
                let new_word = pack(updated);
                let hit = slab_set(&mut self.slots, t.idx, new_word);
                proof {
                    assert(hit);
                    assert(final(self).slots_map() =~= old(self).slots_map().insert(
                        t.idx as int,
                        updated,
                    ));
                }
                Ok(())
            },
            None => {
                proof {
                    assert(final(self).slots_map() =~= old(self).slots_map());
                }
                Err(RegistryError::UnknownToken)
            },
        }
    }

    /// Resolves a token: the slot it maps to while live, nothing once it has
    /// been deregistered.
    pub fn resolve(&self, t: Token) -> (r: Option<SlotState>)
        ensures
            self.is_live(t) ==> r == Some(self.slots_map()[t.idx as int]),
            self.is_live(t) ==> self.slots_map()[t.idx as int].wf(),
            !self.is_live(t) ==> r is None,
    {
        match slab_get(&self.slots, t.idx) {
            Some(word) => Some(unpack(word)),
            None => None,
        }
    }

    /// Reports whether a token is currently live.
    pub fn contains(&self, t: Token) -> (r: bool)
        ensures
            r == self.is_live(t),
    {
        match slab_get(&self.slots, t.idx) {
            Some(_) => true,
            None => false,
        }
    }

    /// Overwrites the slot of a live token; a token that is not live is
    /// reported and nothing changes.
    pub fn set_slot(&mut self, t: Token, s: SlotState) -> (r: Result<(), RegistryError>)
        requires
            s.wf(),
        ensures
            r is Ok <==> old(self).is_live(t),
            old(self).is_live(t) ==> final(self).slots_map() == old(self).slots_map().insert(
                t.idx as int,
                s,
            ),
            !old(self).is_live(t) ==> final(self).slots_map() == old(self).slots_map()
                && r == Err::<(), RegistryError>(RegistryError::UnknownToken),
    {
        let word = pack(s);
        let hit = slab_set(&mut self.slots, t.idx, word);
        proof {
            if hit {
                assert(final(self).slots_map() =~= old(self).slots_map().insert(t.idx as int, s));
            } else {
                assert(final(self).slots_map() =~= old(self).slots_map());
            }
        }
        if hit {
            Ok(())
        } else {
            Err(RegistryError::UnknownToken)
        }
    }
}

/// No token ever resolves to a freed or reused slot while live: operations
/// on a different token leave what a live token resolves to untouched, and
/// a freshly issued token was not live before, so registering it cannot
/// shadow anyone.
pub proof fn lemma_live_token_resolution(m: Map<int, SlotState>, t: int, u: int, s: SlotState)
    requires
        m.dom().contains(t),
        u != t,
    ensures
        m.insert(u, s).dom().contains(t),
        m.insert(u, s)[t] == m[t],
        m.remove(u).dom().contains(t),
        m.remove(u)[t] == m[t],
        !m.remove(t).dom().contains(t),
{
}

/// Registering a resource and deregistering it again before anything else
/// happens leaves the registry observably as if it had never been
/// registered.
pub proof fn lemma_register_deregister_round_trip(m: Map<int, SlotState>, t: int, s: SlotState)
    requires
        !m.dom().contains(t),
    ensures
        m.insert(t, s).remove(t) == m,
{
    assert(m.insert(t, s).remove(t) =~= m);
}

} // verus!
