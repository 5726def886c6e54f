//! The three claim operations — register, revoke, transfer — applied to the
//! registry one at a time. Each operation validates its preconditions,
//! mutates the registry atomically, and returns either the event a host
//! would broadcast or a typed error; failed operations leave the registry
//! untouched and emit nothing.

use crate::registry::{clone_fingerprint, AccountId, Record, Registry, SequenceNumber};
use vstd::prelude::*;

verus! {

/// The closed set of failure kinds.
#[derive(Clone, Copy, PartialEq, Eq, Structural, Debug)]
pub enum Error {
    /// Register found the fingerprint already present.
    AlreadyExists,
    /// Revoke or transfer found the fingerprint absent.
    NotFound,
    /// Revoke or transfer was attempted by a caller other than the owner.
    NotOwner,
    /// Transfer's atomic replacement re-detected absence at commit. Under a
    /// sequential host this coincides with `NotFound` and is unreachable.
    TransferFailed,
}

/// One notification per successful transition, handed back to the host.
#[derive(Clone, PartialEq, Eq, Debug)]
pub enum Event {
    /// A claim was created: (owner, fingerprint).
    ClaimCreated(AccountId, Vec<u8>),
    /// A claim was revoked: (former owner, fingerprint).
    ClaimRemoved(AccountId, Vec<u8>),
    /// A claim changed hands: (fingerprint, previous owner, new owner).
    ClaimTransfer(Vec<u8>, AccountId, AccountId),
}

/// The registry after a successful registration: the fingerprint now maps to
/// the caller, stamped with the supplied sequence number.
pub open spec fn register_effect(
    m: Map<Seq<u8>, Record>,
    caller: AccountId,
    fingerprint: Seq<u8>,
    seq: SequenceNumber,
) -> Map<Seq<u8>, Record> {
    m.insert(fingerprint, Record { owner: caller, registered_at: seq })
}

/// The registry after a successful revocation: the fingerprint is gone.
pub open spec fn revoke_effect(m: Map<Seq<u8>, Record>, fingerprint: Seq<u8>) -> Map<
    Seq<u8>,
    Record,
> {
    m.remove(fingerprint)
}

/// The registry after a successful transfer: the fingerprint stays present
/// and now maps to the target, stamped with the supplied sequence number.
pub open spec fn transfer_effect(
    m: Map<Seq<u8>, Record>,
    fingerprint: Seq<u8>,
    target: AccountId,
    seq: SequenceNumber,
) -> Map<Seq<u8>, Record> {
    m.insert(fingerprint, Record { owner: target, registered_at: seq })
}

/// The claim registry together with its operation handlers.
pub struct Pallet {
    registry: Registry,
}

impl View for Pallet {
    type V = Map<Seq<u8>, Record>;

    closed spec fn view(&self) -> Map<Seq<u8>, Record> {
        self.registry@
    }
}

impl Pallet {
    pub closed spec fn wf(&self) -> bool {
        self.registry.wf()
    }

    /// A fresh pallet over an empty registry.
    pub fn new() -> (r: Pallet)
        ensures
            r.wf(),
            r@ == Map::<Seq<u8>, Record>::empty(),
    {
        Pallet { registry: Registry::new() }
    }

    /// Looks a fingerprint up: the current ownership record, or `None` when
    /// the fingerprint is not registered.
    pub fn proofs(&self, claim: &Vec<u8>) -> (r: Option<Record>)
        requires
            self.wf(),
        ensures
            self@.contains_key(claim@) ==> r == Some(self@[claim@]),
            !self@.contains_key(claim@) ==> r == None::<Record>,
    {
        self.registry.get(claim)
    }

    /// Registers a claim: the fingerprint must be absent; on success it maps
    /// to the caller at the supplied sequence number and a `ClaimCreated`
    /// event is returned. A present fingerprint is rejected with
    /// `AlreadyExists` and nothing changes.
    pub fn create_claim(&mut self, caller: AccountId, claim: Vec<u8>, seq: SequenceNumber) -> (r:
        Result<Event, Error>)
        requires
            old(self).wf(),
        ensures
            final(self).wf(),
            old(self)@.contains_key(claim@) ==> r == Err::<Event, Error>(Error::AlreadyExists)
                && final(self)@ == old(self)@,
            !old(self)@.contains_key(claim@) ==> final(self)@ == register_effect(
                old(self)@,
                caller,
                claim@,
                seq,
            ) && (r matches Ok(Event::ClaimCreated(who, c)) && who == caller && c@ == claim@),
    {
        if self.registry.contains(&claim) {
            return Err(Error::AlreadyExists);
        }
        let fingerprint = clone_fingerprint(&claim);
        self.registry.insert(fingerprint, Record { owner: caller, registered_at: seq });
        Ok(Event::ClaimCreated(caller, claim))
    }

    /// Revokes a claim: the fingerprint must be present and the caller must
    /// be its owner; on success the entry is removed and a `ClaimRemoved`
    /// event is returned. An absent fingerprint is rejected with `NotFound`,
    /// a caller other than the owner with `NotOwner`; neither changes the
    /// registry.
    pub fn revoke_claim(&mut self, caller: AccountId, claim: Vec<u8>) -> (r: Result<Event, Error>)
        requires
            old(self).wf(),
        ensures
            final(self).wf(),
            !old(self)@.contains_key(claim@) ==> r == Err::<Event, Error>(Error::NotFound)
                && final(self)@ == old(self)@,
            old(self)@.contains_key(claim@) && old(self)@[claim@].owner != caller ==> r == Err::<
                Event,
                Error,
            >(Error::NotOwner) && final(self)@ == old(self)@,
            old(self)@.contains_key(claim@) && old(self)@[claim@].owner == caller ==> final(self)@
                == revoke_effect(old(self)@, claim@) && (r matches Ok(
                Event::ClaimRemoved(who, c),
            ) && who == caller && c@ == claim@),
    {
        let record = match self.registry.get(&claim) {
            None => {
                return Err(Error::NotFound);
            },
            Some(record) => record,
        };
        if record.owner != caller {
            return Err(Error::NotOwner);
        }
        self.registry.remove(&claim);
        Ok(Event::ClaimRemoved(caller, claim))
    }

    /// Transfers a claim: the fingerprint must be present and the caller
    /// must be its owner; on success the record is atomically replaced with
    /// the target as owner at the supplied sequence number — the fingerprint
    /// itself stays registered throughout — and a `ClaimTransfer` event is
    /// returned. An absent fingerprint is rejected with `NotFound`, a caller
    /// other than the owner with `NotOwner`; neither changes the registry.
    pub fn transfer_claim(
        &mut self,
        caller: AccountId,
        claim: Vec<u8>,
        target: AccountId,
        seq: SequenceNumber,
    ) -> (r: Result<Event, Error>)
        requires
            old(self).wf(),
        ensures
            final(self).wf(),
            !old(self)@.contains_key(claim@) ==> r == Err::<Event, Error>(Error::NotFound)
                && final(self)@ == old(self)@,
            old(self)@.contains_key(claim@) && old(self)@[claim@].owner != caller ==> r == Err::<
                Event,
                Error,
            >(Error::NotOwner) && final(self)@ == old(self)@,
            old(self)@.contains_key(claim@) && old(self)@[claim@].owner == caller ==> final(self)@
                == transfer_effect(old(self)@, claim@, target, seq) && final(self)@.contains_key(
                claim@,
            ) && final(self)@.dom() == old(self)@.dom() && (r matches Ok(
                Event::ClaimTransfer(c, from, to),
            ) && c@ == claim@ && from == caller && to == target),
    {
        let record = match self.registry.get(&claim) {
            None => {
                return Err(Error::NotFound);
            },
            Some(record) => record,
        };
        if record.owner != caller {
            return Err(Error::NotOwner);
        }
        match self.registry.update(&claim, Record { owner: target, registered_at: seq }) {
            Ok(()) => Ok(Event::ClaimTransfer(claim, caller, target)),
            // The registry re-checks existence when it commits the
            // replacement; the fingerprint was just found present, so this
            // arm is unreachable under the sequential host.
            Err(()) => Err(Error::TransferFailed),
        }
    }
}

} // verus!
