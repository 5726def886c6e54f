//! Laws of the claim lifecycle, stated over the registry's abstract view
//! and the effect functions that the operations' contracts use.

use crate::pallet::{register_effect, revoke_effect, transfer_effect};
use crate::registry::{AccountId, Record, SequenceNumber};
use vstd::prelude::*;

verus! {

/// Registering an absent fingerprint makes a subsequent lookup find the
/// caller as owner, registered at the supplied sequence number.
pub proof fn lemma_register_then_lookup(
    m: Map<Seq<u8>, Record>,
    caller: AccountId,
    fingerprint: Seq<u8>,
    seq: SequenceNumber,
)
    requires
        !m.contains_key(fingerprint),
    ensures
        register_effect(m, caller, fingerprint, seq).contains_key(fingerprint),
        register_effect(m, caller, fingerprint, seq)[fingerprint] == (Record {
            owner: caller,
            registered_at: seq,
        }),
{
}

/// After one successful registration the fingerprint is present, so a
/// second registration of it — by anyone — meets the `AlreadyExists` branch
/// of `create_claim`'s contract: it fails and leaves the registry unchanged.
pub proof fn lemma_register_twice_rejected(
    m: Map<Seq<u8>, Record>,
    caller: AccountId,
    fingerprint: Seq<u8>,
    seq: SequenceNumber,
)
    requires
        !m.contains_key(fingerprint),
    ensures
        register_effect(m, caller, fingerprint, seq).contains_key(fingerprint),
{
}

/// Revoking a fingerprint removes it: a lookup afterwards finds nothing.
pub proof fn lemma_revoke_then_lookup_absent(m: Map<Seq<u8>, Record>, fingerprint: Seq<u8>)
    ensures
        !revoke_effect(m, fingerprint).contains_key(fingerprint),
{
}

/// A transfer of a present fingerprint replaces owner and registration
/// sequence number in place: the fingerprint stays present, no key appears
/// or disappears, and every other record is untouched.
pub proof fn lemma_transfer_keeps_claim_present(
    m: Map<Seq<u8>, Record>,
    fingerprint: Seq<u8>,
    target: AccountId,
    seq: SequenceNumber,
)
    requires
        m.contains_key(fingerprint),
    ensures
        transfer_effect(m, fingerprint, target, seq).contains_key(fingerprint),
        transfer_effect(m, fingerprint, target, seq).dom() == m.dom(),
        transfer_effect(m, fingerprint, target, seq)[fingerprint] == (Record {
            owner: target,
            registered_at: seq,
        }),
        forall|k: Seq<u8>|
            m.contains_key(k) && k != fingerprint ==> #[trigger] transfer_effect(
                m,
                fingerprint,
                target,
                seq,
            )[k] == m[k],
{
    assert(transfer_effect(m, fingerprint, target, seq).dom() =~= m.dom());
}

} // verus!
