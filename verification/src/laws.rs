//! Proved laws of the registry state machine.
//!
//! Each proof function states a property that holds of every valid registry
//! state, over the same spec functions the operations' contracts use.

use vstd::prelude::*;

use crate::errors::SpotError;
use crate::registry::{claim_outcome, create_outcome, event_tokens, Address, Spot};

verus! {

/// Event identifiers are strictly increasing from 1 with no gaps and no
/// reuse: in every valid state the record at position `i` carries identifier
/// `i + 1`, and a successful `create_event` returns one more than the current
/// count — larger than every identifier assigned before.  Failed attempts
/// leave the event list unchanged (ensured by `create_event` itself), so the
/// sequence stays gapless across intermixed failures.
pub proof fn lemma_event_ids_sequential(
    s: Spot,
    creator: Address,
    max_poaps: u32,
    claim_start: u64,
    claim_end: u64,
)
    requires
        s.wf(),
        s.events@.len() < u32::MAX as int,
    ensures
        forall|i: int| 0 <= i < s.events@.len() ==> (#[trigger] s.events@[i]).event_id == i + 1,
        create_outcome(s, creator, max_poaps, claim_start, claim_end) matches Ok(id) ==> id
            == s.events@.len() + 1,
        create_outcome(s, creator, max_poaps, claim_start, claim_end) matches Ok(id)
            ==> forall|i: int|
            0 <= i < s.events@.len() ==> (#[trigger] s.events@[i]).event_id < id,
{
}

/// At most one claim ever succeeds per `(event_id, address)` pair: once the
/// pair is recorded — and `claim` records it on every success — no later
/// claim for the pair returns `Ok`, and whenever the call reaches the
/// duplicate check (the event exists and the window is open) it returns
/// `AlreadyClaimed`.
pub proof fn lemma_claim_at_most_once(s: Spot, now: u64, event_id: u32, to: Address)
    requires
        s.wf(),
        s.claimed(event_id, to),
    ensures
        !(claim_outcome(s, now, event_id, to) is Ok),
        s.has_event(event_id) && s.event_at(event_id).claim_start <= now && now <= s.event_at(
            event_id,
        ).claim_end ==> claim_outcome(s, now, event_id, to) == Err::<u32, SpotError>(
            SpotError::AlreadyClaimed,
        ),
{
}

/// The minted count of an event never exceeds its supply cap, and the claim
/// that would push it past the cap fails with `LimitExceeded` instead.
pub proof fn lemma_supply_cap(s: Spot, now: u64, event_id: u32, to: Address)
    requires
        s.wf(),
        s.has_event(event_id),
    ensures
        s.minted(event_id) <= s.event_at(event_id).max_poaps,
        s.minted(event_id) == s.event_at(event_id).max_poaps && s.event_at(
            event_id,
        ).claim_start <= now && now <= s.event_at(event_id).claim_end && !s.claimed(event_id, to)
            ==> claim_outcome(s, now, event_id, to) == Err::<u32, SpotError>(
            SpotError::LimitExceeded,
        ),
{
}

/// The claim window is inclusive at both ends: a claim fails with
/// `ClaimPeriodNotStarted` exactly when `now < claim_start`, with
/// `ClaimPeriodEnded` exactly when the window has started but `now >
/// claim_end`, and at `now == claim_start` or `now == claim_end` a fresh
/// claim with supply remaining succeeds.
pub proof fn lemma_claim_window(s: Spot, now: u64, event_id: u32, to: Address)
    requires
        s.wf(),
        s.has_event(event_id),
    ensures
        (claim_outcome(s, now, event_id, to) == Err::<u32, SpotError>(
            SpotError::ClaimPeriodNotStarted,
        )) <==> now < s.event_at(event_id).claim_start,
        (claim_outcome(s, now, event_id, to) == Err::<u32, SpotError>(
            SpotError::ClaimPeriodEnded,
        )) <==> (s.event_at(event_id).claim_start <= now && now > s.event_at(event_id).claim_end),
        (now == s.event_at(event_id).claim_start || now == s.event_at(event_id).claim_end) && !s.claimed(
            event_id,
            to,
        ) && s.minted(event_id) < s.event_at(event_id).max_poaps ==> claim_outcome(
            s,
            now,
            event_id,
            to,
        ) is Ok,
{
}

/// For any caller that passes the authorization gates, a zero supply cap is
/// rejected with `InvalidParameters`, and so is a window whose end precedes
/// its start.  (A caller that fails the gates is rejected earlier — with
/// `CreatorNotApproved` or `Unauthorized` — whatever the parameters.)
pub proof fn lemma_create_rejects_invalid(
    s: Spot,
    creator: Address,
    max_poaps: u32,
    claim_start: u64,
    claim_end: u64,
)
    requires
        s.wf(),
        s.is_admin(creator) || (s.approved(creator) && s.has_creator_role(creator)),
    ensures
        max_poaps == 0 ==> create_outcome(s, creator, max_poaps, claim_start, claim_end) == Err::<
            u32,
            SpotError,
        >(SpotError::InvalidParameters),
        max_poaps > 0 && claim_end < claim_start ==> create_outcome(
            s,
            creator,
            max_poaps,
            claim_start,
            claim_end,
        ) == Err::<u32, SpotError>(SpotError::InvalidParameters),
{
}

/// The approval gate, closed: a non-admin creator with no approval record on
/// file is always rejected with `CreatorNotApproved`, whatever the
/// parameters.  `revoke_creator_approval` ensures exactly this absence, so
/// the same creator is rejected again after a revocation.
pub proof fn lemma_approval_gate_closed(
    s: Spot,
    creator: Address,
    max_poaps: u32,
    claim_start: u64,
    claim_end: u64,
)
    requires
        s.wf(),
        !s.is_admin(creator),
        !s.approved(creator),
    ensures
        create_outcome(s, creator, max_poaps, claim_start, claim_end) == Err::<u32, SpotError>(
            SpotError::CreatorNotApproved,
        ),
{
}

/// The approval gate, open: a creator holding an approval record and the
/// creator role — `approve_creator` establishes both — passes the gates, and
/// a request with a positive cap and an ordered window succeeds.
pub proof fn lemma_approval_gate_open(
    s: Spot,
    creator: Address,
    max_poaps: u32,
    claim_start: u64,
    claim_end: u64,
)
    requires
        s.wf(),
        s.approved(creator),
        s.has_creator_role(creator),
        max_poaps > 0,
        claim_start <= claim_end,
    ensures
        create_outcome(s, creator, max_poaps, claim_start, claim_end) == Ok::<u32, SpotError>(
            ((s.events@.len() + 1) as u32),
        ),
{
}

/// The duplicate check of event registration is a dead defense: in a valid
/// state the identifier to be assigned next is never already registered, so
/// `create_event` never fails with `EventAlreadyExists`.
pub proof fn lemma_next_event_id_fresh(
    s: Spot,
    creator: Address,
    max_poaps: u32,
    claim_start: u64,
    claim_end: u64,
)
    requires
        s.wf(),
    ensures
        forall|i: int|
            0 <= i < s.events@.len() ==> (#[trigger] s.events@[i]).event_id != s.events@.len() + 1,
        create_outcome(s, creator, max_poaps, claim_start, claim_end) != Err::<u32, SpotError>(
            SpotError::EventAlreadyExists,
        ),
{
}

/// Token identifiers are globally unique over all events: the token module
/// assigns them sequentially, one per successful claim, and the registry
/// records each exactly once.
pub proof fn lemma_token_ids_unique(s: Spot)
    requires
        s.wf(),
    ensures
        forall|j: int, k: int|
            0 <= j < s.claims@.len() && 0 <= k < s.claims@.len() && j != k ==> (
            #[trigger] s.claims@[j]).token_id != (#[trigger] s.claims@[k]).token_id,
{
}

/// The token list of an event is in mint order: the token identifiers
/// strictly increase along it, as the token module's sequential assignment
/// dictates.
pub proof fn lemma_event_tokens_in_mint_order(s: Spot, event_id: u32)
    requires
        s.wf(),
    ensures
        forall|p: int, q: int|
            0 <= p < q < event_tokens(s.claims@, event_id).len() ==> event_tokens(
                s.claims@,
                event_id,
            )[p] < event_tokens(s.claims@, event_id)[q],
{
    crate::registry::lemma_event_tokens_increasing(s.claims@, event_id);
}

} // verus!
