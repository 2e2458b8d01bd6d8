//! The single-event variant: one claim window, one supply cap, one mint list.
//!
//! A strict subset of the registry's rules, deployed as a contract of its own
//! per event.  The host ledger authenticates callers, persists the
//! [`SpotEvent`] value and supplies the current time, exactly as for the
//! registry.  Token identifiers are the sequential ones the token module
//! assigns, starting at zero — one per successful mint, so the next equals
//! the number of addresses that have minted.

use vstd::prelude::*;

use crate::errors::SpotEventError;
use crate::registry::contains_address;
use crate::registry::Address;

verus! {

/// State of one event contract.  `owner` and the claim window are fixed at
/// construction; `max_nfts` only ever moves down to the minted count (the
/// "burn unclaimed" operation lowers the cap rather than the count).
pub struct SpotEvent {
    pub owner: Address,
    pub admin_grants: Vec<Address>,
    pub minter_grants: Vec<Address>,
    pub event_name: String,
    pub event_date: u64,
    pub location: String,
    pub description: String,
    pub max_nfts: u32,
    pub claim_start: u64,
    pub claim_end: u64,
    pub metadata_uri: String,
    pub image_url: String,
    pub minters: Vec<Address>,
}

impl SpotEvent {
    /// Number of tokens minted so far.
    pub open spec fn minted(self) -> nat {
        self.minters@.len()
    }

    /// Whether `a` is the owner or holds the granted admin role.
    pub open spec fn is_owner_or_admin(self, a: Address) -> bool {
        a == self.owner || self.admin_grants@.contains(a)
    }

    /// Whether `a` may call the authorized mint entry point.
    pub open spec fn can_mint(self, a: Address) -> bool {
        self.is_owner_or_admin(a) || self.minter_grants@.contains(a)
    }

    /// The construction-time fields agree with those of `other`: owner,
    /// descriptive fields and claim window (everything but the cap, the mint
    /// list and the grant lists).
    pub open spec fn same_info(self, other: SpotEvent) -> bool {
        &&& self.owner == other.owner
        &&& self.event_name == other.event_name
        &&& self.event_date == other.event_date
        &&& self.location == other.location
        &&& self.description == other.description
        &&& self.claim_start == other.claim_start
        &&& self.claim_end == other.claim_end
        &&& self.metadata_uri == other.metadata_uri
        &&& self.image_url == other.image_url
    }

    /// Validity of the state: each address minted at most once, the minted
    /// count respects the cap, the window is ordered and the grant lists are
    /// duplicate-free.
    pub open spec fn wf(self) -> bool {
        &&& self.minters@.no_duplicates()
        &&& self.minters@.len() <= self.max_nfts
        &&& self.claim_start <= self.claim_end
        &&& self.admin_grants@.no_duplicates()
        &&& self.minter_grants@.no_duplicates()
    }

    /// A fresh event contract.  The host build rejects a zero cap or an
    /// unordered window by trapping before any state exists; here those
    /// inputs are excluded outright.
    pub fn new(
        owner: Address,
        event_name: String,
        event_date: u64,
        location: String,
        description: String,
        max_nfts: u32,
        claim_start: u64,
        claim_end: u64,
        metadata_uri: String,
        image_url: String,
    ) -> (s: SpotEvent)
        requires
            max_nfts > 0,
            claim_start <= claim_end,
        ensures
            s.wf(),
            s.owner == owner,
            s.event_name == event_name,
            s.event_date == event_date,
            s.location == location,
            s.description == description,
            s.max_nfts == max_nfts,
            s.claim_start == claim_start,
            s.claim_end == claim_end,
            s.metadata_uri == metadata_uri,
            s.image_url == image_url,
            s.minters@ == Seq::<Address>::empty(),
            s.admin_grants@ == Seq::<Address>::empty(),
            s.minter_grants@ == Seq::<Address>::empty(),
    {
        SpotEvent {
            owner,
            admin_grants: Vec::new(),
            minter_grants: Vec::new(),
            event_name,
            event_date,
            location,
            description,
            max_nfts,
            claim_start,
            claim_end,
            metadata_uri,
            image_url,
            minters: Vec::new(),
        }
    }

    /// The owner address.
    pub fn owner(&self) -> (r: Result<Address, SpotEventError>)
        ensures
            r == Ok::<Address, SpotEventError>(self.owner),
    {
        Ok(self.owner)
    }

    /// Mints the next token to `to` at ledger time `now`.
    ///
    /// Checked in order: `now` must lie inside the inclusive claim window,
    /// `to` must not have minted before, and supply must remain.  On success
    /// the token module assigns the next sequential token identifier and the
    /// mint is recorded; nothing changes on failure.
    pub fn mint(&mut self, now: u64, to: Address) -> (r: Result<u32, SpotEventError>)
        requires
            old(self).wf(),
        ensures
            final(self).wf(),
            r == mint_outcome(*old(self), now, to),
            final(self).same_info(*old(self)),
            final(self).admin_grants == old(self).admin_grants,
            final(self).minter_grants == old(self).minter_grants,
            final(self).max_nfts == old(self).max_nfts,
            r is Err ==> final(self).minters == old(self).minters,
            r is Ok ==> final(self).minters@ == old(self).minters@.push(to),
    {
        if now < self.claim_start {
            return Err(SpotEventError::ClaimPeriodNotStarted);
        }
        if now > self.claim_end {
            return Err(SpotEventError::ClaimPeriodEnded);
        }
        if contains_address(&self.minters, to) {
            return Err(SpotEventError::AlreadyMinted);
        }
        if self.minters.len() >= self.max_nfts as usize {
            return Err(SpotEventError::LimitExceeded);
        }
        let token_id = self.minters.len() as u32;
        let ghost oldm = self.minters@;
        self.minters.push(to);
        proof {
            assert forall|i: int, j: int|
                0 <= i < self.minters@.len() && 0 <= j < self.minters@.len() && i != j implies
                self.minters@[i] != self.minters@[j] by {
                if i < oldm.len() && j < oldm.len() {
                    assert(oldm[i] != oldm[j]);
                } else if j == oldm.len() {
                    if self.minters@[i] == to {
                        assert(oldm[i] == to);
                        assert(oldm.contains(to));
                    }
                } else {
                    if self.minters@[j] == to {
                        assert(oldm[j] == to);
                        assert(oldm.contains(to));
                    }
                }
            }
        }
        Ok(token_id)
    }

    /// Mints through the authorization gate: `operator` must be the owner, an
    /// admin, or hold the minter role; the mint itself then proceeds as
    /// [`SpotEvent::mint`].
    pub fn mint_authorized(&mut self, now: u64, to: Address, operator: Address) -> (r: Result<
        u32,
        SpotEventError,
    >)
        requires
            old(self).wf(),
        ensures
            final(self).wf(),
            !old(self).can_mint(operator) ==> r == Err::<u32, SpotEventError>(
                SpotEventError::Unauthorized,
            ) && *final(self) == *old(self),
            old(self).can_mint(operator) ==> {
                &&& r == mint_outcome(*old(self), now, to)
                &&& final(self).same_info(*old(self))
                &&& final(self).admin_grants == old(self).admin_grants
                &&& final(self).minter_grants == old(self).minter_grants
                &&& final(self).max_nfts == old(self).max_nfts
                &&& (r is Err ==> final(self).minters == old(self).minters)
                &&& (r is Ok ==> final(self).minters@ == old(self).minters@.push(to))
            },
    {
        if !(operator == self.owner || contains_address(&self.admin_grants, operator)
            || contains_address(&self.minter_grants, operator)) {
            return Err(SpotEventError::Unauthorized);
        }
        self.mint(now, to)
    }

    /// Whether `address` has minted its token.
    pub fn has_minted(&self, address: Address) -> (r: bool)
        ensures
            r == self.minters@.contains(address),
    {
        contains_address(&self.minters, address)
    }

    /// The stored event information: name, date, location, description, cap,
    /// minted count, window start, window end, metadata URI and image URL.
    pub fn get_event_info(&self) -> (r: (
        String,
        u64,
        String,
        String,
        u32,
        u32,
        u64,
        u64,
        String,
        String,
    ))
        requires
            self.wf(),
        ensures
            r.0 == self.event_name,
            r.1 == self.event_date,
            r.2 == self.location,
            r.3 == self.description,
            r.4 == self.max_nfts,
            r.5 as int == self.minters@.len(),
            r.6 == self.claim_start,
            r.7 == self.claim_end,
            r.8 == self.metadata_uri,
            r.9 == self.image_url,
    {
        (
            self.event_name.clone(),
            self.event_date,
            self.location.clone(),
            self.description.clone(),
            self.max_nfts,
            self.minters.len() as u32,
            self.claim_start,
            self.claim_end,
            self.metadata_uri.clone(),
            self.image_url.clone(),
        )
    }

    /// After the claim window has closed, lowers the cap to the minted count
    /// and returns how many tokens were left unclaimed.  Only the owner or an
    /// admin may call; before the window closes the call fails (with
    /// `ClaimPeriodNotStarted`, as published).  Nothing changes on failure.
    pub fn burn_unclaimed(&mut self, now: u64, operator: Address) -> (r: Result<
        u32,
        SpotEventError,
    >)
        requires
            old(self).wf(),
        ensures
            final(self).wf(),
            !old(self).is_owner_or_admin(operator) ==> r == Err::<u32, SpotEventError>(
                SpotEventError::Unauthorized,
            ) && *final(self) == *old(self),
            old(self).is_owner_or_admin(operator) && now <= old(self).claim_end ==> r == Err::<
                u32,
                SpotEventError,
            >(SpotEventError::ClaimPeriodNotStarted) && *final(self) == *old(self),
            old(self).is_owner_or_admin(operator) && now > old(self).claim_end ==> {
                &&& r == Ok::<u32, SpotEventError>(
                    ((old(self).max_nfts - old(self).minters@.len()) as u32),
                )
                &&& final(self).max_nfts as int == old(self).minters@.len()
                &&& final(self).same_info(*old(self))
                &&& final(self).admin_grants == old(self).admin_grants
                &&& final(self).minter_grants == old(self).minter_grants
                &&& final(self).minters == old(self).minters
            },
    {
        if !(operator == self.owner || contains_address(&self.admin_grants, operator)) {
            return Err(SpotEventError::Unauthorized);
        }
        if now <= self.claim_end {
            return Err(SpotEventError::ClaimPeriodNotStarted);
        }
        let minted = self.minters.len() as u32;
        let unclaimed = self.max_nfts - minted;
        self.max_nfts = minted;
        Ok(unclaimed)
    }

    /// Grants the minter role to `minter`.  Only the owner or an admin may
    /// call; nothing changes on failure.
    pub fn grant_minter_role(&mut self, minter: Address, operator: Address) -> (r: Result<
        (),
        SpotEventError,
    >)
        requires
            old(self).wf(),
        ensures
            final(self).wf(),
            !old(self).is_owner_or_admin(operator) ==> r == Err::<(), SpotEventError>(
                SpotEventError::Unauthorized,
            ) && *final(self) == *old(self),
            old(self).is_owner_or_admin(operator) ==> {
                &&& r == Ok::<(), SpotEventError>(())
                &&& final(self).same_info(*old(self))
                &&& final(self).admin_grants == old(self).admin_grants
                &&& final(self).minters == old(self).minters
                &&& final(self).max_nfts == old(self).max_nfts
                &&& forall|x: Address|
                    final(self).minter_grants@.contains(x) == (old(
                        self,
                    ).minter_grants@.contains(x) || x == minter)
            },
    {
        if !(operator == self.owner || contains_address(&self.admin_grants, operator)) {
            return Err(SpotEventError::Unauthorized);
        }
        crate::registry::grant(&mut self.minter_grants, minter);
        Ok(())
    }

    /// Revokes the minter role from `minter`.  Only the owner or an admin may
    /// call; nothing changes on failure.
    pub fn revoke_minter_role(&mut self, minter: Address, operator: Address) -> (r: Result<
        (),
        SpotEventError,
    >)
        requires
            old(self).wf(),
        ensures
            final(self).wf(),
            !old(self).is_owner_or_admin(operator) ==> r == Err::<(), SpotEventError>(
                SpotEventError::Unauthorized,
            ) && *final(self) == *old(self),
            old(self).is_owner_or_admin(operator) ==> {
                &&& r == Ok::<(), SpotEventError>(())
                &&& final(self).same_info(*old(self))
                &&& final(self).admin_grants == old(self).admin_grants
                &&& final(self).minters == old(self).minters
                &&& final(self).max_nfts == old(self).max_nfts
                &&& forall|x: Address|
                    final(self).minter_grants@.contains(x) == (old(
                        self,
                    ).minter_grants@.contains(x) && x != minter)
            },
    {
        if !(operator == self.owner || contains_address(&self.admin_grants, operator)) {
            return Err(SpotEventError::Unauthorized);
        }
        crate::registry::revoke(&mut self.minter_grants, minter);
        Ok(())
    }

    /// Grants the admin role to `admin`.  Only the owner or an admin may
    /// call; nothing changes on failure.
    pub fn grant_admin_role(&mut self, admin: Address, operator: Address) -> (r: Result<
        (),
        SpotEventError,
    >)
        requires
            old(self).wf(),
        ensures
            final(self).wf(),
            !old(self).is_owner_or_admin(operator) ==> r == Err::<(), SpotEventError>(
                SpotEventError::Unauthorized,
            ) && *final(self) == *old(self),
            old(self).is_owner_or_admin(operator) ==> {
                &&& r == Ok::<(), SpotEventError>(())
                &&& final(self).same_info(*old(self))
                &&& final(self).minter_grants == old(self).minter_grants
                &&& final(self).minters == old(self).minters
                &&& final(self).max_nfts == old(self).max_nfts
                &&& forall|x: Address|
                    final(self).is_owner_or_admin(x) == (old(self).is_owner_or_admin(x) || x
                        == admin)
            },
    {
        if !(operator == self.owner || contains_address(&self.admin_grants, operator)) {
            return Err(SpotEventError::Unauthorized);
        }
        crate::registry::grant(&mut self.admin_grants, admin);
        Ok(())
    }
}

/// The exact result of [`SpotEvent::mint`], as a function of the state and
/// the inputs.
pub open spec fn mint_outcome(s: SpotEvent, now: u64, to: Address) -> Result<
    u32,
    SpotEventError,
> {
    if now < s.claim_start {
        Err(SpotEventError::ClaimPeriodNotStarted)
    } else if now > s.claim_end {
        Err(SpotEventError::ClaimPeriodEnded)
    } else if s.minters@.contains(to) {
        Err(SpotEventError::AlreadyMinted)
    } else if s.minters@.len() >= s.max_nfts {
        Err(SpotEventError::LimitExceeded)
    } else {
        Ok(s.minters@.len() as u32)
    }
}

} // verus!
