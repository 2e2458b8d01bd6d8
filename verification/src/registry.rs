//! The multi-event registry: event records, creator approval, and the claim
//! engine.
//!
//! The whole persisted state of the registry is the [`Spot`] value.  The host
//! ledger authenticates the acting address, stores the value between
//! invocations and supplies the current time `now`; each operation here is one
//! atomic step of the state machine, validated fully before any mutation.
//!
//! The model fixes the two external collaborators at their interface
//! contracts: the token module mints sequential token identifiers starting at
//! zero (one per successful claim, so the next identifier equals the number of
//! claims recorded), and the role store is a pair of grant lists.

use vstd::prelude::*;

use crate::errors::SpotError;

verus! {

/// An account identity, already authenticated by the host before a call.
pub type Address = u64;

/// One registered event.  `event_id`, `creator`, `max_poaps`, `claim_start`
/// and `claim_end` are immutable once assigned; the descriptive fields may be
/// updated by the creator or an admin.
#[derive(Debug)]
pub struct EventData {
    pub event_id: u32,
    pub creator: Address,
    pub event_name: String,
    pub event_date: u64,
    pub location: String,
    pub description: String,
    pub max_poaps: u32,
    pub claim_start: u64,
    pub claim_end: u64,
    pub metadata_uri: String,
    pub image_url: String,
}

/// Backend approval of a prospective creator, written by an admin once the
/// off-chain payment has cleared.
#[derive(Debug)]
pub struct CreatorApproval {
    pub payment_reference: String,
    pub approved_at: u64,
    pub approved_by: Address,
}

/// One successful claim: `token_id` was minted to `claimant` for `event_id`.
/// The registry appends one record per success, in mint order.
#[derive(Clone, Copy, PartialEq, Eq, Structural)]
pub struct Claim {
    pub event_id: u32,
    pub claimant: Address,
    pub token_id: u32,
}

/// A creator approval keyed by the approved address.
pub struct ApprovalEntry {
    pub creator: Address,
    pub record: CreatorApproval,
}

/// The registry state: the designated admin, the role-grant lists, the
/// append-only event list, the append-only claim log and the approval table.
///
/// Events are stored in creation order, so the event with identifier `i` is
/// `events[i - 1]`; identifiers are assigned from 1 upward with no gaps.
pub struct Spot {
    pub admin: Address,
    pub admin_grants: Vec<Address>,
    pub creator_grants: Vec<Address>,
    pub events: Vec<EventData>,
    pub claims: Vec<Claim>,
    pub approvals: Vec<ApprovalEntry>,
}

/// The token identifiers minted for `event_id`, in mint order.
pub open spec fn event_tokens(claims: Seq<Claim>, event_id: u32) -> Seq<u32>
    decreases claims.len(),
{
    if claims.len() == 0 {
        Seq::empty()
    } else if claims.last().event_id == event_id {
        event_tokens(claims.drop_last(), event_id).push(claims.last().token_id)
    } else {
        event_tokens(claims.drop_last(), event_id)
    }
}

/// Whether the log holds a claim by `claimant` for `event_id`.
pub open spec fn claimed_in(claims: Seq<Claim>, event_id: u32, claimant: Address) -> bool {
    exists|i: int|
        0 <= i < claims.len() && (#[trigger] claims[i]).event_id == event_id
            && claims[i].claimant == claimant
}

/// No two claims are by the same claimant for the same event.
pub open spec fn claims_distinct(claims: Seq<Claim>) -> bool {
    forall|i: int, j: int|
        0 <= i < j < claims.len() ==> !((#[trigger] claims[i]).event_id
            == (#[trigger] claims[j]).event_id && claims[i].claimant == claims[j].claimant)
}

/// The token minted to `claimant` for `event_id` (meaningful only when
/// `claimed_in` holds; the log then has exactly one matching record).
pub open spec fn token_for(claims: Seq<Claim>, event_id: u32, claimant: Address) -> u32
    decreases claims.len(),
{
    if claims.len() == 0 {
        0
    } else if claims.last().event_id == event_id && claims.last().claimant == claimant {
        claims.last().token_id
    } else {
        token_for(claims.drop_last(), event_id, claimant)
    }
}

/// The approval on record for `creator`: the most recently written entry, if
/// any (the table keeps at most one entry per creator).
pub open spec fn approval_for(entries: Seq<ApprovalEntry>, creator: Address) -> Option<
    CreatorApproval,
>
    decreases entries.len(),
{
    if entries.len() == 0 {
        Option::None
    } else if entries.last().creator == creator {
        Option::Some(entries.last().record)
    } else {
        approval_for(entries.drop_last(), creator)
    }
}

/// No two approval entries are for the same creator.
pub open spec fn approvals_distinct(entries: Seq<ApprovalEntry>) -> bool {
    forall|i: int, j: int|
        0 <= i < j < entries.len() ==> (#[trigger] entries[i]).creator != (
        #[trigger] entries[j]).creator
}

proof fn lemma_approval_for_absent(entries: Seq<ApprovalEntry>, creator: Address)
    requires
        forall|i: int| 0 <= i < entries.len() ==> (#[trigger] entries[i]).creator != creator,
    ensures
        approval_for(entries, creator) is None,
    decreases entries.len(),
{
    if entries.len() > 0 {
        assert(forall|i: int|
            0 <= i < entries.drop_last().len() ==> (#[trigger] entries.drop_last()[i]).creator
                != creator) by {
            assert(forall|i: int|
                0 <= i < entries.drop_last().len() ==> entries.drop_last()[i] == entries[i]);
        }
        lemma_approval_for_absent(entries.drop_last(), creator);
    }
}

proof fn lemma_approval_for_present(entries: Seq<ApprovalEntry>, creator: Address, i: int)
    requires
        0 <= i < entries.len(),
        entries[i].creator == creator,
    ensures
        approval_for(entries, creator) is Some,
    decreases entries.len(),
{
    if entries.last().creator != creator {
        assert(entries.drop_last()[i] == entries[i]);
        lemma_approval_for_present(entries.drop_last(), creator, i);
    }
}

proof fn lemma_approval_for_found(entries: Seq<ApprovalEntry>, creator: Address, i: int)
    requires
        approvals_distinct(entries),
        0 <= i < entries.len(),
        entries[i].creator == creator,
    ensures
        approval_for(entries, creator) == Some(entries[i].record),
    decreases entries.len(),
{
    if i == entries.len() - 1 {
        assert(entries.last() == entries[i]);
    } else {
        assert(entries.last().creator != creator);
        assert(entries.drop_last()[i] == entries[i]);
        lemma_approval_for_found(entries.drop_last(), creator, i);
    }
}

proof fn lemma_approval_for_remove(entries: Seq<ApprovalEntry>, i: int, creator: Address)
    requires
        0 <= i < entries.len(),
        entries[i].creator != creator,
    ensures
        approval_for(entries.remove(i), creator) == approval_for(entries, creator),
    decreases entries.len(),
{
    entries.remove_ensures(i);
    if i == entries.len() - 1 {
        assert(entries.remove(i) =~= entries.drop_last());
    } else {
        assert(entries.remove(i).last() == entries.last());
        if entries.last().creator != creator {
            assert(entries.drop_last()[i] == entries[i]);
            lemma_approval_for_remove(entries.drop_last(), i, creator);
            assert(entries.remove(i).drop_last() =~= entries.drop_last().remove(i));
        }
    }
}

proof fn lemma_event_tokens_le_len(claims: Seq<Claim>, event_id: u32)
    ensures
        event_tokens(claims, event_id).len() <= claims.len(),
    decreases claims.len(),
{
    if claims.len() > 0 {
        lemma_event_tokens_le_len(claims.drop_last(), event_id);
    }
}

proof fn lemma_event_tokens_absent(claims: Seq<Claim>, event_id: u32)
    requires
        forall|j: int| 0 <= j < claims.len() ==> (#[trigger] claims[j]).event_id != event_id,
    ensures
        event_tokens(claims, event_id).len() == 0,
    decreases claims.len(),
{
    if claims.len() > 0 {
        assert(forall|j: int|
            0 <= j < claims.drop_last().len() ==> (#[trigger] claims.drop_last()[j]).event_id
                != event_id) by {
            assert(forall|j: int|
                0 <= j < claims.drop_last().len() ==> claims.drop_last()[j] == claims[j]);
        }
        lemma_event_tokens_absent(claims.drop_last(), event_id);
    }
}

proof fn lemma_event_tokens_push(claims: Seq<Claim>, c: Claim, event_id: u32)
    ensures
        c.event_id == event_id ==> event_tokens(claims.push(c), event_id) == event_tokens(
            claims,
            event_id,
        ).push(c.token_id),
        c.event_id != event_id ==> event_tokens(claims.push(c), event_id) == event_tokens(
            claims,
            event_id,
        ),
{
    assert(claims.push(c).drop_last() =~= claims);
    assert(claims.push(c).last() == c);
}

pub(crate) proof fn lemma_event_tokens_increasing(claims: Seq<Claim>, event_id: u32)
    requires
        forall|j: int| 0 <= j < claims.len() ==> (#[trigger] claims[j]).token_id == j,
    ensures
        forall|p: int|
            0 <= p < event_tokens(claims, event_id).len() ==> #[trigger] event_tokens(
                claims,
                event_id,
            )[p] < claims.len(),
        forall|p: int, q: int|
            0 <= p < q < event_tokens(claims, event_id).len() ==> event_tokens(
                claims,
                event_id,
            )[p] < event_tokens(claims, event_id)[q],
    decreases claims.len(),
{
    if claims.len() > 0 {
        assert(forall|j: int|
            0 <= j < claims.drop_last().len() ==> (#[trigger] claims.drop_last()[j]).token_id
                == j) by {
            assert(forall|j: int|
                0 <= j < claims.drop_last().len() ==> claims.drop_last()[j] == claims[j]);
        }
        lemma_event_tokens_increasing(claims.drop_last(), event_id);
        let rest = event_tokens(claims.drop_last(), event_id);
        let toks = event_tokens(claims, event_id);
        if claims.last().event_id == event_id {
            assert(toks == rest.push(claims.last().token_id));
            assert(claims.last().token_id == claims.len() - 1);
            assert forall|p: int| 0 <= p < toks.len() implies #[trigger] toks[p]
                < claims.len() by {
                if p < rest.len() {
                    assert(toks[p] == rest[p]);
                }
            }
            assert forall|p: int, q: int| 0 <= p < q < toks.len() implies toks[p] < toks[q] by {
                if q < rest.len() {
                    assert(toks[p] == rest[p] && toks[q] == rest[q]);
                } else {
                    assert(toks[p] == rest[p]);
                    assert(rest[p] < claims.drop_last().len());
                }
            }
        } else {
            assert(toks == rest);
            assert forall|p: int| 0 <= p < toks.len() implies #[trigger] toks[p]
                < claims.len() by {
                assert(toks[p] == rest[p]);
            }
        }
    }
}

proof fn lemma_token_for_found(claims: Seq<Claim>, event_id: u32, claimant: Address, i: int)
    requires
        claims_distinct(claims),
        0 <= i < claims.len(),
        claims[i].event_id == event_id,
        claims[i].claimant == claimant,
    ensures
        token_for(claims, event_id, claimant) == claims[i].token_id,
    decreases claims.len(),
{
    if i == claims.len() - 1 {
        assert(claims.last() == claims[i]);
    } else {
        assert(!(claims.last().event_id == event_id && claims.last().claimant == claimant));
        assert(claims.drop_last()[i] == claims[i]);
        lemma_token_for_found(claims.drop_last(), event_id, claimant, i);
    }
}

/// Adds `a` to a duplicate-free address list unless already present.
pub(crate) fn grant(v: &mut Vec<Address>, a: Address)
    requires
        old(v)@.no_duplicates(),
    ensures
        final(v)@.no_duplicates(),
        forall|x: Address| final(v)@.contains(x) == (old(v)@.contains(x) || x == a),
{
    if !contains_address(v, a) {
        let ghost oldv = v@;
        v.push(a);
        proof {
            assert forall|x: Address| v@.contains(x) == (oldv.contains(x) || x == a) by {
                if oldv.contains(x) {
                    let i = choose|i: int| 0 <= i < oldv.len() && oldv[i] == x;
                    assert(v@[i] == x);
                }
                if x == a {
                    assert(v@[oldv.len() as int] == x);
                }
                if v@.contains(x) && x != a {
                    let i = choose|i: int| 0 <= i < v@.len() && v@[i] == x;
                    assert(i < oldv.len());
                    assert(oldv[i] == x);
                }
            }
            assert forall|i: int, j: int|
                0 <= i < v@.len() && 0 <= j < v@.len() && i != j implies v@[i] != v@[j] by {
                if i < oldv.len() && j < oldv.len() {
                    assert(oldv[i] != oldv[j]);
                } else if j == oldv.len() {
                    if v@[i] == a {
                        assert(oldv[i] == a);
                        assert(oldv.contains(a));
                    }
                } else {
                    if v@[j] == a {
                        assert(oldv[j] == a);
                        assert(oldv.contains(a));
                    }
                }
            }
        }
    }
}

/// Removes `a` from a duplicate-free address list; absence is a no-op.
pub(crate) fn revoke(v: &mut Vec<Address>, a: Address)
    requires
        old(v)@.no_duplicates(),
    ensures
        final(v)@.no_duplicates(),
        forall|x: Address| final(v)@.contains(x) == (old(v)@.contains(x) && x != a),
{
    let n = v.len();
    let mut i: usize = 0;
    while i < n
        invariant
            n == v@.len(),
            i <= n,
            v@ == old(v)@,
            v@.no_duplicates(),
            forall|j: int| 0 <= j < i ==> v@[j] != a,
        decreases n - i,
    {
        if v[i] == a {
            let ghost oldv = v@;
            assert(oldv[i as int] == a);
            v.remove(i);
            proof {
                oldv.remove_ensures(i as int);
                assert forall|x: Address| v@.contains(x) == (oldv.contains(x) && x != a) by {
                    if v@.contains(x) {
                        let j = choose|j: int| 0 <= j < v@.len() && v@[j] == x;
                        if j < i {
                            assert(oldv[j] == x);
                        } else {
                            assert(oldv[j + 1] == x);
                            assert(j + 1 != i);
                            assert(x != a);
                        }
                    }
                    if oldv.contains(x) && x != a {
                        let j = choose|j: int| 0 <= j < oldv.len() && oldv[j] == x;
                        assert(j != i);
                        if j < i {
                            assert(v@[j] == x);
                        } else {
                            assert(v@[j - 1] == x);
                        }
                    }
                }
                assert forall|p: int, q: int|
                    0 <= p < v@.len() && 0 <= q < v@.len() && p != q implies v@[p] != v@[q] by {
                    let p0: int = if p < i { p } else { p + 1 };
                    let q0: int = if q < i { q } else { q + 1 };
                    assert(v@[p] == oldv[p0]);
                    assert(v@[q] == oldv[q0]);
                    assert(oldv[p0] != oldv[q0]);
                }
            }
            return ;
        }
        i += 1;
    }
    assert(!v@.contains(a));
}

/// Position of the approval entry of `creator`, if one exists.
fn find_approval_index(entries: &Vec<ApprovalEntry>, creator: Address) -> (r: Option<usize>)
    ensures
        r matches Some(i) ==> i < entries@.len() && entries@[i as int].creator == creator,
        r is None ==> forall|j: int|
            0 <= j < entries@.len() ==> (#[trigger] entries@[j]).creator != creator,
{
    let mut i: usize = 0;
    while i < entries.len()
        invariant
            i <= entries@.len(),
            forall|j: int| 0 <= j < i ==> (#[trigger] entries@[j]).creator != creator,
        decreases entries@.len() - i,
    {
        if entries[i].creator == creator {
            return Some(i);
        }
        i += 1;
    }
    None
}

/// Writes or overwrites the approval entry of `creator`.
fn upsert_approval(entries: &mut Vec<ApprovalEntry>, creator: Address, record: CreatorApproval)
    requires
        approvals_distinct(old(entries)@),
    ensures
        approvals_distinct(final(entries)@),
        approval_for(final(entries)@, creator) == Some(record),
        forall|c: Address|
            c != creator ==> approval_for(final(entries)@, c) == approval_for(old(entries)@, c),
{
    let ghost oldv = entries@;
    match find_approval_index(entries, creator) {
        Some(i) => {
            entries.remove(i);
            proof {
                oldv.remove_ensures(i as int);
                assert forall|c: Address| c != creator implies approval_for(entries@, c)
                    == approval_for(oldv, c) by {
                    lemma_approval_for_remove(oldv, i as int, c);
                }
                assert forall|j: int| 0 <= j < entries@.len() implies (
                #[trigger] entries@[j]).creator != creator by {
                    if j < i {
                        assert(entries@[j] == oldv[j]);
                    } else {
                        assert(entries@[j] == oldv[j + 1]);
                    }
                }
            }
        },
        None => {},
    }
    let ghost mid = entries@;
    entries.push(ApprovalEntry { creator, record });
    proof {
        assert(entries@.drop_last() =~= mid);
        assert(entries@.last() == (ApprovalEntry { creator, record }));
        assert forall|c: Address| c != creator implies approval_for(entries@, c) == approval_for(
            oldv,
            c,
        ) by {
            assert(approval_for(entries@, c) == approval_for(mid, c));
        }
        assert forall|p: int, q: int| 0 <= p < q < entries@.len() implies (
        #[trigger] entries@[p]).creator != (#[trigger] entries@[q]).creator by {
            if q == mid.len() {
                assert(entries@[p] == mid[p]);
            } else {
                assert(entries@[p] == mid[p]);
                assert(entries@[q] == mid[q]);
            }
        }
    }
}

/// Deletes the approval entry of `creator`; absence is a no-op.
fn remove_approval(entries: &mut Vec<ApprovalEntry>, creator: Address)
    requires
        approvals_distinct(old(entries)@),
    ensures
        approvals_distinct(final(entries)@),
        approval_for(final(entries)@, creator) is None,
        forall|c: Address|
            c != creator ==> approval_for(final(entries)@, c) == approval_for(old(entries)@, c),
{
    let ghost oldv = entries@;
    match find_approval_index(entries, creator) {
        Some(i) => {
            entries.remove(i);
            proof {
                oldv.remove_ensures(i as int);
                assert forall|c: Address| c != creator implies approval_for(entries@, c)
                    == approval_for(oldv, c) by {
                    lemma_approval_for_remove(oldv, i as int, c);
                }
                assert forall|j: int| 0 <= j < entries@.len() implies (
                #[trigger] entries@[j]).creator != creator by {
                    if j < i {
                        assert(entries@[j] == oldv[j]);
                    } else {
                        assert(entries@[j] == oldv[j + 1]);
                    }
                }
                lemma_approval_for_absent(entries@, creator);
                assert forall|p: int, q: int| 0 <= p < q < entries@.len() implies (
                #[trigger] entries@[p]).creator != (#[trigger] entries@[q]).creator by {
                    let p0: int = if p < i { p } else { p + 1 };
                    let q0: int = if q < i { q } else { q + 1 };
                    assert(entries@[p] == oldv[p0]);
                    assert(entries@[q] == oldv[q0]);
                }
            }
        },
        None => {
            proof {
                lemma_approval_for_absent(entries@, creator);
            }
        },
    }
}

/// Membership test on an address list.
pub(crate) fn contains_address(v: &Vec<Address>, a: Address) -> (r: bool)
    ensures
        r == v@.contains(a),
{
    let mut i: usize = 0;
    while i < v.len()
        invariant
            i <= v@.len(),
            forall|j: int| 0 <= j < i ==> v@[j] != a,
        decreases v@.len() - i,
    {
        if v[i] == a {
            assert(v@[i as int] == a);
            return true;
        }
        i += 1;
    }
    false
}

impl Spot {
    /// Whether an event with this identifier is registered.
    pub open spec fn has_event(self, event_id: u32) -> bool {
        1 <= event_id <= self.events@.len()
    }

    /// The record of a registered event.
    pub open spec fn event_at(self, event_id: u32) -> EventData {
        self.events@[event_id - 1]
    }

    /// Whether `a` is the designated admin or holds the granted admin role.
    pub open spec fn is_admin(self, a: Address) -> bool {
        a == self.admin || self.admin_grants@.contains(a)
    }

    /// Whether `a` holds the granted creator role.
    pub open spec fn has_creator_role(self, a: Address) -> bool {
        self.creator_grants@.contains(a)
    }

    /// Whether `a` holds a creator approval record.
    pub open spec fn approved(self, a: Address) -> bool {
        approval_for(self.approvals@, a) is Some
    }

    /// Number of tokens minted for `event_id`.
    pub open spec fn minted(self, event_id: u32) -> nat {
        event_tokens(self.claims@, event_id).len()
    }

    /// Whether `claimant` has claimed a token for `event_id`.
    pub open spec fn claimed(self, event_id: u32, claimant: Address) -> bool {
        claimed_in(self.claims@, event_id, claimant)
    }

    /// Validity of the registry state.  Constructors establish it and every
    /// operation preserves it:
    /// - event identifiers are the positions shifted by one (1-based, gapless),
    /// - every event has a positive supply cap and an ordered claim window,
    /// - claims refer to registered events, carry the sequential token
    ///   identifiers the token module assigned, and hold at most one record
    ///   per `(event, claimant)` pair,
    /// - no event has more claims than its supply cap,
    /// - the role-grant lists and the approval table hold no duplicates.
    pub open spec fn wf(self) -> bool {
        &&& self.events@.len() <= u32::MAX as int
        &&& self.claims@.len() <= u32::MAX as int
        &&& forall|i: int|
            0 <= i < self.events@.len() ==> {
                &&& (#[trigger] self.events@[i]).event_id == i + 1
                &&& self.events@[i].max_poaps > 0
                &&& self.events@[i].claim_start <= self.events@[i].claim_end
            }
        &&& forall|j: int|
            0 <= j < self.claims@.len() ==> {
                &&& 1 <= (#[trigger] self.claims@[j]).event_id <= self.events@.len()
                &&& self.claims@[j].token_id == j
            }
        &&& claims_distinct(self.claims@)
        &&& forall|e: u32|
            1 <= e <= self.events@.len() ==> #[trigger] event_tokens(self.claims@, e).len()
                <= self.events@[e - 1].max_poaps
        &&& self.admin_grants@.no_duplicates()
        &&& self.creator_grants@.no_duplicates()
        &&& approvals_distinct(self.approvals@)
    }

    /// A fresh registry with the designated admin and no events, claims,
    /// grants or approvals.
    pub fn new(admin: Address) -> (s: Spot)
        ensures
            s.wf(),
            s.admin == admin,
            s.admin_grants@ == Seq::<Address>::empty(),
            s.creator_grants@ == Seq::<Address>::empty(),
            s.events@ == Seq::<EventData>::empty(),
            s.claims@ == Seq::<Claim>::empty(),
            s.approvals@ == Seq::<ApprovalEntry>::empty(),
    {
        Spot {
            admin,
            admin_grants: Vec::new(),
            creator_grants: Vec::new(),
            events: Vec::new(),
            claims: Vec::new(),
            approvals: Vec::new(),
        }
    }

    /// The designated admin address.
    pub fn admin(&self) -> (r: Result<Address, SpotError>)
        ensures
            r == Ok::<Address, SpotError>(self.admin),
    {
        Ok(self.admin)
    }

    /// The total number of registered events, which equals the highest
    /// assigned event identifier.
    pub fn event_count(&self) -> (n: u32)
        requires
            self.wf(),
        ensures
            n as int == self.events@.len(),
    {
        self.events.len() as u32
    }

    /// The total number of tokens minted over all events, which equals the
    /// next token identifier the token module will assign.
    pub fn total_supply(&self) -> (n: u32)
        requires
            self.wf(),
        ensures
            n as int == self.claims@.len(),
    {
        self.claims.len() as u32
    }

    /// Whether `a` may act as admin: the designated admin or a holder of the
    /// granted admin role.
    fn is_admin_address(&self, a: Address) -> (r: bool)
        ensures
            r == self.is_admin(a),
    {
        if a == self.admin {
            true
        } else {
            contains_address(&self.admin_grants, a)
        }
    }

    /// Whether `creator` holds an approval record.
    fn has_creator_approval(&self, creator: Address) -> (r: bool)
        ensures
            r == self.approved(creator),
    {
        let mut i: usize = 0;
        while i < self.approvals.len()
            invariant
                i <= self.approvals@.len(),
                forall|j: int| 0 <= j < i ==> (#[trigger] self.approvals@[j]).creator != creator,
            decreases self.approvals@.len() - i,
        {
            if self.approvals[i].creator == creator {
                proof {
                    lemma_approval_for_present(self.approvals@, creator, i as int);
                }
                return true;
            }
            i += 1;
        }
        proof {
            lemma_approval_for_absent(self.approvals@, creator);
        }
        false
    }

    /// Registers a new event and returns its identifier.
    ///
    /// Checked in order: the creator must be an admin or hold an approval
    /// record, must additionally be an admin or hold the creator role, the
    /// supply cap must be positive and the claim window ordered.  On success
    /// the next event identifier is assigned and the record appended; nothing
    /// changes on failure.
    pub fn create_event(
        &mut self,
        creator: Address,
        event_name: String,
        event_date: u64,
        location: String,
        description: String,
        max_poaps: u32,
        claim_start: u64,
        claim_end: u64,
        metadata_uri: String,
        image_url: String,
    ) -> (r: Result<u32, SpotError>)
        requires
            old(self).wf(),
            old(self).events@.len() < u32::MAX as int,
        ensures
            final(self).wf(),
            r == create_outcome(*old(self), creator, max_poaps, claim_start, claim_end),
            final(self).admin == old(self).admin,
            final(self).admin_grants == old(self).admin_grants,
            final(self).creator_grants == old(self).creator_grants,
            final(self).claims == old(self).claims,
            final(self).approvals == old(self).approvals,
            r is Err ==> final(self).events == old(self).events,
            r is Ok ==> final(self).events@ == old(self).events@.push(
                (EventData {
                    event_id: (old(self).events@.len() + 1) as u32,
                    creator,
                    event_name,
                    event_date,
                    location,
                    description,
                    max_poaps,
                    claim_start,
                    claim_end,
                    metadata_uri,
                    image_url,
                }),
            ),
    {
        let admin_ok = self.is_admin_address(creator);
        if !admin_ok && !self.has_creator_approval(creator) {
            return Err(SpotError::CreatorNotApproved);
        }
        if !admin_ok && !contains_address(&self.creator_grants, creator) {
            return Err(SpotError::Unauthorized);
        }
        if max_poaps == 0 {
            return Err(SpotError::InvalidParameters);
        }
        if claim_end < claim_start {
            return Err(SpotError::InvalidParameters);
        }
        let event_id = self.events.len() as u32 + 1;
        let event_data = EventData {
            event_id,
            creator,
            event_name,
            event_date,
            location,
            description,
            max_poaps,
            claim_start,
            claim_end,
            metadata_uri,
            image_url,
        };
        self.events.push(event_data);
        proof {
            assert forall|e: u32| 1 <= e <= self.events@.len() implies #[trigger] event_tokens(
                self.claims@,
                e,
            ).len() <= self.events@[e - 1].max_poaps by {
                if e == self.events@.len() {
                    assert(forall|j: int|
                        0 <= j < self.claims@.len() ==> (#[trigger] self.claims@[j]).event_id != e);
                    lemma_event_tokens_absent(self.claims@, e);
                }
            }
        }
        Ok(event_id)
    }
}

impl Spot {
    /// Whether `address` has claimed a token for `event_id`.
    pub fn has_claimed(&self, event_id: u32, address: Address) -> (r: bool)
        ensures
            r == self.claimed(event_id, address),
    {
        let mut i: usize = 0;
        while i < self.claims.len()
            invariant
                i <= self.claims@.len(),
                forall|j: int|
                    0 <= j < i ==> !((#[trigger] self.claims@[j]).event_id == event_id
                        && self.claims@[j].claimant == address),
            decreases self.claims@.len() - i,
        {
            let c = self.claims[i];
            if c.event_id == event_id && c.claimant == address {
                assert(self.claims@[i as int].event_id == event_id && self.claims@[
                    i as int
                ].claimant == address);
                return true;
            }
            i += 1;
        }
        false
    }

    /// Collects the token identifiers minted for `event_id`, in mint order.
    fn collect_event_tokens(&self, event_id: u32) -> (v: Vec<u32>)
        ensures
            v@ == event_tokens(self.claims@, event_id),
    {
        let mut v: Vec<u32> = Vec::new();
        let mut i: usize = 0;
        while i < self.claims.len()
            invariant
                i <= self.claims@.len(),
                v@ == event_tokens(self.claims@.take(i as int), event_id),
            decreases self.claims@.len() - i,
        {
            proof {
                assert(self.claims@.take(i as int + 1).drop_last() =~= self.claims@.take(
                    i as int,
                ));
                assert(self.claims@.take(i as int + 1).last() == self.claims@[i as int]);
            }
            let c = self.claims[i];
            if c.event_id == event_id {
                v.push(c.token_id);
            }
            i += 1;
        }
        proof {
            assert(self.claims@.take(self.claims@.len() as int) =~= self.claims@);
        }
        v
    }

    /// Claims a token of `event_id` for `to` at ledger time `now`.
    ///
    /// Checked in order: the event must exist, `now` must lie inside the
    /// inclusive claim window, `to` must not have claimed before, and supply
    /// must remain.  On success the token module mints the next sequential
    /// token identifier to `to` and the claim is recorded, atomically; nothing
    /// changes on failure.
    pub fn claim(&mut self, now: u64, event_id: u32, to: Address) -> (r: Result<u32, SpotError>)
        requires
            old(self).wf(),
            old(self).claims@.len() < u32::MAX as int,
        ensures
            final(self).wf(),
            r == claim_outcome(*old(self), now, event_id, to),
            final(self).admin == old(self).admin,
            final(self).admin_grants == old(self).admin_grants,
            final(self).creator_grants == old(self).creator_grants,
            final(self).events == old(self).events,
            final(self).approvals == old(self).approvals,
            r is Err ==> final(self).claims == old(self).claims,
            r is Ok ==> final(self).claims@ == old(self).claims@.push(
                (Claim { event_id, claimant: to, token_id: old(self).claims@.len() as u32 }),
            ),
            r is Ok ==> final(self).claimed(event_id, to),
            r is Ok ==> final(self).minted(event_id) == old(self).minted(event_id) + 1,
            r is Ok ==> event_tokens(final(self).claims@, event_id) == event_tokens(
                old(self).claims@,
                event_id,
            ).push(old(self).claims@.len() as u32),
            r is Ok ==> token_for(final(self).claims@, event_id, to) == old(self).claims@.len()
                as u32,
            forall|e: u32, a: Address|
                #[trigger] old(self).claimed(e, a) ==> final(self).claimed(e, a),
    {
        if event_id == 0 || event_id as usize > self.events.len() {
            return Err(SpotError::EventNotFound);
        }
        let idx = (event_id - 1) as usize;
        let start = self.events[idx].claim_start;
        let end = self.events[idx].claim_end;
        if now < start {
            return Err(SpotError::ClaimPeriodNotStarted);
        }
        if now > end {
            return Err(SpotError::ClaimPeriodEnded);
        }
        if self.has_claimed(event_id, to) {
            return Err(SpotError::AlreadyClaimed);
        }
        let tokens = self.collect_event_tokens(event_id);
        proof {
            lemma_event_tokens_le_len(self.claims@, event_id);
        }
        let minted = tokens.len() as u32;
        if minted >= self.events[idx].max_poaps {
            return Err(SpotError::LimitExceeded);
        }
        let token_id = self.claims.len() as u32;
        let ghost old_claims = self.claims@;
        let c = Claim { event_id, claimant: to, token_id };
        self.claims.push(c);
        proof {
            assert forall|e: u32| 1 <= e <= self.events@.len() implies #[trigger] event_tokens(
                self.claims@,
                e,
            ).len() <= self.events@[e - 1].max_poaps by {
                lemma_event_tokens_push(old_claims, c, e);
            }
            lemma_event_tokens_push(old_claims, c, event_id);
            assert(self.claims@[old_claims.len() as int] == c);
            assert forall|e: u32, a: Address| #[trigger] claimed_in(old_claims, e, a) implies
                claimed_in(self.claims@, e, a) by {
                let i = choose|i: int|
                    0 <= i < old_claims.len() && (#[trigger] old_claims[i]).event_id == e
                        && old_claims[i].claimant == a;
                assert(self.claims@[i] == old_claims[i]);
            }
        }
        Ok(token_id)
    }
}

impl Clone for EventData {
    /// Field-for-field copy.
    fn clone(&self) -> (r: Self)
        ensures
            r == *self,
    {
        EventData {
            event_id: self.event_id,
            creator: self.creator,
            event_name: self.event_name.clone(),
            event_date: self.event_date,
            location: self.location.clone(),
            description: self.description.clone(),
            max_poaps: self.max_poaps,
            claim_start: self.claim_start,
            claim_end: self.claim_end,
            metadata_uri: self.metadata_uri.clone(),
            image_url: self.image_url.clone(),
        }
    }
}

impl Clone for CreatorApproval {
    /// Field-for-field copy.
    fn clone(&self) -> (r: Self)
        ensures
            r == *self,
    {
        CreatorApproval {
            payment_reference: self.payment_reference.clone(),
            approved_at: self.approved_at,
            approved_by: self.approved_by,
        }
    }
}

impl Spot {
    /// The record of `event_id`, or `EventNotFound`.
    pub fn get_event(&self, event_id: u32) -> (r: Result<EventData, SpotError>)
        ensures
            self.has_event(event_id) ==> r == Ok::<EventData, SpotError>(
                self.events@[event_id - 1],
            ),
            !self.has_event(event_id) ==> r == Err::<EventData, SpotError>(
                SpotError::EventNotFound,
            ),
    {
        if event_id == 0 || event_id as usize > self.events.len() {
            return Err(SpotError::EventNotFound);
        }
        let idx = (event_id - 1) as usize;
        Ok(self.events[idx].clone())
    }

    /// The number of tokens minted for `event_id`, or `EventNotFound`.
    pub fn minted_count(&self, event_id: u32) -> (r: Result<u32, SpotError>)
        requires
            self.wf(),
        ensures
            self.has_event(event_id) ==> r == Ok::<u32, SpotError>(self.minted(event_id) as u32),
            !self.has_event(event_id) ==> r == Err::<u32, SpotError>(SpotError::EventNotFound),
    {
        if event_id == 0 || event_id as usize > self.events.len() {
            return Err(SpotError::EventNotFound);
        }
        let tokens = self.collect_event_tokens(event_id);
        proof {
            lemma_event_tokens_le_len(self.claims@, event_id);
        }
        Ok(tokens.len() as u32)
    }

    /// All event identifiers, ascending in creation order: `1..=event_count`,
    /// skipping none.
    pub fn get_all_events(&self) -> (r: Vec<u32>)
        requires
            self.wf(),
        ensures
            r@.len() == self.events@.len(),
            forall|i: int| 0 <= i < r@.len() ==> r@[i] == i + 1,
    {
        let mut r: Vec<u32> = Vec::new();
        let mut i: usize = 0;
        while i < self.events.len()
            invariant
                self.events@.len() <= u32::MAX as int,
                i <= self.events@.len(),
                r@.len() == i,
                forall|j: int| 0 <= j < r@.len() ==> r@[j] == j + 1,
            decreases self.events@.len() - i,
        {
            r.push((i as u32) + 1);
            i += 1;
        }
        r
    }

    /// The token minted as the `token_index`-th claim of `event_id`
    /// (0-based, in mint order); `EventNotFound` when the event does not
    /// exist or no such claim was made.
    pub fn get_token_id_for_event(&self, event_id: u32, token_index: u32) -> (r: Result<
        u32,
        SpotError,
    >)
        ensures
            !self.has_event(event_id) ==> r == Err::<u32, SpotError>(SpotError::EventNotFound),
            self.has_event(event_id) && (token_index as int) < self.minted(event_id) ==> r
                == Ok::<u32, SpotError>(event_tokens(self.claims@, event_id)[token_index as int]),
            self.has_event(event_id) && (token_index as int) >= self.minted(event_id) ==> r
                == Err::<u32, SpotError>(SpotError::EventNotFound),
    {
        if event_id == 0 || event_id as usize > self.events.len() {
            return Err(SpotError::EventNotFound);
        }
        let tokens = self.collect_event_tokens(event_id);
        if (token_index as usize) < tokens.len() {
            Ok(tokens[token_index as usize])
        } else {
            Err(SpotError::EventNotFound)
        }
    }

    /// All tokens minted for `event_id`, in mint order; `EventNotFound` when
    /// the event does not exist.
    pub fn get_event_poaps(&self, event_id: u32) -> (r: Result<Vec<u32>, SpotError>)
        ensures
            !self.has_event(event_id) ==> r == Err::<Vec<u32>, SpotError>(
                SpotError::EventNotFound,
            ),
            self.has_event(event_id) ==> (r matches Ok(v) && v@ == event_tokens(
                self.claims@,
                event_id,
            )),
    {
        if event_id == 0 || event_id as usize > self.events.len() {
            return Err(SpotError::EventNotFound);
        }
        Ok(self.collect_event_tokens(event_id))
    }

    /// The token `address` claimed for `event_id`.  As published, absence of
    /// a claim is reported with the same error as a missing event.
    pub fn get_user_poap_for_event(&self, event_id: u32, address: Address) -> (r: Result<
        u32,
        SpotError,
    >)
        requires
            self.wf(),
        ensures
            !self.has_event(event_id) ==> r == Err::<u32, SpotError>(SpotError::EventNotFound),
            self.has_event(event_id) && !self.claimed(event_id, address) ==> r == Err::<
                u32,
                SpotError,
            >(SpotError::EventNotFound),
            self.has_event(event_id) && self.claimed(event_id, address) ==> r == Ok::<
                u32,
                SpotError,
            >(token_for(self.claims@, event_id, address)),
    {
        if event_id == 0 || event_id as usize > self.events.len() {
            return Err(SpotError::EventNotFound);
        }
        let mut i: usize = 0;
        while i < self.claims.len()
            invariant
                self.wf(),
                i <= self.claims@.len(),
                forall|j: int|
                    0 <= j < i ==> !((#[trigger] self.claims@[j]).event_id == event_id
                        && self.claims@[j].claimant == address),
            decreases self.claims@.len() - i,
        {
            let c = self.claims[i];
            if c.event_id == event_id && c.claimant == address {
                proof {
                    lemma_token_for_found(self.claims@, event_id, address, i as int);
                }
                return Ok(c.token_id);
            }
            i += 1;
        }
        Err(SpotError::EventNotFound)
    }

    /// The approval on record for `creator`, if any.
    pub fn get_creator_approval(&self, creator: Address) -> (r: Option<CreatorApproval>)
        requires
            self.wf(),
        ensures
            r == approval_for(self.approvals@, creator),
    {
        let mut i: usize = 0;
        while i < self.approvals.len()
            invariant
                self.wf(),
                i <= self.approvals@.len(),
                forall|j: int| 0 <= j < i ==> (#[trigger] self.approvals@[j]).creator != creator,
            decreases self.approvals@.len() - i,
        {
            if self.approvals[i].creator == creator {
                proof {
                    lemma_approval_for_found(self.approvals@, creator, i as int);
                }
                return Some(self.approvals[i].record.clone());
            }
            i += 1;
        }
        proof {
            lemma_approval_for_absent(self.approvals@, creator);
        }
        None
    }
}

impl Spot {
    /// Approves `creator` after an off-chain payment: grants the creator role
    /// and writes (or overwrites) the approval record, stamped with the
    /// ledger time `now` and the approving `operator`.  Only an admin may
    /// call; nothing changes on failure.
    pub fn approve_creator(
        &mut self,
        now: u64,
        operator: Address,
        creator: Address,
        payment_reference: String,
    ) -> (r: Result<(), SpotError>)
        requires
            old(self).wf(),
        ensures
            final(self).wf(),
            !old(self).is_admin(operator) ==> r == Err::<(), SpotError>(SpotError::Unauthorized)
                && *final(self) == *old(self),
            old(self).is_admin(operator) ==> {
                &&& r == Ok::<(), SpotError>(())
                &&& final(self).admin == old(self).admin
                &&& final(self).admin_grants == old(self).admin_grants
                &&& final(self).events == old(self).events
                &&& final(self).claims == old(self).claims
                &&& approval_for(final(self).approvals@, creator) == Some(
                    (CreatorApproval { payment_reference, approved_at: now, approved_by: operator }),
                )
                &&& forall|c: Address|
                    c != creator ==> approval_for(final(self).approvals@, c) == approval_for(
                        old(self).approvals@,
                        c,
                    )
                &&& forall|x: Address|
                    final(self).has_creator_role(x) == (old(self).has_creator_role(x) || x
                        == creator)
            },
    {
        if !self.is_admin_address(operator) {
            return Err(SpotError::Unauthorized);
        }
        grant(&mut self.creator_grants, creator);
        let record = CreatorApproval { payment_reference, approved_at: now, approved_by: operator };
        upsert_approval(&mut self.approvals, creator, record);
        Ok(())
    }

    /// Removes the approval and the creator role of `creator`, e.g. when a
    /// refund is issued.  Only an admin may call; deleting an absent record
    /// is a no-op, not an error.
    pub fn revoke_creator_approval(&mut self, operator: Address, creator: Address) -> (r: Result<
        (),
        SpotError,
    >)
        requires
            old(self).wf(),
        ensures
            final(self).wf(),
            !old(self).is_admin(operator) ==> r == Err::<(), SpotError>(SpotError::Unauthorized)
                && *final(self) == *old(self),
            old(self).is_admin(operator) ==> {
                &&& r == Ok::<(), SpotError>(())
                &&& final(self).admin == old(self).admin
                &&& final(self).admin_grants == old(self).admin_grants
                &&& final(self).events == old(self).events
                &&& final(self).claims == old(self).claims
                &&& approval_for(final(self).approvals@, creator) is None
                &&& forall|c: Address|
                    c != creator ==> approval_for(final(self).approvals@, c) == approval_for(
                        old(self).approvals@,
                        c,
                    )
                &&& forall|x: Address|
                    final(self).has_creator_role(x) == (old(self).has_creator_role(x) && x
                        != creator)
            },
    {
        if !self.is_admin_address(operator) {
            return Err(SpotError::Unauthorized);
        }
        revoke(&mut self.creator_grants, creator);
        remove_approval(&mut self.approvals, creator);
        Ok(())
    }

    /// Grants the admin role to `admin`.  Only an admin may call; nothing
    /// changes on failure.
    pub fn grant_admin_role(&mut self, admin: Address, operator: Address) -> (r: Result<
        (),
        SpotError,
    >)
        requires
            old(self).wf(),
        ensures
            final(self).wf(),
            !old(self).is_admin(operator) ==> r == Err::<(), SpotError>(SpotError::Unauthorized)
                && *final(self) == *old(self),
            old(self).is_admin(operator) ==> {
                &&& r == Ok::<(), SpotError>(())
                &&& final(self).admin == old(self).admin
                &&& final(self).creator_grants == old(self).creator_grants
                &&& final(self).events == old(self).events
                &&& final(self).claims == old(self).claims
                &&& final(self).approvals == old(self).approvals
                &&& forall|x: Address| final(self).is_admin(x) == (old(self).is_admin(x) || x == admin)
            },
    {
        if !self.is_admin_address(operator) {
            return Err(SpotError::Unauthorized);
        }
        grant(&mut self.admin_grants, admin);
        Ok(())
    }

    /// Updates the descriptive fields of an event; only fields supplied as
    /// `Some` are overwritten.  `event_id`, `creator`, `max_poaps`,
    /// `claim_start` and `claim_end` are immutable.  Only the stored creator
    /// or an admin may call; nothing changes on failure.
    pub fn update_event(
        &mut self,
        operator: Address,
        event_id: u32,
        event_name: Option<String>,
        event_date: Option<u64>,
        location: Option<String>,
        description: Option<String>,
        metadata_uri: Option<String>,
        image_url: Option<String>,
    ) -> (r: Result<(), SpotError>)
        requires
            old(self).wf(),
        ensures
            final(self).wf(),
            r == update_outcome(*old(self), operator, event_id),
            final(self).admin == old(self).admin,
            final(self).admin_grants == old(self).admin_grants,
            final(self).creator_grants == old(self).creator_grants,
            final(self).claims == old(self).claims,
            final(self).approvals == old(self).approvals,
            r is Err ==> final(self).events == old(self).events,
            r is Ok ==> {
                &&& final(self).events@.len() == old(self).events@.len()
                &&& forall|j: int|
                    0 <= j < old(self).events@.len() && j != event_id - 1 ==> final(self).events@[j]
                        == old(self).events@[j]
                &&& updated_event(
                    old(self).events@[event_id - 1],
                    final(self).events@[event_id - 1],
                    event_name,
                    event_date,
                    location,
                    description,
                    metadata_uri,
                    image_url,
                )
            },
    {
        if event_id == 0 || event_id as usize > self.events.len() {
            return Err(SpotError::EventNotFound);
        }
        let idx = (event_id - 1) as usize;
        if self.events[idx].creator != operator {
            if !self.is_admin_address(operator) {
                return Err(SpotError::Unauthorized);
            }
        }
        let new_name = match event_name {
            Some(n) => n,
            None => self.events[idx].event_name.clone(),
        };
        let new_date = match event_date {
            Some(d) => d,
            None => self.events[idx].event_date,
        };
        let new_location = match location {
            Some(l) => l,
            None => self.events[idx].location.clone(),
        };
        let new_description = match description {
            Some(d) => d,
            None => self.events[idx].description.clone(),
        };
        let new_metadata_uri = match metadata_uri {
            Some(u) => u,
            None => self.events[idx].metadata_uri.clone(),
        };
        let new_image_url = match image_url {
            Some(u) => u,
            None => self.events[idx].image_url.clone(),
        };
        let updated = EventData {
            event_id: self.events[idx].event_id,
            creator: self.events[idx].creator,
            event_name: new_name,
            event_date: new_date,
            location: new_location,
            description: new_description,
            max_poaps: self.events[idx].max_poaps,
            claim_start: self.events[idx].claim_start,
            claim_end: self.events[idx].claim_end,
            metadata_uri: new_metadata_uri,
            image_url: new_image_url,
        };
        self.events[idx] = updated;
        Ok(())
    }
}

/// The field relation between an event record `before` an update and `after`
/// it: supplied fields are overwritten, omitted and immutable fields kept.
pub open spec fn updated_event(
    before: EventData,
    after: EventData,
    event_name: Option<String>,
    event_date: Option<u64>,
    location: Option<String>,
    description: Option<String>,
    metadata_uri: Option<String>,
    image_url: Option<String>,
) -> bool {
    &&& after.event_id == before.event_id
    &&& after.creator == before.creator
    &&& after.max_poaps == before.max_poaps
    &&& after.claim_start == before.claim_start
    &&& after.claim_end == before.claim_end
    &&& after.event_name == (match event_name {
        Some(n) => n,
        None => before.event_name,
    })
    &&& after.event_date == (match event_date {
        Some(d) => d,
        None => before.event_date,
    })
    &&& after.location == (match location {
        Some(l) => l,
        None => before.location,
    })
    &&& after.description == (match description {
        Some(d) => d,
        None => before.description,
    })
    &&& after.metadata_uri == (match metadata_uri {
        Some(u) => u,
        None => before.metadata_uri,
    })
    &&& after.image_url == (match image_url {
        Some(u) => u,
        None => before.image_url,
    })
}

/// The exact result of [`Spot::update_event`], as a function of the state and
/// of the inputs that decide it.
pub open spec fn update_outcome(s: Spot, operator: Address, event_id: u32) -> Result<
    (),
    SpotError,
> {
    if !s.has_event(event_id) {
        Err(SpotError::EventNotFound)
    } else if s.event_at(event_id).creator != operator && !s.is_admin(operator) {
        Err(SpotError::Unauthorized)
    } else {
        Ok(())
    }
}

/// The exact result of [`Spot::claim`], as a function of the state and the
/// inputs.
pub open spec fn claim_outcome(s: Spot, now: u64, event_id: u32, to: Address) -> Result<
    u32,
    SpotError,
> {
    if !s.has_event(event_id) {
        Err(SpotError::EventNotFound)
    } else if now < s.event_at(event_id).claim_start {
        Err(SpotError::ClaimPeriodNotStarted)
    } else if now > s.event_at(event_id).claim_end {
        Err(SpotError::ClaimPeriodEnded)
    } else if s.claimed(event_id, to) {
        Err(SpotError::AlreadyClaimed)
    } else if s.minted(event_id) >= s.event_at(event_id).max_poaps {
        Err(SpotError::LimitExceeded)
    } else {
        Ok(s.claims@.len() as u32)
    }
}

/// The exact result of [`Spot::create_event`], as a function of the state and
/// of the inputs that decide it (the descriptive fields never do).
pub open spec fn create_outcome(
    s: Spot,
    creator: Address,
    max_poaps: u32,
    claim_start: u64,
    claim_end: u64,
) -> Result<u32, SpotError> {
    if !s.is_admin(creator) && !s.approved(creator) {
        Err(SpotError::CreatorNotApproved)
    } else if !s.is_admin(creator) && !s.has_creator_role(creator) {
        Err(SpotError::Unauthorized)
    } else if max_poaps == 0 {
        Err(SpotError::InvalidParameters)
    } else if claim_end < claim_start {
        Err(SpotError::InvalidParameters)
    } else {
        Ok((s.events@.len() + 1) as u32)
    }
}

} // verus!
