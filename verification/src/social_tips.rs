//! The social tips contract: users tip the owner of an application handle; when
//! no user has linked that handle yet, the tip waits in the contract until the
//! owner links the handle and claims it.
use vstd::prelude::*;
use vstd::string::*;
use crate::coins::{Coin, CoinV, StdError, coins_view, clone_coins, serialize_coins,
    coins_text, merge_outcome, result_coins_view, is_merge_of, lemma_merge_unique};
use crate::chain::{Response, BankSend, MessageInfo, Env, attrs_view};
use crate::text::{decimal, u128_to_decimal, seq_lt, compare_str, lemma_seq_lt_irreflexive,
    lemma_seq_lt_transitive, lemma_seq_lt_total};

verus! {

/// The largest number of pending tips that one handle may have.
pub const MAX_CONFIGURABLE_PENDING_TIPS: u16 = 20u16;

/// The largest number of pending tips that one user may have sent.
pub const MAX_CONFIGURABLE_SENT_PENDING_TIPS: u16 = 20u16;

/// The errors of the social tips contract.
#[derive(Debug, PartialEq, Eq)]
pub enum ContractError {
    Std(StdError),
    Unauthorized {},
    InvalidMaxPendingTipsValue { value: u16, max: u16 },
    InvalidMaxSentPendingTipsValue { value: u16, max: u16 },
    EmptyTipAmount {},
    InvalidApplication {},
    InvalidUserHandle {},
    NoTipsAvailable { user: String },
    ToManyPendingTipsForUser { application: String, handle: String },
    ToManySentPendingTips {},
    NoPendingTip { application: String, handle: String },
}

/// Merges the coins of the same denomination, summing their amounts, and returns
/// them sorted by denomination; an overflowing sum is a `Std` error.
pub fn sum_coins_sorted(coins: Vec<Coin>) -> (r: Result<Vec<Coin>, ContractError>)
    ensures
        match r {
            Ok(m) => merge_outcome(coins_view(coins@), Ok(coins_view(m@))),
            Err(ContractError::Std(e)) => merge_outcome(coins_view(coins@), Err(e)),
            Err(_) => false,
        },
{
    match crate::coins::sum_coins_sorted(coins) {
        Ok(m) => Ok(m),
        Err(e) => Err(ContractError::Std(e)),
    }
}

/// The message that instantiates the contract.
pub struct InstantiateMsg {
    /// The admin; `None` makes the sender the admin.
    pub admin: Option<String>,
    pub max_pending_tips: u16,
    pub max_sent_pending_tips: u16,
}

/// A limit is valid when it is positive and at most the configurable maximum.
pub open spec fn valid_limit(value: u16, max: u16) -> bool {
    0 < value <= max
}

impl InstantiateMsg {
    /// Checks both limits.
    pub fn validate(&self) -> (r: Result<(), ContractError>)
        ensures
            !valid_limit(self.max_pending_tips, MAX_CONFIGURABLE_PENDING_TIPS) ==> r == Err::<(), ContractError>(
                ContractError::InvalidMaxPendingTipsValue { value: self.max_pending_tips, max: MAX_CONFIGURABLE_PENDING_TIPS }),
            valid_limit(self.max_pending_tips, MAX_CONFIGURABLE_PENDING_TIPS)
                && !valid_limit(self.max_sent_pending_tips, MAX_CONFIGURABLE_SENT_PENDING_TIPS) ==> r == Err::<(), ContractError>(
                ContractError::InvalidMaxSentPendingTipsValue { value: self.max_sent_pending_tips, max: MAX_CONFIGURABLE_SENT_PENDING_TIPS }),
            r is Ok <==> valid_limit(self.max_pending_tips, MAX_CONFIGURABLE_PENDING_TIPS)
                && valid_limit(self.max_sent_pending_tips, MAX_CONFIGURABLE_SENT_PENDING_TIPS),
    {
        if self.max_pending_tips == 0 || self.max_pending_tips > MAX_CONFIGURABLE_PENDING_TIPS {
            return Err(ContractError::InvalidMaxPendingTipsValue { value: self.max_pending_tips, max: MAX_CONFIGURABLE_PENDING_TIPS });
        }
        if self.max_sent_pending_tips == 0 || self.max_sent_pending_tips > MAX_CONFIGURABLE_SENT_PENDING_TIPS {
            return Err(ContractError::InvalidMaxSentPendingTipsValue {
                value: self.max_sent_pending_tips,
                max: MAX_CONFIGURABLE_SENT_PENDING_TIPS,
            });
        }
        Ok(())
    }
}

/// The messages that the contract executes.
pub enum ExecuteMsg {
    /// Tips the owner of `handle` on `application`; `owner_index` picks among
    /// the users that linked the handle.
    SendTip { application: String, handle: String, owner_index: Option<u64> },
    /// Claims the pending tips of the handles that the sender linked.
    ClaimTips {},
    /// Hands the contract to a new admin.
    UpdateAdmin { new_admin: String },
    /// Updates the largest number of pending tips of a handle.
    UpdateMaxPendingTips { value: u16 },
    /// Updates the largest number of pending tips that a user may have sent.
    UpdateMaxSentPendingTips { value: u16 },
    /// Takes back a pending tip that the sender sent.
    RemovePendingTip { application: String, handle: String },
}

/// What validating an application and a handle gives.
pub open spec fn app_handle_check(application: Seq<char>, handle: Seq<char>) -> Result<(), ContractError> {
    if application.len() == 0 {
        Err(ContractError::InvalidApplication {})
    } else if handle.len() == 0 {
        Err(ContractError::InvalidUserHandle {})
    } else {
        Ok(())
    }
}

impl ExecuteMsg {
    /// Checks that applications and handles are not empty and that new limits are valid.
    pub fn validate(&self) -> (r: Result<(), ContractError>)
        ensures
            match self {
                ExecuteMsg::SendTip { application, handle, .. } => r == app_handle_check(application@, handle@),
                ExecuteMsg::RemovePendingTip { application, handle } => r == app_handle_check(application@, handle@),
                ExecuteMsg::UpdateMaxPendingTips { value } => if valid_limit(*value, MAX_CONFIGURABLE_PENDING_TIPS) {
                    r is Ok
                } else {
                    r == Err::<(), ContractError>(ContractError::InvalidMaxPendingTipsValue { value: *value, max: MAX_CONFIGURABLE_PENDING_TIPS })
                },
                ExecuteMsg::UpdateMaxSentPendingTips { value } => if valid_limit(*value, MAX_CONFIGURABLE_SENT_PENDING_TIPS) {
                    r is Ok
                } else {
                    r == Err::<(), ContractError>(ContractError::InvalidMaxSentPendingTipsValue { value: *value, max: MAX_CONFIGURABLE_SENT_PENDING_TIPS })
                },
                _ => r is Ok,
            },
    {
        match self {
            ExecuteMsg::SendTip { application, handle, .. } => check_app_handle(application, handle),
            ExecuteMsg::ClaimTips {} => Ok(()),
            ExecuteMsg::UpdateAdmin { .. } => Ok(()),
            ExecuteMsg::UpdateMaxPendingTips { value } => {
                if *value == 0 || *value > MAX_CONFIGURABLE_PENDING_TIPS {
                    Err(ContractError::InvalidMaxPendingTipsValue { value: *value, max: MAX_CONFIGURABLE_PENDING_TIPS })
                } else {
                    Ok(())
                }
            },
            ExecuteMsg::UpdateMaxSentPendingTips { value } => {
                if *value == 0 || *value > MAX_CONFIGURABLE_SENT_PENDING_TIPS {
                    Err(ContractError::InvalidMaxSentPendingTipsValue { value: *value, max: MAX_CONFIGURABLE_SENT_PENDING_TIPS })
                } else {
                    Ok(())
                }
            },
            ExecuteMsg::RemovePendingTip { application, handle } => check_app_handle(application, handle),
        }
    }
}

fn check_app_handle(application: &String, handle: &String) -> (r: Result<(), ContractError>)
    ensures
        r == app_handle_check(application@, handle@),
{
    if application.as_str().is_empty() {
        return Err(ContractError::InvalidApplication {});
    }
    if handle.as_str().is_empty() {
        return Err(ContractError::InvalidUserHandle {});
    }
    Ok(())
}

/// The configuration of the contract.
pub struct Config {
    pub admin: String,
    pub max_pending_tips: u16,
    pub max_sent_pending_tips: u16,
}

/// A tip that waits for the owner of a handle.
#[derive(Debug, PartialEq, Eq)]
pub struct PendingTip {
    pub sender: String,
    pub amount: Vec<Coin>,
    pub block_height: u64,
}

/// A pending tip with the application and handle it waits for.
pub struct PendingTipEntry {
    pub application: String,
    pub handle: String,
    pub tip: PendingTip,
}

/// A pending tip as application, handle, sender, coins and block height.
pub type PendingV = (Seq<char>, Seq<char>, Seq<char>, Seq<CoinV>, u64);

impl View for PendingTipEntry {
    type V = PendingV;

    open spec fn view(&self) -> PendingV {
        (self.application@, self.handle@, self.tip.sender@, coins_view(self.tip.amount@), self.tip.block_height)
    }
}

/// A pending tip as sender, coins and block height.
pub type PendingTipV = (Seq<char>, Seq<CoinV>, u64);

impl View for PendingTip {
    type V = PendingTipV;

    open spec fn view(&self) -> PendingTipV {
        (self.sender@, coins_view(self.amount@), self.block_height)
    }
}

/// The state of the contract: its configuration and the pending tips, sorted by
/// application, then handle, then sender.
pub struct SocialTipsState {
    pub config: Config,
    pub pending: Vec<PendingTipEntry>,
}

/// The pending tips as values.
pub open spec fn pending_view(p: Seq<PendingTipEntry>) -> Seq<PendingV> {
    p.map_values(|e: PendingTipEntry| e@)
}

/// The order of the keys of pending tips: application, then handle, then sender.
pub open spec fn key_lt(a: PendingV, b: PendingV) -> bool {
    seq_lt(a.0, b.0) || (a.0 == b.0 && (seq_lt(a.1, b.1) || (a.1 == b.1 && seq_lt(a.2, b.2))))
}

/// Two pending tips have the same key.
pub open spec fn same_key(a: PendingV, b: PendingV) -> bool {
    a.0 == b.0 && a.1 == b.1 && a.2 == b.2
}

/// The pending tips are sorted by key and no key occurs twice.
pub open spec fn sorted_keys(p: Seq<PendingV>) -> bool {
    forall|i: int, j: int| 0 <= i < j < p.len() ==> key_lt(#[trigger] p[i], #[trigger] p[j])
}

/// The state is well formed: pending tips sorted by key, limits positive.
pub open spec fn state_wf(s: SocialTipsState) -> bool {
    sorted_keys(pending_view(s.pending@))
}

proof fn lemma_key_lt_irreflexive(a: PendingV)
    ensures
        !key_lt(a, a),
{
    lemma_seq_lt_irreflexive(a.0);
    lemma_seq_lt_irreflexive(a.1);
    lemma_seq_lt_irreflexive(a.2);
}

proof fn lemma_key_lt_transitive(a: PendingV, b: PendingV, c: PendingV)
    requires
        key_lt(a, b),
        key_lt(b, c),
    ensures
        key_lt(a, c),
{
    if seq_lt(a.0, b.0) && seq_lt(b.0, c.0) { lemma_seq_lt_transitive(a.0, b.0, c.0); }
    if a.0 == b.0 && b.0 == c.0 {
        if seq_lt(a.1, b.1) && seq_lt(b.1, c.1) { lemma_seq_lt_transitive(a.1, b.1, c.1); }
        if a.1 == b.1 && b.1 == c.1 && seq_lt(a.2, b.2) && seq_lt(b.2, c.2) { lemma_seq_lt_transitive(a.2, b.2, c.2); }
    }
}

proof fn lemma_key_lt_total(a: PendingV, b: PendingV)
    ensures
        same_key(a, b) || key_lt(a, b) || key_lt(b, a),
{
    lemma_seq_lt_total(a.0, b.0);
    lemma_seq_lt_total(a.1, b.1);
    lemma_seq_lt_total(a.2, b.2);
}

/// Compares the key of a pending tip with a key: -1, 0 or 1.
fn compare_key(e: &PendingTipEntry, application: &String, handle: &String, sender: &String) -> (r: i8)
    ensures
        r == 0 <==> same_key(e@, (application@, handle@, sender@, Seq::empty(), 0)),
        r < 0 <==> key_lt(e@, (application@, handle@, sender@, Seq::empty(), 0)),
        r > 0 <==> key_lt((application@, handle@, sender@, Seq::empty(), 0), e@),
{
    let c = compare_str(e.application.as_str(), application.as_str());
    if c != 0 {
        proof { lemma_seq_lt_irreflexive(application@); lemma_seq_lt_irreflexive(e.application@); }
        return c;
    }
    let c = compare_str(e.handle.as_str(), handle.as_str());
    if c != 0 {
        proof { lemma_seq_lt_irreflexive(handle@); }
        return c;
    }
    let c = compare_str(e.tip.sender.as_str(), sender.as_str());
    proof { lemma_seq_lt_irreflexive(sender@); }
    c
}

/// The number of pending tips sent by `sender`.
pub open spec fn count_sent(p: Seq<PendingV>, sender: Seq<char>) -> nat
    decreases p.len(),
{
    if p.len() == 0 {
        0
    } else {
        count_sent(p.drop_last(), sender) + if p.last().2 == sender { 1nat } else { 0nat }
    }
}

/// The number of pending tips that wait for `handle` on `application`.
pub open spec fn count_for(p: Seq<PendingV>, application: Seq<char>, handle: Seq<char>) -> nat
    decreases p.len(),
{
    if p.len() == 0 {
        0
    } else {
        count_for(p.drop_last(), application, handle)
            + if p.last().0 == application && p.last().1 == handle { 1nat } else { 0nat }
    }
}

fn count_sent_exec(p: &Vec<PendingTipEntry>, sender: &String) -> (r: usize)
    ensures
        r == count_sent(pending_view(p@), sender@),
{
    let ghost pv = pending_view(p@);
    let mut n: usize = 0;
    let mut i: usize = 0;
    while i < p.len()
        invariant
            i <= p.len(),
            pv == pending_view(p@),
            n == count_sent(pv.take(i as int), sender@),
            n <= i,
        decreases p.len() - i,
    {
        proof { assert(pv.take(i + 1).drop_last() =~= pv.take(i as int)); }
        if p[i].tip.sender == *sender {
            n = n + 1;
        }
        i = i + 1;
    }
    proof { assert(pv.take(pv.len() as int) =~= pv); }
    n
}

fn count_for_exec(p: &Vec<PendingTipEntry>, application: &String, handle: &String) -> (r: usize)
    ensures
        r == count_for(pending_view(p@), application@, handle@),
{
    let ghost pv = pending_view(p@);
    let mut n: usize = 0;
    let mut i: usize = 0;
    while i < p.len()
        invariant
            i <= p.len(),
            pv == pending_view(p@),
            n == count_for(pv.take(i as int), application@, handle@),
            n <= i,
        decreases p.len() - i,
    {
        proof { assert(pv.take(i + 1).drop_last() =~= pv.take(i as int)); }
        if p[i].application == *application && p[i].handle == *handle {
            n = n + 1;
        }
        i = i + 1;
    }
    proof { assert(pv.take(pv.len() as int) =~= pv); }
    n
}

} // verus!

verus! {

/// The pending tips after putting `e`: the tips with other keys stay, the tip
/// with the key of `e`, if any, is replaced by `e`.
pub open spec fn put_result(old: Seq<PendingV>, new: Seq<PendingV>, e: PendingV) -> bool {
    &&& sorted_keys(new)
    &&& forall|x: PendingV| new.contains(x) <==> (old.contains(x) && !same_key(x, e)) || x == e
    &&& put_shape(old, new, e)
}

/// The tip is put in place of the tip with its key, or inserted when there is
/// none.
pub open spec fn put_shape(old: Seq<PendingV>, new: Seq<PendingV>, e: PendingV) -> bool {
    exists|i: int| 0 <= i <= old.len() && #[trigger] put_at(old, new, e, i)
}

/// The tip is put at position `i`.
pub open spec fn put_at(old: Seq<PendingV>, new: Seq<PendingV>, e: PendingV, i: int) -> bool {
    ||| (i < old.len() && same_key(old[i], e) && new == old.update(i, e))
    ||| ((forall|q: int| 0 <= q < old.len() ==> !same_key(#[trigger] old[q], e)) && new == old.insert(i, e))
}

/// The tip with the key of `e` before putting it, if any.
pub open spec fn replaced_tip(old: Seq<PendingV>, e: PendingV, replaced: Option<PendingTipV>) -> bool {
    match replaced {
        Some(t) => exists|i: int| 0 <= i < old.len() && same_key(#[trigger] old[i], e) && (old[i].2, old[i].3, old[i].4) == t,
        None => forall|i: int| 0 <= i < old.len() ==> !same_key(#[trigger] old[i], e),
    }
}

/// Puts a pending tip at its place in the sorted list, replacing the tip with
/// the same key; returns the replaced tip.
fn put_pending(p: &mut Vec<PendingTipEntry>, entry: PendingTipEntry) -> (replaced: Option<PendingTip>)
    requires
        sorted_keys(pending_view(old(p)@)),
    ensures
        put_result(pending_view(old(p)@), pending_view(final(p)@), entry@),
        replaced_tip(pending_view(old(p)@), entry@, match replaced { Some(t) => Some(t@), None => None }),
{
    let ghost before = pending_view(p@);
    let ghost ev = entry@;
    let ghost key: PendingV = (entry.application@, entry.handle@, entry.tip.sender@, Seq::empty(), 0);
    let mut i: usize = 0;
    while i < p.len() && compare_key(&p[i], &entry.application, &entry.handle, &entry.tip.sender) < 0
        invariant
            i <= p.len(),
            before == pending_view(p@),
            key == (entry.application@, entry.handle@, entry.tip.sender@, Seq::<CoinV>::empty(), 0u64),
            forall|q: int| 0 <= q < i ==> key_lt(#[trigger] before[q], key),
        decreases p.len() - i,
    {
        i = i + 1;
    }
    proof {
        assert forall|x: PendingV| key_lt(x, key) <==> key_lt(x, ev) by {}
        assert forall|x: PendingV| key_lt(key, x) <==> key_lt(ev, x) by {}
        assert forall|x: PendingV| same_key(x, key) <==> same_key(x, ev) by {}
    }
    if i < p.len() && compare_key(&p[i], &entry.application, &entry.handle, &entry.tip.sender) == 0 {
        let old_entry = p.remove(i);
        assert(old_entry@ == before[i as int]);
        p.insert(i, entry);
        let ghost after = pending_view(p@);
        proof {
            assert(after =~= before.update(i as int, ev));
            assert(put_at(before, after, ev, i as int));
            assert(sorted_keys(after)) by {
                assert forall|a: int, b: int| 0 <= a < b < after.len() implies key_lt(#[trigger] after[a], #[trigger] after[b]) by {
                    if a == i {
                        assert(key_lt(before[a], before[b]));
                    } else if b == i {
                        assert(key_lt(before[a], before[b]));
                    } else {
                        assert(key_lt(before[a], before[b]));
                    }
                }
            }
            assert forall|x: PendingV| after.contains(x) <==> (before.contains(x) && !same_key(x, ev)) || x == ev by {
                if after.contains(x) {
                    let j = choose|j: int| 0 <= j < after.len() && after[j] == x;
                    if j != i {
                        assert(before[j] == x);
                        assert(!same_key(x, ev)) by {
                            if j < i {
                                assert(key_lt(before[j], before[i as int]));
                                lemma_key_lt_irreflexive(before[i as int]);
                            } else {
                                assert(key_lt(before[i as int], before[j]));
                                lemma_key_lt_irreflexive(before[j]);
                            }
                        }
                    }
                }
                if before.contains(x) && !same_key(x, ev) {
                    let j = choose|j: int| 0 <= j < before.len() && before[j] == x;
                    assert(j != i);
                    assert(after[j] == x);
                }
                if x == ev {
                    assert(after[i as int] == x);
                }
            }
        }
        Some(old_entry.tip)
    } else {
        proof {
            if i < p.len() {
                lemma_key_lt_total(before[i as int], ev);
            }
        }
        p.insert(i, entry);
        let ghost after = pending_view(p@);
        proof {
            assert(after =~= before.insert(i as int, ev));
            assert forall|q: int| 0 <= q < before.len() implies !same_key(#[trigger] before[q], ev) by {
                if q < i {
                    lemma_key_lt_irreflexive(ev);
                } else {
                    if q > i {
                        assert(key_lt(before[i as int], before[q]));
                        lemma_key_lt_transitive(ev, before[i as int], before[q]);
                    }
                    lemma_key_lt_irreflexive(ev);
                }
            }
            assert(put_at(before, after, ev, i as int));
            assert(sorted_keys(after)) by {
                assert forall|a: int, b: int| 0 <= a < b < after.len() implies key_lt(#[trigger] after[a], #[trigger] after[b]) by {
                    if b < i {
                        assert(key_lt(before[a], before[b]));
                    } else if b == i {
                        assert(after[a] == before[a]);
                    } else if a == i {
                        assert(after[b] == before[b - 1]);
                        if b - 1 > i {
                            assert(key_lt(before[i as int], before[b - 1]));
                            lemma_key_lt_transitive(ev, before[i as int], before[b - 1]);
                        }
                    } else if a < i {
                        assert(key_lt(before[a], before[b - 1]));
                    } else {
                        assert(key_lt(before[a - 1], before[b - 1]));
                    }
                }
            }
            assert forall|x: PendingV| after.contains(x) <==> (before.contains(x) && !same_key(x, ev)) || x == ev by {
                if after.contains(x) {
                    let j = choose|j: int| 0 <= j < after.len() && after[j] == x;
                    if j < i {
                        assert(before[j] == x);
                    } else if j > i {
                        assert(before[j - 1] == x);
                    }
                }
                if before.contains(x) && !same_key(x, ev) {
                    let j = choose|j: int| 0 <= j < before.len() && before[j] == x;
                    if j < i { assert(after[j] == x); } else { assert(after[j + 1] == x); }
                }
                if x == ev {
                    assert(after[i as int] == x);
                }
            }
        }
        None
    }
}

} // verus!

verus! {

/// The response to a tip that the owner of the handle received at once.
pub open spec fn direct_tip_response(resp: Response<BankSend>, owner: Seq<char>, m: Seq<CoinV>) -> bool {
    &&& attrs_view(resp.attributes@) == seq![("action"@, "send_tips"@), ("tip_collected"@, "false"@),
        ("tip_claimer"@, owner), ("tip_amount"@, coins_text(m))]
    &&& resp.messages@.len() == 1
    &&& resp.messages@[0]@ == (owner, m)
}

/// The response to a tip that the contract keeps pending; a replaced pending tip
/// goes back to its sender.
pub open spec fn pending_tip_response(resp: Response<BankSend>, m: Seq<CoinV>, replaced: Option<PendingTipV>) -> bool {
    &&& attrs_view(resp.attributes@) == seq![("action"@, "send_tips"@), ("tip_collected"@, "true"@), ("tip_amount"@, coins_text(m))]
    &&& match replaced {
        Some(t) => resp.messages@.len() == 1 && resp.messages@[0]@ == (t.0, t.1),
        None => resp.messages@.len() == 0,
    }
}

/// The outcome of a tip. `owner` is what the chain answered to the query of
/// the users that linked the handle: the user at `owner_index`, or none.
pub open spec fn send_tip_outcome(
    s0: SocialTipsState, s1: SocialTipsState, height: u64, sender: Seq<char>, funds: Seq<CoinV>,
    application: Seq<char>, handle: Seq<char>, owner: Result<Option<String>, StdError>,
    r: Result<Response<BankSend>, ContractError>,
) -> bool {
    if crate::coins::totals_overflow(funds) {
        (r matches Err(ContractError::Std(e)) && merge_outcome(funds, Err(e))) && s1 == s0
    } else if funds.len() == 0 {
        r == Err::<Response<BankSend>, ContractError>(ContractError::EmptyTipAmount {}) && s1 == s0
    } else {
        match owner {
            Err(e) => r == Err::<Response<BankSend>, ContractError>(ContractError::Std(e)) && s1 == s0,
            Ok(Some(o)) => (r matches Ok(resp) && exists|m: Seq<CoinV>| is_merge_of(m, funds)
                && direct_tip_response(resp, o@, m)) && s1 == s0,
            Ok(None) => {
                let pv = pending_view(s0.pending@);
                if count_sent(pv, sender) >= s0.config.max_sent_pending_tips {
                    r == Err::<Response<BankSend>, ContractError>(ContractError::ToManySentPendingTips {}) && s1 == s0
                } else if count_for(pv, application, handle) >= s0.config.max_pending_tips {
                    (r matches Err(ContractError::ToManyPendingTipsForUser { application: a, handle: h })
                        && a@ == application && h@ == handle) && s1 == s0
                } else {
                    &&& s1.config == s0.config
                    &&& exists|m: Seq<CoinV>, replaced: Option<PendingTipV>| is_merge_of(m, funds)
                        && put_result(pv, pending_view(s1.pending@), (application, handle, sender, m, height))
                        && replaced_tip(pv, (application, handle, sender, m, height), replaced)
                        && (r matches Ok(resp) && pending_tip_response(resp, m, replaced))
                }
            },
        }
    }
}

/// Sends a tip to the owner of `handle` on `application`, or keeps it pending
/// when nobody linked the handle.
pub fn send_tip(
    state: &mut SocialTipsState,
    env: &Env,
    info: &MessageInfo,
    application: String,
    handle: String,
    owner: Result<Option<String>, StdError>,
) -> (r: Result<Response<BankSend>, ContractError>)
    requires
        state_wf(*old(state)),
    ensures
        state_wf(*final(state)),
        send_tip_outcome(*old(state), *final(state), env.block_height, info.sender@, coins_view(info.funds@),
            application@, handle@, owner, r),
{
    let ghost fv = coins_view(info.funds@);
    let funds = match sum_coins_sorted(clone_coins(info.funds.as_slice())) {
        Ok(f) => f,
        Err(e) => return Err(e),
    };
    let ghost m = coins_view(funds@);
    assert(is_merge_of(m, fv));
    if funds.len() == 0 {
        proof {
            if fv.len() > 0 {
                assert(crate::coins::has_denom(fv, fv[0].0));
                let j = choose|j: int| 0 <= j < m.len() && (#[trigger] m[j]).0 == fv[0].0;
            }
        }
        return Err(ContractError::EmptyTipAmount {});
    }
    proof {
        if fv.len() == 0 {
            assert(crate::coins::has_denom(m, m[0].0));
        }
    }
    let owner = match owner {
        Ok(o) => o,
        Err(e) => return Err(ContractError::Std(e)),
    };
    let serialized = serialize_coins(funds.as_slice());
    match owner {
        Some(o) => {
            let mut resp: Response<BankSend> = Response::new();
            resp.add_attribute("action", "send_tips");
            resp.add_attribute("tip_collected", "false");
            resp.add_attribute("tip_claimer", o.as_str());
            resp.add_attribute("tip_amount", serialized.as_str());
            let ghost ov = o@;
            resp.add_message(BankSend { to_address: o, amount: funds });
            proof {
                assert(attrs_view(resp.attributes@) =~= seq![("action"@, "send_tips"@), ("tip_collected"@, "false"@),
                    ("tip_claimer"@, ov), ("tip_amount"@, coins_text(m))]);
                assert(direct_tip_response(resp, ov, m));
            }
            Ok(resp)
        },
        None => {
            let sent_count = count_sent_exec(&state.pending, &info.sender);
            if sent_count >= state.config.max_sent_pending_tips as usize {
                return Err(ContractError::ToManySentPendingTips {});
            }
            let target_count = count_for_exec(&state.pending, &application, &handle);
            if target_count >= state.config.max_pending_tips as usize {
                return Err(ContractError::ToManyPendingTipsForUser { application, handle });
            }
            let ghost pv = pending_view(state.pending@);
            let entry = PendingTipEntry {
                application,
                handle,
                tip: PendingTip { sender: info.sender.clone(), amount: funds, block_height: env.block_height },
            };
            let ghost ev = entry@;
            let replaced = put_pending(&mut state.pending, entry);
            let ghost rv = match &replaced { Some(t) => Some(t@), None => None::<PendingTipV> };
            let mut resp: Response<BankSend> = Response::new();
            resp.add_attribute("action", "send_tips");
            resp.add_attribute("tip_collected", "true");
            resp.add_attribute("tip_amount", serialized.as_str());
            match replaced {
                Some(t) => {
                    resp.add_message(BankSend { to_address: t.sender, amount: t.amount });
                },
                None => {},
            }
            proof {
                assert(attrs_view(resp.attributes@) =~= seq![("action"@, "send_tips"@), ("tip_collected"@, "true"@), ("tip_amount"@, coins_text(m))]);
                assert(pending_tip_response(resp, m, rv));
                assert(put_result(pv, pending_view(state.pending@), ev));
            }
            Ok(resp)
        },
    }
}

} // verus!

verus! {

/// An application link: application and username.
pub type LinkV = (Seq<char>, Seq<char>);

/// The pending tip waits for the handle of the link.
pub open spec fn matches_link(e: PendingV, l: LinkV) -> bool {
    e.0 == l.0 && e.1 == l.1
}

/// The pending tip waits for one of the handles.
pub open spec fn claimed_by(e: PendingV, links: Seq<LinkV>) -> bool {
    exists|j: int| 0 <= j < links.len() && matches_link(e, #[trigger] links[j])
}

/// The coins of the pending tips that wait for the handle of the link, in order.
pub open spec fn link_coins(p: Seq<PendingV>, l: LinkV) -> Seq<CoinV>
    decreases p.len(),
{
    if p.len() == 0 {
        Seq::empty()
    } else {
        link_coins(p.drop_last(), l) + if matches_link(p.last(), l) { p.last().3 } else { Seq::empty() }
    }
}

/// The coins that claiming collects: link by link, the coins of the tips that
/// wait for the handle; a link that repeats an earlier one collects nothing.
pub open spec fn collected(p: Seq<PendingV>, links: Seq<LinkV>) -> Seq<CoinV>
    decreases links.len(),
{
    if links.len() == 0 {
        Seq::empty()
    } else {
        collected(p, links.drop_last()) + if links.drop_last().contains(links.last()) {
            Seq::empty()
        } else {
            link_coins(p, links.last())
        }
    }
}

/// The pending tips that no link claims, in order.
pub open spec fn unclaimed(p: Seq<PendingV>, links: Seq<LinkV>) -> Seq<PendingV>
    decreases p.len(),
{
    if p.len() == 0 {
        Seq::empty()
    } else {
        unclaimed(p.drop_last(), links) + if claimed_by(p.last(), links) { Seq::empty() } else { seq![p.last()] }
    }
}

/// The state of an application link.
pub enum LinkState {
    Initialized,
    VerificationStarted,
    VerificationError,
    VerificationSuccess,
    TimedOut,
}

/// An application link of a user: the application, the handle on it and the
/// state of its verification.
pub struct AppLink {
    pub application: String,
    pub username: String,
    pub state: LinkState,
}

/// The application and handle pairs as values.
pub open spec fn pairs_view(links: Seq<(String, String)>) -> Seq<LinkV> {
    links.map_values(|l: (String, String)| (l.0@, l.1@))
}

/// The links that passed verification, as application and handle, in order:
/// only they count for tips.
pub open spec fn links_view(links: Seq<AppLink>) -> Seq<LinkV>
    decreases links.len(),
{
    if links.len() == 0 {
        Seq::empty()
    } else {
        links_view(links.drop_last()) + if links.last().state is VerificationSuccess {
            seq![(links.last().application@, links.last().username@)]
        } else {
            Seq::empty()
        }
    }
}

/// The application and handle of each link that passed verification, in order.
pub fn verified_links(links: &Vec<AppLink>) -> (r: Vec<(String, String)>)
    ensures
        pairs_view(r@) == links_view(links@),
{
    let mut out: Vec<(String, String)> = Vec::new();
    let mut i: usize = 0;
    proof { assert(links@.take(0) =~= Seq::<AppLink>::empty()); }
    while i < links.len()
        invariant
            i <= links.len(),
            pairs_view(out@) == links_view(links@.take(i as int)),
        decreases links.len() - i,
    {
        let ghost before = out@;
        let link = &links[i];
        proof { assert(links@.take(i + 1).drop_last() =~= links@.take(i as int)); }
        match link.state {
            LinkState::VerificationSuccess => {
                out.push((link.application.clone(), link.username.clone()));
                proof { assert(pairs_view(out@) =~= pairs_view(before) + seq![(link.application@, link.username@)]); }
            },
            _ => {},
        }
        i = i + 1;
    }
    proof { assert(links@.take(links@.len() as int) =~= links@); }
    out
}

/// The outcome of claiming the pending tips. `links` is what the chain answered
/// for the application links of the sender that passed verification.
pub open spec fn claim_tips_outcome(s0: SocialTipsState, s1: SocialTipsState, sender: Seq<char>,
    links: Result<Vec<AppLink>, StdError>, r: Result<Response<BankSend>, ContractError>) -> bool {
    match links {
        Err(e) => r == Err::<Response<BankSend>, ContractError>(ContractError::Std(e)) && s1 == s0,
        Ok(ls) => {
            let pv = pending_view(s0.pending@);
            let lv = links_view(ls@);
            let c = collected(pv, lv);
            if crate::coins::totals_overflow(c) {
                (r matches Err(ContractError::Std(e)) && merge_outcome(c, Err(e))) && s1 == s0
            } else if c.len() == 0 {
                (r matches Err(ContractError::NoTipsAvailable { user }) && user@ == sender) && s1 == s0
            } else {
                &&& s1.config == s0.config
                &&& pending_view(s1.pending@) == unclaimed(pv, lv)
                &&& exists|m: Seq<CoinV>| is_merge_of(m, c) && (r matches Ok(resp)
                    && attrs_view(resp.attributes@) == seq![("action"@, "claim_pending_tips"@), ("tip_claimer"@, sender),
                        ("tip_amount"@, coins_text(m))]
                    && resp.messages@.len() == 1 && resp.messages@[0]@ == (sender, m))
            }
        },
    }
}

proof fn lemma_link_coins_step(p: Seq<PendingV>, l: LinkV, k: int)
    requires
        0 <= k < p.len(),
    ensures
        link_coins(p.take(k + 1), l) == link_coins(p.take(k), l) + if matches_link(p[k], l) { p[k].3 } else { Seq::empty() },
{
    assert(p.take(k + 1).drop_last() =~= p.take(k));
}

proof fn lemma_unclaimed_step(p: Seq<PendingV>, links: Seq<LinkV>, k: int)
    requires
        0 <= k < p.len(),
    ensures
        unclaimed(p.take(k + 1), links) == unclaimed(p.take(k), links) + if claimed_by(p[k], links) { Seq::empty() } else { seq![p[k]] },
{
    assert(p.take(k + 1).drop_last() =~= p.take(k));
}

/// Claims the pending tips that wait for the handles that the sender linked.
pub fn claim_tips(
    state: &mut SocialTipsState,
    info: &MessageInfo,
    links: Result<Vec<AppLink>, StdError>,
) -> (r: Result<Response<BankSend>, ContractError>)
    requires
        state_wf(*old(state)),
    ensures
        state_wf(*final(state)),
        claim_tips_outcome(*old(state), *final(state), info.sender@, links, r),
{
    let app_links = match links {
        Ok(l) => l,
        Err(e) => return Err(ContractError::Std(e)),
    };
    let links = verified_links(&app_links);
    let ghost pv = pending_view(state.pending@);
    let ghost lv = pairs_view(links@);
    let mut coins: Vec<Coin> = Vec::new();
    let mut li: usize = 0;
    proof { assert(coins_view(coins@) =~= collected(pv, lv.take(0))); }
    while li < links.len()
        invariant
            li <= links.len(),
            pv == pending_view(state.pending@),
            lv == pairs_view(links@),
            coins_view(coins@) == collected(pv, lv.take(li as int)),
        decreases links.len() - li,
    {
        let ghost l = lv[li as int];
        // A link that repeats an earlier one collects nothing.
        let mut j: usize = 0;
        while j < li && !(links[j].0 == links[li].0 && links[j].1 == links[li].1)
            invariant
                j <= li < links.len(),
                lv == pairs_view(links@),
                l == lv[li as int],
                forall|q: int| 0 <= q < j ==> (#[trigger] lv[q]) != l,
            decreases li - j,
        {
            j = j + 1;
        }
        proof {
            assert(lv.take(li + 1).drop_last() =~= lv.take(li as int));
            assert(lv.take(li + 1).last() == l);
        }
        if j < li {
            proof {
                assert(lv[j as int] == l);
                assert(lv.take(li as int)[j as int] == l);
                assert(lv.take(li as int).contains(l));
                assert(coins_view(coins@) =~= collected(pv, lv.take(li + 1)));
            }
        } else {
            proof {
                assert(!lv.take(li as int).contains(l)) by {
                    if lv.take(li as int).contains(l) {
                        let q = choose|q: int| 0 <= q < li && lv.take(li as int)[q] == l;
                        assert(lv[q] == l);
                    }
                }
            }
            let ghost base = coins_view(coins@);
            let mut k: usize = 0;
            proof { assert(base =~= base + link_coins(pv.take(0), l)); }
            while k < state.pending.len()
                invariant
                    k <= state.pending.len(),
                    pv == pending_view(state.pending@),
                    lv == pairs_view(links@),
                    l == lv[li as int],
                    li < links.len(),
                    coins_view(coins@) == base + link_coins(pv.take(k as int), l),
                decreases state.pending.len() - k,
            {
                proof { lemma_link_coins_step(pv, l, k as int); }
                let e = &state.pending[k];
                assert(pv[k as int] == e@);
                if e.application == links[li].0 && e.handle == links[li].1 {
                    let mut more = clone_coins(e.tip.amount.as_slice());
                    let ghost prev = coins_view(coins@);
                    coins.append(&mut more);
                    proof {
                        assert(coins_view(coins@) =~= prev + e@.3);
                        assert(base + link_coins(pv.take(k as int), l) + e@.3 =~= base + (link_coins(pv.take(k as int), l) + e@.3));
                    }
                } else {
                    proof {
                        assert(link_coins(pv.take(k as int), l) + Seq::<CoinV>::empty() =~= link_coins(pv.take(k as int), l));
                    }
                }
                k = k + 1;
            }
            proof {
                assert(pv.take(pv.len() as int) =~= pv);
                assert(coins_view(coins@) =~= collected(pv, lv.take(li + 1)));
            }
        }
        li = li + 1;
    }
    proof { assert(lv.take(lv.len() as int) =~= lv); }
    let ghost c = coins_view(coins@);
    let merged = match sum_coins_sorted(coins) {
        Ok(m) => m,
        Err(e) => return Err(e),
    };
    let ghost m = coins_view(merged@);
    if merged.len() == 0 {
        proof {
            if c.len() > 0 {
                assert(crate::coins::has_denom(c, c[0].0));
                let j = choose|j: int| 0 <= j < m.len() && (#[trigger] m[j]).0 == c[0].0;
            }
        }
        return Err(ContractError::NoTipsAvailable { user: info.sender.clone() });
    }
    proof {
        if c.len() == 0 {
            assert(crate::coins::has_denom(m, m[0].0));
        }
    }
    // Remove the claimed pending tips.
    let mut i: usize = 0;
    let ghost mut k: int = 0;
    proof { assert(unclaimed(pv.take(0), lv) =~= Seq::<PendingV>::empty()); }
    while i < state.pending.len()
        invariant
            0 <= k <= pv.len(),
            i <= state.pending.len(),
            lv == pairs_view(links@),
            sorted_keys(pending_view(state.pending@)),
            state.config == old(state).config,
            pending_view(state.pending@) == unclaimed(pv.take(k), lv) + pv.skip(k),
            unclaimed(pv.take(k), lv).len() == i,
            state.pending.len() - i == pv.len() - k,
        decreases state.pending.len() - i,
    {
        let ghost cur = pending_view(state.pending@);
        proof {
            lemma_unclaimed_step(pv, lv, k);
            assert(cur[i as int] == pv[k]);
        }
        let e = &state.pending[i];
        let mut claimed = false;
        let mut j: usize = 0;
        while j < links.len() && !claimed
            invariant
                j <= links.len(),
                lv == pairs_view(links@),
                claimed ==> claimed_by(e@, lv),
                !claimed ==> forall|q: int| 0 <= q < j ==> !matches_link(e@, #[trigger] lv[q]),
            decreases links.len() - j + if claimed { 0int } else { 1int },
        {
            if e.application == links[j].0 && e.handle == links[j].1 {
                claimed = true;
                assert(matches_link(e@, lv[j as int]));
            } else {
                j = j + 1;
            }
        }
        if claimed {
            let _ = state.pending.remove(i);
            proof {
                let after = pending_view(state.pending@);
                assert(after =~= cur.remove(i as int));
                assert(after =~= unclaimed(pv.take(k + 1), lv) + pv.skip(k + 1));
                assert(sorted_keys(after)) by {
                    assert forall|a: int, b: int| 0 <= a < b < after.len() implies key_lt(#[trigger] after[a], #[trigger] after[b]) by {
                        let aa = if a < i { a } else { a + 1 };
                        let bb = if b < i { b } else { b + 1 };
                        assert(after[a] == cur[aa]);
                        assert(after[b] == cur[bb]);
                    }
                }
            }
        } else {
            proof {
                assert(!claimed_by(e@, lv));
                assert(cur =~= unclaimed(pv.take(k + 1), lv) + pv.skip(k + 1));
            }
            i = i + 1;
        }
        proof { k = k + 1; }
    }
    proof {
        assert(pv.take(k) =~= pv);
        assert(pv.skip(k) =~= Seq::<PendingV>::empty());
        assert(pending_view(state.pending@) =~= unclaimed(pv, lv));
    }
    let serialized = serialize_coins(merged.as_slice());
    let mut resp: Response<BankSend> = Response::new();
    resp.add_attribute("action", "claim_pending_tips");
    resp.add_attribute("tip_claimer", info.sender.as_str());
    resp.add_attribute("tip_amount", serialized.as_str());
    resp.add_message(BankSend { to_address: info.sender.clone(), amount: merged });
    proof {
        assert(attrs_view(resp.attributes@) =~= seq![("action"@, "claim_pending_tips"@), ("tip_claimer"@, info.sender@),
            ("tip_amount"@, coins_text(m))]);
    }
    Ok(resp)
}

} // verus!

verus! {

/// The outcome of taking back a pending tip: the tip of the sender that waits
/// for the handle leaves the contract and goes back to the sender.
pub open spec fn remove_pending_outcome(s0: SocialTipsState, s1: SocialTipsState, sender: Seq<char>,
    application: Seq<char>, handle: Seq<char>, r: Result<Response<BankSend>, ContractError>) -> bool {
    let pv = pending_view(s0.pending@);
    let key: PendingV = (application, handle, sender, Seq::empty(), 0);
    if forall|i: int| 0 <= i < pv.len() ==> !same_key(#[trigger] pv[i], key) {
        (r matches Err(ContractError::NoPendingTip { application: a, handle: h }) && a@ == application && h@ == handle)
            && s1 == s0
    } else {
        exists|i: int| 0 <= i < pv.len() && same_key(#[trigger] pv[i], key)
            && pending_view(s1.pending@) == pv.remove(i) && s1.config == s0.config
            && (r matches Ok(resp) && attrs_view(resp.attributes@) == seq![("action"@, "remove_pending_tip"@),
                ("removed_tip_amount"@, coins_text(pv[i].3))]
                && resp.messages@.len() == 1 && resp.messages@[0]@ == (sender, pv[i].3))
    }
}

fn remove_pending_tip(state: &mut SocialTipsState, info: &MessageInfo, application: String, handle: String)
    -> (r: Result<Response<BankSend>, ContractError>)
    requires
        state_wf(*old(state)),
    ensures
        state_wf(*final(state)),
        remove_pending_outcome(*old(state), *final(state), info.sender@, application@, handle@, r),
{
    let ghost pv = pending_view(state.pending@);
    let ghost key: PendingV = (application@, handle@, info.sender@, Seq::empty(), 0);
    let mut i: usize = 0;
    while i < state.pending.len() && compare_key(&state.pending[i], &application, &handle, &info.sender) != 0
        invariant
            i <= state.pending.len(),
            pv == pending_view(state.pending@),
            key == (application@, handle@, info.sender@, Seq::<CoinV>::empty(), 0u64),
            forall|q: int| 0 <= q < i ==> !same_key(#[trigger] pv[q], key),
        decreases state.pending.len() - i,
    {
        i = i + 1;
    }
    if i == state.pending.len() {
        return Err(ContractError::NoPendingTip { application, handle });
    }
    let removed = state.pending.remove(i);
    let ghost after = pending_view(state.pending@);
    proof {
        assert(removed@ == pv[i as int]);
        assert(after =~= pv.remove(i as int));
        assert(sorted_keys(after)) by {
            assert forall|a: int, b: int| 0 <= a < b < after.len() implies key_lt(#[trigger] after[a], #[trigger] after[b]) by {
                let aa = if a < i { a } else { a + 1 };
                let bb = if b < i { b } else { b + 1 };
                assert(after[a] == pv[aa]);
                assert(after[b] == pv[bb]);
            }
        }
    }
    let text = serialize_coins(removed.tip.amount.as_slice());
    let mut resp: Response<BankSend> = Response::new();
    resp.add_attribute("action", "remove_pending_tip");
    resp.add_attribute("removed_tip_amount", text.as_str());
    resp.add_message(BankSend { to_address: removed.tip.sender, amount: removed.tip.amount });
    proof {
        assert(attrs_view(resp.attributes@) =~= seq![("action"@, "remove_pending_tip"@),
            ("removed_tip_amount"@, coins_text(pv[i as int].3))]);
    }
    Ok(resp)
}

/// The outcome of an admin operation: only the admin may run it.
pub open spec fn admin_only(s0: SocialTipsState, sender: Seq<char>) -> bool {
    s0.config.admin@ == sender
}

/// The outcome of handing the contract to a new admin; the new address is
/// validated first (`new_admin_addr` is the answer of the chain).
pub open spec fn update_admin_outcome(s0: SocialTipsState, s1: SocialTipsState, sender: Seq<char>, new_admin: Seq<char>,
    new_admin_addr: Result<String, StdError>, r: Result<Response<BankSend>, ContractError>) -> bool {
    match new_admin_addr {
        Err(e) => r == Err::<Response<BankSend>, ContractError>(ContractError::Std(e)) && s1 == s0,
        Ok(a) => if !admin_only(s0, sender) {
            r == Err::<Response<BankSend>, ContractError>(ContractError::Unauthorized {}) && s1 == s0
        } else {
            &&& s1.config.admin@ == a@
            &&& s1.config.max_pending_tips == s0.config.max_pending_tips
            &&& s1.config.max_sent_pending_tips == s0.config.max_sent_pending_tips
            &&& s1.pending == s0.pending
            &&& r matches Ok(resp) && attrs_view(resp.attributes@) == seq![("action"@, "update_admin"@), ("new_admin"@, new_admin)]
                && resp.messages@.len() == 0
        },
    }
}

fn update_admin(state: &mut SocialTipsState, info: &MessageInfo, new_admin: String, new_admin_addr: Result<String, StdError>)
    -> (r: Result<Response<BankSend>, ContractError>)
    ensures
        update_admin_outcome(*old(state), *final(state), info.sender@, new_admin@, new_admin_addr, r),
{
    let addr = match new_admin_addr {
        Ok(a) => a,
        Err(e) => return Err(ContractError::Std(e)),
    };
    if !(state.config.admin == info.sender) {
        return Err(ContractError::Unauthorized {});
    }
    state.config.admin = addr;
    let mut resp: Response<BankSend> = Response::new();
    resp.add_attribute("action", "update_admin");
    resp.add_attribute("new_admin", new_admin.as_str());
    proof {
        assert(attrs_view(resp.attributes@) =~= seq![("action"@, "update_admin"@), ("new_admin"@, new_admin@)]);
    }
    Ok(resp)
}

/// The outcome of changing a limit: only the admin may.
pub open spec fn update_limit_outcome(s0: SocialTipsState, s1: SocialTipsState, sender: Seq<char>, value: u16,
    sent: bool, r: Result<Response<BankSend>, ContractError>) -> bool {
    if !admin_only(s0, sender) {
        r == Err::<Response<BankSend>, ContractError>(ContractError::Unauthorized {}) && s1 == s0
    } else {
        &&& s1.config.admin == s0.config.admin
        &&& s1.pending == s0.pending
        &&& if sent {
            s1.config.max_sent_pending_tips == value && s1.config.max_pending_tips == s0.config.max_pending_tips
            && (r matches Ok(resp) && attrs_view(resp.attributes@) == seq![("action"@, "update_max_sent_pending_tips"@),
                ("new_max_sent_pending_tips_value"@, decimal(value as nat))] && resp.messages@.len() == 0)
        } else {
            s1.config.max_pending_tips == value && s1.config.max_sent_pending_tips == s0.config.max_sent_pending_tips
            && (r matches Ok(resp) && attrs_view(resp.attributes@) == seq![("action"@, "update_max_pending_tips"@),
                ("new_max_pending_tips_value"@, decimal(value as nat))] && resp.messages@.len() == 0)
        }
    }
}

fn update_limit(state: &mut SocialTipsState, info: &MessageInfo, value: u16, sent: bool)
    -> (r: Result<Response<BankSend>, ContractError>)
    ensures
        update_limit_outcome(*old(state), *final(state), info.sender@, value, sent, r),
{
    if !(state.config.admin == info.sender) {
        return Err(ContractError::Unauthorized {});
    }
    let text = u128_to_decimal(value as u128);
    let mut resp: Response<BankSend> = Response::new();
    if sent {
        state.config.max_sent_pending_tips = value;
        resp.add_attribute("action", "update_max_sent_pending_tips");
        resp.add_attribute("new_max_sent_pending_tips_value", text.as_str());
        proof {
            assert(attrs_view(resp.attributes@) =~= seq![("action"@, "update_max_sent_pending_tips"@),
                ("new_max_sent_pending_tips_value"@, decimal(value as nat))]);
        }
    } else {
        state.config.max_pending_tips = value;
        resp.add_attribute("action", "update_max_pending_tips");
        resp.add_attribute("new_max_pending_tips_value", text.as_str());
        proof {
            assert(attrs_view(resp.attributes@) =~= seq![("action"@, "update_max_pending_tips"@),
                ("new_max_pending_tips_value"@, decimal(value as nat))]);
        }
    }
    Ok(resp)
}

/// Sets the most pending tips per user; only the admin may.
fn update_max_pending_tips(state: &mut SocialTipsState, info: &MessageInfo, value: u16)
    -> (r: Result<Response<BankSend>, ContractError>)
    ensures
        update_limit_outcome(*old(state), *final(state), info.sender@, value, false, r),
{
    update_limit(state, info, value, false)
}

/// Sets the most pending tips that a user may have sent; only the admin may.
fn update_max_sent_pending_tips(state: &mut SocialTipsState, info: &MessageInfo, value: u16)
    -> (r: Result<Response<BankSend>, ContractError>)
    ensures
        update_limit_outcome(*old(state), *final(state), info.sender@, value, true, r),
{
    update_limit(state, info, value, true)
}

/// Instantiates the contract; `admin_addr` is the validation of the admin
/// address when the message names one.
pub fn instantiate(info: &MessageInfo, msg: InstantiateMsg, admin_addr: Result<String, StdError>)
    -> (r: Result<(SocialTipsState, Response<BankSend>), ContractError>)
    ensures
        !valid_limit(msg.max_pending_tips, MAX_CONFIGURABLE_PENDING_TIPS) ==> r == Err::<(SocialTipsState, Response<BankSend>), ContractError>(
            ContractError::InvalidMaxPendingTipsValue { value: msg.max_pending_tips, max: MAX_CONFIGURABLE_PENDING_TIPS }),
        valid_limit(msg.max_pending_tips, MAX_CONFIGURABLE_PENDING_TIPS)
            && !valid_limit(msg.max_sent_pending_tips, MAX_CONFIGURABLE_SENT_PENDING_TIPS) ==> r == Err::<(SocialTipsState, Response<BankSend>), ContractError>(
            ContractError::InvalidMaxSentPendingTipsValue { value: msg.max_sent_pending_tips, max: MAX_CONFIGURABLE_SENT_PENDING_TIPS }),
        valid_limit(msg.max_pending_tips, MAX_CONFIGURABLE_PENDING_TIPS)
            && valid_limit(msg.max_sent_pending_tips, MAX_CONFIGURABLE_SENT_PENDING_TIPS) ==> match (msg.admin, admin_addr) {
            (Some(_), Err(e)) => r == Err::<(SocialTipsState, Response<BankSend>), ContractError>(ContractError::Std(e)),
            _ => r matches Ok((s, resp)) && state_wf(s) && s.pending@.len() == 0
                && s.config.max_pending_tips == msg.max_pending_tips
                && s.config.max_sent_pending_tips == msg.max_sent_pending_tips
                && s.config.admin@ == (match (msg.admin, admin_addr) { (Some(_), Ok(a)) => a@, _ => info.sender@ })
                && attrs_view(resp.attributes@) == seq![("action"@, "instantiate"@)] && resp.messages@.len() == 0,
        },
{
    match msg.validate() {
        Ok(()) => {},
        Err(e) => return Err(e),
    }
    let admin = match msg.admin {
        Some(_) => match admin_addr {
            Ok(a) => a,
            Err(e) => return Err(ContractError::Std(e)),
        },
        None => info.sender.clone(),
    };
    let mut resp: Response<BankSend> = Response::new();
    resp.add_attribute("action", "instantiate");
    proof { assert(attrs_view(resp.attributes@) =~= seq![("action"@, "instantiate"@)]); }
    let state = SocialTipsState {
        config: Config { admin, max_pending_tips: msg.max_pending_tips, max_sent_pending_tips: msg.max_sent_pending_tips },
        pending: Vec::new(),
    };
    proof { assert(pending_view(state.pending@) =~= Seq::<PendingV>::empty()); }
    Ok((state, resp))
}

/// What the chain answered for a message: the user that linked the tipped
/// handle (`SendTip`), the verified application links of the sender
/// (`ClaimTips`), or the validation of the new admin address (`UpdateAdmin`).
pub enum ChainAnswer {
    Owner(Result<Option<String>, StdError>),
    Links(Result<Vec<AppLink>, StdError>),
    Address(Result<String, StdError>),
    Nothing,
}

/// Executes a message: validates it, then runs it with what the chain answered.
pub fn execute(state: &mut SocialTipsState, env: &Env, info: &MessageInfo, msg: ExecuteMsg, answer: ChainAnswer)
    -> (r: Result<Response<BankSend>, ContractError>)
    requires
        state_wf(*old(state)),
    ensures
        state_wf(*final(state)),
        match msg {
            ExecuteMsg::SendTip { application, handle, .. } => match app_handle_check(application@, handle@) {
                Err(e) => r == Err::<Response<BankSend>, ContractError>(e) && *final(state) == *old(state),
                Ok(()) => match answer {
                    ChainAnswer::Owner(owner) => send_tip_outcome(*old(state), *final(state), env.block_height, info.sender@,
                        coins_view(info.funds@), application@, handle@, owner, r),
                    _ => (r matches Err(ContractError::Std(StdError::GenericErr { msg })) && msg@ == "missing owner query answer"@) && *final(state) == *old(state),
                },
            },
            ExecuteMsg::ClaimTips {} => match answer {
                ChainAnswer::Links(links) => claim_tips_outcome(*old(state), *final(state), info.sender@, links, r),
                _ => (r matches Err(ContractError::Std(StdError::GenericErr { msg })) && msg@ == "missing application links"@) && *final(state) == *old(state),
            },
            ExecuteMsg::UpdateAdmin { new_admin } => match answer {
                ChainAnswer::Address(a) => update_admin_outcome(*old(state), *final(state), info.sender@, new_admin@, a, r),
                _ => (r matches Err(ContractError::Std(StdError::GenericErr { msg })) && msg@ == "missing address validation"@) && *final(state) == *old(state),
            },
            ExecuteMsg::UpdateMaxPendingTips { value } => if valid_limit(value, MAX_CONFIGURABLE_PENDING_TIPS) {
                update_limit_outcome(*old(state), *final(state), info.sender@, value, false, r)
            } else {
                r == Err::<Response<BankSend>, ContractError>(ContractError::InvalidMaxPendingTipsValue { value, max: MAX_CONFIGURABLE_PENDING_TIPS })
                    && *final(state) == *old(state)
            },
            ExecuteMsg::UpdateMaxSentPendingTips { value } => if valid_limit(value, MAX_CONFIGURABLE_SENT_PENDING_TIPS) {
                update_limit_outcome(*old(state), *final(state), info.sender@, value, true, r)
            } else {
                r == Err::<Response<BankSend>, ContractError>(ContractError::InvalidMaxSentPendingTipsValue { value, max: MAX_CONFIGURABLE_SENT_PENDING_TIPS })
                    && *final(state) == *old(state)
            },
            ExecuteMsg::RemovePendingTip { application, handle } => match app_handle_check(application@, handle@) {
                Err(e) => r == Err::<Response<BankSend>, ContractError>(e) && *final(state) == *old(state),
                Ok(()) => remove_pending_outcome(*old(state), *final(state), info.sender@, application@, handle@, r),
            },
        },
{
    match msg.validate() {
        Ok(()) => {},
        Err(e) => return Err(e),
    }
    match msg {
        ExecuteMsg::SendTip { application, handle, .. } => match answer {
            ChainAnswer::Owner(owner) => send_tip(state, env, info, application, handle, owner),
            _ => Err(ContractError::Std(StdError::GenericErr { msg: String::from_str("missing owner query answer") })),
        },
        ExecuteMsg::ClaimTips {} => match answer {
            ChainAnswer::Links(links) => claim_tips(state, info, links),
            _ => Err(ContractError::Std(StdError::GenericErr { msg: String::from_str("missing application links") })),
        },
        ExecuteMsg::UpdateAdmin { new_admin } => match answer {
            ChainAnswer::Address(a) => update_admin(state, info, new_admin, a),
            _ => Err(ContractError::Std(StdError::GenericErr { msg: String::from_str("missing address validation") })),
        },
        ExecuteMsg::UpdateMaxPendingTips { value } => update_max_pending_tips(state, info, value),
        ExecuteMsg::UpdateMaxSentPendingTips { value } => update_max_sent_pending_tips(state, info, value),
        ExecuteMsg::RemovePendingTip { application, handle } => remove_pending_tip(state, info, application, handle),
    }
}

} // verus!

verus! {

/// The pending tips that wait for the handle of the link, in key order.
pub open spec fn link_tips(p: Seq<PendingV>, l: LinkV) -> Seq<PendingTipV>
    decreases p.len(),
{
    if p.len() == 0 {
        Seq::empty()
    } else {
        link_tips(p.drop_last(), l) + if matches_link(p.last(), l) {
            seq![(p.last().2, p.last().3, p.last().4)]
        } else {
            Seq::empty()
        }
    }
}

/// The pending tips of all the links, link after link.
pub open spec fn links_tips(p: Seq<PendingV>, links: Seq<LinkV>) -> Seq<PendingTipV>
    decreases links.len(),
{
    if links.len() == 0 {
        Seq::empty()
    } else {
        links_tips(p, links.drop_last()) + link_tips(p, links.last())
    }
}

/// The pending tips that `sender` sent, in key order.
pub open spec fn sent_tips(p: Seq<PendingV>, sender: Seq<char>) -> Seq<PendingTipV>
    decreases p.len(),
{
    if p.len() == 0 {
        Seq::empty()
    } else {
        sent_tips(p.drop_last(), sender) + if p.last().2 == sender {
            seq![(p.last().2, p.last().3, p.last().4)]
        } else {
            Seq::empty()
        }
    }
}

/// The pending tips as values.
pub open spec fn tips_view(t: Seq<PendingTip>) -> Seq<PendingTipV> {
    t.map_values(|x: PendingTip| x@)
}

/// The answer to the `UserPendingTips` query.
pub struct QueryPendingTipsResponse {
    pub tips: Vec<PendingTip>,
}

/// The answer to the `UnclaimedSentTips` query.
pub struct QueryUnclaimedSentTipsResponse {
    pub tips: Vec<PendingTip>,
}

/// The answer to the `Config` query.
pub struct QueryConfigResponse {
    pub admin: String,
    pub max_pending_tips: u16,
    pub max_sent_pending_tips: u16,
}

impl PendingTip {
    /// A copy of this pending tip.
    pub fn duplicate(&self) -> (t: PendingTip)
        ensures
            t@ == self@,
    {
        PendingTip { sender: self.sender.clone(), amount: clone_coins(self.amount.as_slice()), block_height: self.block_height }
    }
}

/// The pending tips of the user: for each verified application link (`links`),
/// the tips that wait for its handle. `user` is the validation of the address.
pub fn query_user_pending_tips(state: &SocialTipsState, user: Result<String, StdError>,
    links: Result<Vec<AppLink>, StdError>) -> (r: Result<QueryPendingTipsResponse, StdError>)
    ensures
        match (user, links) {
            (Err(e), _) => r == Err::<QueryPendingTipsResponse, StdError>(e),
            (Ok(_), Err(e)) => r == Err::<QueryPendingTipsResponse, StdError>(e),
            (Ok(_), Ok(ls)) => r matches Ok(resp)
                && tips_view(resp.tips@) == links_tips(pending_view(state.pending@), links_view(ls@)),
        },
{
    match user {
        Ok(_) => {},
        Err(e) => return Err(e),
    }
    let app_links = match links {
        Ok(l) => l,
        Err(e) => return Err(e),
    };
    let links = verified_links(&app_links);
    let ghost pv = pending_view(state.pending@);
    let ghost lv = pairs_view(links@);
    let mut tips: Vec<PendingTip> = Vec::new();
    let mut li: usize = 0;
    proof { assert(tips_view(tips@) =~= links_tips(pv, lv.take(0))); }
    while li < links.len()
        invariant
            li <= links.len(),
            pv == pending_view(state.pending@),
            lv == pairs_view(links@),
            tips_view(tips@) == links_tips(pv, lv.take(li as int)),
        decreases links.len() - li,
    {
        let ghost l = lv[li as int];
        let ghost base = tips_view(tips@);
        let mut k: usize = 0;
        proof { assert(base =~= base + link_tips(pv.take(0), l)); }
        while k < state.pending.len()
            invariant
                k <= state.pending.len(),
                pv == pending_view(state.pending@),
                lv == pairs_view(links@),
                li < links.len(),
                l == lv[li as int],
                tips_view(tips@) == base + link_tips(pv.take(k as int), l),
            decreases state.pending.len() - k,
        {
            proof { assert(pv.take(k + 1).drop_last() =~= pv.take(k as int)); }
            let e = &state.pending[k];
            assert(pv[k as int] == e@);
            let ghost prev = tips_view(tips@);
            if e.application == links[li].0 && e.handle == links[li].1 {
                tips.push(e.tip.duplicate());
                proof {
                    assert(tips_view(tips@) =~= prev.push(e.tip@));
                    assert(base + link_tips(pv.take(k + 1), l) =~= base + link_tips(pv.take(k as int), l) + seq![e.tip@]);
                }
            } else {
                proof {
                    assert(base + link_tips(pv.take(k + 1), l) =~= base + link_tips(pv.take(k as int), l));
                }
            }
            k = k + 1;
        }
        proof {
            assert(pv.take(pv.len() as int) =~= pv);
            assert(lv.take(li + 1).drop_last() =~= lv.take(li as int));
            assert(tips_view(tips@) =~= links_tips(pv, lv.take(li + 1)));
        }
        li = li + 1;
    }
    proof { assert(lv.take(lv.len() as int) =~= lv); }
    Ok(QueryPendingTipsResponse { tips })
}

/// The pending tips that a user sent and nobody claimed yet; `sender` is the
/// validation of the address.
pub fn query_unclaimed_sent_tips(state: &SocialTipsState, sender: Result<String, StdError>)
    -> (r: Result<QueryUnclaimedSentTipsResponse, StdError>)
    ensures
        match sender {
            Err(e) => r == Err::<QueryUnclaimedSentTipsResponse, StdError>(e),
            Ok(s) => r matches Ok(resp) && tips_view(resp.tips@) == sent_tips(pending_view(state.pending@), s@),
        },
{
    let sender = match sender {
        Ok(s) => s,
        Err(e) => return Err(e),
    };
    let ghost pv = pending_view(state.pending@);
    let mut tips: Vec<PendingTip> = Vec::new();
    let mut k: usize = 0;
    proof { assert(tips_view(tips@) =~= sent_tips(pv.take(0), sender@)); }
    while k < state.pending.len()
        invariant
            k <= state.pending.len(),
            pv == pending_view(state.pending@),
            tips_view(tips@) == sent_tips(pv.take(k as int), sender@),
        decreases state.pending.len() - k,
    {
        proof { assert(pv.take(k + 1).drop_last() =~= pv.take(k as int)); }
        let e = &state.pending[k];
        assert(pv[k as int] == e@);
        let ghost prev = tips_view(tips@);
        if e.tip.sender == sender {
            tips.push(e.tip.duplicate());
            proof { assert(tips_view(tips@) =~= sent_tips(pv.take(k + 1), sender@)); }
        } else {
            proof { assert(tips_view(tips@) =~= sent_tips(pv.take(k + 1), sender@)); }
        }
        k = k + 1;
    }
    proof { assert(pv.take(pv.len() as int) =~= pv); }
    Ok(QueryUnclaimedSentTipsResponse { tips })
}

/// Answers the configuration of the contract.
pub fn query_config(state: &SocialTipsState) -> (r: QueryConfigResponse)
    ensures
        r.admin@ == state.config.admin@,
        r.max_pending_tips == state.config.max_pending_tips,
        r.max_sent_pending_tips == state.config.max_sent_pending_tips,
{
    QueryConfigResponse {
        admin: state.config.admin.clone(),
        max_pending_tips: state.config.max_pending_tips,
        max_sent_pending_tips: state.config.max_sent_pending_tips,
    }
}

/// The queries of the contract.
pub enum QueryMsg {
    UserPendingTips { user: String },
    UnclaimedSentTips { user: String },
    Config {},
}

/// What the queries answer.
pub enum QueryResponse {
    PendingTips(QueryPendingTipsResponse),
    UnclaimedSentTips(QueryUnclaimedSentTipsResponse),
    Config(QueryConfigResponse),
}

/// Answers a query; `user` is the validation of the queried address and `links`
/// the verified application links of the user.
pub fn query(state: &SocialTipsState, msg: QueryMsg, user: Result<String, StdError>,
    links: Result<Vec<AppLink>, StdError>) -> (r: Result<QueryResponse, StdError>)
    ensures
        match msg {
            QueryMsg::UserPendingTips { .. } => match (user, links) {
                (Err(e), _) => r == Err::<QueryResponse, StdError>(e),
                (Ok(_), Err(e)) => r == Err::<QueryResponse, StdError>(e),
                (Ok(_), Ok(ls)) => r matches Ok(QueryResponse::PendingTips(resp))
                    && tips_view(resp.tips@) == links_tips(pending_view(state.pending@), links_view(ls@)),
            },
            QueryMsg::UnclaimedSentTips { .. } => match user {
                Err(e) => r == Err::<QueryResponse, StdError>(e),
                Ok(s) => r matches Ok(QueryResponse::UnclaimedSentTips(resp))
                    && tips_view(resp.tips@) == sent_tips(pending_view(state.pending@), s@),
            },
            QueryMsg::Config {} => r matches Ok(QueryResponse::Config(c)) && c.admin@ == state.config.admin@
                && c.max_pending_tips == state.config.max_pending_tips
                && c.max_sent_pending_tips == state.config.max_sent_pending_tips,
        },
{
    match msg {
        QueryMsg::UserPendingTips { .. } => match query_user_pending_tips(state, user, links) {
            Ok(t) => Ok(QueryResponse::PendingTips(t)),
            Err(e) => Err(e),
        },
        QueryMsg::UnclaimedSentTips { .. } => match query_unclaimed_sent_tips(state, user) {
            Ok(t) => Ok(QueryResponse::UnclaimedSentTips(t)),
            Err(e) => Err(e),
        },
        QueryMsg::Config {} => Ok(QueryResponse::Config(query_config(state))),
    }
}

} // verus!

verus! {

proof fn lemma_count_insert(s: Seq<PendingV>, i: int, e: PendingV, x: Seq<char>, a: Seq<char>, h: Seq<char>)
    requires
        0 <= i <= s.len(),
    ensures
        count_sent(s.insert(i, e), x) == count_sent(s, x) + if e.2 == x { 1nat } else { 0nat },
        count_for(s.insert(i, e), a, h) == count_for(s, a, h) + if e.0 == a && e.1 == h { 1nat } else { 0nat },
    decreases s.len(),
{
    if i == s.len() {
        assert(s.insert(i, e).drop_last() =~= s);
    } else {
        assert(s.insert(i, e).drop_last() =~= s.drop_last().insert(i, e));
        lemma_count_insert(s.drop_last(), i, e, x, a, h);
    }
}

proof fn lemma_count_update(s: Seq<PendingV>, i: int, e: PendingV, x: Seq<char>, a: Seq<char>, h: Seq<char>)
    requires
        0 <= i < s.len(),
        same_key(s[i], e),
    ensures
        count_sent(s.update(i, e), x) == count_sent(s, x),
        count_for(s.update(i, e), a, h) == count_for(s, a, h),
    decreases s.len(),
{
    if i == s.len() - 1 {
        assert(s.update(i, e).drop_last() =~= s.drop_last());
    } else {
        assert(s.update(i, e).drop_last() =~= s.drop_last().update(i, e));
        lemma_count_update(s.drop_last(), i, e, x, a, h);
    }
}

/// No sender has more pending tips than the limit of sent pending tips, and no
/// handle more than the limit of pending tips.
pub open spec fn within_limits(s: SocialTipsState) -> bool {
    let pv = pending_view(s.pending@);
    &&& forall|x: Seq<char>| #[trigger] count_sent(pv, x) <= s.config.max_sent_pending_tips
    &&& forall|a: Seq<char>, h: Seq<char>| #[trigger] count_for(pv, a, h) <= s.config.max_pending_tips
}

/// Sending a tip never takes a sender or a handle beyond the limits of pending
/// tips.
pub proof fn law_pending_limits_kept(s0: SocialTipsState, s1: SocialTipsState, height: u64, sender: Seq<char>,
    funds: Seq<CoinV>, application: Seq<char>, handle: Seq<char>, owner: Result<Option<String>, StdError>,
    r: Result<Response<BankSend>, ContractError>)
    requires
        within_limits(s0),
        send_tip_outcome(s0, s1, height, sender, funds, application, handle, owner, r),
    ensures
        within_limits(s1),
{
    let pv = pending_view(s0.pending@);
    let pv1 = pending_view(s1.pending@);
    if s1 != s0 {
        let (m, replaced) = choose|m: Seq<CoinV>, replaced: Option<PendingTipV>| is_merge_of(m, funds)
            && put_result(pv, pv1, (application, handle, sender, m, height))
            && replaced_tip(pv, (application, handle, sender, m, height), replaced)
            && (r matches Ok(resp) && pending_tip_response(resp, m, replaced));
        let e: PendingV = (application, handle, sender, m, height);
        let i = choose|i: int| 0 <= i <= pv.len() && #[trigger] put_at(pv, pv1, e, i);
        assert forall|x: Seq<char>| #[trigger] count_sent(pv1, x) <= s1.config.max_sent_pending_tips by {
            assert(count_sent(pv, x) <= s0.config.max_sent_pending_tips);
            if i < pv.len() && same_key(pv[i], e) && pv1 == pv.update(i, e) {
                lemma_count_update(pv, i, e, x, application, handle);
            } else {
                lemma_count_insert(pv, i, e, x, application, handle);
            }
        }
        assert forall|a: Seq<char>, h: Seq<char>| #[trigger] count_for(pv1, a, h) <= s1.config.max_pending_tips by {
            assert(count_for(pv, a, h) <= s0.config.max_pending_tips);
            if i < pv.len() && same_key(pv[i], e) && pv1 == pv.update(i, e) {
                lemma_count_update(pv, i, e, sender, a, h);
            } else {
                lemma_count_insert(pv, i, e, sender, a, h);
            }
        }
    }
}


/// A tip to a handle that nobody linked waits for it: afterwards the pending
/// tips hold it, under its merged coins, as the one tip of its sender for the
/// handle.
pub proof fn law_pending_tip_recorded(s0: SocialTipsState, s1: SocialTipsState, height: u64, sender: Seq<char>,
    funds: Seq<CoinV>, application: Seq<char>, handle: Seq<char>, r: Result<Response<BankSend>, ContractError>)
    requires
        send_tip_outcome(s0, s1, height, sender, funds, application, handle, Ok(None), r),
        r is Ok,
    ensures
        exists|m: Seq<CoinV>| is_merge_of(m, funds) && #[trigger] pending_view(s1.pending@).contains((application, handle, sender, m, height)),
        forall|x: PendingV| #[trigger] pending_view(s1.pending@).contains(x) && x.0 == application && x.1 == handle
            && x.2 == sender ==> x.4 == height,
{
    let pv = pending_view(s0.pending@);
    let pv1 = pending_view(s1.pending@);
    let (m, replaced) = choose|m: Seq<CoinV>, replaced: Option<PendingTipV>| is_merge_of(m, funds)
        && put_result(pv, pv1, (application, handle, sender, m, height))
        && replaced_tip(pv, (application, handle, sender, m, height), replaced)
        && (r matches Ok(resp) && pending_tip_response(resp, m, replaced));
    let e: PendingV = (application, handle, sender, m, height);
    assert(pv1.contains(e));
    assert forall|x: PendingV| #[trigger] pv1.contains(x) && x.0 == application && x.1 == handle && x.2 == sender
        implies x.4 == height by {
        assert(same_key(x, e));
    }
}

/// The pending tips that no link claims are exactly the pending tips that
/// wait for none of the handles.
proof fn lemma_unclaimed_members(p: Seq<PendingV>, links: Seq<LinkV>)
    ensures
        forall|x: PendingV| #[trigger] unclaimed(p, links).contains(x) <==> p.contains(x) && !claimed_by(x, links),
    decreases p.len(),
{
    if p.len() > 0 {
        lemma_unclaimed_members(p.drop_last(), links);
        let rest = unclaimed(p.drop_last(), links);
        assert forall|x: PendingV| #[trigger] unclaimed(p, links).contains(x) <==> p.contains(x) && !claimed_by(x, links) by {
            if p.contains(x) && !claimed_by(x, links) {
                let i = choose|i: int| 0 <= i < p.len() && p[i] == x;
                if i < p.len() - 1 {
                    assert(p.drop_last()[i] == x);
                    assert(p.drop_last().contains(x));
                    assert(rest.contains(x));
                    let k = choose|k: int| 0 <= k < rest.len() && rest[k] == x;
                    assert(unclaimed(p, links)[k] == x);
                } else {
                    assert(unclaimed(p, links)[rest.len() as int] == x);
                }
            }
            if unclaimed(p, links).contains(x) {
                let k = choose|k: int| 0 <= k < unclaimed(p, links).len() && unclaimed(p, links)[k] == x;
                if k < rest.len() {
                    assert(rest[k] == x);
                    assert(rest.contains(x));
                    let i = choose|i: int| 0 <= i < p.drop_last().len() && p.drop_last()[i] == x;
                    assert(p[i] == x);
                } else {
                    assert(x == p.last());
                    assert(p[p.len() - 1] == x);
                }
            }
        }
    }
}

/// Claiming takes every pending tip that waits for a handle of the claimer and
/// keeps all the others.
pub proof fn law_claim_takes_linked_tips(s0: SocialTipsState, s1: SocialTipsState, sender: Seq<char>,
    links: Result<Vec<AppLink>, StdError>, r: Result<Response<BankSend>, ContractError>)
    requires
        claim_tips_outcome(s0, s1, sender, links, r),
        r is Ok,
    ensures
        forall|x: PendingV| #[trigger] pending_view(s1.pending@).contains(x)
            <==> pending_view(s0.pending@).contains(x) && !claimed_by(x, links_view(links->Ok_0@)),
{
    lemma_unclaimed_members(pending_view(s0.pending@), links_view(links->Ok_0@));
}

/// Taking back a pending tip leaves no tip of the sender for that handle, and
/// keeps the other pending tips.
pub proof fn law_removed_tip_gone(s0: SocialTipsState, s1: SocialTipsState, sender: Seq<char>,
    application: Seq<char>, handle: Seq<char>, r: Result<Response<BankSend>, ContractError>)
    requires
        state_wf(s0),
        remove_pending_outcome(s0, s1, sender, application, handle, r),
        r is Ok,
    ensures
        forall|x: PendingV| #[trigger] pending_view(s1.pending@).contains(x) ==>
            !(x.0 == application && x.1 == handle && x.2 == sender),
        forall|x: PendingV| #[trigger] pending_view(s0.pending@).contains(x) && !(x.0 == application && x.1 == handle && x.2 == sender)
            ==> pending_view(s1.pending@).contains(x),
{
    let pv = pending_view(s0.pending@);
    let key: PendingV = (application, handle, sender, Seq::empty(), 0);
    let i = choose|i: int| 0 <= i < pv.len() && same_key(#[trigger] pv[i], key)
        && pending_view(s1.pending@) == pv.remove(i) && s1.config == s0.config
        && (r matches Ok(resp) && attrs_view(resp.attributes@) == seq![("action"@, "remove_pending_tip"@),
            ("removed_tip_amount"@, coins_text(pv[i].3))]
            && resp.messages@.len() == 1 && resp.messages@[0]@ == (sender, pv[i].3));
    let pv1 = pv.remove(i);
    assert forall|x: PendingV| #[trigger] pv1.contains(x) implies !(x.0 == application && x.1 == handle && x.2 == sender) by {
        let k = choose|k: int| 0 <= k < pv1.len() && pv1[k] == x;
        let j = if k < i { k } else { k + 1 };
        assert(pv[j] == x);
        if x.0 == application && x.1 == handle && x.2 == sender {
            if j < i {
                assert(key_lt(pv[j], pv[i]));
            } else {
                assert(key_lt(pv[i], pv[j]));
            }
            lemma_key_lt_irreflexive(x);
            assert(false);
        }
    }
    assert forall|x: PendingV| #[trigger] pv.contains(x) && !(x.0 == application && x.1 == handle && x.2 == sender)
        implies pv1.contains(x) by {
        let j = choose|j: int| 0 <= j < pv.len() && pv[j] == x;
        assert(j != i);
        if j < i {
            assert(pv1[j] == x);
        } else {
            assert(pv1[j - 1] == x);
        }
    }
}

/// Taking back a tip that waited for a handle undoes sending it: when the
/// sender had no pending tip for the handle before, the pending tips are those
/// of before, and the sender gets back the funds sent, merged by denomination.
pub proof fn law_remove_undoes_pending_tip(s0: SocialTipsState, s1: SocialTipsState, s2: SocialTipsState,
    height: u64, sender: Seq<char>, funds: Seq<CoinV>, application: Seq<char>, handle: Seq<char>,
    r1: Result<Response<BankSend>, ContractError>, r2: Result<Response<BankSend>, ContractError>)
    requires
        forall|x: PendingV| #[trigger] pending_view(s0.pending@).contains(x) ==>
            !(x.0 == application && x.1 == handle && x.2 == sender),
        send_tip_outcome(s0, s1, height, sender, funds, application, handle, Ok(None), r1),
        r1 is Ok,
        remove_pending_outcome(s1, s2, sender, application, handle, r2),
        r2 is Ok,
    ensures
        forall|x: PendingV| #[trigger] pending_view(s2.pending@).contains(x) <==> pending_view(s0.pending@).contains(x),
        forall|m: Seq<CoinV>| #[trigger] is_merge_of(m, funds) ==> (r2 matches Ok(resp) && resp.messages@.len() == 1
            && resp.messages@[0]@ == (sender, m)),
{
    let pv = pending_view(s0.pending@);
    let pv1 = pending_view(s1.pending@);
    let (m, replaced) = choose|m: Seq<CoinV>, replaced: Option<PendingTipV>| is_merge_of(m, funds)
        && put_result(pv, pv1, (application, handle, sender, m, height))
        && replaced_tip(pv, (application, handle, sender, m, height), replaced)
        && (r1 matches Ok(resp) && pending_tip_response(resp, m, replaced));
    assert(state_wf(s1));
    law_removed_tip_gone(s1, s2, sender, application, handle, r2);
    let key: PendingV = (application, handle, sender, Seq::empty(), 0);
    let i = choose|i: int| 0 <= i < pv1.len() && same_key(#[trigger] pv1[i], key)
        && pending_view(s2.pending@) == pv1.remove(i) && s2.config == s1.config
        && (r2 matches Ok(resp) && attrs_view(resp.attributes@) == seq![("action"@, "remove_pending_tip"@),
            ("removed_tip_amount"@, coins_text(pv1[i].3))]
            && resp.messages@.len() == 1 && resp.messages@[0]@ == (sender, pv1[i].3));
    let e: PendingV = (application, handle, sender, m, height);
    assert(pv1[i] == e) by {
        assert(pv1.contains(e));
        let j = choose|j: int| 0 <= j < pv1.len() && pv1[j] == e;
        if j < i {
            assert(key_lt(pv1[j], pv1[i]));
            lemma_key_lt_irreflexive(e);
        } else if j > i {
            assert(key_lt(pv1[i], pv1[j]));
            lemma_key_lt_irreflexive(e);
        }
    }
    assert forall|m2: Seq<CoinV>| #[trigger] is_merge_of(m2, funds) implies (r2 matches Ok(resp) && resp.messages@.len() == 1
        && resp.messages@[0]@ == (sender, m2)) by {
        lemma_merge_unique(m, m2, funds);
    }
    assert forall|x: PendingV| #[trigger] pending_view(s2.pending@).contains(x) <==> pv.contains(x) by {
        if pending_view(s2.pending@).contains(x) {
            // What stays after the removal was there before it.
            let k = choose|k: int| 0 <= k < pv1.remove(i).len() && pv1.remove(i)[k] == x;
            if k < i {
                assert(pv1[k] == x);
            } else {
                assert(pv1[k + 1] == x);
            }
        }
    }
}

/// Once a pending tip was taken back, taking it back again finds nothing: the
/// answer is `NoPendingTip` and nothing changes.
pub proof fn law_second_removal_finds_nothing(s1: SocialTipsState, s2: SocialTipsState, s3: SocialTipsState,
    sender: Seq<char>, application: Seq<char>, handle: Seq<char>,
    r2: Result<Response<BankSend>, ContractError>, r3: Result<Response<BankSend>, ContractError>)
    requires
        state_wf(s1),
        remove_pending_outcome(s1, s2, sender, application, handle, r2),
        r2 is Ok,
        remove_pending_outcome(s2, s3, sender, application, handle, r3),
    ensures
        r3 matches Err(ContractError::NoPendingTip { application: a, handle: h }) && a@ == application && h@ == handle,
        s3 == s2,
{
    law_removed_tip_gone(s1, s2, sender, application, handle, r2);
    let pv2 = pending_view(s2.pending@);
    let key: PendingV = (application, handle, sender, Seq::empty(), 0);
    assert forall|i: int| 0 <= i < pv2.len() implies !same_key(#[trigger] pv2[i], key) by {
        assert(pv2.contains(pv2[i]));
    }
}

/// Only verified links count: a pair of application and handle comes out of
/// the links exactly when some link in state `VerificationSuccess` names it.
pub proof fn law_only_verified_links_count(links: Seq<AppLink>)
    ensures
        forall|p: LinkV| #[trigger] links_view(links).contains(p) <==> exists|i: int| 0 <= i < links.len()
            && (#[trigger] links[i]).state is VerificationSuccess && (links[i].application@, links[i].username@) == p,
    decreases links.len(),
{
    if links.len() > 0 {
        let init = links.drop_last();
        let last = links.last();
        law_only_verified_links_count(init);
        let lv = links_view(links);
        let iv = links_view(init);
        assert forall|p: LinkV| #[trigger] lv.contains(p) <==> exists|i: int| 0 <= i < links.len()
            && (#[trigger] links[i]).state is VerificationSuccess && (links[i].application@, links[i].username@) == p by {
            if lv.contains(p) {
                let k = choose|k: int| 0 <= k < lv.len() && lv[k] == p;
                if k < iv.len() {
                    assert(iv[k] == lv[k]);
                    assert(iv.contains(p));
                    let i = choose|i: int| 0 <= i < init.len()
                        && (#[trigger] init[i]).state is VerificationSuccess && (init[i].application@, init[i].username@) == p;
                    assert(links[i] == init[i]);
                } else {
                    assert(last.state is VerificationSuccess);
                    assert(links[links.len() - 1] == last);
                }
            }
            if exists|i: int| 0 <= i < links.len()
                && (#[trigger] links[i]).state is VerificationSuccess && (links[i].application@, links[i].username@) == p {
                let i = choose|i: int| 0 <= i < links.len()
                    && (#[trigger] links[i]).state is VerificationSuccess && (links[i].application@, links[i].username@) == p;
                if i < links.len() - 1 {
                    assert(init[i] == links[i]);
                    assert(iv.contains(p));
                    let k = choose|k: int| 0 <= k < iv.len() && iv[k] == p;
                    assert(lv[k] == p);
                } else {
                    assert(lv[lv.len() - 1] == p);
                }
            }
        }
    }
}

/// With no verified link, claiming takes nothing: the answer is
/// `NoTipsAvailable` for the sender, every pending tip stays, and the pending
/// tips of the user are none.
pub proof fn law_unverified_links_claim_nothing(s0: SocialTipsState, s1: SocialTipsState, sender: Seq<char>,
    links: Vec<AppLink>, r: Result<Response<BankSend>, ContractError>)
    requires
        forall|i: int| 0 <= i < links@.len() ==> !((#[trigger] links@[i]).state is VerificationSuccess),
        claim_tips_outcome(s0, s1, sender, Ok(links), r),
    ensures
        r matches Err(ContractError::NoTipsAvailable { user }) && user@ == sender,
        s1 == s0,
        links_tips(pending_view(s0.pending@), links_view(links@)).len() == 0,
{
    law_only_verified_links_count(links@);
    let lv = links_view(links@);
    if lv.len() > 0 {
        assert(lv.contains(lv[0]));
    }
    assert(lv =~= Seq::<LinkV>::empty());
    let c = collected(pending_view(s0.pending@), lv);
    assert(c =~= Seq::<CoinV>::empty());
    assert(!crate::coins::totals_overflow(c));
}

} // verus!
