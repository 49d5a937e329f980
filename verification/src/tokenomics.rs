//! Dummy tokenomics: the chain periodically asks the contract to reward the
//! creators of posts with one million tokens per new reaction by another user.
use vstd::prelude::*;
use vstd::string::*;
use crate::coins::{Coin, StdError, coins_view};
use crate::chain::{Response, attrs_view};

verus! {

/// The reward per new reaction.
pub const REWARD_PER_REACTION: u128 = 1_000_000u128;

/// The errors of the tokenomics contract.
#[derive(Debug, PartialEq, Eq)]
pub enum ContractError {
    Std(StdError),
}

/// The message that instantiates the contract.
pub struct InstantiateMsg {
    pub token_denom: String,
}

/// The messages that the chain sends.
pub enum SudoMsg {
    ExecuteTokenomics {},
}

/// A post as the chain lists it.
#[derive(Debug, PartialEq, Eq)]
pub struct Post {
    pub post_id: String,
    pub creator: String,
    pub subspace: String,
}

/// A payment of the contract.
#[derive(Debug, PartialEq, Eq)]
pub struct BankSend {
    pub to_address: String,
    pub amount: Vec<Coin>,
}

/// The number of reactions recorded for a post.
#[derive(Debug, PartialEq, Eq)]
pub struct StoredReactions {
    pub post_id: String,
    pub amount: u128,
}

/// The state of the contract.
pub struct TokenomicsState {
    /// The denomination of the rewards, once set.
    pub denom: Option<String>,
    /// Every recorded number of reactions, oldest first; the newest entry of a
    /// post holds its number.
    pub reactions: Vec<StoredReactions>,
}

/// The recorded numbers of reactions by post.
pub open spec fn stored_map(s: Seq<StoredReactions>) -> Map<Seq<char>, u128>
    decreases s.len(),
{
    if s.len() == 0 {
        Map::empty()
    } else {
        stored_map(s.drop_last()).insert(s.last().post_id@, s.last().amount)
    }
}

/// The number recorded for `post`, zero when there is none.
pub open spec fn lookup(m: Map<Seq<char>, u128>, post: Seq<char>) -> u128 {
    if m.contains_key(post) { m[post] } else { 0 }
}

/// The reward for going from `stored` to `actual` reactions.
pub open spec fn reward_of(stored: u128, actual: u128) -> int {
    if actual > stored { (actual - stored) * REWARD_PER_REACTION } else { 0 }
}

/// The number of reactions of others than `creator`.
pub open spec fn count_others(owners: Seq<String>, creator: Seq<char>) -> nat
    decreases owners.len(),
{
    if owners.len() == 0 {
        0
    } else {
        count_others(owners.drop_last(), creator) + if owners.last()@ != creator { 1nat } else { 0nat }
    }
}

/// The number of reactions of others to the `i`-th post.
pub open spec fn actual_of(posts: Seq<Post>, reactions: Seq<Result<Vec<String>, StdError>>, i: int) -> u128 {
    count_others(reactions[i]->Ok_0@, posts[i].creator@) as u128
}

/// The recorded numbers after the first `i` posts.
pub open spec fn map_after(m: Map<Seq<char>, u128>, posts: Seq<Post>, reactions: Seq<Result<Vec<String>, StdError>>, i: int)
    -> Map<Seq<char>, u128>
    decreases i,
{
    if i <= 0 {
        m
    } else {
        map_after(m, posts, reactions, i - 1).insert(posts[i - 1].post_id@, actual_of(posts, reactions, i - 1))
    }
}

/// The reward of the `i`-th post.
pub open spec fn reward_at(m: Map<Seq<char>, u128>, posts: Seq<Post>, reactions: Seq<Result<Vec<String>, StdError>>, i: int) -> int {
    reward_of(lookup(map_after(m, posts, reactions, i), posts[i].post_id@), actual_of(posts, reactions, i))
}

/// The payments for the first `i` posts: creator and reward of each post with
/// a reward.
pub open spec fn payouts(m: Map<Seq<char>, u128>, posts: Seq<Post>, reactions: Seq<Result<Vec<String>, StdError>>, i: int)
    -> Seq<(Seq<char>, int)>
    decreases i,
{
    if i <= 0 {
        Seq::empty()
    } else {
        payouts(m, posts, reactions, i - 1) + if reward_at(m, posts, reactions, i - 1) != 0 {
            seq![(posts[i - 1].creator@, reward_at(m, posts, reactions, i - 1))]
        } else {
            Seq::empty()
        }
    }
}

/// The payments as creator and amount of their one coin of `denom`.
pub open spec fn sends_view(s: Seq<BankSend>, denom: Seq<char>) -> Seq<(Seq<char>, int)> {
    s.map_values(|b: BankSend| (b.to_address@, if b.amount@.len() == 1 && b.amount@[0].denom@ == denom { b.amount@[0].amount as int } else { -1 }))
}

/// The storage error that reading the missing denomination gives.
pub open spec fn denom_not_found(e: StdError) -> bool {
    e matches StdError::NotFound { kind } && kind@ == "alloc::string::String"@
}

fn denom_not_found_error() -> (e: StdError)
    ensures
        denom_not_found(e),
{
    StdError::NotFound { kind: String::from_str("alloc::string::String") }
}

/// A `usize` fits in 64 bits.
proof fn lemma_usize_fits_u64()
    ensures
        usize::MAX <= u64::MAX,
{
    assert(usize::BITS == 32 || usize::BITS == 64);
    if usize::BITS == 32 {
        assert(usize::MAX == 0xffff_ffff);
    } else {
        assert(usize::MAX == 0xffff_ffff_ffff_ffff);
    }
}

/// The number of reactions of others than `creator`.
fn count_reactions(owners: &Vec<String>, creator: &String) -> (n: u128)
    ensures
        n == count_others(owners@, creator@),
        n <= owners@.len(),
{
    let mut n: u128 = 0;
    let mut i: usize = 0;
    while i < owners.len()
        invariant
            i <= owners@.len(),
            n == count_others(owners@.take(i as int), creator@),
            n <= i,
        decreases owners.len() - i,
    {
        proof { assert(owners@.take(i + 1).drop_last() =~= owners@.take(i as int)); }
        if !(owners[i] == *creator) {
            n = n + 1;
        }
        i = i + 1;
    }
    proof { assert(owners@.take(owners@.len() as int) =~= owners@); }
    n
}

/// Instantiates the contract with the denomination of the rewards.
pub fn instantiate(msg: InstantiateMsg) -> (r: (TokenomicsState, Response<BankSend>))
    ensures
        r.0.denom == Some(msg.token_denom) && r.0.reactions@.len() == 0,
        attrs_view(r.1.attributes@) == seq![("action"@, "set_token_denom"@)],
        r.1.messages@.len() == 0,
{
    let mut resp: Response<BankSend> = Response::new();
    resp.add_attribute("action", "set_token_denom");
    proof { assert(attrs_view(resp.attributes@) =~= seq![("action"@, "set_token_denom"@)]); }
    (TokenomicsState { denom: Some(msg.token_denom), reactions: Vec::new() }, resp)
}

impl TokenomicsState {
    /// The number recorded for `post`.
    pub fn stored_of(&self, post: &String) -> (r: u128)
        ensures
            r == lookup(stored_map(self.reactions@), post@),
    {
        let mut i: usize = self.reactions.len();
        proof { assert(self.reactions@.take(i as int) =~= self.reactions@); }
        while i > 0
            invariant
                i <= self.reactions@.len(),
                lookup(stored_map(self.reactions@.take(i as int)), post@) == lookup(stored_map(self.reactions@), post@),
            decreases i,
        {
            proof { assert(self.reactions@.take(i as int).drop_last() =~= self.reactions@.take(i - 1)); }
            if self.reactions[i - 1].post_id == *post {
                return self.reactions[i - 1].amount;
            }
            i = i - 1;
        }
        proof { assert(stored_map(self.reactions@.take(0)) == Map::<Seq<char>, u128>::empty()); }
        0
    }

    /// The reward for going from `stored` to `actual` reactions: one coin of
    /// the reward denomination, one million per new reaction.
    pub fn calculate_rewards(&self, stored_reactions_amount: u128, actual_reactions_amount: u128)
        -> (r: Result<Vec<Coin>, ContractError>)
        requires
            actual_reactions_amount <= u64::MAX,
        ensures
            match self.denom {
                None => r matches Err(ContractError::Std(e)) && denom_not_found(e),
                Some(d) => r matches Ok(c) && coins_view(c@) == seq![(d@,
                    reward_of(stored_reactions_amount, actual_reactions_amount) as u128)],
            },
    {
        let mut rewards_amount: u128 = 0;
        if actual_reactions_amount > stored_reactions_amount {
            let new_reactions = actual_reactions_amount - stored_reactions_amount;
            rewards_amount = new_reactions * REWARD_PER_REACTION;
        }
        let denom = match &self.denom {
            Some(d) => d.clone(),
            None => return Err(ContractError::Std(denom_not_found_error())),
        };
        let rewards = vec![Coin { denom, amount: rewards_amount }];
        proof { assert(coins_view(rewards@) =~= seq![(self.denom->Some_0@, rewards_amount)]); }
        Ok(rewards)
    }
}


/// What a tokenomics run does over the listed posts, given the owners of the
/// reactions to each post (or the error of its reactions query).
pub open spec fn tokenomics_post(old: TokenomicsState, new: TokenomicsState, posts: Seq<Post>,
    reactions: Seq<Result<Vec<String>, StdError>>, r: Result<Response<BankSend>, ContractError>) -> bool {
    let n = posts.len() as int;
    let m = stored_map(old.reactions@);
    &&& r is Err ==> new == old
    &&& (n > 0 && reactions[0] is Err) ==> r == Err::<Response<BankSend>, ContractError>(ContractError::Std(reactions[0]->Err_0))
    &&& (n > 0 && reactions[0] is Ok && old.denom is None) ==> (r matches Err(ContractError::Std(e)) && denom_not_found(e))
    &&& old.denom is Some ==> forall|k: int| 0 <= k < n && (#[trigger] reactions[k]) is Err
        && (forall|j: int| 0 <= j < k ==> (#[trigger] reactions[j]) is Ok)
        ==> r == Err::<Response<BankSend>, ContractError>(ContractError::Std(reactions[k]->Err_0))
    &&& ((forall|j: int| 0 <= j < n ==> (#[trigger] reactions[j]) is Ok) && (n == 0 || old.denom is Some)) ==> {
        &&& r matches Ok(resp)
        &&& sends_view(resp.messages@, old.denom->Some_0@) == payouts(m, posts, reactions, n)
        &&& attrs_view(resp.attributes@) == seq![("action"@, "executed_tokenomics"@),
            ("subspace_id"@, if n == 0 { Seq::<char>::empty() } else { posts[n - 1].subspace@ })]
        &&& stored_map(new.reactions@) == map_after(m, posts, reactions, n)
        &&& new.denom == old.denom
    }
}

/// A copy of the recorded numbers.
fn copy_log(log: &Vec<StoredReactions>) -> (r: Vec<StoredReactions>)
    ensures
        r@ == log@,
{
    let mut r: Vec<StoredReactions> = Vec::new();
    let mut i: usize = 0;
    while i < log.len()
        invariant
            i <= log@.len(),
            r@ == log@.take(i as int),
        decreases log.len() - i,
    {
        r.push(StoredReactions { post_id: log[i].post_id.clone(), amount: log[i].amount });
        proof { assert(r@ =~= log@.take(i + 1)); }
        i = i + 1;
    }
    proof { assert(log@.take(log@.len() as int) =~= log@); }
    r
}

/// The number recorded for `post` in `log`.
fn stored_in(log: &Vec<StoredReactions>, post: &String) -> (r: u128)
    ensures
        r == lookup(stored_map(log@), post@),
{
    let mut i: usize = log.len();
    proof { assert(log@.take(i as int) =~= log@); }
    while i > 0
        invariant
            i <= log@.len(),
            lookup(stored_map(log@.take(i as int)), post@) == lookup(stored_map(log@), post@),
        decreases i,
    {
        proof { assert(log@.take(i as int).drop_last() =~= log@.take(i - 1)); }
        if log[i - 1].post_id == *post {
            return log[i - 1].amount;
        }
        i = i - 1;
    }
    proof { assert(stored_map(log@.take(0)) == Map::<Seq<char>, u128>::empty()); }
    0
}

impl TokenomicsState {
    /// Rewards the creator of each post with one million tokens per reaction
    /// of others since the last run, and records the new numbers of
    /// reactions. `posts` is the answer of the posts query and `reactions` the
    /// owners of the reactions to each post, as the reactions queries answer.
    #[verifier::loop_isolation(false)]
    pub fn execute_tokenomics(&mut self, posts: Vec<Post>, reactions: Vec<Result<Vec<String>, StdError>>)
        -> (r: Result<Response<BankSend>, ContractError>)
        requires
            reactions@.len() == posts@.len(),
        ensures
            tokenomics_post(*old(self), *final(self), posts@, reactions@, r),
    {
        let ghost m = stored_map(self.reactions@);
        let mut log = copy_log(&self.reactions);
        let mut msgs: Vec<BankSend> = Vec::new();
        let mut subspace_id = String::new();
        let mut i: usize = 0;
        while i < posts.len()
            invariant
                i <= posts@.len(),
                *self == *old(self),
                forall|j: int| 0 <= j < i ==> (#[trigger] reactions@[j]) is Ok,
                i > 0 ==> self.denom is Some,
                i == 0 ==> msgs@.len() == 0,
                stored_map(log@) == map_after(m, posts@, reactions@, i as int),
                self.denom is Some ==> sends_view(msgs@, self.denom->Some_0@) == payouts(m, posts@, reactions@, i as int),
                subspace_id@ == if i == 0 { Seq::<char>::empty() } else { posts@[i - 1].subspace@ },
            decreases posts.len() - i,
        {
            let actual = match &reactions[i] {
                Ok(owners) => {
                    let n = count_reactions(owners, &posts[i].creator);
                    let len = owners.len();
                    proof { lemma_usize_fits_u64(); }
                    assert(n <= u64::MAX);
                    assert(n == actual_of(posts@, reactions@, i as int));
                    n
                },
                Err(e) => return Err(ContractError::Std(e.duplicate())),
            };
            assert(actual <= u64::MAX && actual == actual_of(posts@, reactions@, i as int));
            let stored = stored_in(&log, &posts[i].post_id);
            let rewards = match self.calculate_rewards(stored, actual) {
                Ok(c) => c,
                Err(e) => return Err(e),
            };
            let ghost d = self.denom->Some_0@;
            assert(reward_at(m, posts@, reactions@, i as int) == reward_of(stored, actual));
            assert(coins_view(rewards@).len() == 1);
            let amount = rewards[0].amount;
            assert(coins_view(rewards@)[0] == rewards@[0]@);
            let ghost before_msgs = msgs@;
            assert(rewards@[0].denom@ == d && rewards@.len() == 1);
            assert(amount as int == reward_at(m, posts@, reactions@, i as int));
            if amount != 0 {
                msgs.push(BankSend { to_address: posts[i].creator.clone(), amount: rewards });
                proof {
                    assert(sends_view(msgs@, d) =~= sends_view(before_msgs, d).push((posts@[i as int].creator@, reward_at(m, posts@, reactions@, i as int))));
                    assert(payouts(m, posts@, reactions@, i + 1) =~= payouts(m, posts@, reactions@, i as int)
                        + seq![(posts@[i as int].creator@, reward_at(m, posts@, reactions@, i as int))]);
                }
            } else {
                proof {
                    assert(payouts(m, posts@, reactions@, i + 1) =~= payouts(m, posts@, reactions@, i as int));
                }
            }
            let ghost before_log = log@;
            log.push(StoredReactions { post_id: posts[i].post_id.clone(), amount: actual });
            proof { assert(log@.drop_last() =~= before_log); }
            subspace_id = posts[i].subspace.clone();
            i = i + 1;
        }
        self.reactions = log;
        proof {
            if posts@.len() == 0 {
                assert(sends_view(msgs@, self.denom->Some_0@) =~= Seq::<(Seq<char>, int)>::empty());
            }
        }
        let mut resp: Response<BankSend> = Response { attributes: Vec::new(), messages: msgs };
        resp.add_attribute("action", "executed_tokenomics");
        resp.add_attribute("subspace_id", subspace_id.as_str());
        proof {
            assert(attrs_view(resp.attributes@) =~= seq![("action"@, "executed_tokenomics"@), ("subspace_id"@, subspace_id@)]);
        }
        Ok(resp)
    }
}


impl TokenomicsState {
    /// Handles a message of the chain: runs the tokenomics. `posts` is the
    /// answer of the posts query.
    pub fn sudo(&mut self, msg: SudoMsg, posts: Result<Vec<Post>, StdError>, reactions: Vec<Result<Vec<String>, StdError>>)
        -> (r: Result<Response<BankSend>, ContractError>)
        requires
            posts matches Ok(p) ==> reactions@.len() == p@.len(),
        ensures
            match posts {
                Err(e) => r == Err::<Response<BankSend>, ContractError>(ContractError::Std(e)) && *final(self) == *old(self),
                Ok(p) => tokenomics_post(*old(self), *final(self), p@, reactions@, r),
            },
    {
        match msg {
            SudoMsg::ExecuteTokenomics {} => match posts {
                Err(e) => Err(ContractError::Std(e)),
                Ok(p) => self.execute_tokenomics(p, reactions),
            },
        }
    }
}

} // verus!

verus! {

/// No two posts share an id.
pub open spec fn distinct_posts(posts: Seq<Post>) -> bool {
    forall|i: int, j: int| 0 <= i < j < posts.len() ==> (#[trigger] posts[i]).post_id@ != (#[trigger] posts[j]).post_id@
}

proof fn lemma_lookup_after_run(m: Map<Seq<char>, u128>, posts: Seq<Post>, reactions: Seq<Result<Vec<String>, StdError>>, n: int, i: int)
    requires
        distinct_posts(posts),
        0 <= i < n <= posts.len(),
    ensures
        lookup(map_after(m, posts, reactions, n), posts[i].post_id@) == actual_of(posts, reactions, i),
    decreases n,
{
    if i < n - 1 {
        assert(posts[i].post_id@ != posts[n - 1].post_id@);
        lemma_lookup_after_run(m, posts, reactions, n - 1, i);
    }
}

proof fn lemma_lookup_before(m: Map<Seq<char>, u128>, posts: Seq<Post>, reactions: Seq<Result<Vec<String>, StdError>>, k: int, i: int)
    requires
        distinct_posts(posts),
        0 <= k <= i < posts.len(),
    ensures
        lookup(map_after(m, posts, reactions, k), posts[i].post_id@) == lookup(m, posts[i].post_id@),
    decreases k,
{
    if k > 0 {
        assert(posts[k - 1].post_id@ != posts[i].post_id@);
        lemma_lookup_before(m, posts, reactions, k - 1, i);
    }
}

proof fn lemma_no_payouts(m: Map<Seq<char>, u128>, posts: Seq<Post>, reactions: Seq<Result<Vec<String>, StdError>>, k: int)
    requires
        distinct_posts(posts),
        0 <= k <= posts.len(),
        forall|i: int| 0 <= i < posts.len() ==> lookup(m, (#[trigger] posts[i]).post_id@) == actual_of(posts, reactions, i),
    ensures
        payouts(m, posts, reactions, k) == Seq::<(Seq<char>, int)>::empty(),
    decreases k,
{
    if k > 0 {
        lemma_no_payouts(m, posts, reactions, k - 1);
        lemma_lookup_before(m, posts, reactions, k - 1, k - 1);
        assert(lookup(m, posts[k - 1].post_id@) == actual_of(posts, reactions, k - 1));
        assert(reward_at(m, posts, reactions, k - 1) == 0);
    }
}

/// Only new reactions are rewarded: running the tokenomics twice over the same
/// posts and reactions pays nothing the second time.
pub proof fn law_rewards_only_new_reactions(s0: TokenomicsState, s1: TokenomicsState, s2: TokenomicsState, posts: Seq<Post>,
    reactions: Seq<Result<Vec<String>, StdError>>, r1: Result<Response<BankSend>, ContractError>,
    r2: Result<Response<BankSend>, ContractError>)
    requires
        distinct_posts(posts),
        reactions.len() == posts.len(),
        forall|j: int| 0 <= j < reactions.len() ==> (#[trigger] reactions[j]) is Ok,
        s0.denom is Some,
        tokenomics_post(s0, s1, posts, reactions, r1),
        tokenomics_post(s1, s2, posts, reactions, r2),
    ensures
        r2 matches Ok(resp) && resp.messages@.len() == 0,
{
    let n = posts.len() as int;
    let m1 = stored_map(s1.reactions@);
    assert forall|i: int| 0 <= i < posts.len() implies lookup(m1, (#[trigger] posts[i]).post_id@) == actual_of(posts, reactions, i) by {
        lemma_lookup_after_run(stored_map(s0.reactions@), posts, reactions, n, i);
    }
    lemma_no_payouts(m1, posts, reactions, n);
    let resp = r2->Ok_0;
    assert(sends_view(resp.messages@, s1.denom->Some_0@).len() == 0);
}

} // verus!
