//! The tips contract: users tip other users or the authors of posts, paying an
//! optional service fee, and the contract keeps a bounded history of the tips.
use vstd::prelude::*;
use vstd::string::*;
use crate::coins::{Coin, CoinV, StdError, coins_view, clone_coins, sum_coins_sorted, serialize_coins, coins_text, is_merge_of, merge_outcome, has_denom, denom_total, totals_overflow, lemma_merge_unique, sorted_by_denom, lemma_sorted_is_own_merge};
use crate::outside::{decimal_div, uint128_mul_decimal, DECIMAL_FRACTIONAL};
use crate::chain::{Response, BankSend, MessageInfo, Env, attrs_view};
use crate::text::{decimal, u128_to_decimal, seq_lt, lemma_seq_lt_irreflexive, lemma_seq_lt_transitive};
use std::collections::VecDeque;

verus! {

/// The largest number of records kept in each tips history.
pub const MAX_TIPS_HISTORY_SIZE: u32 = 30;

/// The atomic units of the decimal 100.
pub const ONE_HUNDRED_ATOMICS: u128 = 100_000_000_000_000_000_000u128;

/// The errors of the tips contract.
#[derive(Debug, PartialEq, Eq)]
pub enum ContractError {
    Std(StdError),
    Unauthorized {},
    InvalidTipsHistorySize { value: u32, max: u32 },
    InvalidSubspaceId {},
    SubspaceNotExist { id: u64, error: StdError },
    InvalidPostId {},
    PostNotFound { id: u64 },
    SenderEqReceiver {},
    ZeroFeeCoin { denom: String },
    EmptyFixedFee {},
    InvalidPercentageFee {},
    InsufficientFunds { requested: String, provided: String },
    InsufficientAmount { denom: String, requested: u128, provided: u128 },
    EmptyFunds {},
}

/// Merges the coins of the same denomination, summing their amounts, and
/// returns them sorted by denomination; an overflowing sum is a `Std` error.
pub fn merge_coins(coins: Vec<Coin>) -> (r: Result<Vec<Coin>, ContractError>)
    ensures
        match r {
            Ok(m) => merge_outcome(coins_view(coins@), Ok(coins_view(m@))),
            Err(ContractError::Std(e)) => merge_outcome(coins_view(coins@), Err(e)),
            Err(_) => false,
        },
{
    match sum_coins_sorted(coins) {
        Ok(m) => Ok(m),
        Err(e) => Err(ContractError::Std(e)),
    }
}

/// Fees required to send a tip. A percentage is a `Decimal` held by its atomic
/// units (18 fractional digits).
#[derive(Debug, PartialEq, Eq)]
pub enum ServiceFee {
    /// Coins that the sender pays on top of the tip.
    Fixed { amount: Vec<Coin> },
    /// Percentage of the tip that the sender pays on top of it.
    Percentage { value: u128 },
}

/// The service fee as the contract stores it.
#[derive(Debug, PartialEq, Eq)]
pub enum StateServiceFee {
    Fixed { amount: Vec<Coin> },
    Percentage { value: u128 },
}

/// Some coin of the list has amount zero.
pub open spec fn has_zero_coin(coins: Seq<Coin>) -> bool {
    exists|i: int| 0 <= i < coins.len() && (#[trigger] coins[i]).amount == 0
}

/// The index of the first coin with amount zero, if any.
pub open spec fn first_zero_coin(coins: Seq<Coin>, k: int) -> bool {
    &&& 0 <= k < coins.len()
    &&& coins[k].amount == 0
    &&& forall|j: int| 0 <= j < k ==> (#[trigger] coins[j]).amount != 0
}

/// A percentage is valid when it lies strictly between 0 and 100.
pub open spec fn valid_percentage(value: u128) -> bool {
    0 < value < ONE_HUNDRED_ATOMICS
}

/// The outcome of validating a fixed fee.
pub open spec fn fixed_fee_ok(amount: Seq<Coin>) -> bool {
    amount.len() > 0 && !has_zero_coin(amount)
}

impl ServiceFee {
    /// Checks that a fixed fee is not empty and holds no zero coin, and that a
    /// percentage lies strictly between 0 and 100.
    #[verifier::loop_isolation(false)]
    pub fn validate(&self) -> (r: Result<(), ContractError>)
        ensures
            match self {
                ServiceFee::Fixed { amount } => {
                    &&& (r is Ok <==> fixed_fee_ok(amount@))
                    &&& amount@.len() == 0 ==> r == Err::<(), ContractError>(ContractError::EmptyFixedFee {})
                    &&& amount@.len() > 0 && has_zero_coin(amount@) ==> exists|k: int| #[trigger] first_zero_coin(amount@, k)
                        && (r matches Err(ContractError::ZeroFeeCoin { denom }) && denom@ == amount@[k].denom@)
                },
                ServiceFee::Percentage { value } => {
                    &&& (r is Ok <==> valid_percentage(*value))
                    &&& !valid_percentage(*value) ==> r == Err::<(), ContractError>(ContractError::InvalidPercentageFee {})
                },
            },
    {
        match self {
            ServiceFee::Fixed { amount } => {
                if amount.len() == 0 {
                    return Err(ContractError::EmptyFixedFee {});
                }
                let mut i: usize = 0;
                while i < amount.len()
                    invariant
                        i <= amount.len(),
                        forall|j: int| 0 <= j < i ==> (#[trigger] amount@[j]).amount != 0,
                    decreases amount.len() - i,
                {
                    if amount[i].amount == 0 {
                        assert(first_zero_coin(amount@, i as int));
                        assert(has_zero_coin(amount@));
                        return Err(ContractError::ZeroFeeCoin { denom: amount[i].denom.clone() });
                    }
                    i = i + 1;
                }
                assert(!has_zero_coin(amount@)) by {
                    if has_zero_coin(amount@) {
                        let k = choose|k: int| 0 <= k < amount@.len() && (#[trigger] amount@[k]).amount == 0;
                    }
                }
                Ok(())
            },
            ServiceFee::Percentage { value } => {
                if *value >= ONE_HUNDRED_ATOMICS || *value == 0 {
                    return Err(ContractError::InvalidPercentageFee {});
                }
                Ok(())
            },
        }
    }

    /// The service fee that the contract stored.
    pub fn from(fee: StateServiceFee) -> (r: ServiceFee)
        ensures
            from_state_outcome(fee, r),
    {
        match fee {
            StateServiceFee::Fixed { amount } => ServiceFee::Fixed { amount },
            StateServiceFee::Percentage { value } => ServiceFee::Percentage { value },
        }
    }
}

/// The fraction of the tip that a percentage fee takes: the percentage divided by
/// 100, in atomic units.
pub open spec fn percentage_fraction(value: u128) -> int {
    value as int * DECIMAL_FRACTIONAL as int / ONE_HUNDRED_ATOMICS as int
}

/// The fee taken on `amount` tokens with the fraction `fraction`, rounded down.
pub open spec fn fee_on(amount: u128, fraction: int) -> int {
    amount as int * fraction / DECIMAL_FRACTIONAL as int
}

/// The percentage fee on every coin of the tip can be computed in 128 bits.
pub open spec fn percentage_fee_fits(value: u128, tip: Seq<CoinV>) -> bool {
    forall|i: int| 0 <= i < tip.len() ==> fee_on((#[trigger] tip[i]).1, percentage_fraction(value)) <= u128::MAX
}

/// The fee that the service fee can compute for the tip without overflowing.
pub open spec fn fee_computable(fee: StateServiceFee, tip: Seq<CoinV>) -> bool {
    match fee {
        StateServiceFee::Fixed { .. } => true,
        StateServiceFee::Percentage { value } => percentage_fee_fits(value, tip),
    }
}

/// The fee coins that a service fee asks for a tip.
pub open spec fn fee_coins_view(fee: StateServiceFee, tip: Seq<CoinV>) -> Seq<CoinV> {
    match fee {
        StateServiceFee::Fixed { amount } => coins_view(amount@),
        StateServiceFee::Percentage { value } => tip.map_values(|c: CoinV|
            (c.0, fee_on(c.1, percentage_fraction(value)) as u128)),
    }
}

/// The funds cover the coins: each denomination of `needed` is in `funds` with
/// at least the same total.
pub open spec fn covers(funds: Seq<CoinV>, needed: Seq<CoinV>) -> bool {
    forall|d: Seq<char>| has_denom(needed, d) ==> has_denom(funds, d) && denom_total(needed, d) <= denom_total(funds, d)
}

proof fn lemma_fraction_bound(value: u128)
    ensures
        0 <= percentage_fraction(value) <= value,
{
    assert(value as int * DECIMAL_FRACTIONAL as int / ONE_HUNDRED_ATOMICS as int <= value) by (nonlinear_arith);
    assert(value as int * DECIMAL_FRACTIONAL as int / ONE_HUNDRED_ATOMICS as int >= 0) by (nonlinear_arith);
}

impl StateServiceFee {
    /// The fee coins that this fee asks for the tip `tip_amount`.
    fn fee_coins(&self, tip_amount: &[Coin]) -> (r: Vec<Coin>)
        requires
            fee_computable(*self, coins_view(tip_amount@)),
        ensures
            coins_view(r@) == fee_coins_view(*self, coins_view(tip_amount@)),
    {
        match self {
            StateServiceFee::Fixed { amount } => clone_coins(amount.as_slice()),
            StateServiceFee::Percentage { value } => {
                let ghost tv = coins_view(tip_amount@);
                proof { lemma_fraction_bound(*value); }
                let fraction = decimal_div(*value, ONE_HUNDRED_ATOMICS);
                let mut fee: Vec<Coin> = Vec::new();
                let mut i: usize = 0;
                proof { assert(coins_view(fee@) =~= fee_coins_view(*self, tv.take(0))); }
                while i < tip_amount.len()
                    invariant
                        i <= tip_amount.len(),
                        tv == coins_view(tip_amount@),
                        (*self) matches StateServiceFee::Percentage { value: v } && v == *value,
                        fraction == percentage_fraction(*value),
                        percentage_fee_fits(*value, tv),
                        coins_view(fee@) == fee_coins_view(*self, tv.take(i as int)),
                    decreases tip_amount.len() - i,
                {
                    let c = &tip_amount[i];
                    assert(tv[i as int] == c@);
                    assert(fee_on(tv[i as int].1, percentage_fraction(*value)) <= u128::MAX);
                    let amount = uint128_mul_decimal(c.amount, fraction);
                    let ghost prev = coins_view(fee@);
                    fee.push(Coin { denom: c.denom.clone(), amount });
                    proof {
                        let lhs = coins_view(fee@);
                        let rhs = fee_coins_view(*self, tv.take(i + 1));
                        assert(prev == fee_coins_view(*self, tv.take(i as int)));
                        assert(rhs == tv.take(i + 1).map_values(|c: CoinV|
                            (c.0, fee_on(c.1, percentage_fraction(*value)) as u128)));
                        assert(prev == tv.take(i as int).map_values(|c: CoinV|
                            (c.0, fee_on(c.1, percentage_fraction(*value)) as u128)));
                        assert(prev.len() == i);
                        assert(tv.len() == tip_amount@.len());
                        assert(tv.take(i + 1).len() == i + 1);
                        assert(lhs.len() == i + 1);
                        assert(rhs.len() == i + 1);
                        assert forall|j: int| 0 <= j < lhs.len() implies lhs[j] == rhs[j] by {
                            if j < i {
                                assert(lhs[j] == prev[j]);
                                assert(tv.take(i + 1)[j] == tv.take(i as int)[j]);
                            } else {
                                assert(tv.take(i + 1)[j] == tv[i as int]);
                            }
                        }
                        assert(lhs =~= rhs);
                    }
                    i = i + 1;
                }
                proof {
                    assert(tv.take(tv.len() as int) =~= tv);
                }
                fee
            },
        }
    }

    /// Merges the funds and the coins that the tip plus its fee need, and finds
    /// the first needed coin, in the order of denominations, that the funds do
    /// not cover, with the amount of it that the funds hold.
    #[verifier::loop_isolation(false)]
    fn coverage(&self, funds: &[Coin], tip_amount: &[Coin]) -> (r: Result<(Vec<Coin>, Vec<Coin>, Option<(usize, u128)>), StdError>)
        requires
            fee_computable(*self, coins_view(tip_amount@)),
        ensures
            ({
                let fv = coins_view(funds@);
                let need = fee_coins_view(*self, coins_view(tip_amount@)) + coins_view(tip_amount@);
                match r {
                    Err(e) => (totals_overflow(fv) || totals_overflow(need)) && e is AddOverflow,
                    Ok((mf, mp, short)) => {
                        &&& !totals_overflow(fv) && !totals_overflow(need)
                        &&& is_merge_of(coins_view(mf@), need) && is_merge_of(coins_view(mp@), fv)
                        &&& match short {
                            None => covers(fv, need),
                            Some((j, provided)) => {
                                &&& j < mf@.len()
                                &&& !denom_covered(fv, need, mf@[j as int].denom@)
                                &&& forall|q: int| 0 <= q < j ==> denom_covered(fv, need, (#[trigger] mf@[q]).denom@)
                                &&& provided == denom_total(fv, mf@[j as int].denom@)
                            },
                        }
                    },
                }
            }),
    {
        let ghost fv = coins_view(funds@);
        let ghost need = fee_coins_view(*self, coins_view(tip_amount@)) + coins_view(tip_amount@);
        let funds_copy = clone_coins(funds);
        let funds = match sum_coins_sorted(funds_copy) {
            Ok(f) => f,
            Err(e) => return Err(e),
        };
        assert(!totals_overflow(fv));
        let mut fee = self.fee_coins(tip_amount);
        let mut tip_copy = clone_coins(tip_amount);
        fee.append(&mut tip_copy);
        proof {
            assert(coins_view(fee@) =~= need);
        }
        let fee_plus_tips = match sum_coins_sorted(fee) {
            Ok(f) => f,
            Err(e) => return Err(e),
        };
        assert(!totals_overflow(need));
        let ghost mf = coins_view(fee_plus_tips@);
        let ghost mp = coins_view(funds@);
        let mut i: usize = 0;
        while i < fee_plus_tips.len()
            invariant
                i <= fee_plus_tips.len(),
                mf == coins_view(fee_plus_tips@),
                mp == coins_view(funds@),
                is_merge_of(mf, need),
                is_merge_of(mp, fv),
                forall|j: int| 0 <= j < i ==> denom_covered(fv, need, (#[trigger] mf[j]).0),
                !totals_overflow(fv),
                !totals_overflow(need),
                fv == coins_view(funds_copy@),
            decreases fee_plus_tips.len() - i,
        {
            let needed = &fee_plus_tips[i];
            assert(mf[i as int] == needed@);
            let mut k: usize = 0;
            while k < funds.len() && !(funds[k].denom == needed.denom)
                invariant
                    k <= funds.len(),
                    mp == coins_view(funds@),
                    forall|q: int| 0 <= q < k ==> (#[trigger] mp[q]).0 != needed.denom@,
                decreases funds.len() - k,
            {
                k = k + 1;
            }
            let found = k < funds.len();
            let d = Ghost(needed.denom@);
            if found {
                proof {
                    assert(mp[k as int] == funds@[k as int]@);
                    assert(has_denom(mp, d@));
                    assert(has_denom(fv, d@));
                }
            } else {
                proof {
                    assert(!has_denom(mp, d@)) by {
                        if has_denom(mp, d@) {
                            let q = choose|q: int| 0 <= q < mp.len() && (#[trigger] mp[q]).0 == d@;
                        }
                    }
                    assert(!has_denom(fv, d@));
                    crate::coins::lemma_denom_total_absent(fv, d@);
                }
            }
            let provided: u128 = if found { funds[k].amount } else { 0 };
            if !found || needed.amount > provided {
                proof {
                    assert(has_denom(mf, d@));
                    assert(needed@.1 == denom_total(need, d@));
                    assert(!denom_covered(fv, need, d@));
                    assert(fee_plus_tips@[i as int].denom@ == d@);
                    assert forall|q: int| 0 <= q < i implies denom_covered(fv, need, (#[trigger] fee_plus_tips@[q]).denom@) by {
                        assert(mf[q] == fee_plus_tips@[q]@);
                    }
                }
                return Ok((fee_plus_tips, funds, Some((i, provided))));
            }
            proof {
                assert(denom_covered(fv, need, mf[i as int].0));
            }
            i = i + 1;
        }
        proof {
            assert forall|d: Seq<char>| has_denom(need, d) implies has_denom(fv, d) && denom_total(need, d) <= denom_total(fv, d) by {
                assert(has_denom(mf, d));
                let j = choose|j: int| 0 <= j < mf.len() && (#[trigger] mf[j]).0 == d;
                assert(denom_covered(fv, need, mf[j].0));
            }
        }
        Ok((fee_plus_tips, funds, None))
    }

    /// Checks that the funds sent cover the tip plus the fee that this service
    /// fee asks for it, after merging coins of the same denomination; a shortfall
    /// is reported with the texts of both merged lists.
    pub fn check_fees(&self, funds: &[Coin], tip_amount: &[Coin]) -> (r: Result<(), ContractError>)
        requires
            fee_computable(*self, coins_view(tip_amount@)),
        ensures
            fee_check(*self, coins_view(funds@), coins_view(tip_amount@), r),
    {
        let ghost fv = coins_view(funds@);
        let ghost need = fee_coins_view(*self, coins_view(tip_amount@)) + coins_view(tip_amount@);
        match self.coverage(funds, tip_amount) {
            Err(e) => Err(ContractError::Std(e)),
            Ok((needed, held, None)) => Ok(()),
            Ok((needed, held, Some((j, _)))) => {
                proof {
                    let mf = coins_view(needed@);
                    assert(mf[j as int] == needed@[j as int]@);
                    assert(has_denom(mf, mf[j as int].0));
                    assert(!covers(fv, need));
                    lemma_serialize_merge(coins_view(needed@), need);
                    lemma_serialize_merge(coins_view(held@), fv);
                }
                Err(ContractError::InsufficientFunds {
                    requested: serialize_coins(needed.as_slice()),
                    provided: serialize_coins(held.as_slice()),
                })
            },
        }
    }

    /// Checks that the funds sent for a tip cover the tip plus its fee; a
    /// shortfall is reported for the first denomination, in order, that the
    /// funds do not cover, with the amount needed and the amount sent.
    pub fn check_tip_funds(&self, funds: &[Coin], tip_amount: &[Coin]) -> (r: Result<(), ContractError>)
        requires
            fee_computable(*self, coins_view(tip_amount@)),
        ensures
            amount_check(*self, coins_view(funds@), coins_view(tip_amount@), r),
    {
        let ghost fv = coins_view(funds@);
        let ghost need = fee_coins_view(*self, coins_view(tip_amount@)) + coins_view(tip_amount@);
        match self.coverage(funds, tip_amount) {
            Err(e) => Err(ContractError::Std(e)),
            Ok((needed, held, None)) => Ok(()),
            Ok((needed, held, Some((j, provided)))) => {
                let ghost mf = coins_view(needed@);
                let coin = &needed[j];
                proof {
                    let d = coin.denom@;
                    assert(mf[j as int] == coin@);
                    assert(coin.amount == denom_total(need, d));
                    assert(!covers(fv, need)) by {
                        assert(has_denom(mf, d));
                    }
                    assert forall|e: Seq<char>| has_denom(need, e) && seq_lt(e, d) implies denom_covered(fv, need, e) by {
                        assert(has_denom(mf, e));
                        let q = choose|q: int| 0 <= q < mf.len() && (#[trigger] mf[q]).0 == e;
                        if q == j {
                            lemma_seq_lt_irreflexive(d);
                        } else if q > j {
                            assert(seq_lt(mf[j as int].0, mf[q].0));
                            lemma_seq_lt_transitive(e, d, e);
                            lemma_seq_lt_irreflexive(e);
                        } else {
                            assert(mf[q] == needed@[q]@);
                            assert(denom_covered(fv, need, needed@[q].denom@));
                        }
                    }
                }
                Err(ContractError::InsufficientAmount { denom: coin.denom.clone(), requested: coin.amount, provided })
            },
        }
    }
}

/// Serializing a merge gives the text of every merge of the same coins.
proof fn lemma_serialize_merge(m: Seq<CoinV>, coins: Seq<CoinV>)
    requires
        is_merge_of(m, coins),
    ensures
        forall|m2: Seq<CoinV>| is_merge_of(m2, coins) ==> coins_text(m2) == coins_text(m),
{
    assert forall|m2: Seq<CoinV>| is_merge_of(m2, coins) implies coins_text(m2) == coins_text(m) by {
        lemma_merge_unique(m, m2, coins);
    }
}

} // verus!

verus! {

/// A percentage below 100 asks a fee that always fits in 128 bits.
pub proof fn lemma_valid_percentage_fits(value: u128, tip: Seq<CoinV>)
    requires
        valid_percentage(value),
    ensures
        percentage_fee_fits(value, tip),
{
    assert forall|i: int| 0 <= i < tip.len() implies fee_on((#[trigger] tip[i]).1, percentage_fraction(value)) <= u128::MAX by {
        let f = percentage_fraction(value);
        let a = tip[i].1;
        assert(f < DECIMAL_FRACTIONAL) by (nonlinear_arith)
            requires f == value as int * DECIMAL_FRACTIONAL as int / ONE_HUNDRED_ATOMICS as int,
                value < ONE_HUNDRED_ATOMICS, ONE_HUNDRED_ATOMICS == 100 * DECIMAL_FRACTIONAL, DECIMAL_FRACTIONAL > 0;
        lemma_fraction_bound(value);
        assert(a as int * f / DECIMAL_FRACTIONAL as int <= a) by (nonlinear_arith)
            requires 0 <= f < DECIMAL_FRACTIONAL, a >= 0;
    }
}

impl StateServiceFee {
    /// Validates a service fee and converts it into the stored form: a fixed fee
    /// has its coins merged and sorted by denomination.
    pub fn try_from(service_fee: ServiceFee) -> (r: Result<StateServiceFee, ContractError>)
        ensures
            to_state_outcome(service_fee, r),
    {
        match service_fee.validate() {
            Ok(()) => {},
            Err(e) => return Err(e),
        }
        match service_fee {
            ServiceFee::Fixed { amount } => match sum_coins_sorted(amount) {
                Ok(merged) => Ok(StateServiceFee::Fixed { amount: merged }),
                Err(e) => Err(ContractError::Std(e)),
            },
            ServiceFee::Percentage { value } => Ok(StateServiceFee::Percentage { value }),
        }
    }
}

/// The service fee that the contract stores for `service_fee`: a fixed fee has its
/// coins merged and sorted by denomination; an invalid fee is refused.
pub open spec fn to_state_outcome(service_fee: ServiceFee, r: Result<StateServiceFee, ContractError>) -> bool {
            match service_fee {
                ServiceFee::Fixed { amount } => match r {
                    Ok(StateServiceFee::Fixed { amount: merged }) => fixed_fee_ok(amount@)
                        && !totals_overflow(coins_view(amount@)) && is_merge_of(coins_view(merged@), coins_view(amount@)),
                    Ok(_) => false,
                    Err(ContractError::Std(e)) => fixed_fee_ok(amount@) && merge_outcome(coins_view(amount@), Err(e)),
                    Err(e) => !fixed_fee_ok(amount@) && fee_error(Some(service_fee), Err(e)),
                },
                ServiceFee::Percentage { value } => match r {
                    Ok(StateServiceFee::Percentage { value: v }) => valid_percentage(value) && v == value,
                    Ok(_) => false,
                    Err(e) => !valid_percentage(value) && e == ContractError::InvalidPercentageFee {},
                },
            }
}

/// The service fee given back for a stored fee: the same coins or percentage.
pub open spec fn from_state_outcome(fee: StateServiceFee, r: ServiceFee) -> bool {
    match (fee, r) {
        (StateServiceFee::Fixed { amount: a }, ServiceFee::Fixed { amount: b }) => a@ == b@,
        (StateServiceFee::Percentage { value: a }, ServiceFee::Percentage { value: b }) => a == b,
        _ => false,
    }
}

/// Two service fees ask the same coins, or the same percentage.
pub open spec fn same_fee(a: ServiceFee, b: ServiceFee) -> bool {
    match (a, b) {
        (ServiceFee::Fixed { amount: x }, ServiceFee::Fixed { amount: y }) => coins_view(x@) == coins_view(y@),
        (ServiceFee::Percentage { value: x }, ServiceFee::Percentage { value: y }) => x == y,
        _ => false,
    }
}

/// Two stored service fees ask the same coins, or the same percentage.
pub open spec fn same_state_fee(a: StateServiceFee, b: StateServiceFee) -> bool {
    match (a, b) {
        (StateServiceFee::Fixed { amount: x }, StateServiceFee::Fixed { amount: y }) => coins_view(x@) == coins_view(y@),
        (StateServiceFee::Percentage { value: x }, StateServiceFee::Percentage { value: y }) => x == y,
        _ => false,
    }
}

/// A configured fee comes back unchanged through storing it and reading it back,
/// when a fixed fee lists its coins sorted by denomination, once each; and the
/// fee read back is stored as the same fee again.
pub proof fn law_fee_round_trip(sf: ServiceFee, s: StateServiceFee, back: ServiceFee)
    requires
        to_state_outcome(sf, Ok(s)),
        from_state_outcome(s, back),
        sf matches ServiceFee::Fixed { amount } ==> sorted_by_denom(coins_view(amount@)),
    ensures
        same_fee(back, sf),
        forall|r: Result<StateServiceFee, ContractError>| #[trigger] to_state_outcome(back, r) ==>
            (r matches Ok(s2) && same_state_fee(s2, s)),
{
    match (sf, s, back) {
        (ServiceFee::Fixed { amount }, StateServiceFee::Fixed { amount: merged }, ServiceFee::Fixed { amount: b }) => {
            let av = coins_view(amount@);
            lemma_sorted_is_own_merge(av);
            lemma_merge_unique(coins_view(merged@), av, av);
            assert(coins_view(b@) == av);
            assert(b@.len() == amount@.len());
            assert(fixed_fee_ok(b@)) by {
                if has_zero_coin(b@) {
                    let i = choose|i: int| 0 <= i < b@.len() && (#[trigger] b@[i]).amount == 0;
                    assert(coins_view(b@)[i] == av[i]);
                    assert(amount@[i].amount == 0);
                }
            }
            assert forall|r: Result<StateServiceFee, ContractError>| #[trigger] to_state_outcome(back, r) implies
                (r matches Ok(s2) && same_state_fee(s2, s)) by {
                if let Ok(StateServiceFee::Fixed { amount: m2 }) = r {
                    lemma_merge_unique(coins_view(m2@), av, av);
                } else if let Err(ContractError::Std(e)) = r {
                    assert(!totals_overflow(av));
                }
            }
        },
        _ => {},
    }
}

/// The stored service fee is valid: a percentage lies strictly between 0 and 100.
pub open spec fn state_fee_valid(fee: Option<StateServiceFee>) -> bool {
    match fee {
        Some(StateServiceFee::Percentage { value }) => valid_percentage(value),
        _ => true,
    }
}

/// The message that instantiates the contract.
pub struct InstantiateMsg {
    /// Address of who will manage the contract.
    pub admin: String,
    /// Subspace of the application that deploys the contract.
    pub subspace_id: u64,
    /// Fee that users pay to send a tip; `None` takes no fee.
    pub service_fee: Option<ServiceFee>,
    /// Number of records kept in each tips history.
    pub tips_history_size: u32,
}

/// The error that validating an optional service fee gives.
pub open spec fn fee_error(fee: Option<ServiceFee>, r: Result<(), ContractError>) -> bool {
    match fee {
        None => r is Ok,
        Some(ServiceFee::Fixed { amount }) => (r is Ok <==> fixed_fee_ok(amount@))
            && (amount@.len() == 0 ==> r == Err::<(), ContractError>(ContractError::EmptyFixedFee {}))
            && (amount@.len() > 0 && has_zero_coin(amount@) ==> exists|k: int| #[trigger] first_zero_coin(amount@, k)
                && (r matches Err(ContractError::ZeroFeeCoin { denom }) && denom@ == amount@[k].denom@)),
        Some(ServiceFee::Percentage { value }) => (r is Ok <==> valid_percentage(value))
            && (!valid_percentage(value) ==> r == Err::<(), ContractError>(ContractError::InvalidPercentageFee {})),
    }
}

impl InstantiateMsg {
    /// Checks the subspace id, the service fee and the history size.
    pub fn validate(&self) -> (r: Result<(), ContractError>)
        ensures
            self.subspace_id == 0 ==> r == Err::<(), ContractError>(ContractError::InvalidSubspaceId {}),
            r is Ok <==> (self.subspace_id != 0 && fee_error_ok(self.service_fee) && self.tips_history_size <= MAX_TIPS_HISTORY_SIZE),
            self.subspace_id != 0 && fee_error_ok(self.service_fee) && self.tips_history_size > MAX_TIPS_HISTORY_SIZE ==>
                r == Err::<(), ContractError>(ContractError::InvalidTipsHistorySize { value: self.tips_history_size, max: MAX_TIPS_HISTORY_SIZE }),
            self.subspace_id != 0 && !fee_error_ok(self.service_fee) ==> fee_error(self.service_fee, r),
    {
        if self.subspace_id == 0 {
            return Err(ContractError::InvalidSubspaceId {});
        }
        match &self.service_fee {
            Some(fee) => match fee.validate() {
                Ok(()) => {},
                Err(e) => return Err(e),
            },
            None => {},
        }
        if self.tips_history_size > MAX_TIPS_HISTORY_SIZE {
            return Err(ContractError::InvalidTipsHistorySize { value: self.tips_history_size, max: MAX_TIPS_HISTORY_SIZE });
        }
        Ok(())
    }
}

/// Whether an optional service fee passes validation.
pub open spec fn fee_error_ok(fee: Option<ServiceFee>) -> bool {
    match fee {
        None => true,
        Some(ServiceFee::Fixed { amount }) => fixed_fee_ok(amount@),
        Some(ServiceFee::Percentage { value }) => valid_percentage(value),
    }
}

/// Who or what a tip goes to.
pub enum Target {
    /// The author of a post.
    ContentTarget { post_id: u64 },
    /// A user.
    UserTarget { receiver: String },
}

/// The messages that the contract executes.
pub enum ExecuteMsg {
    /// Sends a tip to a user or to the author of a post.
    SendTip { target: Target, amount: Vec<Coin> },
    /// Updates the service fee; `None` removes it.
    UpdateServiceFee { new_fee: Option<ServiceFee> },
    /// Hands the contract to a new admin.
    UpdateAdmin { new_admin: String },
    /// Updates the number of records kept in each tips history.
    UpdateSavedTipsHistorySize { new_size: u32 },
    /// Sends the fees collected by the contract to `receiver`.
    ClaimFees { receiver: String },
}

impl ExecuteMsg {
    /// Checks the post id of a tip to a post, a new service fee and a new history size.
    pub fn validate(&self) -> (r: Result<(), ContractError>)
        ensures
            match self {
                ExecuteMsg::SendTip { target: Target::ContentTarget { post_id }, .. } =>
                    if *post_id == 0 { r == Err::<(), ContractError>(ContractError::InvalidPostId {}) } else { r is Ok },
                ExecuteMsg::UpdateServiceFee { new_fee } => fee_error(*new_fee, r),
                ExecuteMsg::UpdateSavedTipsHistorySize { new_size } =>
                    if *new_size > MAX_TIPS_HISTORY_SIZE {
                        r == Err::<(), ContractError>(ContractError::InvalidTipsHistorySize { value: *new_size, max: MAX_TIPS_HISTORY_SIZE })
                    } else { r is Ok },
                _ => r is Ok,
            },
    {
        match self {
            ExecuteMsg::SendTip { target, .. } => match target {
                Target::ContentTarget { post_id } => if *post_id == 0 {
                    Err(ContractError::InvalidPostId {})
                } else {
                    Ok(())
                },
                Target::UserTarget { .. } => Ok(()),
            },
            ExecuteMsg::UpdateServiceFee { new_fee } => match new_fee {
                Some(fee) => fee.validate(),
                None => Ok(()),
            },
            ExecuteMsg::UpdateSavedTipsHistorySize { new_size } => if *new_size > MAX_TIPS_HISTORY_SIZE {
                Err(ContractError::InvalidTipsHistorySize { value: *new_size, max: MAX_TIPS_HISTORY_SIZE })
            } else {
                Ok(())
            },
            _ => Ok(()),
        }
    }
}

} // verus!

verus! {

/// A tip as the contract stores it.
pub struct StateTip {
    /// Who sent the tip.
    pub sender: String,
    /// Who received the tip.
    pub receiver: String,
    /// The post that the tip refers to; 0 when it went to a user.
    pub post_id: u64,
    /// The coins of the tip.
    pub amount: Vec<Coin>,
    /// How many histories refer to this tip.
    pub ref_counter: u8,
}

/// A tip as the queries return it.
#[derive(Debug, PartialEq, Eq)]
pub struct Tip {
    pub sender: String,
    pub receiver: String,
    pub amount: Vec<Coin>,
    pub post_id: Option<u64>,
    pub block_height: u64,
}

/// A tip as its sender, receiver, coins, post and block height.
pub type TipV = (Seq<char>, Seq<char>, Seq<CoinV>, Option<u64>, u64);

impl View for Tip {
    type V = TipV;

    open spec fn view(&self) -> TipV {
        (self.sender@, self.receiver@, coins_view(self.amount@), self.post_id, self.block_height)
    }
}

impl Tip {
    /// The tip that a stored tip records at the given block height; post id 0
    /// means that the tip went to a user.
    pub fn from_state_tip(state_tip: StateTip, block_height: u64) -> (t: Tip)
        ensures
            t.sender@ == state_tip.sender@,
            t.receiver@ == state_tip.receiver@,
            coins_view(t.amount@) == coins_view(state_tip.amount@),
            t.post_id == if state_tip.post_id > 0 { Some(state_tip.post_id) } else { None::<u64> },
            t.block_height == block_height,
    {
        Tip {
            sender: state_tip.sender,
            receiver: state_tip.receiver,
            amount: state_tip.amount,
            post_id: if state_tip.post_id > 0 { Some(state_tip.post_id) } else { None },
            block_height,
        }
    }

    /// A copy of this tip.
    pub fn duplicate(&self) -> (t: Tip)
        ensures
            t@ == self@,
    {
        Tip {
            sender: self.sender.clone(),
            receiver: self.receiver.clone(),
            amount: clone_coins(self.amount.as_slice()),
            post_id: self.post_id,
            block_height: self.block_height,
        }
    }
}

/// The tips of a history, oldest first.
pub open spec fn tips_view(tips: Seq<Tip>) -> Seq<TipV> {
    tips.map_values(|t: Tip| t@)
}

/// The history of a user: the tips that the user sent, or received.
pub struct UserTips {
    pub user: String,
    pub tips: VecDeque<Tip>,
}

/// The history of the tips that a post received.
pub struct PostTips {
    pub post_id: u64,
    pub tips: VecDeque<Tip>,
}

/// The configuration of the contract.
pub struct Config {
    pub admin: String,
    pub subspace_id: u64,
    pub service_fee: Option<StateServiceFee>,
    pub tips_history_size: u32,
}

/// The state of the contract: its configuration and the tips histories.
pub struct TipsState {
    pub config: Config,
    /// The tips that each user sent.
    pub sent: Vec<UserTips>,
    /// The tips that each user received.
    pub received: Vec<UserTips>,
    /// The tips that each post received.
    pub posts: Vec<PostTips>,
}

/// The history of `user`: the first entry recorded for it, or no tips.
pub open spec fn user_history(h: Seq<UserTips>, user: Seq<char>) -> Seq<TipV>
    decreases h.len(),
{
    if h.len() == 0 {
        Seq::empty()
    } else if h[0].user@ == user {
        tips_view(h[0].tips@)
    } else {
        user_history(h.drop_first(), user)
    }
}

/// The history of the post `id`: the first entry recorded for it, or no tips.
pub open spec fn post_history(h: Seq<PostTips>, id: u64) -> Seq<TipV>
    decreases h.len(),
{
    if h.len() == 0 {
        Seq::empty()
    } else if h[0].post_id == id {
        tips_view(h[0].tips@)
    } else {
        post_history(h.drop_first(), id)
    }
}

/// A history after appending `t` and dropping the oldest records beyond `n`.
pub open spec fn bounded_push(h: Seq<TipV>, t: TipV, n: nat) -> Seq<TipV> {
    let p = h.push(t);
    if p.len() > n { p.subrange(p.len() - n, p.len() as int) } else { p }
}

proof fn lemma_user_history_at(h: Seq<UserTips>, user: Seq<char>, idx: int)
    requires
        0 <= idx < h.len(),
        h[idx].user@ == user,
        forall|j: int| 0 <= j < idx ==> (#[trigger] h[j]).user@ != user,
    ensures
        user_history(h, user) == tips_view(h[idx].tips@),
    decreases idx,
{
    if idx > 0 {
        assert(h[0].user@ != user);
        lemma_user_history_at(h.drop_first(), user, idx - 1);
    }
}

proof fn lemma_user_history_absent(h: Seq<UserTips>, user: Seq<char>)
    requires
        forall|j: int| 0 <= j < h.len() ==> (#[trigger] h[j]).user@ != user,
    ensures
        user_history(h, user) == Seq::<TipV>::empty(),
    decreases h.len(),
{
    if h.len() > 0 {
        assert(h[0].user@ != user);
        lemma_user_history_absent(h.drop_first(), user);
    }
}

proof fn lemma_user_history_update(h: Seq<UserTips>, idx: int, e: UserTips, user: Seq<char>)
    requires
        0 <= idx < h.len(),
        e.user@ == h[idx].user@,
        user != h[idx].user@,
    ensures
        user_history(h.update(idx, e), user) == user_history(h, user),
    decreases h.len(),
{
    if idx > 0 {
        assert(h.update(idx, e).drop_first() =~= h.drop_first().update(idx - 1, e));
        assert(h.update(idx, e)[0] == h[0]);
        if h[0].user@ != user {
            lemma_user_history_update(h.drop_first(), idx - 1, e, user);
        }
    } else {
        assert(h.update(idx, e).drop_first() =~= h.drop_first());
        assert(h.update(idx, e)[0] == e);
    }
}

proof fn lemma_user_history_push(h: Seq<UserTips>, e: UserTips, user: Seq<char>)
    requires
        user != e.user@,
    ensures
        user_history(h.push(e), user) == user_history(h, user),
    decreases h.len(),
{
    if h.len() == 0 {
        assert(h.push(e).drop_first() =~= Seq::<UserTips>::empty());
        assert(h.push(e)[0] == e);
        assert(user_history(h.push(e).drop_first(), user) == Seq::<TipV>::empty());
    } else {
        assert(h.push(e).drop_first() =~= h.drop_first().push(e));
        assert(h.push(e)[0] == h[0]);
        if h[0].user@ != user {
            lemma_user_history_push(h.drop_first(), e, user);
        }
    }
}

proof fn lemma_post_history_at(h: Seq<PostTips>, id: u64, idx: int)
    requires
        0 <= idx < h.len(),
        h[idx].post_id == id,
        forall|j: int| 0 <= j < idx ==> (#[trigger] h[j]).post_id != id,
    ensures
        post_history(h, id) == tips_view(h[idx].tips@),
    decreases idx,
{
    if idx > 0 {
        assert(h[0].post_id != id);
        lemma_post_history_at(h.drop_first(), id, idx - 1);
    }
}

proof fn lemma_post_history_absent(h: Seq<PostTips>, id: u64)
    requires
        forall|j: int| 0 <= j < h.len() ==> (#[trigger] h[j]).post_id != id,
    ensures
        post_history(h, id) == Seq::<TipV>::empty(),
    decreases h.len(),
{
    if h.len() > 0 {
        assert(h[0].post_id != id);
        lemma_post_history_absent(h.drop_first(), id);
    }
}

proof fn lemma_post_history_update(h: Seq<PostTips>, idx: int, e: PostTips, id: u64)
    requires
        0 <= idx < h.len(),
        e.post_id == h[idx].post_id,
        id != h[idx].post_id,
    ensures
        post_history(h.update(idx, e), id) == post_history(h, id),
    decreases h.len(),
{
    if idx > 0 {
        assert(h.update(idx, e).drop_first() =~= h.drop_first().update(idx - 1, e));
        assert(h.update(idx, e)[0] == h[0]);
        if h[0].post_id != id {
            lemma_post_history_update(h.drop_first(), idx - 1, e, id);
        }
    } else {
        assert(h.update(idx, e).drop_first() =~= h.drop_first());
        assert(h.update(idx, e)[0] == e);
    }
}

proof fn lemma_post_history_push(h: Seq<PostTips>, e: PostTips, id: u64)
    requires
        id != e.post_id,
    ensures
        post_history(h.push(e), id) == post_history(h, id),
    decreases h.len(),
{
    if h.len() == 0 {
        assert(h.push(e).drop_first() =~= Seq::<PostTips>::empty());
        assert(h.push(e)[0] == e);
        assert(post_history(h.push(e).drop_first(), id) == Seq::<TipV>::empty());
    } else {
        assert(h.push(e).drop_first() =~= h.drop_first().push(e));
        assert(h.push(e)[0] == h[0]);
        if h[0].post_id != id {
            lemma_post_history_push(h.drop_first(), e, id);
        }
    }
}

/// Appends `tip` to a queue of tips and drops the oldest beyond `size`.
fn push_bounded(tips: &mut VecDeque<Tip>, tip: Tip, size: u32)
    ensures
        tips_view(final(tips)@) == bounded_push(tips_view(old(tips)@), tip@, size as nat),
{
    let ghost target = bounded_push(tips_view(old(tips)@), tip@, size as nat);
    let ghost pushed = tips_view(old(tips)@).push(tip@);
    tips.push_back(tip);
    proof {
        assert(tips_view(tips@) =~= pushed);
    }
    while tips.len() > size as usize
        invariant
            pushed.len() > size ==> tips_view(tips@) == pushed.subrange(pushed.len() - tips@.len(), pushed.len() as int),
            pushed.len() <= size ==> tips_view(tips@) == pushed,
            pushed.len() > size ==> tips@.len() >= size,
            pushed.len() > size ==> tips@.len() <= pushed.len(),
            target == bounded_push(tips_view(old(tips)@), tip@, size as nat),
            pushed == tips_view(old(tips)@).push(tip@),
        decreases tips.len(),
    {
        let ghost before = tips_view(tips@);
        assert(pushed.len() > size) by {
            if pushed.len() <= size {
                assert(tips_view(tips@).len() == tips@.len());
            }
        }
        let _ = tips.pop_front();
        proof {
            assert(tips_view(tips@) =~= before.drop_first());
            assert(before.drop_first() =~= pushed.subrange(pushed.len() - tips@.len(), pushed.len() as int));
        }
    }
    proof {
        if pushed.len() > size {
            assert(tips_view(tips@).len() == tips@.len());
            assert(tips@.len() == size);
        }
    }
}

/// Records `tip` in the history of `user`, keeping at most `size` records.
fn record_user_tip(h: &mut Vec<UserTips>, user: &String, tip: Tip, size: u32)
    ensures
        user_history(final(h)@, user@) == bounded_push(user_history(old(h)@, user@), tip@, size as nat),
        forall|u: Seq<char>| u != user@ ==> user_history(final(h)@, u) == user_history(old(h)@, u),
{
    let mut idx: usize = 0;
    while idx < h.len() && !(h[idx].user == *user)
        invariant
            idx <= h.len(),
            forall|j: int| 0 <= j < idx ==> (#[trigger] h@[j]).user@ != user@,
        decreases h.len() - idx,
    {
        idx = idx + 1;
    }
    if idx < h.len() {
        let ghost old_h = h@;
        proof { lemma_user_history_at(old_h, user@, idx as int); }
        let mut entry = h.remove(idx);
        push_bounded(&mut entry.tips, tip, size);
        h.insert(idx, entry);
        proof {
            let e = h@[idx as int];
            assert(h@ =~= old_h.update(idx as int, e));
            lemma_user_history_at(h@, user@, idx as int);
            assert forall|u: Seq<char>| u != user@ implies user_history(h@, u) == user_history(old_h, u) by {
                lemma_user_history_update(old_h, idx as int, e, u);
            }
        }
    } else {
        let ghost old_h = h@;
        proof { lemma_user_history_absent(old_h, user@); }
        let mut tips: VecDeque<Tip> = VecDeque::new();
        proof { assert(tips_view(tips@) =~= Seq::<TipV>::empty()); }
        push_bounded(&mut tips, tip, size);
        h.push(UserTips { user: user.clone(), tips });
        proof {
            lemma_user_history_at(h@, user@, old_h.len() as int);
            assert forall|u: Seq<char>| u != user@ implies user_history(h@, u) == user_history(old_h, u) by {
                lemma_user_history_push(old_h, h@[old_h.len() as int], u);
                assert(h@ =~= old_h.push(h@[old_h.len() as int]));
            }
        }
    }
}

/// Records `tip` in the history of the post `id`, keeping at most `size` records.
fn record_post_tip(h: &mut Vec<PostTips>, id: u64, tip: Tip, size: u32)
    ensures
        post_history(final(h)@, id) == bounded_push(post_history(old(h)@, id), tip@, size as nat),
        forall|p: u64| p != id ==> post_history(final(h)@, p) == post_history(old(h)@, p),
{
    let mut idx: usize = 0;
    while idx < h.len() && h[idx].post_id != id
        invariant
            idx <= h.len(),
            forall|j: int| 0 <= j < idx ==> (#[trigger] h@[j]).post_id != id,
        decreases h.len() - idx,
    {
        idx = idx + 1;
    }
    if idx < h.len() {
        let ghost old_h = h@;
        proof { lemma_post_history_at(old_h, id, idx as int); }
        let mut entry = h.remove(idx);
        push_bounded(&mut entry.tips, tip, size);
        h.insert(idx, entry);
        proof {
            let e = h@[idx as int];
            assert(h@ =~= old_h.update(idx as int, e));
            lemma_post_history_at(h@, id, idx as int);
            assert forall|p: u64| p != id implies post_history(h@, p) == post_history(old_h, p) by {
                lemma_post_history_update(old_h, idx as int, e, p);
            }
        }
    } else {
        let ghost old_h = h@;
        proof { lemma_post_history_absent(old_h, id); }
        let mut tips: VecDeque<Tip> = VecDeque::new();
        proof { assert(tips_view(tips@) =~= Seq::<TipV>::empty()); }
        push_bounded(&mut tips, tip, size);
        h.push(PostTips { post_id: id, tips });
        proof {
            lemma_post_history_at(h@, id, old_h.len() as int);
            assert forall|p: u64| p != id implies post_history(h@, p) == post_history(old_h, p) by {
                lemma_post_history_push(old_h, h@[old_h.len() as int], p);
                assert(h@ =~= old_h.push(h@[old_h.len() as int]));
            }
        }
    }
}

} // verus!

verus! {

/// The funds hold the denomination `d` with at least the total that `need` asks.
pub open spec fn denom_covered(funds: Seq<CoinV>, need: Seq<CoinV>, d: Seq<char>) -> bool {
    has_denom(funds, d) && denom_total(need, d) <= denom_total(funds, d)
}

/// `d` is the first denomination, in order, that `need` asks and `funds` do not cover.
pub open spec fn first_uncovered(funds: Seq<CoinV>, need: Seq<CoinV>, d: Seq<char>) -> bool {
    &&& has_denom(need, d)
    &&& !denom_covered(funds, need, d)
    &&& forall|e: Seq<char>| has_denom(need, e) && seq_lt(e, d) ==> denom_covered(funds, need, e)
}

/// What checking the funds of a tip answers: the first uncovered coin when they fall short.
pub open spec fn amount_check(fee: StateServiceFee, funds: Seq<CoinV>, tip: Seq<CoinV>, r: Result<(), ContractError>) -> bool {
    let need = fee_coins_view(fee, tip) + tip;
    match r {
        Ok(()) => !totals_overflow(funds) && !totals_overflow(need) && covers(funds, need),
        Err(ContractError::Std(StdError::AddOverflow { .. })) => totals_overflow(funds) || totals_overflow(need),
        Err(ContractError::InsufficientAmount { denom, requested, provided }) => !totals_overflow(funds)
            && !totals_overflow(need) && first_uncovered(funds, need, denom@)
            && requested == denom_total(need, denom@) && provided == denom_total(funds, denom@),
        Err(_) => false,
    }
}

/// What `check_fees` answers for a fee, funds and tip.
pub open spec fn fee_check(fee: StateServiceFee, funds: Seq<CoinV>, tip: Seq<CoinV>, r: Result<(), ContractError>) -> bool {
    let need = fee_coins_view(fee, tip) + tip;
    match r {
        Ok(()) => !totals_overflow(funds) && !totals_overflow(need) && covers(funds, need),
        Err(ContractError::Std(StdError::AddOverflow { .. })) => totals_overflow(funds) || totals_overflow(need),
        Err(ContractError::InsufficientFunds { requested, provided }) => !totals_overflow(funds)
            && !totals_overflow(need) && !covers(funds, need)
            && (forall|m: Seq<CoinV>| is_merge_of(m, need) ==> requested@ == coins_text(m))
            && (forall|m: Seq<CoinV>| is_merge_of(m, funds) ==> provided@ == coins_text(m)),
        Err(_) => false,
    }
}

/// The funds pay for the tip and the optional service fee.
pub open spec fn fee_passes(fee: Option<StateServiceFee>, funds: Seq<CoinV>, tip: Seq<CoinV>) -> bool {
    match fee {
        Some(f) => fee_check(f, funds, tip, Ok(())),
        None => true,
    }
}

/// `r` is the error that checking the funds of the tip against its fee gives.
pub open spec fn fee_refused<T>(fee: Option<StateServiceFee>, funds: Seq<CoinV>, tip: Seq<CoinV>, r: Result<T, ContractError>) -> bool {
    match (fee, r) {
        (Some(f), Err(e)) => amount_check(f, funds, tip, Err(e)),
        _ => false,
    }
}

/// The attributes and transfer of a tip from `sender` to `receiver`.
pub open spec fn send_tip_response(resp: Response<BankSend>, sender: Seq<char>, receiver: Seq<char>, amount: Seq<CoinV>) -> bool {
    &&& attrs_view(resp.attributes@) == seq![("action"@, "send_tip"@), ("sender"@, sender), ("receiver"@, receiver)]
    &&& resp.messages@.len() == 1
    &&& resp.messages@[0]@ == (receiver, amount)
}

/// The receiver that a tip target resolves to: the author of the post, or the
/// validated address of the user; `lookup` is what the chain answered.
pub open spec fn resolve_target(target: Target, lookup: Result<String, StdError>) -> Result<(u64, Seq<char>), ContractError> {
    match target {
        Target::ContentTarget { post_id } => match lookup {
            Ok(author) => Ok((post_id, author@)),
            Err(_) => Err(ContractError::PostNotFound { id: post_id }),
        },
        Target::UserTarget { .. } => match lookup {
            Ok(addr) => Ok((0u64, addr@)),
            Err(e) => Err(ContractError::Std(e)),
        },
    }
}

/// The outcome of a tip: the checks in the order the contract makes them, then
/// the histories of the sender, the receiver and the post gain the tip.
pub open spec fn send_tip_outcome(
    s0: TipsState, s1: TipsState, height: u64, sender: Seq<char>, funds: Seq<CoinV>,
    target: Target, amount: Seq<CoinV>, lookup: Result<String, StdError>,
    r: Result<Response<BankSend>, ContractError>,
) -> bool {
    if funds.len() == 0 {
        r == Err::<Response<BankSend>, ContractError>(ContractError::EmptyFunds {}) && s1 == s0
    } else if !fee_passes(s0.config.service_fee, funds, amount) {
        fee_refused(s0.config.service_fee, funds, amount, r) && s1 == s0
    } else {
        match resolve_target(target, lookup) {
            Err(e) => r == Err::<Response<BankSend>, ContractError>(e) && s1 == s0,
            Ok((post_id, receiver)) => if receiver == sender {
                r == Err::<Response<BankSend>, ContractError>(ContractError::SenderEqReceiver {}) && s1 == s0
            } else {
                let tip: TipV = (sender, receiver, amount, if post_id > 0 { Some(post_id) } else { None }, height);
                let n = s0.config.tips_history_size as nat;
                &&& r matches Ok(resp) && send_tip_response(resp, sender, receiver, amount)
                &&& s1.config == s0.config
                &&& if n == 0 {
                    s1.sent == s0.sent && s1.received == s0.received && s1.posts == s0.posts
                } else {
                    &&& user_history(s1.sent@, sender) == bounded_push(user_history(s0.sent@, sender), tip, n)
                    &&& forall|u: Seq<char>| u != sender ==> user_history(s1.sent@, u) == user_history(s0.sent@, u)
                    &&& user_history(s1.received@, receiver) == bounded_push(user_history(s0.received@, receiver), tip, n)
                    &&& forall|u: Seq<char>| u != receiver ==> user_history(s1.received@, u) == user_history(s0.received@, u)
                    &&& post_id > 0 ==> post_history(s1.posts@, post_id) == bounded_push(post_history(s0.posts@, post_id), tip, n)
                    &&& forall|p: u64| p != post_id || post_id == 0 ==> post_history(s1.posts@, p) == post_history(s0.posts@, p)
                }
            },
        }
    }
}

/// Sends a tip: checks the funds against the tip plus the service fee, resolves
/// the receiver (`lookup` is the author of the post, or the validated address
/// of the user) and records the tip in the histories.
fn execute_send_tip(
    state: &mut TipsState,
    env: &Env,
    info: &MessageInfo,
    target: Target,
    tip_amount: Vec<Coin>,
    lookup: Result<String, StdError>,
) -> (r: Result<Response<BankSend>, ContractError>)
    requires
        state_fee_valid(old(state).config.service_fee),
    ensures
        send_tip_outcome(*old(state), *final(state), env.block_height, info.sender@, coins_view(info.funds@),
            target, coins_view(tip_amount@), lookup, r),
{
    if info.funds.len() == 0 {
        return Err(ContractError::EmptyFunds {});
    }
    match &state.config.service_fee {
        Some(fee) => {
            proof {
                if let StateServiceFee::Percentage { value } = fee {
                    lemma_valid_percentage_fits(*value, coins_view(tip_amount@));
                }
            }
            match fee.check_tip_funds(info.funds.as_slice(), tip_amount.as_slice()) {
                Ok(()) => {},
                Err(e) => return Err(e),
            }
        },
        None => {},
    }
    let ghost resolved = resolve_target(target, lookup);
    let (post_id, receiver) = match target {
        Target::ContentTarget { post_id } => match lookup {
            Ok(author) => (post_id, author),
            Err(_) => return Err(ContractError::PostNotFound { id: post_id }),
        },
        Target::UserTarget { .. } => match lookup {
            Ok(addr) => (0u64, addr),
            Err(e) => return Err(ContractError::Std(e)),
        },
    };
    if info.sender == receiver {
        return Err(ContractError::SenderEqReceiver {});
    }
    let size = state.config.tips_history_size;
    let tip = Tip {
        sender: info.sender.clone(),
        receiver: receiver.clone(),
        amount: clone_coins(tip_amount.as_slice()),
        post_id: if post_id > 0 { Some(post_id) } else { None },
        block_height: env.block_height,
    };
    if size > 0 {
        record_user_tip(&mut state.sent, &info.sender, tip.duplicate(), size);
        record_user_tip(&mut state.received, &receiver, tip.duplicate(), size);
        if post_id > 0 {
            record_post_tip(&mut state.posts, post_id, tip, size);
        }
    }
    let mut resp: Response<BankSend> = Response::new();
    resp.add_attribute("action", "send_tip");
    resp.add_attribute("sender", info.sender.as_str());
    resp.add_attribute("receiver", receiver.as_str());
    resp.add_message(BankSend { to_address: receiver, amount: tip_amount });
    proof {
        assert(attrs_view(resp.attributes@) =~= seq![("action"@, "send_tip"@), ("sender"@, info.sender@), ("receiver"@, resolved->Ok_0.1)]);
    }
    Ok(resp)
}

} // verus!

verus! {

/// The error of a result, with its value dropped.
pub open spec fn unit_result<T>(r: Result<T, ContractError>) -> Result<(), ContractError> {
    match r {
        Ok(_) => Ok(()),
        Err(e) => Err(e),
    }
}

/// The outcome of updating the service fee: only the admin may, and the new fee
/// must convert; a fixed fee is stored merged and sorted.
pub open spec fn update_fee_outcome(s0: TipsState, s1: TipsState, sender: Seq<char>, new_fee: Option<ServiceFee>,
    r: Result<Response<BankSend>, ContractError>) -> bool {
    if s0.config.admin@ != sender {
        r == Err::<Response<BankSend>, ContractError>(ContractError::Unauthorized {}) && s1 == s0
    } else if !fee_error_ok(new_fee) {
        fee_error(new_fee, unit_result(r)) && s1 == s0
    } else if new_fee matches Some(ServiceFee::Fixed { amount }) && totals_overflow(coins_view(amount@)) {
        (r matches Err(ContractError::Std(e)) && merge_outcome(coins_view(new_fee->Some_0->Fixed_amount@), Err(e))) && s1 == s0
    } else {
        &&& r matches Ok(resp) && attrs_view(resp.attributes@) == seq![("action"@, "update_service_fee"@), ("sender"@, sender)]
            && resp.messages@.len() == 0
        &&& s1.config.admin == s0.config.admin
        &&& s1.config.subspace_id == s0.config.subspace_id
        &&& s1.config.tips_history_size == s0.config.tips_history_size
        &&& s1.sent == s0.sent && s1.received == s0.received && s1.posts == s0.posts
        &&& match (new_fee, s1.config.service_fee) {
            (None, None) => true,
            (Some(ServiceFee::Fixed { amount }), Some(StateServiceFee::Fixed { amount: merged })) =>
                is_merge_of(coins_view(merged@), coins_view(amount@)),
            (Some(ServiceFee::Percentage { value }), Some(StateServiceFee::Percentage { value: v })) => v == value,
            _ => false,
        }
    }
}

fn execute_update_service_fee(state: &mut TipsState, info: &MessageInfo, service_fee: Option<ServiceFee>)
    -> (r: Result<Response<BankSend>, ContractError>)
    ensures
        update_fee_outcome(*old(state), *final(state), info.sender@, service_fee, r),
        state_fee_valid(old(state).config.service_fee) ==> state_fee_valid(final(state).config.service_fee),
{
    if !(state.config.admin == info.sender) {
        return Err(ContractError::Unauthorized {});
    }
    let ghost fee0 = service_fee;
    let new_fee = match service_fee {
        Some(fee) => match StateServiceFee::try_from(fee) {
            Ok(f) => Some(f),
            Err(e) => return Err(e),
        },
        None => None,
    };
    state.config.service_fee = new_fee;
    let mut resp: Response<BankSend> = Response::new();
    resp.add_attribute("action", "update_service_fee");
    resp.add_attribute("sender", info.sender.as_str());
    proof {
        assert(attrs_view(resp.attributes@) =~= seq![("action"@, "update_service_fee"@), ("sender"@, info.sender@)]);
    }
    Ok(resp)
}

/// The outcome of handing the contract to a new admin; `new_admin` is the
/// validation of the new address, which the contract makes first.
pub open spec fn update_admin_outcome(s0: TipsState, s1: TipsState, sender: Seq<char>, new_admin: Result<String, StdError>,
    r: Result<Response<BankSend>, ContractError>) -> bool {
    match new_admin {
        Err(e) => r == Err::<Response<BankSend>, ContractError>(ContractError::Std(e)) && s1 == s0,
        Ok(a) => if s0.config.admin@ != sender {
            r == Err::<Response<BankSend>, ContractError>(ContractError::Unauthorized {}) && s1 == s0
        } else {
            &&& r matches Ok(resp) && attrs_view(resp.attributes@)
                == seq![("action"@, "update_admin"@), ("sender"@, sender), ("new_admin"@, a@)]
                && resp.messages@.len() == 0
            &&& s1.config.admin@ == a@
            &&& s1.config.subspace_id == s0.config.subspace_id
            &&& s1.config.service_fee == s0.config.service_fee
            &&& s1.config.tips_history_size == s0.config.tips_history_size
            &&& s1.sent == s0.sent && s1.received == s0.received && s1.posts == s0.posts
        },
    }
}

fn execute_update_admin(state: &mut TipsState, info: &MessageInfo, new_admin: Result<String, StdError>)
    -> (r: Result<Response<BankSend>, ContractError>)
    ensures
        update_admin_outcome(*old(state), *final(state), info.sender@, new_admin, r),
{
    let new_admin = match new_admin {
        Ok(a) => a,
        Err(e) => return Err(ContractError::Std(e)),
    };
    if !(state.config.admin == info.sender) {
        return Err(ContractError::Unauthorized {});
    }
    let mut resp: Response<BankSend> = Response::new();
    resp.add_attribute("action", "update_admin");
    resp.add_attribute("sender", info.sender.as_str());
    resp.add_attribute("new_admin", new_admin.as_str());
    state.config.admin = new_admin;
    proof {
        assert(attrs_view(resp.attributes@) =~= seq![("action"@, "update_admin"@), ("sender"@, info.sender@), ("new_admin"@, state.config.admin@)]);
    }
    Ok(resp)
}

/// The outcome of changing the history size: only the admin may; size 0 wipes
/// every history, a smaller size lets the next tips shrink the histories.
pub open spec fn update_size_outcome(s0: TipsState, s1: TipsState, sender: Seq<char>, new_size: u32,
    r: Result<Response<BankSend>, ContractError>) -> bool {
    if s0.config.admin@ != sender {
        r == Err::<Response<BankSend>, ContractError>(ContractError::Unauthorized {}) && s1 == s0
    } else {
        &&& r matches Ok(resp) && attrs_view(resp.attributes@)
            == seq![("action"@, "update_saved_tips_record_size"@), ("sender"@, sender), ("new_size"@, decimal(new_size as nat))]
            && resp.messages@.len() == 0
        &&& s1.config.tips_history_size == new_size
        &&& s1.config.admin == s0.config.admin
        &&& s1.config.subspace_id == s0.config.subspace_id
        &&& s1.config.service_fee == s0.config.service_fee
        &&& if new_size == 0 {
            s1.sent@.len() == 0 && s1.received@.len() == 0 && s1.posts@.len() == 0
        } else {
            s1.sent == s0.sent && s1.received == s0.received && s1.posts == s0.posts
        }
    }
}

/// Empties a tips history.
fn wipe_map<T>(history: &mut Vec<T>)
    ensures
        final(history)@.len() == 0,
{
    history.clear();
}

fn execute_update_saved_tips_record_size(state: &mut TipsState, info: &MessageInfo, new_size: u32)
    -> (r: Result<Response<BankSend>, ContractError>)
    ensures
        update_size_outcome(*old(state), *final(state), info.sender@, new_size, r),
{
    if !(state.config.admin == info.sender) {
        return Err(ContractError::Unauthorized {});
    }
    if new_size == 0 {
        wipe_map(&mut state.sent);
        wipe_map(&mut state.received);
        wipe_map(&mut state.posts);
    }
    state.config.tips_history_size = new_size;
    let mut resp: Response<BankSend> = Response::new();
    resp.add_attribute("action", "update_saved_tips_record_size");
    resp.add_attribute("sender", info.sender.as_str());
    let size_text = u128_to_decimal(new_size as u128);
    resp.add_attribute("new_size", size_text.as_str());
    proof {
        assert(attrs_view(resp.attributes@) =~= seq![("action"@, "update_saved_tips_record_size"@), ("sender"@, info.sender@), ("new_size"@, decimal(new_size as nat))]);
    }
    Ok(resp)
}

/// The outcome of claiming the fees: only the admin may; `receiver` is the
/// validation of the receiver's address and `balance` the contract's balance.
pub open spec fn claim_fees_outcome(s0: TipsState, s1: TipsState, sender: Seq<char>, receiver: Result<String, StdError>,
    balance: Seq<CoinV>, r: Result<Response<BankSend>, ContractError>) -> bool {
    &&& s1 == s0
    &&& if s0.config.admin@ != sender {
        r == Err::<Response<BankSend>, ContractError>(ContractError::Unauthorized {})
    } else {
        match receiver {
            Err(e) => r == Err::<Response<BankSend>, ContractError>(ContractError::Std(e)),
            Ok(a) => r matches Ok(resp) && attrs_view(resp.attributes@)
                == seq![("action"@, "claim_fees"@), ("sender"@, sender), ("receiver"@, a@)]
                && resp.messages@.len() == 1 && resp.messages@[0]@ == (a@, balance),
        }
    }
}

fn execute_claim_fees(state: &TipsState, info: &MessageInfo, receiver: Result<String, StdError>, balance: Vec<Coin>)
    -> (r: Result<Response<BankSend>, ContractError>)
    ensures
        claim_fees_outcome(*state, *state, info.sender@, receiver, coins_view(balance@), r),
{
    if !(state.config.admin == info.sender) {
        return Err(ContractError::Unauthorized {});
    }
    let receiver = match receiver {
        Ok(a) => a,
        Err(e) => return Err(ContractError::Std(e)),
    };
    let mut resp: Response<BankSend> = Response::new();
    resp.add_attribute("action", "claim_fees");
    resp.add_attribute("sender", info.sender.as_str());
    resp.add_attribute("receiver", receiver.as_str());
    let ghost rv = receiver@;
    resp.add_message(BankSend { to_address: receiver, amount: balance });
    proof {
        assert(attrs_view(resp.attributes@) =~= seq![("action"@, "claim_fees"@), ("sender"@, info.sender@), ("receiver"@, rv)]);
    }
    Ok(resp)
}

/// Executes a message: validates it, then runs it. `lookup` is what the chain
/// answered for the address or post that the message names (the author of the
/// tipped post, or the validated address of the receiver or new admin), and
/// `balance` the balance of the contract, which claiming the fees sends.
pub fn execute(
    state: &mut TipsState,
    env: &Env,
    info: &MessageInfo,
    msg: ExecuteMsg,
    lookup: Result<String, StdError>,
    balance: Vec<Coin>,
) -> (r: Result<Response<BankSend>, ContractError>)
    requires
        state_fee_valid(old(state).config.service_fee),
    ensures
        state_fee_valid(final(state).config.service_fee),
        match msg {
            ExecuteMsg::SendTip { target, amount } => match target {
                Target::ContentTarget { post_id } if post_id == 0 =>
                    r == Err::<Response<BankSend>, ContractError>(ContractError::InvalidPostId {}) && *final(state) == *old(state),
                _ => send_tip_outcome(*old(state), *final(state), env.block_height, info.sender@,
                    coins_view(info.funds@), target, coins_view(amount@), lookup, r),
            },
            ExecuteMsg::UpdateServiceFee { new_fee } => if fee_error_ok(new_fee) {
                update_fee_outcome(*old(state), *final(state), info.sender@, new_fee, r)
            } else {
                fee_error(new_fee, unit_result(r)) && *final(state) == *old(state)
            },
            ExecuteMsg::UpdateAdmin { .. } => update_admin_outcome(*old(state), *final(state), info.sender@, lookup, r),
            ExecuteMsg::UpdateSavedTipsHistorySize { new_size } => if new_size > MAX_TIPS_HISTORY_SIZE {
                r == Err::<Response<BankSend>, ContractError>(ContractError::InvalidTipsHistorySize { value: new_size, max: MAX_TIPS_HISTORY_SIZE })
                    && *final(state) == *old(state)
            } else {
                update_size_outcome(*old(state), *final(state), info.sender@, new_size, r)
            },
            ExecuteMsg::ClaimFees { .. } => claim_fees_outcome(*old(state), *final(state), info.sender@, lookup, coins_view(balance@), r),
        },
{
    match msg.validate() {
        Ok(()) => {},
        Err(e) => return Err(e),
    }
    match msg {
        ExecuteMsg::SendTip { target, amount } => execute_send_tip(state, env, info, target, amount, lookup),
        ExecuteMsg::UpdateServiceFee { new_fee } => execute_update_service_fee(state, info, new_fee),
        ExecuteMsg::UpdateAdmin { .. } => execute_update_admin(state, info, lookup),
        ExecuteMsg::UpdateSavedTipsHistorySize { new_size } => execute_update_saved_tips_record_size(state, info, new_size),
        ExecuteMsg::ClaimFees { .. } => execute_claim_fees(state, info, lookup, balance),
    }
}

} // verus!

verus! {

/// The state the contract starts with after a successful instantiation.
pub open spec fn initial_state(s: TipsState, admin: Seq<char>, subspace_id: u64, fee: Option<ServiceFee>, size: u32) -> bool {
    &&& s.config.admin@ == admin
    &&& s.config.subspace_id == subspace_id
    &&& s.config.tips_history_size == size
    &&& s.sent@.len() == 0 && s.received@.len() == 0 && s.posts@.len() == 0
    &&& match (fee, s.config.service_fee) {
        (None, None) => true,
        (Some(ServiceFee::Fixed { amount }), Some(StateServiceFee::Fixed { amount: merged })) =>
            is_merge_of(coins_view(merged@), coins_view(amount@)),
        (Some(ServiceFee::Percentage { value }), Some(StateServiceFee::Percentage { value: v })) => v == value,
        _ => false,
    }
}

/// Instantiates the contract. `admin` is the validation of the admin address and
/// `subspace` the answer of the chain to the query of the subspace.
pub fn instantiate(
    info: &MessageInfo,
    msg: InstantiateMsg,
    admin: Result<String, StdError>,
    subspace: Result<(), StdError>,
) -> (r: Result<(TipsState, Response<BankSend>), ContractError>)
    ensures
        ({
            let checks = match msg.validate_spec() { Ok(()) => true, Err(_) => false };
            &&& msg.subspace_id == 0 ==> r == Err::<(TipsState, Response<BankSend>), ContractError>(ContractError::InvalidSubspaceId {})
            &&& msg.subspace_id != 0 && !fee_error_ok(msg.service_fee) ==> fee_error(msg.service_fee, unit_result(r))
            &&& msg.subspace_id != 0 && fee_error_ok(msg.service_fee) && msg.tips_history_size > MAX_TIPS_HISTORY_SIZE ==>
                r == Err::<(TipsState, Response<BankSend>), ContractError>(ContractError::InvalidTipsHistorySize {
                    value: msg.tips_history_size, max: MAX_TIPS_HISTORY_SIZE })
            &&& checks && admin is Err ==> r == Err::<(TipsState, Response<BankSend>), ContractError>(ContractError::Std(admin->Err_0))
            &&& checks && admin is Ok && subspace is Err ==> r == Err::<(TipsState, Response<BankSend>), ContractError>(
                ContractError::SubspaceNotExist { id: msg.subspace_id, error: subspace->Err_0 })
            &&& checks && admin is Ok && subspace is Ok && (msg.service_fee matches Some(ServiceFee::Fixed { amount })
                && totals_overflow(coins_view(amount@))) ==> (r matches Err(ContractError::Std(e))
                && merge_outcome(coins_view(msg.service_fee->Some_0->Fixed_amount@), Err(e)))
            &&& r matches Ok((s, resp)) ==> {
                &&& checks && admin is Ok && subspace is Ok
                &&& initial_state(s, admin->Ok_0@, msg.subspace_id, msg.service_fee, msg.tips_history_size)
                &&& state_fee_valid(s.config.service_fee)
                &&& attrs_view(resp.attributes@) == seq![("action"@, "instantiate"@), ("sender"@, info.sender@),
                    ("admin"@, msg.admin@), ("subspace_id"@, decimal(msg.subspace_id as nat)),
                    ("tips_record_size"@, decimal(msg.tips_history_size as nat))]
                &&& resp.messages@.len() == 0
            }
            &&& checks && admin is Ok && subspace is Ok && !(msg.service_fee matches Some(ServiceFee::Fixed { amount })
                && totals_overflow(coins_view(amount@))) ==> r is Ok
        }),
{
    match msg.validate() {
        Ok(()) => {},
        Err(e) => return Err(e),
    }
    let admin = match admin {
        Ok(a) => a,
        Err(e) => return Err(ContractError::Std(e)),
    };
    match subspace {
        Ok(()) => {},
        Err(error) => return Err(ContractError::SubspaceNotExist { id: msg.subspace_id, error }),
    }
    let ghost fee0 = msg.service_fee;
    let service_fee = match msg.service_fee {
        Some(fee) => match StateServiceFee::try_from(fee) {
            Ok(f) => Some(f),
            Err(e) => return Err(e),
        },
        None => None,
    };
    let mut resp: Response<BankSend> = Response::new();
    resp.add_attribute("action", "instantiate");
    resp.add_attribute("sender", info.sender.as_str());
    resp.add_attribute("admin", msg.admin.as_str());
    let id_text = u128_to_decimal(msg.subspace_id as u128);
    resp.add_attribute("subspace_id", id_text.as_str());
    let size_text = u128_to_decimal(msg.tips_history_size as u128);
    resp.add_attribute("tips_record_size", size_text.as_str());
    proof {
        assert(attrs_view(resp.attributes@) =~= seq![("action"@, "instantiate"@), ("sender"@, info.sender@),
            ("admin"@, msg.admin@), ("subspace_id"@, decimal(msg.subspace_id as nat)),
            ("tips_record_size"@, decimal(msg.tips_history_size as nat))]);
    }
    let state = TipsState {
        config: Config { admin, subspace_id: msg.subspace_id, service_fee, tips_history_size: msg.tips_history_size },
        sent: Vec::new(),
        received: Vec::new(),
        posts: Vec::new(),
    };
    Ok((state, resp))
}

impl InstantiateMsg {
    /// Whether the message passes `validate`.
    pub open spec fn validate_spec(&self) -> Result<(), ()> {
        if self.subspace_id != 0 && fee_error_ok(self.service_fee) && self.tips_history_size <= MAX_TIPS_HISTORY_SIZE {
            Ok(())
        } else {
            Err(())
        }
    }
}

/// The configuration as the `Config` query answers it.
pub struct QueryConfigResponse {
    pub admin: String,
    pub subspace_id: u64,
    pub service_fee: Option<ServiceFee>,
    pub tips_history_size: u32,
}

/// The tips that a query answers.
#[derive(Debug, PartialEq, Eq)]
pub struct TipsResponse {
    pub tips: Vec<Tip>,
}

impl StateServiceFee {
    /// The stored fee as the queries present it.
    pub fn to_service_fee(&self) -> (r: ServiceFee)
        ensures
            match (*self, r) {
                (StateServiceFee::Fixed { amount: a }, ServiceFee::Fixed { amount: b }) => coins_view(a@) == coins_view(b@),
                (StateServiceFee::Percentage { value: a }, ServiceFee::Percentage { value: b }) => a == b,
                _ => false,
            },
    {
        match self {
            StateServiceFee::Fixed { amount } => ServiceFee::Fixed { amount: clone_coins(amount.as_slice()) },
            StateServiceFee::Percentage { value } => ServiceFee::Percentage { value: *value },
        }
    }
}

/// Answers the configuration of the contract.
pub fn query_config(state: &TipsState) -> (r: QueryConfigResponse)
    ensures
        r.admin@ == state.config.admin@,
        r.subspace_id == state.config.subspace_id,
        r.tips_history_size == state.config.tips_history_size,
        match (state.config.service_fee, r.service_fee) {
            (None, None) => true,
            (Some(StateServiceFee::Fixed { amount: a }), Some(ServiceFee::Fixed { amount: b })) => coins_view(a@) == coins_view(b@),
            (Some(StateServiceFee::Percentage { value: a }), Some(ServiceFee::Percentage { value: b })) => a == b,
            _ => false,
        },
{
    QueryConfigResponse {
        admin: state.config.admin.clone(),
        subspace_id: state.config.subspace_id,
        service_fee: match &state.config.service_fee {
            Some(fee) => Some(fee.to_service_fee()),
            None => None,
        },
        tips_history_size: state.config.tips_history_size,
    }
}

/// The tips of a queue, oldest first.
fn tips_of(tips: &VecDeque<Tip>) -> (r: Vec<Tip>)
    ensures
        tips_view(r@) == tips_view(tips@),
{
    let mut r: Vec<Tip> = Vec::new();
    let mut i: usize = 0;
    while i < tips.len()
        invariant
            i <= tips@.len(),
            tips_view(r@) == tips_view(tips@).take(i as int),
        decreases tips@.len() - i,
    {
        let t = tips[i].duplicate();
        assert(t@ == tips@[i as int]@);
        let ghost prev = r@;
        r.push(t);
        proof {
            assert(tips_view(r@) =~= tips_view(prev).push(t@));
            assert(tips_view(tips@).take(i + 1) =~= tips_view(tips@).take(i as int).push(tips_view(tips@)[i as int]));
            assert(tips_view(r@) =~= tips_view(tips@).take(i + 1));
        }
        i = i + 1;
    }
    proof {
        assert(tips_view(tips@).take(tips@.len() as int) =~= tips_view(tips@));
    }
    r
}

/// The tips in the history of `user`.
fn user_tips(h: &Vec<UserTips>, user: &String) -> (r: Vec<Tip>)
    ensures
        tips_view(r@) == user_history(h@, user@),
{
    let mut idx: usize = 0;
    while idx < h.len() && !(h[idx].user == *user)
        invariant
            idx <= h.len(),
            forall|j: int| 0 <= j < idx ==> (#[trigger] h@[j]).user@ != user@,
        decreases h.len() - idx,
    {
        idx = idx + 1;
    }
    if idx < h.len() {
        proof { lemma_user_history_at(h@, user@, idx as int); }
        tips_of(&h[idx].tips)
    } else {
        proof { lemma_user_history_absent(h@, user@); }
        let r: Vec<Tip> = Vec::new();
        assert(tips_view(r@) =~= Seq::<TipV>::empty());
        r
    }
}

/// The tips in the history of the post `id`.
fn post_tips(h: &Vec<PostTips>, id: u64) -> (r: Vec<Tip>)
    ensures
        tips_view(r@) == post_history(h@, id),
{
    let mut idx: usize = 0;
    while idx < h.len() && h[idx].post_id != id
        invariant
            idx <= h.len(),
            forall|j: int| 0 <= j < idx ==> (#[trigger] h@[j]).post_id != id,
        decreases h.len() - idx,
    {
        idx = idx + 1;
    }
    if idx < h.len() {
        proof { lemma_post_history_at(h@, id, idx as int); }
        tips_of(&h[idx].tips)
    } else {
        proof { lemma_post_history_absent(h@, id); }
        let r: Vec<Tip> = Vec::new();
        assert(tips_view(r@) =~= Seq::<TipV>::empty());
        r
    }
}

/// The tips that a user sent; `user` is the validation of the queried address.
pub fn query_sent_tips(state: &TipsState, user: Result<String, StdError>) -> (r: Result<TipsResponse, ContractError>)
    ensures
        match user {
            Ok(u) => r matches Ok(resp) && tips_view(resp.tips@) == user_history(state.sent@, u@),
            Err(e) => r == Err::<TipsResponse, ContractError>(ContractError::Std(e)),
        },
{
    match user {
        Ok(u) => Ok(TipsResponse { tips: user_tips(&state.sent, &u) }),
        Err(e) => Err(ContractError::Std(e)),
    }
}

/// The tips that a user received; `user` is the validation of the queried address.
pub fn query_received_tips(state: &TipsState, user: Result<String, StdError>) -> (r: Result<TipsResponse, ContractError>)
    ensures
        match user {
            Ok(u) => r matches Ok(resp) && tips_view(resp.tips@) == user_history(state.received@, u@),
            Err(e) => r == Err::<TipsResponse, ContractError>(ContractError::Std(e)),
        },
{
    match user {
        Ok(u) => Ok(TipsResponse { tips: user_tips(&state.received, &u) }),
        Err(e) => Err(ContractError::Std(e)),
    }
}

/// The tips that a post received; `author` is the answer of the chain to the
/// query of the post (its author), which decides whether the post exists.
pub fn query_post_tips(state: &TipsState, post_id: u64, author: Result<String, StdError>) -> (r: Result<TipsResponse, ContractError>)
    ensures
        post_id == 0 ==> r == Err::<TipsResponse, ContractError>(ContractError::InvalidPostId {}),
        post_id != 0 && author is Err ==> r == Err::<TipsResponse, ContractError>(ContractError::PostNotFound { id: post_id }),
        post_id != 0 && author is Ok ==> (r matches Ok(resp) && tips_view(resp.tips@) == post_history(state.posts@, post_id)),
{
    if post_id == 0 {
        return Err(ContractError::InvalidPostId {});
    }
    match author {
        Ok(_) => Ok(TipsResponse { tips: post_tips(&state.posts, post_id) }),
        Err(_) => Err(ContractError::PostNotFound { id: post_id }),
    }
}

/// The queries of the contract.
pub enum QueryMsg {
    Config {},
    UserReceivedTips { user: String },
    UserSentTips { user: String },
    PostReceivedTips { post_id: u64 },
}

/// What the queries answer.
pub enum QueryResponse {
    Config(QueryConfigResponse),
    Tips(TipsResponse),
}

/// Answers a query; `lookup` is the validation of the queried user address, or
/// the author of the queried post.
pub fn query(state: &TipsState, msg: QueryMsg, lookup: Result<String, StdError>) -> (r: Result<QueryResponse, ContractError>)
    ensures
        match msg {
            QueryMsg::Config {} => r matches Ok(QueryResponse::Config(c)) && c.admin@ == state.config.admin@
                && c.subspace_id == state.config.subspace_id && c.tips_history_size == state.config.tips_history_size,
            QueryMsg::UserReceivedTips { .. } => match lookup {
                Ok(u) => r matches Ok(QueryResponse::Tips(t)) && tips_view(t.tips@) == user_history(state.received@, u@),
                Err(e) => r == Err::<QueryResponse, ContractError>(ContractError::Std(e)),
            },
            QueryMsg::UserSentTips { .. } => match lookup {
                Ok(u) => r matches Ok(QueryResponse::Tips(t)) && tips_view(t.tips@) == user_history(state.sent@, u@),
                Err(e) => r == Err::<QueryResponse, ContractError>(ContractError::Std(e)),
            },
            QueryMsg::PostReceivedTips { post_id } => if post_id == 0 {
                r == Err::<QueryResponse, ContractError>(ContractError::InvalidPostId {})
            } else if lookup is Err {
                r == Err::<QueryResponse, ContractError>(ContractError::PostNotFound { id: post_id })
            } else {
                r matches Ok(QueryResponse::Tips(t)) && tips_view(t.tips@) == post_history(state.posts@, post_id)
            },
        },
{
    match msg {
        QueryMsg::Config {} => Ok(QueryResponse::Config(query_config(state))),
        QueryMsg::UserReceivedTips { .. } => match query_received_tips(state, lookup) {
            Ok(t) => Ok(QueryResponse::Tips(t)),
            Err(e) => Err(e),
        },
        QueryMsg::UserSentTips { .. } => match query_sent_tips(state, lookup) {
            Ok(t) => Ok(QueryResponse::Tips(t)),
            Err(e) => Err(e),
        },
        QueryMsg::PostReceivedTips { post_id } => match query_post_tips(state, post_id, lookup) {
            Ok(t) => Ok(QueryResponse::Tips(t)),
            Err(e) => Err(e),
        },
    }
}

} // verus!

verus! {

/// Appending to a history of at most `n` tips keeps at most `n` tips, the new
/// one last, dropping the oldest when the history was full.
pub proof fn law_bounded_push(h: Seq<TipV>, t: TipV, n: nat)
    requires
        n > 0,
        h.len() <= n,
    ensures
        bounded_push(h, t, n).len() <= n,
        bounded_push(h, t, n).last() == t,
        h.len() < n ==> bounded_push(h, t, n) == h.push(t),
        h.len() == n ==> bounded_push(h, t, n) == h.drop_first().push(t),
{
    if h.len() == n {
        assert(h.push(t).subrange(h.push(t).len() - n, h.push(t).len() as int) =~= h.drop_first().push(t));
    }
}

/// Every saved history holds at most the configured number of tips.
pub open spec fn histories_within(s: TipsState) -> bool {
    let n = s.config.tips_history_size as nat;
    &&& forall|u: Seq<char>| (#[trigger] user_history(s.sent@, u)).len() <= n
    &&& forall|u: Seq<char>| (#[trigger] user_history(s.received@, u)).len() <= n
    &&& forall|p: u64| (#[trigger] post_history(s.posts@, p)).len() <= n
}

/// Sending a tip keeps every saved history within the configured size.
pub proof fn law_history_size_kept(s0: TipsState, s1: TipsState, height: u64, sender: Seq<char>, funds: Seq<CoinV>,
    target: Target, amount: Seq<CoinV>, lookup: Result<String, StdError>, r: Result<Response<BankSend>, ContractError>)
    requires
        histories_within(s0),
        send_tip_outcome(s0, s1, height, sender, funds, target, amount, lookup, r),
    ensures
        histories_within(s1),
{
    let n = s0.config.tips_history_size as nat;
    if r is Ok && n > 0 {
        let (post_id, receiver) = resolve_target(target, lookup)->Ok_0;
        let tip: TipV = (sender, receiver, amount, if post_id > 0 { Some(post_id) } else { None }, height);
        assert forall|u: Seq<char>| (#[trigger] user_history(s1.sent@, u)).len() <= n by {
            if u == sender {
                assert(user_history(s0.sent@, sender).len() <= n);
                law_bounded_push(user_history(s0.sent@, sender), tip, n);
            } else {
                assert(user_history(s0.sent@, u).len() <= n);
            }
        }
        assert forall|u: Seq<char>| (#[trigger] user_history(s1.received@, u)).len() <= n by {
            if u == receiver {
                assert(user_history(s0.received@, receiver).len() <= n);
                law_bounded_push(user_history(s0.received@, receiver), tip, n);
            } else {
                assert(user_history(s0.received@, u).len() <= n);
            }
        }
        assert forall|p: u64| (#[trigger] post_history(s1.posts@, p)).len() <= n by {
            if p == post_id && post_id > 0 {
                assert(post_history(s0.posts@, post_id).len() <= n);
                law_bounded_push(post_history(s0.posts@, post_id), tip, n);
            } else {
                assert(post_history(s0.posts@, p).len() <= n);
            }
        }
    } else {
        assert forall|u: Seq<char>| (#[trigger] user_history(s1.sent@, u)).len() <= n by {
            assert(user_history(s0.sent@, u).len() <= n);
        }
        assert forall|u: Seq<char>| (#[trigger] user_history(s1.received@, u)).len() <= n by {
            assert(user_history(s0.received@, u).len() <= n);
        }
        assert forall|p: u64| (#[trigger] post_history(s1.posts@, p)).len() <= n by {
            assert(post_history(s0.posts@, p).len() <= n);
        }
    }
}


/// A tip that goes through is the newest entry of the sender's sent tips, of
/// the receiver's received tips and, for a post, of the post's tips, whenever
/// the contract keeps histories.
pub proof fn law_tip_recorded(s0: TipsState, s1: TipsState, height: u64, sender: Seq<char>, funds: Seq<CoinV>,
    target: Target, amount: Seq<CoinV>, lookup: Result<String, StdError>, r: Result<Response<BankSend>, ContractError>)
    requires
        histories_within(s0),
        s0.config.tips_history_size > 0,
        send_tip_outcome(s0, s1, height, sender, funds, target, amount, lookup, r),
        r is Ok,
    ensures
        ({
            let (post_id, receiver) = resolve_target(target, lookup)->Ok_0;
            let tip: TipV = (sender, receiver, amount, if post_id > 0 { Some(post_id) } else { None }, height);
            &&& user_history(s1.sent@, sender).last() == tip
            &&& user_history(s1.received@, receiver).last() == tip
            &&& post_id > 0 ==> post_history(s1.posts@, post_id).last() == tip
        }),
{
    let n = s0.config.tips_history_size as nat;
    let (post_id, receiver) = resolve_target(target, lookup)->Ok_0;
    let tip: TipV = (sender, receiver, amount, if post_id > 0 { Some(post_id) } else { None }, height);
    assert(user_history(s0.sent@, sender).len() <= n);
    law_bounded_push(user_history(s0.sent@, sender), tip, n);
    assert(user_history(s0.received@, receiver).len() <= n);
    law_bounded_push(user_history(s0.received@, receiver), tip, n);
    if post_id > 0 {
        assert(post_history(s0.posts@, post_id).len() <= n);
        law_bounded_push(post_history(s0.posts@, post_id), tip, n);
    }
}

} // verus!
