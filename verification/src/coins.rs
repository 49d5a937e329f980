//! Coins: an amount of a denomination, and the bookkeeping of coin lists.
use vstd::prelude::*;
use vstd::string::*;
use crate::text::{decimal, seq_lt, u128_to_decimal, compare_str,
    lemma_seq_lt_irreflexive, lemma_seq_lt_transitive, lemma_seq_lt_total};

verus! {

/// An amount of tokens of one denomination.
#[derive(Debug, Clone, PartialEq, Eq)]
pub struct Coin {
    pub denom: String,
    pub amount: u128,
}

/// The errors of the standard library of the chain that the contracts surface.
#[derive(Debug, PartialEq, Eq)]
pub enum StdError {
    /// An addition overflowed: `operand1 + operand2` does not fit in 128 bits.
    AddOverflow { operand1: u128, operand2: u128 },
    /// A subtraction underflowed: `operand1 - operand2` is negative.
    SubOverflow { operand1: u128, operand2: u128 },
    /// An error described by a message (address validation, failed queries).
    GenericErr { msg: String },
    /// An item that was looked up in storage does not exist.
    NotFound { kind: String },
}

impl StdError {
    /// A copy of this error.
    pub fn duplicate(&self) -> (e: StdError)
        ensures
            e == *self,
    {
        match self {
            StdError::AddOverflow { operand1, operand2 } => StdError::AddOverflow { operand1: *operand1, operand2: *operand2 },
            StdError::SubOverflow { operand1, operand2 } => StdError::SubOverflow { operand1: *operand1, operand2: *operand2 },
            StdError::GenericErr { msg } => StdError::GenericErr { msg: msg.clone() },
            StdError::NotFound { kind } => StdError::NotFound { kind: kind.clone() },
        }
    }
}

impl View for Coin {
    type V = (Seq<char>, u128);

    open spec fn view(&self) -> (Seq<char>, u128) {
        (self.denom@, self.amount)
    }
}

/// The coins as denomination and amount pairs.
pub open spec fn coins_view(coins: Seq<Coin>) -> Seq<(Seq<char>, u128)> {
    coins.map_values(|c: Coin| c@)
}

impl Coin {
    /// Creates a coin of `amount` tokens of `denom`.
    pub fn new(amount: u128, denom: &str) -> (c: Coin)
        ensures
            c.amount == amount,
            c.denom@ == denom@,
    {
        Coin { denom: String::from_str(denom), amount }
    }

    /// A copy of this coin.
    pub fn duplicate(&self) -> (c: Coin)
        ensures
            c@ == self@,
    {
        Coin { denom: self.denom.clone(), amount: self.amount }
    }
}

/// A copy of a list of coins.
pub fn clone_coins(coins: &[Coin]) -> (r: Vec<Coin>)
    ensures
        coins_view(r@) == coins_view(coins@),
{
    let mut r: Vec<Coin> = Vec::new();
    let mut i: usize = 0;
    while i < coins.len()
        invariant
            i <= coins.len(),
            coins_view(r@) == coins_view(coins@.take(i as int)),
        decreases coins.len() - i,
    {
        r.push(coins[i].duplicate());
        proof {
            assert(coins_view(coins@.take(i + 1)) =~= coins_view(coins@.take(i as int)).push(coins@[i as int]@));
            assert(coins_view(r@) =~= coins_view(coins@.take(i + 1)));
        }
        i = i + 1;
    }
    proof {
        assert(coins@.take(coins@.len() as int) =~= coins@);
    }
    r
}

/// Whether two coin lists hold the same coins in the same order.
pub fn coins_equal(a: &Vec<Coin>, b: &Vec<Coin>) -> (r: bool)
    ensures
        r == (coins_view(a@) == coins_view(b@)),
{
    if a.len() != b.len() {
        assert(coins_view(a@).len() != coins_view(b@).len());
        return false;
    }
    let mut i: usize = 0;
    while i < a.len()
        invariant
            a.len() == b.len(),
            i <= a.len(),
            forall|j: int| 0 <= j < i ==> a@[j]@ == b@[j]@,
        decreases a.len() - i,
    {
        if a[i].amount != b[i].amount || !(a[i].denom == b[i].denom) {
            assert(coins_view(a@)[i as int] != coins_view(b@)[i as int]);
            return false;
        }
        i = i + 1;
    }
    assert(coins_view(a@) =~= coins_view(b@));
    true
}

/// A coin as its denomination and amount.
pub type CoinV = (Seq<char>, u128);

/// The sum of the amounts of the coins of denomination `d`.
pub open spec fn denom_total(coins: Seq<CoinV>, d: Seq<char>) -> int
    decreases coins.len(),
{
    if coins.len() == 0 {
        0
    } else {
        denom_total(coins.drop_last(), d) + if coins.last().0 == d {
            coins.last().1 as int
        } else {
            0
        }
    }
}

/// Whether some coin of the list has denomination `d`.
pub open spec fn has_denom(coins: Seq<CoinV>, d: Seq<char>) -> bool {
    exists|j: int| 0 <= j < coins.len() && (#[trigger] coins[j]).0 == d
}

/// The coins are sorted by denomination and no denomination occurs twice.
pub open spec fn sorted_by_denom(coins: Seq<CoinV>) -> bool {
    forall|i: int, j: int|
        0 <= i < j < coins.len() ==> seq_lt((#[trigger] coins[i]).0, (#[trigger] coins[j]).0)
}

/// `merged` holds one coin per denomination of `coins`, sorted by denomination,
/// whose amount is the total of that denomination in `coins`.
pub open spec fn is_merge_of(merged: Seq<CoinV>, coins: Seq<CoinV>) -> bool {
    &&& sorted_by_denom(merged)
    &&& forall|i: int| 0 <= i < merged.len() ==>
            (#[trigger] merged[i]).1 == denom_total(coins, merged[i].0)
    &&& forall|d: Seq<char>| has_denom(merged, d) <==> has_denom(coins, d)
}

/// The total of some denomination exceeds what 128 bits hold.
pub open spec fn totals_overflow(coins: Seq<CoinV>) -> bool {
    exists|d: Seq<char>| denom_total(coins, d) > u128::MAX
}

/// Adding the coin at `k` to the running total of its denomination is the
/// first addition that overflows.
pub open spec fn first_overflow_at(coins: Seq<CoinV>, k: int) -> bool {
    &&& 0 <= k < coins.len()
    &&& denom_total(coins.take(k + 1), coins[k].0) > u128::MAX
    &&& forall|j: int| 0 <= j < k ==>
            denom_total(#[trigger] coins.take(j + 1), coins[j].0) <= u128::MAX
}

proof fn lemma_denom_total_step(coins: Seq<CoinV>, i: int, d: Seq<char>)
    requires
        0 <= i < coins.len(),
    ensures
        denom_total(coins.take(i + 1), d) == denom_total(coins.take(i), d)
            + if coins[i].0 == d { coins[i].1 as int } else { 0 },
{
    assert(coins.take(i + 1).drop_last() =~= coins.take(i));
}

/// Running totals only grow: the total of a prefix is at most the total.
pub proof fn lemma_denom_total_prefix(coins: Seq<CoinV>, i: int, d: Seq<char>)
    requires
        0 <= i <= coins.len(),
    ensures
        denom_total(coins.take(i), d) <= denom_total(coins, d),
    decreases coins.len() - i,
{
    if i < coins.len() {
        lemma_denom_total_step(coins, i, d);
        lemma_denom_total_prefix(coins, i + 1, d);
    } else {
        assert(coins.take(i) =~= coins);
    }
}

/// A denomination that does not occur has total zero.
pub proof fn lemma_denom_total_absent(coins: Seq<CoinV>, d: Seq<char>)
    requires
        !has_denom(coins, d),
    ensures
        denom_total(coins, d) == 0,
    decreases coins.len(),
{
    if coins.len() > 0 {
        assert(!has_denom(coins.drop_last(), d)) by {
            if has_denom(coins.drop_last(), d) {
                let j = choose|j: int| 0 <= j < coins.drop_last().len() && (#[trigger] coins.drop_last()[j]).0 == d;
                assert(coins[j] == coins.drop_last()[j]);
            }
        }
        lemma_denom_total_absent(coins.drop_last(), d);
        assert(coins[coins.len() - 1] == coins.last());
    }
}

/// The total of a concatenation is the sum of the totals.
pub proof fn lemma_denom_total_concat(a: Seq<CoinV>, b: Seq<CoinV>, d: Seq<char>)
    ensures
        denom_total(a + b, d) == denom_total(a, d) + denom_total(b, d),
    decreases b.len(),
{
    if b.len() == 0 {
        assert(a + b =~= a);
    } else {
        assert((a + b).drop_last() =~= a + b.drop_last());
        lemma_denom_total_concat(a, b.drop_last(), d);
    }
}

/// What merging `input` gives: the merge when no total overflows, else the first
/// addition that overflows.
pub open spec fn merge_outcome(input: Seq<CoinV>, r: Result<Seq<CoinV>, StdError>) -> bool {
    match r {
        Ok(merged) => !totals_overflow(input) && is_merge_of(merged, input),
        Err(e) => totals_overflow(input) && exists|k: int| #[trigger] first_overflow_at(input, k)
            && e == (StdError::AddOverflow {
                operand1: denom_total(input.take(k), input[k].0) as u128,
                operand2: input[k].1,
            }),
    }
}

/// The views of the coins of a result.
pub open spec fn result_coins_view(r: Result<Vec<Coin>, StdError>) -> Result<Seq<CoinV>, StdError> {
    match r {
        Ok(m) => Ok(coins_view(m@)),
        Err(e) => Err(e),
    }
}

/// Merges the coins of the same denomination, summing their amounts, and returns
/// them sorted by denomination. Fails with the first addition that overflows.
pub fn sum_coins_sorted(coins: Vec<Coin>) -> (r: Result<Vec<Coin>, StdError>)
    ensures
        merge_outcome(coins_view(coins@), result_coins_view(r)),
{
    let ghost input = coins_view(coins@);
    let mut out: Vec<Coin> = Vec::new();
    let mut i: usize = 0;
    proof {
        assert(input.take(0) =~= Seq::<CoinV>::empty());
        assert(coins_view(out@) =~= Seq::<CoinV>::empty());
    }
    while i < coins.len()
        invariant
            input == coins_view(coins@),
            i <= coins.len(),
            is_merge_of(coins_view(out@), input.take(i as int)),
            forall|j: int| 0 <= j < i ==> denom_total(#[trigger] input.take(j + 1), input[j].0) <= u128::MAX,
        decreases coins.len() - i,
    {
        let c = &coins[i];
        let ghost cv = c@;
        let ghost prefix = input.take(i as int);
        let ghost next = input.take(i + 1);
        proof {
            assert(input[i as int] == cv);
            assert forall|d: Seq<char>| #[trigger] denom_total(next, d) == denom_total(prefix, d)
                + if cv.0 == d { cv.1 as int } else { 0 } by {
                lemma_denom_total_step(input, i as int, d);
            }
            assert(next =~= prefix.push(cv));
        }
        let ghost before = coins_view(out@);
        // Find the first merged coin whose denomination is not below `c.denom`.
        let mut p: usize = 0;
        while p < out.len() && compare_str(out[p].denom.as_str(), c.denom.as_str()) < 0
            invariant
                p <= out.len(),
                before == coins_view(out@),
                cv.0 == c.denom@,
                forall|q: int| 0 <= q < p ==> seq_lt((#[trigger] before[q]).0, cv.0),
            decreases out.len() - p,
        {
            p = p + 1;
        }
        if p < out.len() && compare_str(out[p].denom.as_str(), c.denom.as_str()) == 0 {
            let old_amount = out[p].amount;
            assert(before[p as int] == out@[p as int]@);
            assert(before[p as int].0 == cv.0);
            match old_amount.checked_add(c.amount) {
                Some(sum) => {
                    let denom = out[p].denom.clone();
                    out.set(p, Coin { denom, amount: sum });
                    let ghost after = coins_view(out@);
                    proof {
                        assert(after =~= before.update(p as int, (cv.0, sum)));
                        assert(has_denom(prefix, cv.0)) by {
                            assert(has_denom(before, before[p as int].0));
                        }
                        assert forall|q: int| 0 <= q < after.len() implies
                            (#[trigger] after[q]).1 == denom_total(next, after[q].0) by {
                            if q != p as int {
                                assert(before[q].0 != cv.0) by {
                                    if q < p { lemma_seq_lt_irreflexive(cv.0); }
                                    else {
                                        assert(seq_lt(before[p as int].0, before[q].0));
                                        lemma_seq_lt_irreflexive(cv.0);
                                    }
                                }
                            }
                        }
                        assert forall|d: Seq<char>| has_denom(after, d) <==> has_denom(next, d) by {
                            if has_denom(after, d) {
                                let j = choose|j: int| 0 <= j < after.len() && (#[trigger] after[j]).0 == d;
                                assert(before[j].0 == d);
                                assert(has_denom(before, d));
                                let k = choose|k: int| 0 <= k < prefix.len() && (#[trigger] prefix[k]).0 == d;
                                assert(next[k] == prefix[k]);
                            }
                            if has_denom(next, d) {
                                let k = choose|k: int| 0 <= k < next.len() && (#[trigger] next[k]).0 == d;
                                if k < prefix.len() {
                                    assert(prefix[k] == next[k]);
                                    assert(has_denom(prefix, d));
                                } else {
                                    assert(d == cv.0);
                                    assert(before[p as int].0 == d);
                                }
                                let j = choose|j: int| 0 <= j < before.len() && (#[trigger] before[j]).0 == d;
                                assert(after[j].0 == d);
                            }
                        }
                        assert(sorted_by_denom(after)) by {
                            assert forall|a: int, b: int| 0 <= a < b < after.len() implies
                                seq_lt((#[trigger] after[a]).0, (#[trigger] after[b]).0) by {
                                assert(seq_lt(before[a].0, before[b].0));
                            }
                        }
                    }
                }
                None => {
                    proof {
                        let k = i as int;
                        assert(before[p as int].1 == denom_total(prefix, cv.0));
                        assert(denom_total(next, cv.0) > u128::MAX);
                        assert(first_overflow_at(input, k));
                        lemma_denom_total_prefix(input, k + 1, cv.0);
                        assert(input.take(k) == prefix);
                    }
                    return Err(StdError::AddOverflow { operand1: old_amount, operand2: c.amount });
                }
            }
        } else {
            proof {
                // Every merged coin from `p` on lies above `c.denom`.
                if p < out.len() {
                    lemma_seq_lt_total(before[p as int].0, cv.0);
                }
                assert(!has_denom(prefix, cv.0)) by {
                    if has_denom(prefix, cv.0) {
                        assert(has_denom(before, cv.0));
                        let j = choose|j: int| 0 <= j < before.len() && (#[trigger] before[j]).0 == cv.0;
                        if j < p {
                            lemma_seq_lt_irreflexive(cv.0);
                        } else if j > p {
                            assert(seq_lt(before[p as int].0, before[j].0));
                            lemma_seq_lt_transitive(cv.0, before[p as int].0, before[j].0);
                            lemma_seq_lt_irreflexive(cv.0);
                        }
                    }
                }
                lemma_denom_total_absent(prefix, cv.0);
            }
            out.insert(p, c.duplicate());
            let ghost after = coins_view(out@);
            proof {
                assert(after =~= before.insert(p as int, cv));
                assert forall|q: int| 0 <= q < after.len() implies
                    (#[trigger] after[q]).1 == denom_total(next, after[q].0) by {
                    if q < p {
                        assert(after[q] == before[q]);
                        assert(before[q].0 != cv.0) by { lemma_seq_lt_irreflexive(cv.0); }
                    } else if q > p {
                        assert(after[q] == before[q - 1]);
                        assert(before[q - 1].0 != cv.0) by {
                            if q - 1 > p {
                                assert(seq_lt(before[p as int].0, before[q - 1].0));
                                lemma_seq_lt_transitive(cv.0, before[p as int].0, before[q - 1].0);
                            }
                            lemma_seq_lt_irreflexive(cv.0);
                        }
                    }
                }
                assert(sorted_by_denom(after)) by {
                    assert forall|a: int, b: int| 0 <= a < b < after.len() implies
                        seq_lt((#[trigger] after[a]).0, (#[trigger] after[b]).0) by {
                        if b < p {
                            assert(seq_lt(before[a].0, before[b].0));
                        } else if b == p {
                            assert(after[a] == before[a]);
                        } else if a == p {
                            assert(after[b] == before[b - 1]);
                            if b - 1 > p {
                                assert(seq_lt(before[p as int].0, before[b - 1].0));
                                lemma_seq_lt_transitive(cv.0, before[p as int].0, before[b - 1].0);
                            }
                        } else if a < p {
                            assert(after[a] == before[a]);
                            assert(after[b] == before[b - 1]);
                            assert(seq_lt(before[a].0, before[b - 1].0));
                        } else {
                            assert(after[a] == before[a - 1]);
                            assert(after[b] == before[b - 1]);
                            assert(seq_lt(before[a - 1].0, before[b - 1].0));
                        }
                    }
                }
                assert forall|d: Seq<char>| has_denom(after, d) <==> has_denom(next, d) by {
                    if has_denom(after, d) {
                        let j = choose|j: int| 0 <= j < after.len() && (#[trigger] after[j]).0 == d;
                        if j == p {
                            assert(next[i as int].0 == d);
                        } else {
                            let jj = if j < p { j } else { j - 1 };
                            assert(before[jj].0 == d);
                            assert(has_denom(before, d));
                            let k = choose|k: int| 0 <= k < prefix.len() && (#[trigger] prefix[k]).0 == d;
                            assert(next[k] == prefix[k]);
                        }
                    }
                    if has_denom(next, d) {
                        let k = choose|k: int| 0 <= k < next.len() && (#[trigger] next[k]).0 == d;
                        if k < prefix.len() {
                            assert(prefix[k] == next[k]);
                            assert(has_denom(prefix, d));
                            let j = choose|j: int| 0 <= j < before.len() && (#[trigger] before[j]).0 == d;
                            if j < p { assert(after[j] == before[j]); } else { assert(after[j + 1] == before[j]); }
                        } else {
                            assert(after[p as int].0 == d);
                        }
                    }
                }
            }
        }
        proof {
            assert(denom_total(next, input[i as int].0) <= u128::MAX);
        }
        i = i + 1;
    }
    proof {
        assert(input.take(input.len() as int) =~= input);
        let ov = coins_view(out@);
        assert(!totals_overflow(input)) by {
            if totals_overflow(input) {
                let d = choose|d: Seq<char>| denom_total(input, d) > u128::MAX;
                if has_denom(input, d) {
                    let j = choose|j: int| 0 <= j < ov.len() && (#[trigger] ov[j]).0 == d;
                } else {
                    lemma_denom_total_absent(input, d);
                }
            }
        }
    }
    Ok(out)
}

/// The text of a coin: its amount in decimal followed by its denomination.
pub open spec fn coin_text(c: CoinV) -> Seq<char> {
    decimal(c.1 as nat) + c.0
}

/// The texts of the coins joined by commas.
pub open spec fn coins_text(coins: Seq<CoinV>) -> Seq<char>
    decreases coins.len(),
{
    if coins.len() == 0 {
        Seq::empty()
    } else if coins.len() == 1 {
        coin_text(coins[0])
    } else {
        coins_text(coins.drop_last()) + seq![','] + coin_text(coins.last())
    }
}

/// Renders a coin as its amount followed by its denomination ("100udsm").
pub fn coin_to_string(c: &Coin) -> (s: String)
    ensures
        s@ == coin_text(c@),
{
    let mut s = u128_to_decimal(c.amount);
    s.append(c.denom.as_str());
    s
}

/// Serializes coins into their texts separated by commas ("100uatom,100udsm").
pub fn serialize_coins(coins: &[Coin]) -> (s: String)
    ensures
        s@ == coins_text(coins_view(coins@)),
{
    let mut s = String::new();
    let mut i: usize = 0;
    proof {
        reveal_strlit(",");
        assert(coins_view(coins@).take(0) =~= Seq::<CoinV>::empty());
    }
    while i < coins.len()
        invariant
            i <= coins.len(),
            s@ == coins_text(coins_view(coins@).take(i as int)),
        decreases coins.len() - i,
    {
        proof {
            reveal_strlit(",");
            assert(coins_view(coins@).take(i + 1).drop_last() =~= coins_view(coins@).take(i as int));
        }
        if i > 0 {
            s.append(",");
        }
        let t = coin_to_string(&coins[i]);
        s.append(t.as_str());
        i = i + 1;
    }
    proof {
        assert(coins_view(coins@).take(coins@.len() as int) =~= coins_view(coins@));
    }
    s
}

} // verus!

verus! {

/// Two lists sorted by denomination that hold the same denominations hold them
/// in the same positions.
pub proof fn lemma_sorted_same_denoms(m1: Seq<CoinV>, m2: Seq<CoinV>)
    requires
        sorted_by_denom(m1),
        sorted_by_denom(m2),
        forall|d: Seq<char>| has_denom(m1, d) <==> has_denom(m2, d),
    ensures
        m1.len() == m2.len(),
        forall|i: int| 0 <= i < m1.len() ==> (#[trigger] m1[i]).0 == m2[i].0,
    decreases m1.len(),
{
    if m1.len() == 0 {
        if m2.len() > 0 {
            assert(has_denom(m2, m2[0].0));
        }
    } else if m2.len() == 0 {
        assert(has_denom(m1, m1[0].0));
    } else {
        let a = m1[0].0;
        let b = m2[0].0;
        assert(has_denom(m1, a));
        assert(has_denom(m2, b));
        assert(a == b) by {
            let j = choose|j: int| 0 <= j < m2.len() && (#[trigger] m2[j]).0 == a;
            let k = choose|k: int| 0 <= k < m1.len() && (#[trigger] m1[k]).0 == b;
            lemma_seq_lt_total(a, b);
            if seq_lt(a, b) {
                if j > 0 {
                    assert(seq_lt(b, m2[j].0));
                    lemma_seq_lt_transitive(a, b, a);
                }
                lemma_seq_lt_irreflexive(a);
            } else if seq_lt(b, a) {
                if k > 0 {
                    assert(seq_lt(a, m1[k].0));
                    lemma_seq_lt_transitive(b, a, b);
                }
                lemma_seq_lt_irreflexive(b);
            }
        }
        let t1 = m1.drop_first();
        let t2 = m2.drop_first();
        assert(sorted_by_denom(t1)) by {
            assert forall|i: int, j: int| 0 <= i < j < t1.len() implies
                seq_lt((#[trigger] t1[i]).0, (#[trigger] t1[j]).0) by {
                assert(seq_lt(m1[i + 1].0, m1[j + 1].0));
            }
        }
        assert(sorted_by_denom(t2)) by {
            assert forall|i: int, j: int| 0 <= i < j < t2.len() implies
                seq_lt((#[trigger] t2[i]).0, (#[trigger] t2[j]).0) by {
                assert(seq_lt(m2[i + 1].0, m2[j + 1].0));
            }
        }
        assert forall|d: Seq<char>| has_denom(t1, d) <==> has_denom(t2, d) by {
            if has_denom(t1, d) {
                let i = choose|i: int| 0 <= i < t1.len() && (#[trigger] t1[i]).0 == d;
                assert(m1[i + 1].0 == d);
                assert(seq_lt(a, d));
                assert(has_denom(m1, d));
                let j = choose|j: int| 0 <= j < m2.len() && (#[trigger] m2[j]).0 == d;
                if j == 0 { lemma_seq_lt_irreflexive(a); }
                assert(t2[j - 1].0 == d);
            }
            if has_denom(t2, d) {
                let i = choose|i: int| 0 <= i < t2.len() && (#[trigger] t2[i]).0 == d;
                assert(m2[i + 1].0 == d);
                assert(seq_lt(b, d));
                assert(has_denom(m2, d));
                let j = choose|j: int| 0 <= j < m1.len() && (#[trigger] m1[j]).0 == d;
                if j == 0 { lemma_seq_lt_irreflexive(b); }
                assert(t1[j - 1].0 == d);
            }
        }
        lemma_sorted_same_denoms(t1, t2);
        assert forall|i: int| 0 <= i < m1.len() implies (#[trigger] m1[i]).0 == m2[i].0 by {
            if i > 0 {
                assert(t1[i - 1].0 == t2[i - 1].0);
            }
        }
    }
}

/// In a list sorted by denomination each denomination occurs once, so its total
/// is the amount of its coin.
pub proof fn lemma_sorted_is_own_merge(m: Seq<CoinV>)
    requires
        sorted_by_denom(m),
    ensures
        is_merge_of(m, m),
        !totals_overflow(m),
    decreases m.len(),
{
    if m.len() > 0 {
        let init = m.drop_last();
        let last = m.last();
        assert(sorted_by_denom(init)) by {
            assert forall|i: int, j: int| 0 <= i < j < init.len() implies
                seq_lt((#[trigger] init[i]).0, (#[trigger] init[j]).0) by {
                assert(init[i] == m[i] && init[j] == m[j]);
            }
        }
        lemma_sorted_is_own_merge(init);
        assert(!has_denom(init, last.0)) by {
            if has_denom(init, last.0) {
                let j = choose|j: int| 0 <= j < init.len() && (#[trigger] init[j]).0 == last.0;
                assert(seq_lt(m[j].0, m[m.len() - 1].0));
                lemma_seq_lt_irreflexive(last.0);
            }
        }
        lemma_denom_total_absent(init, last.0);
        assert forall|i: int| 0 <= i < m.len() implies (#[trigger] m[i]).1 == denom_total(m, m[i].0) by {
            if i < m.len() - 1 {
                assert(m[i] == init[i]);
                assert(init[i].1 == denom_total(init, init[i].0));
                if m[i].0 == last.0 {
                    assert(seq_lt(m[i].0, m[m.len() - 1].0));
                    lemma_seq_lt_irreflexive(last.0);
                }
            }
        }
        assert forall|d: Seq<char>| denom_total(m, d) <= u128::MAX by {
            if d != last.0 {
                assert(denom_total(m, d) == denom_total(init, d));
                assert(!(denom_total(init, d) > u128::MAX));
            }
        }
    }
}

/// Merging coins that are already merged gives them back: a merge is its own
/// merge, and a list of at most one coin is its own merge.
pub proof fn law_merge_idempotent(coins: Seq<CoinV>, m: Seq<CoinV>)
    requires
        merge_outcome(coins, Ok(m)),
    ensures
        merge_outcome(m, Ok(m)),
        forall|r: Result<Seq<CoinV>, StdError>| #[trigger] merge_outcome(m, r) ==> r == Ok::<Seq<CoinV>, StdError>(m),
        coins.len() <= 1 ==> m == coins,
{
    lemma_sorted_is_own_merge(m);
    assert forall|r: Result<Seq<CoinV>, StdError>| #[trigger] merge_outcome(m, r) implies r == Ok::<Seq<CoinV>, StdError>(m) by {
        if let Ok(m2) = r {
            lemma_merge_unique(m, m2, m);
        }
    }
    if coins.len() <= 1 {
        assert(sorted_by_denom(coins));
        lemma_sorted_is_own_merge(coins);
        lemma_merge_unique(m, coins, coins);
    }
}

/// The merge of a list of coins is unique: whatever order the coins come in, two
/// merges of the same coins are the same list.
pub proof fn lemma_merge_unique(m1: Seq<CoinV>, m2: Seq<CoinV>, coins: Seq<CoinV>)
    requires
        is_merge_of(m1, coins),
        is_merge_of(m2, coins),
    ensures
        m1 == m2,
{
    lemma_sorted_same_denoms(m1, m2);
    assert forall|i: int| 0 <= i < m1.len() implies #[trigger] m1[i] == m2[i] by {
        assert(m1[i].0 == m2[i].0);
    }
    assert(m1 =~= m2);
}

} // verus!

verus! {

/// The amount of the first coin of denomination `d`, if there is one.
pub open spec fn first_amount(coins: Seq<CoinV>, d: Seq<char>) -> Option<u128>
    decreases coins.len(),
{
    if coins.len() == 0 {
        None
    } else if coins[0].0 == d {
        Some(coins[0].1)
    } else {
        first_amount(coins.drop_first(), d)
    }
}

/// The first coin of the denomination of `required` holds at least its amount.
pub open spec fn covers(coins: Seq<CoinV>, required: CoinV) -> bool {
    match first_amount(coins, required.0) {
        Some(a) => a >= required.1,
        None => false,
    }
}

/// Whether the first coin of `coins` with the denomination of `required`
/// holds at least the required amount.
pub fn has_coins(coins: &[Coin], required: &Coin) -> (r: bool)
    ensures
        r == covers(coins_view(coins@), required@),
{
    let ghost cv = coins_view(coins@);
    let mut i: usize = 0;
    proof { assert(cv.skip(0) =~= cv); }
    while i < coins.len()
        invariant
            i <= coins@.len(),
            cv == coins_view(coins@),
            first_amount(cv.skip(i as int), required@.0) == first_amount(cv, required@.0),
        decreases coins.len() - i,
    {
        proof { assert(cv.skip(i as int).drop_first() =~= cv.skip(i + 1)); }
        if coins[i].denom == required.denom {
            return coins[i].amount >= required.amount;
        }
        i = i + 1;
    }
    proof { assert(cv.skip(i as int).len() == 0); }
    false
}

} // verus!
