//! Constant-product AMM liquidity pool with per-provider LP positions and
//! swap-fee collection.

use vstd::prelude::*;
use crate::keyed::{distinct_keys, find_key, to_map, upsert, remove_key};
use crate::numeric::{isqrt_u64, sqrt_floor};

verus! {

/// Output of a constant-product swap of `amount_in` against the given reserves, and
/// the fee withheld from the input: `(out, fee)`.
pub open spec fn swap_spec(amount_in: int, reserve_in: int, reserve_out: int, fee_bps: int) -> (int, int) {
    if reserve_in == 0 || reserve_out == 0 {
        (0, 0)
    } else {
        let fee = amount_in * fee_bps / 10_000;
        let after_fee = amount_in - fee;
        (reserve_out * after_fee / (reserve_in + after_fee), fee)
    }
}

/// The swap arithmetic of [`swap_spec`] stays within 64 bits.
pub open spec fn swap_fits(amount_in: int, reserve_in: int, reserve_out: int, fee_bps: int) -> bool {
    reserve_in == 0 || reserve_out == 0 || {
        let fee = amount_in * fee_bps / 10_000;
        &&& amount_in * fee_bps <= u64::MAX
        &&& fee <= amount_in
        &&& reserve_out * (amount_in - fee) <= u64::MAX
        &&& reserve_in + (amount_in - fee) <= u64::MAX
    }
}

/// Law: a swap never decreases the product of the reserves.
pub proof fn lemma_swap_keeps_product(amount_in: int, reserve_in: int, reserve_out: int, fee_bps: int)
    requires
        amount_in >= 0,
        reserve_in > 0,
        reserve_out > 0,
        0 <= fee_bps <= 10_000,
    ensures
        (reserve_in + amount_in) * (reserve_out - swap_spec(amount_in, reserve_in, reserve_out, fee_bps).0)
            >= reserve_in * reserve_out,
{
    let fee = amount_in * fee_bps / 10_000;
    assert(0 <= fee <= amount_in) by (nonlinear_arith)
        requires amount_in >= 0, 0 <= fee_bps <= 10_000, fee == amount_in * fee_bps / 10_000;
    let x = amount_in - fee;
    let out = reserve_out * x / (reserve_in + x);
    assert(out * (reserve_in + x) <= reserve_out * x) by (nonlinear_arith)
        requires reserve_in + x > 0, out == reserve_out * x / (reserve_in + x), reserve_out * x >= 0;
    assert(out <= reserve_out) by (nonlinear_arith)
        requires out * (reserve_in + x) <= reserve_out * x, reserve_in > 0, x >= 0, reserve_out > 0;
    assert((reserve_in + x) * (reserve_out - out) >= reserve_in * reserve_out) by (nonlinear_arith)
        requires out * (reserve_in + x) <= reserve_out * x;
    assert((reserve_in + amount_in) * (reserve_out - out) >= (reserve_in + x) * (reserve_out - out))
        by (nonlinear_arith)
        requires amount_in >= x, reserve_out - out >= 0;
}

/// Pool information snapshot.
#[derive(Debug, Clone, PartialEq, Eq)]
pub struct PoolInfo {
    pub token_a: String,
    pub token_b: String,
    pub reserve_a: u64,
    pub reserve_b: u64,
    pub total_liquidity: u64,
    pub fee_percentage: u32,
}

/// Liquidity pool for off-chain simulation: reserves, LP supply, the swap fee in
/// basis points, LP balances per provider and fees collected for distribution.
#[derive(Debug)]
pub struct LiquidityPoolContract {
    /// Token A identifier.
    pub token_a: String,
    /// Token B identifier.
    pub token_b: String,
    /// Reserve of token A.
    pub reserve_a: u64,
    /// Reserve of token B.
    pub reserve_b: u64,
    /// Total LP tokens.
    pub total_liquidity: u64,
    /// Swap fee in basis points (30 = 0.3 %).
    pub fee_percentage: u32,
    lp_balances: Vec<(String, u64)>,
    collected_fees_a: u64,
    collected_fees_b: u64,
}

/// Mathematical model of a [`LiquidityPoolContract`].
pub struct PoolView {
    pub token_a: Seq<char>,
    pub token_b: Seq<char>,
    pub reserve_a: u64,
    pub reserve_b: u64,
    pub total_liquidity: u64,
    pub fee_percentage: u32,
    /// LP balance per provider.
    pub balances: Map<Seq<char>, u64>,
    /// Fees collected on token A and not yet claimed.
    pub fees_a: u64,
    /// Fees collected on token B and not yet claimed.
    pub fees_b: u64,
}

impl View for LiquidityPoolContract {
    type V = PoolView;

    closed spec fn view(&self) -> PoolView {
        PoolView {
            token_a: self.token_a@,
            token_b: self.token_b@,
            reserve_a: self.reserve_a,
            reserve_b: self.reserve_b,
            total_liquidity: self.total_liquidity,
            fee_percentage: self.fee_percentage,
            balances: to_map(self.lp_balances@),
            fees_a: self.collected_fees_a,
            fees_b: self.collected_fees_b,
        }
    }
}

/// LP balance of a provider (0 when it has none).
pub open spec fn balance_of(v: PoolView, provider: Seq<char>) -> u64 {
    if v.balances.dom().contains(provider) {
        v.balances[provider]
    } else {
        0
    }
}

/// Smaller of two values.
pub open spec fn min_int(a: int, b: int) -> int {
    if a <= b { a } else { b }
}

/// LP tokens minted for a deposit.
pub open spec fn minted(total: int, reserve_a: int, reserve_b: int, a: int, b: int, root: int) -> int {
    if total == 0 {
        root
    } else {
        min_int(a * total / reserve_a, b * total / reserve_b)
    }
}

/// A deposit can be processed without overflow or division by zero.
pub open spec fn deposit_fits(p: PoolView, provider: Seq<char>, a: int, b: int) -> bool {
    &&& (p.total_liquidity == 0 ==> a * b <= u64::MAX)
    &&& (p.total_liquidity != 0 ==> {
        &&& p.reserve_a > 0
        &&& p.reserve_b > 0
        &&& a * p.total_liquidity <= u64::MAX
        &&& b * p.total_liquidity <= u64::MAX
    })
    &&& p.reserve_a + a <= u64::MAX
    &&& p.reserve_b + b <= u64::MAX
    &&& p.total_liquidity + deposit_lp(p, a, b) <= u64::MAX
    &&& balance_of(p, provider) + deposit_lp(p, a, b) <= u64::MAX
}

/// LP tokens a deposit of `a` and `b` mints.
pub open spec fn deposit_lp(p: PoolView, a: int, b: int) -> int {
    minted(p.total_liquidity as int, p.reserve_a as int, p.reserve_b as int, a, b, sqrt_floor(a * b))
}

impl LiquidityPoolContract {
    /// Well-formedness: one LP balance per provider.
    pub closed spec fn wf(&self) -> bool {
        distinct_keys(self.lp_balances@)
    }

    /// Create an empty pool with the default 30 bps fee.
    pub fn new(token_a: String, token_b: String) -> (r: Self)
        ensures
            r.wf(),
            r@.token_a == token_a@,
            r@.token_b == token_b@,
            r@.reserve_a == 0,
            r@.reserve_b == 0,
            r@.total_liquidity == 0,
            r@.fee_percentage == 30,
            r@.balances == Map::<Seq<char>, u64>::empty(),
            r@.fees_a == 0,
            r@.fees_b == 0,
    {
        Self::new_with_fee(token_a, token_b, 30)
    }

    /// Create an empty pool with a custom fee (basis points).
    pub fn new_with_fee(token_a: String, token_b: String, fee_percentage: u32) -> (r: Self)
        ensures
            r.wf(),
            r@.token_a == token_a@,
            r@.token_b == token_b@,
            r@.reserve_a == 0,
            r@.reserve_b == 0,
            r@.total_liquidity == 0,
            r@.fee_percentage == fee_percentage,
            r@.balances == Map::<Seq<char>, u64>::empty(),
            r@.fees_a == 0,
            r@.fees_b == 0,
    {
        let r = LiquidityPoolContract {
            token_a,
            token_b,
            reserve_a: 0,
            reserve_b: 0,
            total_liquidity: 0,
            fee_percentage,
            lp_balances: Vec::new(),
            collected_fees_a: 0,
            collected_fees_b: 0,
        };
        assert(to_map(r.lp_balances@) =~= Map::<Seq<char>, u64>::empty());
        r
    }

    /// Snapshot of the pool's tokens, reserves, LP supply and fee.
    pub fn get_info(&self) -> (r: PoolInfo)
        ensures
            r.token_a@ == self@.token_a,
            r.token_b@ == self@.token_b,
            r.reserve_a == self@.reserve_a,
            r.reserve_b == self@.reserve_b,
            r.total_liquidity == self@.total_liquidity,
            r.fee_percentage == self@.fee_percentage,
    {
        PoolInfo {
            token_a: self.token_a.clone(),
            token_b: self.token_b.clone(),
            reserve_a: self.reserve_a,
            reserve_b: self.reserve_b,
            total_liquidity: self.total_liquidity,
            fee_percentage: self.fee_percentage,
        }
    }

    /// LP balance of `provider` (0 when it has none).
    pub fn lp_balance(&self, provider: &str) -> (r: u64)
        requires
            self.wf(),
        ensures
            r == balance_of(self@, provider@),
    {
        match find_key(&self.lp_balances, provider) {
            Some(i) => self.lp_balances[i].1,
            None => 0,
        }
    }

    /// Providers holding LP tokens with their balances, one pair per provider.
    pub fn positions(&self) -> (r: Vec<(String, u64)>)
        requires
            self.wf(),
        ensures
            distinct_keys(r@),
            to_map(r@) == self@.balances,
    {
        let mut out: Vec<(String, u64)> = Vec::new();
        let mut i: usize = 0;
        while i < self.lp_balances.len()
            invariant
                self.wf(),
                i <= self.lp_balances@.len(),
                out@.len() == i,
                forall|j: int| 0 <= j < i ==> #[trigger] out@[j].0@ == self.lp_balances@[j].0@
                    && out@[j].1 == self.lp_balances@[j].1,
            decreases self.lp_balances@.len() - i,
        {
            out.push((self.lp_balances[i].0.clone(), self.lp_balances[i].1));
            i = i + 1;
        }
        proof {
            assert forall|a: int, b: int| 0 <= a < out@.len() && 0 <= b < out@.len() && a != b implies out@[a].0@
                != out@[b].0@ by {
                assert(out@[a].0@ == self.lp_balances@[a].0@);
                assert(out@[b].0@ == self.lp_balances@[b].0@);
            }
            lemma_same_keys_same_map(out@, self.lp_balances@);
        }
        out
    }

    /// Add liquidity and credit the minted LP tokens to `provider`.
    ///
    /// The first deposit mints the integer square root of `amount_a * amount_b`; later
    /// deposits mint the smaller of the two proportional shares of the LP supply.
    pub fn add_liquidity(
        &mut self,
        provider: &str,
        amount_a: u64,
        amount_b: u64,
        min_amount_a: u64,
        min_amount_b: u64,
    ) -> (r: Result<u64, String>)
        requires
            old(self).wf(),
            amount_a > 0 && amount_b > 0 && amount_a >= min_amount_a && amount_b >= min_amount_b
                ==> deposit_fits(old(self)@, provider@, amount_a as int, amount_b as int),
        ensures
            final(self).wf(),
            final(self)@.token_a == old(self)@.token_a,
            final(self)@.token_b == old(self)@.token_b,
            final(self)@.fee_percentage == old(self)@.fee_percentage,
            final(self)@.fees_a == old(self)@.fees_a,
            final(self)@.fees_b == old(self)@.fees_b,
            amount_a == 0 || amount_b == 0 ==> (r matches Err(m) && m@ == "Amounts must be greater than 0"@),
            amount_a > 0 && amount_b > 0 && (amount_a < min_amount_a || amount_b < min_amount_b)
                ==> (r matches Err(m) && m@ == "Amounts below minimum threshold"@),
            r is Err ==> final(self)@.reserve_a == old(self)@.reserve_a && final(self)@.reserve_b == old(self)@.reserve_b
                && final(self)@.total_liquidity == old(self)@.total_liquidity && final(self)@.balances == old(self)@.balances,
            amount_a > 0 && amount_b > 0 && amount_a >= min_amount_a && amount_b >= min_amount_b ==> {
                let lp = deposit_lp(old(self)@, amount_a as int, amount_b as int);
                &&& lp == 0 ==> (r matches Err(m) && m@ == "Insufficient liquidity amount"@)
                &&& lp > 0 ==> {
                    &&& r == Ok::<u64, String>(lp as u64)
                    &&& final(self)@.reserve_a == old(self)@.reserve_a + amount_a
                    &&& final(self)@.reserve_b == old(self)@.reserve_b + amount_b
                    &&& final(self)@.total_liquidity == old(self)@.total_liquidity + lp
                    &&& final(self)@.balances == old(self)@.balances.insert(
                        provider@,
                        (balance_of(old(self)@, provider@) + lp) as u64,
                    )
                }
            },
    {
        if amount_a == 0 || amount_b == 0 {
            return Err(String::from_str("Amounts must be greater than 0"));
        }
        if amount_a < min_amount_a || amount_b < min_amount_b {
            return Err(String::from_str("Amounts below minimum threshold"));
        }
        let liquidity_tokens: u64 = if self.total_liquidity == 0 {
            isqrt_u64(amount_a * amount_b)
        } else {
            let la = amount_a * self.total_liquidity / self.reserve_a;
            let lb = amount_b * self.total_liquidity / self.reserve_b;
            if la <= lb { la } else { lb }
        };
        assert(liquidity_tokens == deposit_lp(self@, amount_a as int, amount_b as int));
        if liquidity_tokens == 0 {
            return Err(String::from_str("Insufficient liquidity amount"));
        }
        self.reserve_a = self.reserve_a + amount_a;
        self.reserve_b = self.reserve_b + amount_b;
        self.total_liquidity = self.total_liquidity + liquidity_tokens;
        let prev = self.lp_balance(provider);
        upsert(&mut self.lp_balances, provider, prev + liquidity_tokens);
        Ok(liquidity_tokens)
    }

    /// Remove liquidity: burn `liquidity_tokens` and pay out the proportional share of
    /// both reserves.  The provider's recorded LP balance is reduced (saturating) and
    /// dropped when it reaches zero.
    pub fn remove_liquidity(
        &mut self,
        provider: &str,
        liquidity_tokens: u64,
        min_amount_a: u64,
        min_amount_b: u64,
    ) -> (r: Result<(u64, u64), String>)
        requires
            old(self).wf(),
            0 < liquidity_tokens <= old(self)@.total_liquidity ==> liquidity_tokens * old(self)@.reserve_a
                <= u64::MAX && liquidity_tokens * old(self)@.reserve_b <= u64::MAX,
        ensures
            final(self).wf(),
            final(self)@.token_a == old(self)@.token_a,
            final(self)@.token_b == old(self)@.token_b,
            final(self)@.fee_percentage == old(self)@.fee_percentage,
            final(self)@.fees_a == old(self)@.fees_a,
            final(self)@.fees_b == old(self)@.fees_b,
            liquidity_tokens == 0 ==> (r matches Err(m) && m@
                == "Liquidity tokens must be greater than 0"@),
            liquidity_tokens > old(self)@.total_liquidity ==> (r matches Err(m) && m@
                == "Insufficient liquidity tokens"@),
            r is Err ==> final(self)@ == old(self)@,
            0 < liquidity_tokens <= old(self)@.total_liquidity ==> {
                let t = old(self)@.total_liquidity as int;
                let a = liquidity_tokens * old(self)@.reserve_a / t;
                let b = liquidity_tokens * old(self)@.reserve_b / t;
                let bal = balance_of(old(self)@, provider@);
                &&& (a < min_amount_a || b < min_amount_b) ==> (r matches Err(m) && m@
                    == "Amounts below minimum threshold"@)
                &&& !(a < min_amount_a || b < min_amount_b) ==> {
                    &&& r == Ok::<(u64, u64), String>((a as u64, b as u64))
                    &&& a <= old(self)@.reserve_a && b <= old(self)@.reserve_b
                    &&& final(self)@.reserve_a == old(self)@.reserve_a - a
                    &&& final(self)@.reserve_b == old(self)@.reserve_b - b
                    &&& final(self)@.total_liquidity == t - liquidity_tokens
                    &&& final(self)@.balances == if !old(self)@.balances.dom().contains(provider@) {
                        old(self)@.balances
                    } else if bal <= liquidity_tokens {
                        old(self)@.balances.remove(provider@)
                    } else {
                        old(self)@.balances.insert(provider@, (bal - liquidity_tokens) as u64)
                    }
                }
            },
    {
        if liquidity_tokens == 0 {
            return Err(String::from_str("Liquidity tokens must be greater than 0"));
        }
        if liquidity_tokens > self.total_liquidity {
            return Err(String::from_str("Insufficient liquidity tokens"));
        }
        let amount_a = liquidity_tokens * self.reserve_a / self.total_liquidity;
        let amount_b = liquidity_tokens * self.reserve_b / self.total_liquidity;
        if amount_a < min_amount_a || amount_b < min_amount_b {
            return Err(String::from_str("Amounts below minimum threshold"));
        }
        proof {
            assert(liquidity_tokens * self.reserve_a / self.total_liquidity as int <= self.reserve_a as int)
                by (nonlinear_arith)
                requires 0 < liquidity_tokens <= self.total_liquidity;
            assert(liquidity_tokens * self.reserve_b / self.total_liquidity as int <= self.reserve_b as int)
                by (nonlinear_arith)
                requires 0 < liquidity_tokens <= self.total_liquidity;
        }
        self.reserve_a = self.reserve_a - amount_a;
        self.reserve_b = self.reserve_b - amount_b;
        self.total_liquidity = self.total_liquidity - liquidity_tokens;
        match find_key(&self.lp_balances, provider) {
            Some(i) => {
                let bal = self.lp_balances[i].1;
                let rest = bal.saturating_sub(liquidity_tokens);
                if rest == 0 {
                    remove_key(&mut self.lp_balances, provider);
                } else {
                    upsert(&mut self.lp_balances, provider, rest);
                }
            },
            None => {},
        }
        Ok((amount_a, amount_b))
    }

    /// Swap output and fee for `amount_in` against the given reserves: the fee is
    /// `fee_percentage` basis points of the input and the rest is traded at the
    /// constant-product rate.  Both are 0 when a reserve is empty.
    fn calculate_swap_output_with_fee(&self, amount_in: u64, reserve_in: u64, reserve_out: u64) -> (r: (
        u64,
        u64,
    ))
        requires
            swap_fits(amount_in as int, reserve_in as int, reserve_out as int, self@.fee_percentage as int),
        ensures
            r.0 == swap_spec(amount_in as int, reserve_in as int, reserve_out as int, self@.fee_percentage as int).0,
            r.1 == swap_spec(amount_in as int, reserve_in as int, reserve_out as int, self@.fee_percentage as int).1,
    {
        if reserve_in == 0 || reserve_out == 0 {
            return (0, 0);
        }
        let fee_amount = amount_in * (self.fee_percentage as u64) / 10000;
        let amount_in_after_fee = amount_in - fee_amount;
        let output = reserve_out * amount_in_after_fee / (reserve_in + amount_in_after_fee);
        (output, fee_amount)
    }

    /// Swap output for `amount_in` against the given reserves, after the pool fee.
    pub fn calculate_swap_output(&self, amount_in: u64, reserve_in: u64, reserve_out: u64) -> (r: u64)
        requires
            swap_fits(amount_in as int, reserve_in as int, reserve_out as int, self@.fee_percentage as int),
        ensures
            r == swap_spec(amount_in as int, reserve_in as int, reserve_out as int, self@.fee_percentage as int).0,
    {
        self.calculate_swap_output_with_fee(amount_in, reserve_in, reserve_out).0
    }

    /// Swap token A for token B; the fee stays in the pool's A fees.
    pub fn swap_a_for_b(&mut self, amount_in: u64, min_amount_out: u64) -> (r: Result<u64, String>)
        requires
            old(self).wf(),
            amount_in > 0 ==> swap_fits(amount_in as int, old(self)@.reserve_a as int, old(self)@.reserve_b as int, old(self)@.fee_percentage as int)
                && old(self)@.reserve_a + amount_in <= u64::MAX
                && old(self)@.fees_a + amount_in <= u64::MAX,
        ensures
            final(self).wf(),
            ({
                let (out, fee) = swap_spec(amount_in as int, old(self)@.reserve_a as int, old(self)@.reserve_b as int, old(self)@.fee_percentage as int);
                &&& amount_in == 0 ==> (r matches Err(m) && m@ == "Input amount must be greater than 0"@)
                &&& amount_in > 0 && out < min_amount_out ==> (r matches Err(m) && m@ == "Insufficient output amount"@)
                &&& r is Err ==> final(self)@ == old(self)@
                &&& amount_in > 0 && out >= min_amount_out ==> {
                    &&& r == Ok::<u64, String>(out as u64)
                    &&& final(self)@ == PoolView {
                        reserve_a: (old(self)@.reserve_a + amount_in) as u64,
                        reserve_b: (old(self)@.reserve_b - out) as u64,
                        fees_a: (old(self)@.fees_a + fee) as u64,
                        ..old(self)@
                    }
                    &&& final(self)@.reserve_a * final(self)@.reserve_b >= old(self)@.reserve_a * old(self)@.reserve_b
                }
            }),
    {
        if amount_in == 0 {
            return Err(String::from_str("Input amount must be greater than 0"));
        }
        let (amount_out, fee) = self.calculate_swap_output_with_fee(amount_in, self.reserve_a, self.reserve_b);
        if amount_out < min_amount_out {
            return Err(String::from_str("Insufficient output amount"));
        }
        proof {
            Self::lemma_swap_effect(amount_in as int, self.reserve_a as int, self.reserve_b as int, self.fee_percentage as int);
        }
        self.reserve_a = self.reserve_a + amount_in;
        self.reserve_b = self.reserve_b - amount_out;
        self.collected_fees_a = self.collected_fees_a + fee;
        Ok(amount_out)
    }

    /// Swap token B for token A; the fee stays in the pool's B fees.
    pub fn swap_b_for_a(&mut self, amount_in: u64, min_amount_out: u64) -> (r: Result<u64, String>)
        requires
            old(self).wf(),
            amount_in > 0 ==> swap_fits(amount_in as int, old(self)@.reserve_b as int, old(self)@.reserve_a as int, old(self)@.fee_percentage as int)
                && old(self)@.reserve_b + amount_in <= u64::MAX
                && old(self)@.fees_b + amount_in <= u64::MAX,
        ensures
            final(self).wf(),
            ({
                let (out, fee) = swap_spec(amount_in as int, old(self)@.reserve_b as int, old(self)@.reserve_a as int, old(self)@.fee_percentage as int);
                &&& amount_in == 0 ==> (r matches Err(m) && m@ == "Input amount must be greater than 0"@)
                &&& amount_in > 0 && out < min_amount_out ==> (r matches Err(m) && m@ == "Insufficient output amount"@)
                &&& r is Err ==> final(self)@ == old(self)@
                &&& amount_in > 0 && out >= min_amount_out ==> {
                    &&& r == Ok::<u64, String>(out as u64)
                    &&& final(self)@ == PoolView {
                        reserve_b: (old(self)@.reserve_b + amount_in) as u64,
                        reserve_a: (old(self)@.reserve_a - out) as u64,
                        fees_b: (old(self)@.fees_b + fee) as u64,
                        ..old(self)@
                    }
                    &&& final(self)@.reserve_a * final(self)@.reserve_b >= old(self)@.reserve_a * old(self)@.reserve_b
                }
            }),
    {
        if amount_in == 0 {
            return Err(String::from_str("Input amount must be greater than 0"));
        }
        let (amount_out, fee) = self.calculate_swap_output_with_fee(amount_in, self.reserve_b, self.reserve_a);
        if amount_out < min_amount_out {
            return Err(String::from_str("Insufficient output amount"));
        }
        proof {
            Self::lemma_swap_effect(amount_in as int, self.reserve_b as int, self.reserve_a as int, self.fee_percentage as int);
            assert(self.reserve_a * self.reserve_b == self.reserve_b * self.reserve_a) by (nonlinear_arith);
            assert((self.reserve_b + amount_in) * (self.reserve_a - amount_out) == (self.reserve_a - amount_out) * (self.reserve_b + amount_in)) by (nonlinear_arith);
        }
        self.reserve_b = self.reserve_b + amount_in;
        self.reserve_a = self.reserve_a - amount_out;
        self.collected_fees_b = self.collected_fees_b + fee;
        Ok(amount_out)
    }

    /// What a swap does to the reserves: the output stays within the output reserve,
    /// the fee within the input, and the product of the reserves does not shrink.
    proof fn lemma_swap_effect(amount_in: int, reserve_in: int, reserve_out: int, fee_bps: int)
        requires
            amount_in >= 0,
            reserve_in >= 0,
            reserve_out >= 0,
            fee_bps >= 0,
            swap_fits(amount_in, reserve_in, reserve_out, fee_bps),
        ensures
            0 <= swap_spec(amount_in, reserve_in, reserve_out, fee_bps).0 <= reserve_out,
            0 <= swap_spec(amount_in, reserve_in, reserve_out, fee_bps).1 <= amount_in,
            (reserve_in + amount_in) * (reserve_out - swap_spec(amount_in, reserve_in, reserve_out, fee_bps).0)
                >= reserve_in * reserve_out,
    {
        if reserve_in != 0 && reserve_out != 0 {
            let fee = amount_in * fee_bps / 10_000;
            assert(fee >= 0) by (nonlinear_arith) requires amount_in >= 0, fee_bps >= 0, fee == amount_in * fee_bps / 10_000;
            let x = amount_in - fee;
            let out = reserve_out * x / (reserve_in + x);
            assert(out * (reserve_in + x) <= reserve_out * x) by (nonlinear_arith)
                requires reserve_in + x > 0, out == reserve_out * x / (reserve_in + x), reserve_out * x >= 0;
            assert(out >= 0) by (nonlinear_arith)
                requires reserve_in + x > 0, out == reserve_out * x / (reserve_in + x), reserve_out * x >= 0;
            assert(out <= reserve_out) by (nonlinear_arith)
                requires out * (reserve_in + x) <= reserve_out * x, reserve_in > 0, x >= 0, reserve_out > 0;
            assert((reserve_in + x) * (reserve_out - out) >= reserve_in * reserve_out) by (nonlinear_arith)
                requires out * (reserve_in + x) <= reserve_out * x;
            assert((reserve_in + amount_in) * (reserve_out - out) >= (reserve_in + x) * (reserve_out - out))
                by (nonlinear_arith)
                requires amount_in >= x, reserve_out - out >= 0;
        } else {
            assert((reserve_in + amount_in) * reserve_out >= reserve_in * reserve_out) by (nonlinear_arith)
                requires amount_in >= 0, reserve_out >= 0;
        }
    }

    /// Pay `provider` its share of the collected fees, in proportion to its LP balance.
    ///
    /// A share whose product with the balance overflows 64 bits is paid as 0.
    pub fn claim_fees(&mut self, provider: &str) -> (r: Result<(u64, u64), String>)
        requires
            old(self).wf(),
        ensures
            final(self).wf(),
            ({
                let bal = balance_of(old(self)@, provider@);
                let t = old(self)@.total_liquidity as int;
                let fa = old(self)@.fees_a as int;
                let fb = old(self)@.fees_b as int;
                let sa = if fa * bal > u64::MAX { 0 } else { fa * bal / t };
                let sb = if fb * bal > u64::MAX { 0 } else { fb * bal / t };
                &&& bal == 0 ==> (r matches Err(m) && m@ == "No liquidity position found"@)
                &&& bal > 0 && t == 0 ==> (r matches Err(m) && m@ == "Pool has no liquidity"@)
                &&& r is Err ==> final(self)@ == old(self)@
                &&& bal > 0 && t > 0 ==> {
                    &&& r == Ok::<(u64, u64), String>((sa as u64, sb as u64))
                    &&& final(self)@ == PoolView {
                        fees_a: if sa <= fa { (fa - sa) as u64 } else { 0 },
                        fees_b: if sb <= fb { (fb - sb) as u64 } else { 0 },
                        ..old(self)@
                    }
                }
            }),
    {
        let balance = self.lp_balance(provider);
        if balance == 0 {
            return Err(String::from_str("No liquidity position found"));
        }
        if self.total_liquidity == 0 {
            return Err(String::from_str("Pool has no liquidity"));
        }
        let fee_share_a = match self.collected_fees_a.checked_mul(balance) {
            Some(p) => p / self.total_liquidity,
            None => 0,
        };
        let fee_share_b = match self.collected_fees_b.checked_mul(balance) {
            Some(p) => p / self.total_liquidity,
            None => 0,
        };
        self.collected_fees_a = self.collected_fees_a.saturating_sub(fee_share_a);
        self.collected_fees_b = self.collected_fees_b.saturating_sub(fee_share_b);
        Ok((fee_share_a, fee_share_b))
    }

    /// Fees collected on token A and on token B, pending distribution.
    pub fn get_collected_fees(&self) -> (r: (u64, u64))
        ensures
            r == (self@.fees_a, self@.fees_b),
    {
        (self.collected_fees_a, self.collected_fees_b)
    }

    /// Output of a swap of `amount_in` of `token_in`, without executing it.
    pub fn simulate_swap(&self, token_in: &str, amount_in: u64) -> (r: Result<u64, String>)
        requires
            amount_in > 0 ==> swap_fits(amount_in as int, self@.reserve_a as int, self@.reserve_b as int, self@.fee_percentage as int)
                && swap_fits(amount_in as int, self@.reserve_b as int, self@.reserve_a as int, self@.fee_percentage as int),
        ensures
            amount_in == 0 ==> (r matches Err(m) && m@ == "Input amount must be greater than 0"@),
            amount_in > 0 && token_in@ == self@.token_a ==> r == Ok::<u64, String>(
                swap_spec(amount_in as int, self@.reserve_a as int, self@.reserve_b as int, self@.fee_percentage as int).0 as u64),
            amount_in > 0 && token_in@ != self@.token_a && token_in@ == self@.token_b ==> r == Ok::<u64, String>(
                swap_spec(amount_in as int, self@.reserve_b as int, self@.reserve_a as int, self@.fee_percentage as int).0 as u64),
            amount_in > 0 && token_in@ != self@.token_a && token_in@ != self@.token_b ==> (r matches Err(m) && m@ == "Invalid token"@),
    {
        if amount_in == 0 {
            return Err(String::from_str("Input amount must be greater than 0"));
        }
        let t = String::from_str(token_in);
        if t == self.token_a {
            Ok(self.calculate_swap_output(amount_in, self.reserve_a, self.reserve_b))
        } else if t == self.token_b {
            Ok(self.calculate_swap_output(amount_in, self.reserve_b, self.reserve_a))
        } else {
            Err(String::from_str("Invalid token"))
        }
    }
}

proof fn lemma_same_keys_same_map(a: Seq<(String, u64)>, b: Seq<(String, u64)>)
    requires
        a.len() == b.len(),
        forall|j: int| 0 <= j < a.len() ==> #[trigger] a[j].0@ == b[j].0@ && a[j].1 == b[j].1,
    ensures
        to_map(a) == to_map(b),
    decreases a.len(),
{
    if a.len() > 0 {
        lemma_same_keys_same_map(a.drop_last(), b.drop_last());
        assert(a.last().0@ == b.last().0@);
    }
}

/// Fee of a contract swap: `amount_in * fee_bps / 10 000`, or 0 when the product
/// overflows.
pub open spec fn contract_swap_fee(amount_in: u64, fee_bps: u32) -> u64 {
    if amount_in * fee_bps > u64::MAX {
        0
    } else {
        (amount_in * fee_bps / 10_000) as u64
    }
}

/// Output and fee of a contract swap against reserves `reserve_in` and
/// `reserve_out` (nothing when a reserve is empty); the output is 0 when
/// `reserve_out` times the input after fee overflows.
pub open spec fn contract_swap(amount_in: u64, reserve_in: u64, reserve_out: u64, fee_bps: u32) -> (u64, u64) {
    if reserve_in == 0 || reserve_out == 0 {
        (0, 0)
    } else {
        let fee = contract_swap_fee(amount_in, fee_bps);
        let after = amount_in - fee;
        let out = if reserve_out * after > u64::MAX { 0 } else { (reserve_out * after / (reserve_in + after)) as u64 };
        (out, fee)
    }
}

/// Errors of the on-chain pool.
#[derive(Clone, Copy, Debug, PartialEq, Eq, Structural)]
pub enum PoolContractError {
    AlreadyInitialized,
    InvalidAmount,
    InsufficientLiquidity,
    SlippageExceeded,
    NoPosition,
}

/// Mathematical model of the on-chain pool's storage.
pub struct ChainPoolView {
    pub initialized: bool,
    pub token_a: Option<Seq<char>>,
    pub token_b: Option<Seq<char>>,
    /// Fee in basis points, once set.
    pub fee_bps: Option<u32>,
    pub reserve_a: u64,
    pub reserve_b: u64,
    pub total_liquidity: u64,
    pub fees_a: u64,
    pub fees_b: u64,
    /// LP balance of each provider.
    pub balances: Map<Seq<char>, u64>,
}

/// The on-chain pool: an AMM with fee collection and LP positions per provider.
/// Before initialization its amounts read as 0 and its fee as 30 basis points.
pub struct LiquidityPool {
    initialized: bool,
    token_a: Option<String>,
    token_b: Option<String>,
    fee_bps: Option<u32>,
    reserve_a: u64,
    reserve_b: u64,
    total_liquidity: u64,
    fees_a: u64,
    fees_b: u64,
    balances: Vec<(String, u64)>,
}

/// The view of an optional string.
pub open spec fn opt_view(o: Option<String>) -> Option<Seq<char>> {
    match o {
        Some(s) => Some(s@),
        None => None,
    }
}

impl View for LiquidityPool {
    type V = ChainPoolView;

    closed spec fn view(&self) -> ChainPoolView {
        ChainPoolView {
            initialized: self.initialized,
            token_a: opt_view(self.token_a),
            token_b: opt_view(self.token_b),
            fee_bps: self.fee_bps,
            reserve_a: self.reserve_a,
            reserve_b: self.reserve_b,
            total_liquidity: self.total_liquidity,
            fees_a: self.fees_a,
            fees_b: self.fees_b,
            balances: to_map(self.balances@),
        }
    }
}

/// The fee in force (30 basis points until one is set).
pub open spec fn fee_in_force(v: ChainPoolView) -> u32 {
    match v.fee_bps {
        Some(f) => f,
        None => 30,
    }
}

/// LP balance of a provider (0 without a position).
pub open spec fn lp_of(v: ChainPoolView, provider: Seq<char>) -> u64 {
    if v.balances.dom().contains(provider) { v.balances[provider] } else { 0 }
}

/// `a * b`, or 0 when it overflows.
pub open spec fn mul_or_zero(a: u64, b: u64) -> u64 {
    if a * b > u64::MAX { 0 } else { (a * b) as u64 }
}

/// LP tokens minted for a deposit: the integer square root of the product (0
/// when it overflows) for the first, else the smaller proportional share.
pub open spec fn chain_deposit_lp(v: ChainPoolView, amount_a: u64, amount_b: u64) -> u64 {
    if v.total_liquidity == 0 {
        sqrt_floor(mul_or_zero(amount_a, amount_b) as int) as u64
    } else {
        let la = mul_or_zero(amount_a, v.total_liquidity) / v.reserve_a;
        let lb = mul_or_zero(amount_b, v.total_liquidity) / v.reserve_b;
        if la <= lb { la } else { lb }
    }
}

/// A swap's arithmetic stays within `u64`: the fee does not exceed the input,
/// and the new input reserve and collected fees fit.
pub open spec fn chain_swap_fits(v: ChainPoolView, a_for_b: bool, amount_in: u64) -> bool {
    let (rin, rout) = if a_for_b { (v.reserve_a, v.reserve_b) } else { (v.reserve_b, v.reserve_a) };
    let fee = contract_swap_fee(amount_in, fee_in_force(v));
    &&& (rin == 0 || rout == 0 || (fee <= amount_in && rin + (amount_in - fee) <= u64::MAX))
    &&& rin + amount_in <= u64::MAX
    &&& (if a_for_b { v.fees_a } else { v.fees_b }) + fee <= u64::MAX
}

/// The outcome `r` and pool `w` of a swap on pool `v`.
pub open spec fn swap_outcome(
    v: ChainPoolView,
    a_for_b: bool,
    amount_in: u64,
    min_out: u64,
    r: Result<u64, PoolContractError>,
    w: ChainPoolView,
) -> bool {
    let (rin, rout) = if a_for_b { (v.reserve_a, v.reserve_b) } else { (v.reserve_b, v.reserve_a) };
    let (out, fee) = contract_swap(amount_in, rin, rout, fee_in_force(v));
    if amount_in == 0 {
        r == Err::<u64, PoolContractError>(PoolContractError::InvalidAmount) && w == v
    } else if out < min_out {
        r == Err::<u64, PoolContractError>(PoolContractError::SlippageExceeded) && w == v
    } else if a_for_b {
        r == Ok::<u64, PoolContractError>(out) && w == (ChainPoolView {
            reserve_a: (v.reserve_a + amount_in) as u64,
            reserve_b: (v.reserve_b - out) as u64,
            fees_a: (v.fees_a + fee) as u64,
            ..v
        })
    } else {
        r == Ok::<u64, PoolContractError>(out) && w == (ChainPoolView {
            reserve_b: (v.reserve_b + amount_in) as u64,
            reserve_a: (v.reserve_a - out) as u64,
            fees_b: (v.fees_b + fee) as u64,
            ..v
        })
    }
}

impl LiquidityPool {
    /// Output and fee of swapping `amount_in` against the given reserves.
    pub fn compute_swap(amount_in: u64, reserve_in: u64, reserve_out: u64, fee_bps: u32) -> (r: (u64, u64))
        requires
            reserve_in == 0 || reserve_out == 0 || (contract_swap_fee(amount_in, fee_bps) <= amount_in && reserve_in + (
            amount_in - contract_swap_fee(amount_in, fee_bps)) <= u64::MAX),
        ensures
            r == contract_swap(amount_in, reserve_in, reserve_out, fee_bps),
    {
        if reserve_in == 0 || reserve_out == 0 {
            return (0, 0);
        }
        let fee: u64 = match amount_in.checked_mul(fee_bps as u64) {
            Some(p) => p / 10_000,
            None => 0,
        };
        let after_fee = amount_in - fee;
        let out: u64 = match reserve_out.checked_mul(after_fee) {
            Some(p) => p / (reserve_in + after_fee),
            None => 0,
        };
        (out, fee)
    }

    /// Both reserves are positive while liquidity is outstanding, and there is
    /// one balance per provider.
    pub closed spec fn wf(&self) -> bool {
        &&& distinct_keys(self.balances@)
        &&& self.total_liquidity > 0 ==> self.reserve_a > 0 && self.reserve_b > 0
    }

    /// A pool that has not been initialized.
    pub fn new() -> (r: Self)
        ensures
            r.wf(),
            r@ == (ChainPoolView {
                initialized: false,
                token_a: None,
                token_b: None,
                fee_bps: None,
                reserve_a: 0,
                reserve_b: 0,
                total_liquidity: 0,
                fees_a: 0,
                fees_b: 0,
                balances: Map::empty(),
            }),
    {
        let r = LiquidityPool {
            initialized: false,
            token_a: None,
            token_b: None,
            fee_bps: None,
            reserve_a: 0,
            reserve_b: 0,
            total_liquidity: 0,
            fees_a: 0,
            fees_b: 0,
            balances: Vec::new(),
        };
        proof {
            assert(to_map(r.balances@) =~= Map::<Seq<char>, u64>::empty());
        }
        r
    }

    /// Set the token pair and fee and zero the reserves, liquidity and fees;
    /// only once.
    pub fn initialize(&mut self, token_a: &str, token_b: &str, fee_bps: u32) -> (r: Result<(), PoolContractError>)
        requires
            old(self).wf(),
        ensures
            final(self).wf(),
            old(self)@.initialized ==> r == Err::<(), PoolContractError>(PoolContractError::AlreadyInitialized)
                && final(self)@ == old(self)@,
            !old(self)@.initialized ==> r is Ok && final(self)@ == (ChainPoolView {
                initialized: true,
                token_a: Some(token_a@),
                token_b: Some(token_b@),
                fee_bps: Some(fee_bps),
                reserve_a: 0,
                reserve_b: 0,
                total_liquidity: 0,
                fees_a: 0,
                fees_b: 0,
                ..old(self)@
            }),
    {
        if self.initialized {
            return Err(PoolContractError::AlreadyInitialized);
        }
        self.token_a = Some(String::from_str(token_a));
        self.token_b = Some(String::from_str(token_b));
        self.fee_bps = Some(fee_bps);
        self.reserve_a = 0;
        self.reserve_b = 0;
        self.total_liquidity = 0;
        self.fees_a = 0;
        self.fees_b = 0;
        self.initialized = true;
        Ok(())
    }

    /// LP balance of a provider.
    pub fn get_position(&self, provider: &str) -> (r: u64)
        requires
            self.wf(),
        ensures
            r == lp_of(self@, provider@),
    {
        match find_key(&self.balances, provider) {
            Some(i) => self.balances[i].1,
            None => 0,
        }
    }

    /// Fees collected in each token.
    pub fn get_collected_fees(&self) -> (r: (u64, u64))
        ensures
            r == (self@.fees_a, self@.fees_b),
    {
        (self.fees_a, self.fees_b)
    }

    /// Deposit both tokens and credit the minted LP tokens to `provider`.
    pub fn add_liquidity(&mut self, provider: &str, amount_a: u64, amount_b: u64) -> (r: Result<
        u64,
        PoolContractError,
    >)
        requires
            old(self).wf(),
            old(self)@.reserve_a + amount_a <= u64::MAX,
            old(self)@.reserve_b + amount_b <= u64::MAX,
            old(self)@.total_liquidity + chain_deposit_lp(old(self)@, amount_a, amount_b) <= u64::MAX,
            lp_of(old(self)@, provider@) + chain_deposit_lp(old(self)@, amount_a, amount_b) <= u64::MAX,
        ensures
            final(self).wf(),
            (amount_a == 0 || amount_b == 0 || chain_deposit_lp(old(self)@, amount_a, amount_b) == 0) ==> r == Err::<
                u64,
                PoolContractError,
            >(PoolContractError::InvalidAmount) && final(self)@ == old(self)@,
            !(amount_a == 0 || amount_b == 0 || chain_deposit_lp(old(self)@, amount_a, amount_b) == 0) ==> {
                let lp = chain_deposit_lp(old(self)@, amount_a, amount_b);
                &&& r == Ok::<u64, PoolContractError>(lp)
                &&& final(self)@ == (ChainPoolView {
                    reserve_a: (old(self)@.reserve_a + amount_a) as u64,
                    reserve_b: (old(self)@.reserve_b + amount_b) as u64,
                    total_liquidity: (old(self)@.total_liquidity + lp) as u64,
                    balances: old(self)@.balances.insert(provider@, (lp_of(old(self)@, provider@) + lp) as u64),
                    ..old(self)@
                })
            },
    {
        if amount_a == 0 || amount_b == 0 {
            return Err(PoolContractError::InvalidAmount);
        }
        let lp_tokens: u64 = if self.total_liquidity == 0 {
            let product: u64 = match amount_a.checked_mul(amount_b) {
                Some(p) => p,
                None => 0,
            };
            isqrt_u64(product)
        } else {
            let la: u64 = match amount_a.checked_mul(self.total_liquidity) {
                Some(p) => p,
                None => 0,
            } / self.reserve_a;
            let lb: u64 = match amount_b.checked_mul(self.total_liquidity) {
                Some(p) => p,
                None => 0,
            } / self.reserve_b;
            if la <= lb {
                la
            } else {
                lb
            }
        };
        if lp_tokens == 0 {
            return Err(PoolContractError::InvalidAmount);
        }
        self.reserve_a = self.reserve_a + amount_a;
        self.reserve_b = self.reserve_b + amount_b;
        self.total_liquidity = self.total_liquidity + lp_tokens;
        let prev = self.get_position(provider);
        upsert(&mut self.balances, provider, prev + lp_tokens);
        Ok(lp_tokens)
    }

    /// Burn `lp_tokens` and pay out the proportional share of both reserves (0
    /// of a reserve when the product overflows); the provider's balance falls,
    /// not below 0.
    pub fn remove_liquidity(&mut self, provider: &str, lp_tokens: u64) -> (r: Result<(u64, u64), PoolContractError>)
        requires
            old(self).wf(),
        ensures
            final(self).wf(),
            lp_tokens == 0 ==> r == Err::<(u64, u64), PoolContractError>(PoolContractError::InvalidAmount) && final(
                self)@ == old(self)@,
            lp_tokens > 0 && lp_tokens > old(self)@.total_liquidity ==> r == Err::<(u64, u64), PoolContractError>(
                PoolContractError::InsufficientLiquidity,
            ) && final(self)@ == old(self)@,
            0 < lp_tokens <= old(self)@.total_liquidity ==> {
                let out_a = mul_or_zero(lp_tokens, old(self)@.reserve_a) / old(self)@.total_liquidity;
                let out_b = mul_or_zero(lp_tokens, old(self)@.reserve_b) / old(self)@.total_liquidity;
                let bal = lp_of(old(self)@, provider@);
                &&& r == Ok::<(u64, u64), PoolContractError>((out_a, out_b))
                &&& final(self)@ == (ChainPoolView {
                    reserve_a: (old(self)@.reserve_a - out_a) as u64,
                    reserve_b: (old(self)@.reserve_b - out_b) as u64,
                    total_liquidity: (old(self)@.total_liquidity - lp_tokens) as u64,
                    balances: old(self)@.balances.insert(provider@, if bal >= lp_tokens { (bal - lp_tokens) as u64 } else { 0 }),
                    ..old(self)@
                })
            },
    {
        if lp_tokens == 0 {
            return Err(PoolContractError::InvalidAmount);
        }
        if lp_tokens > self.total_liquidity {
            return Err(PoolContractError::InsufficientLiquidity);
        }
        let amount_a: u64 = match lp_tokens.checked_mul(self.reserve_a) {
            Some(p) => p,
            None => 0,
        } / self.total_liquidity;
        let amount_b: u64 = match lp_tokens.checked_mul(self.reserve_b) {
            Some(p) => p,
            None => 0,
        } / self.total_liquidity;
        proof {
            assert(amount_a <= self.reserve_a && (lp_tokens < self.total_liquidity && self.reserve_a > 0 ==> amount_a
                < self.reserve_a)) by (nonlinear_arith)
                requires
                    amount_a == mul_or_zero(lp_tokens, self.reserve_a) / self.total_liquidity,
                    lp_tokens <= self.total_liquidity,
                    self.total_liquidity > 0,
            {
                if lp_tokens * self.reserve_a <= u64::MAX {
                    assert(lp_tokens * self.reserve_a <= self.total_liquidity * self.reserve_a);
                    if lp_tokens < self.total_liquidity && self.reserve_a > 0 {
                        assert(lp_tokens * self.reserve_a < self.total_liquidity * self.reserve_a);
                    }
                }
            }
            assert(amount_b <= self.reserve_b && (lp_tokens < self.total_liquidity && self.reserve_b > 0 ==> amount_b
                < self.reserve_b)) by (nonlinear_arith)
                requires
                    amount_b == mul_or_zero(lp_tokens, self.reserve_b) / self.total_liquidity,
                    lp_tokens <= self.total_liquidity,
                    self.total_liquidity > 0,
            {
                if lp_tokens * self.reserve_b <= u64::MAX {
                    assert(lp_tokens * self.reserve_b <= self.total_liquidity * self.reserve_b);
                    if lp_tokens < self.total_liquidity && self.reserve_b > 0 {
                        assert(lp_tokens * self.reserve_b < self.total_liquidity * self.reserve_b);
                    }
                }
            }
        }
        self.reserve_a = self.reserve_a - amount_a;
        self.reserve_b = self.reserve_b - amount_b;
        self.total_liquidity = self.total_liquidity - lp_tokens;
        let prev = self.get_position(provider);
        upsert(&mut self.balances, provider, prev.saturating_sub(lp_tokens));
        Ok((amount_a, amount_b))
    }

    /// Swap `amount_in` of one token for the other at the fee in force,
    /// refusing an output below `min_out`; the fee is collected in the input
    /// token.
    fn swap(&mut self, a_for_b: bool, amount_in: u64, min_out: u64) -> (r: Result<u64, PoolContractError>)
        requires
            old(self).wf(),
            chain_swap_fits(old(self)@, a_for_b, amount_in),
        ensures
            final(self).wf(),
            swap_outcome(old(self)@, a_for_b, amount_in, min_out, r, final(self)@),
    {
        if amount_in == 0 {
            return Err(PoolContractError::InvalidAmount);
        }
        let fee_bps = match self.fee_bps {
            Some(f) => f,
            None => 30,
        };
        let (reserve_in, reserve_out) = if a_for_b {
            (self.reserve_a, self.reserve_b)
        } else {
            (self.reserve_b, self.reserve_a)
        };
        let (amount_out, fee) = Self::compute_swap(amount_in, reserve_in, reserve_out, fee_bps);
        if amount_out < min_out {
            return Err(PoolContractError::SlippageExceeded);
        }
        proof {
            if reserve_in > 0 && reserve_out > 0 {
                let after = (amount_in - fee) as int;
                assert(amount_out < reserve_out) by (nonlinear_arith)
                    requires
                        amount_out == (if reserve_out * after > u64::MAX { 0 } else { (reserve_out * after / (
                        reserve_in + after)) as u64 }),
                        reserve_in > 0,
                        reserve_out > 0,
                        after >= 0,
                {
                    if reserve_out * after <= u64::MAX {
                        assert(reserve_out * after < reserve_out * (reserve_in + after));
                    }
                }
            }
        }
        if a_for_b {
            self.reserve_a = self.reserve_a + amount_in;
            self.reserve_b = self.reserve_b - amount_out;
            self.fees_a = self.fees_a + fee;
        } else {
            self.reserve_b = self.reserve_b + amount_in;
            self.reserve_a = self.reserve_a - amount_out;
            self.fees_b = self.fees_b + fee;
        }
        Ok(amount_out)
    }

    /// Swap token A for token B.
    pub fn swap_a_for_b(&mut self, amount_in: u64, min_out: u64) -> (r: Result<u64, PoolContractError>)
        requires
            old(self).wf(),
            chain_swap_fits(old(self)@, true, amount_in),
        ensures
            final(self).wf(),
            swap_outcome(old(self)@, true, amount_in, min_out, r, final(self)@),
    {
        self.swap(true, amount_in, min_out)
    }

    /// Swap token B for token A.
    pub fn swap_b_for_a(&mut self, amount_in: u64, min_out: u64) -> (r: Result<u64, PoolContractError>)
        requires
            old(self).wf(),
            chain_swap_fits(old(self)@, false, amount_in),
        ensures
            final(self).wf(),
            swap_outcome(old(self)@, false, amount_in, min_out, r, final(self)@),
    {
        self.swap(false, amount_in, min_out)
    }

    /// Pay `provider` its share of the collected fees, proportional to its LP
    /// balance (0 of a token when the product overflows).
    pub fn claim_fees(&mut self, provider: &str) -> (r: Result<(u64, u64), PoolContractError>)
        requires
            old(self).wf(),
        ensures
            final(self).wf(),
            lp_of(old(self)@, provider@) == 0 ==> r == Err::<(u64, u64), PoolContractError>(
                PoolContractError::NoPosition,
            ) && final(self)@ == old(self)@,
            lp_of(old(self)@, provider@) > 0 && old(self)@.total_liquidity == 0 ==> r == Err::<
                (u64, u64),
                PoolContractError,
            >(PoolContractError::InsufficientLiquidity) && final(self)@ == old(self)@,
            lp_of(old(self)@, provider@) > 0 && old(self)@.total_liquidity > 0 ==> {
                let bal = lp_of(old(self)@, provider@);
                let share_a = mul_or_zero(old(self)@.fees_a, bal) / old(self)@.total_liquidity;
                let share_b = mul_or_zero(old(self)@.fees_b, bal) / old(self)@.total_liquidity;
                &&& r == Ok::<(u64, u64), PoolContractError>((share_a, share_b))
                &&& final(self)@ == (ChainPoolView {
                    fees_a: if old(self)@.fees_a >= share_a { (old(self)@.fees_a - share_a) as u64 } else { 0 },
                    fees_b: if old(self)@.fees_b >= share_b { (old(self)@.fees_b - share_b) as u64 } else { 0 },
                    ..old(self)@
                })
            },
    {
        let balance = self.get_position(provider);
        if balance == 0 {
            return Err(PoolContractError::NoPosition);
        }
        if self.total_liquidity == 0 {
            return Err(PoolContractError::InsufficientLiquidity);
        }
        let share_a: u64 = match self.fees_a.checked_mul(balance) {
            Some(p) => p,
            None => 0,
        } / self.total_liquidity;
        let share_b: u64 = match self.fees_b.checked_mul(balance) {
            Some(p) => p,
            None => 0,
        } / self.total_liquidity;
        self.fees_a = self.fees_a.saturating_sub(share_a);
        self.fees_b = self.fees_b.saturating_sub(share_b);
        Ok((share_a, share_b))
    }
}

} // verus!
