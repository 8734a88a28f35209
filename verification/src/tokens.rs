//! Token ledgers: a basic token, a pausable token whose transfers pass through
//! registered hooks, and the storage of a pool's LP token balances.
//!
//! Balances are kept per address, an absent address holding 0.  A refused
//! operation reports the reason and leaves the ledger unchanged.

use vstd::prelude::*;
use crate::keyed::{distinct_keys, find_key, lemma_push, lemma_to_map_value, lemma_update, remove_key, to_map, upsert};

verus! {

/// Most hooks of one kind a pausable token accepts.
pub const MAX_HOOKS: usize = 10;

/// Sum of the values of a balance table.
pub open spec fn sum_values(s: Seq<(String, i128)>) -> int
    decreases s.len(),
{
    if s.len() == 0 {
        0
    } else {
        sum_values(s.drop_last()) + s.last().1
    }
}

/// Every value of a balance table is non-negative.
pub open spec fn all_nonneg(s: Seq<(String, i128)>) -> bool {
    forall|i: int| 0 <= i < s.len() ==> #[trigger] s[i].1 >= 0
}

/// The balance of `k` in a balance map (0 when absent).
pub open spec fn bal(m: Map<Seq<char>, i128>, k: Seq<char>) -> i128 {
    if m.dom().contains(k) {
        m[k]
    } else {
        0
    }
}

proof fn lemma_sum_update(s: Seq<(String, i128)>, i: int, x: (String, i128))
    requires
        0 <= i < s.len(),
    ensures
        sum_values(s.update(i, x)) == sum_values(s) - s[i].1 + x.1,
    decreases s.len(),
{
    let t = s.update(i, x);
    if i == s.len() - 1 {
        assert(t.drop_last() =~= s.drop_last());
    } else {
        assert(t.drop_last() =~= s.drop_last().update(i, x));
        lemma_sum_update(s.drop_last(), i, x);
    }
}

proof fn lemma_value_le_sum(s: Seq<(String, i128)>, i: int)
    requires
        0 <= i < s.len(),
        all_nonneg(s),
    ensures
        s[i].1 <= sum_values(s),
        sum_values(s) >= 0,
    decreases s.len(),
{
    lemma_sum_nonneg(s.drop_last());
    if i < s.len() - 1 {
        lemma_value_le_sum(s.drop_last(), i);
    }
}

proof fn lemma_sum_nonneg(s: Seq<(String, i128)>)
    requires
        all_nonneg(s),
    ensures
        sum_values(s) >= 0,
    decreases s.len(),
{
    if s.len() > 0 {
        lemma_sum_nonneg(s.drop_last());
    }
}

/// The balance stored for `k` (0 when absent).
fn balance_of(v: &Vec<(String, i128)>, k: &str) -> (r: i128)
    requires
        distinct_keys(v@),
    ensures
        r == bal(to_map(v@), k@),
{
    match find_key(v, k) {
        Some(i) => v[i].1,
        None => 0,
    }
}

/// Store `val` as the balance of `k`.
fn set_balance(v: &mut Vec<(String, i128)>, k: &str, val: i128)
    requires
        distinct_keys(old(v)@),
    ensures
        distinct_keys(final(v)@),
        to_map(final(v)@) == to_map(old(v)@).insert(k@, val),
        sum_values(final(v)@) == sum_values(old(v)@) - bal(to_map(old(v)@), k@) + val,
        all_nonneg(old(v)@) && val >= 0 ==> all_nonneg(final(v)@),
{
    let key = String::from_str(k);
    match find_key(v, k) {
        Some(i) => {
            proof {
                lemma_update(v@, i as int, key, val);
                lemma_sum_update(v@, i as int, (key, val));
            }
            v.set(i, (key, val));
        },
        None => {
            proof {
                lemma_push(v@, key, val);
                assert(v@.push((key, val)).drop_last() =~= v@);
            }
            v.push((key, val));
        },
    }
}

/// `r` is the error with text `msg`.
pub open spec fn refused(r: Result<(), String>, msg: Seq<char>) -> bool {
    r matches Err(e) && e@ == msg
}

// ─── Basic token ──────────────────────────────────────────────────────────────

/// Mathematical model of a [`SorobanTokenContract`].
pub struct TokenView {
    pub admin: Option<Seq<char>>,
    pub total_supply: i128,
    pub balances: Map<Seq<char>, i128>,
}

/// A token with an admin who mints; anyone moves their own balance.
pub struct SorobanTokenContract {
    admin: Option<String>,
    total_supply: i128,
    balances: Vec<(String, i128)>,
}

impl View for SorobanTokenContract {
    type V = TokenView;

    closed spec fn view(&self) -> TokenView {
        TokenView {
            admin: match self.admin {
                Some(a) => Some(a@),
                None => None,
            },
            total_supply: self.total_supply,
            balances: to_map(self.balances@),
        }
    }
}

impl Default for SorobanTokenContract {
    /// A token that has not been initialized.
    fn default() -> (r: Self)
        ensures
            r.wf(),
            r@.admin is None,
            r@.total_supply == 0,
            r@.balances == Map::<Seq<char>, i128>::empty(),
    {
        let r = SorobanTokenContract { admin: None, total_supply: 0, balances: Vec::new() };
        proof {
            assert(to_map(r.balances@) =~= Map::<Seq<char>, i128>::empty());
        }
        r
    }
}

impl SorobanTokenContract {
    /// One balance per address.
    pub closed spec fn wf(&self) -> bool {
        distinct_keys(self.balances@)
    }

    /// Sum of all balances.
    pub closed spec fn balance_sum(&self) -> int {
        sum_values(self.balances@)
    }

    /// Set the admin and the supply, credited to the admin.  Nothing prevents a
    /// second call, which resets both.
    pub fn initialize(&mut self, admin: &str, supply: i128)
        requires
            old(self).wf(),
        ensures
            final(self).wf(),
            final(self)@ == (TokenView {
                admin: Some(admin@),
                total_supply: supply,
                balances: old(self)@.balances.insert(admin@, supply),
            }),
    {
        self.admin = Some(String::from_str(admin));
        self.total_supply = supply;
        set_balance(&mut self.balances, admin, supply);
    }

    /// Balance of an address.
    pub fn balance(&self, owner: &str) -> (r: i128)
        requires
            self.wf(),
        ensures
            r == bal(self@.balances, owner@),
    {
        balance_of(&self.balances, owner)
    }

    /// Recorded total supply.
    pub fn total_supply(&self) -> (r: i128)
        ensures
            r == self@.total_supply,
    {
        self.total_supply
    }

    /// Move `amount` (positive, at most the balance of `from`) to `to`.  The
    /// balance of `to` is read before `from` is debited, so a transfer to oneself
    /// credits the amount once more.
    pub fn transfer(&mut self, from: &str, to: &str, amount: i128) -> (r: Result<(), String>)
        requires
            old(self).wf(),
            bal(old(self)@.balances, to@) + amount <= i128::MAX,
        ensures
            final(self).wf(),
            amount <= 0 ==> refused(r, "amount must be positive"@) && final(self)@ == old(self)@,
            amount > 0 && bal(old(self)@.balances, from@) < amount ==> refused(r, "insufficient balance"@)
                && final(self)@ == old(self)@,
            amount > 0 && bal(old(self)@.balances, from@) >= amount ==> r is Ok && final(self)@ == (TokenView {
                balances: old(self)@.balances.insert(
                    from@,
                    (bal(old(self)@.balances, from@) - amount) as i128,
                ).insert(to@, (bal(old(self)@.balances, to@) + amount) as i128),
                ..old(self)@
            }),
            r is Ok && from@ != to@ ==> final(self).balance_sum() == old(self).balance_sum(),
    {
        proof {
            reveal_strlit("amount must be positive");
            reveal_strlit("insufficient balance");
        }
        if amount <= 0 {
            return Err(String::from_str("amount must be positive"));
        }
        let from_balance = balance_of(&self.balances, from);
        if from_balance < amount {
            return Err(String::from_str("insufficient balance"));
        }
        let to_balance = balance_of(&self.balances, to);
        set_balance(&mut self.balances, from, from_balance - amount);
        set_balance(&mut self.balances, to, to_balance + amount);
        Ok(())
    }

    /// Credit `amount` to `to` and the supply (admin only).
    pub fn mint(&mut self, admin: &str, to: &str, amount: i128) -> (r: Result<(), String>)
        requires
            old(self).wf(),
            old(self)@.admin is Some,
            i128::MIN <= bal(old(self)@.balances, to@) + amount <= i128::MAX,
            i128::MIN <= old(self)@.total_supply + amount <= i128::MAX,
        ensures
            final(self).wf(),
            old(self)@.admin != Some(admin@) ==> refused(r, "unauthorized"@) && final(self)@ == old(self)@,
            old(self)@.admin == Some(admin@) ==> r is Ok && final(self)@ == (TokenView {
                total_supply: (old(self)@.total_supply + amount) as i128,
                balances: old(self)@.balances.insert(to@, (bal(old(self)@.balances, to@) + amount) as i128),
                ..old(self)@
            }),
    {
        proof {
            reveal_strlit("unauthorized");
        }
        let who = String::from_str(admin);
        let authorized = match &self.admin {
            Some(a) => *a == who,
            None => false,
        };
        if !authorized {
            return Err(String::from_str("unauthorized"));
        }
        let to_balance = balance_of(&self.balances, to);
        set_balance(&mut self.balances, to, to_balance + amount);
        self.total_supply = self.total_supply + amount;
        Ok(())
    }
}

// ─── LP token storage ─────────────────────────────────────────────────────────

/// Mathematical model of an [`LpTokenStorage`].
pub struct LpView {
    pub balances: Map<Seq<char>, i128>,
    pub total_supply: i128,
}

/// LP token balances of a pool's providers and their total.
pub struct LpTokenStorage {
    balances: Vec<(String, i128)>,
    total_supply: i128,
}

impl View for LpTokenStorage {
    type V = LpView;

    closed spec fn view(&self) -> LpView {
        LpView { balances: to_map(self.balances@), total_supply: self.total_supply }
    }
}

impl Default for LpTokenStorage {
    /// Storage with no balances.
    fn default() -> (r: Self)
        ensures
            r.wf(),
            r@.balances == Map::<Seq<char>, i128>::empty(),
            r@.total_supply == 0,
    {
        let r = LpTokenStorage { balances: Vec::new(), total_supply: 0 };
        proof {
            assert(to_map(r.balances@) =~= Map::<Seq<char>, i128>::empty());
        }
        r
    }
}

impl LpTokenStorage {
    /// One balance per address, none negative, and the total supply is their sum.
    pub closed spec fn wf(&self) -> bool {
        &&& distinct_keys(self.balances@)
        &&& all_nonneg(self.balances@)
        &&& sum_values(self.balances@) == self.total_supply
    }

    /// Sum of all balances.
    pub closed spec fn balance_sum(&self) -> int {
        sum_values(self.balances@)
    }

    /// The total supply is the sum of the balances, and no balance is negative
    /// or exceeds the total supply.
    pub proof fn lemma_supply_is_sum_of_balances(&self, owner: Seq<char>)
        requires
            self.wf(),
        ensures
            self@.total_supply == self.balance_sum(),
            0 <= bal(self@.balances, owner) <= self@.total_supply,
    {
        if to_map(self.balances@).dom().contains(owner) {
            crate::keyed::lemma_to_map_dom(self.balances@, owner);
            let i = choose|i: int| 0 <= i < self.balances@.len() && self.balances@[i].0@ == owner;
            lemma_to_map_value(self.balances@, i);
            lemma_value_le_sum(self.balances@, i);
        } else {
            lemma_sum_nonneg(self.balances@);
        }
    }

    /// Credit `amount` (positive) to `to` and the supply.
    pub fn mint(&mut self, to: &str, amount: i128) -> (r: Result<(), String>)
        requires
            old(self).wf(),
            old(self)@.total_supply + amount <= i128::MAX,
        ensures
            final(self).wf(),
            amount <= 0 ==> refused(r, "amount must be positive"@) && final(self)@ == old(self)@,
            amount > 0 ==> r is Ok && final(self)@ == (LpView {
                balances: old(self)@.balances.insert(to@, (bal(old(self)@.balances, to@) + amount) as i128),
                total_supply: (old(self)@.total_supply + amount) as i128,
            }),
    {
        proof {
            reveal_strlit("amount must be positive");
        }
        if amount <= 0 {
            return Err(String::from_str("amount must be positive"));
        }
        let current = balance_of(&self.balances, to);
        proof {
            self.lemma_supply_is_sum_of_balances(to@);
        }
        set_balance(&mut self.balances, to, current + amount);
        self.total_supply = self.total_supply + amount;
        Ok(())
    }

    /// Debit `amount` (positive, at most the balance) from `from` and the supply.
    pub fn burn(&mut self, from: &str, amount: i128) -> (r: Result<(), String>)
        requires
            old(self).wf(),
        ensures
            final(self).wf(),
            amount <= 0 ==> refused(r, "amount must be positive"@) && final(self)@ == old(self)@,
            amount > 0 && bal(old(self)@.balances, from@) < amount ==> refused(r, "insufficient lp balance"@)
                && final(self)@ == old(self)@,
            amount > 0 && bal(old(self)@.balances, from@) >= amount ==> r is Ok && final(self)@ == (LpView {
                balances: old(self)@.balances.insert(from@, (bal(old(self)@.balances, from@) - amount) as i128),
                total_supply: (old(self)@.total_supply - amount) as i128,
            }),
    {
        proof {
            reveal_strlit("amount must be positive");
            reveal_strlit("insufficient lp balance");
        }
        if amount <= 0 {
            return Err(String::from_str("amount must be positive"));
        }
        let current = balance_of(&self.balances, from);
        if current < amount {
            return Err(String::from_str("insufficient lp balance"));
        }
        proof {
            self.lemma_supply_is_sum_of_balances(from@);
        }
        set_balance(&mut self.balances, from, current - amount);
        self.total_supply = self.total_supply - amount;
        Ok(())
    }

    /// Balance of an address.
    pub fn balance(&self, owner: &str) -> (r: i128)
        requires
            self.wf(),
        ensures
            r == bal(self@.balances, owner@),
    {
        balance_of(&self.balances, owner)
    }

    /// Total LP supply.
    pub fn total_supply(&self) -> (r: i128)
        ensures
            r == self@.total_supply,
    {
        self.total_supply
    }
}

// ─── Pausable token with transfer hooks ───────────────────────────────────────

/// The views of a list of addresses.
pub open spec fn names(s: Seq<String>) -> Seq<Seq<char>> {
    s.map_values(|a: String| a@)
}

/// A list of addresses without `h`.
pub open spec fn without(s: Seq<Seq<char>>, h: Seq<char>) -> Seq<Seq<char>>
    decreases s.len(),
{
    if s.len() == 0 {
        s
    } else if s.last() == h {
        without(s.drop_last(), h)
    } else {
        without(s.drop_last(), h).push(s.last())
    }
}

/// Whether hook `h` is set to block transfers (a hook never configured does not).
pub open spec fn blocks(m: Map<Seq<char>, bool>, h: Seq<char>) -> bool {
    m.dom().contains(h) && m[h]
}

/// Whether some registered before-transfer hook blocks transfers.
pub open spec fn some_hook_blocks(hooks: Seq<Seq<char>>, m: Map<Seq<char>, bool>) -> bool {
    exists|i: int| 0 <= i < hooks.len() && blocks(m, #[trigger] hooks[i])
}

/// Mathematical model of a [`PausableTokenContract`].
pub struct PausableView {
    pub admin: Option<Seq<char>>,
    pub paused: bool,
    pub balances: Map<Seq<char>, i128>,
    pub before_hooks: Seq<Seq<char>>,
    pub after_hooks: Seq<Seq<char>>,
    pub hook_blocks: Map<Seq<char>, bool>,
}

/// A token whose transfers the admin can pause, and whose transfers run the
/// registered before-transfer hooks (any of which can block it) and notify the
/// after-transfer hooks.
pub struct PausableTokenContract {
    admin: Option<String>,
    paused: bool,
    balances: Vec<(String, i128)>,
    before_hooks: Vec<String>,
    after_hooks: Vec<String>,
    hook_blocks: Vec<(String, bool)>,
}

impl View for PausableTokenContract {
    type V = PausableView;

    closed spec fn view(&self) -> PausableView {
        PausableView {
            admin: match self.admin {
                Some(a) => Some(a@),
                None => None,
            },
            paused: self.paused,
            balances: to_map(self.balances@),
            before_hooks: names(self.before_hooks@),
            after_hooks: names(self.after_hooks@),
            hook_blocks: to_map(self.hook_blocks@),
        }
    }
}

impl Default for PausableTokenContract {
    /// A token that has not been initialized.
    fn default() -> (r: Self)
        ensures
            r.wf(),
            r@ == (PausableView {
                admin: None,
                paused: false,
                balances: Map::empty(),
                before_hooks: Seq::empty(),
                after_hooks: Seq::empty(),
                hook_blocks: Map::empty(),
            }),
    {
        let r = PausableTokenContract {
            admin: None,
            paused: false,
            balances: Vec::new(),
            before_hooks: Vec::new(),
            after_hooks: Vec::new(),
            hook_blocks: Vec::new(),
        };
        proof {
            assert(to_map(r.balances@) =~= Map::<Seq<char>, i128>::empty());
            assert(to_map(r.hook_blocks@) =~= Map::<Seq<char>, bool>::empty());
            assert(names(r.before_hooks@) =~= Seq::<Seq<char>>::empty());
            assert(names(r.after_hooks@) =~= Seq::<Seq<char>>::empty());
        }
        r
    }
}

/// Whether `h` is in the list `v`, by value.
pub(crate) fn contains_name(v: &Vec<String>, h: &str) -> (r: bool)
    ensures
        r == names(v@).contains(h@),
{
    let key = String::from_str(h);
    let mut i: usize = 0;
    while i < v.len()
        invariant
            i <= v@.len(),
            key@ == h@,
            forall|j: int| 0 <= j < i ==> v@[j]@ != h@,
        decreases v@.len() - i,
    {
        if v[i] == key {
            proof {
                assert(names(v@)[i as int] == h@);
            }
            return true;
        }
        i = i + 1;
    }
    proof {
        if names(v@).contains(h@) {
            let j = choose|j: int| 0 <= j < names(v@).len() && names(v@)[j] == h@;
            assert(v@[j]@ == h@);
        }
    }
    false
}

/// The list `v` without `h`, and whether `h` was in it.
pub fn remove_name(v: &Vec<String>, h: &str) -> (r: (Vec<String>, bool))
    ensures
        names(r.0@) == without(names(v@), h@),
        r.1 == names(v@).contains(h@),
{
    let key = String::from_str(h);
    let mut out: Vec<String> = Vec::new();
    let mut found = false;
    let mut i: usize = 0;
    while i < v.len()
        invariant
            i <= v@.len(),
            key@ == h@,
            names(out@) == without(names(v@.take(i as int)), h@),
            found == names(v@.take(i as int)).contains(h@),
        decreases v@.len() - i,
    {
        let ghost before = out@;
        proof {
            assert(names(v@.take(i + 1)).drop_last() =~= names(v@.take(i as int)));
            assert(names(v@.take(i + 1)).last() == v@[i as int]@);
            assert(names(v@.take(i + 1)) =~= names(v@.take(i as int)).push(v@[i as int]@));
        }
        if v[i] == key {
            found = true;
        } else {
            out.push(v[i].clone());
            proof {
                assert(names(out@) =~= names(before).push(v@[i as int]@));
            }
        }
        i = i + 1;
    }
    proof {
        assert(v@.take(v@.len() as int) =~= v@);
    }
    (out, found)
}

impl PausableTokenContract {
    /// One balance and one blocking flag per address.
    pub closed spec fn wf(&self) -> bool {
        &&& distinct_keys(self.balances@)
        &&& distinct_keys(self.hook_blocks@)
    }

    /// Sum of all balances.
    pub closed spec fn balance_sum(&self) -> int {
        sum_values(self.balances@)
    }

    /// Set the admin, unpause and clear both hook lists.  Nothing prevents a
    /// second call.
    pub fn initialize(&mut self, admin: &str)
        requires
            old(self).wf(),
        ensures
            final(self).wf(),
            final(self)@ == (PausableView {
                admin: Some(admin@),
                paused: false,
                before_hooks: Seq::empty(),
                after_hooks: Seq::empty(),
                ..old(self)@
            }),
    {
        self.admin = Some(String::from_str(admin));
        self.paused = false;
        self.before_hooks = Vec::new();
        self.after_hooks = Vec::new();
        proof {
            assert(names(self.before_hooks@) =~= Seq::<Seq<char>>::empty());
            assert(names(self.after_hooks@) =~= Seq::<Seq<char>>::empty());
        }
    }

    /// Whether `caller` is the stored admin.
    fn is_admin(&self, caller: &str) -> (r: bool)
        ensures
            r == (self@.admin == Some(caller@)),
    {
        let who = String::from_str(caller);
        match &self.admin {
            Some(a) => *a == who,
            None => false,
        }
    }

    /// Stop transfers (admin only).
    pub fn pause(&mut self, admin: &str) -> (r: Result<(), String>)
        requires
            old(self).wf(),
            old(self)@.admin is Some,
        ensures
            final(self).wf(),
            old(self)@.admin != Some(admin@) ==> refused(r, "unauthorized"@) && final(self)@ == old(self)@,
            old(self)@.admin == Some(admin@) ==> r is Ok && final(self)@ == (PausableView { paused: true, ..old(self)@ }),
    {
        proof {
            reveal_strlit("unauthorized");
        }
        if !self.is_admin(admin) {
            return Err(String::from_str("unauthorized"));
        }
        self.paused = true;
        Ok(())
    }

    /// Allow transfers again (admin only).
    pub fn unpause(&mut self, admin: &str) -> (r: Result<(), String>)
        requires
            old(self).wf(),
            old(self)@.admin is Some,
        ensures
            final(self).wf(),
            old(self)@.admin != Some(admin@) ==> refused(r, "unauthorized"@) && final(self)@ == old(self)@,
            old(self)@.admin == Some(admin@) ==> r is Ok && final(self)@ == (PausableView {
                paused: false,
                ..old(self)@
            }),
    {
        proof {
            reveal_strlit("unauthorized");
        }
        if !self.is_admin(admin) {
            return Err(String::from_str("unauthorized"));
        }
        self.paused = false;
        Ok(())
    }

    /// Whether transfers are paused.
    pub fn is_paused(&self) -> (r: bool)
        ensures
            r == self@.paused,
    {
        self.paused
    }

    /// Whether a registered before-transfer hook blocks transfers.
    fn before_hooks_block(&self) -> (r: bool)
        requires
            self.wf(),
        ensures
            r == some_hook_blocks(self@.before_hooks, self@.hook_blocks),
    {
        let mut i: usize = 0;
        while i < self.before_hooks.len()
            invariant
                i <= self.before_hooks@.len(),
                self.wf(),
                forall|j: int| 0 <= j < i ==> !blocks(self@.hook_blocks, #[trigger] self@.before_hooks[j]),
            decreases self.before_hooks@.len() - i,
        {
            let hook = &self.before_hooks[i];
            let blocking = match find_key(&self.hook_blocks, hook.as_str()) {
                Some(k) => self.hook_blocks[k].1,
                None => false,
            };
            proof {
                assert(self@.before_hooks[i as int] == hook@);
            }
            if blocking {
                return true;
            }
            i = i + 1;
        }
        false
    }

    /// Move `amount` from `from` to `to`: refused while paused, for a
    /// non-positive amount, beyond the balance, or when a before-transfer hook
    /// blocks it.  As in the basic token, a transfer to oneself credits the
    /// amount once more.
    pub fn transfer(&mut self, from: &str, to: &str, amount: i128) -> (r: Result<(), String>)
        requires
            old(self).wf(),
            bal(old(self)@.balances, to@) + amount <= i128::MAX,
        ensures
            final(self).wf(),
            old(self)@.paused ==> refused(r, "transfers are paused"@),
            !old(self)@.paused && amount <= 0 ==> refused(r, "amount must be positive"@),
            !old(self)@.paused && amount > 0 && bal(old(self)@.balances, from@) < amount ==> refused(
                r,
                "insufficient balance"@,
            ),
            !old(self)@.paused && amount > 0 && bal(old(self)@.balances, from@) >= amount && some_hook_blocks(
                old(self)@.before_hooks,
                old(self)@.hook_blocks,
            ) ==> refused(r, "transfer rejected by before_transfer hook"@),
            r is Err ==> final(self)@ == old(self)@,
            r is Ok ==> !old(self)@.paused && amount > 0 && bal(old(self)@.balances, from@) >= amount
                && !some_hook_blocks(old(self)@.before_hooks, old(self)@.hook_blocks) && final(self)@ == (
            PausableView {
                balances: old(self)@.balances.insert(
                    from@,
                    (bal(old(self)@.balances, from@) - amount) as i128,
                ).insert(to@, (bal(old(self)@.balances, to@) + amount) as i128),
                ..old(self)@
            }),
            r is Ok && from@ != to@ ==> final(self).balance_sum() == old(self).balance_sum(),
    {
        proof {
            reveal_strlit("transfers are paused");
            reveal_strlit("amount must be positive");
            reveal_strlit("insufficient balance");
            reveal_strlit("transfer rejected by before_transfer hook");
        }
        if self.paused {
            return Err(String::from_str("transfers are paused"));
        }
        if amount <= 0 {
            return Err(String::from_str("amount must be positive"));
        }
        let from_balance = balance_of(&self.balances, from);
        if from_balance < amount {
            return Err(String::from_str("insufficient balance"));
        }
        if self.before_hooks_block() {
            return Err(String::from_str("transfer rejected by before_transfer hook"));
        }
        let to_balance = balance_of(&self.balances, to);
        set_balance(&mut self.balances, from, from_balance - amount);
        set_balance(&mut self.balances, to, to_balance + amount);
        Ok(())
    }

    /// Register a before-transfer hook (admin only; at most ten, no duplicate);
    /// it starts out not blocking.
    pub fn register_before_hook(&mut self, admin: &str, hook: &str) -> (r: Result<(), String>)
        requires
            old(self).wf(),
            old(self)@.admin is Some,
        ensures
            final(self).wf(),
            old(self)@.admin != Some(admin@) ==> refused(r, "unauthorized"@),
            old(self)@.admin == Some(admin@) && old(self)@.before_hooks.len() >= MAX_HOOKS ==> refused(
                r,
                "hook limit reached"@,
            ),
            old(self)@.admin == Some(admin@) && old(self)@.before_hooks.len() < MAX_HOOKS
                && old(self)@.before_hooks.contains(hook@) ==> refused(r, "hook already registered"@),
            old(self)@.admin == Some(admin@) && old(self)@.before_hooks.len() < MAX_HOOKS && !old(self)@.before_hooks.contains(hook@) ==> r is Ok,
            r is Err ==> final(self)@ == old(self)@,
            r is Ok ==> old(self)@.admin == Some(admin@) && old(self)@.before_hooks.len() < MAX_HOOKS
                && !old(self)@.before_hooks.contains(hook@) && final(self)@ == (PausableView {
                before_hooks: old(self)@.before_hooks.push(hook@),
                hook_blocks: old(self)@.hook_blocks.insert(hook@, false),
                ..old(self)@
            }),
    {
        proof {
            reveal_strlit("unauthorized");
            reveal_strlit("hook limit reached");
            reveal_strlit("hook already registered");
        }
        if !self.is_admin(admin) {
            return Err(String::from_str("unauthorized"));
        }
        if self.before_hooks.len() >= MAX_HOOKS {
            return Err(String::from_str("hook limit reached"));
        }
        if contains_name(&self.before_hooks, hook) {
            return Err(String::from_str("hook already registered"));
        }
        let ghost b0 = self.before_hooks@;
        self.before_hooks.push(String::from_str(hook));
        proof {
            assert(names(self.before_hooks@) =~= names(b0).push(hook@));
        }
        upsert(&mut self.hook_blocks, hook, false);
        Ok(())
    }

    /// Register an after-transfer hook (admin only; at most ten, no duplicate).
    pub fn register_after_hook(&mut self, admin: &str, hook: &str) -> (r: Result<(), String>)
        requires
            old(self).wf(),
            old(self)@.admin is Some,
        ensures
            final(self).wf(),
            old(self)@.admin != Some(admin@) ==> refused(r, "unauthorized"@),
            old(self)@.admin == Some(admin@) && old(self)@.after_hooks.len() >= MAX_HOOKS ==> refused(
                r,
                "hook limit reached"@,
            ),
            old(self)@.admin == Some(admin@) && old(self)@.after_hooks.len() < MAX_HOOKS
                && old(self)@.after_hooks.contains(hook@) ==> refused(r, "hook already registered"@),
            old(self)@.admin == Some(admin@) && old(self)@.after_hooks.len() < MAX_HOOKS && !old(self)@.after_hooks.contains(hook@) ==> r is Ok,
            r is Err ==> final(self)@ == old(self)@,
            r is Ok ==> old(self)@.admin == Some(admin@) && old(self)@.after_hooks.len() < MAX_HOOKS
                && !old(self)@.after_hooks.contains(hook@) && final(self)@ == (PausableView {
                after_hooks: old(self)@.after_hooks.push(hook@),
                ..old(self)@
            }),
    {
        proof {
            reveal_strlit("unauthorized");
            reveal_strlit("hook limit reached");
            reveal_strlit("hook already registered");
        }
        if !self.is_admin(admin) {
            return Err(String::from_str("unauthorized"));
        }
        if self.after_hooks.len() >= MAX_HOOKS {
            return Err(String::from_str("hook limit reached"));
        }
        if contains_name(&self.after_hooks, hook) {
            return Err(String::from_str("hook already registered"));
        }
        let ghost a0 = self.after_hooks@;
        self.after_hooks.push(String::from_str(hook));
        proof {
            assert(names(self.after_hooks@) =~= names(a0).push(hook@));
        }
        Ok(())
    }

    /// Remove a before-transfer hook and its blocking flag (admin only).
    pub fn unregister_before_hook(&mut self, admin: &str, hook: &str) -> (r: Result<(), String>)
        requires
            old(self).wf(),
            old(self)@.admin is Some,
        ensures
            final(self).wf(),
            old(self)@.admin != Some(admin@) ==> refused(r, "unauthorized"@),
            old(self)@.admin == Some(admin@) && !old(self)@.before_hooks.contains(hook@) ==> refused(
                r,
                "hook not registered"@,
            ),
            old(self)@.admin == Some(admin@) && old(self)@.before_hooks.contains(hook@) ==> r is Ok,
            r is Err ==> final(self)@ == old(self)@,
            r is Ok ==> old(self)@.admin == Some(admin@) && old(self)@.before_hooks.contains(hook@) && final(self)@ == (PausableView {
                before_hooks: without(old(self)@.before_hooks, hook@),
                hook_blocks: old(self)@.hook_blocks.remove(hook@),
                ..old(self)@
            }),
    {
        proof {
            reveal_strlit("unauthorized");
            reveal_strlit("hook not registered");
        }
        if !self.is_admin(admin) {
            return Err(String::from_str("unauthorized"));
        }
        let (kept, found) = remove_name(&self.before_hooks, hook);
        if !found {
            return Err(String::from_str("hook not registered"));
        }
        self.before_hooks = kept;
        remove_key(&mut self.hook_blocks, hook);
        Ok(())
    }

    /// Remove an after-transfer hook (admin only).
    pub fn unregister_after_hook(&mut self, admin: &str, hook: &str) -> (r: Result<(), String>)
        requires
            old(self).wf(),
            old(self)@.admin is Some,
        ensures
            final(self).wf(),
            old(self)@.admin != Some(admin@) ==> refused(r, "unauthorized"@),
            old(self)@.admin == Some(admin@) && !old(self)@.after_hooks.contains(hook@) ==> refused(
                r,
                "hook not registered"@,
            ),
            old(self)@.admin == Some(admin@) && old(self)@.after_hooks.contains(hook@) ==> r is Ok,
            r is Err ==> final(self)@ == old(self)@,
            r is Ok ==> old(self)@.admin == Some(admin@) && old(self)@.after_hooks.contains(hook@) && final(self)@ == (PausableView { after_hooks: without(old(self)@.after_hooks, hook@), ..old(self)@ }),
    {
        proof {
            reveal_strlit("unauthorized");
            reveal_strlit("hook not registered");
        }
        if !self.is_admin(admin) {
            return Err(String::from_str("unauthorized"));
        }
        let (kept, found) = remove_name(&self.after_hooks, hook);
        if !found {
            return Err(String::from_str("hook not registered"));
        }
        self.after_hooks = kept;
        Ok(())
    }

    /// Set whether a before-transfer hook blocks transfers (admin only).
    pub fn set_before_hook_blocks(&mut self, admin: &str, hook: &str, blocks: bool) -> (r: Result<(), String>)
        requires
            old(self).wf(),
            old(self)@.admin is Some,
        ensures
            final(self).wf(),
            old(self)@.admin != Some(admin@) ==> refused(r, "unauthorized"@) && final(self)@ == old(self)@,
            old(self)@.admin == Some(admin@) ==> r is Ok && final(self)@ == (PausableView {
                hook_blocks: old(self)@.hook_blocks.insert(hook@, blocks),
                ..old(self)@
            }),
    {
        proof {
            reveal_strlit("unauthorized");
        }
        if !self.is_admin(admin) {
            return Err(String::from_str("unauthorized"));
        }
        upsert(&mut self.hook_blocks, hook, blocks);
        Ok(())
    }

    /// Credit `amount` (positive) to `to` (admin only).
    pub fn mint(&mut self, admin: &str, to: &str, amount: i128) -> (r: Result<(), String>)
        requires
            old(self).wf(),
            old(self)@.admin is Some,
            bal(old(self)@.balances, to@) + amount <= i128::MAX,
        ensures
            final(self).wf(),
            old(self)@.admin != Some(admin@) ==> refused(r, "unauthorized"@) && final(self)@ == old(self)@,
            old(self)@.admin == Some(admin@) && amount <= 0 ==> refused(r, "amount must be positive"@) && final(self)@ == old(self)@,
            old(self)@.admin == Some(admin@) && amount > 0 ==> r is Ok && final(self)@ == (PausableView {
                balances: old(self)@.balances.insert(to@, (bal(old(self)@.balances, to@) + amount) as i128),
                ..old(self)@
            }),
    {
        proof {
            reveal_strlit("unauthorized");
            reveal_strlit("amount must be positive");
        }
        if !self.is_admin(admin) {
            return Err(String::from_str("unauthorized"));
        }
        if amount <= 0 {
            return Err(String::from_str("amount must be positive"));
        }
        let current = balance_of(&self.balances, to);
        set_balance(&mut self.balances, to, current + amount);
        Ok(())
    }

    /// Balance of an address.
    pub fn balance(&self, addr: &str) -> (r: i128)
        requires
            self.wf(),
        ensures
            r == bal(self@.balances, addr@),
    {
        balance_of(&self.balances, addr)
    }
}

} // verus!
