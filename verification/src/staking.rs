//! The staking, token and balance contracts, modelled over one shared ledger
//! state. Authorization checks are the ledger host's concern and are outside
//! this model; the arithmetic preconditions mirror the panics of the
//! on-ledger code.

use vstd::prelude::*;

use crate::shared::LedgerEvent;

use crate::assoc::{
    assoc_map, distinct_keys, lemma_assoc_map_absent, lemma_assoc_map_domain,
    lemma_assoc_map_index, lemma_assoc_map_push, lemma_assoc_map_update, lemma_distinct_keys_push,
    lemma_distinct_keys_update,
};

verus! {

/// The smallest balance a user must hold to stake.
pub const MIN_STAKE_TOKENS: i128 = 1;

/// Storage keys of the staking/token/balance contracts.
pub enum DataKey {
    Balance(String),
    Staked(String),
    TokenAdmin,
}

/// The staking entry points.
pub struct StakingContract;

/// The token entry points.
pub struct TokenContract;

/// The balance book-keeping entry points.
pub struct BalanceContract;

/// Mathematical state of the shared ledger storage.
#[verifier::ext_equal]
pub ghost struct StakingModel {
    pub balances: Map<Seq<char>, i128>,
    pub staked: Map<Seq<char>, i128>,
    pub token_admin: Option<Seq<char>>,
}

/// An account's entry in a balance-like map, zero when absent.
pub open spec fn amount_of(m: Map<Seq<char>, i128>, addr: Seq<char>) -> i128 {
    if m.contains_key(addr) {
        m[addr]
    } else {
        0
    }
}

/// Spending is possible when the account covers the amount and the result
/// stays representable.
pub open spec fn can_spend(m: Map<Seq<char>, i128>, addr: Seq<char>, amount: i128) -> bool {
    &&& amount_of(m, addr) >= amount
    &&& amount_of(m, addr) - amount <= i128::MAX
}

/// Receiving is possible when the result stays representable.
pub open spec fn can_receive(m: Map<Seq<char>, i128>, addr: Seq<char>, amount: i128) -> bool {
    i128::MIN <= amount_of(m, addr) + amount <= i128::MAX
}

/// Transition of [`BalanceContract::spend_balance`].
pub open spec fn model_spend(m: Map<Seq<char>, i128>, addr: Seq<char>, amount: i128) -> Map<
    Seq<char>,
    i128,
> {
    m.insert(addr, (amount_of(m, addr) - amount) as i128)
}

/// Transition of [`BalanceContract::receive_balance`].
pub open spec fn model_receive(m: Map<Seq<char>, i128>, addr: Seq<char>, amount: i128) -> Map<
    Seq<char>,
    i128,
> {
    m.insert(addr, (amount_of(m, addr) + amount) as i128)
}

/// Transition of [`TokenContract::transfer`]: spend at `from`, then receive
/// at `to`.
pub open spec fn model_transfer(
    m: Map<Seq<char>, i128>,
    from: Seq<char>,
    to: Seq<char>,
    amount: i128,
) -> Map<Seq<char>, i128> {
    model_receive(model_spend(m, from, amount), to, amount)
}

/// The shared storage of the three contracts, held as plain data, together
/// with the token events the ledger publishes.
pub struct StakingLedger {
    pub balances: Vec<(String, i128)>,
    pub staked: Vec<(String, i128)>,
    pub token_admin: Option<String>,
    pub events: Vec<LedgerEvent>,
}

/// A vector of account/amount pairs as key/value pairs over views.
pub open spec fn amount_entries(entries: Seq<(String, i128)>) -> Seq<(Seq<char>, i128)> {
    entries.map_values(|e: (String, i128)| (e.0@, e.1))
}

impl StakingLedger {
    /// Well-formedness: distinct account keys in both books.
    pub open spec fn wf(&self) -> bool {
        &&& distinct_keys(amount_entries(self.balances@))
        &&& distinct_keys(amount_entries(self.staked@))
    }
}

impl View for StakingLedger {
    type V = StakingModel;

    open spec fn view(&self) -> StakingModel {
        StakingModel {
            balances: assoc_map(amount_entries(self.balances@)),
            staked: assoc_map(amount_entries(self.staked@)),
            token_admin: match self.token_admin {
                Some(ref a) => Some(a@),
                None => None,
            },
        }
    }
}

impl StakingLedger {
    /// An empty ledger: no balances, no stakes, no token admin, no events.
    pub fn new() -> (r: Self)
        ensures
            r.wf(),
            r@.balances =~= Map::<Seq<char>, i128>::empty(),
            r@.staked =~= Map::<Seq<char>, i128>::empty(),
            r@.token_admin is None,
            r.events@ =~= Seq::<LedgerEvent>::empty(),
    {
        let r = StakingLedger {
            balances: Vec::new(),
            staked: Vec::new(),
            token_admin: None,
            events: Vec::new(),
        };
        assert(amount_entries(r.balances@) =~= Seq::<(Seq<char>, i128)>::empty());
        assert(amount_entries(r.staked@) =~= Seq::<(Seq<char>, i128)>::empty());
        r
    }
}

/// The amount stored for `key`, zero when absent.
fn lookup_amount(entries: &Vec<(String, i128)>, key: &String) -> (r: i128)
    requires
        distinct_keys(amount_entries(entries@)),
    ensures
        r == amount_of(assoc_map(amount_entries(entries@)), key@),
{
    let n = entries.len();
    let mut i: usize = 0;
    #[verifier::loop_isolation(false)]
    while i < n
        invariant
            0 <= i <= n,
            forall|j: int| 0 <= j < i ==> (#[trigger] entries@[j].0@) != key@,
        decreases n - i,
    {
        if entries[i].0 == *key {
            proof {
                lemma_assoc_map_index(amount_entries(entries@), i as int);
            }
            return entries[i].1;
        }
        i += 1;
    }
    proof {
        assert(forall|j: int|
            0 <= j < amount_entries(entries@).len() ==> (#[trigger] amount_entries(
                entries@,
            )[j]).0 != key@);
        lemma_assoc_map_absent(amount_entries(entries@), key@);
    }
    0
}

/// Store `amount` under `key`, overwriting any previous entry.
fn store_amount(entries: &mut Vec<(String, i128)>, key: &String, amount: i128)
    requires
        distinct_keys(amount_entries(old(entries)@)),
    ensures
        distinct_keys(amount_entries(final(entries)@)),
        assoc_map(amount_entries(final(entries)@)) =~= assoc_map(
            amount_entries(old(entries)@),
        ).insert(key@, amount),
{
    let n = entries.len();
    let mut i: usize = 0;
    #[verifier::loop_isolation(false)]
    while i < n
        invariant
            *entries == *old(entries),
            0 <= i <= n,
            forall|j: int| 0 <= j < i ==> (#[trigger] entries@[j].0@) != key@,
        decreases n - i,
    {
        if entries[i].0 == *key {
            let mut entry = entries.remove(i);
            entry.1 = amount;
            entries.insert(i, entry);
            proof {
                assert(entries@ =~= old(entries)@.update(i as int, entries@[i as int]));
                assert(amount_entries(entries@) =~= amount_entries(old(entries)@).update(
                    i as int,
                    (key@, amount),
                ));
                lemma_assoc_map_update(amount_entries(old(entries)@), i as int, amount);
                lemma_distinct_keys_update(amount_entries(old(entries)@), i as int, amount);
            }
            return ;
        }
        i += 1;
    }
    proof {
        assert(forall|j: int|
            0 <= j < amount_entries(entries@).len() ==> (#[trigger] amount_entries(
                entries@,
            )[j]).0 != key@);
        lemma_assoc_map_domain(amount_entries(entries@), key@);
    }
    entries.push((key.clone(), amount));
    proof {
        assert(amount_entries(entries@) =~= amount_entries(old(entries)@).push((key@, amount)));
        lemma_assoc_map_push(amount_entries(old(entries)@), key@, amount);
        lemma_distinct_keys_push(amount_entries(old(entries)@), key@, amount);
    }
}

impl BalanceContract {
    /// An account's token balance, zero when the account is unknown.
    pub fn read_balance(l: &StakingLedger, addr: &String) -> (r: i128)
        requires
            l.wf(),
        ensures
            r == amount_of(l@.balances, addr@),
    {
        lookup_amount(&l.balances, addr)
    }

    /// Overwrite an account's token balance.
    pub fn write_balance(l: &mut StakingLedger, addr: &String, amount: i128)
        requires
            old(l).wf(),
        ensures
            final(l).wf(),
            final(l)@ =~= (StakingModel {
                balances: old(l)@.balances.insert(addr@, amount),
                staked: old(l)@.staked,
                token_admin: old(l)@.token_admin,
            }),
            final(l).events@ == old(l).events@,
    {
        store_amount(&mut l.balances, addr, amount);
    }

    /// Deduct `amount` from an account that covers it.
    pub fn spend_balance(l: &mut StakingLedger, addr: &String, amount: i128)
        requires
            old(l).wf(),
            can_spend(old(l)@.balances, addr@, amount),
        ensures
            final(l).wf(),
            final(l)@ =~= (StakingModel {
                balances: model_spend(old(l)@.balances, addr@, amount),
                staked: old(l)@.staked,
                token_admin: old(l)@.token_admin,
            }),
            final(l).events@ == old(l).events@,
    {
        let balance = lookup_amount(&l.balances, addr);
        store_amount(&mut l.balances, addr, balance - amount);
    }

    /// Add `amount` to an account's balance.
    pub fn receive_balance(l: &mut StakingLedger, addr: &String, amount: i128)
        requires
            old(l).wf(),
            can_receive(old(l)@.balances, addr@, amount),
        ensures
            final(l).wf(),
            final(l)@ =~= (StakingModel {
                balances: model_receive(old(l)@.balances, addr@, amount),
                staked: old(l)@.staked,
                token_admin: old(l)@.token_admin,
            }),
            final(l).events@ == old(l).events@,
    {
        let balance = lookup_amount(&l.balances, addr);
        store_amount(&mut l.balances, addr, balance + amount);
    }
}

impl TokenContract {
    /// The configured token admin; one must have been set.
    pub fn get_token_admin(l: &StakingLedger) -> (r: String)
        requires
            l@.token_admin is Some,
        ensures
            r@ == l@.token_admin.unwrap(),
            l.token_admin matches Some(a) ==> r == a,
    {
        match &l.token_admin {
            Some(a) => a.clone(),
            None => unreached(),
        }
    }

    /// Record the token admin.
    pub fn set_token_admin(l: &mut StakingLedger, id: String)
        requires
            old(l).wf(),
        ensures
            final(l).wf(),
            final(l)@ =~= (StakingModel {
                balances: old(l)@.balances,
                staked: old(l)@.staked,
                token_admin: Some(id@),
            }),
            final(l).events@ == old(l).events@,
    {
        l.token_admin = Some(id);
    }

    /// Mint: record `amount` as the account's balance and publish a mint
    /// event. The on-ledger call is restricted to the token admin by the
    /// host's authorization check.
    pub fn mint(l: &mut StakingLedger, to: &String, amount: i128)
        requires
            old(l).wf(),
            old(l)@.token_admin is Some,
        ensures
            final(l).wf(),
            final(l)@ =~= (StakingModel {
                balances: old(l)@.balances.insert(to@, amount),
                staked: old(l)@.staked,
                token_admin: old(l)@.token_admin,
            }),
            old(l).token_admin matches Some(a) ==> final(l).events@ == old(l).events@.push(
                LedgerEvent::TokenMinted { admin: a, to: *to, amount },
            ),
    {
        let admin = Self::get_token_admin(l);
        BalanceContract::write_balance(l, to, amount);
        l.events.push(LedgerEvent::TokenMinted { admin, to: to.clone(), amount });
    }

    /// Move `amount` from one account to another and publish a transfer
    /// event. The on-ledger call is authorized by the sender through the
    /// host's authorization check.
    pub fn transfer(l: &mut StakingLedger, from: &String, to: &String, amount: i128)
        requires
            old(l).wf(),
            can_spend(old(l)@.balances, from@, amount),
            can_receive(model_spend(old(l)@.balances, from@, amount), to@, amount),
        ensures
            final(l).wf(),
            final(l)@ =~= (StakingModel {
                balances: model_transfer(old(l)@.balances, from@, to@, amount),
                staked: old(l)@.staked,
                token_admin: old(l)@.token_admin,
            }),
            final(l).events@ == old(l).events@.push(LedgerEvent::TokenTransferred {
                from: *from,
                to: *to,
                amount,
            }),
    {
        BalanceContract::spend_balance(l, from, amount);
        BalanceContract::receive_balance(l, to, amount);
        l.events.push(LedgerEvent::TokenTransferred { from: from.clone(), to: to.clone(), amount });
    }
}

impl StakingContract {
    /// Stake `amount`: move it from the user to the staking contract account
    /// and add it to the user's staked total.
    pub fn stake(l: &mut StakingLedger, user_addr: &String, staking_contract: &String, amount: i128)
        requires
            old(l).wf(),
            amount_of(old(l)@.balances, user_addr@) >= MIN_STAKE_TOKENS,
            can_spend(old(l)@.balances, user_addr@, amount),
            can_receive(model_spend(old(l)@.balances, user_addr@, amount), staking_contract@,
                amount),
            i128::MIN <= amount_of(old(l)@.staked, user_addr@) + amount <= i128::MAX,
        ensures
            final(l).wf(),
            final(l)@ =~= (StakingModel {
                balances: model_transfer(old(l)@.balances, user_addr@, staking_contract@, amount),
                staked: model_receive(old(l)@.staked, user_addr@, amount),
                token_admin: old(l)@.token_admin,
            }),
            final(l).events@ == old(l).events@.push(LedgerEvent::TokenTransferred {
                from: *user_addr,
                to: *staking_contract,
                amount,
            }),
    {
        let balance = BalanceContract::read_balance(l, user_addr);
        if balance < MIN_STAKE_TOKENS {
            unreached()
        } else {
            TokenContract::transfer(l, user_addr, staking_contract, amount);
            let staked_amt = lookup_amount(&l.staked, user_addr);
            store_amount(&mut l.staked, user_addr, staked_amt + amount);
        }
    }

    /// Unstake `amount`: subtract it from the user's staked total and move it
    /// back from the staking contract account to the user.
    pub fn unstake(
        l: &mut StakingLedger,
        user_addr: &String,
        staking_contract: &String,
        amount: i128,
    )
        requires
            old(l).wf(),
            amount_of(old(l)@.staked, user_addr@) >= amount,
            amount_of(old(l)@.staked, user_addr@) - amount <= i128::MAX,
            can_spend(old(l)@.balances, staking_contract@, amount),
            can_receive(model_spend(old(l)@.balances, staking_contract@, amount), user_addr@,
                amount),
        ensures
            final(l).wf(),
            final(l)@ =~= (StakingModel {
                balances: model_transfer(old(l)@.balances, staking_contract@, user_addr@, amount),
                staked: model_spend(old(l)@.staked, user_addr@, amount),
                token_admin: old(l)@.token_admin,
            }),
            final(l).events@ == old(l).events@.push(LedgerEvent::TokenTransferred {
                from: *staking_contract,
                to: *user_addr,
                amount,
            }),
    {
        let staked_amt = lookup_amount(&l.staked, user_addr);
        if staked_amt < amount {
            unreached()
        } else {
            store_amount(&mut l.staked, user_addr, staked_amt - amount);
            TokenContract::transfer(l, staking_contract, user_addr, amount);
        }
    }
}

} // verus!
