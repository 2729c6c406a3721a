//! The accounts a ledger holds, and what a state of the ledger is.

use crate::address::Address;
use crate::state::Escrow;
use vstd::prelude::*;

verus! {

/// A registered asset.
#[derive(Clone, Copy, Debug, PartialEq, Eq)]
pub struct Mint {
    /// The token program that governs the asset.
    pub token_program: Address,
    pub decimals: u8,
}

/// A balance of one asset.
#[derive(Clone, Copy, Debug, PartialEq, Eq)]
pub struct TokenAccount {
    /// The token program that governs the account.
    pub token_program: Address,
    pub mint: Address,
    /// Who may move the balance.
    pub owner: Address,
    pub amount: u64,
}

/// What an account is.
#[derive(Clone, Copy, Debug, PartialEq, Eq)]
pub enum AccountData {
    /// A wallet: it holds lamports and nothing else.
    System,
    Mint(Mint),
    Token(TokenAccount),
    Escrow(Escrow),
}

/// An account: the lamports it holds, and what it is. The lamports of an
/// account that is no wallet are its reserve: paid by whoever created it,
/// and handed on when it is closed.
#[derive(Clone, Copy, Debug, PartialEq, Eq)]
pub struct Account {
    pub lamports: u64,
    pub data: AccountData,
}

/// The reserve that an account of each kind is created with.
#[derive(Clone, Copy, Debug, PartialEq, Eq)]
pub struct Rent {
    pub token_account: u64,
    pub escrow: u64,
}

/// How much of `mint` the account holds.
pub open spec fn holding(account: Account, mint: Address) -> nat {
    match account.data {
        AccountData::Token(t) => if t.mint == mint {
            t.amount as nat
        } else {
            0
        },
        _ => 0,
    }
}

/// The balance of the token account at `key`; zero where there is none.
pub open spec fn balance(state: Map<Address, Account>, key: Address) -> nat {
    match token_at(state, key) {
        Some(t) => t.amount as nat,
        None => 0,
    }
}

/// The lamports of the account at `key`; zero where there is none.
pub open spec fn lamports(state: Map<Address, Account>, key: Address) -> nat {
    if state.dom().contains(key) {
        state[key].lamports as nat
    } else {
        0
    }
}

/// The mint registered at `key`, if there is one.
pub open spec fn mint_at(state: Map<Address, Account>, key: Address) -> Option<Mint> {
    if state.dom().contains(key) {
        match state[key].data {
            AccountData::Mint(m) => Some(m),
            _ => None,
        }
    } else {
        None
    }
}

/// The token account at `key`, if there is one.
pub open spec fn token_at(state: Map<Address, Account>, key: Address) -> Option<TokenAccount> {
    if state.dom().contains(key) {
        match state[key].data {
            AccountData::Token(t) => Some(t),
            _ => None,
        }
    } else {
        None
    }
}

/// The escrow record at `key`, if there is one.
pub open spec fn escrow_at(state: Map<Address, Account>, key: Address) -> Option<Escrow> {
    if state.dom().contains(key) {
        match state[key].data {
            AccountData::Escrow(record) => Some(record),
            _ => None,
        }
    } else {
        None
    }
}

/// The sum of all balances of `mint`.
pub open spec fn supply(state: Map<Address, Account>, mint: Address) -> nat
    decreases state.dom().len(),
    when state.dom().finite()
{
    if state.dom().len() == 0 {
        0
    } else {
        let key = state.dom().choose();
        holding(state[key], mint) + supply(state.remove(key), mint)
    }
}

/// The sum of the lamports of all accounts.
pub open spec fn capital(state: Map<Address, Account>) -> nat
    decreases state.dom().len(),
    when state.dom().finite()
{
    if state.dom().len() == 0 {
        0
    } else {
        let key = state.dom().choose();
        state[key].lamports as nat + capital(state.remove(key))
    }
}

/// What holds of every escrow record: it asks for something, and for
/// another asset than the one it offers.
pub open spec fn record_ok(record: Escrow) -> bool {
    &&& record.amount_receive > 0
    &&& record.mint_a != record.mint_b
}

/// Every escrow record in `state` is sound.
pub open spec fn records_ok(state: Map<Address, Account>) -> bool {
    forall|key: Address| #[trigger]
        state.dom().contains(key) ==> (state[key].data matches AccountData::Escrow(record)
            ==> record_ok(record))
}

/// A state that a ledger can be in: finitely many accounts, no more
/// lamports and of no asset more in circulation than a balance can count,
/// and sound escrow records.
pub open spec fn valid(state: Map<Address, Account>) -> bool {
    &&& state.dom().finite()
    &&& forall|mint: Address| supply(state, mint) <= u64::MAX
    &&& capital(state) <= u64::MAX
    &&& records_ok(state)
}

/// The two states hold the same sum of lamports, and of every asset the
/// same supply.
pub open spec fn same_totals(a: Map<Address, Account>, b: Map<Address, Account>) -> bool {
    &&& capital(a) == capital(b)
    &&& forall|mint: Address| supply(a, mint) == supply(b, mint)
}

pub proof fn lemma_empty_is_valid()
    ensures
        valid(Map::<Address, Account>::empty()),
        capital(Map::<Address, Account>::empty()) == 0,
        forall|mint: Address| supply(Map::<Address, Account>::empty(), mint) == 0,
{
}

/// Any one account can be taken out of the sum of an asset.
pub proof fn lemma_supply_remove(state: Map<Address, Account>, key: Address, mint: Address)
    requires
        state.dom().finite(),
        state.dom().contains(key),
    ensures
        supply(state, mint) == holding(state[key], mint) + supply(state.remove(key), mint),
    decreases state.dom().len(),
{
    let first = state.dom().choose();
    if first != key {
        let without_first = state.remove(first);
        let without_key = state.remove(key);
        lemma_supply_remove(without_first, key, mint);
        lemma_supply_remove(without_key, first, mint);
        assert(without_first.remove(key) =~= without_key.remove(first));
    }
}

/// Any one account can be taken out of the sum of the lamports.
pub proof fn lemma_capital_remove(state: Map<Address, Account>, key: Address)
    requires
        state.dom().finite(),
        state.dom().contains(key),
    ensures
        capital(state) == state[key].lamports + capital(state.remove(key)),
    decreases state.dom().len(),
{
    let first = state.dom().choose();
    if first != key {
        let without_first = state.remove(first);
        let without_key = state.remove(key);
        lemma_capital_remove(without_first, key);
        lemma_capital_remove(without_key, first);
        assert(without_first.remove(key) =~= without_key.remove(first));
    }
}

/// What writing an account does to the sums, and to the soundness of the
/// records.
pub proof fn lemma_insert(state: Map<Address, Account>, key: Address, account: Account)
    requires
        state.dom().finite(),
    ensures
        state.insert(key, account).dom().finite(),
        forall|mint: Address|
            #[trigger] supply(state.insert(key, account), mint) + (if state.dom().contains(key) {
                holding(state[key], mint)
            } else {
                0
            }) == supply(state, mint) + holding(account, mint),
        capital(state.insert(key, account)) + lamports(state, key) == capital(state)
            + account.lamports,
        records_ok(state) && (account.data matches AccountData::Escrow(record) ==> record_ok(
            record,
        )) ==> records_ok(state.insert(key, account)),
{
    let after = state.insert(key, account);
    assert forall|mint: Address|
        #[trigger] supply(after, mint) + (if state.dom().contains(key) {
            holding(state[key], mint)
        } else {
            0
        }) == supply(state, mint) + holding(account, mint) by {
        lemma_supply_remove(after, key, mint);
        if state.dom().contains(key) {
            lemma_supply_remove(state, key, mint);
            assert(after.remove(key) =~= state.remove(key));
        } else {
            assert(after.remove(key) =~= state);
        }
    }
    lemma_capital_remove(after, key);
    if state.dom().contains(key) {
        lemma_capital_remove(state, key);
        assert(after.remove(key) =~= state.remove(key));
    } else {
        assert(after.remove(key) =~= state);
    }
    if records_ok(state) && (account.data matches AccountData::Escrow(record) ==> record_ok(
        record,
    )) {
        assert forall|k: Address| #[trigger] after.dom().contains(k) implies (after[k].data
            matches AccountData::Escrow(record) ==> record_ok(record)) by {
            if k != key {
                assert(state.dom().contains(k));
            }
        }
    }
}

/// What taking an account away does to the sums, and to the soundness of
/// the records.
pub proof fn lemma_remove(state: Map<Address, Account>, key: Address)
    requires
        state.dom().finite(),
    ensures
        state.remove(key).dom().finite(),
        forall|mint: Address|
            #[trigger] supply(state.remove(key), mint) + (if state.dom().contains(key) {
                holding(state[key], mint)
            } else {
                0
            }) == supply(state, mint),
        capital(state.remove(key)) + lamports(state, key) == capital(state),
        records_ok(state) ==> records_ok(state.remove(key)),
{
    let after = state.remove(key);
    if state.dom().contains(key) {
        assert forall|mint: Address|
            #[trigger] supply(after, mint) + holding(state[key], mint) == supply(state, mint) by {
            lemma_supply_remove(state, key, mint);
        }
        lemma_capital_remove(state, key);
    } else {
        assert(after =~= state);
    }
    if records_ok(state) {
        assert forall|k: Address| #[trigger] after.dom().contains(k) implies (after[k].data
            matches AccountData::Escrow(record) ==> record_ok(record)) by {
            assert(state.dom().contains(k));
        }
    }
}

/// Two accounts together hold no more of an asset than its supply, and no
/// more lamports than there are.
pub proof fn lemma_covers_two(state: Map<Address, Account>, a: Address, b: Address)
    requires
        state.dom().finite(),
        state.dom().contains(a),
        state.dom().contains(b),
        a != b,
    ensures
        forall|mint: Address|
            holding(state[a], mint) + holding(state[b], mint) <= #[trigger] supply(state, mint),
        state[a].lamports + state[b].lamports <= capital(state),
{
    assert forall|mint: Address|
        holding(state[a], mint) + holding(state[b], mint) <= #[trigger] supply(state, mint) by {
        lemma_supply_remove(state, a, mint);
        lemma_supply_remove(state.remove(a), b, mint);
    }
    lemma_capital_remove(state, a);
    lemma_capital_remove(state.remove(a), b);
}

} // verus!
