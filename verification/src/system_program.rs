//! Moving lamports: what the system program does to the ledger.

use crate::accounts::{
    capital, lamports, lemma_capital_remove, lemma_insert, supply, valid, Account, AccountData,
};
use crate::address::Address;
use crate::errors::EscrowError;
use crate::ledger::Ledger;
use vstd::prelude::*;

verus! {

/// `account` with `amount` lamports.
pub open spec fn with_lamports(account: Account, amount: u64) -> Account {
    Account { lamports: amount, data: account.data }
}

/// What taking `amount` lamports from the wallet `payer` does to `state`,
/// or why it is refused.
pub open spec fn debit_spec(state: Map<Address, Account>, payer: Address, amount: u64) -> Result<
    Map<Address, Account>,
    EscrowError,
> {
    if !state.dom().contains(payer) || state[payer].data != AccountData::System {
        Err(EscrowError::InvalidAccount)
    } else if state[payer].lamports < amount {
        Err(EscrowError::InsufficientBalance)
    } else {
        Ok(state.insert(payer, with_lamports(state[payer], (state[payer].lamports - amount) as u64)))
    }
}

/// What handing `amount` lamports to the account at `to` does to `state`.
/// Where no account lives there, a wallet is made for them.
pub open spec fn credit_spec(state: Map<Address, Account>, to: Address, amount: u64) -> Map<
    Address,
    Account,
> {
    if state.dom().contains(to) {
        state.insert(to, with_lamports(state[to], (state[to].lamports + amount) as u64))
    } else if amount == 0 {
        state
    } else {
        state.insert(to, Account { lamports: amount, data: AccountData::System })
    }
}

/// Taking lamports from a wallet leaves a valid state valid and every
/// asset's supply as it was, and lowers the sum of the lamports by as much.
pub proof fn lemma_debit(state: Map<Address, Account>, payer: Address, amount: u64)
    requires
        valid(state),
        debit_spec(state, payer, amount) is Ok,
    ensures
        valid(debit_spec(state, payer, amount)->Ok_0),
        forall|mint: Address|
            supply(debit_spec(state, payer, amount)->Ok_0, mint) == supply(state, mint),
        capital(debit_spec(state, payer, amount)->Ok_0) + amount == capital(state),
        debit_spec(state, payer, amount)->Ok_0.dom() == state.dom(),
{
    let after = debit_spec(state, payer, amount)->Ok_0;
    lemma_insert(state, payer, with_lamports(state[payer], (state[payer].lamports - amount) as u64));
    assert(after.dom() =~= state.dom());
}

/// Handing lamports on leaves every asset's supply as it was, and raises
/// the sum of the lamports by as much; the state stays valid where that
/// sum stays in range, and the account's lamports then stay in range too.
pub proof fn lemma_credit(state: Map<Address, Account>, to: Address, amount: u64)
    requires
        valid(state),
        capital(state) + amount <= u64::MAX,
    ensures
        valid(credit_spec(state, to, amount)),
        forall|mint: Address| supply(credit_spec(state, to, amount), mint) == supply(state, mint),
        capital(credit_spec(state, to, amount)) == capital(state) + amount,
        lamports(state, to) + amount <= u64::MAX,
        lamports(credit_spec(state, to, amount), to) == lamports(state, to) + amount,
{
    if state.dom().contains(to) {
        lemma_capital_remove(state, to);
        lemma_insert(state, to, with_lamports(state[to], (state[to].lamports + amount) as u64));
    } else if amount != 0 {
        lemma_insert(state, to, Account { lamports: amount, data: AccountData::System });
    }
}

/// Takes `amount` lamports from the wallet `payer`. Refused, with the
/// ledger untouched, unless `payer` is a wallet that holds as much.
pub(crate) fn debit(ledger: &mut Ledger, payer: &Address, amount: u64) -> (r: Result<
    (),
    EscrowError,
>)
    requires
        old(ledger).wf(),
    ensures
        final(ledger).wf(),
        final(ledger).same_host(*old(ledger)),
        match debit_spec(old(ledger)@, *payer, amount) {
            Ok(state) => r is Ok && final(ledger)@ == state,
            Err(e) => r == Err::<(), EscrowError>(e) && final(ledger)@ == old(ledger)@,
        },
{
    let account = match ledger.get(payer) {
        Some(account) => account,
        None => {
            return Err(EscrowError::InvalidAccount);
        },
    };
    match account.data {
        AccountData::System => {},
        _ => {
            return Err(EscrowError::InvalidAccount);
        },
    }
    if account.lamports < amount {
        return Err(EscrowError::InsufficientBalance);
    }
    proof {
        ledger.lemma_wf_valid();
        lemma_debit(ledger@, *payer, amount);
    }
    ledger.put(*payer, Account { lamports: account.lamports - amount, data: account.data });
    Ok(())
}

/// Hands `amount` lamports to the account at `to`.
pub(crate) fn credit(ledger: &mut Ledger, to: &Address, amount: u64)
    requires
        old(ledger).wf(),
        capital(old(ledger)@) + amount <= u64::MAX,
    ensures
        final(ledger).wf(),
        final(ledger).same_host(*old(ledger)),
        final(ledger)@ == credit_spec(old(ledger)@, *to, amount),
{
    proof {
        ledger.lemma_wf_valid();
        lemma_credit(ledger@, *to, amount);
    }
    match ledger.get(to) {
        Some(account) => {
            ledger.put(*to, Account { lamports: account.lamports + amount, data: account.data });
        },
        None => {
            if amount != 0 {
                ledger.put(*to, Account { lamports: amount, data: AccountData::System });
            }
        },
    }
}

/// What an airdrop does to `state`, or why it is refused.
pub open spec fn airdrop_spec(state: Map<Address, Account>, to: Address, amount: u64) -> Result<
    Map<Address, Account>,
    EscrowError,
> {
    if capital(state) + amount > u64::MAX {
        Err(EscrowError::Overflow)
    } else {
        Ok(credit_spec(state, to, amount))
    }
}

/// Hands `amount` new lamports to the account at `to`: the one operation
/// that changes the sum of the lamports. Refused if that sum would pass
/// what a balance can count.
pub fn airdrop(ledger: &mut Ledger, to: &Address, amount: u64) -> (r: Result<(), EscrowError>)
    requires
        old(ledger).wf(),
    ensures
        final(ledger).wf(),
        final(ledger).same_host(*old(ledger)),
        match airdrop_spec(old(ledger)@, *to, amount) {
            Ok(state) => r is Ok && final(ledger)@ == state,
            Err(e) => r == Err::<(), EscrowError>(e) && final(ledger)@ == old(ledger)@,
        },
        forall|mint: Address| supply(final(ledger)@, mint) == supply(old(ledger)@, mint),
        r is Ok ==> capital(final(ledger)@) == capital(old(ledger)@) + amount,
{
    proof {
        ledger.lemma_wf_valid();
    }
    let held = ledger.capital();
    if amount > u64::MAX - held {
        return Err(EscrowError::Overflow);
    }
    proof {
        lemma_credit(ledger@, *to, amount);
    }
    credit(ledger, to, amount);
    Ok(())
}

} // verus!
