//! Moving and closing balances: what a token program does to the ledger.
//!
//! Each token program governs the mints registered with it and the token
//! accounts of those mints. A transfer or a close is addressed to one token
//! program and is refused unless every account it names is governed by it.

use crate::accounts::{
    capital, lemma_covers_two, lemma_insert, lemma_remove, mint_at, same_totals, supply, token_at,
    valid, Account, AccountData, Mint, TokenAccount,
};
use crate::address::Address;
use crate::errors::EscrowError;
use crate::ledger::Ledger;
use crate::system_program::{credit, credit_spec, lemma_credit};
use vstd::prelude::*;

verus! {

/// The accounts of a transfer.
#[derive(Clone, Copy, Debug)]
pub struct TransferChecked {
    pub from: Address,
    pub mint: Address,
    pub to: Address,
    /// Who authorizes the transfer: the owner of `from`.
    pub authority: Address,
}

/// The accounts of a close.
#[derive(Clone, Copy, Debug)]
pub struct CloseAccount {
    pub account: Address,
    /// Who receives the reserve of the closed account.
    pub destination: Address,
    /// Who authorizes the close: the owner of `account`.
    pub authority: Address,
}

/// The token account at `key`, if it is one of `program`.
pub open spec fn token_account(state: Map<Address, Account>, program: Address, key: Address)
    -> Option<TokenAccount> {
    match token_at(state, key) {
        Some(t) => if t.token_program == program {
            Some(t)
        } else {
            None
        },
        None => None,
    }
}

/// `mint` is registered with `program`, with `decimals` decimals.
pub open spec fn mint_registered(
    state: Map<Address, Account>,
    program: Address,
    mint: Address,
    decimals: u8,
) -> bool {
    &&& mint_at(state, mint) matches Some(m)
    &&& m.token_program == program
    &&& m.decimals == decimals
}

/// `account` with its balance set to `amount`.
pub open spec fn with_amount(account: TokenAccount, amount: u64) -> TokenAccount {
    TokenAccount {
        token_program: account.token_program,
        mint: account.mint,
        owner: account.owner,
        amount,
    }
}

/// The account at `key`, now the token account `token`, with the lamports
/// it had.
pub open spec fn with_token(state: Map<Address, Account>, key: Address, token: TokenAccount)
    -> Account {
    Account { lamports: state[key].lamports, data: AccountData::Token(token) }
}

/// What a transfer of `amount` does to `state`, or why it is refused.
pub open spec fn transfer_checked_spec(
    state: Map<Address, Account>,
    program: Address,
    accounts: TransferChecked,
    amount: u64,
    decimals: u8,
) -> Result<Map<Address, Account>, EscrowError> {
    let from = token_account(state, program, accounts.from);
    let to = token_account(state, program, accounts.to);
    if !mint_registered(state, program, accounts.mint, decimals) {
        Err(EscrowError::InvalidMint)
    } else if from is None || to is None {
        Err(EscrowError::InvalidAccount)
    } else if from->0.mint != accounts.mint || to->0.mint != accounts.mint {
        Err(EscrowError::InvalidMint)
    } else if from->0.owner != accounts.authority {
        Err(EscrowError::InvalidAuthority)
    } else if from->0.amount < amount {
        Err(EscrowError::InsufficientBalance)
    } else if accounts.from == accounts.to {
        Ok(state)
    } else {
        Ok(
            state.insert(
                accounts.from,
                with_token(
                    state,
                    accounts.from,
                    with_amount(from->0, (from->0.amount - amount) as u64),
                ),
            ).insert(
                accounts.to,
                with_token(state, accounts.to, with_amount(to->0, (to->0.amount + amount) as u64)),
            ),
        )
    }
}

/// What a close does to `state`, or why it is refused.
pub open spec fn close_account_spec(
    state: Map<Address, Account>,
    program: Address,
    accounts: CloseAccount,
) -> Result<Map<Address, Account>, EscrowError> {
    let account = token_account(state, program, accounts.account);
    if account is None || accounts.destination == accounts.account {
        Err(EscrowError::InvalidAccount)
    } else if account->0.owner != accounts.authority {
        Err(EscrowError::InvalidAuthority)
    } else if account->0.amount != 0 {
        Err(EscrowError::NonZeroBalance)
    } else {
        Ok(
            credit_spec(
                state.remove(accounts.account),
                accounts.destination,
                state[accounts.account].lamports,
            ),
        )
    }
}

/// A transfer moves tokens and makes or destroys none: it leaves every
/// asset's supply and the sum of the lamports as they were, and a valid
/// state valid. What the receiving account then holds is in range.
pub proof fn lemma_transfer_preserves(
    state: Map<Address, Account>,
    program: Address,
    accounts: TransferChecked,
    amount: u64,
    decimals: u8,
)
    requires
        valid(state),
        transfer_checked_spec(state, program, accounts, amount, decimals) is Ok,
    ensures
        valid(transfer_checked_spec(state, program, accounts, amount, decimals)->Ok_0),
        forall|mint: Address|
            supply(transfer_checked_spec(state, program, accounts, amount, decimals)->Ok_0, mint)
                == supply(state, mint),
        capital(transfer_checked_spec(state, program, accounts, amount, decimals)->Ok_0)
            == capital(state),
        accounts.from != accounts.to ==> token_account(state, program, accounts.to)->0.amount
            + amount <= u64::MAX,
{
    if accounts.from != accounts.to {
        let from = token_account(state, program, accounts.from)->0;
        let to = token_account(state, program, accounts.to)->0;
        lemma_covers_two(state, accounts.from, accounts.to);
        assert(from.amount + to.amount <= supply(state, accounts.mint));
        let debited = with_token(
            state,
            accounts.from,
            with_amount(from, (from.amount - amount) as u64),
        );
        let credited = with_token(state, accounts.to, with_amount(to, (to.amount + amount) as u64));
        let between = state.insert(accounts.from, debited);
        lemma_insert(state, accounts.from, debited);
        lemma_insert(between, accounts.to, credited);
    }
}

/// Moves `amount` of `accounts.mint` from `accounts.from` to `accounts.to`
/// under the token program `program`. Refused, with the ledger untouched,
/// unless the mint is registered with `program` with `decimals` decimals,
/// both accounts are token accounts of `program` and of the mint,
/// `accounts.authority` owns the source, and the source holds `amount`.
pub fn transfer_checked(
    ledger: &mut Ledger,
    program: &Address,
    accounts: &TransferChecked,
    amount: u64,
    decimals: u8,
) -> (r: Result<(), EscrowError>)
    requires
        old(ledger).wf(),
    ensures
        final(ledger).wf(),
        final(ledger).same_host(*old(ledger)),
        match transfer_checked_spec(old(ledger)@, *program, *accounts, amount, decimals) {
            Ok(state) => r is Ok && final(ledger)@ == state,
            Err(e) => r == Err::<(), EscrowError>(e) && final(ledger)@ == old(ledger)@,
        },
        same_totals(final(ledger)@, old(ledger)@),
{
    proof {
        ledger.lemma_wf_valid();
    }
    let mint_ok = match ledger.mint(&accounts.mint) {
        Some(m) => m.token_program == *program && m.decimals == decimals,
        None => false,
    };
    if !mint_ok {
        return Err(EscrowError::InvalidMint);
    }
    let from = match ledger.token_account(&accounts.from) {
        Some(t) => t,
        None => {
            return Err(EscrowError::InvalidAccount);
        },
    };
    let to = match ledger.token_account(&accounts.to) {
        Some(t) => t,
        None => {
            return Err(EscrowError::InvalidAccount);
        },
    };
    if from.token_program != *program || to.token_program != *program {
        return Err(EscrowError::InvalidAccount);
    }
    if from.mint != accounts.mint || to.mint != accounts.mint {
        return Err(EscrowError::InvalidMint);
    }
    if from.owner != accounts.authority {
        return Err(EscrowError::InvalidAuthority);
    }
    if from.amount < amount {
        return Err(EscrowError::InsufficientBalance);
    }
    if accounts.from == accounts.to {
        return Ok(());
    }
    proof {
        lemma_transfer_preserves(ledger@, *program, *accounts, amount, decimals);
        lemma_insert(
            ledger@,
            accounts.from,
            with_token(ledger@, accounts.from, with_amount(from, (from.amount - amount) as u64)),
        );
    }
    let from_lamports = ledger.lamports(&accounts.from);
    let to_lamports = ledger.lamports(&accounts.to);
    ledger.put(
        accounts.from,
        Account {
            lamports: from_lamports,
            data: AccountData::Token(
                TokenAccount {
                    token_program: from.token_program,
                    mint: from.mint,
                    owner: from.owner,
                    amount: from.amount - amount,
                },
            ),
        },
    );
    ledger.put(
        accounts.to,
        Account {
            lamports: to_lamports,
            data: AccountData::Token(
                TokenAccount {
                    token_program: to.token_program,
                    mint: to.mint,
                    owner: to.owner,
                    amount: to.amount + amount,
                },
            ),
        },
    );
    Ok(())
}

/// A close takes an empty account away and hands its reserve on: it
/// leaves every asset's supply and the sum of the lamports as they were,
/// and a valid state valid.
pub proof fn lemma_close_preserves(
    state: Map<Address, Account>,
    program: Address,
    accounts: CloseAccount,
)
    requires
        valid(state),
        close_account_spec(state, program, accounts) is Ok,
    ensures
        valid(close_account_spec(state, program, accounts)->Ok_0),
        forall|mint: Address|
            supply(close_account_spec(state, program, accounts)->Ok_0, mint) == supply(
                state,
                mint,
            ),
        capital(close_account_spec(state, program, accounts)->Ok_0) == capital(state),
{
    let removed = state.remove(accounts.account);
    let after = close_account_spec(state, program, accounts)->Ok_0;
    lemma_remove(state, accounts.account);
    lemma_credit(removed, accounts.destination, state[accounts.account].lamports);
    assert forall|mint: Address| supply(after, mint) == supply(state, mint) by {
        assert(supply(removed, mint) == supply(state, mint));
    }
}

/// Closes the token account `accounts.account` under the token program
/// `program` and hands its reserve to `accounts.destination`. Refused, with
/// the ledger untouched, unless it is a token account of `program` other
/// than the destination, `accounts.authority` owns it, and it is empty.
pub fn close_account(ledger: &mut Ledger, program: &Address, accounts: &CloseAccount) -> (r:
    Result<(), EscrowError>)
    requires
        old(ledger).wf(),
    ensures
        final(ledger).wf(),
        final(ledger).same_host(*old(ledger)),
        match close_account_spec(old(ledger)@, *program, *accounts) {
            Ok(state) => r is Ok && final(ledger)@ == state,
            Err(e) => r == Err::<(), EscrowError>(e) && final(ledger)@ == old(ledger)@,
        },
        same_totals(final(ledger)@, old(ledger)@),
{
    proof {
        ledger.lemma_wf_valid();
    }
    let account = match ledger.token_account(&accounts.account) {
        Some(t) => t,
        None => {
            return Err(EscrowError::InvalidAccount);
        },
    };
    if account.token_program != *program || accounts.destination == accounts.account {
        return Err(EscrowError::InvalidAccount);
    }
    if account.owner != accounts.authority {
        return Err(EscrowError::InvalidAuthority);
    }
    if account.amount != 0 {
        return Err(EscrowError::NonZeroBalance);
    }
    let reserve = ledger.lamports(&accounts.account);
    proof {
        lemma_remove(ledger@, accounts.account);
        lemma_close_preserves(ledger@, *program, *accounts);
    }
    ledger.delete(&accounts.account);
    credit(ledger, &accounts.destination, reserve);
    Ok(())
}

/// What registering a mint does to `state`, or why it is refused.
pub open spec fn initialize_mint_spec(state: Map<Address, Account>, key: Address, mint: Mint)
    -> Result<Map<Address, Account>, EscrowError> {
    if state.dom().contains(key) {
        Err(EscrowError::AddressInUse)
    } else {
        Ok(state.insert(key, Account { lamports: 0, data: AccountData::Mint(mint) }))
    }
}

/// Registers the asset `key` with the token program `token_program`.
/// Refused if an account lives at `key` already.
pub fn initialize_mint(ledger: &mut Ledger, key: Address, token_program: Address, decimals: u8) -> (r:
    Result<(), EscrowError>)
    requires
        old(ledger).wf(),
    ensures
        final(ledger).wf(),
        final(ledger).same_host(*old(ledger)),
        match initialize_mint_spec(old(ledger)@, key, Mint { token_program, decimals }) {
            Ok(state) => r is Ok && final(ledger)@ == state,
            Err(e) => r == Err::<(), EscrowError>(e) && final(ledger)@ == old(ledger)@,
        },
        same_totals(final(ledger)@, old(ledger)@),
{
    if ledger.get(&key).is_some() {
        return Err(EscrowError::AddressInUse);
    }
    let account = Account { lamports: 0, data: AccountData::Mint(Mint { token_program, decimals }) };
    proof {
        ledger.lemma_wf_valid();
        lemma_insert(ledger@, key, account);
    }
    ledger.put(key, account);
    Ok(())
}

/// What opening a token account does to `state`, or why it is refused.
pub open spec fn initialize_account_spec(
    state: Map<Address, Account>,
    key: Address,
    mint: Address,
    owner: Address,
) -> Result<Map<Address, Account>, EscrowError> {
    if state.dom().contains(key) {
        Err(EscrowError::AddressInUse)
    } else {
        match mint_at(state, mint) {
            None => Err(EscrowError::InvalidMint),
            Some(m) => Ok(
                state.insert(
                    key,
                    Account {
                        lamports: 0,
                        data: AccountData::Token(
                            TokenAccount { token_program: m.token_program, mint, owner, amount: 0 },
                        ),
                    },
                ),
            ),
        }
    }
}

/// Opens at `key` an empty token account of `owner` for `mint`, under the
/// token program of the mint and without a reserve. Refused if an account
/// lives at `key` already, or if `mint` is no registered mint.
pub fn initialize_account(ledger: &mut Ledger, key: Address, mint: Address, owner: Address) -> (r:
    Result<(), EscrowError>)
    requires
        old(ledger).wf(),
    ensures
        final(ledger).wf(),
        final(ledger).same_host(*old(ledger)),
        match initialize_account_spec(old(ledger)@, key, mint, owner) {
            Ok(state) => r is Ok && final(ledger)@ == state,
            Err(e) => r == Err::<(), EscrowError>(e) && final(ledger)@ == old(ledger)@,
        },
        same_totals(final(ledger)@, old(ledger)@),
{
    if ledger.get(&key).is_some() {
        return Err(EscrowError::AddressInUse);
    }
    let token_program = match ledger.mint(&mint) {
        Some(m) => m.token_program,
        None => {
            return Err(EscrowError::InvalidMint);
        },
    };
    let account = Account {
        lamports: 0,
        data: AccountData::Token(TokenAccount { token_program, mint, owner, amount: 0 }),
    };
    proof {
        ledger.lemma_wf_valid();
        lemma_insert(ledger@, key, account);
    }
    ledger.put(key, account);
    Ok(())
}

/// What issuing `amount` to the token account at `key` does to `state`, or
/// why it is refused.
pub open spec fn mint_to_spec(state: Map<Address, Account>, key: Address, amount: u64) -> Result<
    Map<Address, Account>,
    EscrowError,
> {
    match token_at(state, key) {
        None => Err(EscrowError::InvalidAccount),
        Some(t) => if supply(state, t.mint) + amount > u64::MAX {
            Err(EscrowError::Overflow)
        } else {
            Ok(state.insert(key, with_token(state, key, with_amount(t, (t.amount + amount) as u64))))
        },
    }
}

/// Issuing raises the supply of the one asset by the amount issued, and
/// leaves a valid state valid.
pub proof fn lemma_mint_to(state: Map<Address, Account>, key: Address, amount: u64)
    requires
        valid(state),
        mint_to_spec(state, key, amount) is Ok,
    ensures
        valid(mint_to_spec(state, key, amount)->Ok_0),
        forall|mint: Address|
            supply(mint_to_spec(state, key, amount)->Ok_0, mint) == supply(state, mint) + (if mint
                == token_at(state, key)->0.mint {
                amount as int
            } else {
                0
            }),
        capital(mint_to_spec(state, key, amount)->Ok_0) == capital(state),
        token_at(state, key)->0.amount + amount <= u64::MAX,
{
    let t = token_at(state, key)->0;
    crate::accounts::lemma_supply_remove(state, key, t.mint);
    lemma_insert(state, key, with_token(state, key, with_amount(t, (t.amount + amount) as u64)));
}

/// Issues `amount` new tokens to the token account at `key`: the one
/// operation that changes an asset's supply. Refused if no token account
/// lives at `key`, or if the supply would pass what a balance can count.
pub fn mint_to(ledger: &mut Ledger, key: Address, amount: u64) -> (r: Result<(), EscrowError>)
    requires
        old(ledger).wf(),
    ensures
        final(ledger).wf(),
        final(ledger).same_host(*old(ledger)),
        match mint_to_spec(old(ledger)@, key, amount) {
            Ok(state) => r is Ok && final(ledger)@ == state,
            Err(e) => r == Err::<(), EscrowError>(e) && final(ledger)@ == old(ledger)@,
        },
        capital(final(ledger)@) == capital(old(ledger)@),
        r is Ok ==> forall|mint: Address|
            supply(final(ledger)@, mint) == supply(old(ledger)@, mint) + (if mint == token_at(
                old(ledger)@,
                key,
            )->0.mint {
                amount as int
            } else {
                0
            }),
{
    let account = match ledger.token_account(&key) {
        Some(t) => t,
        None => {
            return Err(EscrowError::InvalidAccount);
        },
    };
    let issued = ledger.supply(&account.mint);
    if amount > u64::MAX - issued {
        return Err(EscrowError::Overflow);
    }
    proof {
        ledger.lemma_wf_valid();
        lemma_mint_to(ledger@, key, amount);
    }
    let held = ledger.lamports(&key);
    ledger.put(
        key,
        Account {
            lamports: held,
            data: AccountData::Token(
                TokenAccount {
                    token_program: account.token_program,
                    mint: account.mint,
                    owner: account.owner,
                    amount: account.amount + amount,
                },
            ),
        },
    );
    Ok(())
}

} // verus!
