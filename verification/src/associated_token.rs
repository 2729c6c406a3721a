//! Associated token accounts: the token account of a wallet for a mint, at
//! an address derived from the wallet, the token program and the mint.

use crate::accounts::{
    capital, lemma_insert, mint_at, same_totals, supply, token_at, valid, Account, AccountData,
    TokenAccount,
};
use crate::address::{found_program_address, seeds_view, try_find_program_address, Address};
use crate::errors::EscrowError;
use crate::ledger::Ledger;
use crate::system_program::{debit, debit_spec, lemma_debit};
use vstd::prelude::*;

verus! {

/// Id of the program that derives associated token account addresses.
pub const ID: [u8; 32] = [
    140, 151, 37, 143, 78, 36, 137, 241, 187, 61, 16, 41, 20, 142, 13, 131,
    11, 90, 19, 153, 218, 255, 16, 132, 4, 142, 123, 216, 219, 233, 248, 89,
];

pub open spec fn spec_id() -> Address {
    Address { bytes: ID }
}

#[verifier::when_used_as_spec(spec_id)]
pub fn id() -> (a: Address)
    ensures
        a == spec_id(),
{
    Address { bytes: ID }
}

/// The seeds of the associated token account of `wallet` for `mint` under
/// `token_program`.
pub open spec fn associated_seeds(wallet: Address, mint: Address, token_program: Address) -> Seq<
    Seq<u8>,
> {
    seq![wallet@, token_program@, mint@]
}

/// The address of the associated token account of `wallet` for `mint` under
/// `token_program`, where the search finds one.
pub open spec fn associated_address(wallet: Address, mint: Address, token_program: Address)
    -> Option<Address> {
    match found_program_address(associated_seeds(wallet, mint, token_program), spec_id()) {
        Some((address, _)) => Some(address),
        None => None,
    }
}

/// Derives the address of the associated token account of `wallet` for
/// `mint` under `token_program`.
pub fn get_associated_token_address_with_program_id(
    wallet: &Address,
    mint: &Address,
    token_program: &Address,
) -> (r: Option<Address>)
    ensures
        r == associated_address(*wallet, *mint, *token_program),
{
    let mut seeds: Vec<Vec<u8>> = Vec::new();
    seeds.push(wallet.to_vec());
    seeds.push(token_program.to_vec());
    seeds.push(mint.to_vec());
    assert(seeds_view(seeds@) =~= associated_seeds(*wallet, *mint, *token_program));
    match try_find_program_address(&seeds, &id()) {
        Some((address, _)) => Some(address),
        None => None,
    }
}

/// The accounts of a creation.
#[derive(Clone, Copy, Debug)]
pub struct Create {
    /// Whose wallet pays the reserve of the new account.
    pub payer: Address,
    /// Where the account is to live.
    pub associated_token: Address,
    /// Who is to own it.
    pub authority: Address,
    pub mint: Address,
    pub token_program: Address,
}

/// The empty token account that a creation makes.
pub open spec fn created(accounts: Create) -> TokenAccount {
    TokenAccount {
        token_program: accounts.token_program,
        mint: accounts.mint,
        owner: accounts.authority,
        amount: 0,
    }
}

/// What a creation does to `state`, or why it is refused, where `derived`
/// is the address derived for the account and `reserve` what it is to hold.
pub open spec fn create_spec(
    state: Map<Address, Account>,
    accounts: Create,
    derived: Option<Address>,
    reserve: u64,
) -> Result<Map<Address, Account>, EscrowError> {
    if derived != Some(accounts.associated_token) {
        Err(EscrowError::AddressMismatch)
    } else if state.dom().contains(accounts.associated_token) {
        Err(EscrowError::AddressInUse)
    } else if mint_at(state, accounts.mint) is None {
        Err(EscrowError::InvalidMint)
    } else if mint_at(state, accounts.mint)->0.token_program != accounts.token_program {
        Err(EscrowError::InvalidTokenProgram)
    } else {
        match debit_spec(state, accounts.payer, reserve) {
            Err(e) => Err(e),
            Ok(paid) => Ok(
                paid.insert(
                    accounts.associated_token,
                    Account { lamports: reserve, data: AccountData::Token(created(accounts)) },
                ),
            ),
        }
    }
}

/// What a creation that tolerates an existing account does to `state`.
/// An account that lives at the address already is left as it is, but must
/// be what the creation would have made but for its balance: a token
/// account of the same mint, owner and token program, at the derived
/// address.
pub open spec fn create_idempotent_spec(
    state: Map<Address, Account>,
    accounts: Create,
    derived: Option<Address>,
    reserve: u64,
) -> Result<Map<Address, Account>, EscrowError> {
    if state.dom().contains(accounts.associated_token) {
        match token_at(state, accounts.associated_token) {
            None => Err(EscrowError::InvalidAccount),
            Some(t) => if t.mint != accounts.mint {
                Err(EscrowError::InvalidMint)
            } else if t.owner != accounts.authority {
                Err(EscrowError::OwnerMismatch)
            } else if t.token_program != accounts.token_program {
                Err(EscrowError::InvalidTokenProgram)
            } else if derived != Some(accounts.associated_token) {
                Err(EscrowError::AddressMismatch)
            } else {
                Ok(state)
            },
        }
    } else {
        create_spec(state, accounts, derived, reserve)
    }
}

/// A creation adds an empty account and moves its reserve into it: it
/// leaves every asset's supply and the sum of the lamports as they were,
/// and a valid state valid.
pub proof fn lemma_create_preserves(
    state: Map<Address, Account>,
    accounts: Create,
    derived: Option<Address>,
    reserve: u64,
)
    requires
        valid(state),
        create_spec(state, accounts, derived, reserve) is Ok,
    ensures
        valid(create_spec(state, accounts, derived, reserve)->Ok_0),
        forall|mint: Address|
            supply(create_spec(state, accounts, derived, reserve)->Ok_0, mint) == supply(
                state,
                mint,
            ),
        capital(create_spec(state, accounts, derived, reserve)->Ok_0) == capital(state),
{
    let paid = debit_spec(state, accounts.payer, reserve)->Ok_0;
    let account = Account { lamports: reserve, data: AccountData::Token(created(accounts)) };
    let after = paid.insert(accounts.associated_token, account);
    lemma_debit(state, accounts.payer, reserve);
    lemma_insert(paid, accounts.associated_token, account);
    assert forall|mint: Address| supply(after, mint) == supply(state, mint) by {
        assert(supply(paid, mint) == supply(state, mint));
    }
}

/// A creation that tolerates an existing account leaves every asset's
/// supply and the sum of the lamports as they were, and a valid state
/// valid.
pub proof fn lemma_create_idempotent_preserves(
    state: Map<Address, Account>,
    accounts: Create,
    derived: Option<Address>,
    reserve: u64,
)
    requires
        valid(state),
        create_idempotent_spec(state, accounts, derived, reserve) is Ok,
    ensures
        valid(create_idempotent_spec(state, accounts, derived, reserve)->Ok_0),
        forall|mint: Address|
            supply(create_idempotent_spec(state, accounts, derived, reserve)->Ok_0, mint)
                == supply(state, mint),
        capital(create_idempotent_spec(state, accounts, derived, reserve)->Ok_0) == capital(
            state,
        ),
{
    if !state.dom().contains(accounts.associated_token) {
        lemma_create_preserves(state, accounts, derived, reserve);
    }
}

/// Creates the empty token account `accounts.associated_token`, given the
/// address `derived` for it, with the reserve that the ledger asks, paid
/// by `accounts.payer`. Refused, with the ledger untouched, unless the
/// account is at that address, the address is free, the mint is registered
/// with the token program, and the payer is a wallet that holds the reserve.
pub fn create(ledger: &mut Ledger, accounts: &Create, derived: Option<Address>) -> (r: Result<
    (),
    EscrowError,
>)
    requires
        old(ledger).wf(),
    ensures
        final(ledger).wf(),
        final(ledger).same_host(*old(ledger)),
        match create_spec(old(ledger)@, *accounts, derived, old(ledger).spec_rent().token_account) {
            Ok(state) => r is Ok && final(ledger)@ == state,
            Err(e) => r == Err::<(), EscrowError>(e) && final(ledger)@ == old(ledger)@,
        },        same_totals(final(ledger)@, old(ledger)@),
{
    proof {
        ledger.lemma_wf_valid();
    }
    match derived {
        Some(address) => {
            if address != accounts.associated_token {
                return Err(EscrowError::AddressMismatch);
            }
        },
        None => {
            return Err(EscrowError::AddressMismatch);
        },
    }
    if ledger.get(&accounts.associated_token).is_some() {
        return Err(EscrowError::AddressInUse);
    }
    match ledger.mint(&accounts.mint) {
        None => {
            return Err(EscrowError::InvalidMint);
        },
        Some(m) => {
            if m.token_program != accounts.token_program {
                return Err(EscrowError::InvalidTokenProgram);
            }
        },
    }
    let reserve = ledger.rent().token_account;
    proof {
        if debit_spec(ledger@, accounts.payer, reserve) is Ok {
            lemma_create_preserves(ledger@, *accounts, derived, reserve);
        }
    }
    debit(ledger, &accounts.payer, reserve)?;
    ledger.put(
        accounts.associated_token,
        Account {
            lamports: reserve,
            data: AccountData::Token(
                TokenAccount {
                    token_program: accounts.token_program,
                    mint: accounts.mint,
                    owner: accounts.authority,
                    amount: 0,
                },
            ),
        },
    );
    Ok(())
}

/// As `create`, but an account that lives at the address already is
/// accepted and left as it is, if it is a token account of the same mint,
/// owner and token program and the address is the derived one.
pub fn create_idempotent(ledger: &mut Ledger, accounts: &Create, derived: Option<Address>) -> (r:
    Result<(), EscrowError>)
    requires
        old(ledger).wf(),
    ensures
        final(ledger).wf(),
        final(ledger).same_host(*old(ledger)),
        match create_idempotent_spec(
            old(ledger)@,
            *accounts,
            derived,
            old(ledger).spec_rent().token_account,
        ) {
            Ok(state) => r is Ok && final(ledger)@ == state,
            Err(e) => r == Err::<(), EscrowError>(e) && final(ledger)@ == old(ledger)@,
        },
        same_totals(final(ledger)@, old(ledger)@),
{
    match ledger.get(&accounts.associated_token) {
        Some(account) => match account.data {
            AccountData::Token(t) => {
                let at_home = match derived {
                    Some(address) => address == accounts.associated_token,
                    None => false,
                };
                if t.mint != accounts.mint {
                    Err(EscrowError::InvalidMint)
                } else if t.owner != accounts.authority {
                    Err(EscrowError::OwnerMismatch)
                } else if t.token_program != accounts.token_program {
                    Err(EscrowError::InvalidTokenProgram)
                } else if !at_home {
                    Err(EscrowError::AddressMismatch)
                } else {
                    Ok(())
                }
            },
            _ => Err(EscrowError::InvalidAccount),
        },
        None => create(ledger, accounts, derived),
    }
}

} // verus!
