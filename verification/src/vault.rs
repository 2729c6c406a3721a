//! Consuming an escrow: finding its record, acting under its address, and
//! releasing and closing its vault.

use crate::accounts::{
    capital, escrow_at, lemma_remove, mint_at, same_totals, supply, token_at, valid, Account,
};
use crate::address::{create_program_address, program_address, Address};
use crate::errors::EscrowError;
use crate::ledger::Ledger;
use crate::state::escrow::Escrow;
use crate::system_program::{credit, credit_spec, lemma_credit};
use crate::token_interface::{
    close_account, close_account_spec, transfer_checked, transfer_checked_spec, CloseAccount,
    TransferChecked,
};
use vstd::prelude::*;

verus! {

/// The record at `escrow`, if it is the escrow of `maker` for `mint_a`.
pub open spec fn load_spec(
    state: Map<Address, Account>,
    escrow: Address,
    maker: Address,
    mint_a: Address,
) -> Result<Escrow, EscrowError> {
    match escrow_at(state, escrow) {
        None => Err(EscrowError::EscrowNotFound),
        Some(record) => if record.maker != maker {
            Err(EscrowError::MakerMismatch)
        } else if record.mint_a != mint_a {
            Err(EscrowError::MintMismatch)
        } else {
            Ok(record)
        },
    }
}

/// Reads the record at `escrow`. Refused if no escrow lives there, or if it
/// is not the escrow of `maker` for `mint_a`.
pub fn load(ledger: &Ledger, escrow: &Address, maker: &Address, mint_a: &Address) -> (r: Result<
    Escrow,
    EscrowError,
>)
    requires
        ledger.wf(),
    ensures
        r == load_spec(ledger@, *escrow, *maker, *mint_a),
{
    match ledger.escrow(escrow) {
        None => Err(EscrowError::EscrowNotFound),
        Some(record) => {
            if record.maker != *maker {
                Err(EscrowError::MakerMismatch)
            } else if record.mint_a != *mint_a {
                Err(EscrowError::MintMismatch)
            } else {
                Ok(record)
            }
        },
    }
}

/// The address under which the program acts for the escrow recorded at
/// `escrow`: the one that the record's seeds and bump seed derive.
pub open spec fn signer_spec(state: Map<Address, Account>, escrow: Address, program_id: Address)
    -> Option<Address> {
    match escrow_at(state, escrow) {
        Some(record) => program_address(record.spec_signer_seeds(), program_id),
        None => None,
    }
}

/// Derives anew, from the record at `escrow`, the address under which the
/// program acts for it.
pub fn signer(ledger: &Ledger, escrow: &Address) -> (r: Option<Address>)
    requires
        ledger.wf(),
    ensures
        r == signer_spec(ledger@, *escrow, ledger.spec_program_id()),
{
    match ledger.escrow(escrow) {
        Some(record) => {
            let signer_seeds = record.signer_seeds();
            create_program_address(&signer_seeds, &ledger.program_id())
        },
        None => None,
    }
}

/// Whether the program may act as `escrow` on `vault`: `escrow` is the
/// address its record derives, and `vault` the address derived for its vault.
pub open spec fn authorized_spec(
    escrow: Address,
    vault: Address,
    escrow_signer: Option<Address>,
    derived_vault: Option<Address>,
) -> Result<(), EscrowError> {
    if escrow_signer == Some(escrow) && derived_vault == Some(vault) {
        Ok(())
    } else {
        Err(EscrowError::AddressMismatch)
    }
}

/// Checks the addresses of the escrow and of its vault against the
/// derived ones.
pub fn authorized(
    escrow: &Address,
    vault: &Address,
    escrow_signer: &Option<Address>,
    derived_vault: &Option<Address>,
) -> (r: Result<(), EscrowError>)
    ensures
        r == authorized_spec(*escrow, *vault, *escrow_signer, *derived_vault),
{
    let signs = match escrow_signer {
        Some(address) => *address == *escrow,
        None => false,
    };
    let holds = match derived_vault {
        Some(address) => *address == *vault,
        None => false,
    };
    if signs && holds {
        Ok(())
    } else {
        Err(EscrowError::AddressMismatch)
    }
}

/// The accounts of a release of the vault to `to`.
pub open spec fn release_accounts(vault: Address, mint_a: Address, to: Address, escrow: Address)
    -> TransferChecked {
    TransferChecked { from: vault, mint: mint_a, to, authority: escrow }
}

/// What releasing the vault to `to` does to `state`, where `signer` is the
/// address that the record's seeds derive: all that the vault holds at that
/// moment moves. Refused unless the program signs as `escrow`.
pub open spec fn release_signed_spec(
    state: Map<Address, Account>,
    token_program: Address,
    vault: Address,
    mint_a: Address,
    to: Address,
    escrow: Address,
    signer: Option<Address>,
) -> Result<Map<Address, Account>, EscrowError> {
    if signer != Some(escrow) {
        Err(EscrowError::AddressMismatch)
    } else {
        match token_at(state, vault) {
            None => Err(EscrowError::InvalidAccount),
            Some(held) => match mint_at(state, mint_a) {
                None => Err(EscrowError::InvalidMint),
                Some(m) => transfer_checked_spec(
                    state,
                    token_program,
                    release_accounts(vault, mint_a, to, escrow),
                    held.amount,
                    m.decimals,
                ),
            },
        }
    }
}

/// Moves the whole balance of `vault` to `to`, on the authority of
/// `escrow`, given the address `signer` that the record's seeds derive.
/// Refused, with the ledger untouched, unless that address is `escrow`.
pub fn release_signed(
    ledger: &mut Ledger,
    token_program: &Address,
    vault: &Address,
    mint_a: &Address,
    to: &Address,
    escrow: &Address,
    signer: &Option<Address>,
) -> (r: Result<(), EscrowError>)
    requires
        old(ledger).wf(),
    ensures
        final(ledger).wf(),
        final(ledger).same_host(*old(ledger)),
        match release_signed_spec(
            old(ledger)@,
            *token_program,
            *vault,
            *mint_a,
            *to,
            *escrow,
            *signer,
        ) {
            Ok(state) => r is Ok && final(ledger)@ == state,
            Err(e) => r == Err::<(), EscrowError>(e) && final(ledger)@ == old(ledger)@,
        },
        same_totals(final(ledger)@, old(ledger)@),
{
    let signs = match signer {
        Some(address) => *address == *escrow,
        None => false,
    };
    if !signs {
        return Err(EscrowError::AddressMismatch);
    }
    let amount = match ledger.token_account(vault) {
        Some(held) => held.amount,
        None => {
            return Err(EscrowError::InvalidAccount);
        },
    };
    let decimals = match ledger.mint(mint_a) {
        Some(m) => m.decimals,
        None => {
            return Err(EscrowError::InvalidMint);
        },
    };
    let cpi_accounts = TransferChecked { from: *vault, mint: *mint_a, to: *to, authority: *escrow };
    transfer_checked(ledger, token_program, &cpi_accounts, amount, decimals)
}

/// What releasing the vault to `to` does to `state` under the program
/// `program_id`: the program signs with the seeds of the record at `escrow`,
/// and is refused unless they derive `escrow` itself.
pub open spec fn release_spec(
    state: Map<Address, Account>,
    program_id: Address,
    token_program: Address,
    vault: Address,
    mint_a: Address,
    to: Address,
    escrow: Address,
) -> Result<Map<Address, Account>, EscrowError> {
    release_signed_spec(
        state,
        token_program,
        vault,
        mint_a,
        to,
        escrow,
        signer_spec(state, escrow, program_id),
    )
}

/// Moves the whole balance of `vault` to `to`, signing as the escrow with
/// the seeds of its record: the prefix, the maker, the seed and the bump
/// seed. Refused, with the ledger untouched, unless a record lives at
/// `escrow` and its seeds derive `escrow`.
pub fn release(
    ledger: &mut Ledger,
    token_program: &Address,
    vault: &Address,
    mint_a: &Address,
    to: &Address,
    escrow: &Address,
) -> (r: Result<(), EscrowError>)
    requires
        old(ledger).wf(),
    ensures
        final(ledger).wf(),
        final(ledger).same_host(*old(ledger)),
        match release_spec(
            old(ledger)@,
            old(ledger).spec_program_id(),
            *token_program,
            *vault,
            *mint_a,
            *to,
            *escrow,
        ) {
            Ok(state) => r is Ok && final(ledger)@ == state,
            Err(e) => r == Err::<(), EscrowError>(e) && final(ledger)@ == old(ledger)@,
        },
        same_totals(final(ledger)@, old(ledger)@),
{
    let signer = signer(ledger, escrow);
    release_signed(ledger, token_program, vault, mint_a, to, escrow, &signer)
}

/// The accounts of the close of the vault.
pub open spec fn close_accounts(vault: Address, maker: Address, escrow: Address) -> CloseAccount {
    CloseAccount { account: vault, destination: maker, authority: escrow }
}

/// What closing the vault does to `state`, where `signer` is the address
/// that the record's seeds derive. Refused unless the program signs as
/// `escrow`.
pub open spec fn close_vault_signed_spec(
    state: Map<Address, Account>,
    token_program: Address,
    vault: Address,
    maker: Address,
    escrow: Address,
    signer: Option<Address>,
) -> Result<Map<Address, Account>, EscrowError> {
    if signer != Some(escrow) {
        Err(EscrowError::AddressMismatch)
    } else {
        close_account_spec(state, token_program, close_accounts(vault, maker, escrow))
    }
}

/// Closes the emptied vault, on the authority of `escrow`, and hands its
/// reserve to `maker`, given the address `signer` that the record's seeds
/// derive. Refused, with the ledger untouched, unless that address is
/// `escrow`.
pub fn close_vault_signed(
    ledger: &mut Ledger,
    token_program: &Address,
    vault: &Address,
    maker: &Address,
    escrow: &Address,
    signer: &Option<Address>,
) -> (r: Result<(), EscrowError>)
    requires
        old(ledger).wf(),
    ensures
        final(ledger).wf(),
        final(ledger).same_host(*old(ledger)),
        match close_vault_signed_spec(
            old(ledger)@,
            *token_program,
            *vault,
            *maker,
            *escrow,
            *signer,
        ) {
            Ok(state) => r is Ok && final(ledger)@ == state,
            Err(e) => r == Err::<(), EscrowError>(e) && final(ledger)@ == old(ledger)@,
        },
        same_totals(final(ledger)@, old(ledger)@),
{
    let signs = match signer {
        Some(address) => *address == *escrow,
        None => false,
    };
    if !signs {
        return Err(EscrowError::AddressMismatch);
    }
    let cpi_accounts = CloseAccount { account: *vault, destination: *maker, authority: *escrow };
    close_account(ledger, token_program, &cpi_accounts)
}

/// What closing the vault does to `state` under the program `program_id`:
/// the program signs with the seeds of the record at `escrow`, and is
/// refused unless they derive `escrow` itself.
pub open spec fn close_vault_spec(
    state: Map<Address, Account>,
    program_id: Address,
    token_program: Address,
    vault: Address,
    maker: Address,
    escrow: Address,
) -> Result<Map<Address, Account>, EscrowError> {
    close_vault_signed_spec(
        state,
        token_program,
        vault,
        maker,
        escrow,
        signer_spec(state, escrow, program_id),
    )
}

/// Closes the emptied vault and hands its reserve to `maker`, signing as
/// the escrow with the seeds of its record. Refused, with the ledger
/// untouched, unless a record lives at `escrow` and its seeds derive
/// `escrow`.
pub fn close_vault(
    ledger: &mut Ledger,
    token_program: &Address,
    vault: &Address,
    maker: &Address,
    escrow: &Address,
) -> (r: Result<(), EscrowError>)
    requires
        old(ledger).wf(),
    ensures
        final(ledger).wf(),
        final(ledger).same_host(*old(ledger)),
        match close_vault_spec(
            old(ledger)@,
            old(ledger).spec_program_id(),
            *token_program,
            *vault,
            *maker,
            *escrow,
        ) {
            Ok(state) => r is Ok && final(ledger)@ == state,
            Err(e) => r == Err::<(), EscrowError>(e) && final(ledger)@ == old(ledger)@,
        },
        same_totals(final(ledger)@, old(ledger)@),
{
    let signer = signer(ledger, escrow);
    close_vault_signed(ledger, token_program, vault, maker, escrow, &signer)
}

/// What destroying the record at `escrow` does to `state`: the record is
/// gone, and `maker` has its reserve.
pub open spec fn close_escrow_spec(state: Map<Address, Account>, escrow: Address, maker: Address)
    -> Result<Map<Address, Account>, EscrowError> {
    if escrow_at(state, escrow) is None {
        Err(EscrowError::EscrowNotFound)
    } else if maker == escrow {
        Err(EscrowError::InvalidAccount)
    } else {
        Ok(credit_spec(state.remove(escrow), maker, state[escrow].lamports))
    }
}

/// Destroying a record leaves every asset's supply and the sum of the
/// lamports as they were, and a valid state valid.
pub proof fn lemma_close_escrow_preserves(
    state: Map<Address, Account>,
    escrow: Address,
    maker: Address,
)
    requires
        valid(state),
        close_escrow_spec(state, escrow, maker) is Ok,
    ensures
        valid(close_escrow_spec(state, escrow, maker)->Ok_0),
        forall|mint: Address|
            supply(close_escrow_spec(state, escrow, maker)->Ok_0, mint) == supply(state, mint),
        capital(close_escrow_spec(state, escrow, maker)->Ok_0) == capital(state),
{
    let removed = state.remove(escrow);
    let after = close_escrow_spec(state, escrow, maker)->Ok_0;
    lemma_remove(state, escrow);
    lemma_credit(removed, maker, state[escrow].lamports);
    assert forall|mint: Address| supply(after, mint) == supply(state, mint) by {
        assert(supply(removed, mint) == supply(state, mint));
    }
}

/// Destroys the record at `escrow` and hands its reserve to `maker`.
/// Refused, with the ledger untouched, if no escrow lives there, or if
/// `maker` is the escrow itself.
pub fn close_escrow(ledger: &mut Ledger, escrow: &Address, maker: &Address) -> (r: Result<
    (),
    EscrowError,
>)
    requires
        old(ledger).wf(),
    ensures
        final(ledger).wf(),
        final(ledger).same_host(*old(ledger)),
        match close_escrow_spec(old(ledger)@, *escrow, *maker) {
            Ok(state) => r is Ok && final(ledger)@ == state,
            Err(e) => r == Err::<(), EscrowError>(e) && final(ledger)@ == old(ledger)@,
        },
        same_totals(final(ledger)@, old(ledger)@),
{
    if ledger.escrow(escrow).is_none() {
        return Err(EscrowError::EscrowNotFound);
    }
    if *maker == *escrow {
        return Err(EscrowError::InvalidAccount);
    }
    let reserve = ledger.lamports(escrow);
    proof {
        ledger.lemma_wf_valid();
        lemma_remove(ledger@, *escrow);
        lemma_close_escrow_preserves(ledger@, *escrow, *maker);
    }
    ledger.delete(escrow);
    credit(ledger, maker, reserve);
    Ok(())
}

} // verus!
