//! A two-party swap through an escrow.
//!
//! A maker opens an escrow: asset A moves into a vault that only the escrow
//! can spend, and a record states how much of asset B the maker wants for
//! it. A taker takes the escrow: the maker receives asset B, the taker what
//! the vault holds, and vault and record are destroyed. Until then the maker
//! can have the deposit refunded, which destroys them as well.
//!
//! Each operation is applied to a [`ledger::Ledger`] as a whole or not at
//! all: where it is refused, the ledger is as it was.

pub mod accounts;
pub mod address;
pub mod associated_token;
pub mod errors;
pub mod instructions;
pub mod laws;
pub mod ledger;
pub mod state;
pub mod system_program;
pub mod token_interface;
pub mod vault;

use crate::accounts::{same_totals, Account, Rent};
use crate::address::Address;
use crate::errors::EscrowError;
use crate::instructions::make::{Make, MakeKeys};
use crate::instructions::refund::{Refund, RefundKeys};
use crate::instructions::take::{Take, TakeKeys};
use crate::instructions::take_dif_prog::TakeDifProg;
use crate::ledger::Ledger;
use crate::vault::{close_escrow, close_escrow_spec};
use vstd::prelude::*;

verus! {

/// Id under which the escrow program is deployed.
pub const ID: [u8; 32] = [
    101, 46, 109, 60, 35, 181, 79, 250, 140, 109, 125, 253, 64, 23, 235, 91,
    3, 163, 91, 141, 46, 241, 167, 190, 107, 194, 249, 188, 37, 226, 102, 57,
];

/// The id of the escrow program, as an address.
pub fn id() -> (a: Address)
    ensures
        a.bytes == ID,
{
    Address { bytes: ID }
}

/// What opening an escrow does to `state`, or why it is refused, where
/// `keys` are the addresses derived for it.
pub open spec fn make_spec(
    state: Map<Address, Account>,
    rent: Rent,
    ctx: Make,
    keys: MakeKeys,
    seed: u64,
    amount_receive: u64,
    amount_transfer: u64,
) -> Result<Map<Address, Account>, EscrowError> {
    match ctx.check_request_spec(amount_receive, amount_transfer) {
        Err(e) => Err(e),
        Ok(()) => match ctx.bumps_spec(keys) {
            Err(e) => Err(e),
            Ok(bumps) => match ctx.init_vault_spec(state, keys, rent) {
                Err(e) => Err(e),
                Ok(with_vault) => match ctx.init_escrow_spec(
                    with_vault,
                    seed,
                    amount_receive,
                    bumps,
                    rent,
                ) {
                    Err(e) => Err(e),
                    Ok(with_record) => ctx.make_spec(with_record, amount_transfer),
                },
            },
        },
    }
}

/// Opens an escrow with the derived addresses `keys`: creates the vault and
/// the record, and moves the deposit into the vault.
pub fn make_with_keys(
    ledger: &mut Ledger,
    ctx: &Make,
    keys: &MakeKeys,
    seed: u64,
    amount_receive: u64,
    amount_transfer: u64,
) -> (r: Result<(), EscrowError>)
    requires
        old(ledger).wf(),
    ensures
        final(ledger).wf(),
        final(ledger).same_host(*old(ledger)),
        match make_spec(
            old(ledger)@,
            old(ledger).spec_rent(),
            *ctx,
            *keys,
            seed,
            amount_receive,
            amount_transfer,
        ) {
            Ok(state) => r is Ok && final(ledger)@ == state,
            Err(e) => r == Err::<(), EscrowError>(e) && final(ledger)@ == old(ledger)@,
        },
        same_totals(final(ledger)@, old(ledger)@),
{
    ctx.check_request(amount_receive, amount_transfer)?;
    let bumps = ctx.bumps(keys)?;
    let mut work = ledger.snapshot();
    ctx.init_vault(&mut work, keys)?;
    ctx.init_escrow(&mut work, seed, amount_receive, &bumps)?;
    ctx.make(&mut work, amount_transfer)?;
    *ledger = work;
    Ok(())
}

/// Opens the escrow of `ctx.maker` with `seed`: the maker deposits
/// `amount_transfer` of asset A and asks `amount_receive` of asset B for it.
pub fn make(
    ledger: &mut Ledger,
    ctx: &Make,
    seed: u64,
    amount_receive: u64,
    amount_transfer: u64,
) -> (r: Result<(), EscrowError>)
    requires
        old(ledger).wf(),
    ensures
        final(ledger).wf(),
        final(ledger).same_host(*old(ledger)),
        match make_spec(
            old(ledger)@,
            old(ledger).spec_rent(),
            *ctx,
            ctx.spec_keys(seed, old(ledger).spec_program_id()),
            seed,
            amount_receive,
            amount_transfer,
        ) {
            Ok(state) => r is Ok && final(ledger)@ == state,
            Err(e) => r == Err::<(), EscrowError>(e) && final(ledger)@ == old(ledger)@,
        },
        same_totals(final(ledger)@, old(ledger)@),
{
    let keys = ctx.keys(seed, &ledger.program_id());
    make_with_keys(ledger, ctx, &keys, seed, amount_receive, amount_transfer)
}

/// What taking an escrow does to `state`, or why it is refused, where
/// `keys` are the addresses derived for it.
pub open spec fn take_spec(state: Map<Address, Account>, rent: Rent, ctx: Take, keys: TakeKeys)
    -> Result<Map<Address, Account>, EscrowError> {
    match ctx.validate_spec(state, keys) {
        Err(e) => Err(e),
        Ok(_) => match ctx.init_accounts_spec(state, keys, rent) {
            Err(e) => Err(e),
            Ok(ready) => match ctx.transfer_to_maker_spec(ready) {
                Err(e) => Err(e),
                Ok(paid) => match ctx.transfer_to_taker_signed_spec(paid, keys.escrow_signer) {
                    Err(e) => Err(e),
                    Ok(released) => match ctx.close_vault_signed_spec(released, keys.escrow_signer) {
                        Err(e) => Err(e),
                        Ok(closed) => close_escrow_spec(closed, ctx.escrow, ctx.maker),
                    },
                },
            },
        },
    }
}

/// Takes an escrow with the derived addresses `keys`: pays the maker,
/// releases the vault to the taker, and destroys vault and record.
pub fn take_with_keys(ledger: &mut Ledger, ctx: &Take, keys: &TakeKeys) -> (r: Result<
    (),
    EscrowError,
>)
    requires
        old(ledger).wf(),
    ensures
        final(ledger).wf(),
        final(ledger).same_host(*old(ledger)),
        match take_spec(old(ledger)@, old(ledger).spec_rent(), *ctx, *keys) {
            Ok(state) => r is Ok && final(ledger)@ == state,
            Err(e) => r == Err::<(), EscrowError>(e) && final(ledger)@ == old(ledger)@,
        },
        same_totals(final(ledger)@, old(ledger)@),
{
    ctx.validate(ledger, keys)?;
    let mut work = ledger.snapshot();
    ctx.init_accounts(&mut work, keys)?;
    ctx.transfer_to_maker(&mut work)?;
    ctx.transfer_to_taker_signed(&mut work, &keys.escrow_signer)?;
    ctx.close_vault_signed(&mut work, &keys.escrow_signer)?;
    close_escrow(&mut work, &ctx.escrow, &ctx.maker)?;
    *ledger = work;
    Ok(())
}

/// Takes the escrow at `ctx.escrow`: the taker pays the maker the amount of
/// asset B that the record asks and receives all of asset A that the vault
/// holds; vault and record are destroyed.
pub fn take(ledger: &mut Ledger, ctx: &Take) -> (r: Result<(), EscrowError>)
    requires
        old(ledger).wf(),
    ensures
        final(ledger).wf(),
        final(ledger).same_host(*old(ledger)),
        match take_spec(
            old(ledger)@,
            old(ledger).spec_rent(),
            *ctx,
            ctx.spec_keys(old(ledger)@, old(ledger).spec_program_id()),
        ) {
            Ok(state) => r is Ok && final(ledger)@ == state,
            Err(e) => r == Err::<(), EscrowError>(e) && final(ledger)@ == old(ledger)@,
        },
        same_totals(final(ledger)@, old(ledger)@),
{
    let keys = ctx.keys(ledger);
    take_with_keys(ledger, ctx, &keys)
}

/// What taking an escrow under a named token program does to `state`, or
/// why it is refused, where `keys` are the addresses derived for it.
pub open spec fn take_dif_prog_spec(
    state: Map<Address, Account>,
    rent: Rent,
    ctx: TakeDifProg,
    keys: TakeKeys,
) -> Result<Map<Address, Account>, EscrowError> {
    match ctx.validate_spec(state, keys) {
        Err(e) => Err(e),
        Ok(_) => match ctx.init_accounts_spec(state, keys, rent) {
            Err(e) => Err(e),
            Ok(ready) => match ctx.transfer_to_maker_spec(ready) {
                Err(e) => Err(e),
                Ok(paid) => match ctx.transfer_to_taker_signed_spec(paid, keys.escrow_signer) {
                    Err(e) => Err(e),
                    Ok(released) => match ctx.close_vault_signed_spec(released, keys.escrow_signer) {
                        Err(e) => Err(e),
                        Ok(closed) => close_escrow_spec(closed, ctx.escrow, ctx.maker),
                    },
                },
            },
        },
    }
}

/// Takes an escrow under a named token program, with the derived addresses
/// `keys`.
pub fn take_dif_prog_with_keys(ledger: &mut Ledger, ctx: &TakeDifProg, keys: &TakeKeys) -> (r:
    Result<(), EscrowError>)
    requires
        old(ledger).wf(),
    ensures
        final(ledger).wf(),
        final(ledger).same_host(*old(ledger)),
        match take_dif_prog_spec(old(ledger)@, old(ledger).spec_rent(), *ctx, *keys) {
            Ok(state) => r is Ok && final(ledger)@ == state,
            Err(e) => r == Err::<(), EscrowError>(e) && final(ledger)@ == old(ledger)@,
        },
        same_totals(final(ledger)@, old(ledger)@),
{
    ctx.validate(ledger, keys)?;
    let mut work = ledger.snapshot();
    ctx.init_accounts(&mut work, keys)?;
    ctx.transfer_to_maker(&mut work)?;
    ctx.transfer_to_taker_signed(&mut work, &keys.escrow_signer)?;
    ctx.close_vault_signed(&mut work, &keys.escrow_signer)?;
    close_escrow(&mut work, &ctx.escrow, &ctx.maker)?;
    *ledger = work;
    Ok(())
}

/// Takes the escrow at `ctx.escrow`, paying the maker under the token
/// program `ctx.token_program_2`.
pub fn take_dif_prog(ledger: &mut Ledger, ctx: &TakeDifProg) -> (r: Result<(), EscrowError>)
    requires
        old(ledger).wf(),
    ensures
        final(ledger).wf(),
        final(ledger).same_host(*old(ledger)),
        match take_dif_prog_spec(
            old(ledger)@,
            old(ledger).spec_rent(),
            *ctx,
            ctx.spec_keys(old(ledger)@, old(ledger).spec_program_id()),
        ) {
            Ok(state) => r is Ok && final(ledger)@ == state,
            Err(e) => r == Err::<(), EscrowError>(e) && final(ledger)@ == old(ledger)@,
        },
        same_totals(final(ledger)@, old(ledger)@),
{
    let keys = ctx.keys(ledger);
    take_dif_prog_with_keys(ledger, ctx, &keys)
}

/// What refunding an escrow does to `state`, or why it is refused, where
/// `keys` are the addresses derived for it.
pub open spec fn refund_spec(state: Map<Address, Account>, ctx: Refund, keys: RefundKeys) -> Result<
    Map<Address, Account>,
    EscrowError,
> {
    match ctx.validate_spec(state, keys) {
        Err(e) => Err(e),
        Ok(_) => match ctx.refund_signed_spec(state, keys.escrow_signer) {
            Err(e) => Err(e),
            Ok(released) => match ctx.close_vault_signed_spec(released, keys.escrow_signer) {
                Err(e) => Err(e),
                Ok(closed) => close_escrow_spec(closed, ctx.escrow, ctx.maker),
            },
        },
    }
}

/// Refunds an escrow with the derived addresses `keys`: releases the vault
/// to the maker, and destroys vault and record.
pub fn refund_with_keys(ledger: &mut Ledger, ctx: &Refund, keys: &RefundKeys) -> (r: Result<
    (),
    EscrowError,
>)
    requires
        old(ledger).wf(),
    ensures
        final(ledger).wf(),
        final(ledger).same_host(*old(ledger)),
        match refund_spec(old(ledger)@, *ctx, *keys) {
            Ok(state) => r is Ok && final(ledger)@ == state,
            Err(e) => r == Err::<(), EscrowError>(e) && final(ledger)@ == old(ledger)@,
        },
        same_totals(final(ledger)@, old(ledger)@),
{
    ctx.validate(ledger, keys)?;
    let mut work = ledger.snapshot();
    ctx.refund_signed(&mut work, &keys.escrow_signer)?;
    ctx.close_vault_signed(&mut work, &keys.escrow_signer)?;
    close_escrow(&mut work, &ctx.escrow, &ctx.maker)?;
    *ledger = work;
    Ok(())
}

/// Refunds the escrow at `ctx.escrow`: the maker receives all of asset A
/// that the vault holds; vault and record are destroyed.
pub fn refund(ledger: &mut Ledger, ctx: &Refund) -> (r: Result<(), EscrowError>)
    requires
        old(ledger).wf(),
    ensures
        final(ledger).wf(),
        final(ledger).same_host(*old(ledger)),
        match refund_spec(
            old(ledger)@,
            *ctx,
            ctx.spec_keys(old(ledger)@, old(ledger).spec_program_id()),
        ) {
            Ok(state) => r is Ok && final(ledger)@ == state,
            Err(e) => r == Err::<(), EscrowError>(e) && final(ledger)@ == old(ledger)@,
        },
        same_totals(final(ledger)@, old(ledger)@),
{
    let keys = ctx.keys(ledger);
    refund_with_keys(ledger, ctx, &keys)
}

} // verus!
