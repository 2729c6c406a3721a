//! What holds of the operations taken together.

use crate::accounts::{
    balance, capital, escrow_at, lamports, mint_at, supply, token_at, valid, Account, AccountData,
    Rent,
};
use crate::address::{program_address, Address};
use crate::associated_token::{
    create_idempotent_spec, lemma_create_idempotent_preserves, lemma_create_preserves,
};
use crate::errors::{ErrorKind, EscrowError};
use crate::instructions::make::{Make, MakeKeys};
use crate::instructions::refund::{Refund, RefundKeys};
use crate::instructions::take::{Take, TakeKeys};
use crate::instructions::take_dif_prog::TakeDifProg;
use crate::token_interface::{
    close_account_spec, lemma_close_preserves, lemma_transfer_preserves, token_account,
    transfer_checked_spec, CloseAccount, TransferChecked,
};
use crate::vault::{
    close_accounts, close_escrow_spec, close_vault_spec, lemma_close_escrow_preserves,
    release_accounts, release_spec,
};
use crate::{make_spec, refund_spec, take_dif_prog_spec, take_spec};
use vstd::prelude::*;

verus! {

/// Conservation. Where an escrow is taken, the taker's account for asset A
/// gains exactly what the vault held, the maker's account for asset B
/// gains exactly the amount that the record asks and the taker's account
/// for asset B loses it, unless the two are one account; the maker gains
/// the reserves of the vault and of the record, unless the maker is the
/// taker or one of the receiving accounts; no asset's supply changes, nor
/// the sum of the lamports; vault and record are gone; and every account
/// that the operation does not name is as it was.
pub proof fn lemma_take_conserves(
    state: Map<Address, Account>,
    rent: Rent,
    ctx: Take,
    keys: TakeKeys,
)
    requires
        valid(state),
        take_spec(state, rent, ctx, keys) is Ok,
    ensures
        ({
            let after = take_spec(state, rent, ctx, keys)->Ok_0;
            let record = escrow_at(state, ctx.escrow)->0;
            &&& valid(after)
            &&& balance(after, ctx.taker_ata_a) == balance(state, ctx.taker_ata_a) + balance(
                state,
                ctx.vault,
            )
            &&& ctx.taker_ata_b != ctx.maker_ata_b ==> {
                &&& balance(after, ctx.maker_ata_b) == balance(state, ctx.maker_ata_b)
                    + record.amount_receive
                &&& balance(after, ctx.taker_ata_b) == balance(state, ctx.taker_ata_b)
                    - record.amount_receive
            }
            &&& ctx.maker != ctx.taker && ctx.maker != ctx.maker_ata_b && ctx.maker
                != ctx.taker_ata_a ==> lamports(after, ctx.maker) == lamports(state, ctx.maker)
                + lamports(state, ctx.vault) + lamports(state, ctx.escrow)
            &&& forall|mint: Address| supply(after, mint) == supply(state, mint)
            &&& capital(after) == capital(state)
            &&& !after.dom().contains(ctx.vault)
            &&& !after.dom().contains(ctx.escrow)
            &&& forall|key: Address|
                key != ctx.escrow && key != ctx.vault && key != ctx.maker_ata_b && key
                    != ctx.taker_ata_b && key != ctx.taker_ata_a && key != ctx.maker && key
                    != ctx.taker ==> (#[trigger] after.dom().contains(key) == state.dom().contains(
                    key,
                )) && after[key] == state[key]
        }),
{
    let record = escrow_at(state, ctx.escrow)->0;
    let program = ctx.program_b_spec(state)->Ok_0;
    let with_maker = create_idempotent_spec(
        state,
        ctx.maker_ata_b_accounts(program),
        keys.maker_ata_b,
        rent.token_account,
    )->Ok_0;
    lemma_create_idempotent_preserves(
        state,
        ctx.maker_ata_b_accounts(program),
        keys.maker_ata_b,
        rent.token_account,
    );
    let ready = ctx.init_accounts_spec(state, keys, rent)->Ok_0;
    lemma_create_idempotent_preserves(
        with_maker,
        ctx.taker_ata_a_accounts(),
        keys.taker_ata_a,
        rent.token_account,
    );
    let paid = ctx.transfer_to_maker_spec(ready)->Ok_0;
    lemma_transfer_preserves(
        ready,
        program,
        ctx.payment_accounts(),
        record.amount_receive,
        mint_at(ready, ctx.mint_b)->0.decimals,
    );
    let released = ctx.transfer_to_taker_signed_spec(paid, keys.escrow_signer)->Ok_0;
    lemma_transfer_preserves(
        paid,
        ctx.token_program,
        release_accounts(ctx.vault, ctx.mint_a, ctx.taker_ata_a, ctx.escrow),
        token_at(paid, ctx.vault)->0.amount,
        mint_at(paid, ctx.mint_a)->0.decimals,
    );
    let closed = ctx.close_vault_signed_spec(released, keys.escrow_signer)->Ok_0;
    lemma_close_preserves(
        released,
        ctx.token_program,
        close_accounts(ctx.vault, ctx.maker, ctx.escrow),
    );
    crate::accounts::lemma_remove(released, ctx.vault);
    crate::system_program::lemma_credit(
        released.remove(ctx.vault),
        ctx.maker,
        released[ctx.vault].lamports,
    );
    lemma_close_escrow_preserves(closed, ctx.escrow, ctx.maker);
    crate::accounts::lemma_remove(closed, ctx.escrow);
    crate::system_program::lemma_credit(
        closed.remove(ctx.escrow),
        ctx.maker,
        closed[ctx.escrow].lamports,
    );
}

/// Exactly-once consumption. After an escrow was taken, whoever tries to
/// take or to refund the escrow at that address is refused because no
/// escrow lives there, an error of the state.
pub proof fn lemma_taken_once(
    state: Map<Address, Account>,
    rent: Rent,
    ctx: Take,
    keys: TakeKeys,
    again: Take,
    again_keys: TakeKeys,
    other: TakeDifProg,
    other_keys: TakeKeys,
    back: Refund,
    back_keys: RefundKeys,
)
    requires
        take_spec(state, rent, ctx, keys) is Ok,
        again.escrow == ctx.escrow,
        other.escrow == ctx.escrow,
        back.escrow == ctx.escrow,
    ensures
        take_spec(take_spec(state, rent, ctx, keys)->Ok_0, rent, again, again_keys) == Err::<
            Map<Address, Account>,
            EscrowError,
        >(EscrowError::EscrowNotFound),
        take_dif_prog_spec(take_spec(state, rent, ctx, keys)->Ok_0, rent, other, other_keys)
            == Err::<Map<Address, Account>, EscrowError>(EscrowError::EscrowNotFound),
        refund_spec(take_spec(state, rent, ctx, keys)->Ok_0, back, back_keys) == Err::<
            Map<Address, Account>,
            EscrowError,
        >(EscrowError::EscrowNotFound),
        EscrowError::EscrowNotFound.spec_kind() == ErrorKind::State,
{
}

/// Exactly-once consumption. After an escrow was refunded, whoever tries
/// to take or to refund the escrow at that address is refused because no
/// escrow lives there, an error of the state.
pub proof fn lemma_refunded_once(
    state: Map<Address, Account>,
    rent: Rent,
    ctx: Refund,
    keys: RefundKeys,
    again: Refund,
    again_keys: RefundKeys,
    taken: Take,
    taken_keys: TakeKeys,
    other: TakeDifProg,
    other_keys: TakeKeys,
)
    requires
        refund_spec(state, ctx, keys) is Ok,
        again.escrow == ctx.escrow,
        taken.escrow == ctx.escrow,
        other.escrow == ctx.escrow,
    ensures
        refund_spec(refund_spec(state, ctx, keys)->Ok_0, again, again_keys) == Err::<
            Map<Address, Account>,
            EscrowError,
        >(EscrowError::EscrowNotFound),
        take_spec(refund_spec(state, ctx, keys)->Ok_0, rent, taken, taken_keys) == Err::<
            Map<Address, Account>,
            EscrowError,
        >(EscrowError::EscrowNotFound),
        take_dif_prog_spec(refund_spec(state, ctx, keys)->Ok_0, rent, other, other_keys) == Err::<
            Map<Address, Account>,
            EscrowError,
        >(EscrowError::EscrowNotFound),
{
}

/// Cancellation round trip. An escrow that is refunded right after it was
/// opened, into the account that funded it, leaves the ledger exactly as
/// it was before it was opened: the maker's balance of asset A, the
/// maker's lamports, and all else.
pub proof fn lemma_refund_undoes_make(
    state: Map<Address, Account>,
    rent: Rent,
    ctx: Make,
    seed: u64,
    amount_receive: u64,
    amount_transfer: u64,
    program_id: Address,
)
    requires
        valid(state),
        make_spec(
            state,
            rent,
            ctx,
            ctx.spec_keys(seed, program_id),
            seed,
            amount_receive,
            amount_transfer,
        ) is Ok,
    ensures
        ({
            let opened = make_spec(
                state,
                rent,
                ctx,
                ctx.spec_keys(seed, program_id),
                seed,
                amount_receive,
                amount_transfer,
            )->Ok_0;
            let back = Refund::spec_of(ctx);
            refund_spec(opened, back, back.spec_keys(opened, program_id)) == Ok::<
                Map<Address, Account>,
                EscrowError,
            >(state)
        }),
{
    let keys = ctx.spec_keys(seed, program_id);
    let opened = make_spec(state, rent, ctx, keys, seed, amount_receive, amount_transfer)->Ok_0;
    lemma_make_opens(state, rent, ctx, keys, seed, amount_receive, amount_transfer);
    let bumps = ctx.bumps_spec(keys)->Ok_0;
    let back = Refund::spec_of(ctx);
    let back_keys = back.spec_keys(opened, program_id);
    assert(escrow_at(opened, ctx.escrow) == Some(ctx.record(seed, amount_receive, bumps)));
    assert(ctx.record(seed, amount_receive, bumps).spec_signer_seeds()
        == crate::state::escrow::escrow_seeds(ctx.maker, seed).push(seq![bumps.escrow]));
    crate::address::lemma_found_derives(
        crate::state::escrow::escrow_seeds(ctx.maker, seed),
        program_id,
    );
    assert(back_keys.escrow_signer == Some(ctx.escrow));
    assert(back.validate_spec(opened, back_keys) is Ok);
    let released = back.refund_signed_spec(opened, back_keys.escrow_signer)->Ok_0;
    assert(back.refund_signed_spec(opened, back_keys.escrow_signer) is Ok);
    let closed = back.close_vault_signed_spec(released, back_keys.escrow_signer)->Ok_0;
    assert(back.close_vault_signed_spec(released, back_keys.escrow_signer) is Ok);
    assert(refund_spec(opened, back, back_keys) is Ok);
    assert(refund_spec(opened, back, back_keys)->Ok_0 =~= state);
}

/// What opening an escrow makes. The record and the vault are created
/// together, where nothing lived before; the record says what was asked,
/// the vault belongs to the escrow and holds the deposit, which the
/// maker's account has lost; the maker has paid the reserves of both; no
/// asset's supply changes, nor the sum of the lamports; and every other
/// account is as it was.
pub proof fn lemma_make_opens(
    state: Map<Address, Account>,
    rent: Rent,
    ctx: Make,
    keys: MakeKeys,
    seed: u64,
    amount_receive: u64,
    amount_transfer: u64,
)
    requires
        valid(state),
        make_spec(state, rent, ctx, keys, seed, amount_receive, amount_transfer) is Ok,
    ensures
        ({
            let opened = make_spec(
                state,
                rent,
                ctx,
                keys,
                seed,
                amount_receive,
                amount_transfer,
            )->Ok_0;
            &&& valid(opened)
            &&& !state.dom().contains(ctx.escrow)
            &&& !state.dom().contains(ctx.vault)
            &&& escrow_at(opened, ctx.escrow) matches Some(record)
            &&& record.seed == seed && record.maker == ctx.maker && record.mint_a == ctx.mint_a
                && record.mint_b == ctx.mint_b && record.amount_receive == amount_receive
            &&& keys.escrow matches Some((_, bump)) && record.bump == bump
            &&& token_at(opened, ctx.vault) matches Some(vault)
            &&& vault.owner == ctx.escrow && vault.mint == ctx.mint_a && vault.amount
                == amount_transfer
            &&& balance(opened, ctx.maker_ata_a) == balance(state, ctx.maker_ata_a)
                - amount_transfer
            &&& lamports(opened, ctx.vault) == rent.token_account
            &&& lamports(opened, ctx.escrow) == rent.escrow
            &&& lamports(opened, ctx.maker) == lamports(state, ctx.maker) - rent.token_account
                - rent.escrow
            &&& forall|mint: Address| supply(opened, mint) == supply(state, mint)
            &&& capital(opened) == capital(state)
            &&& forall|key: Address|
                key != ctx.escrow && key != ctx.vault && key != ctx.maker_ata_a && key
                    != ctx.maker ==> (#[trigger] opened.dom().contains(key)
                    == state.dom().contains(key)) && opened[key] == state[key]
        }),
{
    let bumps = ctx.bumps_spec(keys)->Ok_0;
    let with_vault = ctx.init_vault_spec(state, keys, rent)->Ok_0;
    lemma_create_preserves(state, ctx.vault_accounts(), keys.vault, rent.token_account);
    let with_record = ctx.init_escrow_spec(with_vault, seed, amount_receive, bumps, rent)->Ok_0;
    ctx.lemma_init_escrow_preserves(with_vault, seed, amount_receive, bumps, rent);
    lemma_transfer_preserves(
        with_record,
        ctx.token_program,
        ctx.deposit_accounts(),
        amount_transfer,
        mint_at(with_record, ctx.mint_a)->0.decimals,
    );
}

/// What refunding an escrow does. The maker's account gains exactly what
/// the vault held, the maker gains the reserves of the vault and of the
/// record, no asset's supply changes, nor the sum of the lamports, vault
/// and record are gone, and every other account is as it was.
pub proof fn lemma_refund_returns(state: Map<Address, Account>, ctx: Refund, keys: RefundKeys)
    requires
        valid(state),
        refund_spec(state, ctx, keys) is Ok,
    ensures
        ({
            let after = refund_spec(state, ctx, keys)->Ok_0;
            &&& valid(after)
            &&& balance(after, ctx.maker_ata_a) == balance(state, ctx.maker_ata_a) + balance(
                state,
                ctx.vault,
            )
            &&& lamports(after, ctx.maker) == lamports(state, ctx.maker) + lamports(
                state,
                ctx.vault,
            ) + lamports(state, ctx.escrow)
            &&& forall|mint: Address| supply(after, mint) == supply(state, mint)
            &&& capital(after) == capital(state)
            &&& !after.dom().contains(ctx.vault)
            &&& !after.dom().contains(ctx.escrow)
            &&& forall|key: Address|
                key != ctx.escrow && key != ctx.vault && key != ctx.maker_ata_a && key
                    != ctx.maker ==> (#[trigger] after.dom().contains(key) == state.dom().contains(
                    key,
                )) && after[key] == state[key]
        }),
{
    let released = ctx.refund_signed_spec(state, keys.escrow_signer)->Ok_0;
    lemma_transfer_preserves(
        state,
        ctx.token_program,
        release_accounts(ctx.vault, ctx.mint_a, ctx.maker_ata_a, ctx.escrow),
        token_at(state, ctx.vault)->0.amount,
        mint_at(state, ctx.mint_a)->0.decimals,
    );
    let closed = ctx.close_vault_signed_spec(released, keys.escrow_signer)->Ok_0;
    lemma_close_preserves(
        released,
        ctx.token_program,
        close_accounts(ctx.vault, ctx.maker, ctx.escrow),
    );
    crate::accounts::lemma_remove(released, ctx.vault);
    crate::system_program::lemma_credit(
        released.remove(ctx.vault),
        ctx.maker,
        released[ctx.vault].lamports,
    );
    lemma_close_escrow_preserves(closed, ctx.escrow, ctx.maker);
    crate::accounts::lemma_remove(closed, ctx.escrow);
    crate::system_program::lemma_credit(
        closed.remove(ctx.escrow),
        ctx.maker,
        closed[ctx.escrow].lamports,
    );
}

/// No operation touches another escrow: whatever is opened, taken or
/// refunded, the record at every other address is as it was.
pub proof fn lemma_other_records_stay(
    state: Map<Address, Account>,
    rent: Rent,
    other: Address,
    made: Make,
    made_keys: MakeKeys,
    seed: u64,
    amount_receive: u64,
    amount_transfer: u64,
    taken: Take,
    taken_keys: TakeKeys,
    named: TakeDifProg,
    named_keys: TakeKeys,
    back: Refund,
    back_keys: RefundKeys,
)
    ensures
        other != made.escrow ==> (make_spec(
            state,
            rent,
            made,
            made_keys,
            seed,
            amount_receive,
            amount_transfer,
        ) matches Ok(after) ==> escrow_at(after, other) == escrow_at(state, other)),
        other != taken.escrow ==> (take_spec(state, rent, taken, taken_keys) matches Ok(after)
            ==> escrow_at(after, other) == escrow_at(state, other)),
        other != named.escrow ==> (take_dif_prog_spec(state, rent, named, named_keys) matches Ok(
            after,
        ) ==> escrow_at(after, other) == escrow_at(state, other)),
        other != back.escrow ==> (refund_spec(state, back, back_keys) matches Ok(after)
            ==> escrow_at(after, other) == escrow_at(state, other)),
{
}

/// Interface mismatch rejection. An escrow whose requested asset is
/// governed by neither of the two token programs on offer cannot be taken.
/// Where the accounts are otherwise those of the escrow, the error is
/// `InvalidTokenProgram`.
pub proof fn lemma_take_rejects_other_interface(
    state: Map<Address, Account>,
    rent: Rent,
    ctx: Take,
    keys: TakeKeys,
)
    requires
        mint_at(state, ctx.mint_b) matches Some(m) && m.token_program != ctx.token_program
            && m.token_program != ctx.token_program_option,
    ensures
        take_spec(state, rent, ctx, keys) is Err,
        ctx.validate_spec(state, keys) is Ok ==> take_spec(state, rent, ctx, keys) == Err::<
            Map<Address, Account>,
            EscrowError,
        >(EscrowError::InvalidTokenProgram),
        ctx.transfer_to_maker_spec(state) is Err,
        escrow_at(state, ctx.escrow) is Some ==> ctx.transfer_to_maker_spec(state) == Err::<
            Map<Address, Account>,
            EscrowError,
        >(EscrowError::InvalidTokenProgram),
{
}

/// Collision rejection. While an escrow is open, its maker cannot open
/// another with the same seed, whatever else the second request says.
/// Where it says the same as the first, the error is `AddressInUse`, an
/// error of the state.
pub proof fn lemma_make_collides(
    state: Map<Address, Account>,
    rent: Rent,
    ctx: Make,
    seed: u64,
    amount_receive: u64,
    amount_transfer: u64,
    program_id: Address,
    second: Make,
    second_receive: u64,
    second_transfer: u64,
)
    requires
        make_spec(
            state,
            rent,
            ctx,
            ctx.spec_keys(seed, program_id),
            seed,
            amount_receive,
            amount_transfer,
        ) is Ok,
        second.maker == ctx.maker,
    ensures
        ({
            let opened = make_spec(
                state,
                rent,
                ctx,
                ctx.spec_keys(seed, program_id),
                seed,
                amount_receive,
                amount_transfer,
            )->Ok_0;
            &&& make_spec(
                opened,
                rent,
                second,
                second.spec_keys(seed, program_id),
                seed,
                second_receive,
                second_transfer,
            ) is Err
            &&& make_spec(
                opened,
                rent,
                ctx,
                ctx.spec_keys(seed, program_id),
                seed,
                amount_receive,
                amount_transfer,
            ) == Err::<Map<Address, Account>, EscrowError>(EscrowError::AddressInUse)
            &&& EscrowError::AddressInUse.spec_kind() == ErrorKind::State
        }),
{
    let keys = ctx.spec_keys(seed, program_id);
    let opened = make_spec(state, rent, ctx, keys, seed, amount_receive, amount_transfer)->Ok_0;
    let bumps = ctx.bumps_spec(keys)->Ok_0;
    assert(escrow_at(opened, ctx.escrow) == Some(ctx.record(seed, amount_receive, bumps)));
    assert(opened.dom().contains(ctx.vault));
    let second_keys = second.spec_keys(seed, program_id);
    assert(second_keys.escrow == keys.escrow);
    if second.bumps_spec(second_keys) is Ok {
        assert(second.escrow == ctx.escrow);
        if second.init_vault_spec(opened, second_keys, rent) is Ok {
            let with_vault = second.init_vault_spec(opened, second_keys, rent)->Ok_0;
            assert(with_vault.dom().contains(second.escrow));
        }
    }
}

/// Naming the token program of the requested asset changes nothing where
/// it is named rightly: the escrow is taken as by a `Take` that is offered
/// both token programs.
pub proof fn lemma_take_dif_prog_is_take(
    state: Map<Address, Account>,
    rent: Rent,
    ctx: TakeDifProg,
    keys: TakeKeys,
)
    requires
        mint_at(state, ctx.mint_b) matches Some(m) && m.token_program == ctx.token_program_2,
    ensures
        take_dif_prog_spec(state, rent, ctx, keys) == take_spec(
            state,
            rent,
            ctx.spec_as_take(),
            keys,
        ),
{
    let take = ctx.spec_as_take();
    assert(take.program_b_spec(state) == Ok::<Address, EscrowError>(ctx.token_program_2));
    assert(ctx.validate_spec(state, keys) == take.validate_spec(state, keys));
    assert(ctx.init_accounts_spec(state, keys, rent) == take.init_accounts_spec(state, keys, rent));
    if ctx.validate_spec(state, keys) is Ok && ctx.init_accounts_spec(state, keys, rent) is Ok {
        let ready = ctx.init_accounts_spec(state, keys, rent)->Ok_0;
        assert(mint_at(ready, ctx.mint_b) == mint_at(state, ctx.mint_b));
        assert(take.program_b_spec(ready) == Ok::<Address, EscrowError>(ctx.token_program_2));
        assert(ctx.transfer_to_maker_spec(ready) == take.transfer_to_maker_spec(ready));
    }
}

/// Conservation, where the taker names the token program of the requested
/// asset: what holds of an escrow taken by a `Take` holds of it.
pub proof fn lemma_take_dif_prog_conserves(
    state: Map<Address, Account>,
    rent: Rent,
    ctx: TakeDifProg,
    keys: TakeKeys,
)
    requires
        valid(state),
        take_dif_prog_spec(state, rent, ctx, keys) is Ok,
    ensures
        ({
            let after = take_dif_prog_spec(state, rent, ctx, keys)->Ok_0;
            let record = escrow_at(state, ctx.escrow)->0;
            &&& valid(after)
            &&& balance(after, ctx.taker_ata_a) == balance(state, ctx.taker_ata_a) + balance(
                state,
                ctx.vault,
            )
            &&& ctx.taker_ata_b != ctx.maker_ata_b ==> {
                &&& balance(after, ctx.maker_ata_b) == balance(state, ctx.maker_ata_b)
                    + record.amount_receive
                &&& balance(after, ctx.taker_ata_b) == balance(state, ctx.taker_ata_b)
                    - record.amount_receive
            }
            &&& ctx.maker != ctx.taker && ctx.maker != ctx.maker_ata_b && ctx.maker
                != ctx.taker_ata_a ==> lamports(after, ctx.maker) == lamports(state, ctx.maker)
                + lamports(state, ctx.vault) + lamports(state, ctx.escrow)
            &&& forall|mint: Address| supply(after, mint) == supply(state, mint)
            &&& capital(after) == capital(state)
            &&& !after.dom().contains(ctx.vault)
            &&& !after.dom().contains(ctx.escrow)
        }),
{
    lemma_take_dif_prog_is_take(state, rent, ctx, keys);
    lemma_take_conserves(state, rent, ctx.spec_as_take(), keys);
}

/// Interface mismatch rejection, where the taker names the token program
/// of the requested asset: an escrow cannot be taken under a token program
/// that does not govern that asset. Where the accounts are otherwise those
/// of the escrow, the error is `InvalidTokenProgram`.
pub proof fn lemma_take_dif_prog_rejects_other_interface(
    state: Map<Address, Account>,
    rent: Rent,
    ctx: TakeDifProg,
    keys: TakeKeys,
)
    requires
        mint_at(state, ctx.mint_b) matches Some(m) && m.token_program != ctx.token_program_2,
    ensures
        take_dif_prog_spec(state, rent, ctx, keys) is Err,
        ctx.validate_spec(state, keys) is Ok ==> take_dif_prog_spec(state, rent, ctx, keys)
            == Err::<Map<Address, Account>, EscrowError>(EscrowError::InvalidTokenProgram),
{
}

/// Only its owner spends from a token account: where a transfer or a close
/// is accepted, its authority is the owner of the account it takes from.
/// So a vault, which its escrow owns, is moved and closed on the authority
/// of the escrow alone.
pub proof fn lemma_only_the_owner_spends(
    state: Map<Address, Account>,
    program: Address,
    transfer: TransferChecked,
    amount: u64,
    decimals: u8,
    close: CloseAccount,
)
    ensures
        transfer_checked_spec(state, program, transfer, amount, decimals) is Ok ==> (token_account(
            state,
            program,
            transfer.from,
        ) matches Some(from) && transfer.authority == from.owner),
        close_account_spec(state, program, close) is Ok ==> (token_account(
            state,
            program,
            close.account,
        ) matches Some(closed) && close.authority == closed.owner),
{
}

/// The escrow signs with its seeds. Where a release or a close of a vault
/// is accepted, a record lives at the escrow's address, and the seeds of
/// that record (the prefix, the maker, the seed, the bump seed) derive that
/// address under the program: the authority of the transfer or close.
pub proof fn lemma_escrow_signs_with_its_seeds(
    state: Map<Address, Account>,
    program_id: Address,
    token_program: Address,
    vault: Address,
    mint_a: Address,
    to: Address,
    maker: Address,
    escrow: Address,
)
    ensures
        release_spec(state, program_id, token_program, vault, mint_a, to, escrow) is Ok ==> (
        escrow_at(state, escrow) matches Some(record) && program_address(
            record.spec_signer_seeds(),
            program_id,
        ) == Some(escrow)),
        close_vault_spec(state, program_id, token_program, vault, maker, escrow) is Ok ==> (
        escrow_at(state, escrow) matches Some(record) && program_address(
            record.spec_signer_seeds(),
            program_id,
        ) == Some(escrow)),
{
}

/// One capability. Two accepted releases on records with the same maker,
/// seed and bump seed sign with the same seeds, and so act under the same
/// address, whatever else the two ledgers hold.
pub proof fn lemma_one_capability(
    program_id: Address,
    first: Map<Address, Account>,
    first_program: Address,
    first_vault: Address,
    first_mint: Address,
    first_to: Address,
    first_escrow: Address,
    second: Map<Address, Account>,
    second_program: Address,
    second_vault: Address,
    second_mint: Address,
    second_to: Address,
    second_escrow: Address,
)
    requires
        release_spec(
            first,
            program_id,
            first_program,
            first_vault,
            first_mint,
            first_to,
            first_escrow,
        ) is Ok,
        release_spec(
            second,
            program_id,
            second_program,
            second_vault,
            second_mint,
            second_to,
            second_escrow,
        ) is Ok,
        escrow_at(first, first_escrow)->0.maker == escrow_at(second, second_escrow)->0.maker,
        escrow_at(first, first_escrow)->0.seed == escrow_at(second, second_escrow)->0.seed,
        escrow_at(first, first_escrow)->0.bump == escrow_at(second, second_escrow)->0.bump,
    ensures
        escrow_at(first, first_escrow)->0.spec_signer_seeds() == escrow_at(
            second,
            second_escrow,
        )->0.spec_signer_seeds(),
        first_escrow == second_escrow,
{
}

/// Taking an escrow, step by step: each step derives what it needs anew.
pub open spec fn take_by_steps(
    state: Map<Address, Account>,
    rent: Rent,
    ctx: Take,
    program_id: Address,
) -> Result<Map<Address, Account>, EscrowError> {
    match ctx.validate_spec(state, ctx.spec_keys(state, program_id)) {
        Err(e) => Err(e),
        Ok(_) => match ctx.init_accounts_spec(state, ctx.spec_keys(state, program_id), rent) {
            Err(e) => Err(e),
            Ok(ready) => match ctx.transfer_to_maker_spec(ready) {
                Err(e) => Err(e),
                Ok(paid) => match ctx.transfer_to_taker_spec(paid, program_id) {
                    Err(e) => Err(e),
                    Ok(released) => match ctx.close_vault_spec(released, program_id) {
                        Err(e) => Err(e),
                        Ok(closed) => close_escrow_spec(closed, ctx.escrow, ctx.maker),
                    },
                },
            },
        },
    }
}

/// Refunding an escrow, step by step: each step derives what it needs anew.
pub open spec fn refund_by_steps(state: Map<Address, Account>, ctx: Refund, program_id: Address)
    -> Result<Map<Address, Account>, EscrowError> {
    match ctx.validate_spec(state, ctx.spec_keys(state, program_id)) {
        Err(e) => Err(e),
        Ok(_) => match ctx.refund_spec(state, program_id) {
            Err(e) => Err(e),
            Ok(released) => match ctx.close_vault_spec(released, program_id) {
                Err(e) => Err(e),
                Ok(closed) => close_escrow_spec(closed, ctx.escrow, ctx.maker),
            },
        },
    }
}

/// An operation is its steps. Taking or refunding an escrow does what the
/// steps do when each is made on its own, in order, after the accounts were
/// checked: the steps that act as the escrow derive its address from the
/// record each time, and the record does not change before it is destroyed.
pub proof fn lemma_operations_are_their_steps(
    state: Map<Address, Account>,
    rent: Rent,
    program_id: Address,
    taken: Take,
    back: Refund,
)
    ensures
        take_spec(state, rent, taken, taken.spec_keys(state, program_id)) == take_by_steps(
            state,
            rent,
            taken,
            program_id,
        ),
        refund_spec(state, back, back.spec_keys(state, program_id)) == refund_by_steps(
            state,
            back,
            program_id,
        ),
{
    let keys = taken.spec_keys(state, program_id);
    if taken.validate_spec(state, keys) is Ok && taken.init_accounts_spec(state, keys, rent) is Ok {
        let ready = taken.init_accounts_spec(state, keys, rent)->Ok_0;
        assert(escrow_at(ready, taken.escrow) == escrow_at(state, taken.escrow));
        if taken.transfer_to_maker_spec(ready) is Ok {
            let paid = taken.transfer_to_maker_spec(ready)->Ok_0;
            assert(escrow_at(paid, taken.escrow) == escrow_at(state, taken.escrow));
            if taken.transfer_to_taker_spec(paid, program_id) is Ok {
                let released = taken.transfer_to_taker_spec(paid, program_id)->Ok_0;
                assert(escrow_at(released, taken.escrow) == escrow_at(state, taken.escrow));
            }
        }
    }
    let back_keys = back.spec_keys(state, program_id);
    if back.validate_spec(state, back_keys) is Ok && back.refund_spec(state, program_id) is Ok {
        let released = back.refund_spec(state, program_id)->Ok_0;
        assert(escrow_at(released, back.escrow) == escrow_at(state, back.escrow));
    }
}

/// What opening an escrow needs: a request for two different assets and
/// nonzero amounts; the escrow and the vault at their derived addresses,
/// both free; both mints registered, the deposited one with the token
/// program named; the maker a wallet that holds both reserves; and the
/// funding account a token account of the maker for the deposited asset
/// that holds the deposit.
pub open spec fn make_ready(
    state: Map<Address, Account>,
    rent: Rent,
    ctx: Make,
    keys: MakeKeys,
    amount_receive: u64,
    amount_transfer: u64,
) -> bool {
    &&& amount_receive > 0
    &&& amount_transfer > 0
    &&& ctx.mint_a != ctx.mint_b
    &&& keys.escrow matches Some((address, _))
    &&& address == ctx.escrow
    &&& keys.vault == Some(ctx.vault)
    &&& !state.dom().contains(ctx.escrow)
    &&& !state.dom().contains(ctx.vault)
    &&& ctx.escrow != ctx.vault
    &&& mint_at(state, ctx.mint_a) matches Some(m)
    &&& m.token_program == ctx.token_program
    &&& mint_at(state, ctx.mint_b) is Some
    &&& state.dom().contains(ctx.maker)
    &&& state[ctx.maker].data == AccountData::System
    &&& state[ctx.maker].lamports >= rent.token_account + rent.escrow
    &&& token_account(state, ctx.token_program, ctx.maker_ata_a) matches Some(funding)
    &&& funding.mint == ctx.mint_a
    &&& funding.owner == ctx.maker
    &&& funding.amount >= amount_transfer
}

/// When opening is owed. An escrow is opened if and only if the request
/// and the ledger are ready for it.
pub proof fn lemma_make_accepted(
    state: Map<Address, Account>,
    rent: Rent,
    ctx: Make,
    keys: MakeKeys,
    seed: u64,
    amount_receive: u64,
    amount_transfer: u64,
)
    ensures
        make_spec(state, rent, ctx, keys, seed, amount_receive, amount_transfer) is Ok
            <==> make_ready(state, rent, ctx, keys, amount_receive, amount_transfer),
{
}

/// The receiving account at `key` is there and right, or is absent and can
/// be created: it is at its derived address, and if it exists it is a token
/// account of `owner` for `mint` under `program`.
pub open spec fn receiving_ready(
    state: Map<Address, Account>,
    key: Address,
    program: Address,
    mint: Address,
    owner: Address,
    derived: Option<Address>,
) -> bool {
    &&& derived == Some(key)
    &&& state.dom().contains(key) ==> (token_account(state, program, key) matches Some(t)
        && t.mint == mint && t.owner == owner)
}

/// What taking an escrow needs: a live record of this maker and these
/// mints; the escrow and the vault at their derived addresses; the
/// requested asset governed by one of the two token programs, the
/// deposited one by the first; the vault a token account of the escrow for
/// the deposited asset; the paying account a token account of the taker
/// for the requested asset that holds what the record asks; the two
/// receiving accounts ready, and the taker a wallet that holds the reserve
/// of each that is absent; and the accounts named apart from each other.
pub open spec fn take_ready(state: Map<Address, Account>, rent: Rent, ctx: Take, keys: TakeKeys)
    -> bool {
    let absent_b = !state.dom().contains(ctx.maker_ata_b);
    let absent_a = !state.dom().contains(ctx.taker_ata_a);
    &&& escrow_at(state, ctx.escrow) matches Some(record)
    &&& record.maker == ctx.maker
    &&& record.mint_a == ctx.mint_a
    &&& record.mint_b == ctx.mint_b
    &&& ctx.mint_a != ctx.mint_b
    &&& keys.escrow_signer == Some(ctx.escrow)
    &&& keys.vault == Some(ctx.vault)
    &&& mint_at(state, ctx.mint_a) matches Some(mint_a)
    &&& mint_a.token_program == ctx.token_program
    &&& mint_at(state, ctx.mint_b) matches Some(mint_b)
    &&& (mint_b.token_program == ctx.token_program || mint_b.token_program
        == ctx.token_program_option)
    &&& token_account(state, ctx.token_program, ctx.vault) matches Some(vault)
    &&& vault.mint == ctx.mint_a
    &&& vault.owner == ctx.escrow
    &&& token_account(state, mint_b.token_program, ctx.taker_ata_b) matches Some(paying)
    &&& paying.mint == ctx.mint_b
    &&& paying.owner == ctx.taker
    &&& paying.amount >= record.amount_receive
    &&& receiving_ready(
        state,
        ctx.maker_ata_b,
        mint_b.token_program,
        ctx.mint_b,
        ctx.maker,
        keys.maker_ata_b,
    )
    &&& receiving_ready(
        state,
        ctx.taker_ata_a,
        ctx.token_program,
        ctx.mint_a,
        ctx.taker,
        keys.taker_ata_a,
    )
    &&& absent_a || absent_b ==> state.dom().contains(ctx.taker) && state[ctx.taker].data
        == AccountData::System && state[ctx.taker].lamports >= rent.token_account
    &&& absent_a && absent_b ==> state[ctx.taker].lamports >= 2 * rent.token_account
    &&& ctx.maker_ata_b != ctx.taker_ata_a
    &&& ctx.taker_ata_a != ctx.vault
    &&& ctx.maker != ctx.vault
    &&& ctx.maker != ctx.escrow
}

/// When taking is owed. An escrow is taken wherever the accounts and the
/// ledger are ready for it.
pub proof fn lemma_take_accepted(
    state: Map<Address, Account>,
    rent: Rent,
    ctx: Take,
    keys: TakeKeys,
)
    requires
        valid(state),
        take_ready(state, rent, ctx, keys),
    ensures
        take_spec(state, rent, ctx, keys) is Ok,
{
    let record = escrow_at(state, ctx.escrow)->0;
    let program = mint_at(state, ctx.mint_b)->0.token_program;
    assert(ctx.program_b_spec(state) == Ok::<Address, EscrowError>(program));
    assert(ctx.validate_spec(state, keys) is Ok);
    let for_maker = ctx.maker_ata_b_accounts(program);
    assert(create_idempotent_spec(state, for_maker, keys.maker_ata_b, rent.token_account) is Ok);
    let with_maker = create_idempotent_spec(
        state,
        for_maker,
        keys.maker_ata_b,
        rent.token_account,
    )->Ok_0;
    lemma_create_idempotent_preserves(state, for_maker, keys.maker_ata_b, rent.token_account);
    assert(create_idempotent_spec(
        with_maker,
        ctx.taker_ata_a_accounts(),
        keys.taker_ata_a,
        rent.token_account,
    ) is Ok);
    let ready = ctx.init_accounts_spec(state, keys, rent)->Ok_0;
    lemma_create_idempotent_preserves(
        with_maker,
        ctx.taker_ata_a_accounts(),
        keys.taker_ata_a,
        rent.token_account,
    );
    assert(ctx.transfer_to_maker_spec(ready) is Ok);
    let paid = ctx.transfer_to_maker_spec(ready)->Ok_0;
    lemma_transfer_preserves(
        ready,
        program,
        ctx.payment_accounts(),
        record.amount_receive,
        mint_at(ready, ctx.mint_b)->0.decimals,
    );
    assert(ctx.transfer_to_taker_signed_spec(paid, keys.escrow_signer) is Ok);
    let released = ctx.transfer_to_taker_signed_spec(paid, keys.escrow_signer)->Ok_0;
    assert(ctx.close_vault_signed_spec(released, keys.escrow_signer) is Ok);
}

/// What refunding an escrow needs: a live record of this maker and this
/// mint; the escrow and the vault at their derived addresses; the deposited
/// asset governed by the token program named; the vault a token account of
/// the escrow, and the receiving account one of the maker, both for the
/// deposited asset; and the maker, the vault and the receiving account
/// apart from each other.
pub open spec fn refund_ready(state: Map<Address, Account>, ctx: Refund, keys: RefundKeys)
    -> bool {
    &&& escrow_at(state, ctx.escrow) matches Some(record)
    &&& record.maker == ctx.maker
    &&& record.mint_a == ctx.mint_a
    &&& keys.escrow_signer == Some(ctx.escrow)
    &&& keys.vault == Some(ctx.vault)
    &&& mint_at(state, ctx.mint_a) matches Some(mint_a)
    &&& mint_a.token_program == ctx.token_program
    &&& token_account(state, ctx.token_program, ctx.vault) matches Some(vault)
    &&& vault.mint == ctx.mint_a
    &&& vault.owner == ctx.escrow
    &&& token_account(state, ctx.token_program, ctx.maker_ata_a) matches Some(receiving)
    &&& receiving.mint == ctx.mint_a
    &&& receiving.owner == ctx.maker
    &&& ctx.maker_ata_a != ctx.vault
    &&& ctx.maker != ctx.vault
    &&& ctx.maker != ctx.escrow
}

/// When refunding is owed. An escrow is refunded wherever the accounts and
/// the ledger are ready for it.
pub proof fn lemma_refund_accepted(state: Map<Address, Account>, ctx: Refund, keys: RefundKeys)
    requires
        valid(state),
        refund_ready(state, ctx, keys),
    ensures
        refund_spec(state, ctx, keys) is Ok,
{
    let released = ctx.refund_signed_spec(state, keys.escrow_signer)->Ok_0;
    assert(ctx.refund_signed_spec(state, keys.escrow_signer) is Ok);
    lemma_transfer_preserves(
        state,
        ctx.token_program,
        release_accounts(ctx.vault, ctx.mint_a, ctx.maker_ata_a, ctx.escrow),
        token_at(state, ctx.vault)->0.amount,
        mint_at(state, ctx.mint_a)->0.decimals,
    );
    assert(ctx.close_vault_signed_spec(released, keys.escrow_signer) is Ok);
}

/// When taking under a named token program is owed. An escrow is taken
/// wherever that token program governs the requested asset and the accounts
/// and the ledger are ready for a `Take` that is offered both token
/// programs.
pub proof fn lemma_take_dif_prog_accepted(
    state: Map<Address, Account>,
    rent: Rent,
    ctx: TakeDifProg,
    keys: TakeKeys,
)
    requires
        valid(state),
        mint_at(state, ctx.mint_b) matches Some(m) && m.token_program == ctx.token_program_2,
        take_ready(state, rent, ctx.spec_as_take(), keys),
    ensures
        take_dif_prog_spec(state, rent, ctx, keys) is Ok,
{
    lemma_take_dif_prog_is_take(state, rent, ctx, keys);
    lemma_take_accepted(state, rent, ctx.spec_as_take(), keys);
}

} // verus!
