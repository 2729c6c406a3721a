#![allow(dead_code, unused_imports)]
use anchor_escrow_interface::accounts::Rent;
use anchor_escrow_interface::address::Address;
use anchor_escrow_interface::associated_token::get_associated_token_address_with_program_id;
use anchor_escrow_interface::errors::EscrowError;
use anchor_escrow_interface::instructions::{Make, Refund, Take, TakeDifProg};
use anchor_escrow_interface::ledger::Ledger;
use anchor_escrow_interface::system_program::airdrop;
use anchor_escrow_interface::errors::ErrorKind;
use anchor_escrow_interface::token_interface::{
    close_account, initialize_account, initialize_mint, mint_to, transfer_checked, CloseAccount,
    TransferChecked,
};
use anchor_escrow_interface::{id, make, refund, take, take_dif_prog};
use anchor_lang::prelude::Pubkey;

const TOKEN_RESERVE: u64 = 2_039_280;
const ESCROW_RESERVE: u64 = 1_733_040;

fn address(fill: u8) -> Address {
    Address::new_from_array([fill; 32])
}

fn token_program() -> Address {
    Address::new_from_array(anchor_spl::token::ID.to_bytes())
}

fn token_2022_program() -> Address {
    Address::new_from_array(anchor_spl::token_2022::ID.to_bytes())
}

fn escrow_address(maker: &Address, seed: u64) -> Address {
    let (key, _) = Pubkey::find_program_address(
        &[b"escrow", &maker.to_bytes(), &seed.to_le_bytes()],
        &Pubkey::new_from_array(id().to_bytes()),
    );
    Address::new_from_array(key.to_bytes())
}

fn ata(wallet: &Address, mint: &Address, program: &Address) -> Address {
    get_associated_token_address_with_program_id(wallet, mint, program).unwrap()
}

struct World {
    ledger: Ledger,
    maker: Address,
    taker: Address,
    mint_a: Address,
    mint_b: Address,
    program_b: Address,
    maker_ata_a: Address,
    taker_ata_b: Address,
}

fn world_with(program_b: Address) -> World {
    let rent = Rent { token_account: TOKEN_RESERVE, escrow: ESCROW_RESERVE };
    let mut ledger = Ledger::new(id(), rent);
    let maker = address(1);
    let taker = address(2);
    let mint_a = address(10);
    let mint_b = address(11);
    airdrop(&mut ledger, &maker, 10_000_000).unwrap();
    airdrop(&mut ledger, &taker, 10_000_000).unwrap();
    initialize_mint(&mut ledger, mint_a, token_program(), 6).unwrap();
    initialize_mint(&mut ledger, mint_b, program_b, 9).unwrap();
    let maker_ata_a = ata(&maker, &mint_a, &token_program());
    let taker_ata_b = ata(&taker, &mint_b, &program_b);
    initialize_account(&mut ledger, maker_ata_a, mint_a, maker).unwrap();
    initialize_account(&mut ledger, taker_ata_b, mint_b, taker).unwrap();
    mint_to(&mut ledger, maker_ata_a, 1_000).unwrap();
    mint_to(&mut ledger, taker_ata_b, 500).unwrap();
    World { ledger, maker, taker, mint_a, mint_b, program_b, maker_ata_a, taker_ata_b }
}

fn world() -> World {
    world_with(token_2022_program())
}

fn make_accounts(w: &World, seed: u64) -> Make {
    let escrow = escrow_address(&w.maker, seed);
    Make {
        maker: w.maker,
        mint_a: w.mint_a,
        mint_b: w.mint_b,
        maker_ata_a: w.maker_ata_a,
        vault: ata(&escrow, &w.mint_a, &token_program()),
        escrow,
        token_program: token_program(),
    }
}

fn take_accounts(w: &World, opened: &Make) -> Take {
    Take {
        maker: w.maker,
        taker: w.taker,
        mint_a: w.mint_a,
        mint_b: w.mint_b,
        vault: opened.vault,
        maker_ata_b: ata(&w.maker, &w.mint_b, &w.program_b),
        taker_ata_b: w.taker_ata_b,
        taker_ata_a: ata(&w.taker, &w.mint_a, &token_program()),
        escrow: opened.escrow,
        token_program: token_program(),
        token_program_option: token_2022_program(),
    }
}

fn take_dif_prog_accounts(w: &World, opened: &Make) -> TakeDifProg {
    TakeDifProg {
        maker: w.maker,
        taker: w.taker,
        mint_a: w.mint_a,
        mint_b: w.mint_b,
        vault: opened.vault,
        maker_ata_b: ata(&w.maker, &w.mint_b, &w.program_b),
        taker_ata_b: w.taker_ata_b,
        taker_ata_a: ata(&w.taker, &w.mint_a, &token_program()),
        escrow: opened.escrow,
        token_program: token_program(),
        token_program_2: token_2022_program(),
    }
}

fn balance(ledger: &Ledger, key: &Address) -> u64 {
    ledger.token_account(key).map(|t| t.amount).unwrap_or(0)
}

fn keys_of(w: &World) -> Vec<Address> {
    let a = escrow_address(&w.maker, 1);
    let b = escrow_address(&w.maker, 2);
    vec![
        w.maker,
        w.taker,
        w.mint_a,
        w.mint_b,
        w.maker_ata_a,
        w.taker_ata_b,
        a,
        b,
        ata(&a, &w.mint_a, &token_program()),
        ata(&b, &w.mint_a, &token_program()),
        ata(&w.maker, &w.mint_b, &w.program_b),
        ata(&w.taker, &w.mint_a, &token_program()),
    ]
}

fn same_accounts(w: &World, before: &Ledger) -> bool {
    w.ledger.len() == before.len()
        && keys_of(w).iter().all(|key| w.ledger.get(key) == before.get(key))
}

fn opened_world() -> (World, Make) {
    let mut w = world();
    let opened = make_accounts(&w, 1);
    make(&mut w.ledger, &opened, 1, 50, 100).unwrap();
    (w, opened)
}

#[test]
fn make_rejects_zero_amounts() {
    let mut w = world();
    let before = w.ledger.snapshot();
    let ctx = make_accounts(&w, 1);
    assert_eq!(make(&mut w.ledger, &ctx, 1, 0, 100), Err(EscrowError::ZeroAmount));
    assert_eq!(make(&mut w.ledger, &ctx, 1, 50, 0), Err(EscrowError::ZeroAmount));
    assert_eq!(make(&mut w.ledger, &ctx, 1, 0, 0), Err(EscrowError::ZeroAmount));
    assert_eq!(ctx.check_request(0, 1), Err(EscrowError::ZeroAmount));
    assert_eq!(ctx.check_request(1, 1), Ok(()));
    assert_eq!(ctx.make(&mut w.ledger, 0), Err(EscrowError::ZeroAmount));
    assert!(same_accounts(&w, &before));
}

#[test]
fn make_rejects_identical_mints() {
    let mut w = world();
    let before = w.ledger.snapshot();
    let mut ctx = make_accounts(&w, 1);
    ctx.mint_b = ctx.mint_a;
    assert_eq!(make(&mut w.ledger, &ctx, 1, 50, 100), Err(EscrowError::IdenticalMints));
    assert!(same_accounts(&w, &before));
}

#[test]
fn make_rejects_wrong_addresses() {
    let mut w = world();
    let before = w.ledger.snapshot();
    let right = make_accounts(&w, 1);
    let mut ctx = right;
    ctx.escrow = escrow_address(&w.maker, 2);
    assert_eq!(make(&mut w.ledger, &ctx, 1, 50, 100), Err(EscrowError::AddressMismatch));
    let mut ctx = right;
    ctx.vault = address(50);
    assert_eq!(make(&mut w.ledger, &ctx, 1, 50, 100), Err(EscrowError::AddressMismatch));
    let mut ctx = right;
    ctx.maker = w.taker;
    assert_eq!(make(&mut w.ledger, &ctx, 1, 50, 100), Err(EscrowError::AddressMismatch));
    assert!(same_accounts(&w, &before));
}

#[test]
fn make_rejects_an_underfunded_maker() {
    let mut w = world();
    let before = w.ledger.snapshot();
    let ctx = make_accounts(&w, 1);
    assert_eq!(make(&mut w.ledger, &ctx, 1, 50, 1_001), Err(EscrowError::InsufficientBalance));
    assert!(w.ledger.get(&ctx.escrow).is_none());
    assert!(w.ledger.get(&ctx.vault).is_none());
    assert!(same_accounts(&w, &before));
    assert_eq!(make(&mut w.ledger, &ctx, 1, 50, 1_000), Ok(()));
}

#[test]
fn make_rejects_a_maker_without_the_reserve() {
    let rent = Rent { token_account: TOKEN_RESERVE, escrow: ESCROW_RESERVE };
    let mut ledger = Ledger::new(id(), rent);
    let maker = address(1);
    let mint_a = address(10);
    let mint_b = address(11);
    initialize_mint(&mut ledger, mint_a, token_program(), 6).unwrap();
    initialize_mint(&mut ledger, mint_b, token_program(), 6).unwrap();
    let maker_ata_a = ata(&maker, &mint_a, &token_program());
    initialize_account(&mut ledger, maker_ata_a, mint_a, maker).unwrap();
    mint_to(&mut ledger, maker_ata_a, 1_000).unwrap();
    let escrow = escrow_address(&maker, 1);
    let ctx = Make {
        maker,
        mint_a,
        mint_b,
        maker_ata_a,
        vault: ata(&escrow, &mint_a, &token_program()),
        escrow,
        token_program: token_program(),
    };
    assert_eq!(make(&mut ledger, &ctx, 1, 50, 100), Err(EscrowError::InvalidAccount));
    airdrop(&mut ledger, &maker, TOKEN_RESERVE + ESCROW_RESERVE - 1).unwrap();
    assert_eq!(make(&mut ledger, &ctx, 1, 50, 100), Err(EscrowError::InsufficientBalance));
    assert_eq!(ledger.len(), 4);
    airdrop(&mut ledger, &maker, 1).unwrap();
    assert_eq!(make(&mut ledger, &ctx, 1, 50, 100), Ok(()));
    assert_eq!(ledger.lamports(&maker), 0);
}

#[test]
fn make_rejects_unregistered_mints() {
    let mut w = world();
    let before = w.ledger.snapshot();
    let mut ctx = make_accounts(&w, 1);
    ctx.mint_b = address(99);
    assert_eq!(make(&mut w.ledger, &ctx, 1, 50, 100), Err(EscrowError::InvalidMint));
    let mut ctx = make_accounts(&w, 1);
    ctx.mint_a = address(98);
    ctx.vault = ata(&ctx.escrow, &ctx.mint_a, &token_program());
    assert_eq!(make(&mut w.ledger, &ctx, 1, 50, 100), Err(EscrowError::InvalidMint));
    assert!(same_accounts(&w, &before));
}

#[test]
fn make_rejects_a_token_program_that_does_not_govern_the_deposit() {
    let mut w = world();
    let before = w.ledger.snapshot();
    let mut ctx = make_accounts(&w, 1);
    ctx.token_program = token_2022_program();
    ctx.vault = ata(&ctx.escrow, &ctx.mint_a, &token_2022_program());
    assert_eq!(make(&mut w.ledger, &ctx, 1, 50, 100), Err(EscrowError::InvalidTokenProgram));
    assert!(same_accounts(&w, &before));
}

#[test]
fn make_rejects_a_funding_account_of_another_owner() {
    let mut w = world();
    let foreign = address(60);
    initialize_account(&mut w.ledger, foreign, w.mint_a, w.taker).unwrap();
    mint_to(&mut w.ledger, foreign, 500).unwrap();
    let mut ctx = make_accounts(&w, 1);
    ctx.maker_ata_a = foreign;
    assert_eq!(make(&mut w.ledger, &ctx, 1, 50, 100), Err(EscrowError::InvalidAuthority));
    assert_eq!(balance(&w.ledger, &foreign), 500);
    assert!(w.ledger.get(&ctx.escrow).is_none());
}

#[test]
fn take_rejects_accounts_of_another_escrow() {
    let (mut w, opened) = opened_world();
    let other_mint = address(12);
    initialize_mint(&mut w.ledger, other_mint, token_2022_program(), 9).unwrap();
    let before = w.ledger.snapshot();
    let right = take_accounts(&w, &opened);

    let mut ctx = right;
    ctx.maker = w.taker;
    assert_eq!(take(&mut w.ledger, &ctx), Err(EscrowError::MakerMismatch));
    let mut ctx = right;
    ctx.mint_b = other_mint;
    assert_eq!(take(&mut w.ledger, &ctx), Err(EscrowError::MintMismatch));
    let mut ctx = right;
    ctx.mint_a = other_mint;
    assert_eq!(take(&mut w.ledger, &ctx), Err(EscrowError::MintMismatch));
    let mut ctx = right;
    ctx.vault = w.maker_ata_a;
    assert_eq!(take(&mut w.ledger, &ctx), Err(EscrowError::AddressMismatch));
    let mut ctx = right;
    ctx.escrow = escrow_address(&w.maker, 2);
    assert_eq!(take(&mut w.ledger, &ctx), Err(EscrowError::EscrowNotFound));
    let mut ctx = right;
    ctx.taker_ata_a = address(61);
    assert_eq!(take(&mut w.ledger, &ctx), Err(EscrowError::AddressMismatch));
    let mut ctx = right;
    ctx.maker_ata_b = w.taker_ata_b;
    assert_eq!(take(&mut w.ledger, &ctx), Err(EscrowError::OwnerMismatch));
    let mut ctx = right;
    ctx.maker_ata_b = w.mint_b;
    assert_eq!(take(&mut w.ledger, &ctx), Err(EscrowError::InvalidAccount));
    let mut ctx = right;
    ctx.maker_ata_b = w.maker_ata_a;
    assert_eq!(take(&mut w.ledger, &ctx), Err(EscrowError::InvalidMint));

    assert_eq!(w.ledger.len(), before.len());
    assert!(same_accounts(&w, &before));
    assert_eq!(take(&mut w.ledger, &right), Ok(()));
}

#[test]
fn take_holds_existing_receiving_accounts_to_their_derived_address() {
    let (mut w, opened) = opened_world();
    let elsewhere = address(80);
    initialize_account(&mut w.ledger, elsewhere, w.mint_a, w.taker).unwrap();
    let maker_elsewhere = address(81);
    initialize_account(&mut w.ledger, maker_elsewhere, w.mint_b, w.maker).unwrap();
    let before = w.ledger.snapshot();
    let right = take_accounts(&w, &opened);
    let mut ctx = right;
    ctx.taker_ata_a = elsewhere;
    assert_eq!(take(&mut w.ledger, &ctx), Err(EscrowError::AddressMismatch));
    let mut ctx = right;
    ctx.maker_ata_b = maker_elsewhere;
    assert_eq!(take(&mut w.ledger, &ctx), Err(EscrowError::AddressMismatch));
    let mut named = take_dif_prog_accounts(&w, &opened);
    named.maker_ata_b = maker_elsewhere;
    assert_eq!(take_dif_prog(&mut w.ledger, &named), Err(EscrowError::AddressMismatch));
    assert_eq!(w.ledger.len(), before.len());
    assert!(same_accounts(&w, &before));
    assert_eq!(w.ledger.get(&elsewhere), before.get(&elsewhere));

    initialize_account(&mut w.ledger, right.taker_ata_a, w.mint_a, w.taker).unwrap();
    initialize_account(&mut w.ledger, right.maker_ata_b, w.mint_b, w.maker).unwrap();
    mint_to(&mut w.ledger, right.taker_ata_a, 3).unwrap();
    assert_eq!(take(&mut w.ledger, &right), Ok(()));
    assert_eq!(balance(&w.ledger, &right.taker_ata_a), 103);
    assert_eq!(balance(&w.ledger, &right.maker_ata_b), 50);
    assert_eq!(w.ledger.lamports(&w.taker), 10_000_000);
}

#[test]
fn take_rejects_an_underfunded_taker_and_leaves_the_escrow_open() {
    let mut w = world();
    let opened = make_accounts(&w, 1);
    make(&mut w.ledger, &opened, 1, 501, 100).unwrap();
    let before = w.ledger.snapshot();
    let taken = take_accounts(&w, &opened);
    assert_eq!(take(&mut w.ledger, &taken), Err(EscrowError::InsufficientBalance));
    assert_eq!(w.ledger.escrow(&opened.escrow).unwrap().amount_receive, 501);
    assert_eq!(balance(&w.ledger, &opened.vault), 100);
    assert!(w.ledger.get(&taken.maker_ata_b).is_none());
    assert!(w.ledger.get(&taken.taker_ata_a).is_none());
    assert!(same_accounts(&w, &before));
    mint_to(&mut w.ledger, w.taker_ata_b, 1).unwrap();
    assert_eq!(take(&mut w.ledger, &taken), Ok(()));
    assert_eq!(balance(&w.ledger, &taken.maker_ata_b), 501);
}

#[test]
fn take_rejects_a_payment_from_an_account_of_another_owner() {
    let (mut w, opened) = opened_world();
    let foreign = address(62);
    initialize_account(&mut w.ledger, foreign, w.mint_b, w.maker).unwrap();
    mint_to(&mut w.ledger, foreign, 500).unwrap();
    let mut ctx = take_accounts(&w, &opened);
    ctx.taker_ata_b = foreign;
    assert_eq!(take(&mut w.ledger, &ctx), Err(EscrowError::InvalidAuthority));
    assert_eq!(balance(&w.ledger, &foreign), 500);
    assert!(w.ledger.escrow(&opened.escrow).is_some());
}

#[test]
fn take_dif_prog_rejects_a_token_program_that_does_not_govern_the_request() {
    let mut w = world_with(token_program());
    let opened = make_accounts(&w, 1);
    make(&mut w.ledger, &opened, 1, 50, 100).unwrap();
    let before = w.ledger.snapshot();
    let named = take_dif_prog_accounts(&w, &opened);
    assert_eq!(take_dif_prog(&mut w.ledger, &named), Err(EscrowError::InvalidTokenProgram));
    assert!(same_accounts(&w, &before));
    assert_eq!(take(&mut w.ledger, &named.as_take()), Ok(()));
}

#[test]
fn refund_rejects_whoever_is_not_the_maker() {
    let (mut w, opened) = opened_world();
    let taker_ata_a = address(63);
    initialize_account(&mut w.ledger, taker_ata_a, w.mint_a, w.taker).unwrap();
    let before = w.ledger.snapshot();
    let right = Refund::of(opened);

    let mut ctx = right;
    ctx.maker = w.taker;
    assert_eq!(refund(&mut w.ledger, &ctx), Err(EscrowError::MakerMismatch));
    let mut ctx = right;
    ctx.maker_ata_a = taker_ata_a;
    assert_eq!(refund(&mut w.ledger, &ctx), Err(EscrowError::OwnerMismatch));
    let mut ctx = right;
    ctx.maker_ata_a = address(64);
    assert_eq!(refund(&mut w.ledger, &ctx), Err(EscrowError::InvalidAccount));
    let mut ctx = right;
    ctx.mint_a = w.mint_b;
    assert_eq!(refund(&mut w.ledger, &ctx), Err(EscrowError::MintMismatch));
    let mut ctx = right;
    ctx.vault = taker_ata_a;
    assert_eq!(refund(&mut w.ledger, &ctx), Err(EscrowError::AddressMismatch));

    assert_eq!(w.ledger.len(), before.len());
    assert!(same_accounts(&w, &before));
    assert_eq!(balance(&w.ledger, &opened.vault), 100);
    assert_eq!(refund(&mut w.ledger, &right), Ok(()));
}

#[test]
fn transfer_checked_moves_or_refuses() {
    let mut w = world();
    let to = address(65);
    initialize_account(&mut w.ledger, to, w.mint_a, w.taker).unwrap();
    let accounts =
        TransferChecked { from: w.maker_ata_a, mint: w.mint_a, to, authority: w.maker };
    let program = token_program();

    assert_eq!(transfer_checked(&mut w.ledger, &program, &accounts, 400, 6), Ok(()));
    assert_eq!(balance(&w.ledger, &w.maker_ata_a), 600);
    assert_eq!(balance(&w.ledger, &to), 400);

    assert_eq!(
        transfer_checked(&mut w.ledger, &program, &accounts, 601, 6),
        Err(EscrowError::InsufficientBalance)
    );
    assert_eq!(
        transfer_checked(&mut w.ledger, &program, &accounts, 1, 9),
        Err(EscrowError::InvalidMint)
    );
    assert_eq!(
        transfer_checked(&mut w.ledger, &token_2022_program(), &accounts, 1, 6),
        Err(EscrowError::InvalidMint)
    );
    let by_taker = TransferChecked { authority: w.taker, ..accounts };
    assert_eq!(
        transfer_checked(&mut w.ledger, &program, &by_taker, 1, 6),
        Err(EscrowError::InvalidAuthority)
    );
    let to_wallet = TransferChecked { to: w.taker, ..accounts };
    assert_eq!(
        transfer_checked(&mut w.ledger, &program, &to_wallet, 1, 6),
        Err(EscrowError::InvalidAccount)
    );
    let to_other_asset = TransferChecked { to: w.taker_ata_b, ..accounts };
    assert_eq!(
        transfer_checked(&mut w.ledger, &program, &to_other_asset, 1, 6),
        Err(EscrowError::InvalidAccount)
    );
    let to_itself = TransferChecked { to: w.maker_ata_a, ..accounts };
    assert_eq!(transfer_checked(&mut w.ledger, &program, &to_itself, 600, 6), Ok(()));
    assert_eq!(balance(&w.ledger, &w.maker_ata_a), 600);
    assert_eq!(balance(&w.ledger, &to), 400);
    assert_eq!(w.ledger.supply(&w.mint_a), 1_000);
}

#[test]
fn close_account_hands_the_reserve_on_or_refuses() {
    let (mut w, opened) = opened_world();
    let program = token_program();
    let accounts =
        CloseAccount { account: opened.vault, destination: w.maker, authority: opened.escrow };
    assert_eq!(close_account(&mut w.ledger, &program, &accounts), Err(EscrowError::NonZeroBalance));
    let ctx = take_accounts(&w, &opened);
    assert_eq!(ctx.close_vault(&mut w.ledger), Err(EscrowError::NonZeroBalance));

    let empty = address(66);
    initialize_account(&mut w.ledger, empty, w.mint_a, w.taker).unwrap();
    let accounts = CloseAccount { account: empty, destination: w.maker, authority: w.maker };
    assert_eq!(close_account(&mut w.ledger, &program, &accounts), Err(EscrowError::InvalidAuthority));
    let accounts = CloseAccount { account: empty, destination: empty, authority: w.taker };
    assert_eq!(close_account(&mut w.ledger, &program, &accounts), Err(EscrowError::InvalidAccount));
    let accounts = CloseAccount { account: w.taker, destination: w.maker, authority: w.taker };
    assert_eq!(close_account(&mut w.ledger, &program, &accounts), Err(EscrowError::InvalidAccount));
    let accounts = CloseAccount { account: empty, destination: address(67), authority: w.taker };
    assert_eq!(close_account(&mut w.ledger, &program, &accounts), Ok(()));
    assert!(w.ledger.get(&empty).is_none());
    assert!(w.ledger.get(&address(67)).is_none());
}

#[test]
fn issuing_stops_at_what_a_balance_can_count() {
    let mut w = world();
    assert_eq!(mint_to(&mut w.ledger, w.maker_ata_a, u64::MAX - 999), Err(EscrowError::Overflow));
    assert_eq!(mint_to(&mut w.ledger, w.maker_ata_a, u64::MAX - 1_000), Ok(()));
    assert_eq!(w.ledger.supply(&w.mint_a), u64::MAX);
    assert_eq!(mint_to(&mut w.ledger, w.maker, 1), Err(EscrowError::InvalidAccount));
    assert_eq!(airdrop(&mut w.ledger, &w.maker, u64::MAX - 19_999_999), Err(EscrowError::Overflow));
    assert_eq!(airdrop(&mut w.ledger, &address(70), u64::MAX - 20_000_000), Ok(()));
    assert_eq!(w.ledger.capital(), u64::MAX);
    assert_eq!(w.ledger.lamports(&address(70)), u64::MAX - 20_000_000);
}

#[test]
fn registering_twice_collides() {
    let mut w = world();
    assert_eq!(
        initialize_mint(&mut w.ledger, w.mint_a, token_program(), 6),
        Err(EscrowError::AddressInUse)
    );
    assert_eq!(
        initialize_account(&mut w.ledger, w.maker_ata_a, w.mint_a, w.maker),
        Err(EscrowError::AddressInUse)
    );
    assert_eq!(
        initialize_account(&mut w.ledger, address(71), address(72), w.maker),
        Err(EscrowError::InvalidMint)
    );
}

#[test]
fn every_error_has_its_kind_and_message() {
    let all = [
        (EscrowError::InvalidTokenProgram, ErrorKind::Validation, "Invalid token program"),
        (EscrowError::ZeroAmount, ErrorKind::Validation, "Amount must be greater than zero"),
        (EscrowError::IdenticalMints, ErrorKind::Validation, "Mints must be distinct"),
        (EscrowError::MakerMismatch, ErrorKind::Validation, "Maker does not match the escrow"),
        (EscrowError::MintMismatch, ErrorKind::Validation, "Mint does not match the escrow"),
        (
            EscrowError::AddressMismatch,
            ErrorKind::Validation,
            "Account is not at its derived address",
        ),
        (EscrowError::OwnerMismatch, ErrorKind::Validation, "Receiving account has another owner"),
        (EscrowError::InsufficientBalance, ErrorKind::Adapter, "Insufficient balance"),
        (EscrowError::InvalidMint, ErrorKind::Adapter, "Invalid mint"),
        (EscrowError::InvalidAccount, ErrorKind::Adapter, "Invalid account"),
        (EscrowError::InvalidAuthority, ErrorKind::Adapter, "Invalid authority"),
        (EscrowError::NonZeroBalance, ErrorKind::Adapter, "Account still holds tokens"),
        (EscrowError::Overflow, ErrorKind::Adapter, "Overflow"),
        (EscrowError::EscrowNotFound, ErrorKind::State, "Escrow not found"),
        (EscrowError::AddressInUse, ErrorKind::State, "Address already in use"),
    ];
    for (error, kind, message) in all {
        assert_eq!(error.kind(), kind);
        assert_eq!(error.msg(), message);
    }
}
