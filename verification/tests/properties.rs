#![allow(dead_code, unused_imports)]
use anchor_escrow_interface::accounts::Rent;
use anchor_escrow_interface::address::Address;
use anchor_escrow_interface::associated_token::get_associated_token_address_with_program_id;
use anchor_escrow_interface::errors::EscrowError;
use anchor_escrow_interface::instructions::{Make, Refund, Take, TakeDifProg};
use anchor_escrow_interface::ledger::Ledger;
use anchor_escrow_interface::system_program::airdrop;
use anchor_escrow_interface::token_interface::{initialize_account, initialize_mint, mint_to};
use anchor_escrow_interface::{id, make, refund, take, take_dif_prog};
use anchor_lang::prelude::Pubkey;

const TOKEN_RESERVE: u64 = 2_039_280;
const ESCROW_RESERVE: u64 = 1_733_040;

fn address(fill: u8) -> Address {
    Address::new_from_array([fill; 32])
}

fn token_program() -> Address {
    Address::new_from_array(anchor_spl::token::ID.to_bytes())
}

fn token_2022_program() -> Address {
    Address::new_from_array(anchor_spl::token_2022::ID.to_bytes())
}

fn escrow_address(maker: &Address, seed: u64) -> Address {
    let (key, _) = Pubkey::find_program_address(
        &[b"escrow", &maker.to_bytes(), &seed.to_le_bytes()],
        &Pubkey::new_from_array(id().to_bytes()),
    );
    Address::new_from_array(key.to_bytes())
}

fn ata(wallet: &Address, mint: &Address, program: &Address) -> Address {
    get_associated_token_address_with_program_id(wallet, mint, program).unwrap()
}

struct World {
    ledger: Ledger,
    maker: Address,
    taker: Address,
    mint_a: Address,
    mint_b: Address,
    program_b: Address,
    maker_ata_a: Address,
    taker_ata_b: Address,
}

fn world_with(program_b: Address) -> World {
    let rent = Rent { token_account: TOKEN_RESERVE, escrow: ESCROW_RESERVE };
    let mut ledger = Ledger::new(id(), rent);
    let maker = address(1);
    let taker = address(2);
    let mint_a = address(10);
    let mint_b = address(11);
    airdrop(&mut ledger, &maker, 10_000_000).unwrap();
    airdrop(&mut ledger, &taker, 10_000_000).unwrap();
    initialize_mint(&mut ledger, mint_a, token_program(), 6).unwrap();
    initialize_mint(&mut ledger, mint_b, program_b, 9).unwrap();
    let maker_ata_a = ata(&maker, &mint_a, &token_program());
    let taker_ata_b = ata(&taker, &mint_b, &program_b);
    initialize_account(&mut ledger, maker_ata_a, mint_a, maker).unwrap();
    initialize_account(&mut ledger, taker_ata_b, mint_b, taker).unwrap();
    mint_to(&mut ledger, maker_ata_a, 1_000).unwrap();
    mint_to(&mut ledger, taker_ata_b, 500).unwrap();
    World { ledger, maker, taker, mint_a, mint_b, program_b, maker_ata_a, taker_ata_b }
}

fn world() -> World {
    world_with(token_2022_program())
}

fn make_accounts(w: &World, seed: u64) -> Make {
    let escrow = escrow_address(&w.maker, seed);
    Make {
        maker: w.maker,
        mint_a: w.mint_a,
        mint_b: w.mint_b,
        maker_ata_a: w.maker_ata_a,
        vault: ata(&escrow, &w.mint_a, &token_program()),
        escrow,
        token_program: token_program(),
    }
}

fn take_accounts(w: &World, opened: &Make) -> Take {
    Take {
        maker: w.maker,
        taker: w.taker,
        mint_a: w.mint_a,
        mint_b: w.mint_b,
        vault: opened.vault,
        maker_ata_b: ata(&w.maker, &w.mint_b, &w.program_b),
        taker_ata_b: w.taker_ata_b,
        taker_ata_a: ata(&w.taker, &w.mint_a, &token_program()),
        escrow: opened.escrow,
        token_program: token_program(),
        token_program_option: token_2022_program(),
    }
}

fn take_dif_prog_accounts(w: &World, opened: &Make) -> TakeDifProg {
    TakeDifProg {
        maker: w.maker,
        taker: w.taker,
        mint_a: w.mint_a,
        mint_b: w.mint_b,
        vault: opened.vault,
        maker_ata_b: ata(&w.maker, &w.mint_b, &w.program_b),
        taker_ata_b: w.taker_ata_b,
        taker_ata_a: ata(&w.taker, &w.mint_a, &token_program()),
        escrow: opened.escrow,
        token_program: token_program(),
        token_program_2: token_2022_program(),
    }
}

fn balance(ledger: &Ledger, key: &Address) -> u64 {
    ledger.token_account(key).map(|t| t.amount).unwrap_or(0)
}

fn keys_of(w: &World) -> Vec<Address> {
    let a = escrow_address(&w.maker, 1);
    let b = escrow_address(&w.maker, 2);
    vec![
        w.maker,
        w.taker,
        w.mint_a,
        w.mint_b,
        w.maker_ata_a,
        w.taker_ata_b,
        a,
        b,
        ata(&a, &w.mint_a, &token_program()),
        ata(&b, &w.mint_a, &token_program()),
        ata(&w.maker, &w.mint_b, &w.program_b),
        ata(&w.taker, &w.mint_a, &token_program()),
    ]
}

fn same_accounts(w: &World, before: &Ledger) -> bool {
    w.ledger.len() == before.len()
        && keys_of(w).iter().all(|key| w.ledger.get(key) == before.get(key))
}

#[test]
fn take_conserves_assets_and_lamports() {
    let mut w = world();
    let opened = make_accounts(&w, 1);
    make(&mut w.ledger, &opened, 1, 50, 100).unwrap();
    mint_to(&mut w.ledger, opened.vault, 7).unwrap();
    let taken = take_accounts(&w, &opened);
    let held = balance(&w.ledger, &opened.vault);
    let maker_lamports = w.ledger.lamports(&w.maker);
    let taker_lamports = w.ledger.lamports(&w.taker);
    let supply_a = w.ledger.supply(&w.mint_a);
    let supply_b = w.ledger.supply(&w.mint_b);
    let capital = w.ledger.capital();
    assert_eq!(held, 107);
    assert_eq!(take(&mut w.ledger, &taken), Ok(()));
    assert_eq!(balance(&w.ledger, &taken.taker_ata_a), 107);
    assert_eq!(balance(&w.ledger, &taken.maker_ata_b), 50);
    assert_eq!(balance(&w.ledger, &w.taker_ata_b), 450);
    assert_eq!(w.ledger.supply(&w.mint_a), supply_a);
    assert_eq!(w.ledger.supply(&w.mint_b), supply_b);
    assert_eq!(w.ledger.capital(), capital);
    assert_eq!(w.ledger.lamports(&w.maker), maker_lamports + TOKEN_RESERVE + ESCROW_RESERVE);
    assert_eq!(w.ledger.lamports(&w.taker), taker_lamports - 2 * TOKEN_RESERVE);
    assert_eq!(w.ledger.lamports(&taken.maker_ata_b), TOKEN_RESERVE);
    assert_eq!(w.ledger.lamports(&taken.taker_ata_a), TOKEN_RESERVE);
}

#[test]
fn make_moves_the_deposit_and_pays_the_reserves() {
    let mut w = world();
    let opened = make_accounts(&w, 1);
    make(&mut w.ledger, &opened, 1, 50, 100).unwrap();
    let vault = w.ledger.token_account(&opened.vault).unwrap();
    assert_eq!(vault.owner, opened.escrow);
    assert_eq!(vault.mint, w.mint_a);
    assert_eq!(vault.amount, 100);
    assert_eq!(vault.token_program, token_program());
    assert_eq!(w.ledger.lamports(&opened.vault), TOKEN_RESERVE);
    assert_eq!(w.ledger.lamports(&opened.escrow), ESCROW_RESERVE);
    assert_eq!(w.ledger.lamports(&w.maker), 10_000_000 - TOKEN_RESERVE - ESCROW_RESERVE);
    assert_eq!(w.ledger.capital(), 20_000_000);
    assert_eq!(w.ledger.supply(&w.mint_a), 1_000);
}

#[test]
fn second_take_finds_no_escrow() {
    let mut w = world();
    let opened = make_accounts(&w, 1);
    make(&mut w.ledger, &opened, 1, 50, 100).unwrap();
    let taken = take_accounts(&w, &opened);
    take(&mut w.ledger, &taken).unwrap();
    let before = w.ledger.snapshot();
    assert_eq!(take(&mut w.ledger, &taken), Err(EscrowError::EscrowNotFound));
    let named = take_dif_prog_accounts(&w, &opened);
    assert_eq!(take_dif_prog(&mut w.ledger, &named), Err(EscrowError::EscrowNotFound));
    assert_eq!(refund(&mut w.ledger, &Refund::of(opened)), Err(EscrowError::EscrowNotFound));
    assert!(same_accounts(&w, &before));
}

#[test]
fn second_refund_finds_no_escrow() {
    let mut w = world();
    let opened = make_accounts(&w, 1);
    make(&mut w.ledger, &opened, 1, 50, 100).unwrap();
    refund(&mut w.ledger, &Refund::of(opened)).unwrap();
    let before = w.ledger.snapshot();
    assert_eq!(refund(&mut w.ledger, &Refund::of(opened)), Err(EscrowError::EscrowNotFound));
    let taken = take_accounts(&w, &opened);
    assert_eq!(take(&mut w.ledger, &taken), Err(EscrowError::EscrowNotFound));
    assert!(same_accounts(&w, &before));
}

#[test]
fn refund_after_make_restores_the_ledger() {
    let mut w = world();
    let before = w.ledger.snapshot();
    let opened = make_accounts(&w, 7);
    make(&mut w.ledger, &opened, 7, 3, 1_000).unwrap();
    assert_eq!(balance(&w.ledger, &w.maker_ata_a), 0);
    refund(&mut w.ledger, &Refund::of(opened)).unwrap();
    assert_eq!(balance(&w.ledger, &w.maker_ata_a), 1_000);
    assert_eq!(w.ledger.lamports(&w.maker), 10_000_000);
    assert!(w.ledger.get(&opened.escrow).is_none());
    assert!(w.ledger.get(&opened.vault).is_none());
    assert!(same_accounts(&w, &before));
}

#[test]
fn take_rejects_a_third_token_program() {
    let mut w = world_with(address(77));
    let opened = make_accounts(&w, 1);
    make(&mut w.ledger, &opened, 1, 50, 100).unwrap();
    let before = w.ledger.snapshot();
    let taken = take_accounts(&w, &opened);
    assert_eq!(take(&mut w.ledger, &taken), Err(EscrowError::InvalidTokenProgram));
    assert_eq!(taken.transfer_to_maker(&mut w.ledger), Err(EscrowError::InvalidTokenProgram));
    assert!(w.ledger.escrow(&opened.escrow).is_some());
    assert_eq!(balance(&w.ledger, &opened.vault), 100);
    assert!(same_accounts(&w, &before));
    assert_eq!(refund(&mut w.ledger, &Refund::of(opened)), Ok(()));
}

#[test]
fn second_make_with_the_same_seed_collides() {
    let mut w = world();
    let opened = make_accounts(&w, 1);
    make(&mut w.ledger, &opened, 1, 50, 100).unwrap();
    let before = w.ledger.snapshot();
    assert_eq!(make(&mut w.ledger, &opened, 1, 50, 100), Err(EscrowError::AddressInUse));
    assert_eq!(make(&mut w.ledger, &opened, 1, 9, 1), Err(EscrowError::AddressInUse));
    assert_eq!(w.ledger.escrow(&opened.escrow).unwrap().amount_receive, 50);
    assert_eq!(balance(&w.ledger, &opened.vault), 100);
    assert!(same_accounts(&w, &before));
    let other = make_accounts(&w, 2);
    assert_eq!(make(&mut w.ledger, &other, 2, 9, 1), Ok(()));
}
