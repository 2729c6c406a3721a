#![allow(dead_code, unused_imports)]
use anchor_escrow_interface::accounts::Rent;
use anchor_escrow_interface::address::Address;
use anchor_escrow_interface::associated_token::get_associated_token_address_with_program_id;
use anchor_escrow_interface::errors::EscrowError;
use anchor_escrow_interface::instructions::{Make, Refund, Take, TakeDifProg};
use anchor_escrow_interface::ledger::Ledger;
use anchor_escrow_interface::system_program::airdrop;
use anchor_escrow_interface::token_interface::{initialize_account, initialize_mint, mint_to};
use anchor_escrow_interface::{id, make, refund, take, take_dif_prog};
use anchor_lang::prelude::Pubkey;

const TOKEN_RESERVE: u64 = 2_039_280;
const ESCROW_RESERVE: u64 = 1_733_040;

fn address(fill: u8) -> Address {
    Address::new_from_array([fill; 32])
}

fn token_program() -> Address {
    Address::new_from_array(anchor_spl::token::ID.to_bytes())
}

fn token_2022_program() -> Address {
    Address::new_from_array(anchor_spl::token_2022::ID.to_bytes())
}

fn escrow_address(maker: &Address, seed: u64) -> Address {
    let (key, _) = Pubkey::find_program_address(
        &[b"escrow", &maker.to_bytes(), &seed.to_le_bytes()],
        &Pubkey::new_from_array(id().to_bytes()),
    );
    Address::new_from_array(key.to_bytes())
}

fn ata(wallet: &Address, mint: &Address, program: &Address) -> Address {
    get_associated_token_address_with_program_id(wallet, mint, program).unwrap()
}

struct World {
    ledger: Ledger,
    maker: Address,
    taker: Address,
    mint_a: Address,
    mint_b: Address,
    program_b: Address,
    maker_ata_a: Address,
    taker_ata_b: Address,
}

fn world_with(program_b: Address) -> World {
    let rent = Rent { token_account: TOKEN_RESERVE, escrow: ESCROW_RESERVE };
    let mut ledger = Ledger::new(id(), rent);
    let maker = address(1);
    let taker = address(2);
    let mint_a = address(10);
    let mint_b = address(11);
    airdrop(&mut ledger, &maker, 10_000_000).unwrap();
    airdrop(&mut ledger, &taker, 10_000_000).unwrap();
    initialize_mint(&mut ledger, mint_a, token_program(), 6).unwrap();
    initialize_mint(&mut ledger, mint_b, program_b, 9).unwrap();
    let maker_ata_a = ata(&maker, &mint_a, &token_program());
    let taker_ata_b = ata(&taker, &mint_b, &program_b);
    initialize_account(&mut ledger, maker_ata_a, mint_a, maker).unwrap();
    initialize_account(&mut ledger, taker_ata_b, mint_b, taker).unwrap();
    mint_to(&mut ledger, maker_ata_a, 1_000).unwrap();
    mint_to(&mut ledger, taker_ata_b, 500).unwrap();
    World { ledger, maker, taker, mint_a, mint_b, program_b, maker_ata_a, taker_ata_b }
}

fn world() -> World {
    world_with(token_2022_program())
}

fn make_accounts(w: &World, seed: u64) -> Make {
    let escrow = escrow_address(&w.maker, seed);
    Make {
        maker: w.maker,
        mint_a: w.mint_a,
        mint_b: w.mint_b,
        maker_ata_a: w.maker_ata_a,
        vault: ata(&escrow, &w.mint_a, &token_program()),
        escrow,
        token_program: token_program(),
    }
}

fn take_accounts(w: &World, opened: &Make) -> Take {
    Take {
        maker: w.maker,
        taker: w.taker,
        mint_a: w.mint_a,
        mint_b: w.mint_b,
        vault: opened.vault,
        maker_ata_b: ata(&w.maker, &w.mint_b, &w.program_b),
        taker_ata_b: w.taker_ata_b,
        taker_ata_a: ata(&w.taker, &w.mint_a, &token_program()),
        escrow: opened.escrow,
        token_program: token_program(),
        token_program_option: token_2022_program(),
    }
}

fn take_dif_prog_accounts(w: &World, opened: &Make) -> TakeDifProg {
    TakeDifProg {
        maker: w.maker,
        taker: w.taker,
        mint_a: w.mint_a,
        mint_b: w.mint_b,
        vault: opened.vault,
        maker_ata_b: ata(&w.maker, &w.mint_b, &w.program_b),
        taker_ata_b: w.taker_ata_b,
        taker_ata_a: ata(&w.taker, &w.mint_a, &token_program()),
        escrow: opened.escrow,
        token_program: token_program(),
        token_program_2: token_2022_program(),
    }
}

fn balance(ledger: &Ledger, key: &Address) -> u64 {
    ledger.token_account(key).map(|t| t.amount).unwrap_or(0)
}

fn keys_of(w: &World) -> Vec<Address> {
    let a = escrow_address(&w.maker, 1);
    let b = escrow_address(&w.maker, 2);
    vec![
        w.maker,
        w.taker,
        w.mint_a,
        w.mint_b,
        w.maker_ata_a,
        w.taker_ata_b,
        a,
        b,
        ata(&a, &w.mint_a, &token_program()),
        ata(&b, &w.mint_a, &token_program()),
        ata(&w.maker, &w.mint_b, &w.program_b),
        ata(&w.taker, &w.mint_a, &token_program()),
    ]
}

fn same_accounts(w: &World, before: &Ledger) -> bool {
    w.ledger.len() == before.len()
        && keys_of(w).iter().all(|key| w.ledger.get(key) == before.get(key))
}

#[test]
fn open_then_take_swaps_the_assets() {
    let mut w = world();
    let opened = make_accounts(&w, 1);
    assert_eq!(make(&mut w.ledger, &opened, 1, 50, 100), Ok(()));
    assert_eq!(balance(&w.ledger, &w.maker_ata_a), 900);
    assert_eq!(balance(&w.ledger, &opened.vault), 100);
    let record = w.ledger.escrow(&opened.escrow).unwrap();
    assert_eq!(record.seed, 1);
    assert_eq!(record.maker, w.maker);
    assert_eq!(record.mint_a, w.mint_a);
    assert_eq!(record.mint_b, w.mint_b);
    assert_eq!(record.amount_receive, 50);

    let taken = take_accounts(&w, &opened);
    assert_eq!(take(&mut w.ledger, &taken), Ok(()));
    assert!(w.ledger.get(&opened.vault).is_none());
    assert!(w.ledger.get(&opened.escrow).is_none());
    assert_eq!(balance(&w.ledger, &taken.maker_ata_b), 50);
    assert_eq!(balance(&w.ledger, &taken.taker_ata_a), 100);
    assert_eq!(balance(&w.ledger, &w.taker_ata_b), 450);
    assert_eq!(balance(&w.ledger, &w.maker_ata_a), 900);
}

#[test]
fn open_then_refund_restores_the_deposit() {
    let mut w = world();
    let opened = make_accounts(&w, 2);
    assert_eq!(make(&mut w.ledger, &opened, 2, 5, 10), Ok(()));
    assert_eq!(balance(&w.ledger, &w.maker_ata_a), 990);
    assert_eq!(refund(&mut w.ledger, &Refund::of(opened)), Ok(()));
    assert_eq!(balance(&w.ledger, &w.maker_ata_a), 1_000);
    assert!(w.ledger.get(&opened.vault).is_none());
    assert!(w.ledger.get(&opened.escrow).is_none());
    assert_eq!(balance(&w.ledger, &w.taker_ata_b), 500);
    assert_eq!(w.ledger.supply(&w.mint_b), 500);
}

#[test]
fn take_then_second_escrow_refunded() {
    let mut w = world();
    let first = make_accounts(&w, 1);
    make(&mut w.ledger, &first, 1, 50, 100).unwrap();
    let taken = take_accounts(&w, &first);
    take(&mut w.ledger, &taken).unwrap();
    let second = make_accounts(&w, 2);
    assert_eq!(make(&mut w.ledger, &second, 2, 5, 10), Ok(()));
    assert_eq!(balance(&w.ledger, &w.maker_ata_a), 890);
    assert_eq!(refund(&mut w.ledger, &Refund::of(second)), Ok(()));
    assert_eq!(balance(&w.ledger, &w.maker_ata_a), 900);
    assert!(w.ledger.get(&second.escrow).is_none());
    assert!(w.ledger.get(&second.vault).is_none());
    assert_eq!(balance(&w.ledger, &ata(&w.maker, &w.mint_b, &w.program_b)), 50);
    assert_eq!(balance(&w.ledger, &w.taker_ata_b), 450);
}

#[test]
fn take_dif_prog_swaps_the_assets() {
    let mut w = world();
    let opened = make_accounts(&w, 1);
    make(&mut w.ledger, &opened, 1, 50, 100).unwrap();
    let mut twin = world();
    make(&mut twin.ledger, &opened, 1, 50, 100).unwrap();
    let named = take_dif_prog_accounts(&w, &opened);
    assert_eq!(take_dif_prog(&mut w.ledger, &named), Ok(()));
    assert_eq!(take(&mut twin.ledger, &named.as_take()), Ok(()));
    assert_eq!(balance(&w.ledger, &named.maker_ata_b), 50);
    assert_eq!(balance(&w.ledger, &named.taker_ata_a), 100);
    assert!(same_accounts(&w, &twin.ledger));
}

#[test]
fn take_under_one_token_program() {
    let mut w = world_with(token_program());
    let opened = make_accounts(&w, 1);
    make(&mut w.ledger, &opened, 1, 50, 100).unwrap();
    let taken = take_accounts(&w, &opened);
    assert_eq!(take(&mut w.ledger, &taken), Ok(()));
    assert_eq!(balance(&w.ledger, &taken.maker_ata_b), 50);
    assert_eq!(balance(&w.ledger, &taken.taker_ata_a), 100);
    assert_eq!(w.ledger.token_account(&taken.maker_ata_b).unwrap().token_program, token_program());
}
