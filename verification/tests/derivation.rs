#![allow(dead_code, unused_imports)]
use anchor_escrow_interface::accounts::Rent;
use anchor_escrow_interface::address::Address;
use anchor_escrow_interface::associated_token::get_associated_token_address_with_program_id;
use anchor_escrow_interface::errors::EscrowError;
use anchor_escrow_interface::instructions::{Make, Refund, Take, TakeDifProg};
use anchor_escrow_interface::ledger::Ledger;
use anchor_escrow_interface::system_program::airdrop;
use anchor_escrow_interface::instructions::take::select_interface;
use anchor_escrow_interface::instructions::TokenInterface;
use anchor_escrow_interface::state::escrow::seeds;
use anchor_escrow_interface::token_interface::{initialize_account, initialize_mint, mint_to};
use anchor_escrow_interface::vault::signer;
use std::str::FromStr;
use anchor_escrow_interface::{id, make, refund, take, take_dif_prog};
use anchor_lang::prelude::Pubkey;

const TOKEN_RESERVE: u64 = 2_039_280;
const ESCROW_RESERVE: u64 = 1_733_040;

fn address(fill: u8) -> Address {
    Address::new_from_array([fill; 32])
}

fn token_program() -> Address {
    Address::new_from_array(anchor_spl::token::ID.to_bytes())
}

fn token_2022_program() -> Address {
    Address::new_from_array(anchor_spl::token_2022::ID.to_bytes())
}

fn escrow_address(maker: &Address, seed: u64) -> Address {
    let (key, _) = Pubkey::find_program_address(
        &[b"escrow", &maker.to_bytes(), &seed.to_le_bytes()],
        &Pubkey::new_from_array(id().to_bytes()),
    );
    Address::new_from_array(key.to_bytes())
}

fn ata(wallet: &Address, mint: &Address, program: &Address) -> Address {
    get_associated_token_address_with_program_id(wallet, mint, program).unwrap()
}

struct World {
    ledger: Ledger,
    maker: Address,
    taker: Address,
    mint_a: Address,
    mint_b: Address,
    program_b: Address,
    maker_ata_a: Address,
    taker_ata_b: Address,
}

fn world_with(program_b: Address) -> World {
    let rent = Rent { token_account: TOKEN_RESERVE, escrow: ESCROW_RESERVE };
    let mut ledger = Ledger::new(id(), rent);
    let maker = address(1);
    let taker = address(2);
    let mint_a = address(10);
    let mint_b = address(11);
    airdrop(&mut ledger, &maker, 10_000_000).unwrap();
    airdrop(&mut ledger, &taker, 10_000_000).unwrap();
    initialize_mint(&mut ledger, mint_a, token_program(), 6).unwrap();
    initialize_mint(&mut ledger, mint_b, program_b, 9).unwrap();
    let maker_ata_a = ata(&maker, &mint_a, &token_program());
    let taker_ata_b = ata(&taker, &mint_b, &program_b);
    initialize_account(&mut ledger, maker_ata_a, mint_a, maker).unwrap();
    initialize_account(&mut ledger, taker_ata_b, mint_b, taker).unwrap();
    mint_to(&mut ledger, maker_ata_a, 1_000).unwrap();
    mint_to(&mut ledger, taker_ata_b, 500).unwrap();
    World { ledger, maker, taker, mint_a, mint_b, program_b, maker_ata_a, taker_ata_b }
}

fn world() -> World {
    world_with(token_2022_program())
}

fn make_accounts(w: &World, seed: u64) -> Make {
    let escrow = escrow_address(&w.maker, seed);
    Make {
        maker: w.maker,
        mint_a: w.mint_a,
        mint_b: w.mint_b,
        maker_ata_a: w.maker_ata_a,
        vault: ata(&escrow, &w.mint_a, &token_program()),
        escrow,
        token_program: token_program(),
    }
}

fn take_accounts(w: &World, opened: &Make) -> Take {
    Take {
        maker: w.maker,
        taker: w.taker,
        mint_a: w.mint_a,
        mint_b: w.mint_b,
        vault: opened.vault,
        maker_ata_b: ata(&w.maker, &w.mint_b, &w.program_b),
        taker_ata_b: w.taker_ata_b,
        taker_ata_a: ata(&w.taker, &w.mint_a, &token_program()),
        escrow: opened.escrow,
        token_program: token_program(),
        token_program_option: token_2022_program(),
    }
}

fn take_dif_prog_accounts(w: &World, opened: &Make) -> TakeDifProg {
    TakeDifProg {
        maker: w.maker,
        taker: w.taker,
        mint_a: w.mint_a,
        mint_b: w.mint_b,
        vault: opened.vault,
        maker_ata_b: ata(&w.maker, &w.mint_b, &w.program_b),
        taker_ata_b: w.taker_ata_b,
        taker_ata_a: ata(&w.taker, &w.mint_a, &token_program()),
        escrow: opened.escrow,
        token_program: token_program(),
        token_program_2: token_2022_program(),
    }
}

fn balance(ledger: &Ledger, key: &Address) -> u64 {
    ledger.token_account(key).map(|t| t.amount).unwrap_or(0)
}

fn keys_of(w: &World) -> Vec<Address> {
    let a = escrow_address(&w.maker, 1);
    let b = escrow_address(&w.maker, 2);
    vec![
        w.maker,
        w.taker,
        w.mint_a,
        w.mint_b,
        w.maker_ata_a,
        w.taker_ata_b,
        a,
        b,
        ata(&a, &w.mint_a, &token_program()),
        ata(&b, &w.mint_a, &token_program()),
        ata(&w.maker, &w.mint_b, &w.program_b),
        ata(&w.taker, &w.mint_a, &token_program()),
    ]
}

fn same_accounts(w: &World, before: &Ledger) -> bool {
    w.ledger.len() == before.len()
        && keys_of(w).iter().all(|key| w.ledger.get(key) == before.get(key))
}

fn pubkey(a: &Address) -> Pubkey {
    Pubkey::new_from_array(a.to_bytes())
}

#[test]
fn program_ids_are_the_deployed_ones() {
    assert_eq!(
        pubkey(&id()),
        Pubkey::from_str("7oyEmtYJmcqkG5GDQq99iM1NufFuXLwDFMCHRdmnS94t").unwrap()
    );
    assert_eq!(anchor_escrow_interface::ID, id().to_bytes());
    assert_eq!(
        pubkey(&anchor_escrow_interface::associated_token::id()),
        anchor_spl::associated_token::ID
    );
}

#[test]
fn escrow_seeds_are_prefix_maker_and_seed() {
    let maker = address(9);
    let found = seeds(&maker, 0x0102030405060708);
    assert_eq!(found.len(), 3);
    assert_eq!(found[0], b"escrow".to_vec());
    assert_eq!(found[1], vec![9u8; 32]);
    assert_eq!(found[2], vec![8u8, 7, 6, 5, 4, 3, 2, 1]);
}

#[test]
fn make_keys_are_the_program_derived_addresses() {
    for (fill, seed) in [(1u8, 1u64), (2, 2), (200, u64::MAX), (0, 0)] {
        let maker = address(fill);
        let mint_a = address(10);
        let (key, bump) = Pubkey::find_program_address(
            &[b"escrow", &maker.to_bytes(), &seed.to_le_bytes()],
            &pubkey(&id()),
        );
        let escrow = Address::new_from_array(key.to_bytes());
        let ctx = Make {
            maker,
            mint_a,
            mint_b: address(11),
            maker_ata_a: address(12),
            vault: address(13),
            escrow,
            token_program: token_program(),
        };
        let keys = ctx.keys(seed, &id());
        assert_eq!(keys.escrow, Some((escrow, bump)));
        assert_ne!(escrow, maker);
        let direct = Pubkey::create_program_address(
            &[b"escrow", &maker.to_bytes(), &seed.to_le_bytes(), &[bump]],
            &pubkey(&id()),
        )
        .unwrap();
        assert_eq!(Address::new_from_array(direct.to_bytes()), escrow);
        let vault = anchor_spl::associated_token::get_associated_token_address_with_program_id(
            &key,
            &pubkey(&mint_a),
            &anchor_spl::token::ID,
        );
        assert_eq!(keys.vault, Some(Address::new_from_array(vault.to_bytes())));
        assert_eq!(ctx.bumps(&keys).map(|b| b.escrow), Ok(bump));
    }
}

#[test]
fn a_bump_seed_that_lands_on_the_curve_derives_nothing() {
    let maker = address(1);
    let ctx = Make {
        maker,
        mint_a: address(10),
        mint_b: address(11),
        maker_ata_a: address(12),
        vault: address(13),
        escrow: escrow_address(&maker, 1),
        token_program: token_program(),
    };
    let keys = ctx.keys(1, &id());
    let (_, bump) = keys.escrow.unwrap();
    let mut next = bump;
    let mut rejected = 0;
    while next < u8::MAX {
        next += 1;
        let direct = Pubkey::create_program_address(
            &[b"escrow", &maker.to_bytes(), &1u64.to_le_bytes(), &[next]],
            &pubkey(&id()),
        );
        assert!(direct.is_err());
        rejected += 1;
    }
    assert_eq!(rejected, u8::MAX - bump);
}

#[test]
fn associated_addresses_are_those_of_the_associated_token_program() {
    for (wallet, mint) in [(1u8, 10u8), (2, 11), (255, 0), (7, 7)] {
        for program in [anchor_spl::token::ID, anchor_spl::token_2022::ID] {
            let expected = anchor_spl::associated_token::get_associated_token_address_with_program_id(
                &Pubkey::new_from_array([wallet; 32]),
                &Pubkey::new_from_array([mint; 32]),
                &program,
            );
            let found = get_associated_token_address_with_program_id(
                &address(wallet),
                &address(mint),
                &Address::new_from_array(program.to_bytes()),
            );
            assert_eq!(found, Some(Address::new_from_array(expected.to_bytes())));
            assert_ne!(found, Some(address(wallet)));
        }
    }
}

#[test]
fn the_record_signs_as_the_escrow() {
    let mut w = world();
    let opened = make_accounts(&w, 5);
    assert_eq!(signer(&w.ledger, &opened.escrow), None);
    make(&mut w.ledger, &opened, 5, 50, 100).unwrap();
    assert_eq!(signer(&w.ledger, &opened.escrow), Some(opened.escrow));
    let record = w.ledger.escrow(&opened.escrow).unwrap();
    let signer_seeds = record.signer_seeds();
    assert_eq!(signer_seeds.len(), 4);
    assert_eq!(signer_seeds[3], vec![record.bump]);
    let slices: Vec<&[u8]> = signer_seeds.iter().map(|s| s.as_slice()).collect();
    let direct = Pubkey::create_program_address(&slices, &pubkey(&id())).unwrap();
    assert_eq!(Address::new_from_array(direct.to_bytes()), opened.escrow);
    assert_eq!(signer(&w.ledger, &w.maker), None);
}

#[test]
fn a_record_away_from_its_derived_address_cannot_sign() {
    let mut w = world();
    let right = make_accounts(&w, 1);
    let (_, bump) = right.keys(1, &id()).escrow.unwrap();
    let astray = address(90);
    let forged = Make {
        escrow: astray,
        vault: ata(&astray, &w.mint_a, &token_program()),
        ..right
    };
    let keys = anchor_escrow_interface::instructions::MakeKeys {
        escrow: Some((astray, bump)),
        vault: Some(forged.vault),
    };
    assert_eq!(
        anchor_escrow_interface::make_with_keys(&mut w.ledger, &forged, &keys, 1, 50, 100),
        Ok(())
    );
    assert_eq!(signer(&w.ledger, &astray), Some(right.escrow));
    let before = w.ledger.snapshot();

    let ctx = take_accounts(&w, &forged);
    assert_eq!(ctx.transfer_to_taker(&mut w.ledger), Err(EscrowError::AddressMismatch));
    assert_eq!(ctx.close_vault(&mut w.ledger), Err(EscrowError::AddressMismatch));
    assert_eq!(take(&mut w.ledger, &ctx), Err(EscrowError::AddressMismatch));
    let named = take_dif_prog_accounts(&w, &forged);
    assert_eq!(named.transfer_to_taker(&mut w.ledger), Err(EscrowError::AddressMismatch));
    assert_eq!(named.close_vault(&mut w.ledger), Err(EscrowError::AddressMismatch));
    assert_eq!(take_dif_prog(&mut w.ledger, &named), Err(EscrowError::AddressMismatch));
    let back = Refund::of(forged);
    assert_eq!(back.refund(&mut w.ledger), Err(EscrowError::AddressMismatch));
    assert_eq!(back.close_vault(&mut w.ledger), Err(EscrowError::AddressMismatch));
    assert_eq!(refund(&mut w.ledger, &back), Err(EscrowError::AddressMismatch));
    assert_eq!(w.ledger.len(), before.len());
    assert_eq!(w.ledger.get(&astray), before.get(&astray));
    assert_eq!(w.ledger.get(&forged.vault), before.get(&forged.vault));
    assert_eq!(balance(&w.ledger, &forged.vault), 100);

    assert_eq!(
        back.refund_signed(&mut w.ledger, &Some(right.escrow)),
        Err(EscrowError::AddressMismatch)
    );
    assert_eq!(back.refund_signed(&mut w.ledger, &None), Err(EscrowError::AddressMismatch));
    assert_eq!(back.refund_signed(&mut w.ledger, &Some(astray)), Ok(()));
    assert_eq!(balance(&w.ledger, &w.maker_ata_a), 1_000);
    assert_eq!(back.close_vault_signed(&mut w.ledger, &Some(astray)), Ok(()));
}

#[test]
fn steps_that_sign_need_the_record() {
    let mut w = world();
    let opened = make_accounts(&w, 1);
    let ctx = take_accounts(&w, &opened);
    assert_eq!(ctx.transfer_to_taker(&mut w.ledger), Err(EscrowError::AddressMismatch));
    assert_eq!(ctx.close_vault(&mut w.ledger), Err(EscrowError::AddressMismatch));
    assert_eq!(Refund::of(opened).refund(&mut w.ledger), Err(EscrowError::AddressMismatch));
    make(&mut w.ledger, &opened, 1, 50, 100).unwrap();
    assert_eq!(ctx.transfer_to_taker(&mut w.ledger), Err(EscrowError::InvalidAccount));
    assert_eq!(ctx.close_vault(&mut w.ledger), Err(EscrowError::NonZeroBalance));
    assert_eq!(Refund::of(opened).refund(&mut w.ledger), Ok(()));
    assert_eq!(ctx.close_vault(&mut w.ledger), Ok(()));
    assert_eq!(w.ledger.lamports(&w.maker), 10_000_000 - ESCROW_RESERVE);
}

#[test]
fn take_keys_follow_the_token_program_of_the_request() {
    for program_b in [token_program(), token_2022_program()] {
        let mut w = world_with(program_b);
        let opened = make_accounts(&w, 1);
        make(&mut w.ledger, &opened, 1, 50, 100).unwrap();
        let ctx = take_accounts(&w, &opened);
        let keys = ctx.keys(&w.ledger);
        assert_eq!(keys.escrow_signer, Some(opened.escrow));
        assert_eq!(keys.vault, Some(opened.vault));
        assert_eq!(keys.maker_ata_b, Some(ata(&w.maker, &w.mint_b, &program_b)));
        assert_eq!(keys.taker_ata_a, Some(ata(&w.taker, &w.mint_a, &token_program())));
        assert_eq!(ctx.program_b(&w.ledger), Ok(program_b));
    }
    let w = world_with(address(77));
    let opened = make_accounts(&w, 1);
    let ctx = take_accounts(&w, &opened);
    assert_eq!(ctx.keys(&w.ledger).maker_ata_b, None);
    assert_eq!(ctx.program_b(&w.ledger), Err(EscrowError::InvalidTokenProgram));
}

#[test]
fn select_interface_prefers_the_first_token_program() {
    let a = token_program();
    let b = token_2022_program();
    assert_eq!(select_interface(&a, &a, &b), Ok(TokenInterface::Same));
    assert_eq!(select_interface(&b, &a, &b), Ok(TokenInterface::Other));
    assert_eq!(select_interface(&a, &a, &a), Ok(TokenInterface::Same));
    assert_eq!(select_interface(&b, &a, &a), Err(EscrowError::InvalidTokenProgram));
    assert_eq!(select_interface(&address(3), &a, &b), Err(EscrowError::InvalidTokenProgram));
}
