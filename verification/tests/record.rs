use anchor_escrow_interface::address::Address;
use anchor_escrow_interface::state::escrow::{Escrow, DISCRIMINATOR, INIT_SPACE, LEN};
use anchor_lang::AnchorSerialize;

fn address(fill: u8) -> Address {
    Address::new_from_array([fill; 32])
}

fn sample() -> Escrow {
    Escrow {
        seed: 0x1122334455667788,
        maker: address(1),
        mint_a: address(2),
        mint_b: address(3),
        amount_receive: 50,
        bump: 254,
    }
}

#[test]
fn record_layout_has_fixed_width() {
    let bytes = sample().to_bytes();
    assert_eq!(bytes.len(), LEN);
    assert_eq!(LEN, 121);
    assert_eq!(INIT_SPACE, 113);
    assert_eq!(&bytes[0..8], &DISCRIMINATOR[..]);
    assert_eq!(&bytes[8..16], &[0x88u8, 0x77, 0x66, 0x55, 0x44, 0x33, 0x22, 0x11][..]);
    assert_eq!(&bytes[16..48], &[1u8; 32][..]);
    assert_eq!(&bytes[48..80], &[2u8; 32][..]);
    assert_eq!(&bytes[80..112], &[3u8; 32][..]);
    assert_eq!(&bytes[112..120], &[50u8, 0, 0, 0, 0, 0, 0, 0][..]);
    assert_eq!(bytes[120], 254);
}

#[test]
fn record_tag_is_the_hash_of_the_account_name() {
    let digest = anchor_lang::solana_program::hash::hash(b"account:Escrow").to_bytes();
    assert_eq!(&digest[..8], &DISCRIMINATOR[..]);
}

#[test]
fn record_fields_are_laid_out_as_borsh_lays_them() {
    let record = sample();
    let fields = (
        record.seed,
        record.maker.to_bytes(),
        record.mint_a.to_bytes(),
        record.mint_b.to_bytes(),
        record.amount_receive,
        record.bump,
    );
    let expected = fields.try_to_vec().unwrap();
    assert_eq!(expected.len(), INIT_SPACE);
    assert_eq!(&record.to_bytes()[8..], &expected[..]);
}

#[test]
fn record_reads_back_from_its_bytes() {
    let record = sample();
    assert_eq!(Escrow::from_bytes(&record.to_bytes()), Some(record));
    let extreme = Escrow {
        seed: u64::MAX,
        maker: address(255),
        mint_a: address(0),
        mint_b: address(128),
        amount_receive: u64::MAX,
        bump: 0,
    };
    assert_eq!(Escrow::from_bytes(&extreme.to_bytes()), Some(extreme));
    assert_ne!(extreme.to_bytes(), record.to_bytes());
}

#[test]
fn record_is_not_read_from_other_bytes() {
    let bytes = sample().to_bytes();
    assert_eq!(Escrow::from_bytes(&bytes[..LEN - 1]), None);
    assert_eq!(Escrow::from_bytes(&[]), None);
    let mut longer = bytes.clone();
    longer.push(0);
    assert_eq!(Escrow::from_bytes(&longer), None);
    for i in 0..8 {
        let mut wrong = bytes.clone();
        wrong[i] ^= 1;
        assert_eq!(Escrow::from_bytes(&wrong), None);
    }
    let mut other = bytes.clone();
    other[120] = 7;
    assert_eq!(Escrow::from_bytes(&other).unwrap().bump, 7);
}
