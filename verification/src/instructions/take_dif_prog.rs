//! Taking an escrow whose requested asset is governed by a token program
//! of its own, named by the taker.

use crate::accounts::{escrow_at, mint_at, same_totals, Account, Rent};
use crate::address::Address;
use crate::associated_token::{
    associated_address, create_idempotent, create_idempotent_spec,
    get_associated_token_address_with_program_id, Create,
};
use crate::errors::EscrowError;
use crate::instructions::take::{Take, TakeKeys};
use crate::ledger::Ledger;
use crate::state::escrow::Escrow;
use crate::token_interface::{transfer_checked, transfer_checked_spec, TransferChecked};
use crate::vault::{
    authorized, authorized_spec, close_vault_signed, close_vault_signed_spec, load, load_spec,
    release_signed, release_signed_spec, signer, signer_spec,
};
use vstd::prelude::*;

verus! {

/// The accounts that taking an escrow is bound to, where the taker names
/// the token program of the requested asset.
#[derive(Clone, Copy, Debug)]
pub struct TakeDifProg {
    /// Who opened the escrow.
    pub maker: Address,
    /// Who takes it.
    pub taker: Address,
    /// Mint of the deposited asset.
    pub mint_a: Address,
    /// Mint of the requested asset.
    pub mint_b: Address,
    /// The escrow's token account for asset A.
    pub vault: Address,
    /// The maker's token account for asset B; created if absent.
    pub maker_ata_b: Address,
    /// The taker's token account that pays asset B.
    pub taker_ata_b: Address,
    /// The taker's token account for asset A; created if absent.
    pub taker_ata_a: Address,
    /// The record to consume.
    pub escrow: Address,
    /// The token program of `mint_a`.
    pub token_program: Address,
    /// The token program of `mint_b`.
    pub token_program_2: Address,
}

impl TakeDifProg {
    /// The same accounts for a `Take` that is offered both token programs.
    pub open spec fn spec_as_take(self) -> Take {
        Take {
            maker: self.maker,
            taker: self.taker,
            mint_a: self.mint_a,
            mint_b: self.mint_b,
            vault: self.vault,
            maker_ata_b: self.maker_ata_b,
            taker_ata_b: self.taker_ata_b,
            taker_ata_a: self.taker_ata_a,
            escrow: self.escrow,
            token_program: self.token_program,
            token_program_option: self.token_program_2,
        }
    }

    /// The same accounts for a `Take` that is offered both token programs.
    #[verifier::when_used_as_spec(spec_as_take)]
    pub fn as_take(self) -> (take: Take)
        ensures
            take == self.spec_as_take(),
    {
        Take {
            maker: self.maker,
            taker: self.taker,
            mint_a: self.mint_a,
            mint_b: self.mint_b,
            vault: self.vault,
            maker_ata_b: self.maker_ata_b,
            taker_ata_b: self.taker_ata_b,
            taker_ata_a: self.taker_ata_a,
            escrow: self.escrow,
            token_program: self.token_program,
            token_program_option: self.token_program_2,
        }
    }

    /// The token program of the requested asset: `token_program_2`, if it
    /// governs `mint_b`.
    pub open spec fn program_b_spec(self, state: Map<Address, Account>) -> Result<
        Address,
        EscrowError,
    > {
        match mint_at(state, self.mint_b) {
            None => Err(EscrowError::InvalidMint),
            Some(m) => if m.token_program == self.token_program_2 {
                Ok(self.token_program_2)
            } else {
                Err(EscrowError::InvalidTokenProgram)
            },
        }
    }

    /// Checks that `token_program_2` governs the requested asset.
    pub fn program_b(&self, ledger: &Ledger) -> (r: Result<Address, EscrowError>)
        requires
            ledger.wf(),
        ensures
            r == self.program_b_spec(ledger@),
    {
        match ledger.mint(&self.mint_b) {
            None => Err(EscrowError::InvalidMint),
            Some(m) => {
                if m.token_program == self.token_program_2 {
                    Ok(self.token_program_2)
                } else {
                    Err(EscrowError::InvalidTokenProgram)
                }
            },
        }
    }

    /// The addresses that these accounts derive under the program
    /// `program_id`.
    pub open spec fn spec_keys(self, state: Map<Address, Account>, program_id: Address) -> TakeKeys {
        TakeKeys {
            escrow_signer: signer_spec(state, self.escrow, program_id),
            vault: associated_address(self.escrow, self.mint_a, self.token_program),
            maker_ata_b: associated_address(self.maker, self.mint_b, self.token_program_2),
            taker_ata_a: associated_address(self.taker, self.mint_a, self.token_program),
        }
    }

    /// Derives the addresses of the escrow, of its vault and of the two
    /// receiving accounts.
    pub fn keys(&self, ledger: &Ledger) -> (keys: TakeKeys)
        requires
            ledger.wf(),
        ensures
            keys == self.spec_keys(ledger@, ledger.spec_program_id()),
    {
        TakeKeys {
            escrow_signer: signer(ledger, &self.escrow),
            vault: get_associated_token_address_with_program_id(
                &self.escrow,
                &self.mint_a,
                &self.token_program,
            ),
            maker_ata_b: get_associated_token_address_with_program_id(
                &self.maker,
                &self.mint_b,
                &self.token_program_2,
            ),
            taker_ata_a: get_associated_token_address_with_program_id(
                &self.taker,
                &self.mint_a,
                &self.token_program,
            ),
        }
    }

    /// The record to consume, if the accounts are those of its escrow.
    pub open spec fn validate_spec(self, state: Map<Address, Account>, keys: TakeKeys) -> Result<
        Escrow,
        EscrowError,
    > {
        match load_spec(state, self.escrow, self.maker, self.mint_a) {
            Err(e) => Err(e),
            Ok(record) => if record.mint_b != self.mint_b {
                Err(EscrowError::MintMismatch)
            } else {
                match authorized_spec(self.escrow, self.vault, keys.escrow_signer, keys.vault) {
                    Err(e) => Err(e),
                    Ok(()) => Ok(record),
                }
            },
        }
    }

    /// Checks the accounts against the record: the escrow lives, the maker
    /// and both mints are those it records, and the escrow and its vault
    /// are at their derived addresses.
    pub fn validate(&self, ledger: &Ledger, keys: &TakeKeys) -> (r: Result<Escrow, EscrowError>)
        requires
            ledger.wf(),
        ensures
            r == self.validate_spec(ledger@, *keys),
    {
        match load(ledger, &self.escrow, &self.maker, &self.mint_a) {
            Err(e) => Err(e),
            Ok(record) => {
                if record.mint_b != self.mint_b {
                    Err(EscrowError::MintMismatch)
                } else {
                    match authorized(&self.escrow, &self.vault, &keys.escrow_signer, &keys.vault) {
                        Err(e) => Err(e),
                        Ok(()) => Ok(record),
                    }
                }
            },
        }
    }

    /// The accounts of the creation of the maker's receiving account.
    pub open spec fn maker_ata_b_accounts(self) -> Create {
        Create {
            payer: self.taker,
            associated_token: self.maker_ata_b,
            authority: self.maker,
            mint: self.mint_b,
            token_program: self.token_program_2,
        }
    }

    /// The accounts of the creation of the taker's receiving account.
    pub open spec fn taker_ata_a_accounts(self) -> Create {
        Create {
            payer: self.taker,
            associated_token: self.taker_ata_a,
            authority: self.taker,
            mint: self.mint_a,
            token_program: self.token_program,
        }
    }

    /// What creating the absent receiving accounts does to `state`.
    pub open spec fn init_accounts_spec(
        self,
        state: Map<Address, Account>,
        keys: TakeKeys,
        rent: Rent,
    ) -> Result<Map<Address, Account>, EscrowError> {
        match self.program_b_spec(state) {
            Err(e) => Err(e),
            Ok(_) => match create_idempotent_spec(
                state,
                self.maker_ata_b_accounts(),
                keys.maker_ata_b,
                rent.token_account,
            ) {
                Err(e) => Err(e),
                Ok(next) => create_idempotent_spec(
                    next,
                    self.taker_ata_a_accounts(),
                    keys.taker_ata_a,
                    rent.token_account,
                ),
            },
        }
    }

    /// Creates the maker's token account for asset B and the taker's for
    /// asset A where they are absent: both, or on an error neither. The
    /// taker pays their reserves.
    pub fn init_accounts(&self, ledger: &mut Ledger, keys: &TakeKeys) -> (r: Result<
        (),
        EscrowError,
    >)
        requires
            old(ledger).wf(),
        ensures
            final(ledger).wf(),
            final(ledger).same_host(*old(ledger)),
            match self.init_accounts_spec(old(ledger)@, *keys, old(ledger).spec_rent()) {
                Ok(state) => r is Ok && final(ledger)@ == state,
                Err(e) => r == Err::<(), EscrowError>(e) && final(ledger)@ == old(ledger)@,
            },
            same_totals(final(ledger)@, old(ledger)@),
    {
        self.program_b(ledger)?;
        let for_maker = Create {
            payer: self.taker,
            associated_token: self.maker_ata_b,
            authority: self.maker,
            mint: self.mint_b,
            token_program: self.token_program_2,
        };
        let mut work = ledger.snapshot();
        create_idempotent(&mut work, &for_maker, keys.maker_ata_b)?;
        let for_taker = Create {
            payer: self.taker,
            associated_token: self.taker_ata_a,
            authority: self.taker,
            mint: self.mint_a,
            token_program: self.token_program,
        };
        create_idempotent(&mut work, &for_taker, keys.taker_ata_a)?;
        *ledger = work;
        Ok(())
    }

    /// The accounts of the payment to the maker.
    pub open spec fn payment_accounts(self) -> TransferChecked {
        TransferChecked {
            from: self.taker_ata_b,
            mint: self.mint_b,
            to: self.maker_ata_b,
            authority: self.taker,
        }
    }

    /// What the payment to the maker does to `state`.
    pub open spec fn transfer_to_maker_spec(self, state: Map<Address, Account>) -> Result<
        Map<Address, Account>,
        EscrowError,
    > {
        match escrow_at(state, self.escrow) {
            None => Err(EscrowError::EscrowNotFound),
            Some(record) => match mint_at(state, self.mint_b) {
                None => Err(EscrowError::InvalidMint),
                Some(m) => transfer_checked_spec(
                    state,
                    self.token_program_2,
                    self.payment_accounts(),
                    record.amount_receive,
                    m.decimals,
                ),
            },
        }
    }

    /// Transfers the amount the maker wants to receive, of asset B, from
    /// the taker to the maker, under `token_program_2`.
    pub fn transfer_to_maker(&self, ledger: &mut Ledger) -> (r: Result<(), EscrowError>)
        requires
            old(ledger).wf(),
        ensures
            final(ledger).wf(),
            final(ledger).same_host(*old(ledger)),
            match self.transfer_to_maker_spec(old(ledger)@) {
                Ok(state) => r is Ok && final(ledger)@ == state,
                Err(e) => r == Err::<(), EscrowError>(e) && final(ledger)@ == old(ledger)@,
            },
            same_totals(final(ledger)@, old(ledger)@),
    {
        let record = match ledger.escrow(&self.escrow) {
            Some(record) => record,
            None => {
                return Err(EscrowError::EscrowNotFound);
            },
        };
        let decimals = match ledger.mint(&self.mint_b) {
            Some(m) => m.decimals,
            None => {
                return Err(EscrowError::InvalidMint);
            },
        };
        let cpi_program = self.token_program_2;
        let cpi_accounts = TransferChecked {
            from: self.taker_ata_b,
            mint: self.mint_b,
            to: self.maker_ata_b,
            authority: self.taker,
        };
        transfer_checked(ledger, &cpi_program, &cpi_accounts, record.amount_receive, decimals)
    }

    /// What the release to the taker does to `state`, where `signer` is
    /// the address that the record's seeds derive.
    pub open spec fn transfer_to_taker_signed_spec(
        self,
        state: Map<Address, Account>,
        signer: Option<Address>,
    ) -> Result<Map<Address, Account>, EscrowError> {
        release_signed_spec(
            state,
            self.token_program,
            self.vault,
            self.mint_a,
            self.taker_ata_a,
            self.escrow,
            signer,
        )
    }

    /// Transfers all that the vault holds, of asset A, to the taker, on
    /// the authority of the escrow, given the address `signer` that the
    /// record's seeds derive. Refused unless that address is the escrow.
    pub fn transfer_to_taker_signed(&self, ledger: &mut Ledger, signer: &Option<Address>) -> (r: Result<
        (),
        EscrowError,
    >)
        requires
            old(ledger).wf(),
        ensures
            final(ledger).wf(),
            final(ledger).same_host(*old(ledger)),
            match self.transfer_to_taker_signed_spec(old(ledger)@, *signer) {
                Ok(state) => r is Ok && final(ledger)@ == state,
                Err(e) => r == Err::<(), EscrowError>(e) && final(ledger)@ == old(ledger)@,
            },
            same_totals(final(ledger)@, old(ledger)@),
    {
        release_signed(
            ledger,
            &self.token_program,
            &self.vault,
            &self.mint_a,
            &self.taker_ata_a,
            &self.escrow,
            signer,
        )
    }

    /// What the release to the taker does to `state` under the program
    /// `program_id`: the program signs with the seeds of the record, and is
    /// refused unless they derive the escrow's address.
    pub open spec fn transfer_to_taker_spec(self, state: Map<Address, Account>, program_id: Address)
        -> Result<Map<Address, Account>, EscrowError> {
        self.transfer_to_taker_signed_spec(state, signer_spec(state, self.escrow, program_id))
    }

    /// Transfers all that the vault holds, of asset A, to the taker, signing
    /// as the escrow with the seeds of its record: the prefix, the maker, the
    /// seed and the bump seed.
    pub fn transfer_to_taker(&self, ledger: &mut Ledger) -> (r: Result<(), EscrowError>)
        requires
            old(ledger).wf(),
        ensures
            final(ledger).wf(),
            final(ledger).same_host(*old(ledger)),
            match self.transfer_to_taker_spec(old(ledger)@, old(ledger).spec_program_id()) {
                Ok(state) => r is Ok && final(ledger)@ == state,
                Err(e) => r == Err::<(), EscrowError>(e) && final(ledger)@ == old(ledger)@,
            },
            same_totals(final(ledger)@, old(ledger)@),
    {
        let signer = signer(ledger, &self.escrow);
        self.transfer_to_taker_signed(ledger, &signer)
    }

    /// What closing the vault does to `state`, where `signer` is the
    /// address that the record's seeds derive.
    pub open spec fn close_vault_signed_spec(
        self,
        state: Map<Address, Account>,
        signer: Option<Address>,
    ) -> Result<Map<Address, Account>, EscrowError> {
        close_vault_signed_spec(
            state,
            self.token_program,
            self.vault,
            self.maker,
            self.escrow,
            signer,
        )
    }

    /// Closes the vault, on the authority of the escrow, and hands its
    /// reserve to the maker, given the address `signer` that the record's
    /// seeds derive. Refused unless that address is the escrow.
    pub fn close_vault_signed(&self, ledger: &mut Ledger, signer: &Option<Address>) -> (r: Result<
        (),
        EscrowError,
    >)
        requires
            old(ledger).wf(),
        ensures
            final(ledger).wf(),
            final(ledger).same_host(*old(ledger)),
            match self.close_vault_signed_spec(old(ledger)@, *signer) {
                Ok(state) => r is Ok && final(ledger)@ == state,
                Err(e) => r == Err::<(), EscrowError>(e) && final(ledger)@ == old(ledger)@,
            },
            same_totals(final(ledger)@, old(ledger)@),
    {
        close_vault_signed(
            ledger,
            &self.token_program,
            &self.vault,
            &self.maker,
            &self.escrow,
            signer,
        )
    }

    /// What closing the vault does to `state` under the program
    /// `program_id`: the program signs with the seeds of the record, and is
    /// refused unless they derive the escrow's address.
    pub open spec fn close_vault_spec(self, state: Map<Address, Account>, program_id: Address)
        -> Result<Map<Address, Account>, EscrowError> {
        self.close_vault_signed_spec(state, signer_spec(state, self.escrow, program_id))
    }

    /// Closes the vault and hands its reserve to the maker, signing as the
    /// escrow with the seeds of its record: the prefix, the maker, the seed
    /// and the bump seed.
    pub fn close_vault(&self, ledger: &mut Ledger) -> (r: Result<(), EscrowError>)
        requires
            old(ledger).wf(),
        ensures
            final(ledger).wf(),
            final(ledger).same_host(*old(ledger)),
            match self.close_vault_spec(old(ledger)@, old(ledger).spec_program_id()) {
                Ok(state) => r is Ok && final(ledger)@ == state,
                Err(e) => r == Err::<(), EscrowError>(e) && final(ledger)@ == old(ledger)@,
            },
            same_totals(final(ledger)@, old(ledger)@),
    {
        let signer = signer(ledger, &self.escrow);
        self.close_vault_signed(ledger, &signer)
    }
}

} // verus!
