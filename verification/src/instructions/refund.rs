//! Refunding an escrow: the maker takes the deposit back before anyone
//! took the escrow.

use crate::accounts::{same_totals, token_at, Account};
use crate::address::Address;
use crate::associated_token::{associated_address, get_associated_token_address_with_program_id};
use crate::errors::EscrowError;
use crate::instructions::make::Make;
use crate::ledger::Ledger;
use crate::state::escrow::Escrow;
use crate::vault::{
    authorized, authorized_spec, close_vault_signed, close_vault_signed_spec, load, load_spec,
    release_signed, release_signed_spec, signer, signer_spec,
};
use vstd::prelude::*;

verus! {

/// The accounts that refunding an escrow is bound to.
#[derive(Clone, Copy, Debug)]
pub struct Refund {
    /// Who opened the escrow, and now cancels it.
    pub maker: Address,
    /// Mint of the deposited asset.
    pub mint_a: Address,
    /// The maker's token account that receives the deposit back.
    pub maker_ata_a: Address,
    /// The escrow's token account for asset A.
    pub vault: Address,
    /// The record to consume.
    pub escrow: Address,
    /// The token program of `mint_a`.
    pub token_program: Address,
}

/// The addresses that the accounts of a `Refund` derive.
#[derive(Clone, Copy, Debug)]
pub struct RefundKeys {
    /// The address that the record's seeds and bump seed derive.
    pub escrow_signer: Option<Address>,
    pub vault: Option<Address>,
}

impl Refund {
    /// The accounts with which the maker of `make` takes the deposit back
    /// into the account that funded it.
    pub open spec fn spec_of(make: Make) -> Refund {
        Refund {
            maker: make.maker,
            mint_a: make.mint_a,
            maker_ata_a: make.maker_ata_a,
            vault: make.vault,
            escrow: make.escrow,
            token_program: make.token_program,
        }
    }

    /// The accounts with which the maker of `make` takes the deposit back
    /// into the account that funded it.
    #[verifier::when_used_as_spec(spec_of)]
    pub fn of(make: Make) -> (refund: Refund)
        ensures
            refund == Self::spec_of(make),
    {
        Refund {
            maker: make.maker,
            mint_a: make.mint_a,
            maker_ata_a: make.maker_ata_a,
            vault: make.vault,
            escrow: make.escrow,
            token_program: make.token_program,
        }
    }

    /// The addresses that these accounts derive in `state` under the
    /// program `program_id`.
    pub open spec fn spec_keys(self, state: Map<Address, Account>, program_id: Address)
        -> RefundKeys {
        RefundKeys {
            escrow_signer: signer_spec(state, self.escrow, program_id),
            vault: associated_address(self.escrow, self.mint_a, self.token_program),
        }
    }

    /// Derives the addresses of the escrow and of its vault.
    pub fn keys(&self, ledger: &Ledger) -> (keys: RefundKeys)
        requires
            ledger.wf(),
        ensures
            keys == self.spec_keys(ledger@, ledger.spec_program_id()),
    {
        RefundKeys {
            escrow_signer: signer(ledger, &self.escrow),
            vault: get_associated_token_address_with_program_id(
                &self.escrow,
                &self.mint_a,
                &self.token_program,
            ),
        }
    }

    /// The record to consume, if the accounts are those of its escrow and
    /// the receiving account is the maker's.
    pub open spec fn validate_spec(self, state: Map<Address, Account>, keys: RefundKeys) -> Result<
        Escrow,
        EscrowError,
    > {
        match load_spec(state, self.escrow, self.maker, self.mint_a) {
            Err(e) => Err(e),
            Ok(record) => match authorized_spec(
                self.escrow,
                self.vault,
                keys.escrow_signer,
                keys.vault,
            ) {
                Err(e) => Err(e),
                Ok(()) => match token_at(state, self.maker_ata_a) {
                    None => Err(EscrowError::InvalidAccount),
                    Some(t) => if t.owner != self.maker {
                        Err(EscrowError::OwnerMismatch)
                    } else {
                        Ok(record)
                    },
                },
            },
        }
    }

    /// Checks the accounts against the record: the escrow lives, the maker
    /// and the mint are those it records, the escrow and its vault are at
    /// their derived addresses, and the receiving account is a token
    /// account of the maker.
    pub fn validate(&self, ledger: &Ledger, keys: &RefundKeys) -> (r: Result<Escrow, EscrowError>)
        requires
            ledger.wf(),
        ensures
            r == self.validate_spec(ledger@, *keys),
    {
        match load(ledger, &self.escrow, &self.maker, &self.mint_a) {
            Err(e) => Err(e),
            Ok(record) => match authorized(
                &self.escrow,
                &self.vault,
                &keys.escrow_signer,
                &keys.vault,
            ) {
                Err(e) => Err(e),
                Ok(()) => match ledger.token_account(&self.maker_ata_a) {
                    None => Err(EscrowError::InvalidAccount),
                    Some(t) => {
                        if t.owner != self.maker {
                            Err(EscrowError::OwnerMismatch)
                        } else {
                            Ok(record)
                        }
                    },
                },
            },
        }
    }

    /// What the release to the maker does to `state`, where `signer` is
    /// the address that the record's seeds derive.
    pub open spec fn refund_signed_spec(
        self,
        state: Map<Address, Account>,
        signer: Option<Address>,
    ) -> Result<Map<Address, Account>, EscrowError> {
        release_signed_spec(
            state,
            self.token_program,
            self.vault,
            self.mint_a,
            self.maker_ata_a,
            self.escrow,
            signer,
        )
    }

    /// Transfers all that the vault holds, of asset A, to the maker, on
    /// the authority of the escrow, given the address `signer` that the
    /// record's seeds derive. Refused unless that address is the escrow.
    pub fn refund_signed(&self, ledger: &mut Ledger, signer: &Option<Address>) -> (r: Result<
        (),
        EscrowError,
    >)
        requires
            old(ledger).wf(),
        ensures
            final(ledger).wf(),
            final(ledger).same_host(*old(ledger)),
            match self.refund_signed_spec(old(ledger)@, *signer) {
                Ok(state) => r is Ok && final(ledger)@ == state,
                Err(e) => r == Err::<(), EscrowError>(e) && final(ledger)@ == old(ledger)@,
            },
            same_totals(final(ledger)@, old(ledger)@),
    {
        release_signed(
            ledger,
            &self.token_program,
            &self.vault,
            &self.mint_a,
            &self.maker_ata_a,
            &self.escrow,
            signer,
        )
    }

    /// What the release to the maker does to `state` under the program
    /// `program_id`: the program signs with the seeds of the record, and is
    /// refused unless they derive the escrow's address.
    pub open spec fn refund_spec(self, state: Map<Address, Account>, program_id: Address)
        -> Result<Map<Address, Account>, EscrowError> {
        self.refund_signed_spec(state, signer_spec(state, self.escrow, program_id))
    }

    /// Transfers all that the vault holds, of asset A, back to the maker, signing
    /// as the escrow with the seeds of its record: the prefix, the maker, the
    /// seed and the bump seed.
    pub fn refund(&self, ledger: &mut Ledger) -> (r: Result<(), EscrowError>)
        requires
            old(ledger).wf(),
        ensures
            final(ledger).wf(),
            final(ledger).same_host(*old(ledger)),
            match self.refund_spec(old(ledger)@, old(ledger).spec_program_id()) {
                Ok(state) => r is Ok && final(ledger)@ == state,
                Err(e) => r == Err::<(), EscrowError>(e) && final(ledger)@ == old(ledger)@,
            },
            same_totals(final(ledger)@, old(ledger)@),
    {
        let signer = signer(ledger, &self.escrow);
        self.refund_signed(ledger, &signer)
    }

    /// What closing the vault does to `state`, where `signer` is the
    /// address that the record's seeds derive.
    pub open spec fn close_vault_signed_spec(
        self,
        state: Map<Address, Account>,
        signer: Option<Address>,
    ) -> Result<Map<Address, Account>, EscrowError> {
        close_vault_signed_spec(
            state,
            self.token_program,
            self.vault,
            self.maker,
            self.escrow,
            signer,
        )
    }

    /// Closes the vault, on the authority of the escrow, and hands its
    /// reserve to the maker, given the address `signer` that the record's
    /// seeds derive. Refused unless that address is the escrow.
    pub fn close_vault_signed(&self, ledger: &mut Ledger, signer: &Option<Address>) -> (r: Result<
        (),
        EscrowError,
    >)
        requires
            old(ledger).wf(),
        ensures
            final(ledger).wf(),
            final(ledger).same_host(*old(ledger)),
            match self.close_vault_signed_spec(old(ledger)@, *signer) {
                Ok(state) => r is Ok && final(ledger)@ == state,
                Err(e) => r == Err::<(), EscrowError>(e) && final(ledger)@ == old(ledger)@,
            },
            same_totals(final(ledger)@, old(ledger)@),
    {
        close_vault_signed(
            ledger,
            &self.token_program,
            &self.vault,
            &self.maker,
            &self.escrow,
            signer,
        )
    }

    /// What closing the vault does to `state` under the program
    /// `program_id`: the program signs with the seeds of the record, and is
    /// refused unless they derive the escrow's address.
    pub open spec fn close_vault_spec(self, state: Map<Address, Account>, program_id: Address)
        -> Result<Map<Address, Account>, EscrowError> {
        self.close_vault_signed_spec(state, signer_spec(state, self.escrow, program_id))
    }

    /// Closes the vault and hands its reserve to the maker, signing as the
    /// escrow with the seeds of its record: the prefix, the maker, the seed
    /// and the bump seed.
    pub fn close_vault(&self, ledger: &mut Ledger) -> (r: Result<(), EscrowError>)
        requires
            old(ledger).wf(),
        ensures
            final(ledger).wf(),
            final(ledger).same_host(*old(ledger)),
            match self.close_vault_spec(old(ledger)@, old(ledger).spec_program_id()) {
                Ok(state) => r is Ok && final(ledger)@ == state,
                Err(e) => r == Err::<(), EscrowError>(e) && final(ledger)@ == old(ledger)@,
            },
            same_totals(final(ledger)@, old(ledger)@),
    {
        let signer = signer(ledger, &self.escrow);
        self.close_vault_signed(ledger, &signer)
    }
}

} // verus!
