//! Opening an escrow: the record and the vault are created together, and
//! the maker's deposit moves into the vault.

use crate::accounts::{
    capital, lemma_insert, mint_at, same_totals, supply, valid, Account, AccountData, Rent,
};
use crate::address::{found_program_address, try_find_program_address, Address};
use crate::associated_token::{
    associated_address, create, create_spec, get_associated_token_address_with_program_id, Create,
};
use crate::errors::EscrowError;
use crate::ledger::Ledger;
use crate::state::escrow::{escrow_seeds, seeds, Escrow};
use crate::system_program::{debit, debit_spec, lemma_debit};
use crate::token_interface::{transfer_checked, transfer_checked_spec, TransferChecked};
use vstd::prelude::*;

verus! {

/// The accounts that opening an escrow is bound to.
#[derive(Clone, Copy, Debug)]
pub struct Make {
    /// Who opens the escrow and deposits asset A.
    pub maker: Address,
    /// Mint of the asset the maker deposits.
    pub mint_a: Address,
    /// Mint of the asset the maker wants to receive; its token program may
    /// be another than that of `mint_a`.
    pub mint_b: Address,
    /// The maker's token account that funds the deposit.
    pub maker_ata_a: Address,
    /// Where the deposit is held: the escrow's token account for asset A.
    pub vault: Address,
    /// Where the record is to live.
    pub escrow: Address,
    /// The token program of `mint_a`; the vault is created under it.
    pub token_program: Address,
}

/// The bump seeds found while the accounts were checked.
#[derive(Clone, Copy, Debug)]
pub struct MakeBumps {
    pub escrow: u8,
}

/// The addresses that the accounts of `Make` derive.
#[derive(Clone, Copy, Debug)]
pub struct MakeKeys {
    /// The escrow's address and bump seed, as the search found them.
    pub escrow: Option<(Address, u8)>,
    /// The address of the vault.
    pub vault: Option<Address>,
}

impl Make {
    /// The addresses that these accounts derive for an escrow with `seed`
    /// under the program `program_id`.
    pub open spec fn spec_keys(self, seed: u64, program_id: Address) -> MakeKeys {
        MakeKeys {
            escrow: found_program_address(escrow_seeds(self.maker, seed), program_id),
            vault: associated_address(self.escrow, self.mint_a, self.token_program),
        }
    }

    /// Derives the addresses of the escrow and of its vault.
    pub fn keys(&self, seed: u64, program_id: &Address) -> (keys: MakeKeys)
        ensures
            keys == self.spec_keys(seed, *program_id),
    {
        let searched = seeds(&self.maker, seed);
        let escrow = try_find_program_address(&searched, program_id);
        let vault = get_associated_token_address_with_program_id(
            &self.escrow,
            &self.mint_a,
            &self.token_program,
        );
        MakeKeys { escrow, vault }
    }

    /// Whether the request asks and offers something, and two different
    /// assets.
    pub open spec fn check_request_spec(self, amount_receive: u64, amount_transfer: u64) -> Result<
        (),
        EscrowError,
    > {
        if amount_receive == 0 || amount_transfer == 0 {
            Err(EscrowError::ZeroAmount)
        } else if self.mint_a == self.mint_b {
            Err(EscrowError::IdenticalMints)
        } else {
            Ok(())
        }
    }

    /// Checks the request before any account is touched. Refused if an
    /// amount is zero, or if the requested asset is the deposited one.
    pub fn check_request(&self, amount_receive: u64, amount_transfer: u64) -> (r: Result<
        (),
        EscrowError,
    >)
        ensures
            r == self.check_request_spec(amount_receive, amount_transfer),
    {
        if amount_receive == 0 || amount_transfer == 0 {
            Err(EscrowError::ZeroAmount)
        } else if self.mint_a == self.mint_b {
            Err(EscrowError::IdenticalMints)
        } else {
            Ok(())
        }
    }

    /// The bump seed of the escrow, if `self.escrow` is the address that
    /// was found for it.
    pub open spec fn bumps_spec(self, keys: MakeKeys) -> Result<MakeBumps, EscrowError> {
        match keys.escrow {
            Some((address, bump)) => if address == self.escrow {
                Ok(MakeBumps { escrow: bump })
            } else {
                Err(EscrowError::AddressMismatch)
            },
            None => Err(EscrowError::AddressMismatch),
        }
    }

    /// Checks the escrow's address against the derived one.
    pub fn bumps(&self, keys: &MakeKeys) -> (r: Result<MakeBumps, EscrowError>)
        ensures
            r == self.bumps_spec(*keys),
    {
        match keys.escrow {
            Some((address, bump)) => {
                if address == self.escrow {
                    Ok(MakeBumps { escrow: bump })
                } else {
                    Err(EscrowError::AddressMismatch)
                }
            },
            None => Err(EscrowError::AddressMismatch),
        }
    }

    /// The accounts of the vault's creation.
    pub open spec fn vault_accounts(self) -> Create {
        Create {
            payer: self.maker,
            associated_token: self.vault,
            authority: self.escrow,
            mint: self.mint_a,
            token_program: self.token_program,
        }
    }

    /// What creating the vault does to `state`.
    pub open spec fn init_vault_spec(
        self,
        state: Map<Address, Account>,
        keys: MakeKeys,
        rent: Rent,
    ) -> Result<Map<Address, Account>, EscrowError> {
        create_spec(state, self.vault_accounts(), keys.vault, rent.token_account)
    }

    /// Creates the vault: an empty token account for asset A that the
    /// escrow owns, at the address derived for it. The maker pays its
    /// reserve.
    pub fn init_vault(&self, ledger: &mut Ledger, keys: &MakeKeys) -> (r: Result<(), EscrowError>)
        requires
            old(ledger).wf(),
        ensures
            final(ledger).wf(),
            final(ledger).same_host(*old(ledger)),
            match self.init_vault_spec(old(ledger)@, *keys, old(ledger).spec_rent()) {
                Ok(state) => r is Ok && final(ledger)@ == state,
                Err(e) => r == Err::<(), EscrowError>(e) && final(ledger)@ == old(ledger)@,
            },
            same_totals(final(ledger)@, old(ledger)@),
    {
        let accounts = Create {
            payer: self.maker,
            associated_token: self.vault,
            authority: self.escrow,
            mint: self.mint_a,
            token_program: self.token_program,
        };
        create(ledger, &accounts, keys.vault)
    }

    /// The record that opening writes.
    pub open spec fn record(self, seed: u64, amount_receive: u64, bumps: MakeBumps) -> Escrow {
        Escrow {
            seed,
            maker: self.maker,
            mint_a: self.mint_a,
            mint_b: self.mint_b,
            amount_receive,
            bump: bumps.escrow,
        }
    }

    /// What writing the record does to `state`.
    pub open spec fn init_escrow_spec(
        self,
        state: Map<Address, Account>,
        seed: u64,
        amount_receive: u64,
        bumps: MakeBumps,
        rent: Rent,
    ) -> Result<Map<Address, Account>, EscrowError> {
        if amount_receive == 0 {
            Err(EscrowError::ZeroAmount)
        } else if self.mint_a == self.mint_b {
            Err(EscrowError::IdenticalMints)
        } else if mint_at(state, self.mint_b) is None {
            Err(EscrowError::InvalidMint)
        } else if state.dom().contains(self.escrow) {
            Err(EscrowError::AddressInUse)
        } else {
            match debit_spec(state, self.maker, rent.escrow) {
                Err(e) => Err(e),
                Ok(paid) => Ok(
                    paid.insert(
                        self.escrow,
                        Account {
                            lamports: rent.escrow,
                            data: AccountData::Escrow(self.record(seed, amount_receive, bumps)),
                        },
                    ),
                ),
            }
        }
    }

    /// Writing the record leaves every asset's supply and the sum of the
    /// lamports as they were, and a valid state valid.
    pub proof fn lemma_init_escrow_preserves(
        self,
        state: Map<Address, Account>,
        seed: u64,
        amount_receive: u64,
        bumps: MakeBumps,
        rent: Rent,
    )
        requires
            valid(state),
            self.init_escrow_spec(state, seed, amount_receive, bumps, rent) is Ok,
        ensures
            valid(self.init_escrow_spec(state, seed, amount_receive, bumps, rent)->Ok_0),
            forall|mint: Address|
                supply(self.init_escrow_spec(state, seed, amount_receive, bumps, rent)->Ok_0, mint)
                    == supply(state, mint),
            capital(self.init_escrow_spec(state, seed, amount_receive, bumps, rent)->Ok_0)
                == capital(state),
    {
        let paid = debit_spec(state, self.maker, rent.escrow)->Ok_0;
        let account = Account {
            lamports: rent.escrow,
            data: AccountData::Escrow(self.record(seed, amount_receive, bumps)),
        };
        let after = paid.insert(self.escrow, account);
        lemma_debit(state, self.maker, rent.escrow);
        lemma_insert(paid, self.escrow, account);
        assert forall|mint: Address| supply(after, mint) == supply(state, mint) by {
            assert(supply(paid, mint) == supply(state, mint));
        }
    }

    /// Writes the record of the new escrow; the maker pays its reserve.
    /// Refused, with the ledger untouched, if nothing is requested, if the
    /// requested asset is the deposited one or no registered mint, if an
    /// account lives at the escrow's address already, or if the maker is
    /// no wallet that holds the reserve.
    pub fn init_escrow(
        &self,
        ledger: &mut Ledger,
        seed: u64,
        amount_receive: u64,
        bumps: &MakeBumps,
    ) -> (r: Result<(), EscrowError>)
        requires
            old(ledger).wf(),
        ensures
            final(ledger).wf(),
            final(ledger).same_host(*old(ledger)),
            match self.init_escrow_spec(
                old(ledger)@,
                seed,
                amount_receive,
                *bumps,
                old(ledger).spec_rent(),
            ) {
                Ok(state) => r is Ok && final(ledger)@ == state,
                Err(e) => r == Err::<(), EscrowError>(e) && final(ledger)@ == old(ledger)@,
            },
            same_totals(final(ledger)@, old(ledger)@),
    {
        if amount_receive == 0 {
            return Err(EscrowError::ZeroAmount);
        }
        if self.mint_a == self.mint_b {
            return Err(EscrowError::IdenticalMints);
        }
        if ledger.mint(&self.mint_b).is_none() {
            return Err(EscrowError::InvalidMint);
        }
        if ledger.get(&self.escrow).is_some() {
            return Err(EscrowError::AddressInUse);
        }
        let record = Escrow {
            seed,
            maker: self.maker,
            mint_a: self.mint_a,
            mint_b: self.mint_b,
            amount_receive,
            bump: bumps.escrow,
        };
        let reserve = ledger.rent().escrow;
        proof {
            ledger.lemma_wf_valid();
            if debit_spec(ledger@, self.maker, reserve) is Ok {
                self.lemma_init_escrow_preserves(ledger@, seed, amount_receive, *bumps, ledger.rent());
            }
        }
        debit(ledger, &self.maker, reserve)?;
        ledger.put(self.escrow, Account { lamports: reserve, data: AccountData::Escrow(record) });
        Ok(())
    }

    /// The accounts of the deposit.
    pub open spec fn deposit_accounts(self) -> TransferChecked {
        TransferChecked {
            from: self.maker_ata_a,
            mint: self.mint_a,
            to: self.vault,
            authority: self.maker,
        }
    }

    /// What the deposit does to `state`.
    pub open spec fn make_spec(self, state: Map<Address, Account>, amount_transfer: u64) -> Result<
        Map<Address, Account>,
        EscrowError,
    > {
        if amount_transfer == 0 {
            Err(EscrowError::ZeroAmount)
        } else {
            match mint_at(state, self.mint_a) {
                None => Err(EscrowError::InvalidMint),
                Some(m) => transfer_checked_spec(
                    state,
                    self.token_program,
                    self.deposit_accounts(),
                    amount_transfer,
                    m.decimals,
                ),
            }
        }
    }

    /// Moves the deposit of `amount_transfer` of asset A from the maker's
    /// token account into the vault, on the maker's authority.
    pub fn make(&self, ledger: &mut Ledger, amount_transfer: u64) -> (r: Result<(), EscrowError>)
        requires
            old(ledger).wf(),
        ensures
            final(ledger).wf(),
            final(ledger).same_host(*old(ledger)),
            match self.make_spec(old(ledger)@, amount_transfer) {
                Ok(state) => r is Ok && final(ledger)@ == state,
                Err(e) => r == Err::<(), EscrowError>(e) && final(ledger)@ == old(ledger)@,
            },
            same_totals(final(ledger)@, old(ledger)@),
    {
        if amount_transfer == 0 {
            return Err(EscrowError::ZeroAmount);
        }
        let decimals = match ledger.mint(&self.mint_a) {
            Some(m) => m.decimals,
            None => {
                return Err(EscrowError::InvalidMint);
            },
        };
        let cpi_program = self.token_program;
        let cpi_accounts = TransferChecked {
            from: self.maker_ata_a,
            mint: self.mint_a,
            to: self.vault,
            authority: self.maker,
        };
        transfer_checked(ledger, &cpi_program, &cpi_accounts, amount_transfer, decimals)
    }
}

} // verus!
