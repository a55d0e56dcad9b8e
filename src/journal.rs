use vstd::prelude::*;

use crate::address::entry_address_of;
use crate::key::Key;
use crate::space::{fits, space_of};
use crate::table::Table;

verus! {

/// Why an operation on the journal failed. A failed operation changes nothing.
#[derive(Clone, Copy, Debug, PartialEq, Eq, Structural)]
pub enum JournalError {
    /// A record already stands at the derived address.
    AlreadyExists,
    /// No record stands at the address, or its title is another.
    NotFound,
    /// The signer is not the record's owner.
    NotOwner,
    /// The title or the message is longer than its bound.
    FieldTooLong,
    /// The signer cannot fund the storage, or a refund would overflow its
    /// balance.
    AllocationFailed,
    /// No program-derived address exists for these seeds.
    InvalidSeeds,
}

/// A journal record as stored.
pub struct JournalEntryState {
    pub owner: Key,
    pub title: String,
    pub message: String,
    /// Reserved; no operation writes or reads it.
    pub entry_id: u64,
}

/// The account that holds a record: the record, the bytes allocated to it
/// and the lamports that fund them.
pub struct EntryAccount {
    pub state: JournalEntryState,
    pub space: usize,
    pub lamports: u64,
}

/// Who creates a record.
pub struct CreateEntry {
    pub owner: Key,
}

/// Which record is updated, and who signs.
pub struct UpdateEntry {
    pub journal_entry: Key,
    pub owner: Key,
}

/// Which record is deleted, and who signs.
pub struct DeleteEntry {
    pub journal_entry: Key,
    pub owner: Key,
}

/// The storage that one program owns: record accounts by address, and the
/// lamports that each identity can spend on them.
pub struct Ledger {
    program_id: Key,
    accounts: Table<EntryAccount>,
    balances: Table<u64>,
}

/// A record account that stands at `address` as the program would have
/// created it.
pub open spec fn account_ok(program: Seq<u8>, address: Seq<u8>, acct: EntryAccount) -> bool {
    &&& fits(acct.state.title@, acct.state.message@)
    &&& acct.space == space_of(acct.state.title@, acct.state.message@)
    &&& entry_address_of(program, acct.state.owner@, acct.state.title@) == Some(address)
}

impl Ledger {
    pub closed spec fn program(&self) -> Seq<u8> {
        self.program_id@
    }

    pub closed spec fn accounts(&self) -> Map<Seq<u8>, EntryAccount> {
        self.accounts.view()
    }

    pub closed spec fn balances(&self) -> Map<Seq<u8>, u64> {
        self.balances.view()
    }

    pub closed spec fn tables_wf(&self) -> bool {
        self.accounts.wf() && self.balances.wf()
    }

    /// Lamports that `who` can spend; none where it has no balance.
    pub open spec fn balance_of(&self, who: Seq<u8>) -> nat {
        if self.balances().contains_key(who) {
            self.balances()[who] as nat
        } else {
            0
        }
    }

    pub open spec fn wf(&self) -> bool {
        &&& self.tables_wf()
        &&& forall|a: Seq<u8>| #[trigger]
            self.accounts().contains_key(a) ==> account_ok(self.program(), a, self.accounts()[a])
    }

    /// An empty ledger for the program `program_id`.
    pub fn new(program_id: Key) -> (r: Ledger)
        ensures
            r.wf(),
            r.program() == program_id@,
            r.accounts() == Map::<Seq<u8>, EntryAccount>::empty(),
            r.balances() == Map::<Seq<u8>, u64>::empty(),
    {
        Ledger { program_id, accounts: Table::new(), balances: Table::new() }
    }

    pub fn program_id(&self) -> (r: Key)
        ensures
            r@ == self.program(),
    {
        self.program_id
    }

    /// Lamports that `who` can spend.
    pub fn balance(&self, who: &Key) -> (r: u64)
        requires
            self.wf(),
        ensures
            r == self.balance_of(who@),
    {
        match self.balances.get(who) {
            Some(b) => *b,
            None => 0,
        }
    }

    /// Adds `lamports` to the balance of `who`; refuses, changing nothing,
    /// where the sum would not fit.
    pub fn fund(&mut self, who: &Key, lamports: u64) -> (r: bool)
        requires
            old(self).wf(),
        ensures
            final(self).wf(),
            r == (old(self).balance_of(who@) + lamports <= u64::MAX),
            final(self).program() == old(self).program(),
            final(self).accounts() == old(self).accounts(),
            r ==> final(self).balances() == old(self).balances().insert(
                who@,
                (old(self).balance_of(who@) + lamports) as u64,
            ),
            !r ==> final(self).balances() == old(self).balances(),
    {
        let balance = self.balance(who);
        match balance.checked_add(lamports) {
            Some(sum) => {
                self.set_balance(who, sum);
                true
            },
            None => false,
        }
    }

    /// Sets the balance of `who` to `lamports`.
    pub(crate) fn set_balance(&mut self, who: &Key, lamports: u64)
        requires
            old(self).wf(),
        ensures
            final(self).wf(),
            final(self).program() == old(self).program(),
            final(self).accounts() == old(self).accounts(),
            final(self).balances() == old(self).balances().insert(who@, lamports),
    {
        self.balances.insert(*who, lamports);
        assert(self.accounts() == old(self).accounts());
        assert(self.program() == old(self).program());
    }

    /// Places `acct` at `address`.
    pub(crate) fn put_account(&mut self, address: Key, acct: EntryAccount)
        requires
            old(self).wf(),
            account_ok(old(self).program(), address@, acct),
        ensures
            final(self).wf(),
            final(self).program() == old(self).program(),
            final(self).balances() == old(self).balances(),
            final(self).accounts() == old(self).accounts().insert(address@, acct),
    {
        self.accounts.insert(address, acct);
        assert(self.balances() == old(self).balances());
        assert(self.program() == old(self).program());
        assert forall|a: Seq<u8>| #[trigger] self.accounts().contains_key(a) implies account_ok(
            self.program(),
            a,
            self.accounts()[a],
        ) by {
            if a != address@ {
                assert(old(self).accounts().contains_key(a));
            }
        }
    }

    /// Takes out the account at `address`, if any.
    pub(crate) fn take_account(&mut self, address: &Key) -> (r: Option<EntryAccount>)
        requires
            old(self).wf(),
        ensures
            final(self).wf(),
            final(self).program() == old(self).program(),
            final(self).balances() == old(self).balances(),
            final(self).accounts() == old(self).accounts().remove(address@),
            match r {
                Some(a) => old(self).accounts().contains_key(address@) && a == old(self).accounts()[address@],
                None => !old(self).accounts().contains_key(address@),
            },
    {
        let r = self.accounts.remove(address);
        assert(self.balances() == old(self).balances());
        assert(self.program() == old(self).program());
        assert forall|a: Seq<u8>| #[trigger] self.accounts().contains_key(a) implies account_ok(
            self.program(),
            a,
            self.accounts()[a],
        ) by {
            assert(old(self).accounts().contains_key(a));
        }
        r
    }

    /// The record at `address`, if any.
    pub fn entry(&self, address: &Key) -> (r: Option<&JournalEntryState>)
        requires
            self.wf(),
        ensures
            match r {
                Some(e) => self.accounts().contains_key(address@) && *e
                    == self.accounts()[address@].state,
                None => !self.accounts().contains_key(address@),
            },
    {
        match self.accounts.get(address) {
            Some(a) => Some(&a.state),
            None => None,
        }
    }

    /// The account at `address`, if any.
    pub fn account(&self, address: &Key) -> (r: Option<&EntryAccount>)
        requires
            self.wf(),
        ensures
            match r {
                Some(a) => self.accounts().contains_key(address@) && *a == self.accounts()[address@],
                None => !self.accounts().contains_key(address@),
            },
    {
        self.accounts.get(address)
    }
}

} // verus!
