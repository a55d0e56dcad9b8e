use vstd::prelude::*;

use crate::address::{entry_address, entry_address_of};
use crate::journal::{
    CreateEntry, DeleteEntry, EntryAccount, JournalEntryState, JournalError, Ledger, UpdateEntry,
};
use crate::space::{
    byte_len, fits, rent_exempt_minimum, rent_for, required_space, space_of, text_len, MESSAGE_MAX_LEN,
    TITLE_MAX_LEN,
};

verus! {

/// The error that `create_entry` gives, if any.
pub open spec fn create_error(l: Ledger, owner: Seq<u8>, title: Seq<char>, message: Seq<char>) -> Option<JournalError> {
    let address = entry_address_of(l.program(), owner, title);
    if byte_len(title) > TITLE_MAX_LEN {
        Some(JournalError::FieldTooLong)
    } else if address is None {
        Some(JournalError::InvalidSeeds)
    } else if l.accounts().contains_key(address->0) {
        Some(JournalError::AlreadyExists)
    } else if byte_len(message) > MESSAGE_MAX_LEN {
        Some(JournalError::FieldTooLong)
    } else if l.balance_of(owner) < rent_exempt_minimum(space_of(title, message)) {
        Some(JournalError::AllocationFailed)
    } else {
        None
    }
}

/// `post` is `pre` after `owner` created the record `(title, message)`: a new
/// account at the derived address, sized and funded by the owner.
pub open spec fn created(pre: Ledger, post: Ledger, owner: Seq<u8>, title: Seq<char>, message: Seq<char>) -> bool {
    let a = entry_address_of(pre.program(), owner, title)->0;
    let space = space_of(title, message);
    let rent = rent_exempt_minimum(space);
    &&& post.program() == pre.program()
    &&& post.accounts().contains_key(a)
    &&& post.accounts()[a].state.owner@ == owner
    &&& post.accounts()[a].state.title@ == title
    &&& post.accounts()[a].state.message@ == message
    &&& post.accounts()[a].state.entry_id == 0
    &&& post.accounts()[a].space == space
    &&& post.accounts()[a].lamports == rent
    &&& post.accounts().remove(a) == pre.accounts()
    &&& post.balances() == pre.balances().insert(owner, (pre.balance_of(owner) - rent) as u64)
}

/// The error that `update_journal_entry` gives, if any.
pub open spec fn update_error(l: Ledger, address: Seq<u8>, signer: Seq<u8>, title: Seq<char>, message: Seq<char>) -> Option<JournalError> {
    let acct = l.accounts()[address];
    let total = l.balance_of(signer) + acct.lamports;
    let rent = rent_exempt_minimum(space_of(title, message));
    if !l.accounts().contains_key(address) {
        Some(JournalError::NotFound)
    } else if acct.state.owner@ != signer {
        Some(JournalError::NotOwner)
    } else if acct.state.title@ != title {
        Some(JournalError::NotFound)
    } else if byte_len(message) > MESSAGE_MAX_LEN {
        Some(JournalError::FieldTooLong)
    } else if total < rent || total - rent > u64::MAX {
        Some(JournalError::AllocationFailed)
    } else {
        None
    }
}

/// `post` is `pre` after `signer` replaced the message of the record at
/// `address`: its storage is resized to the new contents, and the signer pays
/// or is refunded the difference in rent.
pub open spec fn updated(pre: Ledger, post: Ledger, address: Seq<u8>, signer: Seq<u8>, message: Seq<char>) -> bool {
    let acct = pre.accounts()[address];
    let space = space_of(acct.state.title@, message);
    let rent = rent_exempt_minimum(space);
    &&& post.program() == pre.program()
    &&& post.accounts().contains_key(address)
    &&& post.accounts()[address].state.owner == acct.state.owner
    &&& post.accounts()[address].state.title@ == acct.state.title@
    &&& post.accounts()[address].state.message@ == message
    &&& post.accounts()[address].state.entry_id == acct.state.entry_id
    &&& post.accounts()[address].space == space
    &&& post.accounts()[address].lamports == rent
    &&& post.accounts().remove(address) == pre.accounts().remove(address)
    &&& post.balances() == pre.balances().insert(
        signer,
        (pre.balance_of(signer) + acct.lamports - rent) as u64,
    )
}

/// The error that `delete_journal_entry` gives, if any.
pub open spec fn delete_error(l: Ledger, address: Seq<u8>, signer: Seq<u8>, title: Seq<char>) -> Option<JournalError> {
    let acct = l.accounts()[address];
    if !l.accounts().contains_key(address) {
        Some(JournalError::NotFound)
    } else if acct.state.owner@ != signer {
        Some(JournalError::NotOwner)
    } else if acct.state.title@ != title {
        Some(JournalError::NotFound)
    } else if l.balance_of(signer) + acct.lamports > u64::MAX {
        Some(JournalError::AllocationFailed)
    } else {
        None
    }
}

/// `post` is `pre` after `signer` closed the account at `address`: it is gone
/// and its lamports went back to the signer.
pub open spec fn deleted(pre: Ledger, post: Ledger, address: Seq<u8>, signer: Seq<u8>) -> bool {
    &&& post.program() == pre.program()
    &&& post.accounts() == pre.accounts().remove(address)
    &&& post.balances() == pre.balances().insert(
        signer,
        (pre.balance_of(signer) + pre.accounts()[address].lamports) as u64,
    )
}

/// Creates the record `(title, message)` of `ctx.owner` at the address derived
/// from the owner and the title, funded by the owner.
pub fn create_entry(ledger: &mut Ledger, ctx: &CreateEntry, title: String, message: String) -> (r: Result<(), JournalError>)
    requires
        old(ledger).wf(),
    ensures
        final(ledger).wf(),
        match create_error(*old(ledger), ctx.owner@, title@, message@) {
            Some(e) => r == Err::<(), JournalError>(e) && *final(ledger) == *old(ledger),
            None => r is Ok && created(*old(ledger), *final(ledger), ctx.owner@, title@, message@),
        },
{
    if text_len(&title) > TITLE_MAX_LEN {
        return Err(JournalError::FieldTooLong);
    }
    let program = ledger.program_id();
    let address = match entry_address(&program, &ctx.owner, &title) {
        Some(a) => a,
        None => return Err(JournalError::InvalidSeeds),
    };
    if ledger.account(&address).is_some() {
        return Err(JournalError::AlreadyExists);
    }
    if text_len(&message) > MESSAGE_MAX_LEN {
        return Err(JournalError::FieldTooLong);
    }
    let space = required_space(&title, &message);
    let rent = rent_for(space);
    let balance = ledger.balance(&ctx.owner);
    if balance < rent {
        return Err(JournalError::AllocationFailed);
    }
    ledger.set_balance(&ctx.owner, balance - rent);
    let state = JournalEntryState { owner: ctx.owner, title, message, entry_id: 0 };
    ledger.put_account(address, EntryAccount { state, space, lamports: rent });
    assert(ledger.accounts().remove(address@) =~= old(ledger).accounts());
    Ok(())
}

/// Replaces the message of the record at `ctx.journal_entry`, resizing its
/// storage to the new contents; the signer pays or is refunded the change in
/// rent.
pub fn update_journal_entry(ledger: &mut Ledger, ctx: &UpdateEntry, title: String, new_message: String) -> (r: Result<(), JournalError>)
    requires
        old(ledger).wf(),
    ensures
        final(ledger).wf(),
        match update_error(*old(ledger), ctx.journal_entry@, ctx.owner@, title@, new_message@) {
            Some(e) => r == Err::<(), JournalError>(e) && *final(ledger) == *old(ledger),
            None => r is Ok && updated(*old(ledger), *final(ledger), ctx.journal_entry@, ctx.owner@, new_message@),
        },
{
    let lamports = match ledger.account(&ctx.journal_entry) {
        None => return Err(JournalError::NotFound),
        Some(acct) => {
            if !acct.state.owner.same_as(&ctx.owner) {
                return Err(JournalError::NotOwner);
            }
            if !(acct.state.title == title) {
                return Err(JournalError::NotFound);
            }
            acct.lamports
        },
    };
    if text_len(&new_message) > MESSAGE_MAX_LEN {
        return Err(JournalError::FieldTooLong);
    }
    let space = required_space(&title, &new_message);
    let rent = rent_for(space);
    let balance = ledger.balance(&ctx.owner);
    let new_balance: u64 = if lamports >= rent {
        match balance.checked_add(lamports - rent) {
            Some(b) => b,
            None => return Err(JournalError::AllocationFailed),
        }
    } else {
        if balance < rent - lamports {
            return Err(JournalError::AllocationFailed);
        }
        balance - (rent - lamports)
    };
    let mut acct = match ledger.take_account(&ctx.journal_entry) {
        Some(a) => a,
        None => return Err(JournalError::NotFound),
    };
    acct.state.message = new_message;
    acct.space = space;
    acct.lamports = rent;
    ledger.put_account(ctx.journal_entry, acct);
    ledger.set_balance(&ctx.owner, new_balance);
    assert(ledger.accounts().remove(ctx.journal_entry@) =~= old(ledger).accounts().remove(ctx.journal_entry@));
    Ok(())
}

/// Closes the account at `ctx.journal_entry` and returns its lamports to the
/// signer.
pub fn delete_journal_entry(ledger: &mut Ledger, ctx: &DeleteEntry, title: String) -> (r: Result<(), JournalError>)
    requires
        old(ledger).wf(),
    ensures
        final(ledger).wf(),
        match delete_error(*old(ledger), ctx.journal_entry@, ctx.owner@, title@) {
            Some(e) => r == Err::<(), JournalError>(e) && *final(ledger) == *old(ledger),
            None => r is Ok && deleted(*old(ledger), *final(ledger), ctx.journal_entry@, ctx.owner@),
        },
{
    let lamports = match ledger.account(&ctx.journal_entry) {
        None => return Err(JournalError::NotFound),
        Some(acct) => {
            if !acct.state.owner.same_as(&ctx.owner) {
                return Err(JournalError::NotOwner);
            }
            if !(acct.state.title == title) {
                return Err(JournalError::NotFound);
            }
            acct.lamports
        },
    };
    let balance = ledger.balance(&ctx.owner);
    let refunded = match balance.checked_add(lamports) {
        Some(b) => b,
        None => return Err(JournalError::AllocationFailed),
    };
    let _ = ledger.take_account(&ctx.journal_entry);
    ledger.set_balance(&ctx.owner, refunded);
    Ok(())
}

/// A record with fields within bounds, at a free address, that its owner can
/// fund, is created; reading it back right after gives exactly the owner,
/// title and message that were submitted.
pub proof fn lemma_create_then_read(pre: Ledger, post: Ledger, owner: Seq<u8>, title: Seq<char>, message: Seq<char>)
    requires
        pre.wf(),
        fits(title, message),
        entry_address_of(pre.program(), owner, title) is Some,
        !pre.accounts().contains_key(entry_address_of(pre.program(), owner, title)->0),
        pre.balance_of(owner) >= rent_exempt_minimum(space_of(title, message)),
        created(pre, post, owner, title, message),
    ensures
        create_error(pre, owner, title, message) is None,
        post.accounts().contains_key(entry_address_of(pre.program(), owner, title)->0),
        post.accounts()[entry_address_of(pre.program(), owner, title)->0].state.owner@ == owner,
        post.accounts()[entry_address_of(pre.program(), owner, title)->0].state.title@ == title,
        post.accounts()[entry_address_of(pre.program(), owner, title)->0].state.message@ == message,
{
}

/// Creating at an address that already holds a record fails with
/// `AlreadyExists`; `create_entry` then leaves the ledger as it was.
pub proof fn lemma_create_existing(l: Ledger, owner: Seq<u8>, title: Seq<char>, message: Seq<char>)
    requires
        l.wf(),
        byte_len(title) <= TITLE_MAX_LEN,
        entry_address_of(l.program(), owner, title) is Some,
        l.accounts().contains_key(entry_address_of(l.program(), owner, title)->0),
    ensures
        create_error(l, owner, title, message) == Some(JournalError::AlreadyExists),
{
}

/// Two updates in a row leave the second message, the same owner and title,
/// and after each the storage is exactly what the record's contents need.
pub proof fn lemma_update_twice(
    l0: Ledger,
    l1: Ledger,
    l2: Ledger,
    address: Seq<u8>,
    signer: Seq<u8>,
    title: Seq<char>,
    m1: Seq<char>,
    m2: Seq<char>,
)
    requires
        l0.wf(),
        update_error(l0, address, signer, title, m1) is None,
        updated(l0, l1, address, signer, m1),
        update_error(l1, address, signer, title, m2) is None,
        updated(l1, l2, address, signer, m2),
    ensures
        l2.accounts().contains_key(address),
        l2.accounts()[address].state.message@ == m2,
        l2.accounts()[address].state.title@ == title,
        l2.accounts()[address].state.title@ == l0.accounts()[address].state.title@,
        l2.accounts()[address].state.owner == l0.accounts()[address].state.owner,
        l1.accounts()[address].space == space_of(title, m1),
        l2.accounts()[address].space == space_of(title, m2),
{
}

/// An update or a delete signed by anyone but the record's owner fails with
/// `NotOwner`; the operation then leaves the ledger as it was.
pub proof fn lemma_not_owner(l: Ledger, address: Seq<u8>, signer: Seq<u8>, title: Seq<char>, message: Seq<char>)
    requires
        l.wf(),
        l.accounts().contains_key(address),
        l.accounts()[address].state.owner@ != signer,
    ensures
        update_error(l, address, signer, title, message) == Some(JournalError::NotOwner),
        delete_error(l, address, signer, title) == Some(JournalError::NotOwner),
{
}

/// After a delete, any update or second delete of that record fails with
/// `NotFound`.
pub proof fn lemma_deleted_is_gone(
    l0: Ledger,
    l1: Ledger,
    address: Seq<u8>,
    owner: Seq<u8>,
    signer: Seq<u8>,
    title: Seq<char>,
    message: Seq<char>,
)
    requires
        l0.wf(),
        deleted(l0, l1, address, owner),
    ensures
        update_error(l1, address, signer, title, message) == Some(JournalError::NotFound),
        delete_error(l1, address, signer, title) == Some(JournalError::NotFound),
{
}

} // verus!
