//! Storage slots and the create-or-reuse write protocol.

use vstd::prelude::*;
use solana_program::pubkey::Pubkey;
use crate::error::ProofError;

verus! {

/// A ledger account identity.
#[verifier::external_type_specification]
#[verifier::external_body]
pub struct ExPubkey(Pubkey);

/// Relies on Pubkey's PartialEq, which compares the 32 key bytes.
#[verifier::external_body]
fn same_key(a: &Pubkey, b: &Pubkey) -> (r: bool)
    ensures
        r == (*a == *b),
{
    a == b
}

/// What an account holds: its identity, whether it signed the request, its
/// balance, its owner and its byte buffer.
pub struct AccountView {
    pub key: Pubkey,
    pub is_signer: bool,
    pub lamports: u64,
    pub owner: Pubkey,
    pub data: Seq<u8>,
}

/// An account handed to a request.
pub struct Account {
    pub key: Pubkey,
    pub is_signer: bool,
    pub lamports: u64,
    pub owner: Pubkey,
    pub data: Vec<u8>,
}

impl View for Account {
    type V = AccountView;

    open spec fn view(&self) -> AccountView {
        AccountView {
            key: self.key,
            is_signer: self.is_signer,
            lamports: self.lamports,
            owner: self.owner,
            data: self.data@,
        }
    }
}

/// The accounts of a request, as values.
pub open spec fn ledger(accounts: Seq<Account>) -> Seq<AccountView> {
    accounts.map_values(|a: Account| a@)
}

/// The role check of a store request: payer, slot and funding authority, in
/// that order; the authority must be the expected identity and the payer must
/// have signed.
pub open spec fn bind_result(accounts: Seq<AccountView>, authority: Pubkey) -> Result<
    (),
    ProofError,
> {
    if accounts.len() < 3 {
        Err(ProofError::MissingAccount)
    } else if accounts[2].key != authority {
        Err(ProofError::IncorrectAuthority)
    } else if !accounts[0].is_signer {
        Err(ProofError::MissingSignature)
    } else {
        Ok(())
    }
}

/// An allocation moves `lamports` from the payer to an unallocated slot,
/// gives the slot `space` zero bytes and sets its owner. It fails when the
/// payer cannot pay or the slot already holds value or bytes.
pub open spec fn create_result(
    payer: AccountView,
    slot: AccountView,
    lamports: u64,
    space: nat,
    owner: Pubkey,
) -> Result<(AccountView, AccountView), ProofError> {
    if payer.lamports < lamports || slot.lamports != 0 || slot.data.len() != 0 {
        Err(ProofError::AllocationError)
    } else {
        Ok(
            (
                AccountView { lamports: (payer.lamports - lamports) as u64, ..payer },
                AccountView {
                    lamports,
                    owner,
                    data: Seq::new(space, |i: int| 0u8),
                    ..slot
                },
            ),
        )
    }
}

/// A write puts `record` at the start of a slot that this program owns and
/// that has room for it; the bytes after it stay.
pub open spec fn write_result(slot: AccountView, program_id: Pubkey, record: Seq<u8>) -> Result<
    AccountView,
    ProofError,
> {
    if slot.owner != program_id {
        Err(ProofError::IncorrectAuthority)
    } else if slot.data.len() < record.len() {
        Err(ProofError::CapacityExceeded)
    } else {
        Ok(AccountView { data: record + slot.data.skip(record.len() as int), ..slot })
    }
}

/// A store request end to end: bind the roles, allocate the slot when it
/// holds no value, then write the record. On success the payer and the slot
/// are replaced by their new states.
pub open spec fn store_result(
    program_id: Pubkey,
    authority: Pubkey,
    accounts: Seq<AccountView>,
    record: Seq<u8>,
    lamports: u64,
) -> Result<Seq<AccountView>, ProofError> {
    match bind_result(accounts, authority) {
        Err(e) => Err(e),
        Ok(()) => {
            let funded = if accounts[1].lamports == 0 {
                create_result(accounts[0], accounts[1], lamports, record.len(), program_id)
            } else {
                Ok((accounts[0], accounts[1]))
            };
            match funded {
                Err(e) => Err(e),
                Ok((payer, slot)) => match write_result(slot, program_id, record) {
                    Err(e) => Err(e),
                    Ok(slot) => Ok(accounts.update(0, payer).update(1, slot)),
                },
            }
        },
    }
}

/// Checks the roles of a store request.
pub fn bind_store_accounts(accounts: &Vec<Account>, authority: &Pubkey) -> (r: Result<
    (),
    ProofError,
>)
    ensures
        r == bind_result(ledger(accounts@), *authority),
{
    if accounts.len() < 3 {
        return Err(ProofError::MissingAccount);
    }
    if !same_key(&accounts[2].key, authority) {
        return Err(ProofError::IncorrectAuthority);
    }
    if !accounts[0].is_signer {
        return Err(ProofError::MissingSignature);
    }
    Ok(())
}

/// Allocates an unallocated slot: funds it from the payer, sizes it to
/// `space` zero bytes and hands it to `owner`. Nothing changes on failure.
pub fn create_slot(payer: &mut Account, slot: &mut Account, lamports: u64, space: usize, owner: &Pubkey) -> (r: Result<(), ProofError>)
    ensures
        match create_result(old(payer)@, old(slot)@, lamports, space as nat, *owner) {
            Ok((p, s)) => r is Ok && final(payer)@ == p && final(slot)@ == s,
            Err(e) => r == Err::<(), ProofError>(e) && final(payer)@ == old(payer)@ && final(slot)@
                == old(slot)@,
        },
{
    if payer.lamports < lamports || slot.lamports != 0 || slot.data.len() != 0 {
        return Err(ProofError::AllocationError);
    }
    let mut data: Vec<u8> = Vec::new();
    let mut i: usize = 0;
    while i < space
        invariant
            i <= space,
            data@ == Seq::new(i as nat, |k: int| 0u8),
        decreases space - i,
    {
        data.push(0u8);
        i = i + 1;
        assert(data@ =~= Seq::new(i as nat, |k: int| 0u8));
    }
    payer.lamports = payer.lamports - lamports;
    slot.lamports = lamports;
    slot.owner = *owner;
    slot.data = data;
    Ok(())
}

/// Writes `record` at the start of the slot's buffer, after checking that
/// this program owns the slot and that the record fits. Nothing changes on
/// failure; a record too long for the slot is never cut short.
pub fn write_record(slot: &mut Account, program_id: &Pubkey, record: &[u8]) -> (r: Result<(), ProofError>)
    ensures
        match write_result(old(slot)@, *program_id, record@) {
            Ok(s) => r is Ok && final(slot)@ == s,
            Err(e) => r == Err::<(), ProofError>(e) && final(slot)@ == old(slot)@,
        },
{
    if !same_key(&slot.owner, program_id) {
        return Err(ProofError::IncorrectAuthority);
    }
    if slot.data.len() < record.len() {
        return Err(ProofError::CapacityExceeded);
    }
    let mut i: usize = 0;
    while i < record.len()
        invariant
            i <= record@.len() <= slot.data@.len(),
            slot.data@.len() == old(slot).data@.len(),
            slot.key == old(slot).key,
            slot.is_signer == old(slot).is_signer,
            slot.lamports == old(slot).lamports,
            slot.owner == old(slot).owner,
            forall|k: int| 0 <= k < i ==> slot.data@[k] == record@[k],
            forall|k: int| i <= k < slot.data@.len() ==> slot.data@[k] == old(slot).data@[k],
        decreases record@.len() - i,
    {
        slot.data.set(i, record[i]);
        i = i + 1;
    }
    assert(slot.data@ =~= record@ + old(slot).data@.skip(record@.len() as int));
    Ok(())
}

/// Runs a store request against `accounts` (payer, slot, funding authority):
/// binds the roles, allocates the slot when it holds no value, with
/// `lamports` (the balance that keeps `record.len()` bytes) and exactly
/// `record.len()` bytes owned by `program_id`, then writes the record. On
/// failure no account changes.
pub fn store_proof(
    program_id: &Pubkey,
    authority: &Pubkey,
    accounts: &mut Vec<Account>,
    record: &[u8],
    lamports: u64,
) -> (r: Result<(), ProofError>)
    ensures
        match store_result(*program_id, *authority, ledger(old(accounts)@), record@, lamports) {
            Ok(after) => r is Ok && ledger(final(accounts)@) == after,
            Err(e) => r == Err::<(), ProofError>(e) && ledger(final(accounts)@) == ledger(
                old(accounts)@,
            ),
        },
{
    let ghost before = ledger(accounts@);
    match bind_store_accounts(accounts, authority) {
        Err(e) => return Err(e),
        Ok(()) => {},
    }
    let mut slot = accounts.remove(1);
    let mut payer = accounts.remove(0);
    let ghost rest = accounts@;
    assert(payer@ == before[0] && slot@ == before[1]);
    if slot.lamports == 0 {
        match create_slot(&mut payer, &mut slot, lamports, record.len(), program_id) {
            Err(e) => {
                accounts.insert(0, payer);
                accounts.insert(1, slot);
                assert(ledger(accounts@) =~= before);
                return Err(e);
            },
            Ok(()) => {},
        }
    }
    match write_record(&mut slot, program_id, record) {
        Err(e) => {
            // a slot allocated just now is owned by this program and has room
            assert(before[1].lamports != 0);
            accounts.insert(0, payer);
            accounts.insert(1, slot);
            assert(ledger(accounts@) =~= before);
            return Err(e);
        },
        Ok(()) => {},
    }
    accounts.insert(0, payer);
    accounts.insert(1, slot);
    proof {
        let after = store_result(*program_id, *authority, before, record@, lamports)->Ok_0;
        assert(ledger(accounts@) =~= after);
    }
    Ok(())
}

/// Storing to a slot that holds no value allocates it: the store succeeds
/// exactly when the roles bind, the payer can pay and the slot has no bytes,
/// and then the slot holds the funding, is owned by this program, and its
/// capacity is exactly the record's length.
pub proof fn lemma_first_write_allocates(
    program_id: Pubkey,
    authority: Pubkey,
    accounts: Seq<AccountView>,
    record: Seq<u8>,
    lamports: u64,
)
    requires
        accounts.len() >= 3,
        accounts[1].lamports == 0,
    ensures
        store_result(program_id, authority, accounts, record, lamports) is Ok <==> (bind_result(
            accounts,
            authority,
        ) is Ok && accounts[0].lamports >= lamports && accounts[1].data.len() == 0),
        store_result(program_id, authority, accounts, record, lamports) is Ok ==> {
            let after = store_result(program_id, authority, accounts, record, lamports)->Ok_0;
            &&& after[1].owner == program_id
            &&& after[1].lamports == lamports
            &&& after[1].data.len() == record.len()
            &&& after[1].data == record
        },
{
    if store_result(program_id, authority, accounts, record, lamports) is Ok {
        let after = store_result(program_id, authority, accounts, record, lamports)->Ok_0;
        assert(after[1].data =~= record);
    }
}

/// Storing twice to the same slot with records of equal length succeeds both
/// times, and the slot then starts with the second record; where the first
/// store allocated the slot, the slot holds exactly the second record.
pub proof fn lemma_reuse_same_length(
    program_id: Pubkey,
    authority: Pubkey,
    accounts: Seq<AccountView>,
    first: Seq<u8>,
    first_lamports: u64,
    second: Seq<u8>,
    second_lamports: u64,
)
    requires
        store_result(program_id, authority, accounts, first, first_lamports) is Ok,
        accounts[1].lamports != 0 || first_lamports != 0,
        second.len() == first.len(),
    ensures
        ({
            let mid = store_result(program_id, authority, accounts, first, first_lamports)->Ok_0;
            let second_store = store_result(program_id, authority, mid, second, second_lamports);
            &&& second_store is Ok
            &&& second_store->Ok_0[1].data.subrange(0, second.len() as int) == second
            &&& accounts[1].lamports == 0 ==> second_store->Ok_0[1].data == second
        }),
{
    let mid = store_result(program_id, authority, accounts, first, first_lamports)->Ok_0;
    let after = store_result(program_id, authority, mid, second, second_lamports)->Ok_0;
    assert(after[1].data.subrange(0, second.len() as int) =~= second);
    if accounts[1].lamports == 0 {
        assert(after[1].data =~= second);
    }
}

/// A second record longer than the slot's first record is refused with
/// `CapacityExceeded`, never cut short to fit.
pub proof fn lemma_capacity_hazard(
    program_id: Pubkey,
    authority: Pubkey,
    accounts: Seq<AccountView>,
    first: Seq<u8>,
    first_lamports: u64,
    second: Seq<u8>,
    second_lamports: u64,
)
    requires
        accounts.len() >= 3,
        accounts[1].lamports == 0,
        first_lamports != 0,
        store_result(program_id, authority, accounts, first, first_lamports) is Ok,
        second.len() > first.len(),
    ensures
        ({
            let mid = store_result(program_id, authority, accounts, first, first_lamports)->Ok_0;
            store_result(program_id, authority, mid, second, second_lamports) == Err::<
                Seq<AccountView>,
                ProofError,
            >(ProofError::CapacityExceeded)
        }),
{
}

/// A store whose funding-authority account is not the expected identity is
/// refused with `IncorrectAuthority`, before any allocation or write.
pub proof fn lemma_authority_gate(
    program_id: Pubkey,
    authority: Pubkey,
    accounts: Seq<AccountView>,
    record: Seq<u8>,
    lamports: u64,
)
    requires
        accounts.len() >= 3,
        accounts[2].key != authority,
    ensures
        store_result(program_id, authority, accounts, record, lamports) == Err::<
            Seq<AccountView>,
            ProofError,
        >(ProofError::IncorrectAuthority),
{
}

} // verus!
