use proof_store::{
    bind_store_accounts, create_slot, read_proof, store_proof, write_record, Account, ProofData,
    ProofError, ProofRecord,
};
use solana_program::pubkey::Pubkey;

fn key(n: u8) -> Pubkey {
    Pubkey::new_from_array([n; 32])
}

const PROGRAM: u8 = 7;
const SYSTEM: u8 = 0;

fn account(k: u8, signer: bool, lamports: u64, owner: u8, data: Vec<u8>) -> Account {
    Account { key: key(k), is_signer: signer, lamports, owner: key(owner), data }
}

fn fresh_accounts() -> Vec<Account> {
    vec![
        account(1, true, 1_000_000, SYSTEM, vec![]),
        account(2, false, 0, SYSTEM, vec![]),
        account(SYSTEM, false, 1, SYSTEM, vec![]),
    ]
}

fn data(hash: &str) -> Vec<u8> {
    ProofData { url: "https://x".to_string(), content_hash: hash.to_string(), content_length: 5 }
        .try_to_vec()
        .unwrap()
}

#[test]
fn store_then_overwrite_same_length() {
    let mut accounts = fresh_accounts();
    let first = data("abc123");
    let balance: u64 = 1_500;
    store_proof(&key(PROGRAM), &key(SYSTEM), &mut accounts, &first, balance).unwrap();
    assert_eq!(accounts[1].lamports, balance);
    assert_eq!(accounts[0].lamports, 1_000_000 - balance);
    assert_eq!(accounts[1].owner, key(PROGRAM));
    assert_eq!(accounts[1].data.len(), first.len());
    let back = ProofData::try_from_slice(&accounts[1].data).unwrap();
    assert_eq!(back.url, "https://x");
    assert_eq!(back.content_hash, "abc123");
    assert_eq!(back.content_length, 5);

    let second = data("def456");
    store_proof(&key(PROGRAM), &key(SYSTEM), &mut accounts, &second, balance).unwrap();
    assert_eq!(accounts[1].lamports, balance);
    assert_eq!(accounts[0].lamports, 1_000_000 - balance);
    let back = ProofData::try_from_slice(&accounts[1].data).unwrap();
    assert_eq!(back.content_hash, "def456");
}

#[test]
fn second_record_longer_than_capacity_is_refused() {
    let mut accounts = fresh_accounts();
    store_proof(&key(PROGRAM), &key(SYSTEM), &mut accounts, &data("abc"), 900).unwrap();
    let before = accounts[1].data.clone();
    let r = store_proof(&key(PROGRAM), &key(SYSTEM), &mut accounts, &data("abcdef"), 900);
    assert_eq!(r, Err(ProofError::CapacityExceeded));
    assert_eq!(accounts[1].data, before);
}

#[test]
fn wrong_funding_authority_is_refused() {
    let mut accounts = fresh_accounts();
    accounts[2].key = key(9);
    let r = store_proof(&key(PROGRAM), &key(SYSTEM), &mut accounts, &data("abc"), 900);
    assert_eq!(r, Err(ProofError::IncorrectAuthority));
    assert_eq!(accounts[1].lamports, 0);
    assert!(accounts[1].data.is_empty());
    assert_eq!(accounts[0].lamports, 1_000_000);
}

#[test]
fn missing_accounts_are_refused() {
    let mut accounts = fresh_accounts();
    accounts.pop();
    let r = store_proof(&key(PROGRAM), &key(SYSTEM), &mut accounts, &data("abc"), 900);
    assert_eq!(r, Err(ProofError::MissingAccount));
    assert_eq!(bind_store_accounts(&Vec::new(), &key(SYSTEM)), Err(ProofError::MissingAccount));
}

#[test]
fn unsigned_payer_is_refused() {
    let mut accounts = fresh_accounts();
    accounts[0].is_signer = false;
    let r = store_proof(&key(PROGRAM), &key(SYSTEM), &mut accounts, &data("abc"), 900);
    assert_eq!(r, Err(ProofError::MissingSignature));
}

#[test]
fn poor_payer_cannot_allocate() {
    let mut accounts = fresh_accounts();
    accounts[0].lamports = 10;
    let r = store_proof(&key(PROGRAM), &key(SYSTEM), &mut accounts, &data("abc"), 900);
    assert_eq!(r, Err(ProofError::AllocationError));
    assert_eq!(accounts[0].lamports, 10);
    assert_eq!(accounts[1].lamports, 0);
}

#[test]
fn slot_owned_by_another_program_is_refused() {
    let mut accounts = fresh_accounts();
    accounts[1] = account(2, false, 500, 8, vec![0u8; 64]);
    let r = store_proof(&key(PROGRAM), &key(SYSTEM), &mut accounts, &data("abc"), 900);
    assert_eq!(r, Err(ProofError::IncorrectAuthority));
    assert_eq!(accounts[1].data, vec![0u8; 64]);
}

#[test]
fn write_keeps_bytes_after_the_record() {
    let mut slot = account(2, false, 500, PROGRAM, vec![9u8; 6]);
    write_record(&mut slot, &key(PROGRAM), &[1, 2, 3]).unwrap();
    assert_eq!(slot.data, vec![1, 2, 3, 9, 9, 9]);
    assert_eq!(write_record(&mut slot, &key(PROGRAM), &[0u8; 7]), Err(ProofError::CapacityExceeded));
}

#[test]
fn create_slot_sizes_and_owns() {
    let mut payer = account(1, true, 100, SYSTEM, vec![]);
    let mut slot = account(2, false, 0, SYSTEM, vec![]);
    create_slot(&mut payer, &mut slot, 40, 5, &key(PROGRAM)).unwrap();
    assert_eq!(payer.lamports, 60);
    assert_eq!(slot.lamports, 40);
    assert_eq!(slot.owner, key(PROGRAM));
    assert_eq!(slot.data, vec![0u8; 5]);
    let mut other = account(3, false, 0, SYSTEM, vec![]);
    assert_eq!(create_slot(&mut payer, &mut other, 61, 5, &key(PROGRAM)), Err(ProofError::AllocationError));
}

#[test]
fn allocated_but_unwritten_slot_reads_as_uninitialized() {
    let mut payer = account(1, true, 100, SYSTEM, vec![]);
    let mut slot = account(2, false, 0, SYSTEM, vec![]);
    create_slot(&mut payer, &mut slot, 40, 13, &key(8)).unwrap();
    assert_eq!(read_proof(&slot.data).err(), Some(ProofError::UninitializedAccount));
}

#[test]
fn stored_record_reads_back_after_overwrite() {
    let mut accounts = fresh_accounts();
    let rec = |hash: &str| ProofRecord {
        url: "https://x".to_string(),
        hash: hash.to_string(),
        created_at: "t0".to_string(),
        is_initialized: true,
    };
    let first = rec("abc123").to_bytes().unwrap();
    store_proof(&key(PROGRAM), &key(SYSTEM), &mut accounts, &first, 700).unwrap();
    assert_eq!(read_proof(&accounts[1].data).unwrap().hash, "abc123");
    let second = rec("def456").to_bytes().unwrap();
    store_proof(&key(PROGRAM), &key(SYSTEM), &mut accounts, &second, 700).unwrap();
    assert_eq!(read_proof(&accounts[1].data).unwrap().hash, "def456");
}
