//! Storage of small proof records in ledger accounts: the byte layout of the
//! records and requests, the binding of account roles, and the
//! create-or-reuse write protocol of a storage slot.

mod error;
mod proof_data;
mod record;
mod store;
mod wire;

pub use error::ProofError;
pub use proof_data::{
    instruction_bytes, store_record_bytes, ProofData, ProofDataView, ProofInstruction,
};
pub use record::{
    read_proof, stored_record, three_fields, ProofRecord, ProofRecordView, ProofRequest,
    ProofRequestView,
};
pub use store::{
    bind_result, bind_store_accounts, create_result, create_slot, ledger, lemma_authority_gate,
    lemma_capacity_hazard, lemma_first_write_allocates, lemma_reuse_same_length, store_proof,
    store_result, write_record, write_result, Account, AccountView,
};
pub use wire::{field_fits, le_u32, le_u64, str_field};
