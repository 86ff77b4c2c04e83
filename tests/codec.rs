use proof_store::{
    read_proof, stored_record, ProofData, ProofError, ProofInstruction, ProofRecord, ProofRequest,
    store_record_bytes,
};

fn sample() -> ProofData {
    ProofData {
        url: "https://x".to_string(),
        content_hash: "abc123".to_string(),
        content_length: 5,
    }
}

#[test]
fn proof_data_exact_bytes() {
    let bytes = sample().try_to_vec().unwrap();
    let mut expected: Vec<u8> = vec![9, 0, 0, 0];
    expected.extend_from_slice(b"https://x");
    expected.extend_from_slice(&[6, 0, 0, 0]);
    expected.extend_from_slice(b"abc123");
    expected.extend_from_slice(&[5, 0, 0, 0, 0, 0, 0, 0]);
    assert_eq!(bytes, expected);
}

#[test]
fn proof_data_matches_borsh_layout() {
    let d = ProofData {
        url: "https://example.org/a?b=c".to_string(),
        content_hash: "9f86d081884c7d65".to_string(),
        content_length: 0x0102_0304_0506_0708,
    };
    let mut expected = borsh::to_vec(&d.url).unwrap();
    expected.extend(borsh::to_vec(&d.content_hash).unwrap());
    expected.extend(borsh::to_vec(&d.content_length).unwrap());
    assert_eq!(d.try_to_vec().unwrap(), expected);
}

#[test]
fn proof_data_round_trip() {
    let bytes = sample().try_to_vec().unwrap();
    let back = ProofData::try_from_slice(&bytes).unwrap();
    assert_eq!(back.url, "https://x");
    assert_eq!(back.content_hash, "abc123");
    assert_eq!(back.content_length, 5);
}

#[test]
fn proof_data_round_trip_multibyte_text() {
    let d = ProofData {
        url: "https://ex\u{e9}mple/\u{1f600}".to_string(),
        content_hash: String::new(),
        content_length: u64::MAX,
    };
    let bytes = d.try_to_vec().unwrap();
    assert_eq!(bytes[0] as usize, d.url.len());
    assert_eq!(bytes[0], 21);
    let back = ProofData::try_from_slice(&bytes).unwrap();
    assert_eq!(back.url, d.url);
    assert_eq!(back.content_hash, "");
    assert_eq!(back.content_length, u64::MAX);
}

#[test]
fn proof_data_refuses_truncated_and_trailing_bytes() {
    let bytes = sample().try_to_vec().unwrap();
    let short = &bytes[..bytes.len() - 1];
    assert!(matches!(ProofData::try_from_slice(short), Err(ProofError::DecodeError)));
    let mut long = bytes.clone();
    long.push(0);
    assert!(matches!(ProofData::try_from_slice(&long), Err(ProofError::DecodeError)));
    assert!(matches!(ProofData::try_from_slice(&[]), Err(ProofError::DecodeError)));
}

#[test]
fn proof_data_refuses_invalid_utf8() {
    let bytes: Vec<u8> = vec![1, 0, 0, 0, 0xff, 0, 0, 0, 0, 1, 0, 0, 0, 0, 0, 0, 0];
    assert!(matches!(ProofData::try_from_slice(&bytes), Err(ProofError::DecodeError)));
}

#[test]
fn instruction_round_trip_and_tag() {
    let ins = ProofInstruction::StoreProof {
        url: "https://x".to_string(),
        content_hash: "abc123".to_string(),
        content_length: 5,
    };
    let bytes = ins.try_to_vec().unwrap();
    assert_eq!(bytes[0], 0);
    assert_eq!(&bytes[1..], &sample().try_to_vec().unwrap()[..]);
    match ProofInstruction::try_from_slice(&bytes).unwrap() {
        ProofInstruction::StoreProof { url, content_hash, content_length } => {
            assert_eq!(url, "https://x");
            assert_eq!(content_hash, "abc123");
            assert_eq!(content_length, 5);
        }
    }
}

#[test]
fn instruction_refuses_unknown_tag() {
    let mut bytes = sample().try_to_vec().unwrap();
    bytes.insert(0, 1);
    assert!(matches!(ProofInstruction::try_from_slice(&bytes), Err(ProofError::DecodeError)));
    assert!(matches!(ProofInstruction::try_from_slice(&[]), Err(ProofError::DecodeError)));
}

#[test]
fn store_record_bytes_drops_the_tag() {
    let ins = ProofInstruction::StoreProof {
        url: "https://x".to_string(),
        content_hash: "abc123".to_string(),
        content_length: 5,
    };
    let bytes = ins.try_to_vec().unwrap();
    assert_eq!(store_record_bytes(&bytes).unwrap(), sample().try_to_vec().unwrap());
    assert!(matches!(store_record_bytes(&bytes[..5]), Err(ProofError::DecodeError)));
}

fn record(flag: bool) -> ProofRecord {
    ProofRecord {
        url: "https://x".to_string(),
        hash: "abc123".to_string(),
        created_at: "2024-01-01T00:00:00Z".to_string(),
        is_initialized: flag,
    }
}

#[test]
fn record_round_trip_and_layout() {
    let r = record(true);
    let bytes = r.to_bytes().unwrap();
    let mut expected = borsh::to_vec(&r.url).unwrap();
    expected.extend(borsh::to_vec(&r.hash).unwrap());
    expected.extend(borsh::to_vec(&r.created_at).unwrap());
    expected.extend(borsh::to_vec(&true).unwrap());
    assert_eq!(bytes, expected);
    let back = ProofRecord::try_from_slice(&bytes).unwrap();
    assert_eq!(back.url, r.url);
    assert_eq!(back.hash, r.hash);
    assert_eq!(back.created_at, r.created_at);
    assert!(back.is_initialized);
}

#[test]
fn record_refuses_bad_flag_byte() {
    let mut bytes = record(true).to_bytes().unwrap();
    let last = bytes.len() - 1;
    bytes[last] = 2;
    assert!(matches!(ProofRecord::try_from_slice(&bytes), Err(ProofError::DecodeError)));
}

#[test]
fn request_round_trip() {
    let get = ProofRequest::GetProof.to_bytes().unwrap();
    assert_eq!(get, vec![1u8]);
    assert!(matches!(ProofRequest::try_from_slice(&get), Ok(ProofRequest::GetProof)));
    let store = ProofRequest::StoreProof {
        url: "u".to_string(),
        hash: "h".to_string(),
        created_at: "t".to_string(),
    };
    let bytes = store.to_bytes().unwrap();
    assert_eq!(bytes, vec![0, 1, 0, 0, 0, b'u', 1, 0, 0, 0, b'h', 1, 0, 0, 0, b't']);
    match ProofRequest::try_from_slice(&bytes).unwrap() {
        ProofRequest::StoreProof { url, hash, created_at } => {
            assert_eq!((url.as_str(), hash.as_str(), created_at.as_str()), ("u", "h", "t"));
        }
        ProofRequest::GetProof => panic!("decoded the wrong request"),
    }
    assert!(matches!(ProofRequest::try_from_slice(&[1, 0]), Err(ProofError::DecodeError)));
    assert!(matches!(ProofRequest::try_from_slice(&[2]), Err(ProofError::DecodeError)));
}

#[test]
fn stored_record_is_initialized() {
    let req = ProofRequest::StoreProof {
        url: "u".to_string(),
        hash: "h".to_string(),
        created_at: "t".to_string(),
    };
    let r = stored_record(req).unwrap();
    assert!(r.is_initialized);
    assert_eq!(r.url, "u");
    assert!(stored_record(ProofRequest::GetProof).is_none());
}

#[test]
fn read_of_zeroed_slot_is_uninitialized() {
    let zeroed = vec![0u8; 13];
    assert!(matches!(read_proof(&zeroed), Err(ProofError::UninitializedAccount)));
    let unwritten = record(false).to_bytes().unwrap();
    assert!(matches!(read_proof(&unwritten), Err(ProofError::UninitializedAccount)));
}

#[test]
fn read_of_written_slot_returns_record() {
    let bytes = record(true).to_bytes().unwrap();
    let r = read_proof(&bytes).unwrap();
    assert_eq!(r.hash, "abc123");
    assert!(matches!(read_proof(&[0u8; 14]), Err(ProofError::DecodeError)));
    assert!(matches!(read_proof(&[]), Err(ProofError::DecodeError)));
}
