//! The record with a content length and no initialization flag, and the
//! store request that carries it.

use vstd::prelude::*;
use crate::error::ProofError;
use crate::wire::{field_fits, le_u64, push_str, push_u64, read_str, read_u64, str_field};

verus! {

/// What a `ProofData` holds, as text and numbers.
pub struct ProofDataView {
    pub url: Seq<char>,
    pub content_hash: Seq<char>,
    pub content_length: u64,
}

impl ProofDataView {
    /// Both text fields can be framed.
    pub open spec fn fits(self) -> bool {
        field_fits(self.url) && field_fits(self.content_hash)
    }

    /// The canonical bytes: url, content hash, then the length.
    pub open spec fn bytes(self) -> Seq<u8> {
        str_field(self.url) + str_field(self.content_hash) + le_u64(self.content_length)
    }
}

/// A stored proof: the subject URL, a digest of its content, and the
/// content's length in bytes.
pub struct ProofData {
    pub url: String,
    pub content_hash: String,
    pub content_length: u64,
}

impl View for ProofData {
    type V = ProofDataView;

    open spec fn view(&self) -> ProofDataView {
        ProofDataView {
            url: self.url@,
            content_hash: self.content_hash@,
            content_length: self.content_length,
        }
    }
}

/// The error type of the byte encoders.
#[verifier::external_type_specification]
#[verifier::external_body]
pub struct ExIoError(std::io::Error);

/// Relies on std::io::Error::new, to report a field too long to frame.
#[verifier::external_body]
fn invalid_data() -> std::io::Error {
    std::io::Error::new(std::io::ErrorKind::InvalidData, "text field longer than u32::MAX bytes")
}

/// Appends the canonical bytes of `d`.
fn push_data(out: &mut Vec<u8>, d: &ProofData)
    requires
        d@.fits(),
    ensures
        final(out)@ == old(out)@ + d@.bytes(),
{
    push_str(out, &d.url);
    push_str(out, &d.content_hash);
    push_u64(out, d.content_length);
    assert(final(out)@ =~= old(out)@ + d@.bytes());
}

/// Reads a record at `pos`; returns it and the position after it.
fn read_data(b: &[u8], pos: usize) -> (r: Option<(ProofData, usize)>)
    ensures
        r is Some ==> {
            let (d, end) = r->0;
            &&& d@.fits()
            &&& end == pos + d@.bytes().len() <= b@.len()
            &&& b@.subrange(pos as int, end as int) == d@.bytes()
        },
        forall|v: ProofDataView|
            v.fits() && pos + v.bytes().len() <= b@.len() && b@.subrange(
                pos as int,
                pos + v.bytes().len(),
            ) == #[trigger] v.bytes() ==> r is Some && (r->0).0@ == v,
{
    let ghost b0 = b@;
    proof {
        assert forall|v: ProofDataView|
            v.fits() && pos + v.bytes().len() <= b@.len() && b@.subrange(
                pos as int,
                pos + v.bytes().len(),
            ) == #[trigger] v.bytes() implies {
            let at1 = pos + str_field(v.url).len();
            let at2 = at1 + str_field(v.content_hash).len();
            &&& b@.subrange(pos as int, at1) == str_field(v.url)
            &&& b@.subrange(at1, at2) == str_field(v.content_hash)
            &&& b@.subrange(at2, at2 + 8) == le_u64(v.content_length)
        } by {
            let at1 = pos + str_field(v.url).len();
            let at2 = at1 + str_field(v.content_hash).len();
            let w = b@.subrange(pos as int, pos + v.bytes().len());
            assert(b@.subrange(pos as int, at1) =~= w.subrange(0, at1 - pos));
            assert(b@.subrange(at1, at2) =~= w.subrange(at1 - pos, at2 - pos));
            assert(b@.subrange(at2, at2 + 8) =~= w.subrange(at2 - pos, at2 - pos + 8));
        }
    }
    let (url, at1) = match read_str(b, pos) {
        Some(x) => x,
        None => return None,
    };
    let (content_hash, at2) = match read_str(b, at1) {
        Some(x) => x,
        None => return None,
    };
    let content_length = match read_u64(b, at2) {
        Some(n) => n,
        None => return None,
    };
    let d = ProofData { url, content_hash, content_length };
    let blen = b.len();
    assert(at2 + 8 <= blen);
    let end = at2 + 8;
    proof {
        assert(b@.subrange(pos as int, end as int) =~= b@.subrange(pos as int, at1 as int)
            + b@.subrange(at1 as int, at2 as int) + b@.subrange(at2 as int, end as int));
    }
    Some((d, end))
}

impl ProofData {
    /// The canonical bytes of the record: each text field as a four-byte
    /// little-endian byte length and its UTF-8 bytes, then the length as
    /// eight little-endian bytes. Fails when a text field is too long for its
    /// prefix.
    pub fn try_to_vec(&self) -> (r: Result<Vec<u8>, std::io::Error>)
        ensures
            r is Ok <==> self@.fits(),
            r is Ok ==> r->Ok_0@ == self@.bytes(),
    {
        if self.url.as_str().as_bytes().len() > u32::MAX as usize
            || self.content_hash.as_str().as_bytes().len() > u32::MAX as usize {
            return Err(invalid_data());
        }
        let mut out: Vec<u8> = Vec::new();
        push_data(&mut out, self);
        assert(out@ =~= self@.bytes());
        Ok(out)
    }

    /// Decodes a record that fills `b` exactly. A record's own bytes always
    /// decode back to that record.
    pub fn try_from_slice(b: &[u8]) -> (r: Result<ProofData, ProofError>)
        ensures
            r is Ok ==> r->Ok_0@.fits() && r->Ok_0@.bytes() == b@,
            r is Err ==> r->Err_0 == ProofError::DecodeError,
            forall|v: ProofDataView| v.fits() && #[trigger] v.bytes() == b@ ==> r is Ok
                && r->Ok_0@ == v,
    {
        proof {
            assert(b@.subrange(0, b@.len() as int) =~= b@);
        }
        match read_data(b, 0) {
            Some((d, end)) => {
                if end == b.len() {
                    Ok(d)
                } else {
                    Err(ProofError::DecodeError)
                }
            },
            None => Err(ProofError::DecodeError),
        }
    }
}

/// The store request of the record schema without an initialization flag.
pub enum ProofInstruction {
    StoreProof { url: String, content_hash: String, content_length: u64 },
}

impl View for ProofInstruction {
    type V = ProofDataView;

    open spec fn view(&self) -> ProofDataView {
        match self {
            ProofInstruction::StoreProof { url, content_hash, content_length } => ProofDataView {
                url: url@,
                content_hash: content_hash@,
                content_length: *content_length,
            },
        }
    }
}

/// The bytes of a store request: tag 0, then the record's fields.
pub open spec fn instruction_bytes(v: ProofDataView) -> Seq<u8> {
    seq![0u8] + v.bytes()
}

impl ProofInstruction {
    /// The canonical bytes of the request: the tag byte 0, then the fields as
    /// a record lays them out. Fails when a text field is too long for its
    /// prefix.
    pub fn try_to_vec(&self) -> (r: Result<Vec<u8>, std::io::Error>)
        ensures
            r is Ok <==> self@.fits(),
            r is Ok ==> r->Ok_0@ == instruction_bytes(self@),
    {
        match self {
            ProofInstruction::StoreProof { url, content_hash, content_length } => {
                if url.as_str().as_bytes().len() > u32::MAX as usize
                    || content_hash.as_str().as_bytes().len() > u32::MAX as usize {
                    return Err(invalid_data());
                }
                let mut out: Vec<u8> = Vec::new();
                out.push(0u8);
                push_str(&mut out, url);
                push_str(&mut out, content_hash);
                push_u64(&mut out, *content_length);
                assert(out@ =~= instruction_bytes(self@));
                Ok(out)
            },
        }
    }

    /// Decodes a request that fills `b` exactly: an unknown tag, a truncated
    /// field or trailing bytes are refused. A request's own bytes always
    /// decode back to that request.
    pub fn try_from_slice(b: &[u8]) -> (r: Result<ProofInstruction, ProofError>)
        ensures
            r is Ok ==> r->Ok_0@.fits() && instruction_bytes(r->Ok_0@) == b@,
            r is Err ==> r->Err_0 == ProofError::DecodeError,
            forall|v: ProofDataView| v.fits() && #[trigger] instruction_bytes(v) == b@ ==> r is Ok
                && r->Ok_0@ == v,
    {
        if b.len() == 0 || b[0] != 0 {
            return Err(ProofError::DecodeError);
        }
        proof {
            assert forall|v: ProofDataView| v.fits() && #[trigger] instruction_bytes(v) == b@ implies
                b@.subrange(1, v.bytes().len() + 1int) == v.bytes() by {
                assert(b@.subrange(1, v.bytes().len() + 1int) =~= instruction_bytes(v).subrange(
                    1,
                    v.bytes().len() + 1int,
                ));
                assert(instruction_bytes(v).subrange(1, v.bytes().len() + 1int) =~= v.bytes());
            }
        }
        match read_data(b, 1) {
            Some((d, end)) => {
                if end == b.len() {
                    proof {
                        assert(b@ =~= seq![0u8] + b@.subrange(1, end as int));
                    }
                    Ok(
                        ProofInstruction::StoreProof {
                            url: d.url,
                            content_hash: d.content_hash,
                            content_length: d.content_length,
                        },
                    )
                } else {
                    Err(ProofError::DecodeError)
                }
            },
            None => Err(ProofError::DecodeError),
        }
    }
}

/// The bytes to store for a store request: decodes the request and encodes
/// the record it carries. Fails with `DecodeError` exactly when the request
/// bytes are not a request's canonical bytes.
pub fn store_record_bytes(instruction_data: &[u8]) -> (r: Result<Vec<u8>, ProofError>)
    ensures
        r is Ok ==> exists|v: ProofDataView| v.fits() && #[trigger] instruction_bytes(v)
            == instruction_data@ && r->Ok_0@ == v.bytes(),
        r is Err ==> r->Err_0 == ProofError::DecodeError,
        forall|v: ProofDataView|
            v.fits() && #[trigger] instruction_bytes(v) == instruction_data@ ==> r is Ok
                && r->Ok_0@ == v.bytes(),
{
    let instruction = ProofInstruction::try_from_slice(instruction_data)?;
    let ghost v = instruction@;
    match instruction {
        ProofInstruction::StoreProof { url, content_hash, content_length } => {
            let data = ProofData { url, content_hash, content_length };
            assert(data@ == v);
            match data.try_to_vec() {
                Ok(bytes) => Ok(bytes),
                Err(_) => Err(ProofError::DecodeError),
            }
        },
    }
}

} // verus!
