//! The record with a creation time and an explicit initialization flag, the
//! requests of that schema, and the read path.

use vstd::prelude::*;
use crate::error::ProofError;
use crate::wire::{field_fits, push_bool, push_str, read_bool, read_str, str_field};

verus! {

/// Three text fields, one after the other.
pub open spec fn three_fields(a: Seq<char>, b: Seq<char>, c: Seq<char>) -> Seq<u8> {
    str_field(a) + str_field(b) + str_field(c)
}

/// What a `ProofRecord` holds, as text and a flag.
pub struct ProofRecordView {
    pub url: Seq<char>,
    pub hash: Seq<char>,
    pub created_at: Seq<char>,
    pub is_initialized: bool,
}

impl ProofRecordView {
    /// All three text fields can be framed.
    pub open spec fn fits(self) -> bool {
        field_fits(self.url) && field_fits(self.hash) && field_fits(self.created_at)
    }

    /// The canonical bytes: url, hash, creation time, then the flag byte.
    pub open spec fn bytes(self) -> Seq<u8> {
        three_fields(self.url, self.hash, self.created_at).push(
            if self.is_initialized {
                1u8
            } else {
                0u8
            },
        )
    }
}

/// A stored proof that says whether it was ever written: the subject URL, a
/// digest of its content, and when it was created.
pub struct ProofRecord {
    pub url: String,
    pub hash: String,
    pub created_at: String,
    pub is_initialized: bool,
}

impl View for ProofRecord {
    type V = ProofRecordView;

    open spec fn view(&self) -> ProofRecordView {
        ProofRecordView {
            url: self.url@,
            hash: self.hash@,
            created_at: self.created_at@,
            is_initialized: self.is_initialized,
        }
    }
}

/// Reads three text fields at `pos`; returns them and the position after them.
fn read_three(b: &[u8], pos: usize) -> (r: Option<(String, String, String, usize)>)
    ensures
        r is Some ==> {
            let (x, y, z, end) = r->0;
            &&& field_fits(x@) && field_fits(y@) && field_fits(z@)
            &&& end == pos + three_fields(x@, y@, z@).len() <= b@.len()
            &&& b@.subrange(pos as int, end as int) == three_fields(x@, y@, z@)
        },
        forall|x: Seq<char>, y: Seq<char>, z: Seq<char>|
            field_fits(x) && field_fits(y) && field_fits(z) && pos + three_fields(x, y, z).len()
                <= b@.len() && b@.subrange(pos as int, pos + three_fields(x, y, z).len())
                == #[trigger] three_fields(x, y, z) ==> r is Some && (r->0).0@ == x && (r->0).1@
                == y && (r->0).2@ == z,
{
    proof {
        assert forall|x: Seq<char>, y: Seq<char>, z: Seq<char>|
            field_fits(x) && field_fits(y) && field_fits(z) && pos + three_fields(x, y, z).len()
                <= b@.len() && b@.subrange(pos as int, pos + three_fields(x, y, z).len())
                == #[trigger] three_fields(x, y, z) implies {
            let at1 = pos + str_field(x).len();
            let at2 = at1 + str_field(y).len();
            let at3 = at2 + str_field(z).len();
            &&& b@.subrange(pos as int, at1) == str_field(x)
            &&& b@.subrange(at1, at2) == str_field(y)
            &&& b@.subrange(at2, at3) == str_field(z)
        } by {
            let at1 = pos + str_field(x).len();
            let at2 = at1 + str_field(y).len();
            let at3 = at2 + str_field(z).len();
            let w = b@.subrange(pos as int, at3);
            assert(b@.subrange(pos as int, at1) =~= w.subrange(0, at1 - pos));
            assert(b@.subrange(at1, at2) =~= w.subrange(at1 - pos, at2 - pos));
            assert(b@.subrange(at2, at3) =~= w.subrange(at2 - pos, at3 - pos));
        }
    }
    let (x, at1) = match read_str(b, pos) {
        Some(v) => v,
        None => return None,
    };
    let (y, at2) = match read_str(b, at1) {
        Some(v) => v,
        None => return None,
    };
    let (z, at3) = match read_str(b, at2) {
        Some(v) => v,
        None => return None,
    };
    proof {
        assert(b@.subrange(pos as int, at3 as int) =~= b@.subrange(pos as int, at1 as int)
            + b@.subrange(at1 as int, at2 as int) + b@.subrange(at2 as int, at3 as int));
    }
    Some((x, y, z, at3))
}

impl ProofRecord {
    /// The canonical bytes of the record: each text field as a four-byte
    /// little-endian byte length and its UTF-8 bytes, then the flag as one
    /// byte. `None` when a text field is too long for its prefix.
    pub fn to_bytes(&self) -> (r: Option<Vec<u8>>)
        ensures
            r is Some <==> self@.fits(),
            r is Some ==> r->0@ == self@.bytes(),
    {
        if self.url.as_str().as_bytes().len() > u32::MAX as usize
            || self.hash.as_str().as_bytes().len() > u32::MAX as usize
            || self.created_at.as_str().as_bytes().len() > u32::MAX as usize {
            return None;
        }
        let mut out: Vec<u8> = Vec::new();
        push_str(&mut out, &self.url);
        push_str(&mut out, &self.hash);
        push_str(&mut out, &self.created_at);
        push_bool(&mut out, self.is_initialized);
        assert(out@ =~= self@.bytes());
        Some(out)
    }

    /// Decodes a record that fills `b` exactly; a flag byte other than 0 or 1
    /// is refused. A record's own bytes always decode back to that record.
    pub fn try_from_slice(b: &[u8]) -> (r: Result<ProofRecord, ProofError>)
        ensures
            r is Ok ==> r->Ok_0@.fits() && r->Ok_0@.bytes() == b@,
            r is Err ==> r->Err_0 == ProofError::DecodeError,
            forall|v: ProofRecordView| v.fits() && #[trigger] v.bytes() == b@ ==> r is Ok
                && r->Ok_0@ == v,
    {
        proof {
            assert forall|v: ProofRecordView| v.fits() && #[trigger] v.bytes() == b@ implies b@.subrange(
                0,
                three_fields(v.url, v.hash, v.created_at).len() as int,
            ) == three_fields(v.url, v.hash, v.created_at) by {
                assert(b@.subrange(0, three_fields(v.url, v.hash, v.created_at).len() as int)
                    =~= three_fields(v.url, v.hash, v.created_at));
            }
        }
        let (url, hash, created_at, end) = match read_three(b, 0) {
            Some(v) => v,
            None => return Err(ProofError::DecodeError),
        };
        let is_initialized = match read_bool(b, end) {
            Some(f) => f,
            None => return Err(ProofError::DecodeError),
        };
        if end != b.len() - 1 {
            return Err(ProofError::DecodeError);
        }
        let r = ProofRecord { url, hash, created_at, is_initialized };
        proof {
            assert(b@ =~= b@.subrange(0, end as int).push(b@[end as int]));
        }
        Ok(r)
    }
}

/// The read path: decodes a slot's whole byte buffer, and refuses a record
/// that was never written (its flag is false).
pub fn read_proof(data: &[u8]) -> (r: Result<ProofRecord, ProofError>)
    ensures
        r is Ok <==> exists|v: ProofRecordView| v.fits() && #[trigger] v.bytes() == data@
            && v.is_initialized,
        r is Ok ==> r->Ok_0@.bytes() == data@ && r->Ok_0.is_initialized,
        r == Err::<ProofRecord, ProofError>(ProofError::UninitializedAccount) <==> exists|
            v: ProofRecordView,
        | v.fits() && #[trigger] v.bytes() == data@ && !v.is_initialized,
        r == Err::<ProofRecord, ProofError>(ProofError::DecodeError) <==> !exists|
            v: ProofRecordView,
        | v.fits() && #[trigger] v.bytes() == data@,
{
    match ProofRecord::try_from_slice(data) {
        Ok(rec) => {
            if rec.is_initialized {
                Ok(rec)
            } else {
                Err(ProofError::UninitializedAccount)
            }
        },
        Err(e) => Err(e),
    }
}

/// A request of the schema with an initialization flag: store a record, or
/// read the stored one.
pub enum ProofRequest {
    StoreProof { url: String, hash: String, created_at: String },
    GetProof,
}

/// What a `ProofRequest` holds, as text.
pub enum ProofRequestView {
    StoreProof { url: Seq<char>, hash: Seq<char>, created_at: Seq<char> },
    GetProof,
}

impl ProofRequestView {
    /// Every text field can be framed.
    pub open spec fn fits(self) -> bool {
        match self {
            ProofRequestView::StoreProof { url, hash, created_at } => field_fits(url) && field_fits(
                hash,
            ) && field_fits(created_at),
            ProofRequestView::GetProof => true,
        }
    }

    /// The canonical bytes: tag 0 and the three fields, or tag 1 alone.
    pub open spec fn bytes(self) -> Seq<u8> {
        match self {
            ProofRequestView::StoreProof { url, hash, created_at } => seq![0u8] + three_fields(
                url,
                hash,
                created_at,
            ),
            ProofRequestView::GetProof => seq![1u8],
        }
    }
}

impl View for ProofRequest {
    type V = ProofRequestView;

    open spec fn view(&self) -> ProofRequestView {
        match self {
            ProofRequest::StoreProof { url, hash, created_at } => ProofRequestView::StoreProof {
                url: url@,
                hash: hash@,
                created_at: created_at@,
            },
            ProofRequest::GetProof => ProofRequestView::GetProof,
        }
    }
}

impl ProofRequest {
    /// The canonical bytes of the request. `None` when a text field is too
    /// long for its prefix.
    pub fn to_bytes(&self) -> (r: Option<Vec<u8>>)
        ensures
            r is Some <==> self@.fits(),
            r is Some ==> r->0@ == self@.bytes(),
    {
        match self {
            ProofRequest::StoreProof { url, hash, created_at } => {
                if url.as_str().as_bytes().len() > u32::MAX as usize
                    || hash.as_str().as_bytes().len() > u32::MAX as usize
                    || created_at.as_str().as_bytes().len() > u32::MAX as usize {
                    return None;
                }
                let mut out: Vec<u8> = Vec::new();
                out.push(0u8);
                push_str(&mut out, url);
                push_str(&mut out, hash);
                push_str(&mut out, created_at);
                assert(out@ =~= self@.bytes());
                Some(out)
            },
            ProofRequest::GetProof => {
                let mut out: Vec<u8> = Vec::new();
                out.push(1u8);
                assert(out@ =~= self@.bytes());
                Some(out)
            },
        }
    }

    /// Decodes a request that fills `b` exactly: an unknown tag, a truncated
    /// field or trailing bytes are refused. A request's own bytes always
    /// decode back to that request.
    pub fn try_from_slice(b: &[u8]) -> (r: Result<ProofRequest, ProofError>)
        ensures
            r is Ok ==> r->Ok_0@.fits() && r->Ok_0@.bytes() == b@,
            r is Err ==> r->Err_0 == ProofError::DecodeError,
            forall|v: ProofRequestView| v.fits() && #[trigger] v.bytes() == b@ ==> r is Ok
                && r->Ok_0@ == v,
    {
        if b.len() == 0 {
            return Err(ProofError::DecodeError);
        }
        if b[0] == 1 {
            if b.len() != 1 {
                return Err(ProofError::DecodeError);
            }
            assert(b@ =~= seq![1u8]);
            return Ok(ProofRequest::GetProof);
        }
        if b[0] != 0 {
            return Err(ProofError::DecodeError);
        }
        proof {
            assert forall|v: ProofRequestView| v.fits() && #[trigger] v.bytes() == b@ implies (
            v is StoreProof && b@.subrange(1, v.bytes().len() as int) == three_fields(
                v->url,
                v->hash,
                v->created_at,
            )) by {
                if v is StoreProof {
                    assert(b@.subrange(1, v.bytes().len() as int) =~= three_fields(
                        v->url,
                        v->hash,
                        v->created_at,
                    ));
                }
            }
        }
        let (url, hash, created_at, end) = match read_three(b, 1) {
            Some(v) => v,
            None => return Err(ProofError::DecodeError),
        };
        if end != b.len() {
            return Err(ProofError::DecodeError);
        }
        let r = ProofRequest::StoreProof { url, hash, created_at };
        proof {
            assert(b@ =~= seq![0u8] + b@.subrange(1, end as int));
        }
        Ok(r)
    }
}

/// The record that a store request writes: its fields, marked initialized.
/// `None` for a read request.
pub fn stored_record(request: ProofRequest) -> (r: Option<ProofRecord>)
    ensures
        match request@ {
            ProofRequestView::StoreProof { url, hash, created_at } => r is Some && r->0@
                == (ProofRecordView { url, hash, created_at, is_initialized: true }),
            ProofRequestView::GetProof => r is None,
        },
{
    match request {
        ProofRequest::StoreProof { url, hash, created_at } => Some(
            ProofRecord { url, hash, created_at, is_initialized: true },
        ),
        ProofRequest::GetProof => None,
    }
}

} // verus!
