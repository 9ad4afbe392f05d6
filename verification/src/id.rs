//! Opaque 16-byte identifiers: tokens, user ids, object ids.

use vstd::prelude::*;
use vstd::string::StringSliceAdditionalSpecFns;

use crate::codec::{all_hex_bytes, decode_hex_16, encode_hex, hex_of, hex_pair_val};
use crate::error::Error;

verus! {

broadcast use vstd::array::group_array_axioms;

/// Identifier length in bytes.
pub const IDL: usize = 16;

/// The bytes of the anonymous identifier.
pub open spec fn zero_id_bytes() -> Seq<u8> {
    Seq::new(16, |i: int| 0u8)
}

/// A 16-byte opaque identifier, rendered as lowercase hex. The all-zero
/// value denotes "anonymous/unset".
#[derive(Clone, Copy, Debug)]
pub struct Id(pub [u8; IDL]);

impl Id {
    /// Whether this is the all-zero, anonymous identifier.
    pub open spec fn spec_is_zero(&self) -> bool {
        forall|i: int| 0 <= i < 16 ==> self.0@[i] == 0
    }

    /// The anonymous identifier.
    pub fn zero() -> (r: Self)
        ensures
            r.spec_is_zero(),
    {
        Id([0u8; 16])
    }

    /// Test for the anonymous identifier.
    pub fn is_zero(&self) -> (r: bool)
        ensures
            r == self.spec_is_zero(),
    {
        let mut i: usize = 0;
        while i < 16
            invariant
                0 <= i <= 16,
                forall|j: int| 0 <= j < i ==> self.0@[j] == 0,
            decreases 16 - i,
        {
            if self.0[i] != 0 {
                return false;
            }
            i = i + 1;
        }
        true
    }

    /// A fresh random identifier.
    pub fn rand() -> Id {
        Id(random_id_bytes())
    }

    /// Parse an identifier from 32 hex digits.
    pub fn from_str(s: &str) -> (r: Result<Id, Error>)
        ensures
            r is Ok <==> (s.spec_bytes().len() == 32 && all_hex_bytes(s.spec_bytes())),
            r is Ok ==> forall|i: int|
                0 <= i < 16 ==> r->Ok_0.0@[i] == hex_pair_val(s.spec_bytes(), i),
            r is Err ==> r->Err_0 == Error::ApiParseId,
    {
        match decode_hex_16(s) {
            Some(a) => Ok(Id(a)),
            None => Err(Error::ApiParseId),
        }
    }

    /// Rebuild an identifier from its raw bytes, as read back from the
    /// key/value store.
    pub fn from_vec(v: &Vec<u8>) -> (r: Result<Id, Error>)
        ensures
            r is Ok <==> v@.len() == 16,
            r is Ok ==> r->Ok_0.0@ == v@,
            r is Err ==> r->Err_0 == Error::Logical,
    {
        if v.len() != 16 {
            return Err(Error::Logical);
        }
        let mut a = [0u8; 16];
        let mut i: usize = 0;
        while i < 16
            invariant
                0 <= i <= 16,
                v@.len() == 16,
                forall|j: int| 0 <= j < i ==> a@[j] == v@[j],
            decreases 16 - i,
        {
            a[i] = v[i];
            i = i + 1;
        }
        proof {
            assert(a@ =~= v@);
        }
        Ok(Id(a))
    }

    /// The raw bytes, as stored in the key/value store.
    pub fn to_vec(&self) -> (r: Vec<u8>)
        ensures
            r@ == self.0@,
    {
        let mut v: Vec<u8> = Vec::new();
        let mut i: usize = 0;
        while i < 16
            invariant
                0 <= i <= 16,
                v@.len() == i,
                forall|j: int| 0 <= j < i ==> v@[j] == self.0@[j],
            decreases 16 - i,
        {
            v.push(self.0[i]);
            i = i + 1;
        }
        proof {
            assert(v@ =~= self.0@);
        }
        v
    }

    /// Lowercase hex rendering, 32 digits.
    pub fn to_hex(&self) -> (r: String)
        ensures
            r@ == hex_of(self.0@),
    {
        encode_hex(self.0.as_slice())
    }
}

impl PartialEq for Id {
    fn eq(&self, other: &Id) -> (r: bool) {
        let mut i: usize = 0;
        while i < 16
            invariant
                0 <= i <= 16,
                forall|j: int| 0 <= j < i ==> self.0@[j] == other.0@[j],
            decreases 16 - i,
        {
            if self.0[i] != other.0[i] {
                return false;
            }
            i = i + 1;
        }
        proof {
            assert(self.0@ =~= other.0@);
        }
        true
    }
}

impl vstd::std_specs::cmp::PartialEqSpecImpl for Id {
    open spec fn obeys_eq_spec() -> bool {
        true
    }

    open spec fn eq_spec(&self, other: &Id) -> bool {
        self.0@ == other.0@
    }
}

/// Relies on `rand::random`: sixteen bytes from the thread-local
/// cryptographic generator. Nothing is promised of the value.
#[verifier::external_body]
fn random_id_bytes() -> [u8; 16] {
    rand::random::<[u8; 16]>()
}

} // verus!
