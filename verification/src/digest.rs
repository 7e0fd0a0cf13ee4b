//! The 32-byte digest that every commitment in the library is made of.

use vstd::prelude::*;

verus! {

/// Number of bytes in a digest.
pub const DIGEST_LEN: usize = 32;

/// The all-zero digest stands for an absent leaf.
pub open spec fn zero_digest_bytes() -> Seq<u8> {
    Seq::new(32, |i: int| 0u8)
}

/// A 32-byte cryptographic hash value.
#[derive(Debug)]
pub struct Digest {
    pub bytes: Vec<u8>,
}

impl View for Digest {
    type V = Seq<u8>;

    open spec fn view(&self) -> Seq<u8> {
        self.bytes@
    }
}

impl Digest {
    /// A digest is well formed when it holds exactly 32 bytes.
    pub open spec fn wf(&self) -> bool {
        self.bytes@.len() == 32
    }

    /// The all-zero digest (an absent leaf).
    pub fn zero() -> (r: Digest)
        ensures
            r.wf(),
            r@ == zero_digest_bytes(),
    {
        let mut bytes: Vec<u8> = Vec::new();
        let mut i: usize = 0;
        while i < 32
            invariant
                i <= 32,
                bytes@.len() == i as int,
                forall|j: int| 0 <= j < i ==> bytes@[j] == 0u8,
            decreases 32 - i,
        {
            bytes.push(0u8);
            i = i + 1;
        }
        let r = Digest { bytes };
        proof {
            assert(r@ =~= zero_digest_bytes());
        }
        r
    }

    /// Builds a digest from a byte vector; rejects any length but 32.
    pub fn from_bytes(bytes: Vec<u8>) -> (r: Option<Digest>)
        ensures
            match r {
                Some(d) => d.wf() && d@ == bytes@,
                None => bytes@.len() != 32,
            },
    {
        if bytes.len() == 32 {
            Some(Digest { bytes })
        } else {
            None
        }
    }

    /// The digest's bytes, in order.
    pub fn as_bytes(&self) -> (r: &Vec<u8>)
        ensures
            r@ == self@,
    {
        &self.bytes
    }

    /// True exactly when the digest is all zero.
    pub fn is_zero(&self) -> (r: bool)
        requires
            self.wf(),
        ensures
            r == (self@ == zero_digest_bytes()),
    {
        let mut i: usize = 0;
        while i < 32
            invariant
                self.wf(),
                i <= 32,
                forall|j: int| 0 <= j < i ==> self@[j] == 0u8,
            decreases 32 - i,
        {
            if self.bytes[i] != 0u8 {
                return false;
            }
            i = i + 1;
        }
        proof {
            assert(self@ =~= zero_digest_bytes());
        }
        true
    }
}

impl Clone for Digest {
    fn clone(&self) -> (r: Self)
        ensures
            r@ == self@,
    {
        let mut bytes: Vec<u8> = Vec::new();
        let mut i: usize = 0;
        while i < self.bytes.len()
            invariant
                i <= self.bytes@.len(),
                bytes@.len() == i as int,
                forall|j: int| 0 <= j < i ==> bytes@[j] == self.bytes@[j],
            decreases self.bytes@.len() - i,
        {
            bytes.push(self.bytes[i]);
            i = i + 1;
        }
        let r = Digest { bytes };
        proof {
            assert(r@ =~= self@);
        }
        r
    }
}

impl PartialEq for Digest {
    fn eq(&self, other: &Self) -> (r: bool) {
        if self.bytes.len() != other.bytes.len() {
            return false;
        }
        let mut i: usize = 0;
        while i < self.bytes.len()
            invariant
                self.bytes@.len() == other.bytes@.len(),
                i <= self.bytes@.len(),
                forall|j: int| 0 <= j < i ==> self@[j] == other@[j],
            decreases self.bytes@.len() - i,
        {
            if self.bytes[i] != other.bytes[i] {
                return false;
            }
            i = i + 1;
        }
        proof {
            assert(self@ =~= other@);
        }
        true
    }
}

impl vstd::std_specs::cmp::PartialEqSpecImpl for Digest {
    open spec fn obeys_eq_spec() -> bool {
        true
    }

    open spec fn eq_spec(&self, other: &Self) -> bool {
        self@ == other@
    }
}

impl Eq for Digest {}

} // verus!
