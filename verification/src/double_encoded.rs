//! A value kept in its SCALE encoding and decoded on demand, at most once.

use vstd::prelude::*;
use crate::scale::ScaleDecode;
use vstd::std_specs::cmp::PartialEqSpecImpl;
use vstd::std_specs::convert::FromSpecImpl;

verus! {

/// A payload held as bytes together with, once decoded, the value they
/// encode. Only the bytes take part in equality and in cloning.
pub struct DoubleEncoded<T> {
    encoded: Vec<u8>,
    decoded: Option<T>,
}

impl<T> DoubleEncoded<T> {
    /// The encoded bytes.
    pub closed spec fn encoded(&self) -> Seq<u8> {
        self.encoded@
    }

    /// The decoded value, if it has been decoded.
    pub closed spec fn decoded(&self) -> Option<T> {
        self.decoded
    }

    /// The same bytes, seen as the encoding of another type; nothing decoded.
    pub fn into<S>(self) -> (r: DoubleEncoded<S>)
        ensures
            r.encoded() == self.encoded(),
            r.decoded() is None,
    {
        DoubleEncoded::<S>::from(self)
    }

    /// The bytes of `e`, seen as the encoding of `T`; nothing decoded.
    pub fn from<S>(e: DoubleEncoded<S>) -> (r: Self)
        ensures
            r.encoded() == e.encoded(),
            r.decoded() is None,
    {
        DoubleEncoded { encoded: e.encoded, decoded: None }
    }

    /// The decoded value, if it has been decoded.
    pub fn as_ref(&self) -> (r: Option<&T>)
        ensures
            r == match self.decoded() {
                Some(v) => Some(&v),
                None => None::<&T>,
            },
    {
        match &self.decoded {
            Some(v) => Some(v),
            None => None,
        }
    }
}

/// What a payload holds decoded once `ensure_decoded` ran on it: what it
/// held, or else what its bytes decode to.
pub open spec fn decoded_after_ensure<T: ScaleDecode>(d: DoubleEncoded<T>) -> Option<T> {
    match d.decoded() {
        Some(v) => Some(v),
        None => T::decode_spec(d.encoded()),
    }
}

/// Decoding happens at most once: running `ensure_decoded` on its own result
/// changes nothing, and the value is what the bytes decode to whenever
/// nothing was decoded before.
pub proof fn ensure_decoded_is_idempotent<T: ScaleDecode>(d: DoubleEncoded<T>, d1: DoubleEncoded<T>)
    requires
        d1.encoded() == d.encoded(),
        d1.decoded() == decoded_after_ensure(d),
    ensures
        decoded_after_ensure(d1) == decoded_after_ensure(d),
        d.decoded() is None ==> decoded_after_ensure(d) == T::decode_spec(d.encoded()),
{
}

impl<T: ScaleDecode> DoubleEncoded<T> {
    /// Decodes the bytes unless that was done already, and gives the decoded
    /// value; `Err(())` when the bytes hold no value of `T`.
    pub fn ensure_decoded(&mut self) -> (r: Result<&T, ()>)
        ensures
            final(self).encoded() == old(self).encoded(),
            final(self).decoded() == decoded_after_ensure(*old(self)),
            r == match final(self).decoded() {
                Some(v) => Ok(&v),
                None => Err::<&T, ()>(()),
            },
    {
        if self.decoded.is_none() {
            self.decoded = T::scale_decode(self.encoded.as_slice());
        }
        match &self.decoded {
            Some(v) => Ok(v),
            None => Err(()),
        }
    }

    /// Takes the decoded value out, decoding the bytes if it was not there;
    /// nothing stays decoded afterwards.
    pub fn take_decoded(&mut self) -> (r: Result<T, ()>)
        ensures
            final(self).encoded() == old(self).encoded(),
            final(self).decoded() is None,
            r == match old(self).decoded() {
                Some(v) => Ok(v),
                None => match T::decode_spec(old(self).encoded()) {
                    Some(v) => Ok(v),
                    None => Err(()),
                },
            },
    {
        let taken = self.decoded.take();
        match taken {
            Some(v) => Ok(v),
            None => match T::scale_decode(self.encoded.as_slice()) {
                Some(v) => Ok(v),
                None => Err(()),
            },
        }
    }

    /// The decoded value, decoding the bytes if needed.
    pub fn try_into(self) -> (r: Result<T, ()>)
        ensures
            r == match self.decoded() {
                Some(v) => Ok(v),
                None => match T::decode_spec(self.encoded()) {
                    Some(v) => Ok(v),
                    None => Err(()),
                },
            },
    {
        let mut this = self;
        let _ = this.ensure_decoded();
        match this.decoded {
            Some(v) => Ok(v),
            None => Err(()),
        }
    }
}

impl<T> Clone for DoubleEncoded<T> {
    /// A copy of the bytes; the copy holds nothing decoded.
    fn clone(&self) -> (r: Self)
        ensures
            r.encoded() == self.encoded(),
            r.decoded() is None,
    {
        DoubleEncoded { encoded: self.encoded.clone(), decoded: None }
    }
}

impl<T> PartialEq for DoubleEncoded<T> {
    /// Two payloads are equal when their bytes are.
    fn eq(&self, other: &Self) -> (r: bool) {
        let a = &self.encoded;
        let b = &other.encoded;
        if a.len() != b.len() {
            return false;
        }
        let mut i: usize = 0;
        while i < a.len()
            invariant
                a@ == self.encoded(),
                b@ == other.encoded(),
                a.len() == b.len(),
                i <= a.len(),
                forall|j: int| 0 <= j < i ==> a@[j] == b@[j],
            decreases a.len() - i,
        {
            if a[i] != b[i] {
                assert(a@[i as int] != b@[i as int]);
                return false;
            }
            i = i + 1;
        }
        proof {
            assert(a@ =~= b@);
        }
        true
    }
}

impl<T> PartialEqSpecImpl for DoubleEncoded<T> {
    open spec fn obeys_eq_spec() -> bool {
        true
    }

    open spec fn eq_spec(&self, other: &Self) -> bool {
        self.encoded() == other.encoded()
    }
}

impl<T> Eq for DoubleEncoded<T> {
}

impl<T> DoubleEncoded<T> {
    /// The payload made of `encoded`, with nothing decoded.
    pub closed spec fn of_bytes(encoded: Vec<u8>) -> Self {
        DoubleEncoded { encoded, decoded: None }
    }

    /// What `of_bytes` holds.
    pub broadcast proof fn of_bytes_holds(encoded: Vec<u8>)
        ensures
            #[trigger] Self::of_bytes(encoded).encoded() == encoded@,
            Self::of_bytes(encoded).decoded() is None,
    {
    }
}

impl<T> From<Vec<u8>> for DoubleEncoded<T> {
    /// The payload made of the given bytes, with nothing decoded.
    fn from(encoded: Vec<u8>) -> (r: Self) {
        DoubleEncoded { encoded, decoded: None }
    }
}

impl<T> FromSpecImpl<Vec<u8>> for DoubleEncoded<T> {
    open spec fn obeys_from_spec() -> bool {
        true
    }

    open spec fn from_spec(v: Vec<u8>) -> Self {
        Self::of_bytes(v)
    }
}

} // verus!
