//! The address of a blob in the store.

use vstd::prelude::*;

verus! {

/// The address of a blob: the fingerprint of its bytes, as it is printed, and
/// how many bytes there are.
#[derive(Debug)]
pub struct Digest {
    pub fingerprint: String,
    pub size_bytes: usize,
}

/// What a [`Digest`] holds.
#[verifier::ext_equal]
pub struct DigestView {
    pub fingerprint: Seq<char>,
    pub size_bytes: usize,
}

impl View for Digest {
    type V = DigestView;

    open spec fn view(&self) -> DigestView {
        DigestView { fingerprint: self.fingerprint@, size_bytes: self.size_bytes }
    }
}

impl Clone for Digest {
    fn clone(&self) -> (r: Digest)
        ensures
            r@ == self@,
    {
        Digest { fingerprint: self.fingerprint.clone(), size_bytes: self.size_bytes }
    }
}

} // verus!
