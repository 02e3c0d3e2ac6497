use vstd::prelude::*;

verus! {

/// A 32-byte chain address (a token mint or a wallet), held as four 64-bit
/// words so that equality is plain field equality.  Callers that hold an
/// address as raw bytes pack them into the words in any fixed convention;
/// the engine only ever compares addresses for equality.
#[derive(Clone, Copy, PartialEq, Eq, Structural, Debug, Hash)]
pub struct Addr {
    pub w0: u64,
    pub w1: u64,
    pub w2: u64,
    pub w3: u64,
}

impl Addr {
    /// The all-zero address, used only as a convenient default in tests.
    pub fn zero() -> (r: Addr)
        ensures
            r == (Addr { w0: 0, w1: 0, w2: 0, w3: 0 }),
    {
        Addr { w0: 0, w1: 0, w2: 0, w3: 0 }
    }
}

} // verus!
