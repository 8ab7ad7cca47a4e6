//! A 32-byte account address, the key type used throughout the library.

use vstd::prelude::*;

use crate::encoding::{all_base58, base58_text, decode_base58_fixed, FixedSizeError};

verus! {

/// The longest base58 text of a key, in bytes.
pub const MAX_BASE58_LEN: usize = 44;

/// Why a text is not a key.
#[derive(Debug, Clone, Copy, PartialEq, Eq, Structural)]
pub enum ParsePubkeyError {
    /// The text is too long, or decodes to other than 32 bytes
    WrongSize,
    /// The text holds a character outside the base58 alphabet
    Invalid,
}

/// A 32-byte public key identifying an account, a mint or a program.
#[derive(Clone, Copy, Debug, Eq, Hash)]
pub struct Pubkey {
    pub bytes: [u8; 32],
}

/// Whether every byte of `b` is zero.
pub open spec fn all_zero(b: Seq<u8>) -> bool {
    forall|i: int| 0 <= i < b.len() ==> #[trigger] b[i] == 0u8
}

/// Whether every byte of `k` is zero.
pub open spec fn is_zero_key(k: Pubkey) -> bool {
    all_zero(k.bytes@)
}

/// The key whose bytes are `s[off .. off + 32]`.
pub open spec fn key_at(s: Seq<u8>, off: int) -> Seq<u8> {
    s.subrange(off, off + 32)
}

impl Pubkey {
    /// Builds a key from its 32 bytes.
    pub fn new_from_array(bytes: [u8; 32]) -> (k: Pubkey)
        ensures
            k.bytes == bytes,
    {
        Pubkey { bytes }
    }

    /// The 32 bytes of this key.
    pub fn to_bytes(&self) -> (b: [u8; 32])
        ensures
            b == self.bytes,
    {
        self.bytes
    }

    /// Copies the 32 bytes at `s[off .. off + 32]` into a key.
    pub fn from_slice_at(s: &[u8], off: usize) -> (k: Pubkey)
        requires
            off + 32 <= s@.len(),
        ensures
            k.bytes@ == key_at(s@, off as int),
    {
        let n: usize = s.len();
        let mut a = [0u8; 32];
        let mut i: usize = 0;
        while i < 32
            invariant
                i <= 32,
                n == s@.len(),
                off + 32 <= n,
                forall|j: int| 0 <= j < i ==> a@[j] == s@[off + j],
            decreases 32 - i,
        {
            a[i] = s[off + i];
            i = i + 1;
        }
        assert(a@ =~= key_at(s@, off as int));
        Pubkey { bytes: a }
    }

    /// Parses the base58 text of a key. A text longer than 44 bytes is the
    /// wrong size; one with a character outside the alphabet is invalid;
    /// otherwise it is the wrong size unless it decodes to 32 bytes.
    pub fn from_str(s: &str) -> (r: Result<Pubkey, ParsePubkeyError>)
        ensures
            s.len() > 44 ==> r == Err::<Pubkey, ParsePubkeyError>(ParsePubkeyError::WrongSize),
            s.len() <= 44 && !all_base58(s@) ==> r == Err::<Pubkey, ParsePubkeyError>(ParsePubkeyError::Invalid),
            s.len() <= 44 && all_base58(s@) ==> match r {
                Ok(k) => base58_text(k.bytes@) == s@,
                Err(e) => e == ParsePubkeyError::WrongSize
                    && forall|b: Seq<u8>| base58_text(b) == s@ ==> b.len() != 32,
            },
            forall|b: Seq<u8>| #![trigger base58_text(b)]
                s.len() <= 44 && b.len() == 32 && base58_text(b) == s@ ==> (r matches Ok(k) && k.bytes@ == b),
    {
        match decode_base58_fixed(s, MAX_BASE58_LEN, 32) {
            Ok(bytes) => {
                let k = Pubkey::from_slice_at(bytes.as_slice(), 0);
                assert(k.bytes@ =~= bytes@);
                Ok(k)
            },
            Err(FixedSizeError::WrongSize) => Err(ParsePubkeyError::WrongSize),
            Err(FixedSizeError::Invalid) => Err(ParsePubkeyError::Invalid),
        }
    }

    /// Whether every byte of this key is zero (the default address).
    pub fn is_default(&self) -> (r: bool)
        ensures
            r == is_zero_key(*self),
    {
        let mut i: usize = 0;
        while i < 32
            invariant
                i <= 32,
                forall|j: int| 0 <= j < i ==> #[trigger] self.bytes@[j] == 0u8,
            decreases 32 - i,
        {
            if self.bytes[i] != 0 {
                return false;
            }
            i = i + 1;
        }
        true
    }
}

impl PartialEq for Pubkey {
    fn eq(&self, other: &Pubkey) -> (r: bool) {
        let mut i: usize = 0;
        while i < 32
            invariant
                i <= 32,
                forall|j: int| 0 <= j < i ==> self.bytes@[j] == other.bytes@[j],
            decreases 32 - i,
        {
            if self.bytes[i] != other.bytes[i] {
                return false;
            }
            i = i + 1;
        }
        assert(self.bytes@ =~= other.bytes@);
        true
    }
}

impl vstd::std_specs::cmp::PartialEqSpecImpl for Pubkey {
    open spec fn obeys_eq_spec() -> bool {
        true
    }

    open spec fn eq_spec(&self, other: &Pubkey) -> bool {
        self.bytes@ == other.bytes@
    }
}

impl Default for Pubkey {
    /// The all-zero key.
    fn default() -> (k: Pubkey)
        ensures
            is_zero_key(k),
    {
        Pubkey { bytes: [0u8; 32] }
    }
}

} // verus!
