//! The two signature schemes and how each lays out an entry record.

use vstd::prelude::*;

verus! {

/// A signature scheme whose native verifier can act as the companion.
#[derive(Clone, Copy, Debug, PartialEq, Eq, Structural)]
pub enum Scheme {
    /// Recoverable 256-bit elliptic-curve signatures; a signer is known by a
    /// 20-byte recovered address.
    RecoverableEc,
    /// Pure single-curve signatures; a signer is known by a 32-byte public key.
    Ed25519,
}

/// The numbers by which the two wire formats differ.
#[derive(Clone, Copy, Debug, PartialEq, Eq, Structural)]
pub struct SchemeLayout {
    /// Reserved bytes between the count byte and the first record.
    pub header_padding: usize,
    /// Bytes that hold each instruction index inside a record.
    pub index_width: usize,
    /// Bytes of one entry record.
    pub record_width: usize,
    /// Bytes of a signer identity.
    pub identity_len: usize,
}

impl SchemeLayout {
    /// A record holds three offsets, one size and three instruction indices;
    /// everything else is small enough that positions never overflow.
    pub open spec fn wf(&self) -> bool {
        &&& self.header_padding <= 1
        &&& 1 <= self.index_width <= 2
        &&& self.record_width == 8 + 3 * self.index_width
        &&& self.identity_len <= 64
    }

    /// Position of the first record.
    pub open spec fn records_start(&self) -> int {
        1 + self.header_padding
    }

    /// Position of record `i`.
    pub open spec fn record_start(&self, i: int) -> int {
        self.records_start() + i * self.record_width
    }
}

impl Scheme {
    /// The layout of this scheme's records.
    pub open spec fn layout_spec(self) -> SchemeLayout {
        match self {
            Scheme::RecoverableEc => SchemeLayout {
                header_padding: 0,
                index_width: 1,
                record_width: 11,
                identity_len: 20,
            },
            Scheme::Ed25519 => SchemeLayout {
                header_padding: 1,
                index_width: 2,
                record_width: 14,
                identity_len: 32,
            },
        }
    }

    /// The layout of this scheme's records.
    pub fn layout(self) -> (layout: SchemeLayout)
        ensures
            layout == self.layout_spec(),
            layout.wf(),
    {
        match self {
            Scheme::RecoverableEc => SchemeLayout {
                header_padding: 0,
                index_width: 1,
                record_width: 11,
                identity_len: 20,
            },
            Scheme::Ed25519 => SchemeLayout {
                header_padding: 1,
                index_width: 2,
                record_width: 14,
                identity_len: 32,
            },
        }
    }
}

} // verus!
