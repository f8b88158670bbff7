use vstd::prelude::*;

verus! {

/// A four-byte chunk tag.
#[derive(Clone, Copy, Debug, PartialEq, Eq)]
pub struct FourCC {
    pub bytes: [u8; 4],
}

impl FourCC {
    /// Makes a tag from its four bytes.
    pub fn from_bytes(bytes: [u8; 4]) -> (r: FourCC)
        ensures
            r.bytes == bytes,
    {
        FourCC { bytes }
    }

    /// Compares the tag with four literal bytes.
    pub fn is(&self, other: &[u8; 4]) -> (r: bool)
        ensures
            r == (self.bytes@ == other@),
    {
        let b = self.bytes[0] == other[0] && self.bytes[1] == other[1] && self.bytes[2]
            == other[2] && self.bytes[3] == other[3];
        proof {
            if b {
                assert(self.bytes@ =~= other@);
            }
        }
        b
    }
}

} // verus!
