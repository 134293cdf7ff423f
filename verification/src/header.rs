//! Identifiers of block headers and the way they are written out.

use vstd::prelude::*;

verus! {

/// The content hash that identifies a block header.
#[derive(Clone, Copy, Debug, PartialEq, Eq, PartialOrd, Ord, Hash)]
pub struct HeaderId {
    pub bytes: [u8; 32],
}

/// The sixteen digits of base 16, in lower case, as text.
pub open spec fn hex_digits() -> Seq<char> {
    "0123456789abcdef"@
}

/// The bytes written in base 16: two digits for each byte, the high half
/// first, in lower case.
pub open spec fn hex_text(bytes: Seq<u8>) -> Seq<char> {
    Seq::new(
        2 * bytes.len(),
        |i: int|
            if i % 2 == 0 {
                hex_digits()[bytes[i / 2] as int / 16]
            } else {
                hex_digits()[bytes[i / 2] as int % 16]
            },
    )
}

impl HeaderId {
    pub fn from_bytes(bytes: [u8; 32]) -> (id: HeaderId)
        ensures
            id.bytes == bytes,
    {
        HeaderId { bytes }
    }

    /// The id as 64 digits of base 16.
    pub fn to_hex(&self) -> (text: String)
        ensures
            text@ == hex_text(self.bytes@),
    {
        let digits = "0123456789abcdef";
        proof {
            reveal_strlit("0123456789abcdef");
        }
        assert(digits.is_ascii());
        let mut text = String::new();
        let mut i: usize = 0;
        while i < 32
            invariant
                i <= 32,
                digits@ == hex_digits(),
                digits@.len() == 16,
                digits.is_ascii(),
                text@ == hex_text(self.bytes@.take(i as int)),
            decreases 32 - i,
        {
            let byte = self.bytes[i];
            let high: usize = (byte / 16) as usize;
            let low: usize = (byte % 16) as usize;
            text.append(digits.substring_ascii(high, high + 1));
            text.append(digits.substring_ascii(low, low + 1));
            i += 1;
            assert(text@ =~= hex_text(self.bytes@.take(i as int)));
        }
        assert(self.bytes@.take(32) =~= self.bytes@);
        text
    }
}

} // verus!
