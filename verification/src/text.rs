//! Bit arrays as text: one `'0'` or `'1'` per bit, the bit of the highest
//! index first.

use vstd::prelude::*;
use vstd::string::StringExecFns;
use crate::bitarray::BitArray;
use crate::error::BitArrayError;

verus! {

/// Whether `c` stands for a bit.
pub open spec fn is_bit_char(c: char) -> bool {
    c == '0' || c == '1'
}

/// Whether every character of `s` stands for a bit.
pub open spec fn is_bit_string(s: Seq<char>) -> bool {
    forall|i: int| 0 <= i < s.len() ==> is_bit_char(#[trigger] s[i])
}

/// The bits that `s` writes down: its last character is bit 0.
pub open spec fn parse_bits(s: Seq<char>) -> Seq<bool> {
    Seq::new(s.len(), |i: int| s[s.len() - 1 - i] == '1')
}

/// The text that writes `bits` down: its first character is the last bit.
pub open spec fn render_bits(bits: Seq<bool>) -> Seq<char> {
    Seq::new(
        bits.len(),
        |i: int|
            if bits[bits.len() - 1 - i] {
                '1'
            } else {
                '0'
            },
    )
}

/// Reading a string of bit characters and writing the bits down again gives
/// the string back.
pub proof fn law_render_after_parse(s: Seq<char>)
    requires
        is_bit_string(s),
    ensures
        render_bits(parse_bits(s)) == s,
{
    assert(render_bits(parse_bits(s)) =~= s);
}

/// Writing bits down and reading the text again gives the bits back, and the
/// text holds bit characters only.
pub proof fn law_parse_after_render(bits: Seq<bool>)
    ensures
        is_bit_string(render_bits(bits)),
        parse_bits(render_bits(bits)) == bits,
{
    assert(parse_bits(render_bits(bits)) =~= bits);
}

/// Among the characters that one byte encodes, `'0'` is the one encoded as
/// 48 and `'1'` the one encoded as 49.
pub proof fn lemma_ascii_bit_char(c: char)
    requires
        '\0' <= c <= '\u{7f}',
    ensures
        (c as u8 == 48u8) == (c == '0'),
        (c as u8 == 49u8) == (c == '1'),
{
}

impl BitArray {
    /// Reads an array from text. The text is refused, with
    /// `InvalidCharacter`, exactly when one of its characters is neither
    /// `'0'` nor `'1'`.
    pub fn from_str(bits: &str) -> (res: Result<BitArray, BitArrayError>)
        ensures
            res is Ok <==> is_bit_string(bits@),
            res is Ok ==> res->Ok_0@ == parse_bits(bits@),
            res is Err ==> res->Err_0 == BitArrayError::InvalidCharacter,
    {
        if !bits.is_ascii() {
            return Err(BitArrayError::InvalidCharacter);
        }
        proof {
            vstd::string::is_ascii_spec_bytes(bits);
        }
        let bytes: &[u8] = bits.as_bytes();
        let n: usize = bytes.len();
        let mut arr = BitArray::new(n);
        let mut i: usize = 0;
        while i < n
            invariant
                i <= n == bits@.len(),
                bits.is_ascii(),
                bytes@ == Seq::new(bits@.len(), |k: int| bits@[k] as u8),
                arr@.len() == n,
                forall|j: int| n - i <= j < n ==> is_bit_char(#[trigger] bits@[j]),
                forall|j: int| 0 <= j < i ==> #[trigger] arr@[j] == (bits@[n - 1 - j] == '1'),
            decreases n - i,
        {
            let b: u8 = bytes[n - 1 - i];
            proof {
                lemma_ascii_bit_char(bits@[n - 1 - i]);
            }
            if b == 49u8 {
                arr.set(i, true);
            } else if b == 48u8 {
                arr.set(i, false);
            } else {
                return Err(BitArrayError::InvalidCharacter);
            }
            i += 1;
        }
        proof {
            assert(arr@ =~= parse_bits(bits@));
        }
        Ok(arr)
    }

    /// Writes the array down as text, the bit of the highest index first.
    pub fn show(&self) -> (s: String)
        ensures
            s@ == render_bits(self@),
    {
        let n: usize = self.get_bit_sz();
        let mut s = String::new();
        let mut i: usize = n;
        proof {
            reveal_strlit("0");
            reveal_strlit("1");
        }
        while i > 0
            invariant
                i <= n == self@.len(),
                "0"@ == seq!['0'],
                "1"@ == seq!['1'],
                s@ == render_bits(self@).subrange(0, n - i),
            decreases i,
        {
            i -= 1;
            if self.get(i) {
                s.append("1");
            } else {
                s.append("0");
            }
            assert(s@ =~= render_bits(self@).subrange(0, n - i));
        }
        assert(s@ =~= render_bits(self@));
        s
    }
}

} // verus!
