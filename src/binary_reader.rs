use vstd::prelude::*;

use crate::error::ParseError;
use crate::four_cc::FourCC;

verus! {

/// The unsigned 16-bit little-endian value at `p`.
pub open spec fn u16_le(d: Seq<u8>, p: int) -> int {
    d[p] as int + 256 * (d[p + 1] as int)
}

/// The signed (two's complement) 16-bit little-endian value at `p`.
pub open spec fn i16_le(d: Seq<u8>, p: int) -> int {
    if u16_le(d, p) < 0x8000 {
        u16_le(d, p)
    } else {
        u16_le(d, p) - 0x1_0000
    }
}

/// The unsigned 32-bit little-endian value at `p`.
pub open spec fn u32_le(d: Seq<u8>, p: int) -> int {
    u16_le(d, p) + 0x1_0000 * u16_le(d, p + 2)
}

/// The signed (two's complement) 32-bit little-endian value at `p`.
pub open spec fn i32_le(d: Seq<u8>, p: int) -> int {
    if u32_le(d, p) < 0x8000_0000 {
        u32_le(d, p)
    } else {
        u32_le(d, p) - 0x1_0000_0000
    }
}

/// The signed (two's complement) value of the byte `b`.
pub open spec fn i8_of(b: u8) -> int {
    if b < 0x80 {
        b as int
    } else {
        b - 0x100
    }
}

/// The tag made of the four bytes at `p`.
pub open spec fn four_cc_at(d: Seq<u8>, p: int) -> FourCC {
    FourCC { bytes: [d[p], d[p + 1], d[p + 2], d[p + 3]] }
}

/// The bytes of `s` before its first zero byte (all of `s` if it has none).
pub open spec fn until_nul(s: Seq<u8>) -> Seq<u8>
    decreases s.len(),
{
    if s.len() == 0 {
        s
    } else if s[0] == 0 {
        Seq::empty()
    } else {
        seq![s[0]] + until_nul(s.subrange(1, s.len() as int))
    }
}

/// The text that a lossy UTF-8 decoding makes of `b`.
pub uninterp spec fn utf8_lossy(b: Seq<u8>) -> Seq<char>;

/// The text of a field of `n` bytes at `p`: the bytes up to the first zero, decoded.
pub open spec fn text_at(d: Seq<u8>, p: int, n: int) -> Seq<char> {
    utf8_lossy(until_nul(d.subrange(p, p + n)))
}

proof fn lemma_until_nul(s: Seq<u8>, i: int)
    requires
        0 <= i <= s.len(),
        forall|j: int| 0 <= j < i ==> s[j] != 0,
        i == s.len() || s[i] == 0,
    ensures
        until_nul(s) =~= s.take(i),
    decreases i,
{
    if i > 0 {
        let t = s.subrange(1, s.len() as int);
        lemma_until_nul(t, i - 1);
        assert(s.take(i) =~= seq![s[0]] + t.take(i - 1));
    }
}

/// Relies on String::from_utf8_lossy: the text depends on the bytes alone.
#[verifier::external_body]
fn decode_text(b: &[u8]) -> (r: String)
    ensures
        r@ == utf8_lossy(b@),
{
    String::from_utf8_lossy(b).into_owned()
}

/// A forward-only cursor over a byte buffer.
pub struct BinaryReader<'a> {
    pub data: &'a [u8],
    pub pos: usize,
}

impl<'a> BinaryReader<'a> {
    /// Whether `n` more bytes can be read.
    pub open spec fn has(&self, n: int) -> bool {
        self.pos + n <= self.data@.len()
    }

    /// The reader after `n` bytes were consumed.
    pub open spec fn advanced(&self, n: int, next: &Self) -> bool {
        &&& next.data@ == self.data@
        &&& next.pos == self.pos + n
    }

    pub fn new(data: &'a [u8]) -> (r: Self)
        ensures
            r.data@ == data@,
            r.pos == 0,
    {
        BinaryReader { data, pos: 0 }
    }

    pub fn read_u8(&mut self) -> (r: Result<u8, ParseError>)
        ensures
            final(self).data@ == old(self).data@,
            r is Ok <==> old(self).has(1),
            r is Err ==> r == Err::<u8, ParseError>(ParseError::IoError),
            r is Ok ==> old(self).advanced(1, final(self)) && r->Ok_0 == old(self).data@[old(
                self,
            ).pos as int],
    {
        if self.pos < self.data.len() {
            let b = self.data[self.pos];
            self.pos = self.pos + 1;
            Ok(b)
        } else {
            Err(ParseError::IoError)
        }
    }

    pub fn read_i8(&mut self) -> (r: Result<i8, ParseError>)
        ensures
            final(self).data@ == old(self).data@,
            r is Ok <==> old(self).has(1),
            r is Err ==> r == Err::<i8, ParseError>(ParseError::IoError),
            r is Ok ==> old(self).advanced(1, final(self)) && r->Ok_0 == i8_of(
                old(self).data@[old(self).pos as int],
            ),
    {
        let b = self.read_u8()?;
        if b < 0x80 {
            Ok(b as i8)
        } else {
            Ok((b as i16 - 0x100) as i8)
        }
    }

    pub fn read_u16(&mut self) -> (r: Result<u16, ParseError>)
        ensures
            final(self).data@ == old(self).data@,
            r is Ok <==> old(self).has(2),
            r is Err ==> r == Err::<u16, ParseError>(ParseError::IoError),
            r is Ok ==> old(self).advanced(2, final(self)) && r->Ok_0 == u16_le(
                old(self).data@,
                old(self).pos as int,
            ),
    {
        let b0 = self.read_u8()?;
        let b1 = self.read_u8()?;
        Ok(b0 as u16 + 256 * (b1 as u16))
    }

    pub fn read_i16(&mut self) -> (r: Result<i16, ParseError>)
        ensures
            final(self).data@ == old(self).data@,
            r is Ok <==> old(self).has(2),
            r is Err ==> r == Err::<i16, ParseError>(ParseError::IoError),
            r is Ok ==> old(self).advanced(2, final(self)) && r->Ok_0 == i16_le(
                old(self).data@,
                old(self).pos as int,
            ),
    {
        let u = self.read_u16()?;
        if u < 0x8000 {
            Ok(u as i16)
        } else {
            Ok((u as i32 - 0x1_0000) as i16)
        }
    }

    pub fn read_i32(&mut self) -> (r: Result<i32, ParseError>)
        ensures
            final(self).data@ == old(self).data@,
            r is Ok <==> old(self).has(4),
            r is Err ==> r == Err::<i32, ParseError>(ParseError::IoError),
            r is Ok ==> old(self).advanced(4, final(self)) && r->Ok_0 == i32_le(
                old(self).data@,
                old(self).pos as int,
            ),
    {
        let lo = self.read_u16()?;
        let hi = self.read_u16()?;
        let u: u32 = lo as u32 + 0x1_0000 * (hi as u32);
        if u < 0x8000_0000 {
            Ok(u as i32)
        } else {
            Ok((u as i64 - 0x1_0000_0000) as i32)
        }
    }

    pub fn read_four_cc(&mut self) -> (r: Result<FourCC, ParseError>)
        ensures
            final(self).data@ == old(self).data@,
            r is Ok <==> old(self).has(4),
            r is Err ==> r == Err::<FourCC, ParseError>(ParseError::IoError),
            r is Ok ==> old(self).advanced(4, final(self)) && r->Ok_0 == four_cc_at(
                old(self).data@,
                old(self).pos as int,
            ),
    {
        let b0 = self.read_u8()?;
        let b1 = self.read_u8()?;
        let b2 = self.read_u8()?;
        let b3 = self.read_u8()?;
        Ok(FourCC { bytes: [b0, b1, b2, b3] })
    }

    /// Reads a text field of `n` bytes, which ends at its first zero byte.
    pub fn read_fixed_length_string(&mut self, n: usize) -> (r: Result<String, ParseError>)
        ensures
            final(self).data@ == old(self).data@,
            r is Ok <==> old(self).has(n as int),
            r is Err ==> r == Err::<String, ParseError>(ParseError::IoError),
            r is Ok ==> old(self).advanced(n as int, final(self)) && r->Ok_0@ == text_at(
                old(self).data@,
                old(self).pos as int,
                n as int,
            ),
    {
        if !(self.pos <= self.data.len() && n <= self.data.len() - self.pos) {
            return Err(ParseError::IoError);
        }
        let start = self.pos;
        let data = self.data;
        let len = data.len();
        let ghost field = data@.subrange(start as int, start + n);
        let mut text: Vec<u8> = Vec::new();
        let mut i: usize = 0;
        while i < n
            invariant
                len == data@.len(),
                start + n <= len,
                field == data@.subrange(start as int, start + n),
                i <= n,
                text@ == field.take(i as int),
                forall|j: int| 0 <= j < i ==> field[j] != 0,
            ensures
                i <= n,
                text@ == field.take(i as int),
                forall|j: int| 0 <= j < i ==> field[j] != 0,
                i == n || field[i as int] == 0,
            decreases n - i,
        {
            if data[start + i] == 0 {
                break;
            }
            text.push(data[start + i]);
            i = i + 1;
            assert(text@ =~= field.take(i as int));
        }
        proof {
            lemma_until_nul(field, i as int);
        }
        self.pos = start + n;
        Ok(decode_text(text.as_slice()))
    }

    /// Skips `n` bytes.
    pub fn discard_data(&mut self, n: usize) -> (r: Result<(), ParseError>)
        ensures
            final(self).data@ == old(self).data@,
            r is Ok <==> old(self).has(n as int),
            r is Err ==> r == Err::<(), ParseError>(ParseError::IoError),
            r is Ok ==> old(self).advanced(n as int, final(self)),
    {
        if self.pos <= self.data.len() && n <= self.data.len() - self.pos {
            self.pos = self.pos + n;
            Ok(())
        } else {
            Err(ParseError::IoError)
        }
    }
}

} // verus!
