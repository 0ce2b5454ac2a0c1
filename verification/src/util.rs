use vstd::prelude::*;
use vstd::string::StringSliceAdditionalSpecFns;

verus! {

/// A growable byte string.
#[derive(PartialEq, Eq, Clone, Debug, Hash)]
pub struct Str(pub Vec<u8>);

impl View for Str {
    type V = Seq<u8>;

    open spec fn view(&self) -> Seq<u8> {
        self.0@
    }
}

/// The character that `Str::get` yields for an index past the end.
pub open spec fn out_of_range_char() -> char {
    '\u{FFFF}'
}

impl Str {
    /// An empty byte string.
    pub fn new() -> (r: Str)
        ensures
            r@ == Seq::<u8>::empty(),
    {
        Str(Vec::new())
    }

    /// An empty byte string with room reserved for `s` bytes.
    pub fn new_with_cap(s: usize) -> (r: Str)
        ensures
            r@ == Seq::<u8>::empty(),
    {
        Str(Vec::with_capacity(s))
    }

    /// The UTF-8 bytes of `s`.
    pub fn from(s: &str) -> (r: Str)
        ensures
            r@ == s.spec_bytes(),
    {
        let bytes = s.as_bytes();
        let mut v: Vec<u8> = Vec::with_capacity(bytes.len());
        let mut i: usize = 0;
        while i < bytes.len()
            invariant
                i <= bytes@.len(),
                v@ == bytes@.subrange(0, i as int),
            decreases bytes@.len() - i,
        {
            v.push(bytes[i]);
            i += 1;
            assert(v@ =~= bytes@.subrange(0, i as int));
        }
        assert(v@ =~= bytes@);
        Str(v)
    }

    /// The UTF-8 bytes of an owned string.
    pub fn from_moved_str(text: String) -> (r: Str)
        ensures
            r@ == vstd::utf8::encode_utf8(text@),
    {
        Str::from(text.as_str())
    }

    /// The byte at index `i` as a character, or U+FFFF past the end.
    pub fn get(&self, i: usize) -> (c: char)
        ensures
            i < self@.len() ==> c == self@[i as int] as char,
            i >= self@.len() ==> c == out_of_range_char(),
    {
        if i >= self.0.len() {
            return '\u{FFFF}';
        }
        self.0[i] as char
    }

    /// The number of bytes.
    pub fn len(&self) -> (n: usize)
        ensures
            n == self@.len(),
    {
        self.0.len()
    }

    /// Appends the low eight bits of the code point of `c`.
    pub fn push(&mut self, c: char)
        ensures
            final(self)@ == old(self)@.push(((c as u32) & 0xff) as u8),
    {
        let code: u32 = c as u32;
        let low: u32 = code & 0xff;
        assert(low <= 0xff) by (bit_vector)
            requires
                low == code & 0xff,
        ;
        self.0.push(low as u8);
    }

    /// The bytes, open to change in place.
    pub fn as_mut_slice(&mut self) -> (r: &mut [u8])
        ensures
            r@ == old(self)@,
            final(r)@ == final(self)@,
    {
        self.0.as_mut_slice()
    }

    /// The bytes, read only.
    pub fn as_mut(&self) -> (r: &[u8])
        ensures
            r@ == self@,
    {
        self.0.as_slice()
    }
}

} // verus!
