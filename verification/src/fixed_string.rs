//! A string in a buffer of fixed size, for environments without a heap.
//!
//! The text is held as UTF-8 bytes. Asking the buffer to hold more than its
//! capacity is ruled out by the callers' obligations, not checked at run
//! time.
use vstd::prelude::*;
use vstd::string::StringSliceAdditionalSpecFns;
use vstd::utf8::{encode_utf8, valid_utf8};

verus! {

/// The number of bytes that a [`String`] can hold.
pub const BUFFER_SIZE: usize = 256;

/// Text of at most [`BUFFER_SIZE`] bytes.
#[derive(Debug, PartialEq, Eq)]
pub struct String {
    /// The bytes of the text come first; the rest is unused.
    buffer: [u8; BUFFER_SIZE],
    /// The number of bytes in use.
    size: usize,
}

impl View for String {
    type V = Seq<u8>;

    /// The bytes of the text.
    closed spec fn view(&self) -> Seq<u8> {
        self.buffer@.subrange(0, self.size as int)
    }
}

impl String {
    #[verifier::type_invariant]
    spec fn well_formed(self) -> bool {
        &&& self.size <= BUFFER_SIZE
        &&& valid_utf8(self@)
    }

    /// The empty text.
    pub fn new() -> (s: Self)
        ensures
            s@ == Seq::<u8>::empty(),
    {
        String { buffer: [0; BUFFER_SIZE], size: 0 }
    }

    /// The number of bytes of the text.
    pub fn len(&self) -> (n: usize)
        ensures
            n == self@.len(),
            n <= BUFFER_SIZE,
    {
        proof {
            use_type_invariant(self);
        }
        self.size
    }

    /// The number of bytes that can still be added.
    pub fn available_space(&self) -> (n: usize)
        ensures
            n == BUFFER_SIZE - self@.len(),
    {
        BUFFER_SIZE - self.len()
    }

    /// Adds the bytes `src`, which are valid UTF-8, at the end.
    fn append(&mut self, src: &[u8])
        requires
            old(self)@.len() + src@.len() <= BUFFER_SIZE,
            valid_utf8(src@),
        ensures
            final(self)@ == old(self)@ + src@,
    {
        proof {
            use_type_invariant(&*self);
        }
        let start = self.size;
        let n = src.len();
        let ghost before = self@;
        let mut buffer = self.buffer;
        let mut i: usize = 0;
        while i < n
            invariant
                i <= n,
                n == src@.len(),
                start + n <= BUFFER_SIZE,
                buffer@.len() == BUFFER_SIZE,
                buffer@.subrange(0, start as int) == before,
                buffer@.subrange(start as int, start + i) == src@.subrange(0, i as int),
            decreases n - i,
        {
            buffer[start + i] = src[i];
            i += 1;
        }
        proof {
            assert(src@.subrange(0, n as int) =~= src@);
            assert(buffer@.subrange(0, start + n) =~= before + src@);
            vstd::utf8::valid_utf8_concat(before, src@);
        }
        *self = String { buffer, size: start + n };
    }

    /// Adds the text `s` at the end. The text must fit in the space that is
    /// left.
    pub fn push_str(&mut self, s: &str)
        requires
            s.spec_bytes().len() <= BUFFER_SIZE - old(self)@.len(),
        ensures
            final(self)@ == old(self)@ + s.spec_bytes(),
    {
        proof {
            vstd::utf8::encode_utf8_valid_utf8(s@);
        }
        self.append(s.as_bytes());
    }

    /// Adds the character `c`, encoded as UTF-8, at the end. Its encoding
    /// must fit in the space that is left.
    pub fn push(&mut self, c: char)
        requires
            encode_utf8(seq![c]).len() <= BUFFER_SIZE - old(self)@.len(),
        ensures
            final(self)@ == old(self)@ + encode_utf8(seq![c]),
    {
        let mut buf = [0u8; 4];
        let encoded = encode_char(c, &mut buf);
        self.push_str(encoded);
    }

    /// The text as a string slice.
    pub fn as_str(&self) -> (s: &str)
        ensures
            s.spec_bytes() == self@,
    {
        proof {
            use_type_invariant(self);
        }
        let bytes = vstd::slice::slice_subrange(vstd::array::array_as_slice(&self.buffer), 0, self.size);
        match text_of(bytes) {
            Some(s) => s,
            None => "",
        }
    }
}

/// `char::encode_utf8`: writes the UTF-8 encoding of `c` into `buf` and
/// returns the part of `buf` that holds it, as text. That text consists of
/// the one character `c`. Four bytes are enough for any character.
#[verifier::external_body]
fn encode_char<'a>(c: char, buf: &'a mut [u8; 4]) -> (s: &'a str)
    ensures
        s@ == seq![c],
{
    c.encode_utf8(buf)
}

/// `std::str::from_utf8`: reads `bytes` as text. The standard library
/// accepts every valid UTF-8 sequence, and the text it returns has the bytes
/// it was given.
#[verifier::external_body]
fn text_of(bytes: &[u8]) -> (r: Option<&str>)
    ensures
        valid_utf8(bytes@) ==> r is Some,
        r matches Some(s) ==> s.spec_bytes() == bytes@,
{
    std::str::from_utf8(bytes).ok()
}

impl Clone for String {
    fn clone(&self) -> (s: Self)
        ensures
            s == *self,
    {
        proof {
            use_type_invariant(self);
        }
        String { buffer: self.buffer, size: self.size }
    }
}

impl String {
    /// The text `s` in a buffer of its own. The text must fit.
    pub fn try_from(s: &str) -> (r: Result<String, &'static str>)
        requires
            s.spec_bytes().len() <= BUFFER_SIZE,
        ensures
            r matches Ok(t) && t@ == s.spec_bytes(),
    {
        let mut string = String::new();
        string.push_str(s);
        Ok(string)
    }
}

/// The decimal digits of `n` as ASCII bytes, the most significant first.
pub open spec fn decimal_digits(n: nat) -> Seq<u8>
    decreases n,
{
    if n < 10 {
        seq![(48 + n) as u8]
    } else {
        decimal_digits(n / 10).push((48 + n % 10) as u8)
    }
}

/// The decimal text of `x` as ASCII bytes: a minus sign if `x` is negative,
/// then the digits of its magnitude.
pub open spec fn decimal_text(x: int) -> Seq<u8> {
    if x < 0 {
        seq![45u8] + decimal_digits((-x) as nat)
    } else {
        decimal_digits(x as nat)
    }
}

/// The largest value that can be left of a `u32` once `taken` of its decimal
/// digits have been taken off.
spec fn largest_left(taken: int) -> int {
    if taken <= 0 {
        4294967295
    } else if taken == 1 {
        429496729
    } else if taken == 2 {
        42949672
    } else if taken == 3 {
        4294967
    } else if taken == 4 {
        429496
    } else if taken == 5 {
        42949
    } else if taken == 6 {
        4294
    } else if taken == 7 {
        429
    } else if taken == 8 {
        42
    } else if taken == 9 {
        4
    } else {
        0
    }
}

/// The digits that are still to come before those already taken: those of
/// `left`, or none once nothing is left.
spec fn digits_before(left: nat) -> Seq<u8> {
    if left == 0 {
        Seq::empty()
    } else {
        decimal_digits(left)
    }
}

/// Taking the last digit off `n` leaves the digits before it.
proof fn lemma_last_digit(n: nat)
    ensures
        decimal_digits(n) == digits_before(n / 10).push((48 + n % 10) as u8),
{
}

/// Bytes below 128 are valid UTF-8.
proof fn lemma_ascii_is_utf8(bytes: Seq<u8>)
    requires
        forall|i: int| 0 <= i < bytes.len() ==> #[trigger] bytes[i] < 128,
    ensures
        valid_utf8(bytes),
{
    vstd::utf8::partial_valid_utf8_extend_ascii_block(bytes, 0, bytes.len() as int);
    assert(bytes.subrange(0, bytes.len() as int) =~= bytes);
}

/// What can be written into a [`String`].
pub trait ToString {
    /// The bytes of the text that stands for `self`.
    spec fn text(&self) -> Seq<u8>;

    /// The text that stands for `self`, which must fit in a [`String`].
    fn to_string(&self) -> (s: String)
        requires
            self.text().len() <= BUFFER_SIZE,
        ensures
            s@ == self.text(),
    ;
}

impl ToString for String {
    open spec fn text(&self) -> Seq<u8> {
        self@
    }

    fn to_string(&self) -> (s: String) {
        self.clone()
    }
}

impl ToString for i32 {
    open spec fn text(&self) -> Seq<u8> {
        decimal_text(*self as int)
    }

    fn to_string(&self) -> (s: String) {
        let negative = *self < 0;
        let magnitude: u32 = if negative {
            (0 - (*self as i64)) as u32
        } else {
            *self as u32
        };
        // the digits, the least significant first
        let mut digits = [0u8; 10];
        let mut value = magnitude;
        proof {
            lemma_last_digit(value as nat);
        }
        digits[0] = (value % 10) as u8 + 48;
        value = value / 10;
        let mut length: usize = 1;
        let ghost mut taken: Seq<u8> = seq![digits@[0]];
        while value > 0
            invariant
                1 <= length <= 10,
                value <= largest_left(length as int),
                taken.len() == length,
                forall|i: int| 0 <= i < length ==> digits@[i] == #[trigger] taken[length - 1 - i],
                forall|i: int| 0 <= i < length ==> 48 <= #[trigger] taken[i] <= 57,
                decimal_digits(magnitude as nat) == digits_before(value as nat) + taken,
            decreases value,
        {
            proof {
                lemma_last_digit(value as nat);
            }
            let digit = (value % 10) as u8 + 48;
            digits[length] = digit;
            proof {
                let ghost before = taken;
                taken = seq![digit] + taken;
                assert(digits_before(value as nat) + before =~= digits_before((value / 10) as nat)
                    + taken);
                assert forall|i: int| 0 <= i < length + 1 implies digits@[i] == #[trigger] taken[length
                    + 1 - 1 - i] by {
                    if i < length {
                        assert(taken[length - i] == before[length - 1 - i]);
                    }
                }
            }
            value = value / 10;
            length += 1;
        }
        // the sign, then the digits, the most significant first
        let mut text = [0u8; 11];
        let mut n: usize = 0;
        if negative {
            text[0] = 45;
            n = 1;
        }
        let ghost sign: Seq<u8> = if negative {
            seq![45u8]
        } else {
            Seq::empty()
        };
        let mut j: usize = 0;
        while j < length
            invariant
                j <= length <= 10,
                n == sign.len() + j,
                sign.len() <= 1,
                taken.len() == length,
                forall|i: int| 0 <= i < length ==> digits@[i] == #[trigger] taken[length - 1 - i],
                text@.subrange(0, n as int) == sign + taken.subrange(0, j as int),
            decreases length - j,
        {
            let ghost before = text@;
            text[n] = digits[length - 1 - j];
            assert(digits@[length - 1 - j] == taken[length - 1 - (length - 1 - j)]);
            proof {
                let now = text@.subrange(0, n + 1);
                let goal = sign + taken.subrange(0, j + 1);
                assert forall|i: int| 0 <= i < n + 1 implies #[trigger] now[i] == goal[i] by {
                    if i < n {
                        assert(text@[i] == before.subrange(0, n as int)[i]);
                    }
                }
            }
            n += 1;
            j += 1;
        }
        let mut s = String::new();
        let bytes = vstd::slice::slice_subrange(vstd::array::array_as_slice(&text), 0, n);
        proof {
            lemma_ascii_is_utf8(bytes@);
        }
        s.append(bytes);
        s
    }
}

impl ToString for &'static str {
    open spec fn text(&self) -> Seq<u8> {
        self.spec_bytes()
    }

    fn to_string(&self) -> (s: String) {
        let mut string = String::new();
        string.push_str(*self);
        string
    }
}

} // verus!
