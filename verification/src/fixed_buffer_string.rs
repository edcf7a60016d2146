//! A short ASCII string in a fixed buffer.
//!
//! The text lives in a window `[start, end)` of an array of [`DATA_SIZE`]
//! bytes, so it never reallocates. Room at the rear is free for growth; room
//! at the front becomes free once the text is compacted.

use crate::error::ErrorKind;
use vstd::prelude::*;
use vstd::string::*;
use vstd::utf8::{encode_utf8, is_ascii_chars, is_ascii_chars_encode_utf8};

verus! {

/// The number of bytes a buffer holds.
pub const DATA_SIZE: usize = 128;

/// A string of at most [`DATA_SIZE`] ASCII bytes.
pub struct FBS {
    start: usize,
    end: usize,
    data: [u8; DATA_SIZE],
}

/// What building a buffer from `text` gives: its bytes, or the reason why
/// the text is refused. Text with a byte above 127 is refused before its
/// length is looked at.
pub open spec fn text_bytes(text: Seq<char>) -> Result<Seq<u8>, ErrorKind> {
    if !is_ascii_chars(text) {
        Err(ErrorKind::NonAsciiInput)
    } else if text.len() > DATA_SIZE {
        Err(ErrorKind::CapacityExceeded)
    } else {
        Ok(Seq::new(text.len(), |i: int| text[i] as u8))
    }
}

/// ASCII text of at most [`DATA_SIZE`] characters is accepted and kept as
/// it is: one byte for each character, in the same order.
pub proof fn ascii_text_is_kept(text: Seq<char>)
    requires
        is_ascii_chars(text),
        text.len() <= DATA_SIZE,
    ensures
        text_bytes(text) is Ok,
        text_bytes(text)->Ok_0.len() == text.len(),
        forall|i: int| 0 <= i < text.len() ==> text_bytes(text)->Ok_0[i] == text[i] as u8,
        text_bytes(text)->Ok_0 == encode_utf8(text),
{
    is_ascii_chars_encode_utf8(text);
    assert(text_bytes(text)->Ok_0 =~= encode_utf8(text));
}

/// Text with a character outside ASCII is refused as such, whatever its
/// length.
pub proof fn non_ascii_text_is_refused(text: Seq<char>)
    requires
        !is_ascii_chars(text),
    ensures
        text_bytes(text) == Err::<Seq<u8>, ErrorKind>(ErrorKind::NonAsciiInput),
{
}

/// ASCII text of more than [`DATA_SIZE`] characters is refused for its
/// length.
pub proof fn long_text_is_refused(text: Seq<char>)
    requires
        is_ascii_chars(text),
        text.len() > DATA_SIZE,
    ensures
        text_bytes(text) == Err::<Seq<u8>, ErrorKind>(ErrorKind::CapacityExceeded),
{
}

impl View for FBS {
    type V = Seq<u8>;

    /// The text: the bytes of the window, in order.
    closed spec fn view(&self) -> Seq<u8> {
        self.data@.subrange(self.start as int, self.end as int)
    }
}

impl FBS {
    /// Where the window begins in the array.
    pub closed spec fn window_start(&self) -> int {
        self.start as int
    }

    /// Where the window ends in the array.
    pub closed spec fn window_end(&self) -> int {
        self.end as int
    }

    /// The window lies inside the array, and every byte up to its end is
    /// ASCII.
    #[verifier::type_invariant]
    spec fn well_formed(&self) -> bool {
        &&& self.start <= self.end <= DATA_SIZE
        &&& forall|i: int| 0 <= i < self.end ==> self.data@[i] < 128
    }

    /// Make a new empty string.
    pub fn new() -> (r: FBS)
        ensures
            r@ == Seq::<u8>::empty(),
            r.window_start() == 0,
            r.window_end() == 0,
    {
        FBS { start: 0, end: 0, data: [0; DATA_SIZE] }
    }

    /// How many characters are in use?
    pub fn len(&self) -> (r: usize)
        ensures
            r == self@.len(),
            r == self.window_end() - self.window_start(),
            r <= DATA_SIZE,
    {
        proof {
            use_type_invariant(self);
        }
        self.end - self.start
    }

    /// The non panicking version of the index operator.
    pub fn get(&self, index: usize) -> (r: Result<&u8, ErrorKind>)
        ensures
            match r {
                Ok(byte) => index < self@.len() && *byte == self@[index as int] && *byte < 128,
                Err(e) => index >= self@.len() && e == ErrorKind::IndexOutOfRange,
            },
    {
        proof {
            use_type_invariant(self);
        }
        if index >= self.len() {
            Err(ErrorKind::IndexOutOfRange)
        } else {
            Ok(&self.data[self.start + index])
        }
    }

    /// How much extra room is available for expanding the rear of the string.
    pub fn free_capactiy(&self) -> (r: usize)
        ensures
            r == DATA_SIZE - self.window_end(),
    {
        proof {
            use_type_invariant(self);
        }
        DATA_SIZE - self.end
    }

    /// Frees up any available space from the front of the string making it
    /// available for use at the rear of the string.
    ///
    /// Returns whether anything moved: a string that already starts at the
    /// front, or an empty one, is left as it is.
    pub fn compact(&mut self) -> (moved: bool)
        ensures
            moved == (old(self).window_start() != 0 && old(self)@.len() != 0),
            old(self).window_start() == 0 ==> !moved,
            final(self)@ == old(self)@,
            final(self).window_start() == 0 || final(self)@.len() == 0,
            moved ==> final(self).window_start() == 0 && final(self).window_end() == old(self)@.len(),
            !moved ==> *final(self) == *old(self),
    {
        proof {
            use_type_invariant(&*self);
        }
        if self.start == 0 || self.len() == 0 {
            return false;
        }
        let start = self.start;
        let length = self.end - self.start;
        let ghost before = self.data@;
        let mut i: usize = 0;
        while i < length
            invariant
                0 < start,
                start + length <= DATA_SIZE,
                i <= length,
                self.start == start,
                self.end == start + length,
                before.len() == DATA_SIZE,
                forall|k: int| 0 <= k < start + length ==> before[k] < 128,
                forall|k: int| 0 <= k < start + length ==> self.data@[k] < 128,
                forall|k: int| 0 <= k < i ==> self.data@[k] == before[start + k],
                forall|k: int| i <= k < DATA_SIZE ==> self.data@[k] == before[k],
            decreases length - i,
        {
            self.data[i] = self.data[start + i];
            i += 1;
        }
        self.start = 0;
        self.end = length;
        assert(self@ =~= old(self)@);
        true
    }

    /// Where the string begins in the buffer.
    pub fn start(&self) -> (r: usize)
        ensures
            r == self.window_start(),
            r <= self.window_end(),
    {
        proof {
            use_type_invariant(self);
        }
        self.start
    }

    /// Where the string ends in the buffer.
    pub fn end(&self) -> (r: usize)
        ensures
            r == self.window_end(),
            self.window_start() <= r <= DATA_SIZE,
    {
        proof {
            use_type_invariant(self);
        }
        self.end
    }
}

impl core::ops::Index<usize> for FBS {
    type Output = u8;

    /// The byte at position `ith` of the string.
    fn index(&self, ith: usize) -> (r: &u8)
        ensures
            *r == self@[ith as int],
    {
        proof {
            use_type_invariant(self);
        }
        &self.data[self.start + ith]
    }
}

/// Indexing asks for a position inside the string.
impl vstd::std_specs::core::IndexSpecImpl<usize> for FBS {
    open spec fn index_req(&self, index: &usize) -> bool {
        *index < self@.len()
    }
}

impl PartialEq for FBS {
    /// Two strings are equal when they hold the same bytes, wherever each
    /// sits in its buffer.
    fn eq(&self, other: &FBS) -> (r: bool) {
        proof {
            use_type_invariant(self);
            use_type_invariant(other);
        }
        if self.len() != other.len() {
            return false;
        }
        let length = self.len();
        let mut i: usize = 0;
        while i < length
            invariant
                i <= length,
                length == self@.len(),
                length == other@.len(),
                forall|k: int| 0 <= k < i ==> self@[k] == other@[k],
            decreases length - i,
        {
            if self[i] != other[i] {
                return false;
            }
            i += 1;
        }
        assert(self@ =~= other@);
        true
    }
}

/// `==` on buffers means that they hold the same text.
impl vstd::std_specs::cmp::PartialEqSpecImpl for FBS {
    open spec fn obeys_eq_spec() -> bool {
        true
    }

    open spec fn eq_spec(&self, other: &FBS) -> bool {
        self@ == other@
    }
}

impl Eq for FBS {}

impl<'a> TryFrom<&'a str> for FBS {
    type Error = ErrorKind;

    /// Use this to get an FBS from a string.
    fn try_from(value: &'a str) -> (r: Result<FBS, ErrorKind>)
        ensures
            match r {
                Ok(b) => text_bytes(value@) == Ok::<Seq<u8>, ErrorKind>(b@) && b.window_start() == 0
                    && b.window_end() == value@.len(),
                Err(e) => text_bytes(value@) == Err::<Seq<u8>, ErrorKind>(e),
            },
    {
        if !value.is_ascii() {
            return Err(ErrorKind::NonAsciiInput);
        }
        let bytes = value.as_bytes();
        proof {
            is_ascii_spec_bytes(value);
        }
        if bytes.len() > DATA_SIZE {
            return Err(ErrorKind::CapacityExceeded);
        }
        let mut data: [u8; DATA_SIZE] = [0; DATA_SIZE];
        let mut i: usize = 0;
        while i < bytes.len()
            invariant
                i <= bytes@.len() <= DATA_SIZE,
                bytes@ == Seq::new(value@.len(), |k: int| value@[k] as u8),
                is_ascii_chars(value@),
                forall|k: int| 0 <= k < i ==> data@[k] == bytes@[k],
            decreases bytes@.len() - i,
        {
            data[i] = bytes[i];
            i += 1;
        }
        let r = FBS { start: 0, end: bytes.len(), data };
        assert(r@ =~= bytes@);
        Ok(r)
    }
}

/// What `try_from` returns is stated in its own contract, over the text of
/// the buffer. The specification of the trait speaks of the buffer itself,
/// bytes behind the text included, and is left open.
impl<'a> vstd::std_specs::convert::TryFromSpecImpl<&'a str> for FBS {
    open spec fn obeys_try_from_spec() -> bool {
        false
    }

    open spec fn try_from_spec(v: &'a str) -> Result<FBS, ErrorKind> {
        arbitrary()
    }
}

} // verus!
