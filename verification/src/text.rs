use vstd::prelude::*;

use crate::errors::EditorError;

verus! {

/// The mutable text content of a document, held as a sequence of Unicode
/// scalar values. Offsets into the buffer count scalar values, so every
/// offset `0 <= o <= len` is a valid boundary and no edit can split an
/// encoded character.
pub struct TextBuffer {
    chars: Vec<char>,
}

impl View for TextBuffer {
    type V = Seq<char>;

    closed spec fn view(&self) -> Seq<char> {
        self.chars@
    }
}

impl TextBuffer {
    /// An empty buffer.
    pub fn new() -> (r: TextBuffer)
        ensures
            r@ == Seq::<char>::empty(),
    {
        TextBuffer { chars: Vec::new() }
    }

    /// A buffer holding exactly the given scalar values.
    pub fn from_chars(chars: Vec<char>) -> (r: TextBuffer)
        ensures
            r@ == chars@,
    {
        TextBuffer { chars }
    }

    /// The number of scalar values in the buffer.
    pub fn len(&self) -> (r: usize)
        ensures
            r == self@.len(),
    {
        self.chars.len()
    }

    /// The scalar value at the given offset.
    pub fn char_at(&self, offset: usize) -> (r: char)
        requires
            offset < self@.len(),
        ensures
            r == self@[offset as int],
    {
        self.chars[offset]
    }

    /// A borrowed view of the content.
    pub fn chars(&self) -> (r: &Vec<char>)
        ensures
            r@ == self@,
    {
        &self.chars
    }

    /// Splices one scalar value in at `offset`. Internal form of
    /// [`TextBuffer::insert`]: callers have already checked the bound.
    pub fn insert_char_at(&mut self, offset: usize, c: char)
        requires
            offset <= old(self)@.len(),
        ensures
            final(self)@ == old(self)@.insert(offset as int, c),
    {
        self.chars.insert(offset, c);
    }

    /// Removes the scalar value at `offset`. Internal form of
    /// [`TextBuffer::remove`]: callers have already checked the bound.
    pub fn remove_char_at(&mut self, offset: usize) -> (r: char)
        requires
            offset < old(self)@.len(),
        ensures
            final(self)@ == old(self)@.remove(offset as int),
            r == old(self)@[offset as int],
    {
        self.chars.remove(offset)
    }

    /// Splices a fragment in at `offset`; fails with `OutOfBounds` exactly
    /// when `offset` is not a boundary of the buffer.
    pub fn insert(&mut self, offset: usize, fragment: &Vec<char>) -> (r: Result<(), EditorError>)
        ensures
            offset <= old(self)@.len() ==> r == Ok::<(), EditorError>(()) && final(self)@
                == old(self)@.take(offset as int) + fragment@ + old(self)@.skip(offset as int),
            offset > old(self)@.len() ==> r == Err::<(), EditorError>(EditorError::OutOfBounds)
                && final(self)@ == old(self)@,
    {
        if offset > self.chars.len() {
            return Err(EditorError::OutOfBounds);
        }
        let ghost orig = self.chars@;
        let mut i: usize = 0;
        while i < fragment.len()
            invariant
                i <= fragment@.len(),
                offset + i <= self.chars@.len(),
                self.chars@ == orig.take(offset as int) + fragment@.take(i as int) + orig.skip(
                    offset as int,
                ),
                offset <= orig.len(),
            decreases fragment@.len() - i,
        {
            let cur_len = self.chars.len();
            assert(offset + i <= cur_len);
            self.chars.insert(offset + i, fragment[i]);
            proof {
                assert(self.chars@ =~= orig.take(offset as int) + fragment@.take(i + 1)
                    + orig.skip(offset as int));
            }
            i = i + 1;
        }
        proof {
            assert(fragment@.take(fragment@.len() as int) =~= fragment@);
        }
        Ok(())
    }

    /// Removes exactly one scalar value starting at `offset`; fails with
    /// `OutOfBounds` exactly when `offset` is at or past the end.
    pub fn remove(&mut self, offset: usize) -> (r: Result<char, EditorError>)
        ensures
            offset < old(self)@.len() ==> r == Ok::<char, EditorError>(
                old(self)@[offset as int],
            ) && final(self)@ == old(self)@.remove(offset as int),
            offset >= old(self)@.len() ==> r == Err::<char, EditorError>(EditorError::OutOfBounds)
                && final(self)@ == old(self)@,
    {
        if offset >= self.chars.len() {
            return Err(EditorError::OutOfBounds);
        }
        Ok(self.chars.remove(offset))
    }
}

/// The character sequence that lossy UTF-8 decoding yields for these bytes.
pub uninterp spec fn lossy_decode(bytes: Seq<u8>) -> Seq<char>;

/// Relies on String::from_utf8_lossy: decodes the bytes as UTF-8, mapping
/// each invalid sequence to the replacement character. The result depends on
/// the bytes alone, and empty input gives empty output.
#[verifier::external_body]
pub(crate) fn decode_utf8_lossy(bytes: &Vec<u8>) -> (r: Vec<char>)
    ensures
        r@ == lossy_decode(bytes@),
        bytes@.len() == 0 ==> r@.len() == 0,
{
    String::from_utf8_lossy(bytes).chars().collect()
}

/// The given character sequence with every carriage return removed; content
/// is normalized this way when it is loaded.
pub open spec fn strip_cr_spec(s: Seq<char>) -> Seq<char>
    decreases s.len(),
{
    if s.len() == 0 {
        Seq::empty()
    } else if s.last() == '\r' {
        strip_cr_spec(s.drop_last())
    } else {
        strip_cr_spec(s.drop_last()).push(s.last())
    }
}

/// Removes every carriage return from the fragment.
pub fn strip_carriage_returns(input: &Vec<char>) -> (r: Vec<char>)
    ensures
        r@ == strip_cr_spec(input@),
{
    let mut out: Vec<char> = Vec::new();
    let mut i: usize = 0;
    while i < input.len()
        invariant
            i <= input@.len(),
            out@ == strip_cr_spec(input@.take(i as int)),
        decreases input@.len() - i,
    {
        let c = input[i];
        proof {
            assert(input@.take(i + 1).drop_last() =~= input@.take(i as int));
            assert(input@.take(i + 1).last() == input@[i as int]);
        }
        if c != '\r' {
            out.push(c);
        }
        i = i + 1;
    }
    proof {
        assert(input@.take(input@.len() as int) =~= input@);
    }
    out
}

} // verus!
