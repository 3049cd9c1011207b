//! Cursor over an in-memory byte stream, with typed little-endian reads.

use vstd::prelude::*;

use crate::error::DdmError;

verus! {

/// Index of the first null byte of `s`, or `s.len()` if none occurs.
pub open spec fn nul_index(s: Seq<u8>) -> int
    decreases s.len(),
{
    if s.len() == 0 {
        0
    } else if s[0] == 0 {
        0
    } else {
        1 + nul_index(s.skip(1))
    }
}

pub proof fn lemma_nul_index(s: Seq<u8>)
    ensures
        0 <= nul_index(s) <= s.len(),
        nul_index(s) < s.len() ==> s[nul_index(s)] == 0,
        forall|j: int| 0 <= j < nul_index(s) ==> s[j] != 0,
    decreases s.len(),
{
    if s.len() != 0 && s[0] != 0 {
        lemma_nul_index(s.skip(1));
        assert forall|j: int| 0 <= j < nul_index(s) implies s[j] != 0 by {
            if j > 0 {
                assert(s.skip(1)[j - 1] != 0);
            }
        }
    }
}

/// `nul_index` is the only cut that is null-free on the left and ends at a
/// null byte or at the end of the sequence.
pub proof fn lemma_nul_index_unique(s: Seq<u8>, k: int)
    requires
        0 <= k <= s.len(),
        forall|j: int| 0 <= j < k ==> s[j] != 0,
        k < s.len() ==> s[k] == 0,
    ensures
        nul_index(s) == k,
{
    lemma_nul_index(s);
    if nul_index(s) < k {
        assert(s[nul_index(s)] != 0);
    }
    if nul_index(s) > k {
        assert(s[k] != 0);
    }
}

/// What a fixed-width field of `n` bytes read at `pos` denotes as a string:
/// the bytes before the first null, or all `n` bytes if no null occurs.
pub open spec fn string_field(b: Seq<u8>, pos: int, n: int) -> Seq<u8> {
    let w = b.subrange(pos, pos + n);
    w.take(nul_index(w))
}

/// Relies on `String::from_utf8`: it returns `Ok` exactly when the bytes are
/// valid UTF-8, and then the returned string's characters decode those bytes.
#[verifier::external_body]
pub(crate) fn bytes_to_string(b: Vec<u8>) -> (r: Option<String>)
    ensures
        match r {
            Some(s) => vstd::utf8::valid_utf8(b@) && s@ == vstd::utf8::decode_utf8(b@),
            None => !vstd::utf8::valid_utf8(b@),
        },
{
    String::from_utf8(b).ok()
}

/// Cursor over a byte stream held in memory. Reads consume bytes at the
/// current position; a read past the end fails with `IOError` and consumes
/// nothing.
pub struct ByteReader<'a> {
    data: &'a [u8],
    pos: usize,
}

/// A fixed-width scalar that can be read from the stream as little-endian
/// bytes.
pub trait Primitive: Sized {
    /// How many bytes of the stream one value occupies.
    spec fn byte_len() -> int;

    /// The value that `byte_len` little-endian bytes stand for.
    spec fn from_le(s: Seq<u8>) -> Self;

    fn from_reader(reader: &mut ByteReader<'_>) -> (r: Result<Self, DdmError>)
        requires
            old(reader).wf(),
            Self::byte_len() >= 0,
        ensures
            final(reader).wf(),
            final(reader).bytes() == old(reader).bytes(),
            match r {
                Ok(v) => {
                    &&& old(reader).position() + Self::byte_len()
                        <= old(reader).bytes().len()
                    &&& v == Self::from_le(
                        old(reader).bytes().subrange(
                            old(reader).position(),
                            old(reader).position() + Self::byte_len(),
                        ),
                    )
                    &&& final(reader).position() == old(reader).position()
                        + Self::byte_len()
                },
                Err(e) => {
                    &&& e == DdmError::IOError
                    &&& old(reader).position() + Self::byte_len()
                        > old(reader).bytes().len()
                    &&& *final(reader) == *old(reader)
                },
            },
    ;
}

impl Primitive for u16 {
    open spec fn byte_len() -> int {
        2
    }

    open spec fn from_le(s: Seq<u8>) -> u16 {
        vstd::bytes::spec_u16_from_le_bytes(s)
    }

    fn from_reader(reader: &mut ByteReader<'_>) -> (r: Result<Self, DdmError>) {
        match reader.read_bytes::<2>() {
            Ok(b) => Ok(vstd::bytes::u16_from_le_bytes(b.as_slice())),
            Err(e) => Err(e),
        }
    }
}

impl Primitive for u32 {
    open spec fn byte_len() -> int {
        4
    }

    open spec fn from_le(s: Seq<u8>) -> u32 {
        vstd::bytes::spec_u32_from_le_bytes(s)
    }

    fn from_reader(reader: &mut ByteReader<'_>) -> (r: Result<Self, DdmError>) {
        match reader.read_bytes::<4>() {
            Ok(b) => Ok(vstd::bytes::u32_from_le_bytes(b.as_slice())),
            Err(e) => Err(e),
        }
    }
}

impl<'a> ByteReader<'a> {
    /// The whole underlying byte stream.
    pub closed spec fn bytes(&self) -> Seq<u8> {
        self.data@
    }

    /// The cursor's current offset into the stream.
    pub closed spec fn position(&self) -> int {
        self.pos as int
    }

    /// The cursor never stands outside the stream's bounds.
    pub open spec fn wf(&self) -> bool {
        0 <= self.position() <= self.bytes().len()
    }

    pub fn new(data: &'a [u8]) -> (r: Self)
        ensures
            r.bytes() == data@,
            r.position() == 0,
            r.wf(),
    {
        ByteReader { data, pos: 0 }
    }

    /// Reads one little-endian scalar of type `S`.
    pub fn read<S: Primitive>(&mut self) -> (r: Result<S, DdmError>)
        requires
            old(self).wf(),
            S::byte_len() >= 0,
        ensures
            final(self).wf(),
            final(self).bytes() == old(self).bytes(),
            match r {
                Ok(v) => {
                    &&& old(self).position() + S::byte_len() <= old(self).bytes().len()
                    &&& v == S::from_le(
                        old(self).bytes().subrange(
                            old(self).position(),
                            old(self).position() + S::byte_len(),
                        ),
                    )
                    &&& final(self).position() == old(self).position() + S::byte_len()
                },
                Err(e) => {
                    &&& e == DdmError::IOError
                    &&& old(self).position() + S::byte_len() > old(self).bytes().len()
                    &&& *final(self) == *old(self)
                },
            },
    {
        S::from_reader(self)
    }

    /// Reads exactly `S` bytes into a fixed array.
    pub fn read_bytes<const S: usize>(&mut self) -> (r: Result<[u8; S], DdmError>)
        requires
            old(self).wf(),
        ensures
            final(self).wf(),
            final(self).bytes() == old(self).bytes(),
            match r {
                Ok(b) => {
                    &&& old(self).position() + S <= old(self).bytes().len()
                    &&& b@ == old(self).bytes().subrange(
                        old(self).position(),
                        old(self).position() + S,
                    )
                    &&& final(self).position() == old(self).position() + S
                },
                Err(e) => {
                    &&& e == DdmError::IOError
                    &&& old(self).position() + S > old(self).bytes().len()
                    &&& *final(self) == *old(self)
                },
            },
    {
        if S <= self.data.len() - self.pos {
            let end: usize = self.pos + S;
            let mut buf = vstd::array::array_fill_for_copy_types::<u8, S>(0u8);
            let mut i: usize = 0;
            while i < S
                invariant
                    i <= S,
                    end == self.pos + S,
                    self.pos + S <= self.data@.len(),
                    buf@.len() == S,
                    forall|j: int| 0 <= j < i ==> buf@[j] == self.data@[self.pos + j],
                decreases S - i,
            {
                buf[i] = self.data[self.pos + i];
                i += 1;
            }
            let ghost p = self.pos as int;
            self.pos = self.pos + S;
            proof {
                assert(buf@ =~= self.data@.subrange(p, p + S as int));
            }
            Ok(buf)
        } else {
            Err(DdmError::IOError)
        }
    }

    /// Reads exactly `size` bytes into a vector.
    pub fn read_n_bytes(&mut self, size: usize) -> (r: Result<Vec<u8>, DdmError>)
        requires
            old(self).wf(),
        ensures
            final(self).wf(),
            final(self).bytes() == old(self).bytes(),
            match r {
                Ok(v) => {
                    &&& old(self).position() + size <= old(self).bytes().len()
                    &&& v@ == old(self).bytes().subrange(
                        old(self).position(),
                        old(self).position() + size,
                    )
                    &&& final(self).position() == old(self).position() + size
                },
                Err(e) => {
                    &&& e == DdmError::IOError
                    &&& old(self).position() + size > old(self).bytes().len()
                    &&& *final(self) == *old(self)
                },
            },
    {
        if size <= self.data.len() - self.pos {
            let s = vstd::slice::slice_subrange(self.data, self.pos, self.pos + size);
            let v = vstd::slice::slice_to_vec(s);
            self.pos = self.pos + size;
            Ok(v)
        } else {
            Err(DdmError::IOError)
        }
    }

    /// Reads an `S`-byte string field: the bytes before the first null, or
    /// all `S` bytes if no null occurs, decoded as UTF-8. Bytes that are not
    /// valid UTF-8 are a format error; the field is consumed either way.
    pub fn read_string<const S: usize>(&mut self) -> (r: Result<String, DdmError>)
        requires
            old(self).wf(),
        ensures
            final(self).wf(),
            final(self).bytes() == old(self).bytes(),
            match r {
                Ok(s) => {
                    &&& old(self).position() + S <= old(self).bytes().len()
                    &&& vstd::utf8::valid_utf8(
                        string_field(old(self).bytes(), old(self).position(), S as int),
                    )
                    &&& s@ == vstd::utf8::decode_utf8(
                        string_field(old(self).bytes(), old(self).position(), S as int),
                    )
                    &&& final(self).position() == old(self).position() + S
                },
                Err(e) => {
                    ||| {
                        &&& e == DdmError::IOError
                        &&& old(self).position() + S > old(self).bytes().len()
                        &&& *final(self) == *old(self)
                    }
                    ||| {
                        &&& e == DdmError::FormatError
                        &&& old(self).position() + S <= old(self).bytes().len()
                        &&& !vstd::utf8::valid_utf8(
                            string_field(old(self).bytes(), old(self).position(), S as int),
                        )
                        &&& final(self).position() == old(self).position() + S
                    }
                },
            },
    {
        let ghost p = self.pos as int;
        let b = self.read_bytes::<S>()?;
        let ghost w = self.data@.subrange(p, p + S as int);
        let mut i: usize = 0;
        while i < S && b[i] != 0
            invariant
                i <= S,
                b@.len() == S,
                forall|j: int| 0 <= j < i ==> b@[j] != 0,
            decreases S - i,
        {
            i += 1;
        }
        proof {
            lemma_nul_index_unique(b@, i as int);
        }
        let mut prefix: Vec<u8> = Vec::new();
        let mut j: usize = 0;
        while j < i
            invariant
                j <= i <= S,
                b@.len() == S,
                prefix@ == b@.take(j as int),
            decreases i - j,
        {
            prefix.push(b[j]);
            j += 1;
        }
        proof {
            assert(prefix@ =~= w.take(nul_index(w)));
        }
        match bytes_to_string(prefix) {
            Some(s) => Ok(s),
            None => Err(DdmError::FormatError),
        }
    }

    /// Moves the cursor to the absolute offset `offset`.
    pub fn seek(&mut self, offset: u64) -> (r: Result<(), DdmError>)
        requires
            old(self).wf(),
        ensures
            final(self).wf(),
            final(self).bytes() == old(self).bytes(),
            match r {
                Ok(()) => {
                    &&& offset <= old(self).bytes().len()
                    &&& final(self).position() == offset
                },
                Err(e) => {
                    &&& e == DdmError::IOError
                    &&& offset > old(self).bytes().len()
                    &&& *final(self) == *old(self)
                },
            },
    {
        if offset <= self.data.len() as u64 {
            self.pos = offset as usize;
            Ok(())
        } else {
            Err(DdmError::IOError)
        }
    }

    /// Moves the cursor by the signed offset `offset`, relative to the
    /// current position.
    pub fn skip(&mut self, offset: i64) -> (r: Result<(), DdmError>)
        requires
            old(self).wf(),
        ensures
            final(self).wf(),
            final(self).bytes() == old(self).bytes(),
            match r {
                Ok(()) => {
                    &&& 0 <= old(self).position() + offset <= old(self).bytes().len()
                    &&& final(self).position() == old(self).position() + offset
                },
                Err(e) => {
                    &&& e == DdmError::IOError
                    &&& !(0 <= old(self).position() + offset
                        <= old(self).bytes().len())
                    &&& *final(self) == *old(self)
                },
            },
    {
        if offset >= 0 {
            let fwd = offset as u64;
            if fwd <= (self.data.len() - self.pos) as u64 {
                self.pos = self.pos + fwd as usize;
                Ok(())
            } else {
                Err(DdmError::IOError)
            }
        } else {
            let back = (-(offset + 1)) as u64 + 1;
            if back <= self.pos as u64 {
                self.pos = self.pos - back as usize;
                Ok(())
            } else {
                Err(DdmError::IOError)
            }
        }
    }
}

} // verus!
