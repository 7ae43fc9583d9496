use crate::bytes::{
    be_read_u128, be_read_u16, be_read_u32, be_read_u64, le_read_u128, le_read_u16, le_read_u32,
    le_read_u64, uint_value,
};
use crate::config::{Endian, Options, SizeLimit};
use crate::error::{Error, ErrorKind};
use crate::utf8::{
    char_width, describes_utf8_failure, lemma_char_width_is_scalar_length, str_from_utf8,
    string_from_utf8, utf8_char_width, utf8_error_len,
};
use vstd::prelude::*;
use vstd::utf8::*;

pub mod laws;
pub mod read;

use self::read::{
    advanced, bytes_result, chars_result, fresh, not_utf8_error, read_step, BincodeRead, IoReader,
    ReadExact, SliceReader, Source,
};

verus! {

broadcast use {
    vstd::layout::layout_of_primitives,
    read::lemma_fresh_append,
    read::lemma_fresh_same,
};

/// Everything about a deserializer that its operations read or change: the
/// byte order, what is left of the size limit, and its byte source.
pub struct DeState {
    pub endian: Endian,
    pub limit: SizeLimit,
    pub src: Source,
}

/// What a failed or successful read of `n` bytes of data hands out, seen
/// through a result `r` and the bytes `b` taken: errors that are not about
/// the source or the limit come after the bytes were taken.
pub open spec fn raw<T>(r: Result<T, Error>, b: Seq<u8>) -> Result<Seq<u8>, Error> {
    match r {
        Ok(_) => Ok(b),
        Err(e) => if *e is Io || *e is SizeLimit {
            Err(e)
        } else {
            Ok(b)
        },
    }
}

/// Charging `n` bytes to the limit and then taking `n` bytes from the
/// source, from `pre` to `post`: where the limit has no room for them the
/// read fails with `SizeLimit` and nothing changes; otherwise the limit is
/// charged, whether or not the source then has the bytes.
pub open spec fn counted_step(
    pre: DeState,
    post: DeState,
    n: nat,
    out: Result<Seq<u8>, Error>,
) -> bool {
    if !pre.limit.allows(n) {
        &&& fails_with(out, ErrorKind::SizeLimit)
        &&& post == pre
    } else {
        &&& post.endian == pre.endian
        &&& post.limit == pre.limit.charged(n)
        &&& read_step(pre.src, post.src, n, out)
    }
}

/// The bytes taken from the source between two states.
pub open spec fn taken_by(pre: DeState, post: DeState) -> Seq<u8> {
    fresh(pre.src.taken, post.src.taken)
}

/// The unsigned integer that the bytes taken between two states encode, in
/// the byte order of the first.
pub open spec fn value_read(pre: DeState, post: DeState) -> nat {
    uint_value(pre.endian, taken_by(pre, post))
}

/// Reading `n` bytes of a fixed-width value, charged to the limit: as
/// [`counted_step`], and the only errors are those of the limit and of the
/// source.
pub open spec fn literal_step<T>(pre: DeState, post: DeState, n: nat, r: Result<T, Error>) -> bool {
    &&& counted_step(pre, post, n, raw(r, taken_by(pre, post)))
    &&& (r is Ok <==> raw(r, taken_by(pre, post)) is Ok)
}

/// The message of the error for a length that does not fit in a `usize`.
pub open spec fn len_overflow_message() -> Seq<char> {
    "invalid size: sizes must fit in a usize"@
}

/// Whether `r` is the error for a length that does not fit in a `usize`.
pub open spec fn is_len_overflow<T>(r: Result<T, Error>) -> bool {
    r matches Err(e) && *e matches ErrorKind::Custom(m) && m@ == len_overflow_message()
}

/// Reading a length prefix and then that many bytes, from `pre` to `post`,
/// with `out` the outcome of the bytes: the length is 8 bytes in the
/// configured byte order, read as by [`literal_step`]; a length beyond
/// `usize` is an error; otherwise the length is charged to the limit and
/// that many bytes are taken, as by [`counted_step`].
pub open spec fn prefixed_step(pre: DeState, post: DeState, out: Result<Seq<u8>, Error>) -> bool {
    let f = taken_by(pre, post);
    let h = f.take(8);
    let mid = DeState {
        endian: pre.endian,
        limit: pre.limit.charged(8),
        src: advanced(pre.src, h),
    };
    let n = uint_value(pre.endian, h);
    if !pre.limit.allows(8) || f.len() < 8 {
        &&& out is Err
        &&& counted_step(pre, post, 8, out)
    } else if n > usize::MAX {
        &&& counted_step(pre, mid, 8, Ok(h))
        &&& post == mid
        &&& is_len_overflow(out)
    } else {
        &&& counted_step(pre, mid, 8, Ok(h))
        &&& counted_step(mid, post, n, out)
    }
}

/// After a successful 8-byte header read, the header is the first 8 of the
/// fresh bytes and the state is the one that [`prefixed_step`] names.
proof fn lemma_prefix_header(s0: DeState, s1: DeState)
    requires
        counted_step(s0, s1, 8, Ok(taken_by(s0, s1))),
    ensures
        s0.limit.allows(8),
        taken_by(s0, s1).len() == 8,
        s1 == (DeState {
            endian: s0.endian,
            limit: s0.limit.charged(8),
            src: advanced(s0.src, taken_by(s0, s1).take(8)),
        }),
{
    assert(taken_by(s0, s1).take(8) =~= taken_by(s0, s1));
}

/// The bytes taken over two steps are those of the first, then those of the
/// second.
proof fn lemma_prefix_body(s0: DeState, s1: DeState, s2: DeState)
    requires
        s1.src.taken == s0.src.taken + taken_by(s0, s1),
        s2.src.taken == s1.src.taken + taken_by(s1, s2),
    ensures
        taken_by(s0, s2).take(taken_by(s0, s1).len() as int) == taken_by(s0, s1),
        taken_by(s0, s2).skip(taken_by(s0, s1).len() as int) == taken_by(s1, s2),
        taken_by(s0, s2).len() == taken_by(s0, s1).len() + taken_by(s1, s2).len(),
{
    assert(taken_by(s0, s2).take(taken_by(s0, s1).len() as int) =~= taken_by(s0, s1));
    assert(taken_by(s0, s2).skip(taken_by(s0, s1).len() as int) =~= taken_by(s1, s2));
}

/// The bytes that a successful length-prefixed read returns are those taken
/// after the 8 bytes of the length.
proof fn lemma_prefixed_body(pre: DeState, post: DeState, b: Seq<u8>)
    requires
        prefixed_step(pre, post, Ok(b)),
    ensures
        taken_by(pre, post).skip(8) == b,
        taken_by(pre, post).len() == 8 + b.len(),
{
    let f = taken_by(pre, post);
    let h = f.take(8);
    assert(post.src.taken == pre.src.taken + h + b);
    assert(f =~= h + b);
    assert(f.skip(8) =~= b);
}

/// Whether `e` is an error about text that is not UTF-8.
pub open spec fn is_text_error(e: ErrorKind) -> bool {
    e is InvalidUtf8Encoding || e is InvalidEncoding
}

/// The outcome of the bytes of a text read: bytes that are not UTF-8 are
/// taken all the same.
pub open spec fn text_raw<T>(r: Result<T, Error>, body: Seq<u8>) -> Result<Seq<u8>, Error> {
    match r {
        Ok(_) => Ok(body),
        Err(e) => if is_text_error(*e) {
            Ok(body)
        } else {
            Err(e)
        },
    }
}

/// Whether `e` is the error that a forwarded string gives for bytes that
/// are not UTF-8.
pub open spec fn is_str_error(body: Seq<u8>, e: ErrorKind) -> bool {
    e == not_utf8_error()
}

/// Whether `e` is the error that an owned string gives for `body`, which is
/// not UTF-8: it reports where and how `body` stops being UTF-8.
pub open spec fn is_string_error(body: Seq<u8>, e: ErrorKind) -> bool {
    e matches ErrorKind::InvalidUtf8Encoding(u) && describes_utf8_failure(body, u) && u.error_len
        == utf8_error_len(body)
}

/// Reading a length-prefixed UTF-8 string: as [`prefixed_step`], the string
/// is returned exactly when the bytes are UTF-8, and otherwise the error is
/// one that `bad` admits for those bytes.
pub open spec fn text_step(
    pre: DeState,
    post: DeState,
    r: Result<Seq<char>, Error>,
    bad: spec_fn(Seq<u8>, ErrorKind) -> bool,
) -> bool {
    let body = taken_by(pre, post).skip(8);
    &&& prefixed_step(pre, post, text_raw(r, body))
    &&& text_raw(r, body) is Ok ==> {
        &&& r is Ok <==> valid_utf8(body)
        &&& r matches Ok(s) ==> s == decode_utf8(body)
        &&& r matches Err(e) ==> bad(body, *e)
    }
}

/// Reading a `char` from a source, from `pre` to `post`: one byte is
/// taken, which fixes the width of the UTF-8 encoding; an ASCII byte is the
/// `char` itself; a byte that starts no encoding is an `InvalidCharEncoding`
/// error; otherwise the rest of the encoding is taken, and a missing or
/// ill-formed rest is an `InvalidCharEncoding` error too.
pub open spec fn char_step(pre: Source, post: Source, r: Result<char, Error>) -> bool {
    let f = fresh(pre.taken, post.taken);
    let mid = advanced(pre, f.take(1));
    if f.len() == 0 {
        r matches Err(e) && read_step(pre, post, 1, Err(e))
    } else {
        let w = char_width(f[0]);
        &&& read_step(pre, mid, 1, Ok(f.take(1)))
        &&& if w == 1 {
            post == mid && r == Ok::<char, Error>(f[0] as char)
        } else if w == 0 {
            post == mid && fails_with(r, ErrorKind::InvalidCharEncoding)
        } else if f.len() == 1 {
            &&& post == mid
            &&& fails_with(r, ErrorKind::InvalidCharEncoding)
            &&& mid.rest matches Some(rest) ==> rest.len() < w - 1
        } else {
            &&& read_step(mid, post, (w - 1) as nat, Ok(f.skip(1)))
            &&& valid_utf8(f) ==> r == Ok::<char, Error>(decode_utf8(f)[0])
            &&& !valid_utf8(f) ==> fails_with(r, ErrorKind::InvalidCharEncoding)
        }
    }
}

/// The meaning of an `Option` tag byte: `false` for `None`, `true` for a
/// value that follows; any other byte is an
/// `InvalidTagEncoding` error that carries it.
pub open spec fn option_tag_of(b: u8) -> Result<bool, Error> {
    if b == 0 {
        Ok(false)
    } else if b == 1 {
        Ok(true)
    } else {
        Err(Box::new(ErrorKind::InvalidTagEncoding(b as usize)))
    }
}

/// The message of the error for identifiers, which the format does not hold.
pub open spec fn identifier_message() -> Seq<char> {
    "Bincode does not support Deserializer::deserialize_identifier"@
}

/// The message of the error for ignored values, which the format cannot skip.
pub open spec fn ignored_any_message() -> Seq<char> {
    "Bincode does not support Deserializer::deserialize_ignored_any"@
}

/// Whether `r` is the error `k`.
pub open spec fn fails_with<T>(r: Result<T, Error>, k: ErrorKind) -> bool {
    r matches Err(e) && *e == k
}

/// The value of a `bool` byte.
pub open spec fn bool_of(b: u8) -> Result<bool, Error> {
    if b == 1 {
        Ok(true)
    } else if b == 0 {
        Ok(false)
    } else {
        Err(Box::new(ErrorKind::InvalidBoolEncoding(b)))
    }
}

/// What is left to count after one more element is asked for.
pub open spec fn count_off(remaining: nat) -> nat {
    if remaining > 0 {
        (remaining - 1) as nat
    } else {
        0
    }
}

/// Counts off the elements of a sequence, tuple or map whose length is
/// known in advance.
pub struct Access {
    len: usize,
}

impl Access {
    /// How many elements are still to come.
    pub closed spec fn remaining(&self) -> nat {
        self.len as nat
    }

    /// An access for `len` elements.
    pub fn new(len: usize) -> (a: Access)
        ensures
            a.remaining() == len,
    {
        Access { len }
    }

    /// Whether another element follows; if so it is counted off.
    pub fn next_element(&mut self) -> (more: bool)
        ensures
            more == (old(self).remaining() > 0),
            final(self).remaining() == count_off(old(self).remaining()),
    {
        if self.len > 0 {
            self.len = self.len - 1;
            true
        } else {
            false
        }
    }

    /// The exact number of elements still to come.
    pub fn size_hint(&self) -> (h: Option<usize>)
        ensures
            h == Some(self.remaining() as usize),
    {
        Some(self.len)
    }
}

/// Reads bincode-encoded values out of a byte source, with the given options.
pub struct Deserializer<R> {
    reader: R,
    options: Options,
}

impl<R> Deserializer<R> {
    /// The byte source.
    pub closed spec fn spec_reader(&self) -> R {
        self.reader
    }

    /// The options, with what is left of the limit.
    pub closed spec fn spec_options(&self) -> Options {
        self.options
    }

    /// Creates a new Deserializer with the given `BincodeRead`er.
    pub fn with_bincode_read(r: R, options: Options) -> (d: Deserializer<R>)
        ensures
            d.spec_reader() == r,
            d.spec_options() == options,
    {
        Deserializer { reader: r, options }
    }
}

impl<IR: ReadExact> Deserializer<IoReader<IR>> {
    /// Creates a new Deserializer with a given reader and options. Nothing
    /// is read: the deserializer's bytes are the reader's next ones, and
    /// what the reader has already yielded counts as taken.
    pub fn with_reader(r: IR, options: Options) -> (d: Deserializer<IoReader<IR>>)
        ensures
            d.spec_reader().inner() == r,
            d.spec_reader().buffer() == Seq::<u8>::empty(),
            d.spec_options() == options,
            d.state() == (DeState {
                endian: options.endian,
                limit: options.limit,
                src: Source { taken: r.yielded(), rest: r.upcoming() },
            }),
    {
        Deserializer { reader: IoReader::new(r), options }
    }
}

impl<'de> Deserializer<SliceReader<'de>> {
    /// Creates a new Deserializer that will read from the given slice.
    pub fn from_slice(slice: &'de [u8], options: Options) -> (d: Deserializer<SliceReader<'de>>)
        ensures
            d.spec_reader().source() == (Source { taken: Seq::empty(), rest: Some(slice@) }),
            d.spec_options() == options,
    {
        Deserializer { reader: SliceReader::new(slice), options }
    }
}

impl<'de, R: BincodeRead<'de>> Deserializer<R> {
    /// What the deserializer's operations read and change.
    pub open spec fn state(&self) -> DeState {
        DeState {
            endian: self.spec_options().endian,
            limit: self.spec_options().limit,
            src: self.spec_reader().source(),
        }
    }

    /// Charges `count` bytes to the size limit.
    pub fn read_bytes(&mut self, count: u64) -> (r: Result<(), Error>)
        ensures
            old(self).state().limit.allows(count as nat) ==> r is Ok && final(self).state() == (
            DeState { limit: old(self).state().limit.charged(count as nat), ..old(self).state() }),
            !old(self).state().limit.allows(count as nat) ==> fails_with(r, ErrorKind::SizeLimit)
                && final(self).state() == old(self).state(),
    {
        self.options.limit.add(count)
    }

    /// Charges the size of a `T` to the size limit.
    pub fn read_literal_type<T>(&mut self) -> (r: Result<(), Error>)
        ensures
            old(self).state().limit.allows(vstd::layout::size_of::<T>()) ==> r is Ok
                && final(self).state() == (DeState {
                limit: old(self).state().limit.charged(vstd::layout::size_of::<T>()),
                ..old(self).state()
            }),
            !old(self).state().limit.allows(vstd::layout::size_of::<T>()) ==> fails_with(
                r,
                ErrorKind::SizeLimit,
            ) && final(self).state() == old(self).state(),
    {
        let size = core::mem::size_of::<T>();
        self.read_bytes(size as u64)
    }

    /// Reads one byte, charged to the limit.
    pub fn deserialize_byte(&mut self) -> (r: Result<u8, Error>)
        ensures
            literal_step(old(self).state(), final(self).state(), 1, r),
            r matches Ok(v) ==> v == taken_by(old(self).state(), final(self).state())[0],
    {
        self.read_literal_type::<u8>()?;
        let buf = self.reader.read_exact_bytes(1)?;
        Ok(buf[0])
    }

    /// Reads a 2-byte unsigned integer in the configured byte order,
    /// charged to the limit.
    pub fn deserialize_literal_u16(&mut self) -> (r: Result<u16, Error>)
        ensures
            literal_step(old(self).state(), final(self).state(), 2, r),
            r matches Ok(v) ==> v == value_read(old(self).state(), final(self).state()),
    {
        self.read_literal_type::<u16>()?;
        let buf = self.reader.read_exact_bytes(2)?;
        proof {
            assert(buf@.take(2) =~= buf@);
        }
        match self.options.endian {
            Endian::Little => Ok(le_read_u16(buf.as_slice())),
            Endian::Big => Ok(be_read_u16(buf.as_slice())),
        }
    }

    /// Reads a 4-byte unsigned integer in the configured byte order,
    /// charged to the limit.
    pub fn deserialize_literal_u32(&mut self) -> (r: Result<u32, Error>)
        ensures
            literal_step(old(self).state(), final(self).state(), 4, r),
            r matches Ok(v) ==> v == value_read(old(self).state(), final(self).state()),
    {
        self.read_literal_type::<u32>()?;
        let buf = self.reader.read_exact_bytes(4)?;
        proof {
            assert(buf@.take(4) =~= buf@);
        }
        match self.options.endian {
            Endian::Little => Ok(le_read_u32(buf.as_slice())),
            Endian::Big => Ok(be_read_u32(buf.as_slice())),
        }
    }

    /// Reads a 8-byte unsigned integer in the configured byte order,
    /// charged to the limit.
    pub fn deserialize_literal_u64(&mut self) -> (r: Result<u64, Error>)
        ensures
            literal_step(old(self).state(), final(self).state(), 8, r),
            r matches Ok(v) ==> v == value_read(old(self).state(), final(self).state()),
    {
        self.read_literal_type::<u64>()?;
        let buf = self.reader.read_exact_bytes(8)?;
        proof {
            assert(buf@.take(8) =~= buf@);
        }
        match self.options.endian {
            Endian::Little => Ok(le_read_u64(buf.as_slice())),
            Endian::Big => Ok(be_read_u64(buf.as_slice())),
        }
    }

    /// Reads a 16-byte unsigned integer in the configured byte order,
    /// charged to the limit.
    pub fn deserialize_literal_u128(&mut self) -> (r: Result<u128, Error>)
        ensures
            literal_step(old(self).state(), final(self).state(), 16, r),
            r matches Ok(v) ==> v == value_read(old(self).state(), final(self).state()),
    {
        self.read_literal_type::<u128>()?;
        let buf = self.reader.read_exact_bytes(16)?;
        proof {
            assert(buf@.take(16) =~= buf@);
        }
        match self.options.endian {
            Endian::Little => Ok(le_read_u128(buf.as_slice())),
            Endian::Big => Ok(be_read_u128(buf.as_slice())),
        }
    }

    /// Reads a `u16` (fixed width, 2 bytes in the configured byte order).
    pub fn deserialize_u16(&mut self) -> (r: Result<u16, Error>)
        ensures
            literal_step(old(self).state(), final(self).state(), 2, r),
            r matches Ok(v) ==> v == value_read(old(self).state(), final(self).state()),
    {
        self.deserialize_literal_u16()
    }

    /// Reads an `i16` (fixed width, 2 bytes in the configured byte order,
    /// two's complement).
    pub fn deserialize_i16(&mut self) -> (r: Result<i16, Error>)
        ensures
            literal_step(old(self).state(), final(self).state(), 2, r),
            r matches Ok(v) ==>
                v == (value_read(old(self).state(), final(self).state()) as u16) as i16,
    {
        let v = self.deserialize_literal_u16()?;
        Ok(v as i16)
    }

    /// Reads a `u32` (fixed width, 4 bytes in the configured byte order).
    pub fn deserialize_u32(&mut self) -> (r: Result<u32, Error>)
        ensures
            literal_step(old(self).state(), final(self).state(), 4, r),
            r matches Ok(v) ==> v == value_read(old(self).state(), final(self).state()),
    {
        self.deserialize_literal_u32()
    }

    /// Reads an `i32` (fixed width, 4 bytes in the configured byte order,
    /// two's complement).
    pub fn deserialize_i32(&mut self) -> (r: Result<i32, Error>)
        ensures
            literal_step(old(self).state(), final(self).state(), 4, r),
            r matches Ok(v) ==>
                v == (value_read(old(self).state(), final(self).state()) as u32) as i32,
    {
        let v = self.deserialize_literal_u32()?;
        Ok(v as i32)
    }

    /// Reads a `u64` (fixed width, 8 bytes in the configured byte order).
    pub fn deserialize_u64(&mut self) -> (r: Result<u64, Error>)
        ensures
            literal_step(old(self).state(), final(self).state(), 8, r),
            r matches Ok(v) ==> v == value_read(old(self).state(), final(self).state()),
    {
        self.deserialize_literal_u64()
    }

    /// Reads an `i64` (fixed width, 8 bytes in the configured byte order,
    /// two's complement).
    pub fn deserialize_i64(&mut self) -> (r: Result<i64, Error>)
        ensures
            literal_step(old(self).state(), final(self).state(), 8, r),
            r matches Ok(v) ==>
                v == (value_read(old(self).state(), final(self).state()) as u64) as i64,
    {
        let v = self.deserialize_literal_u64()?;
        Ok(v as i64)
    }

    /// Reads a `u128` (fixed width, 16 bytes in the configured byte order).
    pub fn deserialize_u128(&mut self) -> (r: Result<u128, Error>)
        ensures
            literal_step(old(self).state(), final(self).state(), 16, r),
            r matches Ok(v) ==> v == value_read(old(self).state(), final(self).state()),
    {
        self.deserialize_literal_u128()
    }

    /// Reads an `i128` (fixed width, 16 bytes in the configured byte order,
    /// two's complement).
    pub fn deserialize_i128(&mut self) -> (r: Result<i128, Error>)
        ensures
            literal_step(old(self).state(), final(self).state(), 16, r),
            r matches Ok(v) ==>
                v == (value_read(old(self).state(), final(self).state()) as u128) as i128,
    {
        let v = self.deserialize_literal_u128()?;
        Ok(v as i128)
    }

    /// Reads a `u8`: one byte.
    pub fn deserialize_u8(&mut self) -> (r: Result<u8, Error>)
        ensures
            literal_step(old(self).state(), final(self).state(), 1, r),
            r matches Ok(v) ==> v == taken_by(old(self).state(), final(self).state())[0],
    {
        self.deserialize_byte()
    }

    /// Reads an `i8`: one byte, two's complement.
    pub fn deserialize_i8(&mut self) -> (r: Result<i8, Error>)
        ensures
            literal_step(old(self).state(), final(self).state(), 1, r),
            r matches Ok(v) ==> v == taken_by(old(self).state(), final(self).state())[0] as i8,
    {
        let v = self.deserialize_byte()?;
        Ok(v as i8)
    }

    /// Reads the bits of an `f32`: four bytes in the configured byte order.
    pub fn deserialize_f32_bits(&mut self) -> (r: Result<u32, Error>)
        ensures
            literal_step(old(self).state(), final(self).state(), 4, r),
            r matches Ok(v) ==> v == value_read(old(self).state(), final(self).state()),
    {
        self.deserialize_literal_u32()
    }

    /// Reads the bits of an `f64`: eight bytes in the configured byte order.
    pub fn deserialize_f64_bits(&mut self) -> (r: Result<u64, Error>)
        ensures
            literal_step(old(self).state(), final(self).state(), 8, r),
            r matches Ok(v) ==> v == value_read(old(self).state(), final(self).state()),
    {
        self.deserialize_literal_u64()
    }

    /// Reads a `bool`: one byte, 1 for `true` and 0 for `false`; any other
    /// byte is an `InvalidBoolEncoding` error that carries it.
    pub fn deserialize_bool(&mut self) -> (r: Result<bool, Error>)
        ensures
            ({
                let b = fresh(old(self).state().src.taken, final(self).state().src.taken);
                &&& counted_step(old(self).state(), final(self).state(), 1, raw(r, b))
                &&& raw(r, b) is Ok ==> r == bool_of(b[0])
            }),
    {
        let value = self.deserialize_byte()?;
        if value == 1 {
            Ok(true)
        } else if value == 0 {
            Ok(false)
        } else {
            Err(Box::new(ErrorKind::InvalidBoolEncoding(value)))
        }
    }

    /// Reads a length: a `u64` (8 bytes in the configured byte order) that
    /// must fit in a `usize`.
    pub fn deserialize_len(&mut self) -> (r: Result<usize, Error>)
        ensures
            ({
                let b = taken_by(old(self).state(), final(self).state());
                let n = uint_value(old(self).state().endian, b);
                &&& counted_step(old(self).state(), final(self).state(), 8, raw(r, b))
                &&& raw(r, b) is Ok ==> if n <= usize::MAX {
                    r == Ok::<usize, Error>(n as usize)
                } else {
                    is_len_overflow(r)
                }
            }),
    {
        let len = self.deserialize_u64()?;
        if len <= usize::MAX as u64 {
            Ok(len as usize)
        } else {
            let message = "invalid size: sizes must fit in a usize";
            Err(Box::new(ErrorKind::Custom(String::from_str(message))))
        }
    }

    /// Reads a length-prefixed byte string into a buffer of its own.
    pub fn read_vec(&mut self) -> (r: Result<Vec<u8>, Error>)
        ensures
            prefixed_step(old(self).state(), final(self).state(), bytes_result(r)),
    {
        let ghost s0 = self.state();
        let len = match self.deserialize_len() {
            Ok(len) => len,
            Err(e) => {
                proof {
                    if raw(Err::<usize, Error>(e), taken_by(s0, self.state())) is Ok {
                        lemma_prefix_header(s0, self.state());
                    }
                }
                return Err(e);
            },
        };
        let ghost s1 = self.state();
        proof {
            lemma_prefix_header(s0, s1);
        }
        self.read_bytes(len as u64)?;
        let r = self.reader.get_byte_buffer(len);
        proof {
            assert(self.state().src.taken =~= s1.src.taken + taken_by(s1, self.state()));
            lemma_prefix_body(s0, s1, self.state());
        }
        r
    }

    /// Reads a length-prefixed UTF-8 string; bytes that are not UTF-8 give
    /// `InvalidUtf8Encoding`, which reports where and how they fail.
    pub fn read_string(&mut self) -> (r: Result<String, Error>)
        ensures
            text_step(
                old(self).state(),
                final(self).state(),
                chars_result(r),
                |b: Seq<u8>, e: ErrorKind| is_string_error(b, e),
            ),
    {
        let vec = self.read_vec()?;
        proof {
            lemma_prefixed_body(old(self).state(), self.state(), vec@);
        }
        match string_from_utf8(vec) {
            Ok(s) => Ok(s),
            Err(e) => Err(Box::new(ErrorKind::InvalidUtf8Encoding(e))),
        }
    }

    /// Reads a length-prefixed byte string.
    pub fn deserialize_byte_buf(&mut self) -> (r: Result<Vec<u8>, Error>)
        ensures
            prefixed_step(old(self).state(), final(self).state(), bytes_result(r)),
    {
        self.read_vec()
    }

    /// Reads a length-prefixed UTF-8 string into a `String`; bytes that are
    /// not UTF-8 give `InvalidUtf8Encoding`, which reports where and how they
    /// fail.
    pub fn deserialize_string(&mut self) -> (r: Result<String, Error>)
        ensures
            text_step(
                old(self).state(),
                final(self).state(),
                chars_result(r),
                |b: Seq<u8>, e: ErrorKind| is_string_error(b, e),
            ),
    {
        self.read_string()
    }

    /// Reads a length-prefixed byte string through the source's own buffer.
    pub fn deserialize_bytes(&mut self) -> (r: Result<Vec<u8>, Error>)
        ensures
            prefixed_step(old(self).state(), final(self).state(), bytes_result(r)),
    {
        let ghost s0 = self.state();
        let len = match self.deserialize_len() {
            Ok(len) => len,
            Err(e) => {
                proof {
                    if raw(Err::<usize, Error>(e), taken_by(s0, self.state())) is Ok {
                        lemma_prefix_header(s0, self.state());
                    }
                }
                return Err(e);
            },
        };
        let ghost s1 = self.state();
        proof {
            lemma_prefix_header(s0, s1);
        }
        self.read_bytes(len as u64)?;
        let r = self.reader.forward_read_bytes(len);
        proof {
            assert(self.state().src.taken =~= s1.src.taken + taken_by(s1, self.state()));
            lemma_prefix_body(s0, s1, self.state());
        }
        r
    }

    /// Reads a length-prefixed UTF-8 string through the source's own
    /// buffer; bytes that are not UTF-8 give the source's encoding error.
    pub fn deserialize_str(&mut self) -> (r: Result<String, Error>)
        ensures
            text_step(
                old(self).state(),
                final(self).state(),
                chars_result(r),
                |b: Seq<u8>, e: ErrorKind| is_str_error(b, e),
            ),
    {
        let ghost s0 = self.state();
        let len = match self.deserialize_len() {
            Ok(len) => len,
            Err(e) => {
                proof {
                    if raw(Err::<usize, Error>(e), taken_by(s0, self.state())) is Ok {
                        lemma_prefix_header(s0, self.state());
                    }
                }
                return Err(e);
            },
        };
        let ghost s1 = self.state();
        proof {
            lemma_prefix_header(s0, s1);
        }
        self.read_bytes(len as u64)?;
        let r = self.reader.forward_read_str(len);
        proof {
            assert(self.state().src.taken =~= s1.src.taken + taken_by(s1, self.state()));
            lemma_prefix_body(s0, s1, self.state());
        }
        r
    }

    /// Reads a `char` encoded in UTF-8 (one to four bytes). The bytes are
    /// not charged to the size limit. A successful read takes exactly the
    /// UTF-8 encoding of the `char` it returns.
    pub fn deserialize_char(&mut self) -> (r: Result<char, Error>)
        ensures
            char_step(old(self).state().src, final(self).state().src, r),
            final(self).state().limit == old(self).state().limit,
            final(self).state().endian == old(self).state().endian,
            r matches Ok(c) ==> encode_scalar(c as u32) == taken_by(
                old(self).state(),
                final(self).state(),
            ),
    {
        let ghost s0 = self.state();
        let mut buf = self.reader.read_exact_bytes(1)?;
        let ghost s1 = self.state();
        let b0 = buf[0];
        let width = utf8_char_width(b0);
        proof {
            assert(taken_by(s0, s1).take(1) =~= taken_by(s0, s1));
        }
        if width == 1 {
            let c = b0 as char;
            proof {
                assert(b0 < 0x80);
                assert(encode_scalar(c as u32) =~= seq![b0]) by {
                    assert(b0 < 0x80 ==> (b0 as u32) & 0x7F == b0 as u32) by (bit_vector);
                }
                assert(taken_by(s0, s1) =~= seq![b0]);
            }
            return Ok(c);
        }
        if width == 0 {
            return Err(Box::new(ErrorKind::InvalidCharEncoding));
        }
        let mut rest = match self.reader.read_exact_bytes(width - 1) {
            Ok(v) => v,
            Err(_) => return Err(Box::new(ErrorKind::InvalidCharEncoding)),
        };
        let ghost s2 = self.state();
        buf.append(&mut rest);
        proof {
            assert(self.state().src.taken =~= s1.src.taken + taken_by(s1, self.state()));
            lemma_prefix_body(s0, s1, self.state());
            assert(buf@ =~= taken_by(s0, s2));
        }
        match str_from_utf8(buf.as_slice()) {
            Some(s) => {
                proof {
                    let f = buf@;
                    reveal_with_fuel(decode_utf8, 2);
                    assert(s@.len() > 0);
                    lemma_char_width_is_scalar_length(f);
                    decode_utf8_first_scalar(f);
                    assert(take_first_scalar(f) =~= f);
                }
                Ok(s.get_char(0))
            },
            None => Err(Box::new(ErrorKind::InvalidCharEncoding)),
        }
    }

    /// Reads the tag of an `Option`: one byte, 0 for `None` and 1 for a
    /// value that follows (`true`); any other byte is an
    /// `InvalidTagEncoding` error.
    pub fn deserialize_option_tag(&mut self) -> (r: Result<bool, Error>)
        ensures
            ({
                let b = taken_by(old(self).state(), final(self).state());
                &&& counted_step(old(self).state(), final(self).state(), 1, raw(r, b))
                &&& raw(r, b) is Ok ==> r == option_tag_of(b[0])
            }),
    {
        let value = self.deserialize_u8()?;
        if value == 0 {
            Ok(false)
        } else if value == 1 {
            Ok(true)
        } else {
            Err(Box::new(ErrorKind::InvalidTagEncoding(value as usize)))
        }
    }

    /// Reads the index of an enum variant: a `u32`.
    pub fn deserialize_variant_index(&mut self) -> (r: Result<u32, Error>)
        ensures
            literal_step(old(self).state(), final(self).state(), 4, r),
            r matches Ok(v) ==> v == value_read(old(self).state(), final(self).state()),
    {
        self.deserialize_u32()
    }

    /// The format does not describe itself: always the
    /// `DeserializeAnyNotSupported` error, and nothing is read.
    pub fn deserialize_any(&mut self) -> (r: Result<(), Error>)
        ensures
            fails_with(r, ErrorKind::DeserializeAnyNotSupported),
            final(self).state() == old(self).state(),
    {
        Err(Box::new(ErrorKind::DeserializeAnyNotSupported))
    }

    /// The format holds no identifiers: always a `Custom` error that says
    /// so, and nothing is read.
    pub fn deserialize_identifier(&mut self) -> (r: Result<(), Error>)
        ensures
            r matches Err(e) && *e matches ErrorKind::Custom(m) && m@ == identifier_message(),
            final(self).state() == old(self).state(),
    {
        let message = "Bincode does not support Deserializer::deserialize_identifier";
        Err(Box::new(ErrorKind::Custom(String::from_str(message))))
    }

    /// The format cannot skip a value of unknown shape: always a `Custom`
    /// error that says so, and nothing is read.
    pub fn deserialize_ignored_any(&mut self) -> (r: Result<(), Error>)
        ensures
            r matches Err(e) && *e matches ErrorKind::Custom(m) && m@ == ignored_any_message(),
            final(self).state() == old(self).state(),
    {
        let message = "Bincode does not support Deserializer::deserialize_ignored_any";
        Err(Box::new(ErrorKind::Custom(String::from_str(message))))
    }

    /// The format is binary.
    pub fn is_human_readable(&self) -> (b: bool)
        ensures
            !b,
    {
        false
    }
}

impl<'de> Deserializer<SliceReader<'de>> {
    /// Reads a length-prefixed UTF-8 string borrowed from the input slice;
    /// bytes that are not UTF-8 give the source's encoding error.
    pub fn deserialize_borrowed_str(&mut self) -> (r: Result<&'de str, Error>)
        ensures
            text_step(
                old(self).state(),
                final(self).state(),
                match r {
                    Ok(s) => Ok(s@),
                    Err(e) => Err(e),
                },
                |b: Seq<u8>, e: ErrorKind| is_str_error(b, e),
            ),
    {
        let ghost s0 = self.state();
        let len = match self.deserialize_len() {
            Ok(len) => len,
            Err(e) => {
                proof {
                    if raw(Err::<usize, Error>(e), taken_by(s0, self.state())) is Ok {
                        lemma_prefix_header(s0, self.state());
                    }
                }
                return Err(e);
            },
        };
        let ghost s1 = self.state();
        proof {
            lemma_prefix_header(s0, s1);
        }
        self.read_bytes(len as u64)?;
        let r = self.reader.forward_read_borrowed_str(len);
        proof {
            assert(self.state().src.taken =~= s1.src.taken + taken_by(s1, self.state()));
            lemma_prefix_body(s0, s1, self.state());
        }
        r
    }

    /// Reads a length-prefixed byte string borrowed from the input slice.
    pub fn deserialize_borrowed_bytes(&mut self) -> (r: Result<&'de [u8], Error>)
        ensures
            prefixed_step(
                old(self).state(),
                final(self).state(),
                match r {
                    Ok(b) => Ok(b@),
                    Err(e) => Err(e),
                },
            ),
    {
        let ghost s0 = self.state();
        let len = match self.deserialize_len() {
            Ok(len) => len,
            Err(e) => {
                proof {
                    if raw(Err::<usize, Error>(e), taken_by(s0, self.state())) is Ok {
                        lemma_prefix_header(s0, self.state());
                    }
                }
                return Err(e);
            },
        };
        let ghost s1 = self.state();
        proof {
            lemma_prefix_header(s0, s1);
        }
        self.read_bytes(len as u64)?;
        let r = self.reader.get_byte_slice(len);
        proof {
            assert(self.state().src.taken =~= s1.src.taken + taken_by(s1, self.state()));
            lemma_prefix_body(s0, s1, self.state());
        }
        r
    }
}

} // verus!
