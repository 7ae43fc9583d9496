use crate::error::{unexpected_eof, Error, ErrorKind, IoError, IoErrorKind};
use crate::utf8::str_from_utf8;
use vstd::prelude::*;
use vstd::slice::slice_to_vec;
use vstd::utf8::*;

verus! {

/// The bytes taken from a source between two of its states.
pub open spec fn fresh(before: Seq<u8>, after: Seq<u8>) -> Seq<u8> {
    after.skip(before.len() as int)
}

/// The fresh bytes after `b` are appended to `a` are `b`.
pub broadcast proof fn lemma_fresh_append(a: Seq<u8>, b: Seq<u8>)
    ensures
        #[trigger] fresh(a, a + b) == b,
{
    assert((a + b).skip(a.len() as int) =~= b);
}

/// Nothing is fresh between two equal states.
pub broadcast proof fn lemma_fresh_same(a: Seq<u8>)
    ensures
        #[trigger] fresh(a, a) == Seq::<u8>::empty(),
{
    assert(a.skip(a.len() as int) =~= Seq::<u8>::empty());
}

/// A read result seen through the bytes it carries.
pub open spec fn bytes_result(r: Result<Vec<u8>, Error>) -> Result<Seq<u8>, Error> {
    match r {
        Ok(v) => Ok(v@),
        Err(e) => Err(e),
    }
}

/// What a byte source has done and has left: `taken` is every byte handed
/// out so far, in order; `rest` the bytes still to come, where the source
/// knows them in advance (a slice does, a stream does not).
pub struct Source {
    pub taken: Seq<u8>,
    pub rest: Option<Seq<u8>>,
}

/// The bytes left after `n` more are taken, where they are known.
pub open spec fn after(rest: Option<Seq<u8>>, n: nat) -> Option<Seq<u8>> {
    match rest {
        Some(r) => Some(r.skip(n as int)),
        None => None,
    }
}

/// The source after `b` more bytes are taken from it.
pub open spec fn advanced(src: Source, b: Seq<u8>) -> Source {
    Source { taken: src.taken + b, rest: after(src.rest, b.len()) }
}

/// What taking `n` bytes does to a source, from `pre` to `post`. Success
/// hands out exactly `n` bytes, the next ones of the source; a failure is an
/// I/O error and leaves the source as it was. A source that knows its rest
/// fails exactly when fewer than `n` bytes are left, with `UnexpectedEof`.
pub open spec fn read_step(pre: Source, post: Source, n: nat, out: Result<Seq<u8>, Error>) -> bool {
    match out {
        Ok(b) => {
            &&& b.len() == n
            &&& post == advanced(pre, b)
            &&& pre.rest matches Some(rest) ==> n <= rest.len() && b == rest.take(n as int)
        },
        Err(e) => {
            &&& *e is Io
            &&& post == pre
            &&& pre.rest matches Some(rest) ==> n > rest.len() && *e == ErrorKind::Io(
                unexpected_eof(),
            )
        },
    }
}

/// A string result seen through the characters it carries.
pub open spec fn chars_result(r: Result<String, Error>) -> Result<Seq<char>, Error> {
    match r {
        Ok(s) => Ok(s@),
        Err(e) => Err(e),
    }
}

/// The error of a string that is not UTF-8.
pub open spec fn not_utf8_error() -> ErrorKind {
    ErrorKind::InvalidEncoding { desc: "string was not valid utf8", detail: None }
}

/// What reading a UTF-8 string of `n` bytes does: the `n` bytes are taken
/// as by [`read_step`]; the string is returned when they are UTF-8, and
/// otherwise they are gone and the error says so.
pub open spec fn str_step(pre: Source, post: Source, n: nat, r: Result<Seq<char>, Error>) -> bool {
    let b = fresh(pre.taken, post.taken);
    match r {
        Ok(s) => read_step(pre, post, n, Ok(b)) && valid_utf8(b) && s == decode_utf8(b),
        Err(e) => if *e is Io {
            read_step(pre, post, n, Err(e))
        } else {
            read_step(pre, post, n, Ok(b)) && !valid_utf8(b) && *e == not_utf8_error()
        },
    }
}

/// A source of bytes for the deserializer.
pub trait BincodeRead<'storage>: Sized {
    /// What the source has handed out and has left.
    spec fn source(&self) -> Source;

    /// Takes the next `n` bytes.
    fn read_exact_bytes(&mut self, n: usize) -> (r: Result<Vec<u8>, Error>)
        ensures
            read_step(
                old(self).source(),
                final(self).source(),
                n as nat,
                bytes_result(r),
            ),
    ;

    /// Takes the next `length` bytes as a buffer of their own.
    fn get_byte_buffer(&mut self, length: usize) -> (r: Result<Vec<u8>, Error>)
        ensures
            read_step(
                old(self).source(),
                final(self).source(),
                length as nat,
                bytes_result(r),
            ),
    ;

    /// Takes the next `length` bytes, which must be UTF-8, as a string.
    fn forward_read_str(&mut self, length: usize) -> (r: Result<String, Error>)
        ensures
            str_step(
                old(self).source(),
                final(self).source(),
                length as nat,
                chars_result(r),
            ),
    ;

    /// Takes the next `length` bytes as a byte string.
    fn forward_read_bytes(&mut self, length: usize) -> (r: Result<Vec<u8>, Error>)
        ensures
            read_step(
                old(self).source(),
                final(self).source(),
                length as nat,
                bytes_result(r),
            ),
    ;
}

/// A byte source over a slice held in memory.
pub struct SliceReader<'storage> {
    bytes: &'storage [u8],
    pos: usize,
}

impl<'storage> SliceReader<'storage> {
    #[verifier::type_invariant]
    spec fn inv(self) -> bool {
        self.pos <= self.bytes@.len()
    }

    /// Constructs a slice reader positioned at the start of `bytes`.
    pub fn new(bytes: &'storage [u8]) -> (r: SliceReader<'storage>)
        ensures
            r.source() == (Source { taken: Seq::empty(), rest: Some(bytes@) }),
    {
        let r = SliceReader { bytes, pos: 0 };
        assert(bytes@.skip(0) =~= bytes@);
        assert(bytes@.take(0) =~= Seq::<u8>::empty());
        r
    }

    /// Takes the next `n` bytes as a sub-slice of the input, without
    /// copying them.
    pub fn get_byte_slice(&mut self, n: usize) -> (r: Result<&'storage [u8], Error>)
        ensures
            read_step(
                old(self).source(),
                final(self).source(),
                n as nat,
                match r {
                    Ok(s) => Ok(s@),
                    Err(e) => Err(e),
                },
            ),
    {
        proof {
            use_type_invariant(&*self);
        }
        if n > self.bytes.len() - self.pos {
            let eof = IoError { kind: IoErrorKind::UnexpectedEof, detail: None };
            return Err(Box::new(ErrorKind::Io(eof)));
        }
        let start = self.pos;
        let out = &self.bytes[start..start + n];
        self.pos = start + n;
        proof {
            let all = self.bytes@;
            assert(all.take((start + n) as int) =~= all.take(start as int) + out@);
            assert(all.skip(start as int).take(n as int) =~= out@);
            assert(all.skip(start as int).skip(n as int) =~= all.skip((start + n) as int));
        }
        Ok(out)
    }

    /// Takes the next `length` bytes, which must be UTF-8, as a string slice
    /// borrowed from the input.
    pub fn forward_read_borrowed_str(&mut self, length: usize) -> (r: Result<&'storage str, Error>)
        ensures
            str_step(
                old(self).source(),
                final(self).source(),
                length as nat,
                match r {
                    Ok(s) => Ok(s@),
                    Err(e) => Err(e),
                },
            ),
    {
        let bytes = self.get_byte_slice(length)?;
        assert(fresh(old(self).source().taken, self.source().taken) =~= bytes@);
        match str_from_utf8(bytes) {
            Some(s) => Ok(s),
            None => Err(Box::new(
                ErrorKind::InvalidEncoding { desc: "string was not valid utf8", detail: None },
            )),
        }
    }
}

impl<'storage> BincodeRead<'storage> for SliceReader<'storage> {
    closed spec fn source(&self) -> Source {
        Source {
            taken: self.bytes@.take(self.pos as int),
            rest: Some(self.bytes@.skip(self.pos as int)),
        }
    }

    fn read_exact_bytes(&mut self, n: usize) -> (r: Result<Vec<u8>, Error>) {
        let s = self.get_byte_slice(n)?;
        Ok(slice_to_vec(s))
    }

    fn get_byte_buffer(&mut self, length: usize) -> (r: Result<Vec<u8>, Error>) {
        let s = self.get_byte_slice(length)?;
        Ok(slice_to_vec(s))
    }

    fn forward_read_str(&mut self, length: usize) -> (r: Result<String, Error>) {
        let s = self.forward_read_borrowed_str(length)?;
        Ok(s.to_owned())
    }

    fn forward_read_bytes(&mut self, length: usize) -> (r: Result<Vec<u8>, Error>) {
        let s = self.get_byte_slice(length)?;
        Ok(slice_to_vec(s))
    }
}

/// A reader that fills buffers with its next bytes, with a model of what
/// it has handed out: the role that `std::io::Read` plays for
/// [`IoReader`].
pub trait ReadExact: Sized {
    /// Every byte the reader has handed out so far, in order.
    spec fn yielded(&self) -> Seq<u8>;

    /// The bytes the reader still holds, where they are known in advance.
    spec fn upcoming(&self) -> Option<Seq<u8>>;

    /// The error of the reader's most recent failed read.
    spec fn last_error(&self) -> Option<IoError>;

    /// Fills the first `len` bytes of `buf` with the next `len` bytes of the
    /// reader, as [`read_step`] says of a source whose bytes taken are those
    /// yielded; only those bytes of `buf` change. A failure hands out
    /// nothing and is the reader's own error.
    fn read_exact_prefix(&mut self, buf: &mut Vec<u8>, len: usize) -> (r: Result<(), IoError>)
        requires
            len <= old(buf)@.len(),
        ensures
            final(buf)@.len() == old(buf)@.len(),
            final(buf)@.skip(len as int) == old(buf)@.skip(len as int),
            read_step(
                Source { taken: old(self).yielded(), rest: old(self).upcoming() },
                Source { taken: final(self).yielded(), rest: final(self).upcoming() },
                len as nat,
                match r {
                    Ok(()) => Ok(final(buf)@.take(len as int)),
                    Err(k) => Err(Box::new(ErrorKind::Io(k))),
                },
            ),
            r matches Err(k) ==> final(self).last_error() == Some(k),
    ;
}

/// A raw byte stream: fills the first `len` bytes of a buffer with its next
/// bytes, as `std::io::Read::read_exact` does; only the first `len` bytes
/// of the buffer may change. A stream that keeps a record of what it has
/// handed out and has left (its `known` source) fills the buffer with
/// exactly its next bytes, as [`read_step`] says; for any other stream what
/// the bytes are is up to the stream.
pub trait ReadBytes: Sized {
    /// What the stream has handed out and has left, for a stream that
    /// keeps such a record; `None` for one that does not.
    open spec fn known(&self) -> Option<Source> {
        None
    }

    fn read_exact_into(&mut self, buf: &mut Vec<u8>, len: usize) -> (r: Result<(), IoError>)
        requires
            len <= old(buf)@.len(),
        ensures
            final(buf)@.len() == old(buf)@.len(),
            final(buf)@.skip(len as int) == old(buf)@.skip(len as int),
            old(self).known() is None ==> final(self).known() is None,
            old(self).known() is Some ==> final(self).known() is Some && read_step(
                old(self).known()->Some_0,
                final(self).known()->Some_0,
                len as nat,
                match r {
                    Ok(()) => Ok(final(buf)@.take(len as int)),
                    Err(k) => Err(Box::new(ErrorKind::Io(k))),
                },
            ),
    ;
}

/// A raw byte stream together with the record of every byte it has handed
/// out and of its last error.
pub struct StreamReader<S> {
    stream: S,
    handed_out: Ghost<Seq<u8>>,
    failure: Ghost<Option<IoError>>,
}

impl<S> StreamReader<S> {
    /// The wrapped stream.
    pub closed spec fn stream(&self) -> S {
        self.stream
    }

    /// Every byte the stream has handed out through this reader.
    pub closed spec fn handed_out(&self) -> Seq<u8> {
        self.handed_out@
    }

    /// The error of the stream's most recent failed read through this reader.
    pub closed spec fn failure(&self) -> Option<IoError> {
        self.failure@
    }

    /// Wraps `stream`; nothing is read.
    pub fn new(stream: S) -> (r: StreamReader<S>)
        ensures
            r.stream() == stream,
            r.handed_out() == Seq::<u8>::empty(),
            r.failure() is None,
    {
        StreamReader { stream, handed_out: Ghost(Seq::empty()), failure: Ghost(None) }
    }
}

impl<S: ReadBytes> ReadExact for StreamReader<S> {
    /// What the stream has written into buffers by successful reads.
    open spec fn yielded(&self) -> Seq<u8> {
        self.handed_out()
    }

    /// What the stream still holds, where it keeps a record of it.
    open spec fn upcoming(&self) -> Option<Seq<u8>> {
        match self.stream().known() {
            Some(k) => k.rest,
            None => None,
        }
    }

    open spec fn last_error(&self) -> Option<IoError> {
        self.failure()
    }

    /// Asks the stream for exactly `len` bytes into the first `len` places
    /// of `buf`. Where the stream keeps a record, the bytes handed out are
    /// exactly those the stream records as handed out.
    fn read_exact_prefix(&mut self, buf: &mut Vec<u8>, len: usize) -> (r: Result<(), IoError>)
        ensures
            old(self).stream().known() is Some ==> final(self).stream().known() is Some && fresh(
                old(self).stream().known()->Some_0.taken,
                final(self).stream().known()->Some_0.taken,
            ) == fresh(old(self).yielded(), final(self).yielded()),
    {
        match self.stream.read_exact_into(buf, len) {
            Ok(()) => {
                let ghost before = self.handed_out@;
                proof {
                    self.handed_out@ = self.handed_out@ + buf@.take(len as int);
                    lemma_fresh_append(before, buf@.take(len as int));
                    if old(self).stream().known() is Some {
                        lemma_fresh_append(
                            old(self).stream().known()->Some_0.taken,
                            buf@.take(len as int),
                        );
                    }
                }
                Ok(())
            },
            Err(k) => {
                proof {
                    self.failure@ = Some(k);
                    lemma_fresh_same(self.handed_out@);
                    if old(self).stream().known() is Some {
                        lemma_fresh_same(old(self).stream().known()->Some_0.taken);
                    }
                }
                Err(k)
            },
        }
    }
}

impl<'storage> ReadBytes for SliceReader<'storage> {
    /// A slice knows what it has handed out and what is left.
    open spec fn known(&self) -> Option<Source> {
        Some(self.source())
    }

    /// Copies the next `len` bytes of the slice; where fewer are left,
    /// fails with `UnexpectedEof` and takes nothing.
    fn read_exact_into(&mut self, buf: &mut Vec<u8>, len: usize) -> (r: Result<(), IoError>)
        ensures
            r is Ok <==> len <= old(self).source().rest->Some_0.len(),
            r is Ok ==> final(buf)@.take(len as int) == old(self).source().rest->Some_0.take(
                len as int,
            ),
            r is Err ==> final(buf)@ == old(buf)@,
    {
        self.read_exact_prefix(buf, len)
    }
}

impl<'storage> ReadExact for SliceReader<'storage> {
    open spec fn yielded(&self) -> Seq<u8> {
        self.source().taken
    }

    open spec fn upcoming(&self) -> Option<Seq<u8>> {
        self.source().rest
    }

    /// A slice can only run out.
    open spec fn last_error(&self) -> Option<IoError> {
        Some(unexpected_eof())
    }

    /// Copies the next `len` bytes of the slice into `buf`; where fewer are
    /// left, fails with `UnexpectedEof` and takes nothing.
    fn read_exact_prefix(&mut self, buf: &mut Vec<u8>, len: usize) -> (r: Result<(), IoError>)
        ensures
            r is Ok <==> len <= old(self).source().rest->Some_0.len(),
            r is Ok ==> final(buf)@.take(len as int) == old(self).source().rest->Some_0.take(
                len as int,
            ),
            r is Err ==> final(buf)@ == old(buf)@,
    {
        let src = match self.get_byte_slice(len) {
            Ok(s) => s,
            Err(_) => return Err(IoError { kind: IoErrorKind::UnexpectedEof, detail: None }),
        };
        let mut i: usize = 0;
        while i < len
            invariant
                i <= len == src@.len(),
                len <= old(buf)@.len(),
                buf@.len() == old(buf)@.len(),
                buf@.skip(len as int) == old(buf)@.skip(len as int),
                forall|j: int| 0 <= j < i ==> buf@[j] == src@[j],
            decreases len - i,
        {
            let ghost before = buf@;
            buf.set(i, src[i]);
            assert(buf@.skip(len as int) =~= before.skip(len as int));
            i = i + 1;
        }
        assert(buf@.take(len as int) =~= src@);
        Ok(())
    }
}

/// A byte source over a reader, with a buffer reused for strings and byte
/// buffers. Every byte it hands out is one the reader yielded, in order.
pub struct IoReader<R> {
    reader: R,
    temp_buffer: Vec<u8>,
}

impl<R> IoReader<R> {
    /// The wrapped reader.
    pub closed spec fn inner(&self) -> R {
        self.reader
    }

    /// The contents of the reused buffer.
    pub closed spec fn buffer(&self) -> Seq<u8> {
        self.temp_buffer@
    }

    /// Constructs an `IoReader` around `r`, with an empty buffer; nothing
    /// is read.
    pub fn new(r: R) -> (res: IoReader<R>)
        ensures
            res.inner() == r,
            res.buffer() == Seq::<u8>::empty(),
    {
        IoReader { reader: r, temp_buffer: Vec::new() }
    }
}

impl<R: ReadExact> IoReader<R> {
    /// Fills the first `length` bytes of the reused buffer with the reader's
    /// next `length` bytes, growing the buffer first where it is shorter;
    /// the buffer never shrinks. An error is the reader's own.
    fn fill_buffer(&mut self, length: usize) -> (r: Result<(), Error>)
        ensures
            final(self).temp_buffer@.len() == if length > old(self).temp_buffer@.len() {
                length as nat
            } else {
                old(self).temp_buffer@.len()
            },
            read_step(
                old(self).source(),
                final(self).source(),
                length as nat,
                match r {
                    Ok(()) => Ok(final(self).temp_buffer@.take(length as int)),
                    Err(e) => Err(e),
                },
            ),
            r matches Err(e) ==> *e is Io && Some(e->Io_0) == final(self).inner().last_error(),
    {
        let current_length = self.temp_buffer.len();
        if length > current_length {
            self.temp_buffer.resize(length, 0u8);
        }
        match self.reader.read_exact_prefix(&mut self.temp_buffer, length) {
            Ok(()) => Ok(()),
            Err(k) => Err(Box::new(ErrorKind::Io(k))),
        }
    }

    /// Reads `length` bytes through the reused buffer and hands them out.
    fn take_buffered(&mut self, length: usize) -> (r: Result<Vec<u8>, Error>)
        ensures
            read_step(old(self).source(), final(self).source(), length as nat, bytes_result(r)),
            r matches Err(e) ==> *e is Io && Some(e->Io_0) == final(self).inner().last_error(),
    {
        self.fill_buffer(length)?;
        let v = slice_to_vec(&self.temp_buffer.as_slice()[0..length]);
        Ok(v)
    }
}

impl<R: ReadExact> BincodeRead<'static> for IoReader<R> {
    /// The bytes taken are those the reader has yielded; the rest is what
    /// the reader still holds.
    open spec fn source(&self) -> Source {
        Source { taken: self.inner().yielded(), rest: self.inner().upcoming() }
    }

    fn read_exact_bytes(&mut self, n: usize) -> (r: Result<Vec<u8>, Error>)
        ensures
            r matches Err(e) ==> *e is Io && Some(e->Io_0) == final(self).inner().last_error(),
    {
        let mut v: Vec<u8> = vec![0u8; n];
        match self.reader.read_exact_prefix(&mut v, n) {
            Ok(()) => {
                assert(v@.take(n as int) =~= v@);
                Ok(v)
            },
            Err(k) => Err(Box::new(ErrorKind::Io(k))),
        }
    }

    fn get_byte_buffer(&mut self, length: usize) -> (r: Result<Vec<u8>, Error>)
        ensures
            r matches Err(e) ==> *e is Io && Some(e->Io_0) == final(self).inner().last_error(),
    {
        self.take_buffered(length)
    }

    fn forward_read_str(&mut self, length: usize) -> (r: Result<String, Error>)
        ensures
            r matches Err(e) ==> (*e is Io ==> Some(e->Io_0) == final(self).inner().last_error()),
    {
        self.fill_buffer(length)?;
        let bytes = &self.temp_buffer.as_slice()[0..length];
        assert(fresh(old(self).source().taken, self.source().taken) =~= bytes@);
        match str_from_utf8(bytes) {
            Some(s) => Ok(s.to_owned()),
            None => Err(Box::new(
                ErrorKind::InvalidEncoding { desc: "string was not valid utf8", detail: None },
            )),
        }
    }

    fn forward_read_bytes(&mut self, length: usize) -> (r: Result<Vec<u8>, Error>)
        ensures
            r matches Err(e) ==> *e is Io && Some(e->Io_0) == final(self).inner().last_error(),
    {
        self.take_buffered(length)
    }
}

impl<R: ReadExact> ReadExact for IoReader<R> {
    open spec fn yielded(&self) -> Seq<u8> {
        self.inner().yielded()
    }

    open spec fn upcoming(&self) -> Option<Seq<u8>> {
        self.inner().upcoming()
    }

    open spec fn last_error(&self) -> Option<IoError> {
        self.inner().last_error()
    }

    /// Reads straight from the wrapped reader.
    fn read_exact_prefix(&mut self, buf: &mut Vec<u8>, len: usize) -> (r: Result<(), IoError>) {
        self.reader.read_exact_prefix(buf, len)
    }
}

} // verus!
