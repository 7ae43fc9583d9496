use super::read::{fresh, read_step, Source};
use super::{char_step, count_off, counted_step, prefixed_step, taken_by, text_step, DeState};
use crate::bytes::{byte_range, lemma_uint_round_trip, uint_bytes, uint_value};
use crate::config::SizeLimit;
use crate::error::{Error, ErrorKind};
use vstd::prelude::*;
use vstd::utf8::*;

verus! {

/// Whether a source that knows its rest still holds the same input: the
/// bytes taken so far followed by those left are the same before and after.
pub open spec fn same_input(pre: Source, post: Source) -> bool {
    pre.rest matches Some(r0) ==> (post.rest matches Some(r1) && post.taken + r1 == pre.taken + r0)
}

/// Whether `post` has taken what `pre` had taken, and possibly more after it.
pub open spec fn extends(pre: Source, post: Source) -> bool {
    post.taken.len() >= pre.taken.len() && post.taken.take(pre.taken.len() as int) == pre.taken
}

/// How much of a bounded limit was used between two states.
pub open spec fn used(pre: SizeLimit, post: SizeLimit) -> int {
    match (pre, post) {
        (SizeLimit::Bounded(a), SizeLimit::Bounded(b)) => a - b,
        _ => 0,
    }
}

/// A read of `n` bytes takes bytes in order: what was taken stays taken,
/// and from an input known in advance the bytes taken and the bytes left
/// always make up that same input.
pub proof fn law_read_keeps_input(pre: Source, post: Source, n: nat, out: Result<Seq<u8>, Error>)
    requires
        read_step(pre, post, n, out),
    ensures
        extends(pre, post),
        same_input(pre, post),
{
    assert(pre.taken.take(pre.taken.len() as int) =~= pre.taken);
    if let Ok(b) = out {
        assert(post.taken.take(pre.taken.len() as int) =~= pre.taken);
        if let Some(r0) = pre.rest {
            assert(post.taken + r0.skip(n as int) =~= pre.taken + r0);
        }
    }
}

/// From an input known in advance, a read of `n` bytes fails exactly when
/// fewer than `n` are left.
pub proof fn law_known_input_reads(pre: Source, post: Source, n: nat, out: Result<Seq<u8>, Error>)
    requires
        read_step(pre, post, n, out),
        pre.rest is Some,
    ensures
        out is Ok <==> n <= pre.rest->Some_0.len(),
        out matches Ok(b) ==> b == pre.rest->Some_0.take(n as int),
{
}

/// Every read charged to a bounded limit charges exactly the bytes it
/// takes: a successful read of `n` bytes uses `n` of the limit; a read the
/// limit has no room for uses none and takes none.
pub proof fn law_counted_read_charges_what_it_takes(
    pre: DeState,
    post: DeState,
    n: nat,
    out: Result<Seq<u8>, Error>,
)
    requires
        counted_step(pre, post, n, out),
        pre.limit is Bounded,
    ensures
        post.limit is Bounded,
        out is Ok ==> used(pre.limit, post.limit) == taken_by(pre, post).len() == n,
        !pre.limit.allows(n) ==> used(pre.limit, post.limit) == 0 && taken_by(pre, post).len() == 0,
        used(pre.limit, post.limit) >= 0,
{
    if out is Ok {
        assert(taken_by(pre, post) =~= out->Ok_0);
    } else {
        assert(taken_by(pre, post) =~= Seq::<u8>::empty());
    }
}

/// A successful length-prefixed read charges a bounded limit exactly the
/// bytes it takes: the 8 of the length and the length itself.
pub proof fn law_prefixed_read_charges_what_it_takes(pre: DeState, post: DeState, b: Seq<u8>)
    requires
        prefixed_step(pre, post, Ok(b)),
        pre.limit is Bounded,
    ensures
        post.limit is Bounded,
        used(pre.limit, post.limit) == taken_by(pre, post).len() == 8 + b.len(),
{
    super::lemma_prefixed_body(pre, post, b);
}

/// A length-prefixed read takes bytes in order and, from an input known in
/// advance, keeps the input whole.
pub proof fn law_prefixed_read_keeps_input(pre: DeState, post: DeState, out: Result<Seq<u8>, Error>)
    requires
        prefixed_step(pre, post, out),
    ensures
        extends(pre.src, post.src),
        same_input(pre.src, post.src),
{
    let f = taken_by(pre, post);
    let h = f.take(8);
    let mid = DeState {
        endian: pre.endian,
        limit: pre.limit.charged(8),
        src: super::read::advanced(pre.src, h),
    };
    let n = super::uint_value(pre.endian, h);
    assert(pre.src.taken.take(pre.src.taken.len() as int) =~= pre.src.taken);
    if !pre.limit.allows(8) || f.len() < 8 {
        if pre.limit.allows(8) {
            law_read_keeps_input(pre.src, post.src, 8, out);
        }
    } else if n > usize::MAX {
        law_read_keeps_input(pre.src, mid.src, 8, Ok(h));
    } else {
        law_read_keeps_input(pre.src, mid.src, 8, Ok(h));
        if mid.limit.allows(n) {
            law_read_keeps_input(mid.src, post.src, n, out);
            assert(post.src.taken.take(pre.src.taken.len() as int) =~= pre.src.taken);
        } else {
        }
    }
}

/// A string read gives back exactly what its bytes encode: re-encoding the
/// returned characters as UTF-8 yields the bytes taken after the length.
pub proof fn law_text_read_round_trips(
    pre: DeState,
    post: DeState,
    s: Seq<char>,
    bad: spec_fn(Seq<u8>, ErrorKind) -> bool,
)
    requires
        text_step(pre, post, Ok(s), bad),
    ensures
        encode_utf8(s) == taken_by(pre, post).skip(8),
{
    decode_utf8_encode_utf8(taken_by(pre, post).skip(8));
}

/// A `char` read takes bytes in order and, from an input known in advance,
/// keeps the input whole; a successful one takes between one and four bytes.
pub proof fn law_char_read_keeps_input(pre: Source, post: Source, r: Result<char, Error>)
    requires
        char_step(pre, post, r),
    ensures
        extends(pre, post),
        same_input(pre, post),
        r is Ok ==> 1 <= fresh(pre.taken, post.taken).len() <= 4,
{
    let f = fresh(pre.taken, post.taken);
    let mid = super::read::advanced(pre, f.take(1));
    if f.len() == 0 {
        if let Err(e) = r {
            law_read_keeps_input(pre, post, 1, Err(e));
        }
    } else {
        law_read_keeps_input(pre, mid, 1, Ok(f.take(1)));
        let w = crate::utf8::char_width(f[0]);
        if w >= 2 && f.len() != 1 {
            law_read_keeps_input(mid, post, (w - 1) as nat, Ok(f.skip(1)));
            assert(post.taken.take(pre.taken.len() as int) =~= pre.taken);
        }
    }
}

/// What is left to count after `k` elements are asked for, starting from
/// `len`.
pub open spec fn count_off_times(len: nat, k: nat) -> nat
    decreases k,
{
    if k == 0 {
        len
    } else {
        count_off(count_off_times(len, (k - 1) as nat))
    }
}

/// An access for `len` elements answers "another follows" to exactly the
/// first `len` requests and "none" to every later one: after `k` requests
/// `len - k` are left (none once `k` reaches `len`), and request `k + 1`
/// finds one exactly when `k < len`.
pub proof fn law_access_yields_len(len: nat, k: nat)
    ensures
        count_off_times(len, k) == if k <= len {
            (len - k) as nat
        } else {
            0nat
        },
        (count_off_times(len, k) > 0) <==> k < len,
    decreases k,
{
    if k > 0 {
        law_access_yields_len(len, (k - 1) as nat);
    }
}

/// A bounded limit with `rem` bytes left admits a charge of `n` bytes
/// exactly when `n <= rem`, and then `rem - n` are left; an infinite limit
/// admits every charge and stays infinite.
pub proof fn law_limit_admits_what_fits(rem: u64, n: nat)
    ensures
        SizeLimit::Bounded(rem).allows(n) <==> n <= rem,
        n <= rem ==> SizeLimit::Bounded(rem).charged(n) == SizeLimit::Bounded((rem - n) as u64),
        SizeLimit::Infinite.allows(n),
        SizeLimit::Infinite.charged(n) == SizeLimit::Infinite,
{
}

/// Charging `a` bytes and then `b` bytes is charging `a + b` bytes: both
/// charges are admitted exactly when the sum is, and they leave the same
/// limit.
pub proof fn law_charges_add_up(limit: SizeLimit, a: nat, b: nat)
    ensures
        (limit.allows(a) && limit.charged(a).allows(b)) <==> limit.allows(a + b),
        limit.allows(a + b) ==> limit.charged(a).charged(b) == limit.charged(a + b),
{
}

/// Two successful reads in a row from a source that knows its input take
/// the input's next bytes in order: together they take exactly the first
/// `n1 + n2` bytes, and what is left is the rest.
pub proof fn law_consecutive_reads_concatenate(
    s0: Source,
    s1: Source,
    s2: Source,
    n1: nat,
    n2: nat,
    b1: Seq<u8>,
    b2: Seq<u8>,
)
    requires
        read_step(s0, s1, n1, Ok(b1)),
        read_step(s1, s2, n2, Ok(b2)),
        s0.rest is Some,
    ensures
        b1 + b2 == s0.rest->Some_0.take((n1 + n2) as int),
        s2.rest == Some(s0.rest->Some_0.skip((n1 + n2) as int)),
        s2.taken == s0.taken + b1 + b2,
{
    let input = s0.rest->Some_0;
    assert(input.skip(n1 as int).take(n2 as int) =~= input.subrange(n1 as int, (n1 + n2) as int));
    assert(b1 + b2 =~= input.take((n1 + n2) as int));
    assert(input.skip(n1 as int).skip(n2 as int) =~= input.skip((n1 + n2) as int));
}

/// Reading a length-prefixed string from an input that is known in
/// advance, with no size limit: where the input is an 8-byte length in the
/// configured byte order, that many bytes of well-formed UTF-8, and then
/// anything, the read returns exactly the characters those bytes encode,
/// takes the length and the bytes, and leaves the rest.
pub proof fn law_known_text_read(
    pre: DeState,
    post: DeState,
    r: Result<Seq<char>, Error>,
    bad: spec_fn(Seq<u8>, ErrorKind) -> bool,
    body: Seq<u8>,
    tail: Seq<u8>,
)
    requires
        text_step(pre, post, r, bad),
        pre.limit is Infinite,
        body.len() <= usize::MAX,
        pre.src.rest == Some(uint_bytes(pre.endian, body.len(), 8) + body + tail),
        valid_utf8(body),
    ensures
        r == Ok::<Seq<char>, Error>(decode_utf8(body)),
        post.src.rest == Some(tail),
        taken_by(pre, post) == uint_bytes(pre.endian, body.len(), 8) + body,
{
    let header = uint_bytes(pre.endian, body.len(), 8);
    let input = header + body + tail;
    assert(byte_range(8) == 0x1_0000_0000_0000_0000) by {
        reveal_with_fuel(byte_range, 9);
    }
    lemma_uint_round_trip(pre.endian, body.len(), 8, header);
    assert(input.take(8) =~= header);
    assert(input.skip(8) =~= body + tail);
    assert((body + tail).take(body.len() as int) =~= body);
    assert((body + tail).skip(body.len() as int) =~= tail);
    let f = taken_by(pre, post);
    let h = f.take(8);
    let mid = DeState {
        endian: pre.endian,
        limit: pre.limit.charged(8),
        src: super::read::advanced(pre.src, h),
    };
    let out = super::text_raw(r, f.skip(8));
    if f.len() < 8 {
        assert(false);
    } else {
        assert(h == header);
        assert(uint_value(pre.endian, h) == body.len());
        assert(mid.src.rest == Some(body + tail));
        if let Ok(b) = out {
            super::lemma_prefixed_body(pre, post, b);
            assert(b == body);
            assert(post.src.taken == pre.src.taken + header + body);
            assert(f =~= header + body);
        } else {
            assert(false);
        }
    }
}

} // verus!
