//! Byte-level building blocks of the frame format: little-endian integers and
//! length-prefixed UTF-8 text, each with a writer, a reader and the spec
//! functions that both are proved against.
use vstd::prelude::*;
use vstd::string::*;
use vstd::utf8::*;

verus! {

/// The four little-endian bytes of `n`.
pub open spec fn u32_bytes(n: u32) -> Seq<u8> {
    seq![(n & 0xff) as u8, ((n >> 8u32) & 0xff) as u8, ((n >> 16u32) & 0xff) as u8, ((n >> 24u32) & 0xff) as u8]
}

/// The number whose little-endian bytes open `b`.
pub open spec fn u32_of(b: Seq<u8>) -> u32
    recommends
        b.len() >= 4,
{
    (b[0] as u32) | ((b[1] as u32) << 8u32) | ((b[2] as u32) << 16u32) | ((b[3] as u32) << 24u32)
}

/// A piece of text on the wire: its UTF-8 byte length, then its UTF-8 bytes.
pub open spec fn text_bytes(s: Seq<char>) -> Seq<u8> {
    u32_bytes(encode_utf8(s).len() as u32) + encode_utf8(s)
}

/// A list of texts without its count: the texts one after the other.
pub open spec fn texts_bytes(xs: Seq<Seq<char>>) -> Seq<u8>
    decreases xs.len(),
{
    if xs.len() == 0 {
        Seq::empty()
    } else {
        texts_bytes(xs.drop_last()) + text_bytes(xs.last())
    }
}

/// A list of texts on the wire: the count, then the texts.
pub open spec fn text_list_bytes(xs: Seq<Seq<char>>) -> Seq<u8> {
    u32_bytes(xs.len() as u32) + texts_bytes(xs)
}

/// A text fits the frame format when its UTF-8 length fits in a `u32`.
pub open spec fn text_fits(s: Seq<char>) -> bool {
    encode_utf8(s).len() <= u32::MAX
}

pub open spec fn texts_fit(xs: Seq<Seq<char>>) -> bool {
    xs.len() <= u32::MAX && forall|i: int| 0 <= i < xs.len() ==> text_fits(#[trigger] xs[i])
}

/// Reads a `u32` off the front of `b`, handing back the rest.
pub open spec fn take_u32(b: Seq<u8>) -> Option<(u32, Seq<u8>)> {
    if b.len() < 4 {
        None
    } else {
        Some((u32_of(b), b.skip(4)))
    }
}

/// Reads a text off the front of `b`, handing back the rest.
pub open spec fn take_text(b: Seq<u8>) -> Option<(Seq<char>, Seq<u8>)> {
    match take_u32(b) {
        None => None,
        Some((n, rest)) => if rest.len() < n || !valid_utf8(rest.take(n as int)) {
            None
        } else {
            Some((decode_utf8(rest.take(n as int)), rest.skip(n as int)))
        },
    }
}

/// Reads `count` texts off the front of `b`, handing back the rest.
pub open spec fn take_texts(b: Seq<u8>, count: nat) -> Option<(Seq<Seq<char>>, Seq<u8>)>
    decreases count,
{
    if count == 0 {
        Some((Seq::empty(), b))
    } else {
        match take_texts(b, (count - 1) as nat) {
            None => None,
            Some((xs, rest)) => match take_text(rest) {
                None => None,
                Some((x, rest2)) => Some((xs.push(x), rest2)),
            },
        }
    }
}

/// Reads a counted list of texts off the front of `b`, handing back the rest.
pub open spec fn take_text_list(b: Seq<u8>) -> Option<(Seq<Seq<char>>, Seq<u8>)> {
    match take_u32(b) {
        None => None,
        Some((n, rest)) => take_texts(rest, n as nat),
    }
}

pub proof fn lemma_u32_round_trip(n: u32, rest: Seq<u8>)
    ensures
        take_u32(u32_bytes(n) + rest) == Some((n, rest)),
{
    let b = u32_bytes(n) + rest;
    assert(b.skip(4) =~= rest);
    let b0 = (n & 0xff) as u8;
    let b1 = ((n >> 8u32) & 0xff) as u8;
    let b2 = ((n >> 16u32) & 0xff) as u8;
    let b3 = ((n >> 24u32) & 0xff) as u8;
    assert((b0 as u32) | ((b1 as u32) << 8u32) | ((b2 as u32) << 16u32) | ((b3 as u32) << 24u32) == n)
        by (bit_vector)
        requires
            b0 == (n & 0xff) as u8,
            b1 == ((n >> 8u32) & 0xff) as u8,
            b2 == ((n >> 16u32) & 0xff) as u8,
            b3 == ((n >> 24u32) & 0xff) as u8,
    ;
}

pub proof fn lemma_text_round_trip(s: Seq<char>, rest: Seq<u8>)
    requires
        text_fits(s),
    ensures
        take_text(text_bytes(s) + rest) == Some((s, rest)),
{
    let e = encode_utf8(s);
    encode_utf8_valid_utf8(s);
    encode_utf8_decode_utf8(s);
    lemma_u32_round_trip(e.len() as u32, e + rest);
    assert(text_bytes(s) + rest =~= u32_bytes(e.len() as u32) + (e + rest));
    assert((e + rest).take(e.len() as int) =~= e);
    assert((e + rest).skip(e.len() as int) =~= rest);
}

pub proof fn lemma_texts_round_trip(xs: Seq<Seq<char>>, rest: Seq<u8>)
    requires
        forall|i: int| 0 <= i < xs.len() ==> text_fits(#[trigger] xs[i]),
    ensures
        take_texts(texts_bytes(xs) + rest, xs.len()) == Some((xs, rest)),
    decreases xs.len(),
{
    if xs.len() > 0 {
        let init = xs.drop_last();
        let tail = text_bytes(xs.last()) + rest;
        assert forall|i: int| 0 <= i < init.len() implies text_fits(#[trigger] init[i]) by {
            assert(init[i] == xs[i]);
        }
        lemma_texts_round_trip(init, tail);
        assert(texts_bytes(xs) + rest =~= texts_bytes(init) + tail);
        assert(text_fits(xs[xs.len() - 1]));
        lemma_text_round_trip(xs.last(), rest);
        assert(init.push(xs.last()) =~= xs);
    } else {
        assert(texts_bytes(xs) + rest =~= rest);
        assert(xs =~= Seq::<Seq<char>>::empty());
    }
}

pub proof fn lemma_text_list_round_trip(xs: Seq<Seq<char>>, rest: Seq<u8>)
    requires
        texts_fit(xs),
    ensures
        take_text_list(text_list_bytes(xs) + rest) == Some((xs, rest)),
{
    lemma_u32_round_trip(xs.len() as u32, texts_bytes(xs) + rest);
    assert(text_list_bytes(xs) + rest =~= u32_bytes(xs.len() as u32) + (texts_bytes(xs) + rest));
    lemma_texts_round_trip(xs, rest);
}

pub proof fn lemma_u32_taken(b: Seq<u8>)
    requires
        take_u32(b) is Some,
    ensures
        b == u32_bytes(take_u32(b)->Some_0.0) + take_u32(b)->Some_0.1,
{
    let n = u32_of(b);
    let (b0, b1, b2, b3) = (b[0], b[1], b[2], b[3]);
    assert(n == (b0 as u32) | ((b1 as u32) << 8u32) | ((b2 as u32) << 16u32) | ((b3 as u32) << 24u32));
    assert((n & 0xff) as u8 == b0 && ((n >> 8u32) & 0xff) as u8 == b1 && ((n >> 16u32) & 0xff) as u8
        == b2 && ((n >> 24u32) & 0xff) as u8 == b3) by (bit_vector)
        requires
            n == (b0 as u32) | ((b1 as u32) << 8u32) | ((b2 as u32) << 16u32) | ((b3 as u32) << 24u32),
    ;
    assert(b =~= u32_bytes(n) + b.skip(4));
}

pub proof fn lemma_text_taken(b: Seq<u8>)
    requires
        take_text(b) is Some,
    ensures
        b == text_bytes(take_text(b)->Some_0.0) + take_text(b)->Some_0.1,
        text_fits(take_text(b)->Some_0.0),
{
    let (n, rest) = take_u32(b)->Some_0;
    lemma_u32_taken(b);
    let x = rest.take(n as int);
    decode_utf8_encode_utf8(x);
    assert(encode_utf8(decode_utf8(x)) == x);
    assert(b =~= u32_bytes(n) + x + rest.skip(n as int));
}

pub proof fn lemma_texts_taken(b: Seq<u8>, count: nat)
    requires
        take_texts(b, count) is Some,
    ensures
        b == texts_bytes(take_texts(b, count)->Some_0.0) + take_texts(b, count)->Some_0.1,
        take_texts(b, count)->Some_0.0.len() == count,
        forall|i: int| 0 <= i < count ==> text_fits(#[trigger] take_texts(b, count)->Some_0.0[i]),
    decreases count,
{
    if count > 0 {
        let (xs, rest) = take_texts(b, (count - 1) as nat)->Some_0;
        lemma_texts_taken(b, (count - 1) as nat);
        lemma_text_taken(rest);
        let (x, rest2) = take_text(rest)->Some_0;
        let ys = xs.push(x);
        assert(ys.drop_last() =~= xs);
        assert(b =~= texts_bytes(ys) + rest2);
        assert forall|i: int| 0 <= i < count implies text_fits(#[trigger] ys[i]) by {
            if i < count - 1 {
                assert(ys[i] == xs[i]);
            }
        }
    } else {
        assert(b =~= texts_bytes(Seq::empty()) + b);
    }
}

pub proof fn lemma_text_list_taken(b: Seq<u8>)
    requires
        take_text_list(b) is Some,
    ensures
        b == text_list_bytes(take_text_list(b)->Some_0.0) + take_text_list(b)->Some_0.1,
        texts_fit(take_text_list(b)->Some_0.0),
{
    let (n, rest) = take_u32(b)->Some_0;
    lemma_u32_taken(b);
    lemma_texts_taken(rest, n as nat);
    let (xs, rest2) = take_texts(rest, n as nat)->Some_0;
    assert(b =~= u32_bytes(xs.len() as u32) + texts_bytes(xs) + rest2);
}

/// Relies on `String::from_utf8`: it accepts exactly the byte strings that are
/// valid UTF-8, and the text it returns is the one those bytes encode.
#[verifier::external_body]
fn utf8_text(bytes: Vec<u8>) -> (r: Option<String>)
    ensures
        r is Some <==> valid_utf8(bytes@),
        r matches Some(s) ==> s@ == decode_utf8(bytes@),
{
    String::from_utf8(bytes).ok()
}

/// Whether a text fits the frame format.
pub fn text_fits_exec(s: &String) -> (r: bool)
    ensures
        r == text_fits(s@),
{
    let b: &[u8] = s.as_str().as_bytes();
    b.len() as u64 <= u32::MAX as u64
}

pub fn write_u32(out: &mut Vec<u8>, n: u32)
    ensures
        final(out)@ == old(out)@ + u32_bytes(n),
{
    out.push((n & 0xff) as u8);
    out.push(((n >> 8u32) & 0xff) as u8);
    out.push(((n >> 16u32) & 0xff) as u8);
    out.push(((n >> 24u32) & 0xff) as u8);
    assert(final(out)@ =~= old(out)@ + u32_bytes(n));
}

pub fn write_text(out: &mut Vec<u8>, s: &String)
    requires
        text_fits(s@),
    ensures
        final(out)@ == old(out)@ + text_bytes(s@),
{
    let b: &[u8] = s.as_str().as_bytes();
    proof {
        assert(b@ == encode_utf8(s@));
    }
    write_u32(out, b.len() as u32);
    let ghost start = out@;
    let mut i: usize = 0;
    while i < b.len()
        invariant
            i <= b@.len(),
            out@ == start + b@.take(i as int),
        decreases b@.len() - i,
    {
        out.push(b[i]);
        i = i + 1;
        assert(out@ =~= start + b@.take(i as int));
    }
    assert(b@.take(b@.len() as int) =~= b@);
    assert(out@ =~= old(out)@ + text_bytes(s@));
}

pub fn write_text_list(out: &mut Vec<u8>, xs: &Vec<String>)
    requires
        texts_fit(xs@.map_values(|s: String| s@)),
    ensures
        final(out)@ == old(out)@ + text_list_bytes(xs@.map_values(|s: String| s@)),
{
    let ghost v = xs@.map_values(|s: String| s@);
    write_u32(out, xs.len() as u32);
    let ghost start = out@;
    let mut i: usize = 0;
    while i < xs.len()
        invariant
            i <= xs@.len(),
            v == xs@.map_values(|s: String| s@),
            texts_fit(v),
            out@ == start + texts_bytes(v.take(i as int)),
        decreases xs@.len() - i,
    {
        assert(text_fits(v[i as int]));
        write_text(out, &xs[i]);
        assert(v.take(i + 1).drop_last() =~= v.take(i as int));
        i = i + 1;
        assert(out@ =~= start + texts_bytes(v.take(i as int)));
    }
    assert(v.take(xs@.len() as int) =~= v);
}

/// Reads a `u32` at `pos`; `None` when fewer than four bytes remain.
pub fn read_u32(b: &[u8], pos: usize) -> (r: Option<(u32, usize)>)
    requires
        pos <= b@.len(),
    ensures
        r is None <==> take_u32(b@.skip(pos as int)) is None,
        r matches Some((n, p)) ==> pos <= p <= b@.len() && take_u32(b@.skip(pos as int)) == Some(
            (n, b@.skip(p as int)),
        ),
{
    if b.len() - pos < 4 {
        return None;
    }
    let n: u32 = (b[pos] as u32) | ((b[pos + 1] as u32) << 8u32) | ((b[pos + 2] as u32) << 16u32)
        | ((b[pos + 3] as u32) << 24u32);
    assert(b@.skip(pos as int).skip(4) =~= b@.skip(pos + 4));
    Some((n, pos + 4))
}

/// Reads a text at `pos`; `None` when the bytes there are no text.
pub fn read_text(b: &[u8], pos: usize) -> (r: Option<(String, usize)>)
    requires
        pos <= b@.len(),
    ensures
        r is None <==> take_text(b@.skip(pos as int)) is None,
        r matches Some((s, p)) ==> pos <= p <= b@.len() && take_text(b@.skip(pos as int)) == Some(
            (s@, b@.skip(p as int)),
        ),
{
    let (n, p) = match read_u32(b, pos) {
        None => return None,
        Some(x) => x,
    };
    let ghost rest = b@.skip(p as int);
    if b.len() - p < n as usize {
        return None;
    }
    let end: usize = p + n as usize;
    let mut bytes: Vec<u8> = Vec::new();
    let mut i: usize = p;
    while i < end
        invariant
            p <= i <= end <= b@.len(),
            bytes@ == b@.subrange(p as int, i as int),
        decreases end - i,
    {
        bytes.push(b[i]);
        i = i + 1;
        assert(bytes@ =~= b@.subrange(p as int, i as int));
    }
    assert(rest.take(n as int) =~= bytes@);
    assert(rest.skip(n as int) =~= b@.skip(end as int));
    match utf8_text(bytes) {
        None => None,
        Some(s) => Some((s, end)),
    }
}

/// Reads a counted list of texts at `pos`.
pub fn read_text_list(b: &[u8], pos: usize) -> (r: Option<(Vec<String>, usize)>)
    requires
        pos <= b@.len(),
    ensures
        r is None <==> take_text_list(b@.skip(pos as int)) is None,
        r matches Some((xs, p)) ==> pos <= p <= b@.len() && take_text_list(b@.skip(pos as int))
            == Some((xs@.map_values(|s: String| s@), b@.skip(p as int))),
{
    let (n, p0) = match read_u32(b, pos) {
        None => return None,
        Some(x) => x,
    };
    let ghost rest = b@.skip(p0 as int);
    let mut xs: Vec<String> = Vec::new();
    let mut p: usize = p0;
    let mut k: u32 = 0;
    while k < n
        invariant
            k <= n,
            p0 <= p <= b@.len(),
            rest == b@.skip(p0 as int),
            take_u32(b@.skip(pos as int)) == Some((n, rest)),
            take_texts(rest, k as nat) == Some((xs@.map_values(|s: String| s@), b@.skip(p as int))),
        decreases n - k,
    {
        match read_text(b, p) {
            None => {
                proof {
                    assert(take_texts(rest, (k + 1) as nat) is None);
                    lemma_texts_none_grows(rest, (k + 1) as nat, n as nat);
                    assert(take_u32(b@.skip(pos as int)) == Some((n, rest)));
                    assert(take_text_list(b@.skip(pos as int)) == take_texts(rest, n as nat));
                }
                return None;
            },
            Some((s, p2)) => {
                xs.push(s);
                p = p2;
                k = k + 1;
                assert(xs@.map_values(|s: String| s@) =~= texts_view_pushed(xs@));
            },
        }
    }
    Some((xs, p))
}

spec fn texts_view_pushed(xs: Seq<String>) -> Seq<Seq<char>>
    recommends
        xs.len() > 0,
{
    xs.drop_last().map_values(|s: String| s@).push(xs.last()@)
}

proof fn lemma_texts_none_grows(b: Seq<u8>, k: nat, n: nat)
    requires
        take_texts(b, k) is None,
        k <= n,
    ensures
        take_texts(b, n) is None,
    decreases n - k,
{
    if k < n {
        lemma_texts_none_grows(b, k + 1, n);
    }
}

} // verus!
