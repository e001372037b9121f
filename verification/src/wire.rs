//! The payload of a frame: how the fields of a message are laid out as
//! bytes, and how they are read back.
//!
//! Integers are fixed-width and little-endian. A text is its length in bytes
//! as a 64-bit integer followed by its UTF-8 bytes; a list is its length as a
//! 64-bit integer followed by its items; a track identifier is a byte string
//! of length 16, most significant byte first; the variants of a message are
//! numbered by a 32-bit integer in front of their fields.
//!
//! This is the layout that `bincode` gives the same fields in the same order
//! with fixed-width little-endian integers, so that a peer may use either.

use crate::bytes::{
    be_bytes, be_value, get_be, get_le, le_bytes, le_value, lemma_be_round_trip,
    lemma_be_value_bound, lemma_le_round_trip, lemma_le_value_bound, lemma_limits, limit, put_be,
    put_le,
};
use crate::bytes::copy_range;
use crate::track::strings_view;
use vstd::prelude::*;
use vstd::string::StringSliceAdditionalSpecFns;
use vstd::utf8::{decode_utf8, encode_utf8, valid_utf8};

verus! {

/// What reading one value from the head of some bytes yields: the value and
/// the bytes after it, or nothing where the bytes do not start with a value.
pub type Parsed<V> = Option<(V, Seq<u8>)>;

/// An integer of `width` bytes at the head of `b`.
pub open spec fn de_uint(b: Seq<u8>, width: nat) -> Parsed<nat> {
    if b.len() >= width {
        Some((le_value(b.subrange(0, width as int)), b.skip(width as int)))
    } else {
        None
    }
}

/// Reading back an integer that was written in front of `tail`.
pub proof fn lemma_uint_round_trip(n: nat, width: nat, tail: Seq<u8>)
    requires
        n < limit(width),
    ensures
        de_uint(le_bytes(n, width) + tail, width) == Some((n, tail)),
{
    lemma_le_round_trip(n, width);
    let b = le_bytes(n, width) + tail;
    assert(b.subrange(0, width as int) =~= le_bytes(n, width));
    assert(b.skip(width as int) =~= tail);
}

/// The two bytes of a sample.
pub open spec fn ser_i16(x: i16) -> Seq<u8> {
    le_bytes(
        (if x < 0 {
            x + 0x1_0000
        } else {
            x as int
        }) as nat,
        2,
    )
}

/// A sample at the head of `b`.
pub open spec fn de_i16(b: Seq<u8>) -> Parsed<i16> {
    match de_uint(b, 2) {
        Some((v, rest)) => Some(
            (
                (if v >= 0x8000 {
                    v - 0x1_0000
                } else {
                    v as int
                }) as i16,
                rest,
            ),
        ),
        None => None,
    }
}

/// Reading back a sample that was written in front of `tail`.
pub proof fn lemma_i16_round_trip(x: i16, tail: Seq<u8>)
    ensures
        de_i16(ser_i16(x) + tail) == Some((x, tail)),
{
    lemma_limits();
    lemma_uint_round_trip((if x < 0 {
        x + 0x1_0000
    } else {
        x as int
    }) as nat, 2, tail);
}

/// The bytes of a track identifier.
pub open spec fn ser_id(id: u128) -> Seq<u8> {
    le_bytes(16, 8) + be_bytes(id as nat, 16)
}

/// A track identifier at the head of `b`.
pub open spec fn de_id(b: Seq<u8>) -> Parsed<u128> {
    match de_uint(b, 8) {
        Some((n, rest)) => if n == 16 && rest.len() >= 16 {
            Some((be_value(rest.subrange(0, 16)) as u128, rest.skip(16)))
        } else {
            None
        },
        None => None,
    }
}

/// Reading back a track identifier that was written in front of `tail`.
pub proof fn lemma_id_round_trip(id: u128, tail: Seq<u8>)
    ensures
        de_id(ser_id(id) + tail) == Some((id, tail)),
{
    lemma_limits();
    let body = be_bytes(id as nat, 16);
    lemma_be_round_trip(id as nat, 16);
    lemma_uint_round_trip(16, 8, body + tail);
    assert(ser_id(id) + tail =~= le_bytes(16, 8) + (body + tail));
    assert((body + tail).subrange(0, 16) =~= body);
    assert((body + tail).skip(16) =~= tail);
}

/// The bytes of a text.
pub open spec fn ser_str(s: Seq<char>) -> Seq<u8> {
    le_bytes(encode_utf8(s).len(), 8) + encode_utf8(s)
}

/// A text at the head of `b`.
pub open spec fn de_str(b: Seq<u8>) -> Parsed<Seq<char>> {
    match de_uint(b, 8) {
        Some((n, rest)) => if rest.len() >= n && valid_utf8(rest.subrange(0, n as int)) {
            Some((decode_utf8(rest.subrange(0, n as int)), rest.skip(n as int)))
        } else {
            None
        },
        None => None,
    }
}

/// Whether the length of `s` in bytes can be written as a 64-bit integer.
pub open spec fn str_fits(s: Seq<char>) -> bool {
    encode_utf8(s).len() < limit(8)
}

/// Reading back a text that was written in front of `tail`.
pub proof fn lemma_str_round_trip(s: Seq<char>, tail: Seq<u8>)
    requires
        str_fits(s),
    ensures
        de_str(ser_str(s) + tail) == Some((s, tail)),
{
    let body = encode_utf8(s);
    vstd::utf8::encode_utf8_valid_utf8(s);
    vstd::utf8::encode_utf8_decode_utf8(s);
    lemma_uint_round_trip(body.len(), 8, body + tail);
    assert(ser_str(s) + tail =~= le_bytes(body.len(), 8) + (body + tail));
    assert((body + tail).subrange(0, body.len() as int) =~= body);
    assert((body + tail).skip(body.len() as int) =~= tail);
}

/// Makes a `String` of `bytes` with `String::from_utf8`: succeeds exactly on
/// valid UTF-8, and the string then holds the characters that the bytes
/// encode.
#[verifier::external_body]
fn string_from_utf8(bytes: Vec<u8>) -> (out: Option<String>)
    ensures
        out is Some <==> valid_utf8(bytes@),
        out matches Some(s) ==> s@ == decode_utf8(bytes@),
{
    String::from_utf8(bytes).ok()
}

/// A position in a buffer of received bytes.
pub struct Reader<'a> {
    pub buf: &'a [u8],
    pub pos: usize,
}

impl<'a> Reader<'a> {
    /// Whether the position lies within the buffer.
    pub open spec fn wf(&self) -> bool {
        self.pos <= self.buf@.len()
    }

    /// The bytes that are still to be read.
    pub open spec fn rest(&self) -> Seq<u8> {
        self.buf@.skip(self.pos as int)
    }

    /// A reader at the start of `buf`.
    pub fn new(buf: &'a [u8]) -> (r: Reader<'a>)
        ensures
            r.wf(),
            r.rest() == buf@,
            r.buf == buf,
    {
        assert(buf@.skip(0) =~= buf@);
        Reader { buf, pos: 0 }
    }

    /// Whether `n` more bytes can be read.
    fn has(&self, n: usize) -> (b: bool)
        requires
            self.wf(),
        ensures
            b == (self.rest().len() >= n),
    {
        self.buf.len() - self.pos >= n
    }

    /// Moves over `n` bytes.
    fn advance(&mut self, n: usize)
        requires
            old(self).wf(),
            old(self).rest().len() >= n,
        ensures
            final(self).wf(),
            final(self).buf == old(self).buf,
            final(self).rest() == old(self).rest().skip(n as int),
            old(self).rest().subrange(0, n as int) == old(self).buf@.subrange(
                old(self).pos as int,
                old(self).pos + n,
            ),
    {
        let total = self.buf.len();
        assert(self.buf@.skip(self.pos as int).skip(n as int) =~= self.buf@.skip(self.pos + n));
        assert(self.rest().subrange(0, n as int) =~= self.buf@.subrange(
            self.pos as int,
            self.pos + n,
        ));
        self.pos = self.pos + n;
    }

    /// Reads an integer of `width` bytes.
    pub fn uint(&mut self, width: usize) -> (out: Option<u64>)
        requires
            old(self).wf(),
            width <= 8,
        ensures
            final(self).wf(),
            final(self).buf == old(self).buf,
            match de_uint(old(self).rest(), width as nat) {
                Some((v, rest)) => out == Some(v as u64) && v < limit(width as nat)
                    && final(self).rest() == rest,
                None => out is None,
            },
    {
        if !self.has(width) {
            return None;
        }
        let n = get_le(self.buf, self.pos, width);
        proof {
            lemma_le_value_bound(self.buf@.subrange(self.pos as int, self.pos + width));
        }
        self.advance(width);
        Some(n)
    }

    /// Reads a sample.
    pub fn i16(&mut self) -> (out: Option<i16>)
        requires
            old(self).wf(),
        ensures
            final(self).wf(),
            final(self).buf == old(self).buf,
            match de_i16(old(self).rest()) {
                Some((v, rest)) => out == Some(v) && final(self).rest() == rest,
                None => out is None,
            },
    {
        proof {
            lemma_limits();
        }
        match self.uint(2) {
            Some(v) => {
                if v >= 0x8000 {
                    Some((v as i32 - 0x1_0000) as i16)
                } else {
                    Some(v as i16)
                }
            },
            None => None,
        }
    }

    /// Reads a track identifier.
    pub fn id(&mut self) -> (out: Option<u128>)
        requires
            old(self).wf(),
        ensures
            final(self).wf(),
            final(self).buf == old(self).buf,
            match de_id(old(self).rest()) {
                Some((v, rest)) => out == Some(v) && final(self).rest() == rest,
                None => out is None,
            },
    {
        proof {
            lemma_limits();
        }
        match self.uint(8) {
            Some(n) => {
                if n != 16 || !self.has(16) {
                    return None;
                }
                let id = get_be(self.buf, self.pos, 16);
                proof {
                    lemma_be_value_bound(self.buf@.subrange(self.pos as int, self.pos + 16));
                    lemma_limits();
                }
                self.advance(16);
                Some(id)
            },
            None => None,
        }
    }

    /// Reads a text.
    pub fn string(&mut self) -> (out: Option<String>)
        requires
            old(self).wf(),
        ensures
            final(self).wf(),
            final(self).buf == old(self).buf,
            match de_str(old(self).rest()) {
                Some((v, rest)) => out is Some && out->0@ == v && final(self).rest() == rest,
                None => out is None,
            },
    {
        proof {
            lemma_limits();
        }
        match self.uint(8) {
            Some(n) => {
                let total = self.buf.len();
                if n > usize::MAX as u64 || !self.has(n as usize) {
                    return None;
                }
                let len = n as usize;
                let bytes = copy_range(self.buf, self.pos, len);
                self.advance(len);
                string_from_utf8(bytes)
            },
            None => None,
        }
    }
}

/// Appends a sample.
pub fn put_i16(out: &mut Vec<u8>, x: i16)
    ensures
        final(out)@ == old(out)@ + ser_i16(x),
{
    let bits: u64 = if x < 0 {
        (x as i32 + 0x1_0000) as u64
    } else {
        x as u64
    };
    put_le(out, bits, 2);
}

/// Appends a track identifier.
pub fn put_id(out: &mut Vec<u8>, id: u128)
    ensures
        final(out)@ == old(out)@ + ser_id(id),
{
    put_le(out, 16, 8);
    put_be(out, id, 16);
    assert(final(out)@ =~= old(out)@ + ser_id(id));
}

/// Appends a text.
pub fn put_str(out: &mut Vec<u8>, s: &str)
    ensures
        final(out)@ == old(out)@ + ser_str(s@),
        str_fits(s@),
{
    let bytes = s.as_bytes();
    let len = bytes.len();
    proof {
        lemma_limits();
    }
    put_le(out, len as u64, 8);
    let ghost start = out@;
    let mut i: usize = 0;
    while i < len
        invariant
            i <= len,
            len == bytes@.len(),
            out@ == start + bytes@.subrange(0, i as int),
        decreases len - i,
    {
        out.push(bytes[i]);
        assert(bytes@.subrange(0, i + 1) =~= bytes@.subrange(0, i as int).push(bytes@[i as int]));
        i += 1;
    }
    assert(bytes@.subrange(0, len as int) =~= bytes@);
    assert(final(out)@ =~= old(out)@ + ser_str(s@));
}

/// The bytes of the items of a list, one after the other, each written by
/// `ser`.
pub open spec fn ser_items<V>(s: Seq<V>, ser: spec_fn(V) -> Seq<u8>) -> Seq<u8>
    decreases s.len(),
{
    if s.len() == 0 {
        Seq::empty()
    } else {
        ser(s[0]) + ser_items(s.drop_first(), ser)
    }
}

/// `n` items at the head of `b`, each read by `de`.
pub open spec fn de_items<V>(b: Seq<u8>, n: nat, de: spec_fn(Seq<u8>) -> Parsed<V>) -> Parsed<
    Seq<V>,
>
    decreases n,
{
    if n == 0 {
        Some((Seq::empty(), b))
    } else {
        match de(b) {
            Some((v, rest)) => match de_items(rest, (n - 1) as nat, de) {
                Some((vs, tail)) => Some((seq![v] + vs, tail)),
                None => None,
            },
            None => None,
        }
    }
}

/// The bytes of a list: its length, then its items.
pub open spec fn ser_list<V>(s: Seq<V>, ser: spec_fn(V) -> Seq<u8>) -> Seq<u8> {
    le_bytes(s.len(), 8) + ser_items(s, ser)
}

/// A list at the head of `b`.
pub open spec fn de_list<V>(b: Seq<u8>, de: spec_fn(Seq<u8>) -> Parsed<V>) -> Parsed<Seq<V>> {
    match de_uint(b, 8) {
        Some((n, rest)) => de_items(rest, n, de),
        None => None,
    }
}

/// Whether `de` reads back what `ser` wrote for `v`, whatever follows it.
pub open spec fn reads_back<V>(
    v: V,
    ser: spec_fn(V) -> Seq<u8>,
    de: spec_fn(Seq<u8>) -> Parsed<V>,
) -> bool {
    forall|tail: Seq<u8>| #[trigger] de(ser(v) + tail) == Some((v, tail))
}

/// Reading back the items of a list that were written in front of `tail`.
pub proof fn lemma_items_round_trip<V>(
    s: Seq<V>,
    ser: spec_fn(V) -> Seq<u8>,
    de: spec_fn(Seq<u8>) -> Parsed<V>,
    tail: Seq<u8>,
)
    requires
        forall|i: int| 0 <= i < s.len() ==> reads_back(#[trigger] s[i], ser, de),
    ensures
        de_items(ser_items(s, ser) + tail, s.len(), de) == Some((s, tail)),
    decreases s.len(),
{
    if s.len() == 0 {
        assert(ser_items(s, ser) + tail =~= tail);
        assert(s =~= Seq::<V>::empty());
    } else {
        let rest = s.drop_first();
        let after = ser_items(rest, ser) + tail;
        assert(ser_items(s, ser) + tail =~= ser(s[0]) + after);
        assert(reads_back(s[0], ser, de));
        assert(de(ser(s[0]) + after) == Some((s[0], after)));
        assert forall|i: int| 0 <= i < rest.len() implies reads_back(
            #[trigger] rest[i],
            ser,
            de,
        ) by {
            assert(rest[i] == s[i + 1]);
        }
        lemma_items_round_trip(rest, ser, de, tail);
        assert(seq![s[0]] + rest =~= s);
    }
}

/// Reading back a list that was written in front of `tail`.
pub proof fn lemma_list_round_trip<V>(
    s: Seq<V>,
    ser: spec_fn(V) -> Seq<u8>,
    de: spec_fn(Seq<u8>) -> Parsed<V>,
    tail: Seq<u8>,
)
    requires
        s.len() < limit(8),
        forall|i: int| 0 <= i < s.len() ==> reads_back(#[trigger] s[i], ser, de),
    ensures
        de_list(ser_list(s, ser) + tail, de) == Some((s, tail)),
{
    let body = ser_items(s, ser) + tail;
    lemma_uint_round_trip(s.len(), 8, body);
    assert(ser_list(s, ser) + tail =~= le_bytes(s.len(), 8) + body);
    lemma_items_round_trip(s, ser, de, tail);
}

/// What is still to be written of a list once its first `i` items are out.
pub proof fn lemma_items_step<V>(s: Seq<V>, ser: spec_fn(V) -> Seq<u8>, i: int)
    requires
        0 <= i < s.len(),
    ensures
        ser_items(s.skip(i), ser) == ser(s[i]) + ser_items(s.skip(i + 1), ser),
{
    assert(s.skip(i).drop_first() =~= s.skip(i + 1));
}

/// How `ser_str` writes, as a value.
pub open spec fn str_ser() -> spec_fn(Seq<char>) -> Seq<u8> {
    |s: Seq<char>| ser_str(s)
}

/// How `de_str` reads, as a value.
pub open spec fn str_de() -> spec_fn(Seq<u8>) -> Parsed<Seq<char>> {
    |b: Seq<u8>| de_str(b)
}

/// How `ser_i16` writes, as a value.
pub open spec fn i16_ser() -> spec_fn(i16) -> Seq<u8> {
    |x: i16| ser_i16(x)
}

/// How `de_i16` reads, as a value.
pub open spec fn i16_de() -> spec_fn(Seq<u8>) -> Parsed<i16> {
    |b: Seq<u8>| de_i16(b)
}

/// Whether a list of texts can be written: its length and the length of each
/// text can.
pub open spec fn strs_fit(s: Seq<Seq<char>>) -> bool {
    s.len() < limit(8) && forall|i: int| 0 <= i < s.len() ==> str_fits(#[trigger] s[i])
}

/// Reading back a list of texts that was written in front of `tail`.
pub proof fn lemma_strs_round_trip(s: Seq<Seq<char>>, tail: Seq<u8>)
    requires
        strs_fit(s),
    ensures
        de_list(ser_list(s, str_ser()) + tail, str_de()) == Some((s, tail)),
{
    assert forall|i: int| 0 <= i < s.len() implies reads_back(
        #[trigger] s[i],
        str_ser(),
        str_de(),
    ) by {
        assert forall|t: Seq<u8>| #[trigger] str_de()(str_ser()(s[i]) + t) == Some((s[i], t)) by {
            lemma_str_round_trip(s[i], t);
        }
    }
    lemma_list_round_trip(s, str_ser(), str_de(), tail);
}

/// Reading back a list of samples that was written in front of `tail`.
pub proof fn lemma_samples_round_trip(s: Seq<i16>, tail: Seq<u8>)
    requires
        s.len() < limit(8),
    ensures
        de_list(ser_list(s, i16_ser()) + tail, i16_de()) == Some((s, tail)),
{
    assert forall|i: int| 0 <= i < s.len() implies reads_back(
        #[trigger] s[i],
        i16_ser(),
        i16_de(),
    ) by {
        assert forall|t: Seq<u8>| #[trigger] i16_de()(i16_ser()(s[i]) + t) == Some((s[i], t)) by {
            lemma_i16_round_trip(s[i], t);
        }
    }
    lemma_list_round_trip(s, i16_ser(), i16_de(), tail);
}

/// Appends a list of texts.
pub fn put_strs(out: &mut Vec<u8>, v: &Vec<String>)
    ensures
        final(out)@ == old(out)@ + ser_list(strings_view(v@), str_ser()),
        strs_fit(strings_view(v@)),
{
    let ghost s = strings_view(v@);
    let len = v.len();
    proof {
        lemma_limits();
    }
    put_le(out, len as u64, 8);
    let ghost want = out@ + ser_items(s, str_ser());
    let mut i: usize = 0;
    assert(s.skip(0) =~= s);
    while i < len
        invariant
            i <= len,
            len == v@.len(),
            s == strings_view(v@),
            want == out@ + ser_items(s.skip(i as int), str_ser()),
            forall|j: int| 0 <= j < i ==> str_fits(#[trigger] s[j]),
        decreases len - i,
    {
        let ghost before = out@;
        proof {
            lemma_items_step(s, str_ser(), i as int);
        }
        put_str(out, v[i].as_str());
        assert(before + ser_items(s.skip(i as int), str_ser()) =~= out@ + ser_items(
            s.skip(i + 1),
            str_ser(),
        ));
        i += 1;
    }
    assert(ser_items(s.skip(len as int), str_ser()) =~= Seq::<u8>::empty());
    assert(final(out)@ =~= old(out)@ + ser_list(s, str_ser()));
}

/// Appends a list of samples.
pub fn put_samples(out: &mut Vec<u8>, v: &Vec<i16>)
    ensures
        final(out)@ == old(out)@ + ser_list(v@, i16_ser()),
        v@.len() < limit(8),
{
    let len = v.len();
    proof {
        lemma_limits();
    }
    put_le(out, len as u64, 8);
    let ghost want = out@ + ser_items(v@, i16_ser());
    let mut i: usize = 0;
    assert(v@.skip(0) =~= v@);
    while i < len
        invariant
            i <= len,
            len == v@.len(),
            want == out@ + ser_items(v@.skip(i as int), i16_ser()),
        decreases len - i,
    {
        let ghost before = out@;
        proof {
            lemma_items_step(v@, i16_ser(), i as int);
        }
        put_i16(out, v[i]);
        assert(before + ser_items(v@.skip(i as int), i16_ser()) =~= out@ + ser_items(
            v@.skip(i + 1),
            i16_ser(),
        ));
        i += 1;
    }
    assert(ser_items(v@.skip(len as int), i16_ser()) =~= Seq::<u8>::empty());
    assert(final(out)@ =~= old(out)@ + ser_list(v@, i16_ser()));
}

/// How far reading a list has come: `done` items are read, `left` are due,
/// and the bytes `rest` are still unread.
pub open spec fn list_progress<V>(
    whole: Parsed<Seq<V>>,
    done: Seq<V>,
    rest: Seq<u8>,
    left: nat,
    de: spec_fn(Seq<u8>) -> Parsed<V>,
) -> bool {
    whole == match de_items(rest, left, de) {
        Some((vs, tail)) => Some((done + vs, tail)),
        None => None,
    }
}

/// Reading one more item keeps `list_progress`.
pub proof fn lemma_list_progress_step<V>(
    whole: Parsed<Seq<V>>,
    done: Seq<V>,
    rest: Seq<u8>,
    left: nat,
    de: spec_fn(Seq<u8>) -> Parsed<V>,
)
    requires
        left > 0,
        list_progress(whole, done, rest, left, de),
    ensures
        de(rest) is None ==> whole is None,
        de(rest) matches Some((v, after)) ==> list_progress(
            whole,
            done.push(v),
            after,
            (left - 1) as nat,
            de,
        ),
{
    match de(rest) {
        Some((v, after)) => {
            match de_items(after, (left - 1) as nat, de) {
                Some((vs, tail)) => {
                    assert(done + (seq![v] + vs) =~= done.push(v) + vs);
                },
                None => {},
            }
        },
        None => {},
    }
}

impl<'a> Reader<'a> {
    /// Reads a list of texts.
    pub fn strings(&mut self) -> (out: Option<Vec<String>>)
        requires
            old(self).wf(),
        ensures
            final(self).wf(),
            final(self).buf == old(self).buf,
            match de_list(old(self).rest(), str_de()) {
                Some((v, rest)) => out is Some && strings_view(out->0@) == v
                    && final(self).rest() == rest,
                None => out is None,
            },
    {
        proof {
            lemma_limits();
        }
        let ghost whole = de_list(self.rest(), str_de());
        let count = match self.uint(8) {
            Some(n) => n,
            None => {
                return None;
            },
        };
        let mut out: Vec<String> = Vec::new();
        let mut i: u64 = 0;
        assert(strings_view(out@) + Seq::<Seq<char>>::empty() =~= strings_view(out@));
        assert(strings_view(out@) =~= Seq::<Seq<char>>::empty());
        while i < count
            invariant
                i <= count,
                self.wf(),
                self.buf == old(self).buf,
                whole == de_list(old(self).rest(), str_de()),
                list_progress(
                    whole,
                    strings_view(out@),
                    self.rest(),
                    (count - i) as nat,
                    str_de(),
                ),
            decreases count - i,
        {
            proof {
                lemma_list_progress_step(
                    whole,
                    strings_view(out@),
                    self.rest(),
                    (count - i) as nat,
                    str_de(),
                );
            }
            let ghost before = strings_view(out@);
            match self.string() {
                Some(s) => {
                    out.push(s);
                    assert(strings_view(out@) =~= before.push(s@));
                },
                None => {
                    return None;
                },
            }
            i += 1;
        }
        assert(strings_view(out@) + Seq::<Seq<char>>::empty() =~= strings_view(out@));
        Some(out)
    }

    /// Reads a list of samples.
    pub fn samples(&mut self) -> (out: Option<Vec<i16>>)
        requires
            old(self).wf(),
        ensures
            final(self).wf(),
            final(self).buf == old(self).buf,
            match de_list(old(self).rest(), i16_de()) {
                Some((v, rest)) => out is Some && out->0@ == v && final(self).rest() == rest,
                None => out is None,
            },
    {
        proof {
            lemma_limits();
        }
        let ghost whole = de_list(self.rest(), i16_de());
        let count = match self.uint(8) {
            Some(n) => n,
            None => {
                return None;
            },
        };
        let mut out: Vec<i16> = Vec::new();
        let mut i: u64 = 0;
        assert(out@ + Seq::<i16>::empty() =~= out@);
        while i < count
            invariant
                i <= count,
                self.wf(),
                self.buf == old(self).buf,
                whole == de_list(old(self).rest(), i16_de()),
                list_progress(whole, out@, self.rest(), (count - i) as nat, i16_de()),
            decreases count - i,
        {
            proof {
                lemma_list_progress_step(whole, out@, self.rest(), (count - i) as nat, i16_de());
            }
            match self.i16() {
                Some(x) => {
                    out.push(x);
                },
                None => {
                    return None;
                },
            }
            i += 1;
        }
        assert(out@ + Seq::<i16>::empty() =~= out@);
        Some(out)
    }
}

} // verus!
