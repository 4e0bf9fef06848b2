//! Incremental decoder for the multi-byte UTF-8 sequences of a byte stream:
//! a leading byte opens a sequence, continuation bytes fill it in.
use vstd::prelude::*;
use vstd::utf8::{
    is_leading_byte_width_2, is_leading_byte_width_3, is_leading_byte_width_4,
    is_continuation_byte, continuation_bits,
    leading_bits_width_2, leading_bits_width_3, leading_bits_width_4,
    is_scalar, encode_scalar, has_width_1_encoding, has_width_2_encoding, has_width_3_encoding,
    has_width_4_encoding,
};

verus! {

#[derive(Clone, Copy, Debug, PartialEq, Eq, Structural)]
pub enum State {
    ReadingHeader,
    ReadingBody,
}

#[derive(Clone, Copy, Debug, PartialEq, Eq, Structural)]
pub enum ParserError {
    Pending,
    InvalidBodyByte,
}

/// Decoder state: the bits gathered so far are kept left-aligned in `data`.
#[derive(Clone, Copy, Debug)]
pub struct Parser {
    data: u32,
    curr_bit: usize,
    curr_point: usize,
    total_points: usize,
    state: State,
}

/// The number of bytes of the sequence that `b` opens, or 0 where `b` opens none.
pub open spec fn sequence_width(b: u8) -> nat {
    if is_leading_byte_width_2(b) { 2 }
    else if is_leading_byte_width_3(b) { 3 }
    else if is_leading_byte_width_4(b) { 4 }
    else { 0 }
}

/// The code point bits carried by the leading byte `b`.
pub open spec fn leading_bits(b: u8) -> u32 {
    if is_leading_byte_width_2(b) { leading_bits_width_2(b) }
    else if is_leading_byte_width_3(b) { leading_bits_width_3(b) }
    else { leading_bits_width_4(b) }
}

/// The character for code point `v`; U+FFFD where `v` is no Unicode scalar value.
pub open spec fn char_for(v: u32) -> char {
    if is_scalar(v) { v as char } else { '\u{FFFD}' }
}

/// Wraps `char::from_u32`: its documentation says that it gives the `char`
/// whose value is `v` where `v` is a Unicode scalar value, and `None` otherwise.
#[verifier::external_body]
fn char_from_u32(v: u32) -> (r: Option<char>)
    ensures
        r is Some <==> is_scalar(v),
        r matches Some(c) ==> c as u32 == v,
{
    char::from_u32(v)
}

proof fn lemma_header_push(b: u8, total_bits: u32, mask: u8, bits: u8, data: u32)
    by (bit_vector)
    requires
        3 <= total_bits <= 5,
        mask == 0xFFu8 >> ((8 - total_bits) as u32),
        bits == b & mask,
        data == 0u32 | ((bits as u32) << ((32 - total_bits) as u32)),
    ensures
        data >> ((32 - total_bits) as u32) == bits as u32,
        (bits as u32) < (1u32 << total_bits),
        data == ((bits as u32) << ((32 - total_bits) as u32)),
{
}

proof fn lemma_body_push(v: u32, cb: u32, b: u8, data: u32, new_data: u32)
    by (bit_vector)
    requires
        3 <= cb <= 15,
        v < (1u32 << cb),
        data == v << ((32 - cb) as u32),
        new_data == data | (((b & (0xFFu8 >> 2u32)) as u32) << ((32 - cb - 6) as u32)),
    ensures
        new_data >> ((32 - (cb + 6)) as u32) == (v << 6) | ((b & 0x3f) as u32),
        ((v << 6) | ((b & 0x3f) as u32)) < (1u32 << ((cb + 6) as u32)),
        new_data == ((v << 6) | ((b & 0x3f) as u32)) << ((32 - (cb + 6)) as u32),
{
}

proof fn lemma_header_classes(b: u8)
    by (bit_vector)
    ensures
        (b & 0b1110_0000 == 0b1100_0000) == (0xc0 <= b && b <= 0xdf),
        (b & 0b1111_0000 == 0b1110_0000) == (0xe0 <= b && b <= 0xef),
        (b & 0b1111_1000 == 0b1111_0000) == (0xf0 <= b && b <= 0xf7),
        (b & 0b1100_0000 != 0b1000_0000) == !(0x80 <= b && b <= 0xbf),
        b & (0xFFu8 >> 3u32) == b & 0x1F,
        b & (0xFFu8 >> 4u32) == b & 0x0F,
        b & (0xFFu8 >> 5u32) == b & 0x07,
        b & (0xFFu8 >> 2u32) == b & 0x3F,
{
}


/// The code point that the decoder gathers from a leading byte followed by
/// continuation bytes.
pub open spec fn gathered_value(bytes: Seq<u8>) -> u32
    decreases bytes.len(),
{
    if bytes.len() <= 1 {
        leading_bits(bytes[0])
    } else {
        (gathered_value(bytes.drop_last()) << 6) | continuation_bits(bytes.last())
    }
}

proof fn lemma_width_2(v: u32, b0: u8, b1: u8)
    by (bit_vector)
    requires
        0x80 <= v <= 0x7FF,
        b0 == 0xC0u8 | ((v >> 6u32) & 0x1F) as u8,
        b1 == 0x80u8 | (v & 0x3F) as u8,
    ensures
        0xc0 <= b0 <= 0xdf,
        0x80 <= b1 <= 0xbf,
        ((((b0 & 0x1F) as u32) << 6u32) | ((b1 & 0x3f) as u32)) == v,
{
}

proof fn lemma_width_3(v: u32, b0: u8, b1: u8, b2: u8)
    by (bit_vector)
    requires
        0x800 <= v <= 0xFFFF,
        b0 == 0xE0u8 | ((v >> 12u32) & 0x0F) as u8,
        b1 == 0x80u8 | ((v >> 6u32) & 0x3F) as u8,
        b2 == 0x80u8 | (v & 0x3F) as u8,
    ensures
        0xe0 <= b0 <= 0xef,
        0x80 <= b1 <= 0xbf,
        0x80 <= b2 <= 0xbf,
        ((((((b0 & 0x0F) as u32) << 6u32) | ((b1 & 0x3f) as u32)) << 6u32) | ((b2 & 0x3f) as u32)) == v,
{
}

proof fn lemma_width_4(v: u32, b0: u8, b1: u8, b2: u8, b3: u8)
    by (bit_vector)
    requires
        0x10000 <= v <= 0x10FFFF,
        b0 == 0xF0u8 | ((v >> 18u32) & 0x7) as u8,
        b1 == 0x80u8 | ((v >> 12u32) & 0x3F) as u8,
        b2 == 0x80u8 | ((v >> 6u32) & 0x3F) as u8,
        b3 == 0x80u8 | (v & 0x3F) as u8,
    ensures
        0xf0 <= b0 <= 0xf7,
        0x80 <= b1 <= 0xbf,
        0x80 <= b2 <= 0xbf,
        0x80 <= b3 <= 0xbf,
        ((((((((b0 & 0x07) as u32) << 6u32) | ((b1 & 0x3f) as u32)) << 6u32) | ((b2 & 0x3f) as u32)) << 6u32)
            | ((b3 & 0x3f) as u32)) == v,
{
}

/// Fed one byte at a time, the decoder gathers the encoding of a character
/// outside ASCII step by step: the leading byte gives the bits of the first
/// prefix, each continuation byte shifts them by six and adds its own, and
/// the whole encoding gives the character back. With the contracts of
/// `parse_header_byte` and `parse_body_byte`, feeding the bytes of the
/// encoding of `c` in order gives `Pending` for each but the last and `c`
/// for the last.
pub proof fn lemma_decoding_step_by_step(c: char)
    requires
        !has_width_1_encoding(c as u32),
    ensures
        ({
            let e = encode_scalar(c as u32);
            &&& 2 <= e.len() <= 4
            &&& sequence_width(e[0]) == e.len()
            &&& gathered_value(e.take(1)) == leading_bits(e[0])
            &&& forall|k: int| 1 <= k < e.len() ==> {
                &&& is_continuation_byte(#[trigger] e[k])
                &&& gathered_value(e.take(k + 1)) == (gathered_value(e.take(k)) << 6) | continuation_bits(e[k])
            }
            &&& char_for(gathered_value(e.take(e.len() as int))) == c
        }),
{
    lemma_decode_inverts_encode(c);
    let e = encode_scalar(c as u32);
    assert(e.take(e.len() as int) =~= e);
    assert forall|k: int| 1 <= k < e.len() implies
        gathered_value(e.take(k + 1)) == (gathered_value(e.take(k)) << 6) | continuation_bits(#[trigger] e[k]) by {
        assert(e.take(k + 1).drop_last() =~= e.take(k));
    }
}

/// Decoding gives back what UTF-8 encoding wrote: for every character
/// outside ASCII, the first byte of its encoding opens a sequence as long as
/// the encoding, every further byte is a continuation byte, and the bits the
/// decoder gathers from them are the character itself.
pub proof fn lemma_decode_inverts_encode(c: char)
    requires
        !has_width_1_encoding(c as u32),
    ensures
        ({
            let e = encode_scalar(c as u32);
            &&& sequence_width(e[0]) == e.len()
            &&& forall|i: int| 1 <= i < e.len() ==> is_continuation_byte(#[trigger] e[i])
            &&& gathered_value(e) == c as u32
            &&& char_for(gathered_value(e)) == c
        }),
{
    let v = c as u32;
    vstd::utf8::char_is_scalar(c);
    vstd::utf8::char_u32_cast(c, v);
    let e = encode_scalar(v);
    if has_width_2_encoding(v) {
        assert(e.len() == 2);
        lemma_width_2(v, e[0], e[1]);
        let e1 = e.drop_last();
        assert(e1 =~= seq![e[0]]);
        assert(gathered_value(e1) == leading_bits(e[0]));
        assert(gathered_value(e) == (gathered_value(e1) << 6) | continuation_bits(e[1]));
    } else if has_width_3_encoding(v) {
        assert(e.len() == 3);
        lemma_width_3(v, e[0], e[1], e[2]);
        let e1 = e.drop_last();
        let e2 = e1.drop_last();
        assert(e1 =~= seq![e[0], e[1]]);
        assert(e2 =~= seq![e[0]]);
        assert(gathered_value(e2) == leading_bits(e[0]));
        assert(gathered_value(e1) == (gathered_value(e2) << 6) | continuation_bits(e[1]));
        assert(gathered_value(e) == (gathered_value(e1) << 6) | continuation_bits(e[2]));
    } else {
        assert(has_width_4_encoding(v));
        assert(e.len() == 4);
        lemma_width_4(v, e[0], e[1], e[2], e[3]);
        let e1 = e.drop_last();
        let e2 = e1.drop_last();
        let e3 = e2.drop_last();
        assert(e1 =~= seq![e[0], e[1], e[2]]);
        assert(e2 =~= seq![e[0], e[1]]);
        assert(e3 =~= seq![e[0]]);
        assert(gathered_value(e3) == leading_bits(e[0]));
        assert(gathered_value(e2) == (gathered_value(e3) << 6) | continuation_bits(e[1]));
        assert(gathered_value(e1) == (gathered_value(e2) << 6) | continuation_bits(e[2]));
        assert(gathered_value(e) == (gathered_value(e1) << 6) | continuation_bits(e[3]));
    }
}

impl Default for Parser {
    fn default() -> (r: Self)
        ensures
            r.state() == State::ReadingHeader,
    {
        Parser { data: 0, curr_point: 0, curr_bit: 0, total_points: 0, state: State::ReadingHeader }
    }
}

impl Parser {
    /// Whether a leading byte is waiting for its continuation bytes.
    pub closed spec fn state(&self) -> State {
        self.state
    }

    /// The number of continuation bytes still missing.
    pub closed spec fn remaining(&self) -> nat {
        (self.total_points - self.curr_point) as nat
    }

    /// The code point bits gathered so far.
    pub closed spec fn value(&self) -> u32 {
        if self.curr_bit == 0 || self.curr_bit > 32 { 0 } else { self.data >> ((32 - self.curr_bit) as u32) }
    }

    /// The internal fields agree with `state`, `remaining` and `value`.
    pub closed spec fn wf(&self) -> bool {
        self.state == State::ReadingBody ==> {
            &&& 2 <= self.total_points <= 4
            &&& 1 <= self.curr_point < self.total_points
            &&& self.curr_bit == (7 - self.total_points) + 6 * (self.curr_point - 1)
            &&& self.value() < (1u32 << (self.curr_bit as u32))
            &&& self.data == self.value() << ((32 - self.curr_bit) as u32)
        }
    }

    /// An open sequence still misses at least one continuation byte.
    pub proof fn lemma_open_sequence_remaining(&self)
        requires
            self.wf(),
            self.state() == State::ReadingBody,
        ensures
            self.remaining() >= 1,
    {
    }

    /// A decoder that expects a leading byte.
    pub fn new() -> (r: Self)
        ensures
            r.wf(),
            r.state() == State::ReadingHeader,
    {
        Parser { data: 0, curr_point: 0, curr_bit: 0, total_points: 0, state: State::ReadingHeader }
    }

    /// Whether the decoder expects a leading byte or a continuation byte.
    pub fn get_state(&self) -> (r: State)
        ensures
            r == self.state(),
    {
        self.state
    }

    /// Feeds a byte that should open a multi-byte sequence; true where it does.
    pub fn parse_header_byte(&mut self, b: u8) -> (r: bool)
        requires
            old(self).state() == State::ReadingHeader,
        ensures
            final(self).wf(),
            r == (sequence_width(b) != 0),
            r ==> {
                &&& final(self).state() == State::ReadingBody
                &&& final(self).remaining() == sequence_width(b) - 1
                &&& final(self).value() == leading_bits(b)
            },
            !r ==> final(self).state() == State::ReadingHeader && *final(self) == *old(self),
    {
        proof { lemma_header_classes(b); }
        if b & 0b1110_0000 == 0b1100_0000 {
            self.set_total_points(2);
            self.push_header(b, 5);
            self.state = State::ReadingBody;
            true
        } else if b & 0b1111_0000 == 0b1110_0000 {
            self.set_total_points(3);
            self.push_header(b, 4);
            self.state = State::ReadingBody;
            true
        } else if b & 0b1111_1000 == 0b1111_0000 {
            self.set_total_points(4);
            self.push_header(b, 3);
            self.state = State::ReadingBody;
            true
        } else {
            false
        }
    }

    /// Feeds a byte that should continue the open sequence: the decoded
    /// character once the sequence is complete, `Pending` before that, and
    /// `InvalidBodyByte` (closing the sequence) where `b` is no continuation byte.
    pub fn parse_body_byte(&mut self, b: u8) -> (r: Result<char, ParserError>)
        requires
            old(self).wf(),
            old(self).state() == State::ReadingBody,
        ensures
            final(self).wf(),
            !is_continuation_byte(b) ==> r == Err::<char, ParserError>(ParserError::InvalidBodyByte)
                && final(self).state() == State::ReadingHeader,
            is_continuation_byte(b) && old(self).remaining() > 1 ==> {
                &&& r == Err::<char, ParserError>(ParserError::Pending)
                &&& final(self).state() == State::ReadingBody
                &&& final(self).remaining() == old(self).remaining() - 1
                &&& final(self).value() == (old(self).value() << 6) | continuation_bits(b)
            },
            is_continuation_byte(b) && old(self).remaining() == 1 ==> {
                &&& r == Ok::<char, ParserError>(char_for((old(self).value() << 6) | continuation_bits(b)))
                &&& final(self).state() == State::ReadingHeader
            },
    {
        proof { lemma_header_classes(b); }
        if b & 0b1100_0000 != 0b1000_0000 {
            self.state = State::ReadingHeader;
            return Err(ParserError::InvalidBodyByte);
        }
        let ghost v0 = self.value();
        self.push_body(b);
        if self.curr_point != self.total_points {
            return Err(ParserError::Pending);
        }
        let c = self.get_char();
        self.state = State::ReadingHeader;
        Ok(c)
    }

    fn push_header(&mut self, byte: u8, total_bits: usize)
        requires
            3 <= total_bits <= 5,
            old(self).curr_bit == 0,
            old(self).curr_point == 0,
            old(self).data == 0,
            old(self).total_points == 7 - total_bits,
        ensures
            final(self).data == final(self).value() << ((32 - final(self).curr_bit) as u32),
            final(self).value() == byte & (0xFFu8 >> ((8 - total_bits) as u32)),
            final(self).value() < (1u32 << (total_bits as u32)),
            final(self).curr_bit == total_bits,
            final(self).curr_point == 1,
            final(self).total_points == old(self).total_points,
            final(self).state == old(self).state,
    {
        let mask: u8 = 0xFFu8 >> (8 - total_bits);
        let bits: u8 = byte & mask;
        let shift_amount: usize = 32 - self.curr_bit - total_bits;
        self.data = self.data | ((bits as u32) << shift_amount);
        self.curr_point = self.curr_point + 1;
        self.curr_bit = self.curr_bit + total_bits;
        proof {
            lemma_header_push(byte, total_bits as u32, mask, bits, self.data);
        }
    }

    fn push_body(&mut self, byte: u8)
        requires
            old(self).wf(),
            old(self).state == State::ReadingBody,
        ensures
            final(self).value() == (old(self).value() << 6) | ((byte & 0x3f) as u32),
            final(self).value() < (1u32 << (final(self).curr_bit as u32)),
            final(self).data == final(self).value() << ((32 - final(self).curr_bit) as u32),
            final(self).curr_bit == old(self).curr_bit + 6,
            final(self).curr_point == old(self).curr_point + 1,
            final(self).total_points == old(self).total_points,
            final(self).state == old(self).state,
    {
        let ghost v = self.value();
        let ghost d0 = self.data;
        let cb = self.curr_bit;
        let mask: u8 = 0xFFu8 >> 2usize;
        let bits: u8 = byte & mask;
        let shift_amount: usize = 32 - self.curr_bit - 6;
        self.data = self.data | ((bits as u32) << shift_amount);
        self.curr_point = self.curr_point + 1;
        self.curr_bit = self.curr_bit + 6;
        proof {
            lemma_body_push(v, cb as u32, byte, d0, self.data);
        }
    }

    fn get_char(&self) -> (r: char)
        requires
            3 <= self.curr_bit <= 32,
        ensures
            r == char_for(self.value()),
    {
        let shift_amount: usize = 32 - self.curr_bit;
        let data = self.data >> shift_amount;
        match char_from_u32(data) {
            Some(c) => {
                proof { vstd::utf8::char_u32_cast(c, data); }
                c
            },
            None => '\u{FFFD}',
        }
    }

    fn set_total_points(&mut self, total_points: usize)
        ensures
            final(self).data == 0,
            final(self).curr_bit == 0,
            final(self).curr_point == 0,
            final(self).total_points == total_points,
            final(self).state == old(self).state,
    {
        self.data = 0;
        self.curr_bit = 0;
        self.curr_point = 0;
        self.total_points = total_points;
    }
}

} // verus!
