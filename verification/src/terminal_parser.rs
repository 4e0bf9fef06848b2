//! Splits the bytes a program writes into runs of plain text, UTF-8
//! encoded characters and escape sequences, and hands each to a handler.
use vstd::prelude::*;
use vstd::utf8::{continuation_bits, is_continuation_byte};
use crate::utf8_parser::{
    Parser as Utf8Parser, ParserError as Utf8ParserError, State as Utf8State, char_for, leading_bits, sequence_width,
};

verus! {

/// The byte that opens an escape sequence.
pub const VT100_ESCAPE_CODE: u8 = 0x1b;

/// What the parser expects next.
#[derive(Clone, Copy, Debug, PartialEq, Eq, Structural)]
pub enum ParserMode {
    /// Plain bytes.
    Byte,
    /// The continuation bytes of a UTF-8 sequence.
    Utf8,
    /// The bytes of an escape sequence.
    Vt100,
}

/// One call the parser makes on its handler.
pub enum ParserEvent {
    /// `on_unhandled_byte` with this byte.
    UnhandledByte(u8),
    /// `on_ascii_data` with these bytes.
    AsciiData(Seq<u8>),
    /// `on_utf8` with this character.
    Utf8(char),
    /// `on_utf8_error` with this error.
    Utf8Error(Utf8ParserError),
    /// `on_vt100_start`.
    Vt100Start,
    /// `on_vt100_byte` with this byte, and what it answered: whether the
    /// escape sequence is complete.
    Vt100Byte(u8, bool),
}

/// Receives what the parser finds. The escape sequence decoder is the
/// handler's: it is told where a sequence starts, gets its bytes one by
/// one, and tells when the sequence is complete.
///
/// `events` is the record of the calls a handler has received, oldest first,
/// and each call adds itself to it; what the parser's contract says of its
/// calls is said over this record. A handler verified against these contracts
/// defines `events`. One that keeps the default, a record that stays empty,
/// cannot meet them; it is for handlers written outside verified code, and of
/// the calls such a handler receives the contracts show nothing.
pub trait TerminalParserHandler {
    open spec fn events(&self) -> Seq<ParserEvent> {
        Seq::empty()
    }

    fn on_unhandled_byte(&mut self, byte: u8)
        ensures
            final(self).events() == old(self).events().push(ParserEvent::UnhandledByte(byte)),
    ;

    fn on_ascii_data(&mut self, buf: &[u8])
        ensures
            final(self).events() == old(self).events().push(ParserEvent::AsciiData(buf@)),
    ;

    fn on_utf8(&mut self, character: char)
        ensures
            final(self).events() == old(self).events().push(ParserEvent::Utf8(character)),
    ;

    fn on_utf8_error(&mut self, error: &Utf8ParserError)
        ensures
            final(self).events() == old(self).events().push(ParserEvent::Utf8Error(*error)),
    ;

    fn on_vt100_start(&mut self)
        ensures
            final(self).events() == old(self).events().push(ParserEvent::Vt100Start),
    ;

    /// Takes the next byte of an escape sequence; `true` where the sequence is complete.
    fn on_vt100_byte(&mut self, byte: u8) -> (done: bool)
        ensures
            final(self).events() == old(self).events().push(ParserEvent::Vt100Byte(byte, done)),
    ;
}

/// Whether `b` ends a run of plain text: the escape byte, or a byte outside ASCII.
pub open spec fn ends_text_run(b: u8) -> bool {
    b == VT100_ESCAPE_CODE || b >= 0x80
}

/// Where the run of plain text that starts at `start` ends: at the first
/// byte from `start` on that ends a run, or at the end of `buf`.
pub open spec fn text_run_end(buf: Seq<u8>, start: int) -> int
    decreases buf.len() - start,
{
    if start >= buf.len() || start < 0 {
        buf.len() as int
    } else if ends_text_run(buf[start]) {
        start
    } else {
        text_run_end(buf, start + 1)
    }
}

/// What one scan of plain bytes found.
#[derive(Clone, Copy, Debug, PartialEq, Eq, Structural)]
pub struct TextScan {
    /// The plain text scanned runs up to here (from where the scan started).
    pub text_end: usize,
    /// The next scan starts here.
    pub next: usize,
    /// A byte that is neither plain text, an escape byte nor the start of a
    /// UTF-8 sequence.
    pub unhandled: Option<u8>,
}

/// What the parser holds between bytes: what it expects next and, inside a
/// UTF-8 sequence, how many continuation bytes are missing and the bits
/// gathered so far.
pub struct ParseState {
    pub mode: ParserMode,
    pub remaining: nat,
    pub value: u32,
}

/// Whether `a` and `b` are the same state: the same mode and, inside a UTF-8
/// sequence, the same missing count and bits.
pub open spec fn same_state(a: ParseState, b: ParseState) -> bool {
    &&& a.mode == b.mode
    &&& a.mode == ParserMode::Utf8 ==> a.remaining == b.remaining && a.value == b.value
}

/// The state after byte `b`; `end_of_escape` is the handler's answer to a byte
/// of an escape sequence. A plain byte keeps plain mode; the escape byte
/// opens an escape sequence; a leading byte opens a UTF-8 sequence; inside it
/// a continuation byte is gathered until the sequence is complete, and any
/// other byte breaks it; an escape sequence lasts until the handler ends it.
pub open spec fn next_state(s: ParseState, b: u8, end_of_escape: bool) -> ParseState {
    match s.mode {
        ParserMode::Byte => {
            if b == VT100_ESCAPE_CODE {
                ParseState { mode: ParserMode::Vt100, ..s }
            } else if sequence_width(b) != 0 {
                ParseState { mode: ParserMode::Utf8, remaining: (sequence_width(b) - 1) as nat, value: leading_bits(b) }
            } else {
                s
            }
        },
        ParserMode::Utf8 => {
            if is_continuation_byte(b) && s.remaining > 1 {
                ParseState { mode: ParserMode::Utf8, remaining: (s.remaining - 1) as nat, value: (s.value << 6) | continuation_bits(b) }
            } else {
                ParseState { mode: ParserMode::Byte, ..s }
            }
        },
        ParserMode::Vt100 => if end_of_escape { ParseState { mode: ParserMode::Byte, ..s } } else { s },
    }
}

/// The calls a scan of plain bytes from `i` makes: an unhandled byte at the
/// end of the run first, then the run itself where it is not empty, then the
/// start of an escape sequence where the escape byte ended the run.
pub open spec fn text_events(buf: Seq<u8>, i: int) -> Seq<ParserEvent> {
    let e = text_run_end(buf, i);
    let unhandled = if e < buf.len() && buf[e] != VT100_ESCAPE_CODE && sequence_width(buf[e]) == 0 {
        seq![ParserEvent::UnhandledByte(buf[e])]
    } else {
        Seq::empty()
    };
    let text = if e > i { seq![ParserEvent::AsciiData(buf.subrange(i, e))] } else { Seq::empty() };
    let start = if e < buf.len() && buf[e] == VT100_ESCAPE_CODE { seq![ParserEvent::Vt100Start] } else { Seq::empty() };
    unhandled + text + start
}

/// The call a continuation byte `b` makes inside a UTF-8 sequence in state
/// `s`: none while the sequence is still open, the character once it is
/// complete, the error where `b` breaks it.
pub open spec fn utf8_events(s: ParseState, b: u8) -> Seq<ParserEvent> {
    if !is_continuation_byte(b) {
        seq![ParserEvent::Utf8Error(Utf8ParserError::InvalidBodyByte)]
    } else if s.remaining > 1 {
        Seq::empty()
    } else {
        seq![ParserEvent::Utf8(char_for((s.value << 6) | continuation_bits(b)))]
    }
}

/// One step of the parser at byte `i` of `buf` in state `s`: the state after
/// it, the calls it makes and where the next step starts. In plain mode a
/// step takes a whole run of plain text and the byte that ends it; otherwise
/// it takes one byte. `answers[i]` is the handler's answer to a byte of an
/// escape sequence.
pub open spec fn parse_step(s: ParseState, buf: Seq<u8>, answers: Seq<bool>, i: int) -> (ParseState, Seq<ParserEvent>, int) {
    match s.mode {
        ParserMode::Byte => {
            let e = text_run_end(buf, i);
            if e < buf.len() {
                (next_state(s, buf[e], false), text_events(buf, i), e + 1)
            } else {
                (s, text_events(buf, i), e)
            }
        },
        ParserMode::Utf8 => (next_state(s, buf[i], false), utf8_events(s, buf[i]), i + 1),
        ParserMode::Vt100 => (next_state(s, buf[i], answers[i]), seq![ParserEvent::Vt100Byte(buf[i], answers[i])], i + 1),
    }
}

/// What the parser does with the bytes of `buf` from `i` on, starting in
/// state `s`: the state it ends in and the calls it makes on its handler,
/// in order, `answers[k]` being the handler's answer to byte `k` where that
/// byte belongs to an escape sequence.
pub open spec fn parse_from(s: ParseState, buf: Seq<u8>, answers: Seq<bool>, i: int) -> (ParseState, Seq<ParserEvent>)
    decreases buf.len() - i,
{
    if i < 0 || i >= buf.len() {
        (s, Seq::empty())
    } else {
        let step = parse_step(s, buf, answers, i);
        if step.2 <= i || step.2 > buf.len() {
            (s, Seq::empty())
        } else {
            let rest = parse_from(step.0, buf, answers, step.2);
            (rest.0, step.1 + rest.1)
        }
    }
}

/// The state after the bytes `buf` and the calls they make on the handler.
pub open spec fn parsed(s: ParseState, buf: Seq<u8>, answers: Seq<bool>) -> (ParseState, Seq<ParserEvent>) {
    parse_from(s, buf, answers, 0)
}

/// A buffer of plain text, read in plain mode, is handed over whole in a
/// single call, and the parser stays in plain mode.
pub proof fn lemma_plain_text_is_one_call(s: ParseState, buf: Seq<u8>, answers: Seq<bool>)
    requires
        s.mode == ParserMode::Byte,
        buf.len() > 0,
        forall|i: int| 0 <= i < buf.len() ==> !ends_text_run(#[trigger] buf[i]),
    ensures
        parsed(s, buf, answers) == (s, seq![ParserEvent::AsciiData(buf)]),
{
    lemma_plain_text_is_one_run(buf, 0);
    assert(buf.subrange(0, buf.len() as int) =~= buf);
    let step = parse_step(s, buf, answers, 0);
    assert(step.1 =~= seq![ParserEvent::AsciiData(buf)]);
    assert(parse_from(s, buf, answers, buf.len() as int) == (s, Seq::<ParserEvent>::empty()));
    assert(step.1 + Seq::<ParserEvent>::empty() =~= step.1);
}

pub struct TerminalParser {
    state: ParserMode,
    utf8_parser: Utf8Parser,
}

impl TerminalParser {
    pub closed spec fn mode(&self) -> ParserMode {
        self.state
    }

    /// The UTF-8 decoder.
    pub closed spec fn utf8(&self) -> Utf8Parser {
        self.utf8_parser
    }

    /// What the parser holds between bytes.
    pub open spec fn parse_state(&self) -> ParseState {
        ParseState { mode: self.mode(), remaining: self.utf8().remaining(), value: self.utf8().value() }
    }

    pub closed spec fn wf(&self) -> bool {
        &&& self.utf8_parser.wf()
        &&& (self.state == ParserMode::Utf8) == (self.utf8_parser.state() == Utf8State::ReadingBody)
    }

    /// What the parser expects next.
    pub fn get_mode(&self) -> (r: ParserMode)
        ensures
            r == self.mode(),
    {
        self.state
    }

    /// Scans plain bytes of `buf` from `start`: a run of plain text, then the
    /// byte that ended it, which opens an escape sequence or a UTF-8 sequence,
    /// or is reported as unhandled.
    pub fn scan_text(&mut self, buf: &[u8], start: usize) -> (r: TextScan)
        requires
            old(self).wf(),
            old(self).mode() == ParserMode::Byte,
            start < buf@.len(),
        ensures
            final(self).wf(),
            r.text_end == text_run_end(buf@, start as int),
            r.text_end == buf@.len() ==> {
                &&& r.next == buf@.len()
                &&& r.unhandled == None::<u8>
                &&& final(self).mode() == ParserMode::Byte
                &&& final(self).utf8() == old(self).utf8()
            },
            r.text_end < buf@.len() ==> ({
                let b = buf@[r.text_end as int];
                &&& r.next == r.text_end + 1
                &&& b == VT100_ESCAPE_CODE ==> final(self).mode() == ParserMode::Vt100 && r.unhandled == None::<u8>
                    && final(self).utf8() == old(self).utf8()
                &&& b != VT100_ESCAPE_CODE && sequence_width(b) != 0 ==> final(self).mode() == ParserMode::Utf8
                    && r.unhandled == None::<u8>
                    && final(self).utf8().remaining() == sequence_width(b) - 1
                    && final(self).utf8().value() == leading_bits(b)
                &&& b != VT100_ESCAPE_CODE && sequence_width(b) == 0 ==> final(self).mode() == ParserMode::Byte
                    && r.unhandled == Some(b)
            }),
    {
        let mut j = start;
        while j < buf.len() && buf[j] != VT100_ESCAPE_CODE && buf[j] < 0x80
            invariant
                start <= j <= buf@.len(),
                text_run_end(buf@, start as int) == text_run_end(buf@, j as int),
            decreases buf@.len() - j,
        {
            j = j + 1;
        }
        if j == buf.len() {
            return TextScan { text_end: j, next: j, unhandled: None };
        }
        let b = buf[j];
        if b == VT100_ESCAPE_CODE {
            self.state = ParserMode::Vt100;
            return TextScan { text_end: j, next: j + 1, unhandled: None };
        }
        if self.utf8_parser.parse_header_byte(b) {
            self.state = ParserMode::Utf8;
            TextScan { text_end: j, next: j + 1, unhandled: None }
        } else {
            TextScan { text_end: j, next: j + 1, unhandled: Some(b) }
        }
    }

    /// Feeds a continuation byte of the open UTF-8 sequence; the parser goes
    /// back to plain bytes once the sequence is complete or broken.
    pub fn feed_utf8(&mut self, b: u8) -> (r: Result<char, Utf8ParserError>)
        requires
            old(self).wf(),
            old(self).mode() == ParserMode::Utf8,
        ensures
            final(self).wf(),
            final(self).mode() == (if r == Err::<char, Utf8ParserError>(Utf8ParserError::Pending) { ParserMode::Utf8 } else { ParserMode::Byte }),
            !is_continuation_byte(b) ==> r == Err::<char, Utf8ParserError>(Utf8ParserError::InvalidBodyByte),
            is_continuation_byte(b) && old(self).utf8().remaining() > 1 ==> {
                &&& r == Err::<char, Utf8ParserError>(Utf8ParserError::Pending)
                &&& final(self).utf8().remaining() == old(self).utf8().remaining() - 1
                &&& final(self).utf8().value() == (old(self).utf8().value() << 6) | continuation_bits(b)
            },
            is_continuation_byte(b) && old(self).utf8().remaining() == 1 ==>
                r == Ok::<char, Utf8ParserError>(char_for((old(self).utf8().value() << 6) | continuation_bits(b))),
    {
        proof { self.utf8_parser.lemma_open_sequence_remaining(); }
        let r = self.utf8_parser.parse_body_byte(b);
        match r {
            Err(Utf8ParserError::Pending) => {},
            _ => { self.state = ParserMode::Byte; },
        }
        r
    }

    /// Ends the open escape sequence.
    pub fn end_escape(&mut self)
        requires
            old(self).wf(),
            old(self).mode() == ParserMode::Vt100,
        ensures
            final(self).wf(),
            final(self).mode() == ParserMode::Byte,
            final(self).utf8() == old(self).utf8(),
    {
        self.state = ParserMode::Byte;
    }

    /// Parses `buf`, handing runs of plain text, decoded characters, decoding
    /// errors, unhandled bytes and the bytes of escape sequences to `handler`,
    /// in the order they come (see `parse_from`). The calls and the state the
    /// parser ends in follow from the bytes and the handler's answers on where
    /// its escape sequences end; each `Vt100Byte` call in the handler's record
    /// carries the answer it gave, so the answers the contract speaks of are
    /// the ones the handler gave.
    pub fn parse_bytes<H: TerminalParserHandler>(&mut self, buf: &[u8], handler: &mut H)
        requires
            old(self).wf(),
        ensures
            final(self).wf(),
            exists|answers: Seq<bool>| answers.len() == buf@.len()
                && same_state(final(self).parse_state(), #[trigger] parsed(old(self).parse_state(), buf@, answers).0)
                && final(handler).events() == old(handler).events() + parsed(old(self).parse_state(), buf@, answers).1,
    {
        let ghost s0 = self.parse_state();
        let ghost h0 = handler.events();
        let ghost mut answers: Seq<bool> = Seq::empty();
        let ghost mut m: ParseState = s0;
        let ghost mut events: Seq<ParserEvent> = Seq::empty();
        let mut i: usize = 0;
        proof {
            assert forall|a: Seq<bool>| a.len() == buf@.len() && a.take(0) == answers implies
                #[trigger] parsed(s0, buf@, a) == (parse_from(s0, buf@, a, 0).0,
                    Seq::<ParserEvent>::empty() + parse_from(s0, buf@, a, 0).1) by {
                assert(Seq::<ParserEvent>::empty() + parse_from(s0, buf@, a, 0).1 =~= parse_from(s0, buf@, a, 0).1);
            }
        }
        while i < buf.len()
            invariant
                self.wf(),
                i <= buf@.len(),
                answers.len() == i,
                same_state(self.parse_state(), m),
                handler.events() == h0 + events,
                parse_so_far(s0, buf@, answers, m, events, i as int),
            decreases buf@.len() - i,
        {
            proof {
                if self.state == ParserMode::Utf8 {
                    self.utf8_parser.lemma_open_sequence_remaining();
                }
            }
            let ghost h1 = handler.events();
            match self.state {
                ParserMode::Byte => {
                    let scan = self.scan_text(buf, i);
                    let ghost e = scan.text_end as int;
                    proof { lemma_text_run_end_bounds(buf@, i as int); }
                    if let Some(b) = scan.unhandled {
                        handler.on_unhandled_byte(b);
                    }
                    let ghost h2 = handler.events();
                    if scan.text_end > i {
                        handler.on_ascii_data(vstd::slice::slice_subrange(buf, i, scan.text_end));
                    }
                    let ghost h3 = handler.events();
                    if self.state == ParserMode::Vt100 {
                        handler.on_vt100_start();
                    }
                    proof {
                        let n = scan.next as int;
                        let ev = text_events(buf@, i as int);
                        let m2 = if e < buf@.len() { next_state(m, buf@[e], false) } else { m };
                        assert(handler.events() =~= h1 + ev);
                        let answers2 = answers + Seq::new((n - i) as nat, |k: int| false);
                        assert(answers2.take(i as int) =~= answers);
                        assert forall|a: Seq<bool>| a.len() == buf@.len() && a.take(n) == answers2 implies
                            #[trigger] parse_step(m, buf@, a, i as int) == (m2, ev, n) by {}
                        lemma_parse_advances(s0, buf@, answers, m, events, i as int, answers2, m2, ev, n);
                        answers = answers2;
                        m = m2;
                        events = events + ev;
                        assert(handler.events() =~= h0 + events);
                    }
                    i = scan.next;
                },
                ParserMode::Utf8 => {
                    let b = buf[i];
                    match self.feed_utf8(b) {
                        Err(Utf8ParserError::Pending) => {},
                        Err(err) => handler.on_utf8_error(&err),
                        Ok(c) => handler.on_utf8(c),
                    }
                    proof {
                        let ev = utf8_events(m, b);
                        let m2 = next_state(m, b, false);
                        assert(handler.events() =~= h1 + ev);
                        let answers2 = answers.push(false);
                        assert(answers2.take(i as int) =~= answers);
                        assert forall|a: Seq<bool>| a.len() == buf@.len() && a.take(i + 1) == answers2 implies
                            #[trigger] parse_step(m, buf@, a, i as int) == (m2, ev, i + 1) by {}
                        lemma_parse_advances(s0, buf@, answers, m, events, i as int, answers2, m2, ev, i + 1);
                        answers = answers2;
                        m = m2;
                        events = events + ev;
                        assert(handler.events() =~= h0 + events);
                    }
                    i = i + 1;
                },
                ParserMode::Vt100 => {
                    let b = buf[i];
                    let done = handler.on_vt100_byte(b);
                    if done {
                        self.end_escape();
                    }
                    proof {
                        let ev = seq![ParserEvent::Vt100Byte(b, done)];
                        let m2 = next_state(m, b, done);
                        assert(handler.events() =~= h1 + ev);
                        let answers2 = answers.push(done);
                        assert(answers2.take(i as int) =~= answers);
                        assert forall|a: Seq<bool>| a.len() == buf@.len() && a.take(i + 1) == answers2 implies
                            #[trigger] parse_step(m, buf@, a, i as int) == (m2, ev, i + 1) by {
                            assert(a[i as int] == a.take(i + 1)[i as int]);
                        }
                        lemma_parse_advances(s0, buf@, answers, m, events, i as int, answers2, m2, ev, i + 1);
                        answers = answers2;
                        m = m2;
                        events = events + ev;
                        assert(handler.events() =~= h0 + events);
                    }
                    i = i + 1;
                },
            }
        }
        proof {
            assert(answers.take(i as int) =~= answers);
            assert(parse_from(m, buf@, answers, i as int) == (m, Seq::<ParserEvent>::empty()));
            assert(events + Seq::<ParserEvent>::empty() =~= events);
            assert(parsed(s0, buf@, answers) == (m, events));
            assert(same_state(self.parse_state(), parsed(s0, buf@, answers).0));
            assert(handler.events() == h0 + parsed(s0, buf@, answers).1);
        }
    }
}

/// The bytes of plain text handed over in `events`, in order.
pub open spec fn text_of(events: Seq<ParserEvent>) -> Seq<u8>
    decreases events.len(),
{
    if events.len() == 0 {
        Seq::empty()
    } else {
        match events[0] {
            ParserEvent::AsciiData(t) => t + text_of(events.drop_first()),
            _ => text_of(events.drop_first()),
        }
    }
}

/// The calls in `events` other than those handing over plain text, in order.
pub open spec fn calls_besides_text(events: Seq<ParserEvent>) -> Seq<ParserEvent>
    decreases events.len(),
{
    if events.len() == 0 {
        Seq::empty()
    } else {
        match events[0] {
            ParserEvent::AsciiData(_) => calls_besides_text(events.drop_first()),
            e => seq![e] + calls_besides_text(events.drop_first()),
        }
    }
}

/// The state after byte `b` and the calls it makes, taken on its own: a plain
/// byte in plain mode is a run of text of its own.
pub open spec fn byte_step(s: ParseState, b: u8, end_of_escape: bool) -> (ParseState, Seq<ParserEvent>) {
    match s.mode {
        ParserMode::Byte => {
            if !ends_text_run(b) {
                (s, seq![ParserEvent::AsciiData(seq![b])])
            } else if b == VT100_ESCAPE_CODE {
                (next_state(s, b, false), seq![ParserEvent::Vt100Start])
            } else if sequence_width(b) != 0 {
                (next_state(s, b, false), Seq::empty())
            } else {
                (s, seq![ParserEvent::UnhandledByte(b)])
            }
        },
        ParserMode::Utf8 => (next_state(s, b, false), utf8_events(s, b)),
        ParserMode::Vt100 => (next_state(s, b, end_of_escape), seq![ParserEvent::Vt100Byte(b, end_of_escape)]),
    }
}

/// The bytes `buf` taken one at a time.
pub open spec fn bytewise(s: ParseState, buf: Seq<u8>, answers: Seq<bool>) -> (ParseState, Seq<ParserEvent>)
    decreases buf.len(),
{
    if buf.len() == 0 {
        (s, Seq::empty())
    } else {
        let step = byte_step(s, buf[0], answers[0]);
        let rest = bytewise(step.0, buf.drop_first(), answers.drop_first());
        (rest.0, step.1 + rest.1)
    }
}

/// Plain text and the other calls of `a + b` are those of `a` then those of `b`.
proof fn lemma_projections_distribute(a: Seq<ParserEvent>, b: Seq<ParserEvent>)
    ensures
        text_of(a + b) == text_of(a) + text_of(b),
        calls_besides_text(a + b) == calls_besides_text(a) + calls_besides_text(b),
    decreases a.len(),
{
    if a.len() == 0 {
        assert(a + b =~= b);
        assert(text_of(a) + text_of(b) =~= text_of(b));
        assert(calls_besides_text(a) + calls_besides_text(b) =~= calls_besides_text(b));
    } else {
        assert((a + b).drop_first() =~= a.drop_first() + b);
        assert((a + b)[0] == a[0]);
        lemma_projections_distribute(a.drop_first(), b);
        match a[0] {
            ParserEvent::AsciiData(t) => {
                assert(t + (text_of(a.drop_first()) + text_of(b)) =~= (t + text_of(a.drop_first())) + text_of(b));
            },
            e => {
                assert(seq![e] + (calls_besides_text(a.drop_first()) + calls_besides_text(b))
                    =~= (seq![e] + calls_besides_text(a.drop_first())) + calls_besides_text(b));
            },
        }
    }
}

/// Taking `x + y` a byte at a time is taking `x`, then `y` from where `x` left off.
proof fn lemma_bytewise_concat(s: ParseState, x: Seq<u8>, y: Seq<u8>, ax: Seq<bool>, ay: Seq<bool>)
    requires
        ax.len() == x.len(),
    ensures
        bytewise(s, x + y, ax + ay).0 == bytewise(bytewise(s, x, ax).0, y, ay).0,
        bytewise(s, x + y, ax + ay).1 == bytewise(s, x, ax).1 + bytewise(bytewise(s, x, ax).0, y, ay).1,
    decreases x.len(),
{
    if x.len() == 0 {
        assert(x + y =~= y);
        assert(ax + ay =~= ay);
        assert(Seq::<ParserEvent>::empty() + bytewise(s, y, ay).1 =~= bytewise(s, y, ay).1);
    } else {
        assert((x + y).drop_first() =~= x.drop_first() + y);
        assert((ax + ay).drop_first() =~= ax.drop_first() + ay);
        assert((x + y)[0] == x[0]);
        assert((ax + ay)[0] == ax[0]);
        let step = byte_step(s, x[0], ax[0]);
        lemma_bytewise_concat(step.0, x.drop_first(), y, ax.drop_first(), ay);
        let mid = bytewise(step.0, x.drop_first(), ax.drop_first());
        let last = bytewise(mid.0, y, ay);
        assert(step.1 + (mid.1 + last.1) =~= (step.1 + mid.1) + last.1);
    }
}

/// A run of plain bytes taken a byte at a time hands over the same text and
/// leaves the state as it was.
proof fn lemma_bytewise_plain_run(s: ParseState, buf: Seq<u8>, answers: Seq<bool>, i: int, e: int)
    requires
        s.mode == ParserMode::Byte,
        0 <= i <= e <= buf.len(),
        answers.len() == buf.len(),
        forall|k: int| i <= k < e ==> !ends_text_run(#[trigger] buf[k]),
    ensures
        bytewise(s, buf.skip(i), answers.skip(i)).0 == bytewise(s, buf.skip(e), answers.skip(e)).0,
        text_of(bytewise(s, buf.skip(i), answers.skip(i)).1)
            == buf.subrange(i, e) + text_of(bytewise(s, buf.skip(e), answers.skip(e)).1),
        calls_besides_text(bytewise(s, buf.skip(i), answers.skip(i)).1)
            == calls_besides_text(bytewise(s, buf.skip(e), answers.skip(e)).1),
    decreases e - i,
{
    if i == e {
        assert(buf.subrange(i, e) + text_of(bytewise(s, buf.skip(e), answers.skip(e)).1)
            =~= text_of(bytewise(s, buf.skip(e), answers.skip(e)).1));
    } else {
        lemma_bytewise_plain_run(s, buf, answers, i + 1, e);
        assert(buf.skip(i).drop_first() =~= buf.skip(i + 1));
        assert(answers.skip(i).drop_first() =~= answers.skip(i + 1));
        assert(buf.skip(i)[0] == buf[i]);
        let rest = bytewise(s, buf.skip(i + 1), answers.skip(i + 1));
        let ev = seq![ParserEvent::AsciiData(seq![buf[i]])];
        lemma_projections_distribute(ev, rest.1);
        assert(ev.drop_first() =~= Seq::<ParserEvent>::empty());
        assert(text_of(ev.drop_first()) =~= Seq::<u8>::empty());
        assert(calls_besides_text(ev.drop_first()) =~= Seq::<ParserEvent>::empty());
        assert(seq![buf[i]] + Seq::<u8>::empty() =~= seq![buf[i]]);
        assert(text_of(ev) =~= seq![buf[i]]);
        assert(seq![buf[i]] + (buf.subrange(i + 1, e) + text_of(bytewise(s, buf.skip(e), answers.skip(e)).1))
            =~= buf.subrange(i, e) + text_of(bytewise(s, buf.skip(e), answers.skip(e)).1));
        assert(calls_besides_text(ev) =~= Seq::<ParserEvent>::empty());
        assert(Seq::<ParserEvent>::empty() + calls_besides_text(rest.1) =~= calls_besides_text(rest.1));
    }
}

/// Parsing from `i` hands over the same text and the same other calls, and
/// ends in the same state, as taking the bytes from `i` one at a time.
proof fn lemma_parse_is_bytewise(s: ParseState, buf: Seq<u8>, answers: Seq<bool>, i: int)
    requires
        0 <= i <= buf.len(),
        answers.len() == buf.len(),
    ensures
        parse_from(s, buf, answers, i).0 == bytewise(s, buf.skip(i), answers.skip(i)).0,
        text_of(parse_from(s, buf, answers, i).1) == text_of(bytewise(s, buf.skip(i), answers.skip(i)).1),
        calls_besides_text(parse_from(s, buf, answers, i).1) == calls_besides_text(bytewise(s, buf.skip(i), answers.skip(i)).1),
    decreases buf.len() - i,
{
    if i == buf.len() {
        assert(buf.skip(i) =~= Seq::<u8>::empty());
    } else {
        let step = parse_step(s, buf, answers, i);
        assert(buf.skip(i).drop_first() =~= buf.skip(i + 1));
        assert(answers.skip(i).drop_first() =~= answers.skip(i + 1));
        assert(buf.skip(i)[0] == buf[i]);
        assert(answers.skip(i)[0] == answers[i]);
        match s.mode {
            ParserMode::Byte => {
                let e = text_run_end(buf, i);
                lemma_text_run_end_bounds(buf, i);
                lemma_bytewise_plain_run(s, buf, answers, i, e);
                let text = if e > i { seq![ParserEvent::AsciiData(buf.subrange(i, e))] } else { Seq::<ParserEvent>::empty() };
                assert(text_of(text) =~= buf.subrange(i, e) && calls_besides_text(text) =~= Seq::<ParserEvent>::empty()) by {
                    if e > i {
                        assert(text.drop_first() =~= Seq::<ParserEvent>::empty());
                        assert(text_of(text.drop_first()) =~= Seq::<u8>::empty());
                        assert(calls_besides_text(text.drop_first()) =~= Seq::<ParserEvent>::empty());
                        assert(buf.subrange(i, e) + Seq::<u8>::empty() =~= buf.subrange(i, e));
                    } else {
                        assert(buf.subrange(i, e) =~= Seq::<u8>::empty());
                    }
                }
                if e == buf.len() {
                    assert(e > i);
                    assert(buf.skip(e) =~= Seq::<u8>::empty());
                    let rest = parse_from(s, buf, answers, e);
                    assert(step.1 =~= text);
                    lemma_projections_distribute(step.1, rest.1);
                    assert(buf.subrange(i, e) + Seq::<u8>::empty() =~= buf.subrange(i, e));
                } else {
                    let b = buf[e];
                    let unhandled = if b != VT100_ESCAPE_CODE && sequence_width(b) == 0 {
                        seq![ParserEvent::UnhandledByte(b)]
                    } else {
                        Seq::<ParserEvent>::empty()
                    };
                    let start = if b == VT100_ESCAPE_CODE { seq![ParserEvent::Vt100Start] } else { Seq::<ParserEvent>::empty() };
                    assert(step.1 == unhandled + text + start);
                    lemma_parse_is_bytewise(step.0, buf, answers, e + 1);
                    let rest = parse_from(step.0, buf, answers, e + 1);
                    let after = bytewise(step.0, buf.skip(e + 1), answers.skip(e + 1));
                    assert(buf.skip(e).drop_first() =~= buf.skip(e + 1));
                    assert(answers.skip(e).drop_first() =~= answers.skip(e + 1));
                    assert(buf.skip(e)[0] == b);
                    assert(answers.skip(e)[0] == answers[e]);
                    let bstep = byte_step(s, b, answers[e]);
                    assert(bstep.0 == step.0);
                    assert(bstep.1 == unhandled + start);
                    lemma_projections_distribute(unhandled + text, start);
                    lemma_projections_distribute(unhandled, text);
                    lemma_projections_distribute(step.1, rest.1);
                    lemma_projections_distribute(bstep.1, after.1);
                    lemma_projections_distribute(unhandled, start);
                    assert(text_of(unhandled) =~= Seq::<u8>::empty()) by {
                        if b != VT100_ESCAPE_CODE && sequence_width(b) == 0 {
                            assert(unhandled.drop_first() =~= Seq::<ParserEvent>::empty());
                            assert(text_of(unhandled.drop_first()) =~= Seq::<u8>::empty());
                        }
                    }
                    assert(text_of(start) =~= Seq::<u8>::empty()) by {
                        if b == VT100_ESCAPE_CODE {
                            assert(start.drop_first() =~= Seq::<ParserEvent>::empty());
                            assert(text_of(start.drop_first()) =~= Seq::<u8>::empty());
                        }
                    }
                    assert(Seq::<u8>::empty() + buf.subrange(i, e) + Seq::<u8>::empty() + text_of(after.1)
                        =~= buf.subrange(i, e) + (Seq::<u8>::empty() + Seq::<u8>::empty() + text_of(after.1)));
                    assert(calls_besides_text(unhandled) + Seq::<ParserEvent>::empty() + calls_besides_text(start)
                        =~= calls_besides_text(unhandled) + calls_besides_text(start));
                }
            },
            _ => {
                lemma_parse_is_bytewise(step.0, buf, answers, i + 1);
                let rest = parse_from(step.0, buf, answers, i + 1);
                let after = bytewise(step.0, buf.skip(i + 1), answers.skip(i + 1));
                lemma_projections_distribute(step.1, rest.1);
                lemma_projections_distribute(step.1, after.1);
            },
        }
    }
}

/// Bytes split over two calls are parsed as they are in one: the parser ends
/// in the same state, hands over the same text in the same order (a run that
/// the split cuts comes in two pieces) and makes the same other calls in the
/// same order; `answers` are the handler's answers to the bytes of `x + y`.
pub proof fn lemma_split_parse(s: ParseState, x: Seq<u8>, y: Seq<u8>, answers: Seq<bool>)
    requires
        answers.len() == x.len() + y.len(),
    ensures
        ({
            let first = parsed(s, x, answers.take(x.len() as int));
            let second = parsed(first.0, y, answers.skip(x.len() as int));
            let whole = parsed(s, x + y, answers);
            &&& whole.0 == second.0
            &&& text_of(whole.1) == text_of(first.1) + text_of(second.1)
            &&& calls_besides_text(whole.1) == calls_besides_text(first.1) + calls_besides_text(second.1)
        }),
{
    let ax = answers.take(x.len() as int);
    let ay = answers.skip(x.len() as int);
    assert(ax + ay =~= answers);
    lemma_parse_is_bytewise(s, x, ax, 0);
    lemma_parse_is_bytewise(s, x + y, answers, 0);
    assert(x.skip(0) =~= x);
    assert(ax.skip(0) =~= ax);
    assert((x + y).skip(0) =~= x + y);
    assert(answers.skip(0) =~= answers);
    let first = parsed(s, x, ax);
    lemma_parse_is_bytewise(first.0, y, ay, 0);
    assert(y.skip(0) =~= y);
    assert(ay.skip(0) =~= ay);
    lemma_bytewise_concat(s, x, y, ax, ay);
    lemma_projections_distribute(bytewise(s, x, ax).1, bytewise(bytewise(s, x, ax).0, y, ay).1);
}

/// The bytes before `i` are parsed: whatever the handler answers from `i`
/// on (`answers` being its answers before `i`), parsing the whole buffer
/// ends as parsing on from `i` in state `m` does, after the calls `events`.
pub open spec fn parse_so_far(s0: ParseState, buf: Seq<u8>, answers: Seq<bool>, m: ParseState, events: Seq<ParserEvent>, i: int) -> bool {
    forall|a: Seq<bool>| a.len() == buf.len() && a.take(i) == answers ==>
        #[trigger] parsed(s0, buf, a) == (parse_from(m, buf, a, i).0, events + parse_from(m, buf, a, i).1)
}

/// One more step parsed: where the step from `i` in state `m` leads to `m2`
/// at `n` with the calls `ev`, whatever the handler answers past `n`.
proof fn lemma_parse_advances(
    s0: ParseState,
    buf: Seq<u8>,
    answers: Seq<bool>,
    m: ParseState,
    events: Seq<ParserEvent>,
    i: int,
    answers2: Seq<bool>,
    m2: ParseState,
    ev: Seq<ParserEvent>,
    n: int,
)
    requires
        parse_so_far(s0, buf, answers, m, events, i),
        0 <= i < n <= buf.len(),
        answers.len() == i,
        answers2.len() == n,
        answers2.take(i) == answers,
        forall|a: Seq<bool>| a.len() == buf.len() && a.take(n) == answers2 ==>
            #[trigger] parse_step(m, buf, a, i) == (m2, ev, n),
    ensures
        parse_so_far(s0, buf, answers2, m2, events + ev, n),
{
    assert forall|a: Seq<bool>| a.len() == buf.len() && a.take(n) == answers2 implies
        #[trigger] parsed(s0, buf, a) == (parse_from(m2, buf, a, n).0, (events + ev) + parse_from(m2, buf, a, n).1) by {
        assert(a.take(i) =~= a.take(n).take(i));
        let step = parse_step(m, buf, a, i);
        assert(step == (m2, ev, n));
        assert(events + (ev + parse_from(m2, buf, a, n).1) =~= (events + ev) + parse_from(m2, buf, a, n).1);
    }
}

/// A run of plain text ends within the buffer, no earlier than it starts; all
/// the bytes before its end are plain text, and the byte at its end, if any,
/// ends it.
pub proof fn lemma_text_run_end_bounds(buf: Seq<u8>, start: int)
    requires
        0 <= start <= buf.len(),
    ensures
        start <= text_run_end(buf, start) <= buf.len(),
        forall|i: int| start <= i < text_run_end(buf, start) ==> !ends_text_run(#[trigger] buf[i]),
        text_run_end(buf, start) < buf.len() ==> ends_text_run(buf[text_run_end(buf, start)]),
    decreases buf.len() - start,
{
    if start < buf.len() && !ends_text_run(buf[start]) {
        lemma_text_run_end_bounds(buf, start + 1);
    }
}

/// Bytes that are all plain text make a single run, up to the end of the buffer.
pub proof fn lemma_plain_text_is_one_run(buf: Seq<u8>, start: int)
    requires
        0 <= start <= buf.len(),
        forall|i: int| start <= i < buf.len() ==> !ends_text_run(#[trigger] buf[i]),
    ensures
        text_run_end(buf, start) == buf.len(),
{
    lemma_text_run_end_bounds(buf, start);
}

impl Default for TerminalParser {
    /// A parser that expects plain bytes.
    fn default() -> (r: Self)
        ensures
            r.wf(),
            r.mode() == ParserMode::Byte,
    {
        TerminalParser { state: ParserMode::Byte, utf8_parser: Utf8Parser::new() }
    }
}

} // verus!
