//! Decoders of the byte streams that the runtime answers with.
//!
//! Both decoders work on a buffer that the caller appends to. `decode` takes
//! at most one complete item from the front of the buffer, `feed` every one
//! that is there. A partial item stays where it is for the bytes to come: to
//! have too few bytes is no error.

use crate::docker::buffer::{buffer_advance, buffer_bytes, buffered, chunk, chunk_slice};
use crate::docker::errors::{Error, ErrorView};
use crate::docker::json::{JsonFailure, JsonFailureView, JsonRecord};
use crate::docker::utils::{lossy_text, utf8_lossy, LogOutput, LogRecord, StreamKind};
use serde_json::error::Category;
use std::marker::PhantomData;
use tokio_util::bytes::{Bytes, BytesMut};
use vstd::prelude::*;

verus! {

/// The byte that ends a line.
pub const NEWLINE: u8 = 10;

/// The length of a frame's header.
pub const HEADER_LENGTH: usize = 8;

/// Whether the first newline of `bytes` stands at `pos`.
pub open spec fn newline_at(bytes: Seq<u8>, pos: int) -> bool {
    &&& 0 <= pos < bytes.len()
    &&& bytes[pos] == NEWLINE
    &&& forall|j: int| 0 <= j < pos ==> bytes[j] != NEWLINE
}

/// The place of the first newline of `bytes`, if it holds one.
pub open spec fn first_newline(bytes: Seq<u8>) -> Option<int> {
    if exists|pos: int| newline_at(bytes, pos) {
        Some(choose|pos: int| newline_at(bytes, pos))
    } else {
        None
    }
}

/// There is one first newline at most.
pub proof fn lemma_first_newline_is(bytes: Seq<u8>, pos: int)
    requires
        newline_at(bytes, pos),
    ensures
        first_newline(bytes) == Some(pos),
{
    let other = choose|p: int| newline_at(bytes, p);
    assert(newline_at(bytes, other));
    if other < pos {
        assert(bytes[other] != NEWLINE);
    } else if pos < other {
        assert(bytes[pos] != NEWLINE);
    }
}

/// Bytes without a newline have no first one.
pub proof fn lemma_first_newline_none(bytes: Seq<u8>)
    requires
        forall|j: int| 0 <= j < bytes.len() ==> bytes[j] != NEWLINE,
    ensures
        first_newline(bytes) is None,
{
    if exists|pos: int| newline_at(bytes, pos) {
        let pos = choose|pos: int| newline_at(bytes, pos);
        assert(bytes[pos] == NEWLINE);
    }
}

/// Looks for the first newline.
pub fn find_newline(bytes: &[u8]) -> (res: Option<usize>)
    ensures
        match res {
            Some(pos) => pos < bytes@.len() <= usize::MAX && first_newline(bytes@) == Some(
                pos as int,
            ),
            None => first_newline(bytes@) is None,
        },
{
    let mut i: usize = 0;
    while i < bytes.len()
        invariant
            i <= bytes.len(),
            forall|j: int| 0 <= j < i ==> bytes@[j] != NEWLINE,
        decreases bytes.len() - i,
    {
        if bytes[i] == NEWLINE {
            proof {
                lemma_first_newline_is(bytes@, i as int);
            }
            return Some(i);
        }
        i += 1;
    }
    proof {
        lemma_first_newline_none(bytes@);
    }
    None
}

/// Where the frame decoder stands: before a header, or before the payload
/// that a header of the given type byte and length announced.
pub enum FrameState {
    Header,
    Payload { kind: u8, length: nat },
}

/// What a frame decoder is: where it stands, and whether it hands unframed
/// output on as it arrives rather than line by line.
pub struct FrameDecoder {
    pub state: FrameState,
    pub is_tcp: bool,
}

/// What one call of the frame decoder does: where the decoder stands after
/// it, the bytes left in the buffer, and the item that came out, if any.
pub struct FrameStep {
    pub state: FrameState,
    pub rest: Seq<u8>,
    pub item: Option<LogRecord>,
}

/// The payload length that a header announces: its last four bytes as a
/// big-endian number.
pub open spec fn payload_length(header: Seq<u8>) -> nat {
    (header[4] * 0x100_0000 + header[5] * 0x1_0000 + header[6] * 0x100 + header[7]) as nat
}

/// The channel that a header's type byte names.
pub open spec fn stream_kind(kind: u8) -> StreamKind {
    if kind == 0 {
        StreamKind::StdIn
    } else if kind == 1 {
        StreamKind::StdOut
    } else {
        StreamKind::StdErr
    }
}

/// A call that stands before a payload: it waits until the whole payload is
/// there, then takes exactly that many bytes as one item.
pub open spec fn payload_step(kind: u8, length: nat, buffer: Seq<u8>) -> FrameStep {
    if buffer.len() < length {
        FrameStep { state: FrameState::Payload { kind, length }, rest: buffer, item: None }
    } else {
        FrameStep {
            state: FrameState::Header,
            rest: buffer.skip(length as int),
            item: Some(LogRecord { kind: stream_kind(kind), message: buffer.take(length as int) }),
        }
    }
}

/// A call that stands before a header. Output that starts with a byte above 2
/// carries no frames: it is handed on whole, or up to and with its first
/// newline. Else the call waits for eight bytes of header, takes them, and
/// goes on with the payload.
pub open spec fn header_step(is_tcp: bool, buffer: Seq<u8>) -> FrameStep {
    if buffer.len() > 0 && buffer[0] > 2 {
        if is_tcp {
            FrameStep {
                state: FrameState::Header,
                rest: Seq::empty(),
                item: Some(LogRecord { kind: StreamKind::Console, message: buffer }),
            }
        } else {
            match first_newline(buffer) {
                Some(pos) => FrameStep {
                    state: FrameState::Header,
                    rest: buffer.skip(pos + 1),
                    item: Some(
                        LogRecord { kind: StreamKind::Console, message: buffer.take(pos + 1) },
                    ),
                },
                None => FrameStep { state: FrameState::Header, rest: buffer, item: None },
            }
        }
    } else if buffer.len() < HEADER_LENGTH {
        FrameStep { state: FrameState::Header, rest: buffer, item: None }
    } else {
        payload_step(buffer[0], payload_length(buffer), buffer.skip(HEADER_LENGTH as int))
    }
}

/// One call of the frame decoder on a buffer.
pub open spec fn frame_step(decoder: FrameDecoder, buffer: Seq<u8>) -> FrameStep {
    match decoder.state {
        FrameState::Header => header_step(decoder.is_tcp, buffer),
        FrameState::Payload { kind, length } => payload_step(kind, length, buffer),
    }
}

/// The item of a call, if any, by its view.
pub open spec fn record_of(item: Option<LogOutput>) -> Option<LogRecord> {
    match item {
        Some(output) => Some(output@),
        None => None,
    }
}

/// The header of a frame: the type byte, three bytes of zero, and the
/// length of the payload as a big-endian number of four bytes.
pub open spec fn frame_header(kind: u8, length: nat) -> Seq<u8> {
    seq![
        kind,
        0u8,
        0u8,
        0u8,
        (length / 0x100_0000) as u8,
        (length / 0x1_0000 % 0x100) as u8,
        (length / 0x100 % 0x100) as u8,
        (length % 0x100) as u8,
    ]
}

/// A frame: its header, then its payload.
pub open spec fn frame(kind: u8, payload: Seq<u8>) -> Seq<u8> {
    frame_header(kind, payload.len()) + payload
}

/// A header announces the length that it was written for.
pub proof fn lemma_header_length(kind: u8, length: nat, rest: Seq<u8>)
    requires
        length < 0x1_0000_0000,
    ensures
        payload_length(frame_header(kind, length) + rest) == length,
{
    let header = frame_header(kind, length) + rest;
    assert(header[4] == (length / 0x100_0000) as u8);
    assert(header[5] == (length / 0x1_0000 % 0x100) as u8);
    assert(header[6] == (length / 0x100 % 0x100) as u8);
    assert(header[7] == (length % 0x100) as u8);
    assert(length / 0x100_0000 < 0x100);
}

/// A frame at the front of a buffer comes out whole, whatever follows it:
/// one call takes the header and the payload, hands out the payload on the
/// channel that the type byte names, and leaves what follows.
pub proof fn lemma_frame_decodes(is_tcp: bool, kind: u8, payload: Seq<u8>, rest: Seq<u8>)
    requires
        kind <= 2,
        payload.len() < 0x1_0000_0000,
    ensures
        frame_step(FrameDecoder { state: FrameState::Header, is_tcp }, frame(kind, payload) + rest)
            == (FrameStep {
            state: FrameState::Header,
            rest,
            item: Some(LogRecord { kind: stream_kind(kind), message: payload }),
        }),
{
    let buffer = frame(kind, payload) + rest;
    let header = frame_header(kind, payload.len());
    assert(buffer =~= header + (payload + rest));
    lemma_header_length(kind, payload.len(), payload + rest);
    assert(buffer[0] == kind);
    assert(buffer.skip(HEADER_LENGTH as int) =~= payload + rest);
    assert((payload + rest).take(payload.len() as int) =~= payload);
    assert((payload + rest).skip(payload.len() as int) =~= rest);
}

/// A frame that arrives in two writes comes out whole and once. However
/// the frame is cut, the call after the first write hands out nothing, and
/// the call after the second write hands out the payload and leaves what
/// follows the frame.
pub proof fn lemma_frame_in_two_writes(
    is_tcp: bool,
    kind: u8,
    payload: Seq<u8>,
    rest: Seq<u8>,
    cut: int,
)
    requires
        kind <= 2,
        payload.len() < 0x1_0000_0000,
        0 <= cut < frame(kind, payload).len(),
    ensures
        ({
            let whole = frame(kind, payload);
            let first = frame_step(
                FrameDecoder { state: FrameState::Header, is_tcp },
                whole.take(cut),
            );
            let second = frame_step(
                FrameDecoder { state: first.state, is_tcp },
                first.rest + whole.skip(cut) + rest,
            );
            &&& first.item is None
            &&& second == (FrameStep {
                state: FrameState::Header,
                rest,
                item: Some(LogRecord { kind: stream_kind(kind), message: payload }),
            })
        }),
{
    let whole = frame(kind, payload);
    let header = frame_header(kind, payload.len());
    let written = whole.take(cut);
    let length = payload.len();
    if cut > 0 {
        assert(written[0] == kind);
    }
    if cut < HEADER_LENGTH {
        assert(written + whole.skip(cut) + rest =~= whole + rest);
        lemma_frame_decodes(is_tcp, kind, payload, rest);
    } else {
        assert(written =~= header + payload.take(cut - HEADER_LENGTH));
        lemma_header_length(kind, length, payload.take(cut - HEADER_LENGTH));
        assert(written.skip(HEADER_LENGTH as int) =~= payload.take(cut - HEADER_LENGTH));
        let kept = payload.take(cut - HEADER_LENGTH);
        assert(kept + whole.skip(cut) + rest =~= payload + rest);
        assert((payload + rest).take(length as int) =~= payload);
        assert((payload + rest).skip(length as int) =~= rest);
    }
}

/// Output without frames comes out line by line: from a buffer that starts
/// with a byte above 2, a call takes the bytes up to and with the first
/// newline, and nothing while there is no newline.
pub proof fn lemma_unframed_line(line: Seq<u8>, rest: Seq<u8>)
    requires
        line.len() > 0,
        line[0] > 2,
        forall|j: int| 0 <= j < line.len() ==> line[j] != NEWLINE,
    ensures
        frame_step(FrameDecoder { state: FrameState::Header, is_tcp: false }, line) == (FrameStep {
            state: FrameState::Header,
            rest: line,
            item: None,
        }),
        frame_step(
            FrameDecoder { state: FrameState::Header, is_tcp: false },
            line + seq![NEWLINE] + rest,
        ) == (FrameStep {
            state: FrameState::Header,
            rest,
            item: Some(LogRecord { kind: StreamKind::Console, message: line + seq![NEWLINE] }),
        }),
{
    lemma_first_newline_none(line);
    let buffer = line + seq![NEWLINE] + rest;
    assert(buffer[0] == line[0]);
    assert(newline_at(buffer, line.len() as int)) by {
        assert forall|j: int| 0 <= j < line.len() implies buffer[j] != NEWLINE by {
            assert(buffer[j] == line[j]);
        }
    }
    lemma_first_newline_is(buffer, line.len() as int);
    assert(buffer.take(line.len() as int + 1) =~= line + seq![NEWLINE]);
    assert(buffer.skip(line.len() as int + 1) =~= rest);
}

/// What a buffer gives when its frames are decoded to the end: the items,
/// where the decoder stands behind them, and the bytes that stay.
pub struct FramesFed {
    pub items: Seq<LogRecord>,
    pub state: FrameState,
    pub rest: Seq<u8>,
}

/// How far a frame decoder is from the end of a buffer: a call that hands
/// out an item brings it closer.
pub open spec fn frame_distance(state: FrameState, buffer: Seq<u8>) -> nat {
    if state is Payload {
        2 * buffer.len() + 1
    } else {
        2 * buffer.len()
    }
}

/// What the frame decoder makes of a buffer, call after call, until a call
/// hands out nothing.
pub open spec fn frames_fed(decoder: FrameDecoder, buffer: Seq<u8>) -> FramesFed
    decreases frame_distance(decoder.state, buffer),
{
    let step = frame_step(decoder, buffer);
    match step.item {
        Some(record) => if frame_distance(step.state, step.rest) < frame_distance(
            decoder.state,
            buffer,
        ) {
            let then = frames_fed(
                FrameDecoder { state: step.state, is_tcp: decoder.is_tcp },
                step.rest,
            );
            FramesFed { items: seq![record] + then.items, state: then.state, rest: then.rest }
        } else {
            FramesFed { items: seq![record], state: step.state, rest: step.rest }
        },
        None => FramesFed { items: Seq::empty(), state: step.state, rest: step.rest },
    }
}

/// A call of the frame decoder that hands out an item brings the decoder
/// closer to the end of the buffer: calls that hand out items come to an
/// end.
pub proof fn lemma_frame_step_shrinks(decoder: FrameDecoder, buffer: Seq<u8>)
    ensures
        frame_step(decoder, buffer).item is Some ==> frame_distance(
            frame_step(decoder, buffer).state,
            frame_step(decoder, buffer).rest,
        ) < frame_distance(decoder.state, buffer),
        frame_step(decoder, buffer).rest.len() <= buffer.len(),
{
    match decoder.state {
        FrameState::Header => {
            if buffer.len() > 0 && buffer[0] > 2 {
                if !decoder.is_tcp {
                    match first_newline(buffer) {
                        Some(pos) => {
                            assert(newline_at(buffer, pos));
                        },
                        None => {},
                    }
                }
            }
        },
        FrameState::Payload { .. } => {},
    }
}

/// The items of a feed as the contracts see them.
pub open spec fn records_of(items: Seq<LogOutput>) -> Seq<LogRecord> {
    items.map_values(|item: LogOutput| item@)
}

#[derive(Debug, Clone, Copy)]
enum NewlineLogOutputDecoderState {
    WaitingHeader,
    WaitingPayload(u8, usize),
}

/// Decodes the frames of a multiplexed output stream: a header of one type
/// byte, three bytes that mean nothing and four bytes of length, then the
/// payload.
#[derive(Debug, Clone, Copy)]
pub struct NewlineLogOutputDecoder {
    state: NewlineLogOutputDecoderState,
    is_tcp: bool,
}

impl View for NewlineLogOutputDecoder {
    type V = FrameDecoder;

    closed spec fn view(&self) -> FrameDecoder {
        FrameDecoder {
            state: match self.state {
                NewlineLogOutputDecoderState::WaitingHeader => FrameState::Header,
                NewlineLogOutputDecoderState::WaitingPayload(kind, length) => FrameState::Payload {
                    kind,
                    length: length as nat,
                },
            },
            is_tcp: self.is_tcp,
        }
    }
}

impl NewlineLogOutputDecoder {
    /// A decoder that stands before the first header.
    pub fn new(is_tcp: bool) -> (res: NewlineLogOutputDecoder)
        ensures
            res@ == (FrameDecoder { state: FrameState::Header, is_tcp }),
    {
        NewlineLogOutputDecoder { state: NewlineLogOutputDecoderState::WaitingHeader, is_tcp }
    }

    /// Takes the next item from the front of `src`, if it is there in full.
    /// The decoder, the buffer and the item are those of `frame_step`. The
    /// call never fails.
    pub fn decode(&mut self, src: &mut BytesMut) -> (res: Result<Option<LogOutput>, Error>)
        ensures
            res matches Ok(item) && ({
                let step = frame_step(old(self)@, buffered(*old(src)));
                &&& final(self)@ == (FrameDecoder { state: step.state, is_tcp: old(self)@.is_tcp })
                &&& buffered(*final(src)) == step.rest
                &&& record_of(item) == step.item
            }),
    {
        if let NewlineLogOutputDecoderState::WaitingHeader = self.state {
            let bytes = buffer_bytes(src);
            if bytes.len() > 0 && bytes[0] > 2 {
                if self.is_tcp {
                    let message = src.split_to(bytes.len()).freeze();
                    assert(buffered(*old(src)).take(bytes.len() as int) =~= buffered(*old(src)));
                    assert(buffered(*src) =~= Seq::<u8>::empty());
                    return Ok(Some(LogOutput::Console { message }));
                }
                return match find_newline(bytes) {
                    Some(pos) => {
                        let message = src.split_to(pos + 1).freeze();
                        Ok(Some(LogOutput::Console { message }))
                    },
                    None => Ok(None),
                };
            }
            if bytes.len() < HEADER_LENGTH {
                return Ok(None);
            }
            let kind = bytes[0];
            let length = (bytes[4] as u32) * 0x100_0000 + (bytes[5] as u32) * 0x1_0000 + (
            bytes[6] as u32) * 0x100 + (bytes[7] as u32);
            let _ = src.split_to(HEADER_LENGTH);
            self.state = NewlineLogOutputDecoderState::WaitingPayload(kind, length as usize);
        }
        match self.state {
            NewlineLogOutputDecoderState::WaitingPayload(kind, length) => {
                if buffer_bytes(src).len() < length {
                    Ok(None)
                } else {
                    let message = src.split_to(length).freeze();
                    let item = if kind == 0 {
                        LogOutput::StdIn { message }
                    } else if kind == 1 {
                        LogOutput::StdOut { message }
                    } else {
                        LogOutput::StdErr { message }
                    };
                    self.state = NewlineLogOutputDecoderState::WaitingHeader;
                    Ok(Some(item))
                }
            },
            NewlineLogOutputDecoderState::WaitingHeader => Ok(None),
        }
    }

    /// Takes every item from the front of `src` that is there in full, in
    /// their order, and keeps what is left for the bytes to come. The items,
    /// the decoder and the buffer are those of `frames_fed`.
    pub fn feed(&mut self, src: &mut BytesMut) -> (res: Vec<LogOutput>)
        ensures
            ({
                let fed = frames_fed(old(self)@, buffered(*old(src)));
                &&& records_of(res@) == fed.items
                &&& final(self)@ == (FrameDecoder { state: fed.state, is_tcp: old(self)@.is_tcp })
                &&& buffered(*final(src)) == fed.rest
            }),
    {
        let mut out: Vec<LogOutput> = Vec::new();
        let ghost whole = frames_fed(self@, buffered(*src));
        assert(records_of(out@) =~= Seq::empty());
        loop
            invariant_except_break
                self@.is_tcp == old(self)@.is_tcp,
                whole.items == records_of(out@) + frames_fed(self@, buffered(*src)).items,
                whole.state == frames_fed(self@, buffered(*src)).state,
                whole.rest == frames_fed(self@, buffered(*src)).rest,
            ensures
                whole.items == records_of(out@),
                self@ == (FrameDecoder { state: whole.state, is_tcp: old(self)@.is_tcp }),
                whole.rest == buffered(*src),
            decreases frame_distance(self@.state, buffered(*src)),
        {
            let ghost decoder = self@;
            let ghost buffer = buffered(*src);
            let ghost before = records_of(out@);
            proof {
                lemma_frame_step_shrinks(decoder, buffer);
            }
            match self.decode(src) {
                Ok(Some(item)) => {
                    out.push(item);
                    proof {
                        let step = frame_step(decoder, buffer);
                        let then = frames_fed(self@, step.rest);
                        assert(records_of(out@) =~= before + seq![item@]);
                        assert(before + (seq![item@] + then.items) =~= before + seq![item@]
                            + then.items);
                    }
                },
                _ => {
                    proof {
                        assert(whole.items =~= records_of(out@));
                    }
                    break ;
                },
            }
        }
        out
    }
}

/// What the decoder makes of a text that should hold one JSON value.
pub enum LineReading<M> {
    /// The text holds this value.
    Item(M),
    /// The text holds no value yet: it ends in the middle of one, or is `null`.
    Nothing,
    /// The text is broken.
    Fail(ErrorView),
}

/// The error that a failed reading of `text` is reported as: a text that is
/// no JSON, or not of the shape asked for, with the column and the text
/// itself.
pub open spec fn decode_error(failure: JsonFailureView, text: Seq<u8>) -> ErrorView {
    match failure.kind {
        Category::Data | Category::Syntax => ErrorView::JsonDataError {
            message: failure.message,
            column: failure.column,
            contents: utf8_lossy(text),
        },
        _ => ErrorView::JsonSerdeError { message: failure.message },
    }
}

/// What the decoder makes of `text`. A text that ends too early is no error:
/// more bytes may follow.
pub open spec fn line_reading<T: JsonRecord>(text: Seq<u8>) -> LineReading<T::Model> {
    match T::json(text) {
        Ok(Some(model)) => LineReading::Item(model),
        Ok(None) => LineReading::Nothing,
        Err(failure) => if failure.kind is Eof {
            LineReading::Nothing
        } else {
            LineReading::Fail(decode_error(failure, text))
        },
    }
}

/// What one call of the line decoder does: the bytes left in the buffer, and
/// what was read.
pub struct LineStep<M> {
    pub rest: Seq<u8>,
    pub reading: LineReading<M>,
}

/// One call of the line decoder on a buffer.
///
/// With a newline in the buffer, the text before the first one is read. A
/// value is taken with its newline. Where the text ends in the middle of a
/// value the newline lies inside that value: it is taken out, so that the next
/// call reads up to the newline after it. A broken text stays with its newline
/// and what follows is dropped.
///
/// Without a newline the whole buffer is read, and emptied if it holds a
/// value. If it holds none, for whatever reason, the call waits and the
/// buffer stays as it is: whether the text is broken shows when its newline
/// has come.
pub open spec fn json_line_step<T: JsonRecord>(buffer: Seq<u8>) -> LineStep<T::Model> {
    if buffer.len() == 0 {
        LineStep { rest: buffer, reading: LineReading::Nothing }
    } else {
        match first_newline(buffer) {
            Some(pos) => {
                let reading = line_reading::<T>(buffer.take(pos));
                LineStep {
                    rest: match reading {
                        LineReading::Item(_) => buffer.skip(pos + 1),
                        LineReading::Nothing => buffer.take(pos) + buffer.skip(pos + 1),
                        LineReading::Fail(_) => buffer.take(pos + 1),
                    },
                    reading,
                }
            },
            None => match line_reading::<T>(buffer) {
                LineReading::Item(model) => LineStep {
                    rest: Seq::empty(),
                    reading: LineReading::Item(model),
                },
                _ => LineStep { rest: buffer, reading: LineReading::Nothing },
            },
        }
    }
}

/// A call of the line decoder never makes the buffer longer, and a call
/// that hands out a value makes it shorter: calls that hand out values come
/// to an end.
pub proof fn lemma_line_step_shrinks<T: JsonRecord>(buffer: Seq<u8>)
    ensures
        json_line_step::<T>(buffer).rest.len() <= buffer.len(),
        json_line_step::<T>(buffer).reading is Item ==> buffer.len() > 0 && (first_newline(buffer)
            is Some ==> json_line_step::<T>(buffer).rest.len() < buffer.len()),
        json_line_step::<T>(buffer).reading is Item && first_newline(buffer) is None
            ==> json_line_step::<T>(buffer).rest.len() == 0,
{
    if buffer.len() > 0 {
        match first_newline(buffer) {
            Some(pos) => {
                assert(newline_at(buffer, pos));
            },
            None => {},
        }
    }
}

/// A line that holds a value comes out as that value, whatever follows it:
/// a call takes the text up to the first newline and the newline, and leaves
/// what follows.
pub proof fn lemma_line_decodes<T: JsonRecord>(text: Seq<u8>, rest: Seq<u8>, model: T::Model)
    requires
        forall|j: int| 0 <= j < text.len() ==> text[j] != NEWLINE,
        T::json(text) == Ok::<Option<T::Model>, JsonFailureView>(Some(model)),
    ensures
        json_line_step::<T>(text + seq![NEWLINE] + rest) == (LineStep {
            rest,
            reading: LineReading::Item(model),
        }),
{
    let buffer = text + seq![NEWLINE] + rest;
    assert(newline_at(buffer, text.len() as int)) by {
        assert forall|j: int| 0 <= j < text.len() implies buffer[j] != NEWLINE by {
            assert(buffer[j] == text[j]);
        }
    }
    lemma_first_newline_is(buffer, text.len() as int);
    assert(buffer.take(text.len() as int) =~= text);
    assert(buffer.skip(text.len() as int + 1) =~= rest);
}

/// A value that has not arrived in full waits in the buffer. Where the
/// buffer ends in the middle of a value, before any newline, a call hands
/// out nothing and keeps every byte.
pub proof fn lemma_unfinished_value_waits<T: JsonRecord>(written: Seq<u8>, failure: JsonFailureView)
    requires
        forall|j: int| 0 <= j < written.len() ==> written[j] != NEWLINE,
        T::json(written) == Err::<Option<T::Model>, JsonFailureView>(failure),
        failure.kind is Eof,
    ensures
        json_line_step::<T>(written) == (LineStep {
            rest: written,
            reading: LineReading::<T::Model>::Nothing,
        }),
{
    lemma_first_newline_none(written);
}

/// Without a newline, a buffer that holds no value waits, whatever keeps it
/// from holding one: a call hands out nothing, reports nothing and keeps
/// every byte. With a value, the call hands it out and empties the buffer.
pub proof fn lemma_without_newline<T: JsonRecord>(buffer: Seq<u8>)
    requires
        forall|j: int| 0 <= j < buffer.len() ==> buffer[j] != NEWLINE,
    ensures
        !(T::json(buffer) matches Ok(Some(_))) ==> json_line_step::<T>(buffer) == (LineStep {
            rest: buffer,
            reading: LineReading::<T::Model>::Nothing,
        }),
        buffer.len() > 0 ==> (T::json(buffer) matches Ok(Some(model)) ==> json_line_step::<T>(
            buffer,
        ) == (LineStep { rest: Seq::empty(), reading: LineReading::Item(model) })),
{
    lemma_first_newline_none(buffer);
}

/// A newline inside a value does not cut the value in two. Where the text
/// before the first newline ends in the middle of a value, the call hands
/// out nothing and takes that newline out of the buffer, and nothing else.
pub proof fn lemma_interior_newline<T: JsonRecord>(
    before: Seq<u8>,
    after: Seq<u8>,
    failure: JsonFailureView,
)
    requires
        forall|j: int| 0 <= j < before.len() ==> before[j] != NEWLINE,
        T::json(before) == Err::<Option<T::Model>, JsonFailureView>(failure),
        failure.kind is Eof,
    ensures
        json_line_step::<T>(before + seq![NEWLINE] + after) == (LineStep {
            rest: before + after,
            reading: LineReading::<T::Model>::Nothing,
        }),
{
    let buffer = before + seq![NEWLINE] + after;
    assert(newline_at(buffer, before.len() as int)) by {
        assert forall|j: int| 0 <= j < before.len() implies buffer[j] != NEWLINE by {
            assert(buffer[j] == before[j]);
        }
    }
    lemma_first_newline_is(buffer, before.len() as int);
    assert(buffer.take(before.len() as int) =~= before);
    assert(buffer.skip(before.len() as int + 1) =~= after);
}

/// A value that is cut by a write comes out whole and once. Where the first
/// write ends in the middle of the value, the call after it hands out
/// nothing; the call after the second write, which brings the rest of the
/// value and its newline, hands out the value and leaves what follows.
pub proof fn lemma_value_in_two_writes<T: JsonRecord>(
    first: Seq<u8>,
    second: Seq<u8>,
    rest: Seq<u8>,
    failure: JsonFailureView,
    model: T::Model,
)
    requires
        forall|j: int| 0 <= j < first.len() ==> first[j] != NEWLINE,
        forall|j: int| 0 <= j < second.len() ==> second[j] != NEWLINE,
        T::json(first) == Err::<Option<T::Model>, JsonFailureView>(failure),
        failure.kind is Eof,
        T::json(first + second) == Ok::<Option<T::Model>, JsonFailureView>(Some(model)),
    ensures
        ({
            let after_first = json_line_step::<T>(first);
            let after_second = json_line_step::<T>(
                after_first.rest + second + seq![NEWLINE] + rest,
            );
            &&& after_first.reading is Nothing
            &&& after_second == (LineStep { rest, reading: LineReading::Item(model) })
        }),
{
    lemma_unfinished_value_waits::<T>(first, failure);
    let text = first + second;
    assert forall|j: int| 0 <= j < text.len() implies text[j] != NEWLINE by {
        if j < first.len() {
            assert(text[j] == first[j]);
        } else {
            assert(text[j] == second[j - first.len()]);
        }
    }
    lemma_line_decodes::<T>(text, rest, model);
}

/// A value with a newline inside comes out as one item, not as two. The
/// first call takes the newline out, and the second hands out the value of
/// the text without it.
pub proof fn lemma_value_across_newline<T: JsonRecord>(
    before: Seq<u8>,
    after: Seq<u8>,
    rest: Seq<u8>,
    failure: JsonFailureView,
    model: T::Model,
)
    requires
        forall|j: int| 0 <= j < before.len() ==> before[j] != NEWLINE,
        forall|j: int| 0 <= j < after.len() ==> after[j] != NEWLINE,
        T::json(before) == Err::<Option<T::Model>, JsonFailureView>(failure),
        failure.kind is Eof,
        T::json(before + after) == Ok::<Option<T::Model>, JsonFailureView>(Some(model)),
    ensures
        ({
            let first = json_line_step::<T>(
                before + seq![NEWLINE] + after + seq![NEWLINE] + rest,
            );
            let second = json_line_step::<T>(first.rest);
            &&& first.reading is Nothing
            &&& second == (LineStep { rest, reading: LineReading::Item(model) })
        }),
{
    let tail = after + seq![NEWLINE] + rest;
    let buffer = before + seq![NEWLINE] + after + seq![NEWLINE] + rest;
    assert(buffer =~= before + seq![NEWLINE] + tail);
    lemma_interior_newline::<T>(before, tail, failure);
    let text = before + after;
    assert(before + tail =~= text + seq![NEWLINE] + rest);
    assert forall|j: int| 0 <= j < text.len() implies text[j] != NEWLINE by {
        if j < before.len() {
            assert(text[j] == before[j]);
        } else {
            assert(text[j] == after[j - before.len()]);
        }
    }
    lemma_line_decodes::<T>(text, rest, model);
}

/// Whether a call's result is the given reading.
pub open spec fn is_reading<T: JsonRecord>(
    res: Result<Option<T>, Error>,
    reading: LineReading<T::Model>,
) -> bool {
    match reading {
        LineReading::Item(model) => res matches Ok(Some(value)) && value.model() == model,
        LineReading::Nothing => res matches Ok(None),
        LineReading::Fail(error) => res matches Err(e) && e@ == error,
    }
}

/// The error that a failed reading of `text` is reported as.
pub fn json_error(failure: JsonFailure, text: &[u8]) -> (res: Error)
    ensures
        res@ == decode_error(failure@, text@),
{
    match failure.kind {
        Category::Data | Category::Syntax => Error::JsonDataError {
            message: failure.message,
            column: failure.column,
            contents: lossy_text(text),
        },
        _ => Error::JsonSerdeError { message: failure.message },
    }
}

/// Reads one JSON value out of `slice`.
pub fn decode_json_from_slice<T: JsonRecord>(slice: &[u8]) -> (res: Result<Option<T>, Error>)
    ensures
        is_reading(res, line_reading::<T>(slice@)),
{
    match T::from_json(slice) {
        Ok(json) => Ok(json),
        Err(failure) => match failure.kind {
            Category::Eof => Ok(None),
            _ => Err(json_error(failure, slice)),
        },
    }
}

/// Decodes a stream of JSON values, one to a line.
#[derive(Debug)]
pub struct JsonLineDecoder<T> {
    ty: PhantomData<T>,
}

impl<T> JsonLineDecoder<T> {
    /// A decoder of values of `T`.
    pub fn new() -> (res: JsonLineDecoder<T>) {
        JsonLineDecoder { ty: PhantomData }
    }
}

/// What a buffer gives when it is decoded to the end: the values and, where
/// a text is broken, the error behind them, and the bytes that stay.
pub struct LinesFed<M> {
    pub items: Seq<Result<M, ErrorView>>,
    pub rest: Seq<u8>,
}

/// What the line decoder makes of a buffer, call after call, until a call
/// hands out nothing and leaves the buffer as it is, or finds a broken text.
pub open spec fn json_lines_fed<T: JsonRecord>(buffer: Seq<u8>) -> LinesFed<T::Model>
    decreases buffer.len(),
{
    let step = json_line_step::<T>(buffer);
    match step.reading {
        LineReading::Item(model) => if step.rest.len() < buffer.len() {
            let then = json_lines_fed::<T>(step.rest);
            LinesFed { items: seq![Ok(model)] + then.items, rest: then.rest }
        } else {
            LinesFed { items: seq![Ok(model)], rest: step.rest }
        },
        LineReading::Nothing => if step.rest.len() < buffer.len() {
            json_lines_fed::<T>(step.rest)
        } else {
            LinesFed { items: Seq::empty(), rest: step.rest }
        },
        LineReading::Fail(error) => LinesFed { items: seq![Err(error)], rest: step.rest },
    }
}

/// The outcomes of a feed as the contracts see them.
pub open spec fn outcomes_view<T: JsonRecord>(outcomes: Seq<Result<T, Error>>) -> Seq<
    Result<T::Model, ErrorView>,
> {
    outcomes.map_values(
        |outcome: Result<T, Error>|
            match outcome {
                Ok(value) => Ok(value.model()),
                Err(error) => Err(error@),
            },
    )
}

impl<T: JsonRecord> JsonLineDecoder<T> {
    /// Takes the next value from the front of `src`, if it is there in full.
    /// The buffer and the result are those of `json_line_step`.
    pub fn decode(&mut self, src: &mut BytesMut) -> (res: Result<Option<T>, Error>)
        ensures
            ({
                let step = json_line_step::<T>(buffered(*old(src)));
                &&& buffered(*final(src)) == step.rest
                &&& is_reading(res, step.reading)
            }),
    {
        let bytes = buffer_bytes(src);
        let nl_index = find_newline(bytes);
        if bytes.len() != 0 {
            if let Some(pos) = nl_index {
                let remainder = src.split_off(pos + 1);
                assert(buffered(*src).len() + buffered(remainder).len() == buffered(
                    *old(src),
                ).len());
                let line = buffer_bytes(src);
                let slice = &line[0..line.len() - 1];
                assert(slice@ == buffered(*old(src)).take(pos as int));
                match decode_json_from_slice::<T>(slice) {
                    Ok(None) => {
                        src.truncate(pos);
                        src.unsplit(remainder);
                        Ok(None)
                    },
                    Ok(json) => {
                        src.unsplit(remainder);
                        buffer_advance(src, pos + 1);
                        assert(buffered(*src) == buffered(*old(src)).skip(pos + 1));
                        Ok(json)
                    },
                    Err(e) => Err(e),
                }
            } else {
                match decode_json_from_slice::<T>(buffer_bytes(src)) {
                    Ok(Some(json)) => {
                        src.truncate(0);
                        assert(buffered(*src) =~= Seq::<u8>::empty());
                        Ok(Some(json))
                    },
                    _ => Ok(None),
                }
            }
        } else {
            Ok(None)
        }
    }

    /// Takes every value from the front of `src` that is there in full, in
    /// their order, and keeps what is left for the bytes to come. A broken
    /// text ends the list with its error. The list and the buffer are those
    /// of `json_lines_fed`.
    pub fn feed(&mut self, src: &mut BytesMut) -> (res: Vec<Result<T, Error>>)
        ensures
            outcomes_view(res@) == json_lines_fed::<T>(buffered(*old(src))).items,
            buffered(*final(src)) == json_lines_fed::<T>(buffered(*old(src))).rest,
    {
        let mut out: Vec<Result<T, Error>> = Vec::new();
        let ghost whole = json_lines_fed::<T>(buffered(*src));
        assert(outcomes_view::<T>(out@) =~= Seq::empty());
        loop
            invariant_except_break
                whole.items == outcomes_view(out@) + json_lines_fed::<T>(buffered(*src)).items,
                whole.rest == json_lines_fed::<T>(buffered(*src)).rest,
            ensures
                whole.items == outcomes_view(out@),
                whole.rest == buffered(*src),
            decreases buffered(*src).len(),
        {
            let ghost buffer = buffered(*src);
            let ghost before = outcomes_view::<T>(out@);
            proof {
                lemma_line_step_shrinks::<T>(buffer);
            }
            let length = buffer_bytes(src).len();
            match self.decode(src) {
                Ok(Some(item)) => {
                    out.push(Ok(item));
                    proof {
                        let step = json_line_step::<T>(buffer);
                        assert(outcomes_view::<T>(out@) =~= before + seq![
                            Ok::<T::Model, ErrorView>(item.model()),
                        ]);
                        if step.rest.len() < buffer.len() {
                            let then = json_lines_fed::<T>(step.rest);
                            assert(before + (seq![Ok::<T::Model, ErrorView>(item.model())]
                                + then.items) =~= before + seq![
                                Ok::<T::Model, ErrorView>(item.model()),
                            ] + then.items);
                        } else {
                            assert(first_newline(buffer) is None);
                            assert(step.rest.len() == 0);
                            assert(buffer.len() > 0);
                        }
                    }
                },
                Ok(None) => {
                    if buffer_bytes(src).len() == length {
                        proof {
                            let step = json_line_step::<T>(buffer);
                            assert(whole.items =~= outcomes_view::<T>(out@));
                        }
                        break ;
                    }
                },
                Err(e) => {
                    out.push(Err(e));
                    proof {
                        assert(outcomes_view::<T>(out@) =~= before + seq![
                            Err::<T::Model, ErrorView>(e@),
                        ]);
                    }
                    break ;
                },
            }
        }
        out
    }
}

/// What a reader of a body holds between two reads, as the contracts see
/// it.
pub enum ReadStateView {
    Ready(Seq<u8>, usize),
    NotReady,
}

/// What a reader of a body holds between two reads: a chunk of the body and
/// the number of its bytes that were handed out, or nothing.
#[derive(Debug)]
pub enum ReadState {
    Ready(Bytes, usize),
    NotReady,
}

impl View for ReadState {
    type V = ReadStateView;

    open spec fn view(&self) -> ReadStateView {
        match self {
            ReadState::Ready(bytes, pos) => ReadStateView::Ready(chunk(*bytes), *pos),
            ReadState::NotReady => ReadStateView::NotReady,
        }
    }
}

/// The number of bytes that a read hands out: as many as there is room for,
/// and no more than the chunk has left.
pub open spec fn read_length(bytes: Seq<u8>, pos: usize, room: usize) -> int {
    if pos >= bytes.len() {
        0
    } else if room <= bytes.len() - pos {
        room as int
    } else {
        bytes.len() - pos
    }
}

/// The bytes that a read hands out: those behind the ones handed out
/// before.
pub open spec fn read_bytes(bytes: Seq<u8>, pos: usize, room: usize) -> Seq<u8> {
    if pos >= bytes.len() {
        Seq::empty()
    } else {
        bytes.subrange(pos as int, pos + read_length(bytes, pos, room))
    }
}

impl ReadState {
    /// Hands out the next bytes of the chunk, `room` of them at most. A
    /// chunk of which nothing is left is let go of. Without a chunk there is
    /// nothing to hand out.
    pub fn read(&mut self, room: usize) -> (res: Option<Bytes>)
        ensures
            match old(self)@ {
                ReadStateView::Ready(bytes, pos) => {
                    let length = read_length(bytes, pos, room);
                    &&& res matches Some(out) && chunk(out) == read_bytes(bytes, pos, room)
                    &&& final(self)@ == if pos + length >= bytes.len() {
                        ReadStateView::NotReady
                    } else {
                        ReadStateView::Ready(bytes, (pos + length) as usize)
                    }
                },
                ReadStateView::NotReady => res is None && final(self)@ is NotReady,
            },
    {
        match self {
            ReadState::Ready(bytes, pos) => {
                let chunk_start = *pos;
                let total = bytes.len();
                let left = if chunk_start <= total {
                    total - chunk_start
                } else {
                    0
                };
                let len = if room <= left {
                    room
                } else {
                    left
                };
                let start = if chunk_start <= total {
                    chunk_start
                } else {
                    total
                };
                let out = chunk_slice(bytes, start, start + len);
                assert(chunk(out) =~= read_bytes(chunk(*bytes), chunk_start, room));
                if chunk_start + len >= total {
                    *self = ReadState::NotReady;
                } else {
                    *pos = chunk_start + len;
                }
                Some(out)
            },
            ReadState::NotReady => None,
        }
    }
}

} // verus!
