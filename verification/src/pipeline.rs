//! The decision core of the ingest loop: progress records, chunk
//! bookkeeping whose byte ranges tile the output file, and the per-message
//! session step that numbers lines densely.
use vstd::prelude::*;

verus! {

use crate::types::{DecodeError, DltTimeStamp, StorageHeader};
use crate::msgcodec::Message;
use crate::render::{render_message, tagged_line, sr_message, sr_tagged_line};

/// A contiguous region of the output: half-open row and byte ranges.
#[derive(Debug, Clone, Copy, PartialEq, Eq, Structural)]
pub struct Chunk {
    pub row_start: u64,
    pub row_end: u64,
    pub byte_start: u64,
    pub byte_end: u64,
}

/// One progress record of an ingest session.
#[derive(Debug, Clone, Copy, PartialEq, Eq, Structural)]
pub enum IndexingProgress {
    GotItem(Chunk),
    Finished,
    Stopped,
}

/// Chunk bookkeeping: rows and bytes written since the last emitted chunk.
/// Every emitted chunk starts exactly where the previous one ended, so the
/// byte ranges tile the written region without overlap or gap.
#[derive(Debug, Clone, PartialEq)]
pub struct ChunkFactory {
    /// Lines per chunk; a chunk is emitted once this many lines are in it.
    pub lines_per_chunk: u64,
    /// First row of the open chunk.
    pub start_row: u64,
    /// Rows in the open chunk.
    pub rows_in_chunk: u64,
    /// Byte offset where the open chunk begins.
    pub start_byte: u64,
    /// Byte offset after everything written so far.
    pub current_byte: u64,
}

impl ChunkFactory {
    pub open spec fn wf(self) -> bool {
        self.start_byte <= self.current_byte
    }

    /// Start bookkeeping at a row and at the current size of the output.
    pub fn new(lines_per_chunk: u64, initial_row: u64, initial_byte: u64) -> (r: ChunkFactory)
        ensures
            r.wf(),
            r.lines_per_chunk == lines_per_chunk,
            r.start_row == initial_row,
            r.rows_in_chunk == 0,
            r.start_byte == initial_byte,
            r.current_byte == initial_byte,
    {
        ChunkFactory {
            lines_per_chunk,
            start_row: initial_row,
            rows_in_chunk: 0,
            start_byte: initial_byte,
            current_byte: initial_byte,
        }
    }

    /// Account one written line and emit a chunk when the threshold is
    /// reached. An emitted chunk begins exactly at the previous chunk's
    /// end and ends at the current byte offset, and the next chunk opens
    /// there: consecutive chunks tile the byte range of the output.
    pub fn add_line(&mut self, written: u64) -> (r: Option<Chunk>)
        requires
            old(self).wf(),
            old(self).current_byte + written <= u64::MAX,
            old(self).start_row + old(self).rows_in_chunk < u64::MAX,
        ensures
            final(self).wf(),
            final(self).lines_per_chunk == old(self).lines_per_chunk,
            final(self).current_byte == old(self).current_byte + written,
            match r {
                Some(c) => {
                    &&& old(self).rows_in_chunk + 1 >= old(self).lines_per_chunk
                    &&& c.byte_start == old(self).start_byte
                    &&& c.byte_end == final(self).current_byte
                    &&& final(self).start_byte == c.byte_end
                    &&& c.row_start == old(self).start_row
                    &&& c.row_end == old(self).start_row + old(self).rows_in_chunk + 1
                    &&& final(self).start_row == c.row_end
                    &&& final(self).rows_in_chunk == 0
                },
                None => {
                    &&& final(self).start_byte == old(self).start_byte
                    &&& final(self).start_row == old(self).start_row
                    &&& final(self).rows_in_chunk == old(self).rows_in_chunk + 1
                    &&& old(self).rows_in_chunk + 1 < old(self).lines_per_chunk
                },
            },
    {
        self.current_byte = self.current_byte + written;
        self.rows_in_chunk = self.rows_in_chunk + 1;
        if self.rows_in_chunk >= self.lines_per_chunk {
            let c = Chunk {
                row_start: self.start_row,
                row_end: self.start_row + self.rows_in_chunk,
                byte_start: self.start_byte,
                byte_end: self.current_byte,
            };
            self.start_row = self.start_row + self.rows_in_chunk;
            self.rows_in_chunk = 0;
            self.start_byte = self.current_byte;
            Some(c)
        } else {
            None
        }
    }

    /// Emit the open chunk at the end of the session, if any rows are in
    /// it; it ends at the final byte offset, so after this the chunks tile
    /// the whole written region.
    pub fn last_chunk(&mut self) -> (r: Option<Chunk>)
        requires
            old(self).wf(),
            old(self).start_row + old(self).rows_in_chunk <= u64::MAX,
        ensures
            final(self).wf(),
            final(self).start_byte == final(self).current_byte,
            final(self).current_byte == old(self).current_byte,
            match r {
                Some(c) => {
                    &&& old(self).rows_in_chunk > 0
                    &&& c.byte_start == old(self).start_byte
                    &&& c.byte_end == old(self).current_byte
                    &&& c.row_start == old(self).start_row
                    &&& c.row_end == old(self).start_row + old(self).rows_in_chunk
                },
                None => old(self).rows_in_chunk == 0,
            },
    {
        if self.rows_in_chunk > 0 {
            let c = Chunk {
                row_start: self.start_row,
                row_end: self.start_row + self.rows_in_chunk,
                byte_start: self.start_byte,
                byte_end: self.current_byte,
            };
            self.start_row = self.start_row + self.rows_in_chunk;
            self.rows_in_chunk = 0;
            self.start_byte = self.current_byte;
            Some(c)
        } else {
            self.start_byte = self.current_byte;
            None
        }
    }
}

/// The per-message work of an ingest session: storage-header injection,
/// line rendering and numbering, chunk bookkeeping. The caller owns the
/// socket, the output file and the progress channel; this type owns every
/// decision.
#[derive(Debug, Clone, PartialEq)]
pub struct DltSession {
    pub tag: Vec<u8>,
    pub ecu_id: Vec<u8>,
    pub line_nr: u64,
    pub factory: ChunkFactory,
}

impl DltSession {
    pub fn new(tag: Vec<u8>, ecu_id: Vec<u8>, initial_line_nr: u64, lines_per_chunk: u64,
        initial_byte: u64) -> (r: DltSession)
        ensures
            r.line_nr == initial_line_nr,
            r.tag == tag,
            r.ecu_id == ecu_id,
            r.factory.wf(),
    {
        DltSession {
            tag,
            ecu_id,
            line_nr: initial_line_nr,
            factory: ChunkFactory::new(lines_per_chunk, initial_line_nr, initial_byte),
        }
    }

    /// Handle one decoded message: give it a storage header from the wall
    /// clock when it has none, render it as a tagged line carrying the
    /// current line number, and step the line counter by exactly one — so
    /// the numbers this session emits are dense and strictly increasing
    /// from the initial line number.
    pub fn on_message(&mut self, msg: Message, now_ms: u64) -> (r: Result<
        (Vec<u8>, Option<Chunk>),
        DecodeError,
    >)
        requires
            old(self).factory.wf(),
            old(self).line_nr < u64::MAX,
            old(self).factory.start_row + old(self).factory.rows_in_chunk < u64::MAX,
        ensures
            final(self).tag == old(self).tag,
            final(self).ecu_id == old(self).ecu_id,
            match r {
                Ok((line, chunk)) => {
                    &&& final(self).line_nr == old(self).line_nr + 1
                    &&& final(self).factory.wf()
                    &&& final(self).factory.lines_per_chunk == old(self).factory.lines_per_chunk
                    &&& final(self).factory.start_row + final(self).factory.rows_in_chunk == old(
                        self,
                    ).factory.start_row + old(self).factory.rows_in_chunk + 1
                    &&& final(self).factory.current_byte == old(self).factory.current_byte
                        + line@.len()
                    &&& match chunk {
                        Some(c) => {
                            &&& c.byte_start == old(self).factory.start_byte
                            &&& c.byte_end == final(self).factory.current_byte
                            &&& final(self).factory.start_byte == c.byte_end
                        },
                        None => true,
                    }
                    &&& ({
                        let m2 = ensure_storage_view(msg@, now_ms, old(self).ecu_id@);
                        let fibv = match msg.fibex_metadata {
                            Some(ref f) => Some(f@),
                            None => None,
                        };
                        sr_message(m2, fibv) matches Ok(body) && line@ == sr_tagged_line(
                            old(self).tag@,
                            old(self).line_nr,
                            body,
                        )
                    })
                },
                Err(er) => {
                    &&& *final(self) == *old(self)
                    &&& ({
                        let m2 = ensure_storage_view(msg@, now_ms, old(self).ecu_id@);
                        let fibv = match msg.fibex_metadata {
                            Some(ref f) => Some(f@),
                            None => None,
                        };
                        ||| sr_message(m2, fibv) == Err::<Seq<u8>, DecodeError>(er)
                        ||| (er == DecodeError::Incomplete && (sr_message(m2, fibv) matches Ok(
                            body,
                        ) && old(self).factory.current_byte + sr_tagged_line(
                            old(self).tag@,
                            old(self).line_nr,
                            body,
                        ).len() > u64::MAX))
                    })
                },
            },
    {
        let msg2 = ensure_storage_header(msg, now_ms, &self.ecu_id);
        let body = match render_message(&msg2) {
            Ok(b) => b,
            Err(er) => {
                return Err(er);
            },
        };
        let line = tagged_line(&self.tag, self.line_nr, &body);
        if line.len() as u64 > u64::MAX - self.factory.current_byte {
            return Err(DecodeError::Incomplete);
        }
        let chunk = self.factory.add_line(line.len() as u64);
        self.line_nr = self.line_nr + 1;
        Ok((line, chunk))
    }
}

/// The message with a storage header present: the original one, or one
/// synthesized from the wall clock and the configured ECU.
pub open spec fn ensure_storage_view(
    m: crate::msgcodec::MessageV,
    now_ms: u64,
    ecu: Seq<u8>,
) -> crate::msgcodec::MessageV {
    match m.storage_header {
        Some(_sh) => m,
        None => crate::msgcodec::MessageV {
            storage_header: Some(
                crate::types::StorageHeaderV {
                    timestamp: DltTimeStamp {
                        seconds: (now_ms / 1000) as u32,
                        microseconds: ((now_ms % 1000) * 1000) as u32,
                    },
                    ecu_id: ecu,
                },
            ),
            ..m
        },
    }
}

/// Give a message without a storage header one synthesized from the wall
/// clock and the configured ECU.
pub fn ensure_storage_header(msg: Message, now_ms: u64, ecu: &Vec<u8>) -> (r: Message)
    ensures
        r@ == ensure_storage_view(msg@, now_ms, ecu@),
        r.fibex_metadata == msg.fibex_metadata,
{
    match msg.storage_header {
        Some(_) => msg,
        None => {
            let r = Message {
                storage_header: Some(
                    StorageHeader { timestamp: DltTimeStamp::from_ms(now_ms), ecu_id: ecu.clone() },
                ),
                ..msg
            };
            proof {
                assert(r@ == ensure_storage_view(msg@, now_ms, ecu@));
            }
            r
        },
    }
}

/// What the ingest loop just observed.
#[derive(Debug, Clone, Copy, PartialEq, Eq, Structural)]
pub enum LoopEvent {
    /// The shutdown signal fired.
    Shutdown,
    /// A message decoded cleanly.
    Message,
    /// A datagram failed to decode in a recoverable way.
    Hickup,
    /// The socket failed; the stream cannot continue.
    Unrecoverable,
    /// The input stream ended.
    StreamEnd,
}

/// What the ingest loop does next.
#[derive(Debug, Clone, Copy, PartialEq, Eq, Structural)]
pub enum LoopDecision {
    /// Emit exactly one `Stopped` record and exit.
    Stop,
    /// Write the message's tagged line and keep reading.
    Write,
    /// Drop the datagram and keep reading.
    Skip,
    /// Emit exactly one `Finished` record and exit.
    Finish,
}

impl LoopDecision {
    /// Whether this decision ends the loop; the two terminal decisions
    /// each emit exactly one progress record, so a session delivers
    /// exactly one of `Stopped` or `Finished`.
    pub open spec fn spec_is_terminal(self) -> bool {
        self == LoopDecision::Stop || self == LoopDecision::Finish
    }
}

/// The decision the ingest loop takes on each event: shutdown stops the
/// session with a `Stopped` record; a decoded message is written; a
/// recoverable parse failure is skipped; a dead socket or the end of the
/// stream finishes the session with a `Finished` record.
pub fn loop_decision(ev: LoopEvent) -> (d: LoopDecision)
    ensures
        d == match ev {
            LoopEvent::Shutdown => LoopDecision::Stop,
            LoopEvent::Message => LoopDecision::Write,
            LoopEvent::Hickup => LoopDecision::Skip,
            LoopEvent::Unrecoverable => LoopDecision::Finish,
            LoopEvent::StreamEnd => LoopDecision::Finish,
        },
        d.spec_is_terminal() <==> (ev == LoopEvent::Shutdown || ev == LoopEvent::Unrecoverable
            || ev == LoopEvent::StreamEnd),
{
    match ev {
        LoopEvent::Shutdown => LoopDecision::Stop,
        LoopEvent::Message => LoopDecision::Write,
        LoopEvent::Hickup => LoopDecision::Skip,
        LoopEvent::Unrecoverable => LoopDecision::Finish,
        LoopEvent::StreamEnd => LoopDecision::Finish,
    }
}

} // verus!
