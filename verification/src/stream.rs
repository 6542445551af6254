//! The lazy record stream over a whole `.shp` byte buffer.
//!
//! `open` consumes the 100-byte header; `next` yields one decoded record or
//! per-record error at a time, resynchronizing past malformed bodies by the
//! framing fields, and terminates at the header's declared file length or
//! at the end of the input, whichever comes first.  A terminated stream
//! keeps answering "no more records".

use vstd::prelude::*;
use crate::error::{Config, DecodeError};
use crate::header::{decode_header, spec_decode_header, Header, HEADER_LEN};
use crate::record::{
    decode_record, spec_decode_record, Record, RecordError, RecordOutcome, RecordOutcomeV, RecordV,
};

verus! {

/// Where readable record bytes end: the header's declared file length in
/// bytes (clamped below at zero), or the end of the input, whichever comes
/// first.
pub open spec fn spec_stream_end(s: Seq<u8>, h: Header) -> int {
    let declared = if h.file_length < 0 {
        0
    } else {
        2 * (h.file_length as int)
    };
    if declared < s.len() {
        declared
    } else {
        s.len() as int
    }
}

/// The result of one `next` call, at the specification level: what was
/// yielded, the stream position afterwards, and whether the stream has
/// terminated.
pub struct StreamStepV {
    pub item: Option<Result<RecordV, RecordError>>,
    pub pos: int,
    pub finished: bool,
}

/// What one `next` call yields for a stream positioned at `pos`: the first
/// non-skipped record outcome at or after `pos`, or "no more records" at
/// `end`.  Skipped records (unknown shape type under permissive dispatch)
/// recurse past their framed extent; the recursion is cut off for
/// positions outside the machine range, which `spec_decode_record` never
/// produces from in-range arguments.
pub open spec fn spec_stream_next(
    s: Seq<u8>,
    pos: int,
    end: int,
    file_shape: crate::shape::ShapeType,
    cfg: Config,
) -> StreamStepV
    decreases end - pos,
{
    if pos >= end {
        StreamStepV { item: None, pos, finished: true }
    } else {
        match spec_decode_record(s, pos, end, file_shape, cfg) {
            RecordOutcomeV::Value { record, next } => StreamStepV {
                item: Some(Ok(record)),
                pos: next as int,
                finished: false,
            },
            RecordOutcomeV::Skip { next } => if pos < next as int <= end {
                spec_stream_next(s, next as int, end, file_shape, cfg)
            } else {
                StreamStepV { item: None, pos: end, finished: true }
            },
            RecordOutcomeV::Recoverable { error, next } => StreamStepV {
                item: Some(Err(error)),
                pos: next as int,
                finished: false,
            },
            RecordOutcomeV::Fatal { error } => StreamStepV {
                item: Some(Err(error)),
                pos,
                finished: true,
            },
        }
    }
}

/// A lazy, finite, non-restartable sequence of decoded records.
///
/// The fields are public so that contracts can speak of them; mutate them
/// only through the methods, which maintain `wf`.
pub struct RecordStream {
    pub data: Vec<u8>,
    pub header: Header,
    pub cfg: Config,
    /// Offset of the next record boundary.
    pub pos: usize,
    /// Offset at which readable record bytes end (`spec_stream_end`).
    pub end: usize,
    /// Set once the sequence has terminated; `next` then yields nothing.
    pub finished: bool,
}

impl RecordStream {
    /// The stream's bookkeeping is consistent with its buffer.
    pub open spec fn wf(self) -> bool {
        &&& self.end as int == spec_stream_end(self.data@, self.header)
        &&& self.pos <= self.data@.len()
    }

    /// Opens a stream over the bytes of a `.shp` file: decodes the header
    /// (failing exactly when `decode_header` fails) and positions the
    /// stream at the first record boundary, byte offset 100.
    pub fn open(data: Vec<u8>, cfg: Config) -> (r: Result<RecordStream, DecodeError>)
        ensures
            match r {
                Ok(st) => {
                    &&& spec_decode_header(data@, cfg) == Ok::<Header, DecodeError>(st.header)
                    &&& st.data == data
                    &&& st.cfg == cfg
                    &&& st.pos == HEADER_LEN
                    &&& !st.finished
                    &&& st.wf()
                },
                Err(e) => spec_decode_header(data@, cfg) == Err::<Header, DecodeError>(e),
            },
    {
        let header = match decode_header(&data, &cfg) {
            Ok(h) => h,
            Err(e) => {
                return Err(e);
            },
        };
        let declared_bytes: usize = if header.file_length < 0 {
            0
        } else {
            2 * (header.file_length as usize)
        };
        let data_len = data.len();
        let end = if declared_bytes < data_len {
            declared_bytes
        } else {
            data_len
        };
        Ok(RecordStream { data, header, cfg, pos: HEADER_LEN, end, finished: false })
    }

    /// The parsed file header.
    pub fn header(&self) -> (h: &Header)
        ensures
            h == self.header,
    {
        &self.header
    }

    /// Yields the next record (or per-record error), or `None` once the
    /// sequence has terminated.  Termination is idempotent: every later
    /// call returns `None` and leaves the stream unchanged.
    #[verifier::rlimit(40)]
    pub fn next(&mut self) -> (r: Option<Result<Record, RecordError>>)
        requires
            old(self).wf(),
        ensures
            final(self).wf(),
            final(self).data == old(self).data,
            final(self).header == old(self).header,
            final(self).cfg == old(self).cfg,
            final(self).end == old(self).end,
            old(self).finished ==> r is None && *final(self) == *old(self),
            !old(self).finished ==> ({
                let step = spec_stream_next(
                    old(self).data@,
                    old(self).pos as int,
                    old(self).end as int,
                    old(self).header.shape_type,
                    old(self).cfg,
                );
                &&& match r {
                    None => step.item is None,
                    Some(Ok(rec)) => step.item == Some(Ok::<RecordV, RecordError>(rec@)),
                    Some(Err(e)) => step.item == Some(Err::<RecordV, RecordError>(e)),
                }
                &&& final(self).pos as int == step.pos
                &&& final(self).finished == step.finished
            }),
    {
        if self.finished {
            return None;
        }
        loop
            invariant
                self.wf(),
                !self.finished,
                !old(self).finished,
                self.data == old(self).data,
                self.header == old(self).header,
                self.cfg == old(self).cfg,
                self.end == old(self).end,
                spec_stream_next(
                    self.data@,
                    self.pos as int,
                    self.end as int,
                    self.header.shape_type,
                    self.cfg,
                ) == spec_stream_next(
                    old(self).data@,
                    old(self).pos as int,
                    old(self).end as int,
                    old(self).header.shape_type,
                    old(self).cfg,
                ),
            decreases self.end - self.pos,
        {
            if self.pos >= self.end {
                self.finished = true;
                return None;
            }
            match decode_record(&self.data, self.pos, self.end, self.header.shape_type, &self.cfg) {
                RecordOutcome::Value { record, next } => {
                    self.pos = next;
                    return Some(Ok(record));
                },
                RecordOutcome::Skip { next } => {
                    proof {
                        let stepped = spec_decode_record(
                            self.data@,
                            self.pos as int,
                            self.end as int,
                            self.header.shape_type,
                            self.cfg,
                        );
                        assert(stepped == RecordOutcomeV::Skip { next: next });
                        assert(self.pos < next as int <= self.end as int);
                    }
                    self.pos = next;
                },
                RecordOutcome::Recoverable { error, next } => {
                    self.pos = next;
                    return Some(Err(error));
                },
                RecordOutcome::Fatal { error } => {
                    self.finished = true;
                    return Some(Err(error));
                },
            }
        }
    }
}

} // verus!
