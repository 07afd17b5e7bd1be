//! The output side of a session: what is read from the terminal becomes a
//! stream of events that carry the session's id.
//!
//! Reading blocks, so it is driven from outside: the owner of a `PtyReader`
//! calls `next_event` until it returns `None`, and forwards each event to
//! whoever listens.

use vstd::prelude::*;
use vstd::slice::slice_subrange;
use crate::pty::decode_lossy;
use crate::pty::lossy_text;
use crate::pty::read_into;
use crate::pty::ReaderHandle;

verus! {

/// The most bytes that one read takes from the terminal.
pub const READ_CHUNK_SIZE: usize = 8192;

/// One piece of a session's output.
pub struct PtyDataPayload {
    /// The session that the output belongs to.
    pub id: String,
    /// The output, with the replacement character for what was no UTF-8. A
    /// character that was split between two reads is not put together again.
    pub data: String,
}

/// The reading end of one session's terminal.
pub struct PtyReader {
    id: String,
    source: ReaderHandle,
}

/// What one read leads to: an event for the bytes that arrived, or nothing,
/// which ends the stream. Both the end of the output (a count of zero) and an
/// error end it.
pub open spec fn event_of(id: Seq<char>, chunk: Seq<u8>, outcome: Result<usize, std::io::Error>)
    -> Option<(Seq<char>, Seq<char>)> {
    match outcome {
        Ok(count) => if count == 0 {
            None
        } else {
            Some((id, lossy_text(chunk.take(count as int))))
        },
        Err(_) => None,
    }
}

/// Decides what follows one read of the terminal. `chunk` is the buffer that
/// was read into and `outcome` what the read returned.
pub fn reader_step(id: &String, chunk: &[u8], outcome: Result<usize, std::io::Error>) -> (r:
    Option<PtyDataPayload>)
    requires
        outcome matches Ok(count) ==> count <= chunk@.len(),
    ensures
        match event_of(id@, chunk@, outcome) {
            Some((owner, text)) => r matches Some(payload) && payload.id@ == owner && payload.data@
                == text,
            None => r is None,
        },
{
    match outcome {
        Ok(count) => {
            if count == 0 {
                None
            } else {
                let bytes = slice_subrange(chunk, 0, count);
                assert(bytes@ == chunk@.take(count as int));
                Some(PtyDataPayload { id: id.clone(), data: decode_lossy(bytes) })
            }
        },
        Err(_) => None,
    }
}

impl PtyReader {
    /// The id of the session whose output this reader delivers.
    pub closed spec fn session_id(&self) -> Seq<char> {
        self.id@
    }

    /// A reader for the session `id` on the stream `source`.
    pub(crate) fn new(id: String, source: ReaderHandle) -> (reader: PtyReader)
        ensures
            reader.session_id() == id@,
    {
        PtyReader { id, source }
    }

    /// The id of the session whose output this reader delivers.
    pub fn id(&self) -> (id: &String)
        ensures
            id@ == self.session_id(),
    {
        &self.id
    }

    /// Waits for the next piece of output and returns it as an event of this
    /// reader's session. `None` says that the stream has ended, by the end of
    /// the output or by an error; the reader is then of no further use.
    pub fn next_event(&mut self) -> (r: Option<PtyDataPayload>)
        ensures
            final(self).session_id() == old(self).session_id(),
            r matches Some(payload) ==> payload.id@ == old(self).session_id() && exists|
                bytes: Seq<u8>,
            |
                0 < bytes.len() <= READ_CHUNK_SIZE && payload.data@ == #[trigger] lossy_text(bytes),
    {
        let mut buffer: Vec<u8> = vec![0u8; READ_CHUNK_SIZE];
        let outcome = read_into(&mut self.source, &mut buffer);
        let ghost read = outcome;
        let r = reader_step(&self.id, buffer.as_slice(), outcome);
        proof {
            if let Ok(count) = read {
                if count != 0 {
                    assert(buffer@.take(count as int).len() == count);
                }
            }
        }
        r
    }
}

} // verus!
