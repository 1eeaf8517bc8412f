//! The resumable-download model: where a transfer starts, how the progress
//! counter advances chunk by chunk, and why appending the remaining bytes to
//! a true prefix completes the file.

use vstd::prelude::*;

verus! {

/// Streaming progress of one download: the byte count written so far and the
/// total the server declared. When the destination already holds a partial
/// file, the transfer starts at that file's length and appends; the partial
/// bytes are trusted to be a true prefix of the remote content.
pub struct DownloadProgress {
    pub downloaded: u64,
    pub total_size: u64,
}

impl DownloadProgress {
    /// Starts a transfer: at the existing partial file's length when there
    /// is one, at zero for a fresh file.
    pub fn start(total_size: u64, existing_len: Option<u64>) -> (r: DownloadProgress)
        ensures
            r.total_size == total_size,
            r.downloaded == match existing_len {
                Some(n) => n,
                None => 0u64,
            },
    {
        let downloaded = match existing_len {
            Some(n) => n,
            None => 0,
        };
        DownloadProgress { downloaded, total_size }
    }

    /// Records one received chunk: the counter advances by the chunk's
    /// length and is capped at the declared total.
    pub fn on_chunk(&mut self, len: usize)
        ensures
            final(self).total_size == old(self).total_size,
            final(self).downloaded == vstd::math::min(
                old(self).downloaded as int + len as int,
                old(self).total_size as int,
            ),
    {
        if self.downloaded >= self.total_size {
            self.downloaded = self.total_size;
        } else if (len as u64) <= self.total_size - self.downloaded {
            self.downloaded = self.downloaded + (len as u64);
        } else {
            self.downloaded = self.total_size;
        }
    }

    /// Whether the counter has reached the declared total.
    pub fn is_complete(&self) -> (b: bool)
        ensures
            b == (self.downloaded >= self.total_size),
    {
        self.downloaded >= self.total_size
    }
}

/// All the bytes of a chunk stream, in arrival order.
pub open spec fn concat_chunks(chunks: Seq<Seq<u8>>) -> Seq<u8>
    decreases chunks.len(),
{
    if chunks.len() == 0 {
        Seq::empty()
    } else {
        chunks[0] + concat_chunks(chunks.skip(1))
    }
}

/// Resuming a download whose partial file holds a true prefix of the remote
/// content completes it: appending the streamed remainder, starting at the
/// partial file's length, yields exactly the remote content, with exactly
/// its size.
pub proof fn lemma_resume_completes(partial: Seq<u8>, remote: Seq<u8>, chunks: Seq<Seq<u8>>)
    requires
        partial.len() <= remote.len(),
        partial == remote.take(partial.len() as int),
        concat_chunks(chunks) == remote.skip(partial.len() as int),
    ensures
        partial + concat_chunks(chunks) == remote,
        (partial + concat_chunks(chunks)).len() == remote.len(),
{
    assert(partial + remote.skip(partial.len() as int) =~= remote);
}

} // verus!
