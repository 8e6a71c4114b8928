//! Streaming a layer into the content store: the received bytes are cut
//! into fixed-size `Write` chunks at increasing offsets, and a final
//! `Commit` carries the labels.

use vstd::prelude::*;
use crate::maps::StringMap;

verus! {

/// The size of every `Write` chunk but the last one: 16 MB.
pub const CHUNK_SIZE: usize = 16000000;

/// One `Write` message: `data` belongs at `offset` of the blob `ref_name`,
/// whose announced size is `total`.
#[derive(Debug)]
pub struct WriteChunk {
    pub ref_name: String,
    pub total: u64,
    pub offset: u64,
    pub data: Vec<u8>,
}

/// The final `Commit` message: the blob is complete at `offset` bytes.
#[derive(Debug)]
pub struct CommitRequest {
    pub ref_name: String,
    pub total: u64,
    pub offset: u64,
    pub labels: StringMap,
}

/// The blob grew past the largest size a write can address.
#[derive(Debug)]
pub struct SizeOverflow;

/// Cuts the bytes of one blob, as they arrive, into `Write` chunks.
pub struct LayerWriter {
    ref_name: String,
    total: u64,
    offset: u64,
    buffer: Vec<u8>,
    received: Ghost<Seq<u8>>,
}

impl LayerWriter {
    /// Every byte received so far.
    pub closed spec fn received(&self) -> Seq<u8> {
        self.received@
    }

    /// How many of them went out in `Write` chunks.
    pub closed spec fn written(&self) -> nat {
        self.offset as nat
    }

    pub closed spec fn ref_name_spec(&self) -> Seq<char> {
        self.ref_name@
    }

    pub closed spec fn total_spec(&self) -> u64 {
        self.total
    }

    pub closed spec fn wf(&self) -> bool {
        &&& self.received@.len() <= u64::MAX
        &&& self.offset + self.buffer@.len() == self.received@.len()
        &&& self.buffer@ == self.received@.subrange(self.offset as int, self.received@.len() as int)
        &&& self.buffer@.len() < CHUNK_SIZE
    }

    /// A writer for the blob `ref_name` whose announced size is `total`.
    pub fn new(ref_name: String, total: u64) -> (r: Self)
        ensures
            r.wf(),
            r.written() <= r.received().len() < r.written() + CHUNK_SIZE,
            r.received() == Seq::<u8>::empty(),
            r.written() == 0,
            r.ref_name_spec() == ref_name@,
            r.total_spec() == total,
    {
        let r = LayerWriter { ref_name, total, offset: 0, buffer: Vec::new(), received: Ghost(Seq::empty()) };
        assert(r.buffer@ =~= r.received@.subrange(0, 0));
        r
    }

    /// Takes the next received bytes and hands back the chunks that are now
    /// full, in order. Fails, changing nothing, when the blob would outgrow
    /// a 64-bit offset.
    pub fn feed(&mut self, bytes: &[u8]) -> (r: Result<Vec<WriteChunk>, SizeOverflow>)
        requires
            old(self).wf(),
        ensures
            final(self).wf(),
            final(self).written() <= final(self).received().len() < final(self).written() + CHUNK_SIZE,
            final(self).ref_name_spec() == old(self).ref_name_spec(),
            final(self).total_spec() == old(self).total_spec(),
            match r {
                Err(_) => old(self).received().len() + bytes@.len() > u64::MAX && final(self).received() == old(self).received()
                    && final(self).written() == old(self).written(),
                Ok(chunks) => {
                    &&& old(self).received().len() + bytes@.len() <= u64::MAX
                    &&& final(self).received() == old(self).received() + bytes@
                    &&& final(self).written() == old(self).written() + chunks@.len() * CHUNK_SIZE
                    &&& forall|j: int| 0 <= j < chunks@.len() ==> {
                        &&& (#[trigger] chunks@[j]).offset == old(self).written() + j * CHUNK_SIZE
                        &&& chunks@[j].data@ == final(self).received().subrange(
                            chunks@[j].offset as int,
                            chunks@[j].offset + CHUNK_SIZE,
                        )
                        &&& chunks@[j].ref_name@ == old(self).ref_name_spec()
                        &&& chunks@[j].total == old(self).total_spec()
                    }
                },
            },
    {
        let have: u64 = self.offset + self.buffer.len() as u64;
        assert(have == self.received@.len());
        if bytes.len() as u64 > u64::MAX - have {
            return Err(SizeOverflow);
        }
        let ghost start = self.offset;
        self.received = Ghost(self.received@ + bytes@);
        self.buffer.extend_from_slice(bytes);
        assert(self.buffer@ =~= self.received@.subrange(self.offset as int, self.received@.len() as int));
        let mut chunks: Vec<WriteChunk> = Vec::new();
        while self.buffer.len() >= CHUNK_SIZE
            invariant
                self.ref_name == old(self).ref_name,
                self.total == old(self).total,
                self.received@ == old(self).received@ + bytes@,
                start == old(self).offset,
                self.received@.len() <= u64::MAX,
                self.offset + self.buffer@.len() == self.received@.len(),
                self.buffer@ == self.received@.subrange(self.offset as int, self.received@.len() as int),
                self.offset == start + chunks@.len() * CHUNK_SIZE,
                forall|j: int| 0 <= j < chunks@.len() ==> {
                    &&& (#[trigger] chunks@[j]).offset == start + j * CHUNK_SIZE
                    &&& chunks@[j].data@ == self.received@.subrange(
                        chunks@[j].offset as int,
                        chunks@[j].offset + CHUNK_SIZE,
                    )
                    &&& chunks@[j].ref_name@ == self.ref_name@
                    &&& chunks@[j].total == self.total
                },
            decreases self.buffer@.len(),
        {
            let mut data = self.buffer.split_off(CHUNK_SIZE);
            std::mem::swap(&mut data, &mut self.buffer);
            assert(data@ =~= self.received@.subrange(self.offset as int, self.offset + CHUNK_SIZE));
            chunks.push(WriteChunk { ref_name: self.ref_name.clone(), total: self.total, offset: self.offset, data });
            self.offset = self.offset + CHUNK_SIZE as u64;
            assert(self.buffer@ =~= self.received@.subrange(self.offset as int, self.received@.len() as int));
        }
        Ok(chunks)
    }

    /// Ends the blob: the last, partial chunk if any bytes are left, and the
    /// `Commit` at the total number of bytes received.
    pub fn finish(self, labels: StringMap) -> (r: (Option<WriteChunk>, CommitRequest))
        requires
            self.wf(),
        ensures
            self.received().len() == self.written() ==> r.0 is None,
            self.received().len() > self.written() ==> r.0 is Some && r.0->0.offset == self.written()
                && 0 < r.0->0.data@.len() <= CHUNK_SIZE
                && r.0->0.data@ == self.received().subrange(self.written() as int, self.received().len() as int)
                && r.0->0.ref_name@ == self.ref_name_spec() && r.0->0.total == self.total_spec(),
            r.1.offset == self.received().len(),
            r.1.ref_name@ == self.ref_name_spec(),
            r.1.total == self.received().len(),
            r.1.labels@ == labels@,
    {
        let end: u64 = self.offset + self.buffer.len() as u64;
        let last = if self.buffer.len() > 0 {
            Some(WriteChunk { ref_name: self.ref_name.clone(), total: self.total, offset: self.offset, data: self.buffer })
        } else {
            None
        };
        (last, CommitRequest { ref_name: self.ref_name, total: end, offset: end, labels })
    }
}

/// A writer that received no bytes has written none: by `finish`'s
/// contract, an empty blob is then streamed as a single `Commit` at offset
/// zero, with no `Write` before it.
pub proof fn lemma_empty_blob_single_commit(w: LayerWriter)
    requires
        w.wf(),
        w.received().len() == 0,
    ensures
        w.written() == 0,
{
}

} // verus!
