use vstd::prelude::*;

use crate::buffer::{padded, zeros, FillBuffer};

verus! {

/// How a load treats a read that returns fewer bytes than the file's size.
#[derive(Clone, Copy, Debug, PartialEq, Eq, Structural)]
pub enum ReadPolicy {
    /// Issue exactly one read; whatever it leaves unfilled stays zero.
    ReadOnce,
    /// Read until the buffer is full or a read returns nothing; a buffer
    /// left short is an error.
    ReadExact,
}

/// Why a load failed.
#[derive(Clone, Copy, Debug, PartialEq, Eq, Structural)]
pub enum LoadError {
    /// The file could not be opened.
    Open,
    /// The file's metadata could not be read.
    Metadata,
    /// The size the metadata reports does not fit in memory's address range.
    TooLarge,
    /// A read call reported an error.
    Read,
    /// Under [`ReadPolicy::ReadExact`], the reads ended before the buffer was full.
    ShortRead { expected: usize, got: usize },
}

/// Whether another read call is owed, given the outcome of the last one
/// (`None` before the first) and how much of the buffer is filled.
pub open spec fn read_owed(policy: ReadPolicy, last: Option<nat>, filled: nat, size: nat) -> bool {
    match last {
        None => true,
        Some(n) => policy == ReadPolicy::ReadExact && n > 0 && filled < size,
    }
}

/// What a finished load hands back, given the bytes that the reads placed.
pub open spec fn load_result(policy: ReadPolicy, read: Seq<u8>, size: nat) -> Result<Seq<u8>, LoadError> {
    match policy {
        ReadPolicy::ReadOnce => Ok(padded(read, size)),
        ReadPolicy::ReadExact => if read.len() == size {
            Ok(read)
        } else {
            Err(LoadError::ShortRead { expected: size as usize, got: read.len() as usize })
        },
    }
}

/// The decisions of one load: the buffer sized from the metadata, and which
/// read calls are owed under the chosen policy.
pub struct Loader {
    policy: ReadPolicy,
    buf: FillBuffer,
    last: Option<usize>,
}

impl Loader {
    /// The policy the load was started with.
    pub closed spec fn policy(&self) -> ReadPolicy {
        self.policy
    }

    /// The bytes that the reads have placed so far.
    pub closed spec fn read_so_far(&self) -> Seq<u8> {
        self.buf.read_so_far()
    }

    /// The size of the buffer, which is the size the metadata reported.
    pub closed spec fn size(&self) -> nat {
        self.buf.size()
    }

    /// How many bytes the last read returned; `None` before the first read.
    pub closed spec fn last_read(&self) -> Option<nat> {
        match self.last {
            None => None,
            Some(n) => Some(n as nat),
        }
    }

    /// The buffer holds the bytes read so far, then zeros.
    pub closed spec fn wf(&self) -> bool {
        self.buf.wf()
    }

    /// Whether another read call is owed.
    pub open spec fn owes_read(&self) -> bool {
        read_owed(self.policy(), self.last_read(), self.read_so_far().len(), self.size())
    }

    /// Starts a load of a file whose metadata reports `file_size` bytes.
    /// Fails with `TooLarge` exactly when that size does not fit in a `usize`.
    pub fn new(policy: ReadPolicy, file_size: u64) -> (r: Result<Loader, LoadError>)
        ensures
            file_size <= usize::MAX <==> r is Ok,
            r is Err ==> r == Err::<Loader, LoadError>(LoadError::TooLarge),
            r matches Ok(l) ==> {
                &&& l.wf()
                &&& l.policy() == policy
                &&& l.size() == file_size
                &&& l.read_so_far() == Seq::<u8>::empty()
                &&& l.last_read() is None
            },
    {
        if file_size > usize::MAX as u64 {
            Err(LoadError::TooLarge)
        } else {
            Ok(Loader { policy, buf: FillBuffer::new(file_size as usize), last: None })
        }
    }

    /// The most bytes the next read call may return, if another read is owed.
    pub fn next_read(&self) -> (r: Option<usize>)
        requires
            self.wf(),
        ensures
            r is Some <==> self.owes_read(),
            r matches Some(m) ==> m == self.size() - self.read_so_far().len(),
    {
        let owed = match self.last {
            None => true,
            Some(n) => match self.policy {
                ReadPolicy::ReadOnce => false,
                ReadPolicy::ReadExact => n > 0 && self.buf.remaining() > 0,
            },
        };
        if owed {
            Some(self.buf.remaining())
        } else {
            None
        }
    }

    /// Records a read call that returned `chunk`, placing its bytes after
    /// those read before.
    pub fn on_read(&mut self, chunk: &[u8])
        requires
            old(self).wf(),
            old(self).owes_read(),
            chunk@.len() <= old(self).size() - old(self).read_so_far().len(),
        ensures
            final(self).wf(),
            final(self).policy() == old(self).policy(),
            final(self).size() == old(self).size(),
            final(self).read_so_far() == old(self).read_so_far() + chunk@,
            final(self).last_read() == Some(chunk@.len()),
    {
        self.buf.accept(chunk);
        self.last = Some(chunk.len());
    }

    /// Ends the load once no read is owed, and hands back its bytes.
    pub fn finish(self) -> (r: Result<Vec<u8>, LoadError>)
        requires
            self.wf(),
            !self.owes_read(),
        ensures
            r matches Ok(v) ==> load_result(self.policy(), self.read_so_far(), self.size()) == Ok::<
                Seq<u8>,
                LoadError,
            >(v@),
            r matches Err(e) ==> load_result(self.policy(), self.read_so_far(), self.size()) == Err::<
                Seq<u8>,
                LoadError,
            >(e),
    {
        let size = self.buf.len();
        let got = self.buf.filled();
        let policy = self.policy;
        let bytes = self.buf.into_bytes();
        match policy {
            ReadPolicy::ReadOnce => Ok(bytes),
            ReadPolicy::ReadExact => {
                if got == size {
                    proof {
                        lemma_complete_read_is_content(policy, self.read_so_far());
                    }
                    Ok(bytes)
                } else {
                    Err(LoadError::ShortRead { expected: size, got })
                }
            },
        }
    }
}

/// A load whose reads placed every byte of the file hands back exactly those
/// bytes, whatever the policy.
pub proof fn lemma_complete_read_is_content(policy: ReadPolicy, content: Seq<u8>)
    requires
        content.len() <= usize::MAX,
    ensures
        load_result(policy, content, content.len()) == Ok::<Seq<u8>, LoadError>(content),
{
    assert(padded(content, content.len()) =~= content);
}

/// Under the read-once policy a short read still yields a buffer of the full
/// size: the bytes read stand at the front, in order, and every byte after
/// them is zero.
pub proof fn lemma_short_read_zero_tail(read: Seq<u8>, size: nat)
    requires
        read.len() <= size,
        size <= usize::MAX,
    ensures
        load_result(ReadPolicy::ReadOnce, read, size) matches Ok(out) && {
            &&& out.len() == size
            &&& out.take(read.len() as int) == read
            &&& out.skip(read.len() as int) == zeros((size - read.len()) as nat)
        },
{
    let out = padded(read, size);
    assert(out.take(read.len() as int) =~= read);
    assert(out.skip(read.len() as int) =~= zeros((size - read.len()) as nat));
}

} // verus!
