//! Reading the members of an archive, one after another.
//!
//! An archive is a run of blocks. Each member takes one header block and as
//! many content blocks as its size asks for; the unused tail of the last
//! content block is padding. A header block of zero bytes, or the end of the
//! bytes, ends the archive.
//!
//! The reader is modelled by the bytes that it has not read yet. What one
//! step does to them is [`step`]; what reading to the end does is
//! [`listing`].

use crate::header::{all_zero, block_size_field, decode, HeaderDecodeResult, PosixHeader};
use vstd::prelude::*;
use vstd::slice::{slice_subrange, slice_to_vec};

verus! {

/// The number of blocks that `size` bytes of content take.
pub open spec fn block_count(size: nat) -> nat {
    (size + 511) / 512
}

/// The number of bytes that `size` bytes of content take in the archive,
/// padding included.
pub open spec fn padded_len(size: nat) -> nat {
    block_count(size) * 512
}

/// A member as the archive holds it: its header block and its content.
pub struct Member {
    pub block: Seq<u8>,
    pub content: Seq<u8>,
}

/// What one step of reading finds in the unread bytes.
pub enum Step {
    /// A member, and the bytes that follow its last content block.
    Entry { member: Member, rest: Seq<u8> },
    /// The end of the archive: no bytes at all, with `rest` empty, or a
    /// block of zero bytes, with `rest` what follows it.
    End { rest: Seq<u8> },
    /// The bytes stop inside a header block or before the last content
    /// block of a member is complete.
    Truncated,
}

/// One step of reading.
pub open spec fn step(unread: Seq<u8>) -> Step {
    if unread.len() == 0 {
        Step::End { rest: unread }
    } else if unread.len() < 512 {
        Step::Truncated
    } else {
        let block = unread.subrange(0, 512);
        if all_zero(block) {
            Step::End { rest: unread.skip(512) }
        } else {
            let size = block_size_field(block);
            let span = 512 + padded_len(size);
            if unread.len() < span {
                Step::Truncated
            } else {
                Step::Entry {
                    member: Member { block, content: unread.subrange(512, 512 + size as int) },
                    rest: unread.skip(span as int),
                }
            }
        }
    }
}

/// What reading to the end finds.
pub struct Listing {
    /// The members, in the order of the archive.
    pub members: Seq<Member>,
    /// Whether the end of the archive was reached; else the bytes were
    /// truncated.
    pub complete: bool,
    /// The bytes that are left unread.
    pub rest: Seq<u8>,
}

/// Reading step by step until the archive ends or proves truncated.
pub open spec fn listing(unread: Seq<u8>) -> Listing
    decreases unread.len(),
{
    match step(unread) {
        Step::Entry { member, rest } => {
            let tail = listing(rest);
            Listing { members: seq![member] + tail.members, complete: tail.complete, rest: tail.rest }
        },
        Step::End { rest } => Listing { members: Seq::empty(), complete: true, rest },
        Step::Truncated => Listing { members: Seq::empty(), complete: false, rest: Seq::empty() },
    }
}

/// Why reading a member failed.
#[derive(Debug, Clone, Copy, PartialEq, Eq, Structural)]
pub enum ReadError {
    /// The bytes stopped inside a header block, or before the content of a
    /// member was complete.
    Truncated,
}

/// A member of an archive: its header, and its content without padding.
#[derive(Debug, Clone)]
pub struct Entry {
    pub header: PosixHeader,
    pub content: Vec<u8>,
}

impl Entry {
    /// Whether the entry is what reading `member` gives.
    pub open spec fn holds(&self, member: Member) -> bool {
        self.header.decodes(member.block) && self.content@ == member.content
    }
}

/// Whether `entries` are what reading `members` gives, one for one and in
/// the same order.
pub open spec fn hold_all(entries: Seq<Entry>, members: Seq<Member>) -> bool {
    &&& entries.len() == members.len()
    &&& forall|i: int| 0 <= i < entries.len() ==> (#[trigger] entries[i]).holds(members[i])
}

/// Computes the number of blocks that `size` bytes of content take.
pub fn content_blocks(size: usize) -> (blocks: usize)
    ensures
        blocks == block_count(size as nat),
{
    if size % 512 == 0 {
        size / 512
    } else {
        size / 512 + 1
    }
}

/// Copies the block that starts at `pos`.
fn block_at(stream: &[u8], pos: usize) -> (block: [u8; 512])
    requires
        pos + 512 <= stream@.len(),
    ensures
        block@ == stream@.subrange(pos as int, pos + 512),
{
    let total: usize = stream.len();
    let mut block: [u8; 512] = [0u8; 512];
    let mut i: usize = 0;
    while i < 512
        invariant
            i <= 512,
            pos + 512 <= total == stream@.len(),
            forall|j: int| 0 <= j < i ==> block@[j] == stream@[pos + j],
        decreases 512 - i,
    {
        block[i] = stream[pos + i];
        i += 1;
    }
    assert(block@ =~= stream@.subrange(pos as int, pos + 512));
    block
}

/// A reader over the bytes of an archive. It borrows the bytes and keeps
/// nothing but its place in them.
pub struct ArchiveReader<'a> {
    stream: &'a [u8],
    pos: usize,
}

impl<'a> View for ArchiveReader<'a> {
    type V = Seq<u8>;

    /// The bytes that have not been read yet.
    closed spec fn view(&self) -> Seq<u8> {
        self.stream@.skip(self.pos as int)
    }
}

impl<'a> ArchiveReader<'a> {
    #[verifier::type_invariant]
    spec fn in_bounds(&self) -> bool {
        self.pos <= self.stream@.len()
    }

    /// A reader that stands at the start of `stream`.
    pub fn new(stream: &'a [u8]) -> (reader: Self)
        ensures
            reader@ == stream@,
    {
        assert(stream@.skip(0) =~= stream@);
        ArchiveReader { stream, pos: 0 }
    }

    /// The number of bytes that have not been read yet.
    pub fn remaining(&self) -> (n: usize)
        ensures
            n == self@.len(),
    {
        proof {
            use_type_invariant(self);
        }
        self.stream.len() - self.pos
    }

    /// Reads the header block of the next member.
    ///
    /// Returns `Ok(None)` at the end of the archive: where no bytes are
    /// left, or where the next block holds only zero bytes (that block is
    /// then consumed). Returns the header where a full block is there and
    /// holds anything else. Fails with `Truncated` where fewer bytes than a
    /// block are left; the reader then stands at the end of the bytes.
    pub fn read_header(&mut self) -> (result: Result<Option<PosixHeader>, ReadError>)
        ensures
            old(self)@.len() == 0 ==> {
                &&& result matches Ok(None)
                &&& final(self)@ == old(self)@
            },
            0 < old(self)@.len() < 512 ==> {
                &&& result matches Err(ReadError::Truncated)
                &&& final(self)@.len() == 0
            },
            old(self)@.len() >= 512 ==> final(self)@ == old(self)@.skip(512),
            old(self)@.len() >= 512 && all_zero(old(self)@.subrange(0, 512)) ==> {
                result matches Ok(None)
            },
            old(self)@.len() >= 512 && !all_zero(old(self)@.subrange(0, 512)) ==> {
                &&& result matches Ok(Some(header))
                &&& header.decodes(old(self)@.subrange(0, 512))
            },
    {
        proof {
            use_type_invariant(&*self);
        }
        let ghost unread = self@;
        let len: usize = self.stream.len();
        let start: usize = self.pos;
        if len - start == 0 {
            return Ok(None);
        }
        if len - start < 512 {
            self.pos = len;
            return Err(ReadError::Truncated);
        }
        let block: [u8; 512] = block_at(self.stream, start);
        assert(block@ =~= unread.subrange(0, 512));
        self.pos = start + 512;
        assert(self@ =~= unread.skip(512));
        match decode(&block) {
            HeaderDecodeResult::EndOfArchive => Ok(None),
            HeaderDecodeResult::Header(header) => Ok(Some(header)),
        }
    }

    /// Reads the content that follows the header of a member.
    ///
    /// The content takes as many whole blocks as the size in the header
    /// asks for. Where they are all there, returns the content without the
    /// padding of the last block and leaves the reader at the block after
    /// it. Fails with `Truncated` where they are not; the reader then stands
    /// at the end of the bytes.
    pub fn read_file(&mut self, header: &PosixHeader) -> (result: Result<Vec<u8>, ReadError>)
        ensures
            old(self)@.len() >= padded_len(header.size_value()) ==> {
                &&& result matches Ok(content)
                &&& content@ == old(self)@.subrange(0, header.size_value() as int)
                &&& final(self)@ == old(self)@.skip(padded_len(header.size_value()) as int)
            },
            old(self)@.len() < padded_len(header.size_value()) ==> {
                &&& result matches Err(ReadError::Truncated)
                &&& final(self)@.len() == 0
            },
            result matches Ok(content) ==> content@.len() == header.size_value(),
    {
        proof {
            use_type_invariant(&*self);
        }
        let ghost unread = self@;
        let len: usize = self.stream.len();
        let start: usize = self.pos;
        let size: usize = header.size();
        let blocks: usize = content_blocks(size);
        if blocks > (len - start) / 512 {
            self.pos = len;
            Err(ReadError::Truncated)
        } else {
            let content = slice_to_vec(slice_subrange(self.stream, start, start + size));
            assert(content@ =~= unread.subrange(0, size as int));
            self.pos = start + blocks * 512;
            assert(self@ =~= unread.skip(padded_len(size as nat) as int));
            Ok(content)
        }
    }

    /// Reads the next member: its header, then its content.
    ///
    /// Returns `Ok(None)` at the end of the archive: where no bytes are
    /// left, or where the next block holds only zero bytes (that block is
    /// then consumed). Returns the member where its header block and all its
    /// content blocks are there; the content has exactly the length that the
    /// header gives, and the reader then stands at the next header block.
    /// Fails with `Truncated` where the bytes stop short of a full header
    /// block or of the member's last content block; the reader then stands
    /// at the end of the bytes.
    pub fn next_entry(&mut self) -> (result: Result<Option<Entry>, ReadError>)
        ensures
            match step(old(self)@) {
                Step::Entry { member, rest } => {
                    &&& result matches Ok(Some(entry))
                    &&& entry.holds(member)
                    &&& final(self)@ == rest
                },
                Step::End { rest } => result matches Ok(None) && final(self)@ == rest,
                Step::Truncated => {
                    &&& result matches Err(ReadError::Truncated)
                    &&& final(self)@.len() == 0
                },
            },
            result matches Ok(Some(entry)) ==> entry.content@.len() == entry.header.size_value(),
    {
        let ghost unread = self@;
        let header = match self.read_header() {
            Ok(Some(header)) => header,
            Ok(None) => {
                return Ok(None);
            },
            Err(error) => {
                return Err(error);
            },
        };
        let ghost size = header.size_value();
        match self.read_file(&header) {
            Ok(content) => {
                proof {
                    assert(unread.skip(512).subrange(0, size as int) =~= unread.subrange(
                        512,
                        512 + size as int,
                    ));
                    assert(unread.skip(512).skip(padded_len(size) as int) =~= unread.skip(
                        512 + padded_len(size) as int,
                    ));
                }
                Ok(Some(Entry { header, content }))
            },
            Err(error) => Err(error),
        }
    }

    /// Reads all the members that are left, up to the end of the archive.
    ///
    /// Returns them in the order of the archive where the archive ends as it
    /// should, and fails with `Truncated` where it breaks off.
    pub fn entries(&mut self) -> (result: Result<Vec<Entry>, ReadError>)
        ensures
            final(self)@ == listing(old(self)@).rest,
            listing(old(self)@).complete ==> {
                &&& result matches Ok(entries)
                &&& hold_all(entries@, listing(old(self)@).members)
            },
            !listing(old(self)@).complete ==> result matches Err(ReadError::Truncated),
    {
        let ghost all = listing(self@);
        let ghost mut seen: Seq<Member> = Seq::empty();
        let mut entries: Vec<Entry> = Vec::new();
        loop
            invariant
                all == listing(old(self)@),
                all.members == seen + listing(self@).members,
                all.complete == listing(self@).complete,
                all.rest == listing(self@).rest,
                hold_all(entries@, seen),
            decreases self@.len(),
        {
            let ghost unread = self@;
            match self.next_entry() {
                Ok(Some(entry)) => {
                    proof {
                        let member = step(unread)->member;
                        assert(seen.push(member) + listing(self@).members =~= seen + listing(
                            unread,
                        ).members);
                        seen = seen.push(member);
                    }
                    entries.push(entry);
                },
                Ok(None) => {
                    assert(seen + listing(unread).members =~= seen);
                    return Ok(entries);
                },
                Err(error) => {
                    assert(self@ =~= Seq::<u8>::empty());
                    return Err(error);
                },
            }
        }
    }
}

} // verus!
