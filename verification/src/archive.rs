//! How members are laid out in an archive, and that the reader finds them
//! again.

use crate::header::{all_zero, block_size_field};
use crate::reader::{listing, padded_len, step, Member, Step};
use vstd::prelude::*;

verus! {

/// `n` zero bytes.
pub open spec fn zeros(n: nat) -> Seq<u8> {
    Seq::new(n, |i: int| 0u8)
}

/// Whether a member can stand in an archive: its header is a block that is
/// not all zero, and the size field of the header gives the length of the
/// content.
pub open spec fn well_formed(member: Member) -> bool {
    &&& member.block.len() == 512
    &&& !all_zero(member.block)
    &&& block_size_field(member.block) == member.content.len()
}

/// The blocks of one member: the header block, then the content, then zero
/// bytes up to the next block boundary.
pub open spec fn member_bytes(member: Member) -> Seq<u8> {
    let size = member.content.len();
    member.block + member.content + zeros((padded_len(size) - size) as nat)
}

/// The blocks of the members, one member after the other.
pub open spec fn archive_bytes(members: Seq<Member>) -> Seq<u8>
    decreases members.len(),
{
    if members.len() == 0 {
        Seq::empty()
    } else {
        member_bytes(members.first()) + archive_bytes(members.drop_first())
    }
}

/// Whether `trailer` ends an archive: it is empty, or it starts with a block
/// of zero bytes.
pub open spec fn ends_archive(trailer: Seq<u8>) -> bool {
    trailer.len() == 0 || (trailer.len() >= 512 && all_zero(trailer.subrange(0, 512)))
}

/// The bytes that stay unread once the end that `trailer` marks has been
/// found.
pub open spec fn after_end(trailer: Seq<u8>) -> Seq<u8> {
    if trailer.len() == 0 {
        trailer
    } else {
        trailer.skip(512)
    }
}

/// Where the blocks of a well-formed member stand first, one step reads
/// that member and leaves what follows its blocks.
pub proof fn step_reads_member(member: Member, rest: Seq<u8>)
    requires
        well_formed(member),
    ensures
        step(member_bytes(member) + rest) == (Step::Entry { member, rest }),
{
    let size = member.content.len();
    let unread = member_bytes(member) + rest;
    assert(padded_len(size) >= size);
    assert(unread.subrange(0, 512) =~= member.block);
    assert(unread.subrange(512, 512 + size as int) =~= member.content);
    assert(unread.skip(512 + padded_len(size) as int) =~= rest);
}

/// Reading an archive that holds well-formed members one after the other,
/// followed by the end of the bytes or by a block of zero bytes, yields
/// exactly these members, in their order, and then the end of the archive.
pub proof fn reading_lists_the_members(members: Seq<Member>, trailer: Seq<u8>)
    requires
        forall|i: int| 0 <= i < members.len() ==> well_formed(#[trigger] members[i]),
        ends_archive(trailer),
    ensures
        listing(archive_bytes(members) + trailer).members == members,
        listing(archive_bytes(members) + trailer).complete,
        listing(archive_bytes(members) + trailer).rest == after_end(trailer),
    decreases members.len(),
{
    if members.len() == 0 {
        assert(archive_bytes(members) + trailer =~= trailer);
    } else {
        let first = members.first();
        let others = members.drop_first();
        let rest = archive_bytes(others) + trailer;
        assert forall|i: int| 0 <= i < others.len() implies well_formed(#[trigger] others[i]) by {
            assert(others[i] == members[i + 1]);
        }
        reading_lists_the_members(others, trailer);
        step_reads_member(first, rest);
        assert(archive_bytes(members) + trailer =~= member_bytes(first) + rest);
        assert(seq![first] + others =~= members);
    }
}

} // verus!
