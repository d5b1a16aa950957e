//! The 512-byte header block and its fields.
//!
//! A header is laid out at fixed offsets:
//!
//! | field    | offset | length |
//! |----------|--------|--------|
//! | name     | 0      | 100    |
//! | mode     | 100    | 8      |
//! | uid      | 108    | 8      |
//! | gid      | 116    | 8      |
//! | size     | 124    | 12     |
//! | mtime    | 136    | 12     |
//! | chksum   | 148    | 8      |
//! | typeflag | 156    | 1      |
//! | linkname | 157    | 100    |
//! | magic    | 257    | 6      |
//! | version  | 263    | 2      |
//! | uname    | 265    | 32     |
//! | gname    | 297    | 32     |
//! | devmajor | 329    | 8      |
//! | devminor | 337    | 8      |
//! | prefix   | 345    | 155    |
//!
//! The last twelve bytes of the block belong to no field.

use crate::decimal::{decimal, decimal_text};
use crate::octal::{lemma_numeric_field_bound, numeric_field, parse_octal, pow8};
use crate::text::{field_text, lossy_string};
use vstd::prelude::*;
use vstd::string::*;

verus! {

/// The size of a block, the unit in which an archive is laid out.
pub const BLOCK_SIZE: usize = 512;

/// The length of the `magic` field.
pub const TMAGIC_LEN: usize = 6;

/// The length of the `version` field.
pub const TVERSION_LEN: usize = 2;

/// Type flag of a regular file, `'0'`.
pub const REGTYPE: u8 = 0x30;

/// Older type flag of a regular file, NUL.
pub const AREGTYPE: u8 = 0;

/// Type flag of a hard link, `'1'`.
pub const LNKTYPE: u8 = 0x31;

/// Type flag of a symbolic link, `'2'`.
pub const SYMTYPE: u8 = 0x32;

/// Type flag of a character device, `'3'`.
pub const CHRTYPE: u8 = 0x33;

/// Type flag of a block device, `'4'`.
pub const BLKTYPE: u8 = 0x34;

/// Type flag of a directory, `'5'`.
pub const DIRTYPE: u8 = 0x35;

/// Type flag of a FIFO, `'6'`.
pub const FIFOTYPE: u8 = 0x36;

/// Type flag of a contiguous file, `'7'`.
pub const CONTTYPE: u8 = 0x37;

/// What kind of archive member a type flag announces.
#[derive(Debug, Clone, Copy, PartialEq, Eq, Structural)]
pub enum EntryKind {
    Regular,
    HardLink,
    SymbolicLink,
    CharDevice,
    BlockDevice,
    Directory,
    Fifo,
    Contiguous,
    /// A flag outside `'0'` to `'7'` and NUL.
    Other,
}

/// The kind that a type flag stands for.
pub open spec fn kind_of(flag: u8) -> EntryKind {
    if flag == REGTYPE || flag == AREGTYPE {
        EntryKind::Regular
    } else if flag == LNKTYPE {
        EntryKind::HardLink
    } else if flag == SYMTYPE {
        EntryKind::SymbolicLink
    } else if flag == CHRTYPE {
        EntryKind::CharDevice
    } else if flag == BLKTYPE {
        EntryKind::BlockDevice
    } else if flag == DIRTYPE {
        EntryKind::Directory
    } else if flag == FIFOTYPE {
        EntryKind::Fifo
    } else if flag == CONTTYPE {
        EntryKind::Contiguous
    } else {
        EntryKind::Other
    }
}

/// Whether every byte of `bytes` is zero.
pub open spec fn all_zero(bytes: Seq<u8>) -> bool {
    forall|i: int| 0 <= i < bytes.len() ==> #[trigger] bytes[i] == 0
}

/// The byte count that a `size` field announces. A number that a `usize`
/// cannot hold makes the field malformed, and the count zero.
pub open spec fn declared_size(field: Seq<u8>) -> nat {
    let n = numeric_field(field);
    if n <= usize::MAX {
        n
    } else {
        0
    }
}

/// The byte count that the `size` field of a header block announces.
pub open spec fn block_size_field(block: Seq<u8>) -> nat {
    declared_size(block.subrange(124, 136))
}

/// The sum of the bytes of `bytes`.
pub open spec fn byte_sum(bytes: Seq<u8>) -> nat
    decreases bytes.len(),
{
    if bytes.len() == 0 {
        0
    } else {
        byte_sum(bytes.drop_last()) + bytes.last() as nat
    }
}

/// The block with each byte of its `chksum` field replaced by a space.
pub open spec fn chksum_blanked(block: Seq<u8>) -> Seq<u8> {
    Seq::new(
        block.len(),
        |i: int|
            if 148 <= i < 156 {
                0x20u8
            } else {
                block[i]
            },
    )
}

/// The checksum of a header block: the sum of its bytes, the `chksum` field
/// counted as eight spaces.
pub open spec fn computed_checksum(block: Seq<u8>) -> nat {
    byte_sum(chksum_blanked(block))
}

/// Whether the `chksum` field of a header block holds the block's checksum.
pub open spec fn checksum_holds(block: Seq<u8>) -> bool {
    computed_checksum(block) == numeric_field(block.subrange(148, 156))
}

/// The bytes of the `magic` field of a ustar header: `"ustar"` and a NUL.
pub open spec fn ustar_magic() -> Seq<u8> {
    seq![0x75u8, 0x73u8, 0x74u8, 0x61u8, 0x72u8, 0u8]
}

/// The bytes of the `version` field of a ustar header: `"00"`.
pub open spec fn ustar_version() -> Seq<u8> {
    seq![0x30u8, 0x30u8]
}

/// The path that a prefix and a name make: the name alone under an empty
/// prefix, else the prefix, a slash, and the name.
pub open spec fn joined_path(prefix: Seq<char>, name: Seq<char>) -> Seq<char> {
    if prefix.len() == 0 {
        name
    } else {
        prefix + seq!['/'] + name
    }
}

/// One header block, split into its fields. Each field holds the bytes of
/// the block as they stand; the methods decode them.
#[derive(Debug, Clone, Copy)]
pub struct PosixHeader {
    pub name: [u8; 100],
    pub mode: [u8; 8],
    pub uid: [u8; 8],
    pub gid: [u8; 8],
    pub size: [u8; 12],
    pub mtime: [u8; 12],
    pub chksum: [u8; 8],
    pub typeflag: u8,
    pub linkname: [u8; 100],
    pub magic: [u8; 6],
    pub version: [u8; 2],
    pub uname: [u8; 32],
    pub gname: [u8; 32],
    pub devmajor: [u8; 8],
    pub devminor: [u8; 8],
    pub prefix: [u8; 155],
}

/// What a block turns out to be when it is read as a header.
#[derive(Debug, Clone, Copy)]
pub enum HeaderDecodeResult {
    /// The block holds only zero bytes: the archive ends here.
    EndOfArchive,
    /// The block is the header of a member.
    Header(PosixHeader),
}

/// Copies the `N` bytes of a block that start at `offset`.
fn field<const N: usize>(raw: &[u8; 512], offset: usize) -> (bytes: [u8; N])
    requires
        offset + N <= 512,
    ensures
        bytes@ == raw@.subrange(offset as int, offset + N),
{
    let mut bytes: [u8; N] = [0u8; N];
    let mut i: usize = 0;
    while i < N
        invariant
            i <= N,
            offset + N <= 512,
            forall|j: int| 0 <= j < i ==> bytes@[j] == raw@[offset + j],
        decreases N - i,
    {
        bytes[i] = raw[offset + i];
        i += 1;
    }
    assert(bytes@ =~= raw@.subrange(offset as int, offset + N));
    bytes
}

/// Decodes a numeric field of eight bytes.
fn parse_short(field: &[u8; 8]) -> (value: u32)
    ensures
        value == numeric_field(field@),
{
    proof {
        lemma_numeric_field_bound(field@);
        reveal_with_fuel(pow8, 9);
    }
    parse_octal(field) as u32
}

/// Decodes a numeric field of twelve bytes.
fn parse_long(field: &[u8; 12]) -> (value: u64)
    ensures
        value == numeric_field(field@),
{
    proof {
        lemma_numeric_field_bound(field@);
        reveal_with_fuel(pow8, 13);
    }
    parse_octal(field)
}

/// Tells whether a block holds nothing but zero bytes.
pub fn is_zero_block(raw: &[u8; 512]) -> (zero: bool)
    ensures
        zero == all_zero(raw@),
{
    let mut i: usize = 0;
    while i < 512
        invariant
            i <= 512,
            forall|j: int| 0 <= j < i ==> raw@[j] == 0,
        decreases 512 - i,
    {
        if raw[i] != 0 {
            return false;
        }
        i += 1;
    }
    true
}

/// Reads a block as a header. A block of zero bytes marks the end of the
/// archive; any other block is split into the fields of a header, whatever
/// it holds.
pub fn decode(raw: &[u8; 512]) -> (result: HeaderDecodeResult)
    ensures
        all_zero(raw@) ==> result is EndOfArchive,
        !all_zero(raw@) ==> result is Header && result->Header_0.decodes(raw@),
{
    if is_zero_block(raw) {
        HeaderDecodeResult::EndOfArchive
    } else {
        HeaderDecodeResult::Header(PosixHeader::from_block(raw))
    }
}

/// Computes the checksum of a header block.
pub fn compute_checksum(raw: &[u8; 512]) -> (sum: u32)
    ensures
        sum == computed_checksum(raw@),
{
    let ghost blanked = chksum_blanked(raw@);
    let mut sum: u32 = 0;
    let mut i: usize = 0;
    while i < 512
        invariant
            i <= 512,
            blanked == chksum_blanked(raw@),
            sum == byte_sum(blanked.subrange(0, i as int)),
            sum <= 255 * i,
        decreases 512 - i,
    {
        let b: u8 = if 148 <= i && i < 156 {
            0x20
        } else {
            raw[i]
        };
        proof {
            let head = blanked.subrange(0, i + 1);
            assert(head.last() == b);
            assert(head.drop_last() =~= blanked.subrange(0, i as int));
        }
        sum = sum + b as u32;
        i += 1;
    }
    assert(blanked.subrange(0, 512) =~= blanked);
    sum
}

/// Tells whether the `chksum` field of a header block holds the checksum of
/// the block.
pub fn verify_checksum(raw: &[u8; 512]) -> (holds: bool)
    ensures
        holds == checksum_holds(raw@),
{
    let stored: [u8; 8] = field::<8>(raw, 148);
    compute_checksum(raw) == parse_short(&stored)
}

impl PosixHeader {
    /// Whether the fields hold the bytes of `block`, each from its offset.
    pub open spec fn decodes(&self, block: Seq<u8>) -> bool {
        &&& block.len() == 512
        &&& self.name@ == block.subrange(0, 100)
        &&& self.mode@ == block.subrange(100, 108)
        &&& self.uid@ == block.subrange(108, 116)
        &&& self.gid@ == block.subrange(116, 124)
        &&& self.size@ == block.subrange(124, 136)
        &&& self.mtime@ == block.subrange(136, 148)
        &&& self.chksum@ == block.subrange(148, 156)
        &&& self.typeflag == block[156]
        &&& self.linkname@ == block.subrange(157, 257)
        &&& self.magic@ == block.subrange(257, 263)
        &&& self.version@ == block.subrange(263, 265)
        &&& self.uname@ == block.subrange(265, 297)
        &&& self.gname@ == block.subrange(297, 329)
        &&& self.devmajor@ == block.subrange(329, 337)
        &&& self.devminor@ == block.subrange(337, 345)
        &&& self.prefix@ == block.subrange(345, 500)
    }

    /// The member's name, without the prefix.
    pub open spec fn name_text(&self) -> Seq<char> {
        field_text(self.name@)
    }

    /// The permission bits.
    pub open spec fn mode_value(&self) -> nat {
        numeric_field(self.mode@)
    }

    /// The numeric id of the owning user.
    pub open spec fn uid_value(&self) -> nat {
        numeric_field(self.uid@)
    }

    /// The numeric id of the owning group.
    pub open spec fn gid_value(&self) -> nat {
        numeric_field(self.gid@)
    }

    /// The length of the member's content in bytes.
    pub open spec fn size_value(&self) -> nat {
        declared_size(self.size@)
    }

    /// The time of last modification, in seconds since the epoch.
    pub open spec fn mtime_value(&self) -> nat {
        numeric_field(self.mtime@)
    }

    /// The checksum that the header records of itself.
    pub open spec fn checksum_value(&self) -> nat {
        numeric_field(self.chksum@)
    }

    /// The target of a link.
    pub open spec fn linkname_text(&self) -> Seq<char> {
        field_text(self.linkname@)
    }

    /// The name of the owning user.
    pub open spec fn uname_text(&self) -> Seq<char> {
        field_text(self.uname@)
    }

    /// The name of the owning group.
    pub open spec fn gname_text(&self) -> Seq<char> {
        field_text(self.gname@)
    }

    /// The major number of a device.
    pub open spec fn devmajor_value(&self) -> nat {
        numeric_field(self.devmajor@)
    }

    /// The minor number of a device.
    pub open spec fn devminor_value(&self) -> nat {
        numeric_field(self.devminor@)
    }

    /// The leading part of a path that is too long for the name field.
    pub open spec fn prefix_text(&self) -> Seq<char> {
        field_text(self.prefix@)
    }

    /// The member's full path.
    pub open spec fn path_text(&self) -> Seq<char> {
        joined_path(self.prefix_text(), self.name_text())
    }

    /// Whether `magic` and `version` hold the ustar signature.
    pub open spec fn has_ustar_signature(&self) -> bool {
        self.magic@ == ustar_magic() && self.version@ == ustar_version()
    }

    /// The header written out for a reader: one line for each field, in
    /// the order of the block. The size stands there as a decimal number,
    /// every other field as its text.
    pub open spec fn description(&self) -> Seq<char> {
        "PosixHeader {\n    name: "@ + field_text(self.name@)
            + ",\n    mode: "@ + field_text(self.mode@)
            + ",\n    uid: "@ + field_text(self.uid@)
            + ",\n    gid: "@ + field_text(self.gid@)
            + ",\n    size: "@ + decimal_text(self.size_value())
            + ",\n    mtime: "@ + field_text(self.mtime@)
            + ",\n    chksum: "@ + field_text(self.chksum@)
            + ",\n    typeflag: "@ + field_text(seq![self.typeflag])
            + ",\n    linkname: "@ + field_text(self.linkname@)
            + ",\n    magic: "@ + field_text(self.magic@)
            + ",\n    version: "@ + field_text(self.version@)
            + ",\n    uname: "@ + field_text(self.uname@)
            + ",\n    gname: "@ + field_text(self.gname@)
            + ",\n    devmajor: "@ + field_text(self.devmajor@)
            + ",\n    devminor: "@ + field_text(self.devminor@)
            + ",\n    prefix: "@ + field_text(self.prefix@)
            + "\n}"@
    }

    /// Splits a block into the fields of a header.
    pub fn from_block(raw: &[u8; 512]) -> (header: PosixHeader)
        ensures
            header.decodes(raw@),
    {
        PosixHeader {
            name: field::<100>(raw, 0),
            mode: field::<8>(raw, 100),
            uid: field::<8>(raw, 108),
            gid: field::<8>(raw, 116),
            size: field::<12>(raw, 124),
            mtime: field::<12>(raw, 136),
            chksum: field::<8>(raw, 148),
            typeflag: raw[156],
            linkname: field::<100>(raw, 157),
            magic: field::<6>(raw, 257),
            version: field::<2>(raw, 263),
            uname: field::<32>(raw, 265),
            gname: field::<32>(raw, 297),
            devmajor: field::<8>(raw, 329),
            devminor: field::<8>(raw, 337),
            prefix: field::<155>(raw, 345),
        }
    }

    /// The length of the member's content in bytes.
    pub fn size(&self) -> (size: usize)
        ensures
            size == self.size_value(),
    {
        let n: u64 = parse_long(&self.size);
        if n > usize::MAX as u64 {
            0
        } else {
            n as usize
        }
    }

    /// The permission bits.
    pub fn mode(&self) -> (mode: u32)
        ensures
            mode == self.mode_value(),
    {
        parse_short(&self.mode)
    }

    /// The numeric id of the owning user.
    pub fn uid(&self) -> (uid: u32)
        ensures
            uid == self.uid_value(),
    {
        parse_short(&self.uid)
    }

    /// The numeric id of the owning group.
    pub fn gid(&self) -> (gid: u32)
        ensures
            gid == self.gid_value(),
    {
        parse_short(&self.gid)
    }

    /// The time of last modification, in seconds since the epoch.
    pub fn mtime(&self) -> (mtime: u64)
        ensures
            mtime == self.mtime_value(),
    {
        parse_long(&self.mtime)
    }

    /// The checksum that the header records of itself.
    pub fn checksum(&self) -> (checksum: u32)
        ensures
            checksum == self.checksum_value(),
    {
        parse_short(&self.chksum)
    }

    /// The major number of a device.
    pub fn devmajor(&self) -> (major: u32)
        ensures
            major == self.devmajor_value(),
    {
        parse_short(&self.devmajor)
    }

    /// The minor number of a device.
    pub fn devminor(&self) -> (minor: u32)
        ensures
            minor == self.devminor_value(),
    {
        parse_short(&self.devminor)
    }

    /// The target of a link.
    pub fn linkname(&self) -> (target: String)
        ensures
            target@ == self.linkname_text(),
    {
        lossy_string(&self.linkname)
    }

    /// The name of the owning user.
    pub fn uname(&self) -> (uname: String)
        ensures
            uname@ == self.uname_text(),
    {
        lossy_string(&self.uname)
    }

    /// The name of the owning group.
    pub fn gname(&self) -> (gname: String)
        ensures
            gname@ == self.gname_text(),
    {
        lossy_string(&self.gname)
    }

    /// Tells whether `magic` and `version` hold the ustar signature. Reading
    /// does not ask for it; a caller that wants only ustar archives can.
    pub fn is_ustar(&self) -> (ustar: bool)
        ensures
            ustar == self.has_ustar_signature(),
    {
        let ustar = self.magic[0] == 0x75 && self.magic[1] == 0x73 && self.magic[2] == 0x74
            && self.magic[3] == 0x61 && self.magic[4] == 0x72 && self.magic[5] == 0
            && self.version[0] == 0x30 && self.version[1] == 0x30;
        proof {
            if ustar {
                assert(self.magic@ =~= ustar_magic());
                assert(self.version@ =~= ustar_version());
            } else if self.magic@ == ustar_magic() {
                assert(self.version@[0] != 0x30 || self.version@[1] != 0x30);
            }
        }
        ustar
    }

    /// Writes the header out for a reader, one line for each field.
    pub fn describe(&self) -> (text: String)
        ensures
            text@ == self.description(),
    {
        let flag: [u8; 1] = [self.typeflag];
        assert(flag@ =~= seq![self.typeflag]);
        let mut text = "PosixHeader {\n    name: ".to_owned();
        text.append(lossy_string(&self.name).as_str());
        text.append(",\n    mode: ");
        text.append(lossy_string(&self.mode).as_str());
        text.append(",\n    uid: ");
        text.append(lossy_string(&self.uid).as_str());
        text.append(",\n    gid: ");
        text.append(lossy_string(&self.gid).as_str());
        text.append(",\n    size: ");
        text.append(decimal(self.size()).as_str());
        text.append(",\n    mtime: ");
        text.append(lossy_string(&self.mtime).as_str());
        text.append(",\n    chksum: ");
        text.append(lossy_string(&self.chksum).as_str());
        text.append(",\n    typeflag: ");
        text.append(lossy_string(&flag).as_str());
        text.append(",\n    linkname: ");
        text.append(lossy_string(&self.linkname).as_str());
        text.append(",\n    magic: ");
        text.append(lossy_string(&self.magic).as_str());
        text.append(",\n    version: ");
        text.append(lossy_string(&self.version).as_str());
        text.append(",\n    uname: ");
        text.append(lossy_string(&self.uname).as_str());
        text.append(",\n    gname: ");
        text.append(lossy_string(&self.gname).as_str());
        text.append(",\n    devmajor: ");
        text.append(lossy_string(&self.devmajor).as_str());
        text.append(",\n    devminor: ");
        text.append(lossy_string(&self.devminor).as_str());
        text.append(",\n    prefix: ");
        text.append(lossy_string(&self.prefix).as_str());
        text.append("\n}");
        text
    }

    /// The member's name, without the prefix.
    pub fn name(&self) -> (name: String)
        ensures
            name@ == self.name_text(),
    {
        lossy_string(&self.name)
    }

    /// The leading part of a path that is too long for the name field.
    pub fn prefix(&self) -> (prefix: String)
        ensures
            prefix@ == self.prefix_text(),
    {
        lossy_string(&self.prefix)
    }

    /// The member's full path: the name, with the prefix and a slash before
    /// it where the prefix is not empty.
    pub fn path(&self) -> (path: String)
        ensures
            path@ == self.path_text(),
            self.prefix_text().len() > 0 ==> path@ == self.prefix_text() + seq!['/']
                + self.name_text(),
            self.prefix_text().len() == 0 ==> path@ == self.name_text(),
    {
        let prefix = self.prefix();
        let name = self.name();
        if prefix.as_str().is_empty() {
            name
        } else {
            proof {
                reveal_strlit("/");
                assert("/"@ =~= seq!['/']);
            }
            let mut path = prefix;
            path.append("/");
            path.append(name.as_str());
            path
        }
    }

    /// The kind of member that the type flag announces.
    pub fn kind(&self) -> (kind: EntryKind)
        ensures
            kind == kind_of(self.typeflag),
    {
        let flag: u8 = self.typeflag;
        if flag == REGTYPE || flag == AREGTYPE {
            EntryKind::Regular
        } else if flag == LNKTYPE {
            EntryKind::HardLink
        } else if flag == SYMTYPE {
            EntryKind::SymbolicLink
        } else if flag == CHRTYPE {
            EntryKind::CharDevice
        } else if flag == BLKTYPE {
            EntryKind::BlockDevice
        } else if flag == DIRTYPE {
            EntryKind::Directory
        } else if flag == FIFOTYPE {
            EntryKind::Fifo
        } else if flag == CONTTYPE {
            EntryKind::Contiguous
        } else {
            EntryKind::Other
        }
    }
}

/// Two headers that hold the fields of one block are equal, field for field:
/// what a block decodes to depends on its bytes alone.
pub proof fn decoding_is_deterministic(block: Seq<u8>, first: PosixHeader, second: PosixHeader)
    requires
        first.decodes(block),
        second.decodes(block),
    ensures
        first == second,
{
    assert(first.name =~= second.name);
    assert(first.mode =~= second.mode);
    assert(first.uid =~= second.uid);
    assert(first.gid =~= second.gid);
    assert(first.size =~= second.size);
    assert(first.mtime =~= second.mtime);
    assert(first.chksum =~= second.chksum);
    assert(first.linkname =~= second.linkname);
    assert(first.magic =~= second.magic);
    assert(first.version =~= second.version);
    assert(first.uname =~= second.uname);
    assert(first.gname =~= second.gname);
    assert(first.devmajor =~= second.devmajor);
    assert(first.devminor =~= second.devminor);
    assert(first.prefix =~= second.prefix);
}

} // verus!
