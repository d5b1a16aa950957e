use ustar::header::EntryKind;
use ustar::reader::{content_blocks, ArchiveReader, Entry, ReadError};

fn write_at(block: &mut [u8; 512], offset: usize, bytes: &[u8]) {
    block[offset..offset + bytes.len()].copy_from_slice(bytes);
}

fn member_header(name: &str, size: usize, typeflag: u8) -> [u8; 512] {
    let mut block = [0u8; 512];
    write_at(&mut block, 0, name.as_bytes());
    write_at(&mut block, 100, b"0000644\0");
    write_at(&mut block, 108, b"0001750\0");
    write_at(&mut block, 116, b"0001750\0");
    write_at(&mut block, 124, format!("{:011o}\0", size).as_bytes());
    write_at(&mut block, 136, b"14000000000\0");
    write_at(&mut block, 148, b"        ");
    block[156] = typeflag;
    write_at(&mut block, 257, b"ustar\0");
    write_at(&mut block, 263, b"00");
    let sum: u32 = block.iter().map(|b| u32::from(*b)).sum();
    write_at(&mut block, 148, format!("{:06o}\0 ", sum).as_bytes());
    block
}

fn push_member(archive: &mut Vec<u8>, name: &str, content: &[u8]) {
    archive.extend_from_slice(&member_header(name, content.len(), b'0'));
    archive.extend_from_slice(content);
    let padding = (512 - content.len() % 512) % 512;
    archive.extend(std::iter::repeat(0u8).take(padding));
}

fn push_end(archive: &mut Vec<u8>) {
    archive.extend_from_slice(&[0u8; 1024]);
}

fn pattern(len: usize, seed: u8) -> Vec<u8> {
    (0..len).map(|i| (i as u8).wrapping_mul(31).wrapping_add(seed) | 1).collect()
}

fn expect_entry(result: Result<Option<Entry>, ReadError>) -> Entry {
    match result {
        Ok(Some(entry)) => entry,
        Ok(None) => panic!("the archive ended where a member was expected"),
        Err(ReadError::Truncated) => panic!("the archive was truncated"),
    }
}

#[test]
fn content_takes_whole_blocks() {
    assert_eq!(content_blocks(0), 0);
    assert_eq!(content_blocks(1), 1);
    assert_eq!(content_blocks(2), 1);
    assert_eq!(content_blocks(511), 1);
    assert_eq!(content_blocks(512), 1);
    assert_eq!(content_blocks(513), 2);
    assert_eq!(content_blocks(1024), 2);
    assert_eq!(content_blocks(1025), 3);
    assert_eq!(content_blocks(usize::MAX), usize::MAX / 512 + 1);
}

#[test]
fn hello_txt_end_to_end() {
    let mut archive = Vec::new();
    archive.extend_from_slice(&member_header("hello.txt", 2, b'0'));
    archive.extend_from_slice(b"hi");
    archive.extend_from_slice(&[0u8; 510]);
    push_end(&mut archive);
    assert_eq!(archive.len(), 2048);

    let mut reader = ArchiveReader::new(&archive);
    let entry = expect_entry(reader.next_entry());
    assert_eq!(entry.header.kind(), EntryKind::Regular);
    assert_eq!(entry.header.size(), 2);
    assert_eq!(entry.header.name(), "hello.txt");
    assert_eq!(entry.content, b"hi");
    assert!(matches!(reader.next_entry(), Ok(None)));
}

#[test]
fn members_come_in_archive_order_and_then_the_end() {
    let contents = [pattern(2, 1), pattern(513, 2), pattern(0, 3), pattern(512, 4), pattern(3000, 5)];
    let names = ["a.txt", "b.bin", "empty", "block", "big"];
    let mut archive = Vec::new();
    for (name, content) in names.iter().zip(contents.iter()) {
        push_member(&mut archive, name, content);
    }
    push_end(&mut archive);

    let mut reader = ArchiveReader::new(&archive);
    for (name, content) in names.iter().zip(contents.iter()) {
        let entry = expect_entry(reader.next_entry());
        assert_eq!(entry.header.name(), *name);
        assert_eq!(&entry.content, content);
    }
    assert!(matches!(reader.next_entry(), Ok(None)));
}

#[test]
fn archive_may_end_with_the_bytes() {
    let mut archive = Vec::new();
    push_member(&mut archive, "only", b"content");
    let mut reader = ArchiveReader::new(&archive);
    let entry = expect_entry(reader.next_entry());
    assert_eq!(entry.content, b"content");
    assert_eq!(reader.remaining(), 0);
    assert!(matches!(reader.next_entry(), Ok(None)));
    assert!(matches!(reader.next_entry(), Ok(None)));
}

#[test]
fn empty_stream_is_the_end() {
    let mut reader = ArchiveReader::new(&[]);
    assert_eq!(reader.remaining(), 0);
    assert!(matches!(reader.next_entry(), Ok(None)));
    assert!(matches!(reader.read_header(), Ok(None)));
    assert_eq!(reader.entries().map(|entries| entries.len()), Ok(0));
}

#[test]
fn content_length_is_the_size_of_the_header() {
    for size in [0usize, 1, 2, 100, 511, 512, 513, 1023, 1024, 1025, 4096, 5000] {
        let content = pattern(size, 7);
        let mut archive = Vec::new();
        push_member(&mut archive, "member", &content);
        push_end(&mut archive);
        let mut reader = ArchiveReader::new(&archive);
        let entry = expect_entry(reader.next_entry());
        assert_eq!(entry.header.size(), size);
        assert_eq!(entry.content.len(), size);
        assert_eq!(entry.content, content);
        assert_eq!(reader.remaining(), 1024);
    }
}

#[test]
fn size_513_takes_two_content_blocks() {
    let content = pattern(513, 9);
    let mut archive = Vec::new();
    archive.extend_from_slice(&member_header("odd", 513, b'0'));
    archive.extend_from_slice(&content);
    archive.extend_from_slice(&[0xeeu8; 511]);
    push_member(&mut archive, "next", b"n");
    push_end(&mut archive);

    let mut reader = ArchiveReader::new(&archive);
    let before = reader.remaining();
    let entry = expect_entry(reader.next_entry());
    assert_eq!(before - reader.remaining(), 512 + 1024);
    assert_eq!(entry.content.len(), 513);
    assert_eq!(entry.content, content);
    assert!(!entry.content.contains(&0xee));
    let next = expect_entry(reader.next_entry());
    assert_eq!(next.header.name(), "next");
    assert_eq!(next.content, b"n");
}

#[test]
fn torn_header_is_truncated() {
    let block = member_header("torn", 0, b'0');
    let mut reader = ArchiveReader::new(&block[..300]);
    assert_eq!(reader.next_entry().map(|entry| entry.is_some()), Err(ReadError::Truncated));
}

#[test]
fn torn_header_after_a_member_is_truncated() {
    let mut archive = Vec::new();
    push_member(&mut archive, "whole", b"abc");
    archive.extend_from_slice(&member_header("torn", 0, b'0')[..300]);
    let mut reader = ArchiveReader::new(&archive);
    let entry = expect_entry(reader.next_entry());
    assert_eq!(entry.header.name(), "whole");
    assert!(matches!(reader.next_entry(), Err(ReadError::Truncated)));
}

#[test]
fn header_of_one_to_511_bytes_is_truncated() {
    let block = member_header("torn", 0, b'0');
    for len in [1usize, 2, 255, 256, 300, 510, 511] {
        let mut reader = ArchiveReader::new(&block[..len]);
        assert!(matches!(reader.read_header(), Err(ReadError::Truncated)));
        assert_eq!(reader.remaining(), 0);
    }
    let zeros = [0u8; 511];
    let mut reader = ArchiveReader::new(&zeros);
    assert!(matches!(reader.next_entry(), Err(ReadError::Truncated)));
}

#[test]
fn missing_content_block_is_truncated() {
    let mut archive = Vec::new();
    archive.extend_from_slice(&member_header("short", 513, b'0'));
    archive.extend_from_slice(&pattern(512, 1));
    let mut reader = ArchiveReader::new(&archive);
    assert!(matches!(reader.next_entry(), Err(ReadError::Truncated)));
    assert_eq!(reader.remaining(), 0);
}

#[test]
fn content_block_that_breaks_off_is_truncated() {
    let mut archive = Vec::new();
    archive.extend_from_slice(&member_header("short", 2, b'0'));
    archive.extend_from_slice(b"hi");
    archive.extend_from_slice(&[0u8; 100]);
    let mut reader = ArchiveReader::new(&archive);
    assert!(matches!(reader.next_entry(), Err(ReadError::Truncated)));

    let mut archive = Vec::new();
    archive.extend_from_slice(&member_header("short", 600, b'0'));
    archive.extend_from_slice(&pattern(600, 3));
    let mut reader = ArchiveReader::new(&archive);
    assert!(matches!(reader.next_entry(), Err(ReadError::Truncated)));
}

#[test]
fn header_without_any_content_block_is_truncated() {
    let block = member_header("short", 1, b'0');
    let mut reader = ArchiveReader::new(&block);
    assert!(matches!(reader.next_entry(), Err(ReadError::Truncated)));
}

#[test]
fn reading_after_truncation_finds_the_end() {
    let block = member_header("torn", 0, b'0');
    let mut reader = ArchiveReader::new(&block[..300]);
    assert!(matches!(reader.next_entry(), Err(ReadError::Truncated)));
    assert_eq!(reader.remaining(), 0);
    assert!(matches!(reader.next_entry(), Ok(None)));
}

#[test]
fn zero_block_ends_the_archive_and_is_consumed() {
    let mut archive = Vec::new();
    archive.extend_from_slice(&[0u8; 512]);
    push_member(&mut archive, "behind", b"x");
    let mut reader = ArchiveReader::new(&archive);
    assert!(matches!(reader.next_entry(), Ok(None)));
    assert_eq!(reader.remaining(), 1024);
    let entry = expect_entry(reader.next_entry());
    assert_eq!(entry.header.name(), "behind");
    assert!(matches!(reader.next_entry(), Ok(None)));
}

#[test]
fn second_zero_block_is_another_end() {
    let mut archive = Vec::new();
    push_member(&mut archive, "m", b"x");
    push_end(&mut archive);
    let mut reader = ArchiveReader::new(&archive);
    expect_entry(reader.next_entry());
    assert!(matches!(reader.next_entry(), Ok(None)));
    assert_eq!(reader.remaining(), 512);
    assert!(matches!(reader.next_entry(), Ok(None)));
    assert_eq!(reader.remaining(), 0);
    assert!(matches!(reader.next_entry(), Ok(None)));
    assert_eq!(reader.remaining(), 0);
}

#[test]
fn directories_and_links_take_no_content_blocks() {
    let mut archive = Vec::new();
    archive.extend_from_slice(&member_header("dir/", 0, b'5'));
    archive.extend_from_slice(&member_header("link", 0, b'2'));
    archive.extend_from_slice(&member_header("fifo", 0, b'6'));
    push_member(&mut archive, "dir/file", b"data");
    push_end(&mut archive);
    let mut reader = ArchiveReader::new(&archive);
    let kinds = [EntryKind::Directory, EntryKind::SymbolicLink, EntryKind::Fifo];
    for kind in kinds {
        let before = reader.remaining();
        let entry = expect_entry(reader.next_entry());
        assert_eq!(entry.header.kind(), kind);
        assert!(entry.content.is_empty());
        assert_eq!(before - reader.remaining(), 512);
    }
    let entry = expect_entry(reader.next_entry());
    assert_eq!(entry.header.path(), "dir/file");
    assert_eq!(entry.content, b"data");
}

#[test]
fn type_flag_does_not_change_how_content_is_read() {
    for flag in [b'5', b'2', b'1', b'3', b'x', 0u8] {
        let mut archive = Vec::new();
        archive.extend_from_slice(&member_header("odd", 3, flag));
        archive.extend_from_slice(b"abc");
        archive.extend_from_slice(&[0u8; 509]);
        push_end(&mut archive);
        let mut reader = ArchiveReader::new(&archive);
        let entry = expect_entry(reader.next_entry());
        assert_eq!(entry.content, b"abc");
        assert_eq!(reader.remaining(), 1024);
    }
}

#[test]
fn malformed_size_reads_as_an_empty_member() {
    let mut block = member_header("odd", 0, b'0');
    write_at(&mut block, 124, b"not a number");
    let mut archive = Vec::new();
    archive.extend_from_slice(&block);
    push_member(&mut archive, "next", b"n");
    let mut reader = ArchiveReader::new(&archive);
    let entry = expect_entry(reader.next_entry());
    assert_eq!(entry.header.size(), 0);
    assert!(entry.content.is_empty());
    assert_eq!(expect_entry(reader.next_entry()).header.name(), "next");
}

#[test]
fn header_and_content_can_be_read_apart() {
    let mut archive = Vec::new();
    push_member(&mut archive, "first", &pattern(700, 1));
    push_member(&mut archive, "second", b"2");
    push_end(&mut archive);
    let mut reader = ArchiveReader::new(&archive);

    let header = reader.read_header().unwrap().unwrap();
    assert_eq!(header.name(), "first");
    assert_eq!(reader.remaining(), archive.len() - 512);
    let content = reader.read_file(&header).unwrap();
    assert_eq!(content, pattern(700, 1));
    assert_eq!(reader.remaining(), archive.len() - 512 - 1024);

    let header = reader.read_header().unwrap().unwrap();
    assert_eq!(header.name(), "second");
    assert_eq!(reader.read_file(&header), Ok(b"2".to_vec()));
    assert!(matches!(reader.read_header(), Ok(None)));
}

#[test]
fn entries_lists_all_members() {
    let mut archive = Vec::new();
    push_member(&mut archive, "one", b"1");
    push_member(&mut archive, "two", &pattern(1025, 2));
    push_member(&mut archive, "three", b"");
    push_end(&mut archive);
    let mut reader = ArchiveReader::new(&archive);
    let entries = reader.entries().unwrap();
    let names: Vec<String> = entries.iter().map(|entry| entry.header.name()).collect();
    assert_eq!(names, ["one", "two", "three"]);
    assert_eq!(entries[0].content, b"1");
    assert_eq!(entries[1].content, pattern(1025, 2));
    assert!(entries[2].content.is_empty());
    assert_eq!(reader.remaining(), 512);
}

#[test]
fn entries_of_a_truncated_archive_fail() {
    let mut archive = Vec::new();
    push_member(&mut archive, "one", b"1");
    archive.extend_from_slice(&member_header("two", 5, b'0'));
    archive.extend_from_slice(b"12345");
    let mut reader = ArchiveReader::new(&archive);
    assert_eq!(reader.entries().map(|entries| entries.len()), Err(ReadError::Truncated));
    assert_eq!(reader.remaining(), 0);
}

#[test]
fn entries_start_where_the_reader_stands() {
    let mut archive = Vec::new();
    push_member(&mut archive, "one", b"1");
    push_member(&mut archive, "two", b"2");
    let mut reader = ArchiveReader::new(&archive);
    expect_entry(reader.next_entry());
    let entries = reader.entries().unwrap();
    assert_eq!(entries.len(), 1);
    assert_eq!(entries[0].header.name(), "two");
}
