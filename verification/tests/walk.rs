use mui_strings::directory::ResourceDirEntry;
use mui_strings::locate::LeafRange;
use mui_strings::walk::{match_text_types, read_dirs_in_row, skip_dirs_in_row, walk_directories};

fn directory(names: &[u32]) -> Vec<u8> {
    let mut bytes = vec![0u8; 12];
    bytes.extend_from_slice(&0u16.to_le_bytes());
    bytes.extend_from_slice(&(names.len() as u16).to_le_bytes());
    for name in names {
        bytes.extend_from_slice(&name.to_le_bytes());
        bytes.extend_from_slice(&0x8000_0000u32.to_le_bytes());
    }
    bytes
}

/// A tree with the given type ids and, for each, the number of entries of
/// its name directory; every language directory has one entry.
fn tree(types: &[u32], name_counts: &[usize]) -> Vec<u8> {
    let mut bytes = directory(types);
    for count in name_counts {
        bytes.extend_from_slice(&directory(&vec![1; *count]));
    }
    for count in name_counts {
        for _ in 0..*count {
            bytes.extend_from_slice(&directory(&[0x409]));
        }
    }
    bytes
}

fn entry(name: u32) -> ResourceDirEntry {
    ResourceDirEntry { name, offset_to_data: 0, file_offset: 0 }
}

#[test]
fn string_and_message_tables_match() {
    let entries = vec![entry(3), entry(6), entry(0xb), entry(0x10), entry(6), entry(0x6_0000)];
    assert_eq!(match_text_types(&entries), vec![1, 2, 4]);
    assert_eq!(match_text_types(&vec![]), Vec::<usize>::new());
    assert_eq!(match_text_types(&vec![entry(5), entry(7), entry(0xa), entry(0xc)]), Vec::<usize>::new());
}

#[test]
fn walk_finds_the_run_of_the_string_table() {
    let bytes = tree(&[3, 6, 0x10], &[2, 3, 1]);
    assert_eq!(bytes.len(), 40 + 96 + 144);
    let mut offset = 0;
    let range = walk_directories(&bytes, &mut offset).unwrap();
    assert_eq!(range, LeafRange { skip_count: 2, read_count: 3 });
    assert_eq!(offset, 280);
}

#[test]
fn walk_finds_the_message_table() {
    let bytes = tree(&[0xb], &[4]);
    let mut offset = 0;
    let range = walk_directories(&bytes, &mut offset).unwrap();
    assert_eq!(range, LeafRange { skip_count: 0, read_count: 4 });
    assert_eq!(offset, bytes.len());
}

#[test]
fn walk_without_text_tables_reads_nothing() {
    let bytes = tree(&[1, 2, 3], &[1, 1, 1]);
    let mut offset = 0;
    let range = walk_directories(&bytes, &mut offset).unwrap();
    assert_eq!(range, LeafRange { skip_count: 0, read_count: 0 });
    assert_eq!(offset, bytes.len());
}

#[test]
fn walk_starts_at_the_cursor() {
    let mut bytes = vec![0xEE; 11];
    bytes.extend_from_slice(&tree(&[6], &[1]));
    bytes.extend_from_slice(&[0xEE; 30]);
    let mut offset = 11;
    let range = walk_directories(&bytes, &mut offset).unwrap();
    assert_eq!(range, LeafRange { skip_count: 0, read_count: 1 });
    assert_eq!(offset, 11 + 72);
}

#[test]
fn walk_of_an_empty_type_directory() {
    let bytes = directory(&[]);
    let mut offset = 0;
    let range = walk_directories(&bytes, &mut offset).unwrap();
    assert_eq!(range, LeafRange { skip_count: 0, read_count: 0 });
    assert_eq!(offset, 16);
}

#[test]
fn walk_follows_position_and_not_the_offsets_in_the_entries() {
    // The entries all carry the same offset; the directories are found by
    // their place in the file.
    let bytes = tree(&[6, 0xb], &[1, 2]);
    let mut offset = 0;
    let range = walk_directories(&bytes, &mut offset).unwrap();
    assert_eq!(range, LeafRange { skip_count: 1, read_count: 3 });
}

#[test]
fn truncated_tree_fails_at_each_level() {
    let whole = tree(&[3, 6, 0x10], &[2, 3, 1]);
    // In the type directory.
    let mut offset = 0;
    assert!(walk_directories(&whole[..30].to_vec(), &mut offset).is_err());
    assert_eq!(offset, 28);
    // In the second name directory: its header is whole, its second entry
    // has one word left.
    let mut offset = 0;
    assert!(walk_directories(&whole[..100].to_vec(), &mut offset).is_err());
    assert_eq!(offset, 100);
    // In the last language directory: one byte short.
    let mut offset = 0;
    assert!(walk_directories(&whole[..279].to_vec(), &mut offset).is_err());
    assert_eq!(offset, 276);
}

#[test]
fn directories_in_a_row() {
    let mut bytes = directory(&[1, 2]);
    bytes.extend_from_slice(&directory(&[]));
    bytes.extend_from_slice(&directory(&[7]));
    let mut offset = 0;
    let dirs = read_dirs_in_row(&bytes, &mut offset, 3).unwrap();
    assert_eq!(offset, bytes.len());
    assert_eq!(dirs.len(), 3);
    assert_eq!(dirs[0].entries.len(), 2);
    assert_eq!(dirs[1].entries.len(), 0);
    assert_eq!(dirs[2].entries.len(), 1);
    assert_eq!(dirs[0].file_offset, 0);
    assert_eq!(dirs[1].file_offset, 32);
    assert_eq!(dirs[2].file_offset, 48);
    assert_eq!(dirs[2].entries[0].name, 7);

    let mut offset = 0;
    assert!(skip_dirs_in_row(&bytes, &mut offset, 3).is_ok());
    assert_eq!(offset, bytes.len());
    let mut offset = 0;
    assert!(skip_dirs_in_row(&bytes, &mut offset, 0).is_ok());
    assert_eq!(offset, 0);

    let mut offset = 0;
    assert!(read_dirs_in_row(&bytes, &mut offset, 4).is_err());
    assert_eq!(offset, bytes.len());
    let mut offset = 0;
    assert!(skip_dirs_in_row(&bytes, &mut offset, 4).is_err());
    assert_eq!(offset, bytes.len());
}
