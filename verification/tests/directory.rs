use mui_strings::directory::{read_dir, ResourceDataEntry, ResourceDir, ResourceDirEntry};

fn header(named: u16, ids: u16) -> Vec<u8> {
    let mut bytes = Vec::new();
    bytes.extend_from_slice(&0x1122_3344u32.to_le_bytes());
    bytes.extend_from_slice(&0x5566_7788u32.to_le_bytes());
    bytes.extend_from_slice(&4u16.to_le_bytes());
    bytes.extend_from_slice(&9u16.to_le_bytes());
    bytes.extend_from_slice(&named.to_le_bytes());
    bytes.extend_from_slice(&ids.to_le_bytes());
    bytes
}

fn entry(name: u32, offset_to_data: u32) -> Vec<u8> {
    let mut bytes = Vec::new();
    bytes.extend_from_slice(&name.to_le_bytes());
    bytes.extend_from_slice(&offset_to_data.to_le_bytes());
    bytes
}

fn directory(named: u16, ids: u16) -> Vec<u8> {
    let mut bytes = header(named, ids);
    for i in 0..(named as u32 + ids as u32) {
        bytes.extend_from_slice(&entry(0x100 + i, 0x8000_0000 + i));
    }
    bytes
}

#[test]
fn header_fields_are_read_in_order() {
    let bytes = header(1, 2);
    let mut offset = 0;
    let dir = ResourceDir::parse(&bytes, &mut offset).unwrap();
    assert_eq!(offset, 16);
    assert_eq!(dir.characteristics, 0x1122_3344);
    assert_eq!(dir.time_date_stamp, 0x5566_7788);
    assert_eq!(dir.major_version, 4);
    assert_eq!(dir.minor_version, 9);
    assert_eq!(dir.number_of_named_entries, 1);
    assert_eq!(dir.number_of_id_entries, 2);
    assert_eq!(dir.file_offset, 0);
    assert!(dir.entries.is_empty());
    assert_eq!(dir.num_of_entries(), 3);
}

#[test]
fn entry_count_does_not_wrap() {
    let bytes = header(0xFFFF, 0xFFFF);
    let mut offset = 0;
    let dir = ResourceDir::parse(&bytes, &mut offset).unwrap();
    assert_eq!(dir.num_of_entries(), 0x1_FFFE);
}

#[test]
fn directory_is_read_with_its_entries() {
    let mut bytes = vec![0xAA; 5];
    bytes.extend_from_slice(&directory(1, 2));
    bytes.extend_from_slice(&[0xBB; 7]);
    let mut offset = 5;
    let dir = read_dir(&bytes, &mut offset).unwrap();
    assert_eq!(offset, 5 + 16 + 8 * 3);
    assert_eq!(dir.file_offset, 5);
    assert_eq!(dir.entries.len(), 3);
    assert_eq!(dir.entries.len(), dir.num_of_entries());
    for (i, e) in dir.entries.iter().enumerate() {
        assert_eq!(
            *e,
            ResourceDirEntry {
                name: 0x100 + i as u32,
                offset_to_data: 0x8000_0000 + i as u32,
                file_offset: 5 + 16 + 8 * i,
            }
        );
    }
}

#[test]
fn directory_without_entries() {
    let bytes = directory(0, 0);
    let mut offset = 0;
    let dir = read_dir(&bytes, &mut offset).unwrap();
    assert_eq!(offset, 16);
    assert!(dir.entries.is_empty());
}

#[test]
fn directory_that_ends_the_buffer_is_read() {
    let bytes = directory(2, 0);
    let mut offset = 0;
    assert!(read_dir(&bytes, &mut offset).is_ok());
    assert_eq!(offset, bytes.len());
}

#[test]
fn truncated_header_fails() {
    let whole = header(0, 1);
    // For each length, where the cursor rests: behind the last whole field.
    let rests = [0, 0, 0, 0, 4, 4, 4, 4, 8, 8, 10, 10, 12, 12, 14, 14];
    for len in 0..16 {
        let bytes = whole[..len].to_vec();
        let mut offset = 0;
        assert!(ResourceDir::parse(&bytes, &mut offset).is_err());
        assert_eq!(offset, rests[len]);
        let mut offset = 0;
        assert!(read_dir(&bytes, &mut offset).is_err());
        assert_eq!(offset, rests[len]);
    }
}

#[test]
fn truncated_entries_fail() {
    let whole = directory(0, 2);
    assert_eq!(whole.len(), 32);
    let rests = [16, 16, 16, 16, 20, 20, 20, 20, 24, 24, 24, 24, 28, 28, 28, 28];
    for len in 16..32 {
        let bytes = whole[..len].to_vec();
        let mut offset = 0;
        assert!(read_dir(&bytes, &mut offset).is_err());
        assert_eq!(offset, rests[len - 16]);
    }
}

#[test]
fn cursor_beyond_the_buffer_fails_and_stays() {
    let bytes = directory(0, 1);
    let mut offset = bytes.len();
    assert!(read_dir(&bytes, &mut offset).is_err());
    assert_eq!(offset, bytes.len());
    let mut offset = bytes.len() + 100;
    assert!(read_dir(&bytes, &mut offset).is_err());
    assert_eq!(offset, bytes.len() + 100);
    let mut offset = usize::MAX;
    assert!(ResourceDirEntry::parse(&bytes, &mut offset).is_err());
    assert_eq!(offset, usize::MAX);
    let mut offset = usize::MAX;
    assert!(ResourceDataEntry::parse(&bytes, &mut offset).is_err());
    assert_eq!(offset, usize::MAX);
}

#[test]
fn read_failure_is_a_scroll_error() {
    let bytes = vec![0u8; 3];
    let mut offset = 0;
    let err = read_dir(&bytes, &mut offset).unwrap_err();
    assert!(matches!(err, scroll::Error::TooBig { size: 4, len: 3 }));
    let mut offset = 3;
    let err = read_dir(&bytes, &mut offset).unwrap_err();
    assert!(matches!(err, scroll::Error::BadOffset(3)));
}

#[test]
fn dir_entry_is_two_words() {
    let mut bytes = vec![0u8; 2];
    bytes.extend_from_slice(&entry(0x8000_0298, 0x8000_0028));
    let mut offset = 2;
    let e = ResourceDirEntry::parse(&bytes, &mut offset).unwrap();
    assert_eq!(offset, 10);
    assert_eq!(e, ResourceDirEntry { name: 0x8000_0298, offset_to_data: 0x8000_0028, file_offset: 2 });
    let mut offset = 3;
    assert!(ResourceDirEntry::parse(&bytes, &mut offset).is_err());
    assert_eq!(offset, 7);
}

#[test]
fn data_entry_is_four_words() {
    let mut bytes = Vec::new();
    for word in [0x22A0u32, 0xB0, 0x4E4, 0] {
        bytes.extend_from_slice(&word.to_le_bytes());
    }
    let mut offset = 0;
    let e = ResourceDataEntry::parse(&bytes, &mut offset).unwrap();
    assert_eq!(offset, 16);
    assert_eq!(
        e,
        ResourceDataEntry { offset_to_data: 0x22A0, size: 0xB0, code_page: 0x4E4, reserved: 0, file_offset: 0 }
    );
    bytes.truncate(15);
    let mut offset = 0;
    assert!(ResourceDataEntry::parse(&bytes, &mut offset).is_err());
    assert_eq!(offset, 12);
}
