use mui_strings::error::{push_decimal, Error, ErrorKind};

#[test]
fn own_errors_have_fixed_messages() {
    assert_eq!(Error::OptionalHeader.message(), "No Optional Header in PE");
    assert_eq!(Error::DataDir.message(), "No Data Directories");
}

#[test]
fn offset_error_names_the_address_in_decimal() {
    assert_eq!(Error::Offset(0).message(), "Error finding offset at: 0");
    assert_eq!(Error::Offset(7).message(), "Error finding offset at: 7");
    assert_eq!(Error::Offset(0x9000).message(), "Error finding offset at: 36864");
    assert_eq!(
        Error::Offset(usize::MAX).message(),
        format!("Error finding offset at: {}", usize::MAX)
    );
}

#[test]
fn outside_errors_speak_for_themselves() {
    assert_eq!(Error::Scroll(scroll::Error::BadOffset(3)).message(), "bad offset 3");
    assert_eq!(
        Error::Scroll(scroll::Error::TooBig { size: 4, len: 1 }).message(),
        "type is too big (4) for 1"
    );
    assert_eq!(
        Error::Goblin(goblin::error::Error::BadMagic(0x999)).message(),
        "Invalid magic number: 0x999"
    );
    assert_eq!(
        Error::Goblin(goblin::error::Error::Malformed("odd".to_string())).message(),
        "Malformed entity: odd"
    );
}

#[test]
fn decimal_is_written_behind_the_text() {
    let mut text = String::from("n = ");
    push_decimal(&mut text, 1234567890);
    assert_eq!(text, "n = 1234567890");
    let mut text = String::new();
    push_decimal(&mut text, 10);
    push_decimal(&mut text, 0);
    push_decimal(&mut text, 909);
    assert_eq!(text, "100909");
}

#[test]
fn kind_keeps_the_variant_and_the_address() {
    assert_eq!(Error::OptionalHeader.kind(), ErrorKind::OptionalHeader);
    assert_eq!(Error::DataDir.kind(), ErrorKind::DataDir);
    assert_eq!(Error::Offset(0x1234).kind(), ErrorKind::Offset(0x1234));
    assert_eq!(Error::Scroll(scroll::Error::BadOffset(1)).kind(), ErrorKind::Scroll);
    assert_eq!(Error::Goblin(goblin::error::Error::BadMagic(2)).kind(), ErrorKind::Goblin);
    assert_ne!(Error::Offset(1).kind(), ErrorKind::Offset(2));
}
