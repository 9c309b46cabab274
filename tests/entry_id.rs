use wad::EntryId;

#[test]
fn from_bytes_roundtrips_with_as_bytes() {
    let id = b"E1M1\0\0\0\0";
    assert_eq!(EntryId::from_bytes(id).as_bytes(), id);
}

#[test]
fn from_bytes_gives_good_display() {
    assert_eq!(EntryId::from_bytes(b"E1M1\0\0\0\0").display(), "E1M1");
}

#[test]
fn from_bytes_with_non_ascii_gives_alternative_display() {
    assert_eq!(
        EntryId::from_bytes(&[196, 255, 150, 0, 0, 0, 0, 0]).display(),
        "?"
    );
}

#[test]
fn from_bytes_with_non_ascii_roundtrips_with_as_bytes() {
    let id = [196, 255, 150, 0, 0, 0, 0, 0];
    assert_eq!(EntryId::from_bytes(&id).as_bytes(), &id);
}

#[test]
fn from_str() {
    let id = "E1M1";
    let entry_id = EntryId::from_str(&id);
    assert!(entry_id.is_some());
}

#[test]
fn from_str_gives_correct_as_bytes() {
    let id = "E1M1";
    let entry_id = EntryId::from_str(&id).unwrap();
    assert_eq!(entry_id.as_bytes(), b"E1M1\0\0\0\0");
}

#[test]
fn from_str_eq_from_bytes() {
    assert_eq!(
        EntryId::from_bytes(b"E1M1\0\0\0\0"),
        EntryId::from_str("E1M1").unwrap()
    );
}

#[test]
fn from_str_same_is_eq() {
    assert_eq!(
        EntryId::from_str("E1M1").unwrap(),
        EntryId::from_str("E1M1").unwrap()
    );
}

#[test]
fn from_str_different_is_not_eq() {
    assert!(EntryId::from_str("E1M2").unwrap() != EntryId::from_str("E1M1").unwrap());
}

#[test]
fn from_str_eq_to_string() {
    let id = "E1M1";
    let entry_id = EntryId::from_str(&id).unwrap();
    let string = entry_id.display().to_string();
    assert_eq!(id, string);
}

#[test]
fn from_str_transforms_to_uppercase_display() {
    assert_eq!(EntryId::from_str("e1m1").unwrap().display(), "E1M1");
}

#[test]
fn from_str_transforms_to_uppercase_as_bytes() {
    assert_eq!(
        EntryId::from_str("e1m1").unwrap().as_bytes(),
        b"E1M1\0\0\0\0"
    );
}

#[test]
fn from_str_same_is_eq_case_insensitive() {
    assert_eq!(
        EntryId::from_str("e1m1").unwrap(),
        EntryId::from_str("E1M1").unwrap()
    );
}

#[test]
fn from_str_full_length_name() {
    let id = EntryId::from_str("linedefs").unwrap();
    assert_eq!(id.as_bytes(), b"LINEDEFS");
    assert_eq!(id.display(), "LINEDEFS");
}

#[test]
fn from_str_empty_text_is_all_zero() {
    let id = EntryId::from_str("").unwrap();
    assert_eq!(id.as_bytes(), &[0u8; 8]);
    assert_eq!(id.display(), "");
}

#[test]
fn from_str_too_long_is_none() {
    assert!(EntryId::from_str("LINEDEFS1").is_none());
}

#[test]
fn from_str_non_ascii_is_none() {
    assert!(EntryId::from_str("é").is_none());
    assert!(EntryId::from_ascii(&[b'A', 0x80]).is_none());
}

#[test]
fn from_str_keeps_non_letters() {
    let id = EntryId::from_str("f_start").unwrap();
    assert_eq!(id.as_bytes(), b"F_START\0");
    assert_eq!(id.display(), "F_START");
}

#[test]
fn from_text_bytes_round_trip() {
    for text in ["e1m1", "", "f_end", "Step1", "THINGS"] {
        let id = EntryId::from_str(text).unwrap();
        let rebuilt = EntryId::from_bytes(id.as_bytes());
        assert_eq!(rebuilt.display(), id.display());
        assert_eq!(rebuilt, id);
    }
}

#[test]
fn display_stops_at_first_zero() {
    assert_eq!(EntryId::from_bytes(b"AB\0CD\0\0\0").display(), "AB");
}

#[test]
fn display_non_ascii_after_zero_is_placeholder() {
    assert_eq!(EntryId::from_bytes(&[b'A', 0, 0, 0, 0, 0, 0, 200]).display(), "?");
}
