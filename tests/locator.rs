use wad::{locate, parse_wad, Error, LocateError, RawEntry, Wad};

fn record(start: i32, length: i32, name: &[u8]) -> RawEntry {
    let mut r = [0u8; 16];
    r[0..4].copy_from_slice(&start.to_le_bytes());
    r[4..8].copy_from_slice(&length.to_le_bytes());
    r[8..8 + name.len()].copy_from_slice(name);
    r
}

/// A file of lumps given by name and content, laid out one after the other.
fn wad_of(lumps: &[(&[u8], &[u8])]) -> Wad {
    let mut payload = Vec::new();
    let mut records = Vec::new();
    for (name, content) in lumps {
        records.push(record(12 + payload.len() as i32, content.len() as i32, name));
        payload.extend_from_slice(content);
    }
    let mut b = b"PWAD".to_vec();
    b.extend_from_slice(&(records.len() as i32).to_le_bytes());
    b.extend_from_slice(&((12 + payload.len()) as i32).to_le_bytes());
    b.extend_from_slice(&payload);
    for r in &records {
        b.extend_from_slice(r);
    }
    parse_wad(b).unwrap()
}

fn maps() -> Wad {
    wad_of(&[
        (b"LINEDEFS", b"early"),
        (b"E1M1", b""),
        (b"THINGS", b"t1"),
        (b"LINEDEFS", b"l1"),
        (b"E1M3", b""),
        (b"THINGS", b"t3"),
        (b"LINEDEFS", b"l3"),
        (b"VERTEXES", b"v3"),
    ])
}

fn flats() -> Wad {
    wad_of(&[
        (b"STEP1", b"outside"),
        (b"F_START", b""),
        (b"FLOOR0", b"f0"),
        (b"STEP1", b"inside"),
        (b"F_END", b""),
        (b"STEP1", b"after"),
    ])
}

#[test]
fn plain_name_picks_first_match() {
    let wad = maps();
    let e = locate(&wad.as_slice(), "linedefs").unwrap();
    assert_eq!(e.lump, b"early");
    assert_eq!(e.display_name(), "LINEDEFS");
}

#[test]
fn follows_picks_entry_after_marker() {
    let wad = maps();
    assert_eq!(locate(&wad.as_slice(), "e1m3+linedefs").unwrap().lump, b"l3");
    assert_eq!(locate(&wad.as_slice(), "E1M1+LINEDEFS").unwrap().lump, b"l1");
    assert_eq!(locate(&wad.as_slice(), "e1m1+e1m3+things").unwrap().lump, b"t3");
}

#[test]
fn follows_includes_the_marker_itself() {
    let wad = maps();
    let e = locate(&wad.as_slice(), "e1m3+e1m3").unwrap();
    assert_eq!(e.display_name(), "E1M3");
    assert!(e.lump.is_empty());
}

#[test]
fn within_picks_entry_between_markers() {
    let wad = flats();
    assert_eq!(locate(&wad.as_slice(), "f/step1").unwrap().lump, b"inside");
    assert_eq!(locate(&wad.as_slice(), "step1").unwrap().lump, b"outside");
}

#[test]
fn within_excludes_markers() {
    let wad = flats();
    assert!(matches!(
        locate(&wad.as_slice(), "f/f_start"),
        Err(LocateError::NotFound)
    ));
    assert!(matches!(
        locate(&wad.as_slice(), "f/f_end"),
        Err(LocateError::NotFound)
    ));
}

#[test]
fn within_without_inner_match_is_not_found() {
    let wad = wad_of(&[
        (b"STEP1", b"outside"),
        (b"F_START", b""),
        (b"FLOOR0", b"f0"),
        (b"F_END", b""),
        (b"STEP1", b"after"),
    ]);
    assert!(matches!(
        locate(&wad.as_slice(), "f/step1"),
        Err(LocateError::NotFound)
    ));
}

#[test]
fn within_missing_marker_is_not_found() {
    let wad = maps();
    assert!(matches!(
        locate(&wad.as_slice(), "f/things"),
        Err(LocateError::NotFound)
    ));
}

#[test]
fn within_markers_out_of_order_is_out_of_bounds() {
    let wad = wad_of(&[(b"F_END", b""), (b"STEP1", b"x"), (b"F_START", b"")]);
    assert!(matches!(
        locate(&wad.as_slice(), "f/step1"),
        Err(LocateError::Wad(Error::OutOfBounds))
    ));
}

#[test]
fn invalid_names_are_reported() {
    let wad = maps();
    assert!(matches!(
        locate(&wad.as_slice(), "linedefs9"),
        Err(LocateError::InvalidName)
    ));
    assert!(matches!(
        locate(&wad.as_slice(), "e1m3+é"),
        Err(LocateError::InvalidName)
    ));
    // "SEVENCH_START" is longer than eight bytes.
    assert!(matches!(
        locate(&wad.as_slice(), "sevench/things"),
        Err(LocateError::InvalidName)
    ));
}

#[test]
fn missing_names_are_not_found() {
    let wad = maps();
    assert!(matches!(
        locate(&wad.as_slice(), "sidedefs"),
        Err(LocateError::NotFound)
    ));
    assert!(matches!(
        locate(&wad.as_slice(), "vertexes+things"),
        Err(LocateError::NotFound)
    ));
}

#[test]
fn located_entry_must_resolve() {
    let mut b = b"PWAD".to_vec();
    b.extend_from_slice(&1i32.to_le_bytes());
    b.extend_from_slice(&12i32.to_le_bytes());
    b.extend_from_slice(&record(12, 4, b"BAD"));
    let wad = parse_wad(b).unwrap();
    assert!(matches!(
        locate(&wad.as_slice(), "bad"),
        Err(LocateError::Wad(Error::InvalidEntry))
    ));
}

#[test]
fn locate_on_narrowed_view() {
    let wad = maps();
    let tail = wad.slice(4..8).unwrap();
    assert_eq!(locate(&tail, "linedefs").unwrap().lump, b"l3");
    assert!(matches!(locate(&tail, "e1m1"), Err(LocateError::NotFound)));
}
