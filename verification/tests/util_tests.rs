use simple_calc::util::Str;

#[test]
fn new_is_empty() {
    let s = Str::new();
    assert_eq!(s.len(), 0);
    assert_eq!(s.0, Vec::<u8>::new());
}

#[test]
fn new_with_cap_is_empty() {
    let s = Str::new_with_cap(16);
    assert_eq!(s.len(), 0);
    assert_eq!(s.get(0), '\u{FFFF}');
}

#[test]
fn from_holds_the_bytes() {
    let s = Str::from("abc");
    assert_eq!(s.0, vec![97u8, 98, 99]);
    assert_eq!(s.len(), 3);
}

#[test]
fn from_holds_utf8_bytes() {
    let s = Str::from("é");
    assert_eq!(s.0, vec![0xc3u8, 0xa9]);
}

#[test]
fn from_moved_str_holds_the_bytes() {
    let s = Str::from_moved_str(String::from("x=1"));
    assert_eq!(s.0, vec![120u8, 61, 49]);
}

#[test]
fn get_inside_and_past_the_end() {
    let s = Str::from("hi");
    assert_eq!(s.get(0), 'h');
    assert_eq!(s.get(1), 'i');
    assert_eq!(s.get(2), '\u{FFFF}');
    assert_eq!(s.get(usize::MAX), '\u{FFFF}');
}

#[test]
fn get_reads_a_byte_not_a_character() {
    let s = Str::from("é");
    assert_eq!(s.get(0), '\u{c3}');
    assert_eq!(s.get(1), '\u{a9}');
}

#[test]
fn push_appends_the_low_byte() {
    let mut s = Str::new();
    s.push('a');
    s.push('\u{141}');
    assert_eq!(s.0, vec![97u8, 0x41]);
    assert_eq!(s.len(), 2);
}

#[test]
fn as_mut_slice_changes_in_place() {
    let mut s = Str::from("abc");
    s.as_mut_slice()[1] = 120;
    assert_eq!(s.0, vec![97u8, 120, 99]);
}

#[test]
fn as_mut_reads_the_bytes() {
    let s = Str::from("abc");
    assert_eq!(s.as_mut(), &[97u8, 98, 99][..]);
}

#[test]
fn equal_bytes_are_equal() {
    assert_eq!(Str::from("ab"), Str::from_moved_str(String::from("ab")));
    assert_ne!(Str::from("ab"), Str::from("ac"));
}
