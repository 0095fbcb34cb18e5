use village_tui::entry::{is_white_space, trim_chars, Entry};

fn entry(author: u64, tags: Vec<u8>, text: &str) -> Entry {
    Entry::new(author, tags, text.to_string(), 7)
}

#[test]
fn bytes_of_an_entry_read_back() {
    let e = entry(0x0102030405060708, vec![3, 9], "Hello, świat");
    let bytes = e.into_data(false);
    assert_eq!(&bytes[..11], &[2, 3, 9, 1, 2, 3, 4, 5, 6, 7, 8]);
    let back = Entry::from_data(&bytes, 7, false).unwrap();
    assert_eq!(back.author, e.author);
    assert_eq!(back.tags, e.tags);
    assert_eq!(back.text, e.text);
    assert_eq!(back.hash, 7);
}

#[test]
fn plain_entries_carry_no_tags() {
    let e = entry(42, vec![1, 2, 3], "post");
    let bytes = e.into_data(true);
    assert_eq!(bytes.len(), 8 + 4);
    let back = Entry::from_data(&bytes, 1, true).unwrap();
    assert!(back.tags.is_empty());
    assert_eq!(back.author, 42);
    assert_eq!(back.text, "post");
}

#[test]
fn short_data_is_refused() {
    let bytes = vec![0u8; 8];
    assert!(Entry::from_data(&bytes, 0, true).is_err());
    // a plain entry with an empty text is too short to be read back
    let e = entry(1, vec![], "");
    assert!(Entry::from_data(&e.into_data(true), 0, true).is_err());
}

#[test]
fn invalid_text_is_refused() {
    let mut bytes = vec![0u8, 0, 0, 0, 0, 0, 0, 0, 0];
    bytes.push(0xff);
    assert!(Entry::from_data(&bytes, 0, false).is_err());
}

#[test]
fn empty_entry_is_a_placeholder() {
    let e = Entry::empty(99);
    assert_eq!(e.author, 99);
    assert_eq!(e.text, "Empty");
    assert!(e.tags.is_empty());
    assert_eq!(e.hash, 0);
}

#[test]
fn entry_line_pads_and_cuts_the_first_line() {
    let e = entry(1, vec![], "  Short title \nsecond line");
    let line = e.entry_line(31, "GID");
    assert_eq!(line, "Short titl GID");
    let line = e.entry_line(35, "GID");
    assert_eq!(line, "Short title    GID");
    let empty = entry(1, vec![], "");
    assert_eq!(empty.entry_line(21, "A"), "No text A");
    assert_eq!(empty.entry_line(30, "A"), "No text   A");
}

#[test]
fn white_space_is_trimmed() {
    assert!(is_white_space('\u{3000}'));
    assert!(!is_white_space('x'));
    let v: Vec<char> = " \t a b \n".chars().collect();
    assert_eq!(trim_chars(&v), vec!['a', ' ', 'b']);
}
