use istring::IString;

#[test]
fn from_bytes_reads_back_the_same_bytes() {
    let samples: [&[u8]; 5] = [
        b"",
        b"plain ascii",
        &[0xFF, 0xFE],
        &[0x00, 0x7F, 0x80, 0xBF, 0xC0, 0xF7, 0xF8, 0xFF],
        "h\u{e9}llo \u{1F600}".as_bytes(),
    ];
    for bytes in samples {
        let s = IString::from_bytes(bytes);
        assert_eq!(s.as_bytes(), bytes);
        assert_eq!(s.as_bytes().len(), bytes.len());
    }
}

#[test]
fn from_bytes_keeps_every_byte_value() {
    let all: Vec<u8> = (0..=255u8).collect();
    let s = IString::from_bytes(&all);
    assert_eq!(s.as_bytes(), &all[..]);
}

#[test]
fn from_bytes_copies_its_input() {
    let mut source = vec![1u8, 2, 3];
    let s = IString::from_bytes(&source);
    source[0] = 9;
    assert_eq!(s.as_bytes(), &[1u8, 2, 3][..]);
}

#[test]
fn new_holds_the_utf8_bytes_of_the_text() {
    let s = IString::new("hello");
    assert_eq!(s.as_bytes(), b"hello");
    assert_eq!(s.as_str(), Ok("hello"));
    assert!(s.is_valid_utf8());
}

#[test]
fn new_with_multibyte_text() {
    let text = "na\u{ef}ve \u{20ac}5 \u{1F600}";
    let s = IString::new(text);
    assert_eq!(s.as_bytes(), text.as_bytes());
    assert_eq!(s.as_str(), Ok(text));
    assert!(s.is_valid_utf8());
}

#[test]
fn new_with_empty_text() {
    let s = IString::new("");
    assert_eq!(s.as_bytes().len(), 0);
    assert_eq!(s.as_str(), Ok(""));
    assert!(s.is_valid_utf8());
}

#[test]
fn empty_input_gives_a_zero_length_value() {
    assert_eq!(IString::from_bytes(&[]).as_bytes().len(), 0);
    assert_eq!(IString::new("").as_bytes().len(), 0);
    assert_eq!(IString::from_chars(&[]).as_bytes().len(), 0);
    assert_eq!(IString::try_from_chars(&[]).unwrap().as_bytes().len(), 0);
    assert_eq!(IString::default().as_bytes().len(), 0);
    assert!(IString::from_chars(&[]).is_valid_utf8());
}

#[test]
fn chars_two_byte_then_one_byte() {
    let s = IString::from_chars(&['\u{e9}', 'x']);
    assert_eq!(s.as_bytes(), &[0xC3u8, 0xA9, 0x78][..]);
    assert_eq!(s.as_bytes().len(), 3);
    assert_eq!(s.as_str(), Ok("\u{e9}x"));
}

#[test]
fn chars_four_byte_scalar() {
    let s = IString::from_chars(&['\u{1F600}']);
    assert_eq!(s.as_bytes().len(), 4);
    assert_eq!(s.as_bytes(), &[0xF0u8, 0x9F, 0x98, 0x80][..]);
    let back: Vec<char> = s.as_str().unwrap().chars().collect();
    assert_eq!(back, vec!['\u{1F600}']);
}

#[test]
fn chars_of_every_width() {
    let chars = ['a', '\u{e9}', '\u{20ac}', '\u{1F600}'];
    let s = IString::from_chars(&chars);
    assert_eq!(
        s.as_bytes(),
        &[0x61u8, 0xC3, 0xA9, 0xE2, 0x82, 0xAC, 0xF0, 0x9F, 0x98, 0x80][..]
    );
    assert_eq!(s.as_bytes().len(), 1 + 2 + 3 + 4);
}

#[test]
fn chars_at_the_edges_of_each_width() {
    let chars = [
        '\u{0}', '\u{7F}', '\u{80}', '\u{7FF}', '\u{800}', '\u{D7FF}', '\u{E000}', '\u{FFFF}',
        '\u{10000}', '\u{10FFFF}',
    ];
    let s = IString::from_chars(&chars);
    let expected: String = chars.iter().collect();
    assert_eq!(s.as_bytes(), expected.as_bytes());
    let sum: usize = chars.iter().map(|c| c.len_utf8()).sum();
    assert_eq!(s.as_bytes().len(), sum);
    assert_eq!(sum, 2 * 1 + 2 * 2 + 4 * 3 + 2 * 4);
}

#[test]
fn chars_round_trip_through_text() {
    let samples: [&[char]; 4] = [
        &[],
        &['x'],
        &['h', '\u{e9}', 'l', 'l', 'o'],
        &['\u{1F600}', '\u{20ac}', 'z', '\u{10FFFF}', '\u{0}'],
    ];
    for chars in samples {
        let s = IString::from_chars(chars);
        assert!(s.is_valid_utf8());
        let back: Vec<char> = s.as_str().unwrap().chars().collect();
        assert_eq!(&back[..], chars);
        let sum: usize = chars.iter().map(|c| c.len_utf8()).sum();
        assert_eq!(s.as_bytes().len(), sum);
    }
}

#[test]
fn try_from_chars_agrees_with_from_chars() {
    let chars = ['\u{e9}', 'x', '\u{1F600}'];
    let tried = IString::try_from_chars(&chars).unwrap();
    assert_eq!(tried, IString::from_chars(&chars));
    assert_eq!(tried.as_bytes(), "\u{e9}x\u{1F600}".as_bytes());
}

#[test]
fn chars_give_the_same_bytes_as_text() {
    let text = "The quick brown \u{1F98A} jumps over 13 lazy \u{1F436}s \u{2014} \u{e7}a va?";
    let chars: Vec<char> = text.chars().collect();
    assert_eq!(IString::from_chars(&chars), IString::new(text));
}

#[test]
fn conversions_from_text_and_bytes() {
    let from_text: IString = IString::from("h\u{e9}");
    assert_eq!(from_text.as_bytes(), &[0x68u8, 0xC3, 0xA9][..]);
    let from_bytes: IString = IString::from(&[1u8, 2, 3][..]);
    assert_eq!(from_bytes.as_bytes(), &[1u8, 2, 3][..]);
    let into: IString = "abc".into();
    assert_eq!(into.as_str(), Ok("abc"));
}

#[test]
fn default_is_empty() {
    let s = IString::default();
    assert_eq!(s.as_bytes(), b"");
    assert_eq!(s.as_str(), Ok(""));
}

#[test]
fn deref_gives_the_byte_slice() {
    let s = IString::new("h\u{e9}llo");
    assert_eq!(s.len(), 6);
    assert_eq!(&s[..], "h\u{e9}llo".as_bytes());
    assert_eq!(s[0], b'h');
    assert!(!s.is_empty());
    assert!(IString::new("").is_empty());
    assert_eq!(s.iter().filter(|b| **b == b'l').count(), 2);
}

#[test]
fn clone_is_equal_and_has_storage_of_its_own() {
    let a = IString::new("shared?");
    let b = a.clone();
    assert_eq!(a, b);
    assert_eq!(a.as_bytes(), b.as_bytes());
    assert_ne!(a.as_bytes().as_ptr(), b.as_bytes().as_ptr());
    drop(a);
    assert_eq!(b.as_str(), Ok("shared?"));
}

#[test]
fn clone_of_invalid_bytes() {
    let a = IString::from_bytes(&[0xFF, 0x00, 0xFE]);
    let b = a.clone();
    assert_eq!(b.as_bytes(), &[0xFFu8, 0x00, 0xFE][..]);
    assert!(!b.is_valid_utf8());
}

#[test]
fn a_value_is_a_pointer_and_a_length() {
    assert_eq!(std::mem::size_of::<IString>(), 2 * std::mem::size_of::<usize>());
    assert!(std::mem::size_of::<IString>() < std::mem::size_of::<String>());
}
