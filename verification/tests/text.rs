use std::path::Path;

use inzone_buds::path::{path_components, path_file_name, path_join, same_components};
use inzone_buds::sorting::sorted;
use inzone_buds::text::{
    chars_of, parse_hex_byte, push_decimal, push_hex, same_bytes, same_text, split_bytes,
    split_chars, text_has_line, trimmed_chars,
};

const PATHS: [&str; 19] = [
    "", "/", "//", ".", "./", "..", "a", "a/", "a/.", "./a", "a/./b", "a//b", "/a/b", "/./a",
    "/..", "a/..", "/a/../b", "../a", "/dev/hidraw3",
];

#[test]
fn paths_have_the_components_of_the_standard_library() {
    for path in PATHS {
        let expected: Vec<Vec<u8>> = Path::new(path)
            .components()
            .map(|component| component.as_os_str().as_encoded_bytes().to_vec())
            .collect();
        assert_eq!(path_components(path.as_bytes()), expected);
    }
}

#[test]
fn paths_have_the_file_names_of_the_standard_library() {
    for path in PATHS {
        let expected = Path::new(path)
            .file_name()
            .map(|name| name.as_encoded_bytes().to_vec());
        assert_eq!(path_file_name(path.as_bytes()), expected);
    }
}

#[test]
fn paths_are_joined_and_told_apart_like_those_of_the_standard_library() {
    for directory in PATHS {
        let expected = Path::new(directory).join("hidraw3");
        let joined = path_join(directory.as_bytes(), b"hidraw3");
        assert_eq!(joined, expected.as_os_str().as_encoded_bytes());
        for other in PATHS {
            assert_eq!(
                same_components(
                    &path_components(directory.as_bytes()),
                    &path_components(other.as_bytes())
                ),
                Path::new(directory) == Path::new(other)
            );
        }
    }
}

#[test]
fn byte_strings_are_sorted_like_those_of_the_standard_library() {
    let items: Vec<Vec<u8>> = vec![
        b"/dev/hidraw9".to_vec(),
        b"".to_vec(),
        b"/dev/hidraw10".to_vec(),
        vec![0xff],
        b"/dev/hidraw9".to_vec(),
        b"/dev/hidraw".to_vec(),
    ];
    let mut expected = items.clone();
    expected.sort();
    assert_eq!(sorted(items), expected);
    assert!(sorted(vec![]).is_empty());
}

#[test]
fn numbers_are_written_like_those_of_the_standard_library() {
    for number in [0, 1, 9, 10, 255, 1000, u64::MAX as u128, u128::MAX] {
        let mut out = String::from("n=");
        push_decimal(&mut out, number);
        assert_eq!(out, format!("n={number}"));
    }
    let mut out = String::new();
    push_hex(&mut out, 0x054c, 4);
    push_hex(&mut out, 0xe, 2);
    assert_eq!(out, "054c0e");
}

#[test]
fn lines_are_those_of_the_standard_library() {
    let texts = ["", "\n", "a", "A\n", "b\na", "b\r\na\r\n", "a\r", "a\r\r\n", "\na", "ab", "b a"];
    for text in texts {
        let expected = text.lines().any(|line| line.eq_ignore_ascii_case("a"));
        assert_eq!(text_has_line(text, "a"), expected);
    }
    assert!(text_has_line("X\n\u{212a}é", "\u{212a}é"));
    assert!(!text_has_line("k", "\u{212a}"));
}

#[test]
fn whitespace_is_that_of_the_standard_library() {
    for code in 0..=0x10ffff_u32 {
        if let Some(character) = char::from_u32(code) {
            let text = format!("{character}x{character}");
            let trimmed = trimmed_chars(&text).len();
            assert_eq!(trimmed == 1, character.is_whitespace());
        }
    }
    assert!(trimmed_chars(" \n").is_empty());
    assert_eq!(trimmed_chars(" a b "), vec!['a', ' ', 'b']);
}

#[test]
fn hexadecimal_bytes_are_those_of_the_standard_library() {
    let texts = [
        "", "+", "-", "0", "5", "05", "+5", "-5", "-0", "ff", "FF", "fF", "100", "0ff", "00100", "g",
        "5g", "+ff", "++5", "5+", " 5", "00000000000000000000000000000005", "fffffffffffffffffffffffff",
    ];
    for text in texts {
        let characters: Vec<char> = text.chars().collect();
        assert_eq!(
            parse_hex_byte(&characters),
            u8::from_str_radix(text, 16).ok()
        );
    }
}

#[test]
fn texts_are_split_and_told_apart() {
    assert_eq!(
        split_bytes(b"a//b", b'/'),
        vec![b"a".to_vec(), b"".to_vec(), b"b".to_vec()]
    );
    assert_eq!(split_chars(&[], '\n'), vec![Vec::<char>::new()]);
    assert_eq!(chars_of("aé"), vec!['a', 'é']);
    assert!(same_text("aé", "aé"));
    assert!(!same_text("aé", "ae"));
    assert!(!same_text("a", "ab"));
    assert!(same_bytes(b"ab", b"ab"));
    assert!(!same_bytes(b"ab", b"a"));
}
