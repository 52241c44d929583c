use asset_version_control::text::{
    char_width_exec, chars_of, concat2, concat3, contains_exec, digit_to_char, find_char_exec,
    find_str_exec, first_line, i64_to_dec, int_error_message, is_whitespace, parse_uint_range,
    split_lines, split_on, string_of, string_of_range, sub_vec, trim_bounds, trim_string,
    u64_to_dec, u64_to_dec4, IntError,
};

#[test]
fn lines_as_std_splits_them() {
    for s in ["", "a", "a\n", "a\r\nb", "a\n\nb\n", "\n", "x\r", "a\rb\n"] {
        let expected: Vec<String> = s.lines().map(String::from).collect();
        assert_eq!(split_lines(s), expected, "lines of {:?}", s);
        assert_eq!(first_line(s), s.lines().next().map(String::from));
    }
}

#[test]
fn trimming_as_std_trims() {
    for s in ["", "  ", " a b ", "\t\nx\r\n", "\u{3000}y\u{a0}", "z"] {
        assert_eq!(trim_string(s), s.trim());
    }
    let v = chars_of("  ab ");
    assert_eq!(trim_bounds(&v, 0, v.len()), (2, 4));
}

#[test]
fn whitespace_as_std_sees_it() {
    for c in [' ', '\t', '\n', '\u{85}', '\u{a0}', '\u{2028}', '\u{3000}', 'a', '0', '\u{200b}'] {
        assert_eq!(is_whitespace(c), c.is_whitespace(), "{:?}", c);
    }
}

#[test]
fn decimal_numerals() {
    assert_eq!(u64_to_dec(0), "0");
    assert_eq!(u64_to_dec(1234567890), "1234567890");
    assert_eq!(u64_to_dec(u64::MAX), u64::MAX.to_string());
    assert_eq!(i64_to_dec(-42), "-42");
    assert_eq!(i64_to_dec(i64::MIN), i64::MIN.to_string());
    assert_eq!(u64_to_dec4(7), "0007");
    assert_eq!(u64_to_dec4(12345), "12345");
    assert_eq!(digit_to_char(9), '9');
}

#[test]
fn unsigned_numbers_parse_as_std_does() {
    for s in ["", "0", "+", "-", "+7", "-7", "0042", "4294967295", "4294967296", "1a", " 1"] {
        let v = chars_of(s);
        let ours = parse_uint_range(&v, 0, v.len(), u32::MAX);
        let theirs = s.parse::<u32>();
        match (ours, theirs) {
            (Ok(a), Ok(b)) => assert_eq!(a, b, "{:?}", s),
            (Err(k), Err(e)) => assert_eq!(int_error_message(k), e.to_string(), "{:?}", s),
            _ => panic!("disagreement on {:?}", s),
        }
    }
    let v = chars_of("999");
    assert_eq!(parse_uint_range(&v, 0, 3, 100), Err(IntError::PosOverflow));
    assert_eq!(parse_uint_range(&v, 1, 2, 100), Ok(9));
}

#[test]
fn searching_characters_and_patterns() {
    let v = chars_of("ab## cd## ");
    let pat = chars_of("## ");
    assert_eq!(find_str_exec(&v, &pat, 0), Some(2));
    assert_eq!(find_str_exec(&v, &pat, 3), Some(7));
    assert_eq!(find_str_exec(&v, &pat, 8), None);
    assert_eq!(find_char_exec(&v, 'c', 0), Some(5));
    assert_eq!(find_char_exec(&v, 'z', 0), None);
    assert!(contains_exec(&v, &chars_of("cd")));
    assert!(!contains_exec(&v, &chars_of("dc")));
}

#[test]
fn pieces_of_strings() {
    let v = chars_of("a/b//c");
    let parts: Vec<String> = split_on(&v, '/').iter().map(|p| string_of(p)).collect();
    assert_eq!(parts, vec!["a", "b", "", "c"]);
    assert_eq!(string_of_range(&v, 2, 3), "b");
    assert_eq!(string_of(&sub_vec(&v, 4, 6)), "/c");
    assert_eq!(concat2("ab", "cd"), "abcd");
    assert_eq!(concat3("a", "-", "b"), "a-b");
}

#[test]
fn utf8_widths() {
    for c in ['a', 'é', '€', '😀'] {
        assert_eq!(char_width_exec(c), c.len_utf8());
    }
}
