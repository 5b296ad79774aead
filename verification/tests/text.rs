use minect::text::{
    chars_of, find_from, find_last, format_u64, parse_i32, parse_u64, replace, string_of,
    trim_end,
};

#[test]
fn characters_and_strings_convert_both_ways() {
    let chars = chars_of("héllo");
    assert_eq!(chars, vec!['h', 'é', 'l', 'l', 'o']);
    assert_eq!(string_of(&chars, 1, 4), "éll");
    assert_eq!(string_of(&chars, 2, 2), "");
}

#[test]
fn find_gives_first_and_last_occurrence() {
    let text = chars_of("abcabcabc");
    let pattern = chars_of("bc");
    assert_eq!(find_from(&text, 0, &pattern), Some(1));
    assert_eq!(find_from(&text, 2, &pattern), Some(4));
    assert_eq!(find_from(&text, 8, &pattern), None);
    assert_eq!(find_from(&text, 20, &pattern), None);
    assert_eq!(find_last(&text, &pattern), Some(7));
    assert_eq!(find_last(&text, &chars_of("x")), None);
    assert_eq!(find_last(&text, &chars_of("")), Some(9));
    assert_eq!(find_from(&text, 3, &chars_of("")), Some(3));
}

#[test]
fn numbers_are_formatted_and_parsed() {
    assert_eq!(format_u64(0), "0");
    assert_eq!(format_u64(7), "7");
    assert_eq!(format_u64(1234567890), "1234567890");
    assert_eq!(format_u64(u64::MAX), "18446744073709551615");
    assert_eq!(parse_u64(&chars_of("0")), Some(0));
    assert_eq!(parse_u64(&chars_of("007")), Some(7));
    assert_eq!(parse_u64(&chars_of("+12")), Some(12));
    assert_eq!(parse_u64(&chars_of("18446744073709551615")), Some(u64::MAX));
    assert_eq!(parse_u64(&chars_of("18446744073709551616")), None);
    assert_eq!(parse_u64(&chars_of("99999999999999999999999")), None);
    assert_eq!(parse_u64(&chars_of("")), None);
    assert_eq!(parse_u64(&chars_of("+")), None);
    assert_eq!(parse_u64(&chars_of("-1")), None);
    assert_eq!(parse_u64(&chars_of("1 ")), None);
    assert_eq!(parse_u64(&chars_of("١")), None);
    let text = chars_of("x-12y");
    assert_eq!(parse_i32(&text, 1, 4), Some(-12));
    assert_eq!(parse_i32(&text, 2, 4), Some(12));
    assert_eq!(parse_i32(&text, 1, 2), None);
    assert_eq!(parse_i32(&text, 1, 5), None);
    assert_eq!(parse_i32(&text, 3, 3), None);
}

#[test]
fn trim_end_skips_white_space() {
    let text = chars_of("ab \t\n");
    assert_eq!(trim_end(&text, 0, text.len()), 2);
    assert_eq!(trim_end(&text, 0, 1), 1);
    assert_eq!(trim_end(&text, 2, text.len()), 2);
    assert_eq!(trim_end(&text, 3, 3), 3);
}

#[test]
fn replace_replaces_every_occurrence() {
    assert_eq!(replace("aXXbXXc", "XX", "-"), "a-b-c");
    assert_eq!(replace("aaa", "aa", "b"), "ba");
    assert_eq!(replace("abc", "x", "y"), "abc");
    assert_eq!(replace("", "x", "y"), "");
    assert_eq!(replace("xx", "x", ""), "");
}

#[test]
fn replace_does_what_the_standard_library_does() {
    let texts = ["", "a", "abc", "aaaa", "abab", "-connection_id-/-connection_id-", "äöü"];
    let patterns = ["", "a", "aa", "ab", "b", "-connection_id-", "ö", "abc", "abcd"];
    let replacements = ["", "-", "ab", "a"];
    for text in texts {
        for pattern in patterns {
            for with in replacements {
                assert_eq!(
                    replace(text, pattern, with),
                    text.replace(pattern, with),
                    "text={:?} pattern={:?} with={:?}",
                    text,
                    pattern,
                    with
                );
            }
        }
    }
    assert_eq!(replace("abc", "", "-"), "-a-b-c-");
    assert_eq!(replace("", "", "-"), "-");
}
