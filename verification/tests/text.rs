use tweet_mirror::lines::{comes_before, lines_of, split_at};
use tweet_mirror::text::{
    chars_of, extension_of, find_first, find_last, find_last_from, parse_decimal, to_decimal,
};

#[test]
fn decimal_of_zero_and_of_the_greatest_number() {
    assert_eq!(to_decimal(0), "0");
    assert_eq!(to_decimal(9), "9");
    assert_eq!(to_decimal(10), "10");
    assert_eq!(to_decimal(1_234_567_890_123_456_789), "1234567890123456789");
    assert_eq!(to_decimal(u64::MAX), "18446744073709551615");
}

#[test]
fn decimal_agrees_with_the_standard_rendering() {
    for n in [0u64, 1, 7, 42, 99, 100, 101, 65_535, 4_294_967_296, u64::MAX - 1] {
        assert_eq!(to_decimal(n), n.to_string());
    }
}

#[test]
fn parse_decimal_reads_digits_with_an_optional_plus() {
    assert_eq!(parse_decimal("0"), Some(0));
    assert_eq!(parse_decimal("007"), Some(7));
    assert_eq!(parse_decimal("+15"), Some(15));
    assert_eq!(parse_decimal("18446744073709551615"), Some(u64::MAX));
}

#[test]
fn parse_decimal_refuses_what_is_no_number() {
    assert_eq!(parse_decimal(""), None);
    assert_eq!(parse_decimal("+"), None);
    assert_eq!(parse_decimal("-1"), None);
    assert_eq!(parse_decimal("12a"), None);
    assert_eq!(parse_decimal(" 12"), None);
    assert_eq!(parse_decimal("1_000"), None);
    assert_eq!(parse_decimal("++1"), None);
    assert_eq!(parse_decimal("18446744073709551616"), None);
    assert_eq!(parse_decimal("99999999999999999999999"), None);
}

#[test]
fn parse_decimal_agrees_with_the_standard_parser() {
    for text in ["", "+", "0", "+0", "-0", "42", "0042", "4 2", "٣", "18446744073709551615",
        "18446744073709551616", "184467440737095516150", "+18446744073709551615", "1e3"]
    {
        assert_eq!(parse_decimal(text), text.parse::<u64>().ok(), "{text:?}");
    }
}

#[test]
fn parse_decimal_gives_back_what_to_decimal_wrote() {
    for n in [0u64, 5, 10, 1_000_000, u64::MAX] {
        assert_eq!(parse_decimal(&to_decimal(n)), Some(n));
    }
}

#[test]
fn extension_is_what_follows_the_last_dot() {
    assert_eq!(extension_of("/media/abc.jpg"), "jpg");
    assert_eq!(extension_of("/a.b/c.tar.gz"), "gz");
    assert_eq!(extension_of("/media/abc."), "");
    assert_eq!(extension_of(".hidden"), "hidden");
}

#[test]
fn extension_is_empty_without_a_dot() {
    assert_eq!(extension_of("/media/abc"), "");
    assert_eq!(extension_of(""), "");
}

#[test]
fn extension_is_read_from_the_last_segment() {
    // A dot in a directory of the path gives no extension.
    assert_eq!(extension_of("/v1.1/video"), "");
    assert_eq!(extension_of("/a.b/c"), "");
    assert_eq!(extension_of("/a.b/c.d"), "d");
    assert_eq!(extension_of("/a.b/"), "");
    assert_eq!(extension_of("a.b"), "b");
    assert_eq!(extension_of("/media.d/../x.png"), "png");
}

#[test]
fn extension_holds_no_slash() {
    for path in ["/a.b/c", "/a/b.c/d.e/f", "/.../", "/x.y/", "//", "/a.b.c/d.e.f", "."] {
        assert!(!extension_of(path).contains('/'), "{path:?}");
    }
}

#[test]
fn extension_counts_characters_not_bytes() {
    assert_eq!(extension_of("/bild/größe.png"), "png");
    assert_eq!(extension_of("/x.übér"), "übér");
}

#[test]
fn find_first_and_last_place_of_a_character() {
    let chars = chars_of("a_b_c");
    assert_eq!(chars, vec!['a', '_', 'b', '_', 'c']);
    assert_eq!(find_first(&chars, '_'), Some(1));
    assert_eq!(find_last(&chars, '_'), Some(3));
    assert_eq!(find_first(&chars, 'x'), None);
    assert_eq!(find_last(&chars, 'x'), None);
    assert_eq!(find_first(&Vec::new(), 'x'), None);
    assert_eq!(find_last_from(&chars, 0, '_'), Some(3));
    assert_eq!(find_last_from(&chars, 3, '_'), Some(3));
    assert_eq!(find_last_from(&chars, 4, '_'), None);
    assert_eq!(find_last_from(&chars, 5, 'c'), None);
}

#[test]
fn split_gives_one_piece_more_than_there_are_separators() {
    assert_eq!(split_at("alice,bob", ','), vec!["alice", "bob"]);
    assert_eq!(split_at("alice", ','), vec!["alice"]);
    assert_eq!(split_at("", ','), vec![""]);
    assert_eq!(split_at(",", ','), vec!["", ""]);
    assert_eq!(split_at("a,,b,", ','), vec!["a", "", "b", ""]);
}

#[test]
fn split_agrees_with_the_standard_split() {
    for text in ["", ",", "a", "a,b", ",a", "a,", "a,,b", "é,ü,,", " a , b "] {
        let expected: Vec<String> = text.split(',').map(|piece| piece.to_string()).collect();
        assert_eq!(split_at(text, ','), expected, "{text:?}");
    }
}

#[test]
fn lines_end_with_a_line_feed_or_with_the_text() {
    assert_eq!(lines_of("alice\nbob\n"), vec!["alice", "bob"]);
    assert_eq!(lines_of("alice\nbob"), vec!["alice", "bob"]);
    assert_eq!(lines_of("alice\r\nbob\r\n"), vec!["alice", "bob"]);
    assert_eq!(lines_of("\n\n"), vec!["", ""]);
    assert_eq!(lines_of(""), Vec::<String>::new());
}

#[test]
fn lines_keep_a_carriage_return_that_no_line_feed_follows() {
    assert_eq!(lines_of("alice\rbob"), vec!["alice\rbob"]);
    assert_eq!(lines_of("alice\r"), vec!["alice\r"]);
    assert_eq!(lines_of("alice\r\r\n"), vec!["alice\r"]);
}

#[test]
fn lines_agree_with_the_standard_lines() {
    for text in ["", "\n", "\r\n", "a", "a\n", "a\nb", "a\r\nb\r\n", "a\n\nb", "\na", "a\r",
        "a\r\r\n", "\r", "ä\nö\r\nü", "a\n\r\nb", "a\r\n\rb"]
    {
        let expected: Vec<String> = text.lines().map(|line| line.to_string()).collect();
        assert_eq!(lines_of(text), expected, "{text:?}");
    }
}

#[test]
fn strings_are_ordered_by_their_first_difference() {
    assert!(comes_before("alice", "bob"));
    assert!(!comes_before("bob", "alice"));
    assert!(comes_before("al", "alice"));
    assert!(!comes_before("alice", "al"));
    assert!(!comes_before("alice", "alice"));
    assert!(comes_before("", "a"));
    assert!(!comes_before("", ""));
    assert!(comes_before("Zed", "alice"));
}

#[test]
fn the_order_of_strings_agrees_with_the_standard_order() {
    let texts = ["", "a", "A", "ab", "abc", "abd", "b", "é", "z", "zz", "ü", "日本", "😀", "~"];
    for a in texts {
        for b in texts {
            assert_eq!(comes_before(a, b), a < b, "{a:?} {b:?}");
        }
    }
}
