use librelaws::text::{
    chars_of, contains, decimal, digit, parse_i32, parse_u32, same_text, signed_decimal,
};

fn chars(text: &str) -> Vec<char> {
    text.chars().collect()
}

const NUMBERS: [&str; 40] = [
    "", "0", "7", "27", "007", "980", "4294967295", "4294967296", "42949672950", "2147483647",
    "2147483648", "-2147483648", "-2147483649", "99999999999999999999999", "+", "-", "+0", "-0",
    "+12", "-12", "++1", "--1", "+-1", "1+", "1-", " 1", "1 ", "1 2", "1.5", "1e3", "0x10", "１２",
    "٣", "a", "12a", "a12", "\u{0}", "00000000000000000000001", "-00000000000000000000001",
    "+4294967295",
];

#[test]
fn numbers_without_sign_are_read_as_the_standard_library_reads_them() {
    for text in NUMBERS {
        assert_eq!(parse_u32(&chars(text)), text.parse::<u32>().ok());
    }
}

#[test]
fn numbers_with_sign_are_read_as_the_standard_library_reads_them() {
    for text in NUMBERS {
        assert_eq!(parse_i32(&chars(text)), text.parse::<i32>().ok());
    }
}

#[test]
fn numbers_are_read_in_base_ten() {
    assert_eq!(parse_u32(&chars("980")), Some(980));
    assert_eq!(parse_u32(&chars("+980")), Some(980));
    assert_eq!(parse_u32(&chars("-980")), None);
    assert_eq!(parse_i32(&chars("-980")), Some(-980));
    assert_eq!(parse_i32(&chars("2017")), Some(2017));
    assert_eq!(parse_u32(&chars("")), None);
    assert_eq!(parse_i32(&chars("")), None);
}

#[test]
fn numbers_are_written_in_base_ten() {
    for n in [0u32, 1, 9, 10, 11, 54, 99, 100, 980, 1666, 2019, 4294967295] {
        assert_eq!(decimal(n), n.to_string());
    }
    for n in [0i32, 1, -1, 9, -9, 10, -10, 1998, -44, i32::MAX, i32::MIN] {
        assert_eq!(signed_decimal(n), n.to_string());
    }
    assert_eq!(decimal(2019), "2019");
    assert_eq!(signed_decimal(-44), "-44");
}

#[test]
fn what_is_written_is_read_again() {
    for n in [0u32, 5, 10, 980, 65536, u32::MAX] {
        assert_eq!(parse_u32(&chars(&decimal(n))), Some(n));
    }
    for n in [0i32, 5, -5, 10, -980, i32::MAX, i32::MIN] {
        assert_eq!(parse_i32(&chars(&signed_decimal(n))), Some(n));
    }
}

#[test]
fn digits_have_values() {
    assert_eq!(digit('0'), Some(0));
    assert_eq!(digit('7'), Some(7));
    assert_eq!(digit('9'), Some(9));
    assert_eq!(digit('/'), None);
    assert_eq!(digit(':'), None);
    assert_eq!(digit('a'), None);
    assert_eq!(digit('٣'), None);
}

#[test]
fn characters_come_in_order() {
    assert_eq!(chars_of(""), Vec::<char>::new());
    assert_eq!(chars_of("§ 8 geändert"), chars("§ 8 geändert"));
    assert_eq!(chars_of("a\u{10ffff}b").len(), 3);
}

#[test]
fn a_text_is_found_where_it_stands() {
    let cases = [
        ("law.xml", ".xml"),
        ("law.xml.bak", ".xml"),
        (".xml", ".xml"),
        ("xml", ".xml"),
        ("law.xm", ".xml"),
        ("law.XML", ".xml"),
        ("", ".xml"),
        ("", ""),
        ("abc", ""),
        ("aaab", "aab"),
        ("aaaa", "aab"),
        ("ab", "abc"),
        ("über.xmläx", "xmlä"),
    ];
    for (hay, needle) in cases {
        assert_eq!(contains(&chars(hay), &chars(needle)), hay.contains(needle));
    }
    assert!(contains(&chars("law.xml"), &chars(".xml")));
    assert!(!contains(&chars("law.txt"), &chars(".xml")));
}

#[test]
fn texts_are_the_same_if_every_character_is() {
    assert!(same_text(&chars(""), &chars("")));
    assert!(same_text(&chars("begdv_1"), &chars("begdv_1")));
    assert!(!same_text(&chars("begdv_1"), &chars("begdv_2")));
    assert!(!same_text(&chars("begdv_1"), &chars("begdv_")));
    assert!(!same_text(&chars(""), &chars("a")));
}
