use msvc2008_parser::text::{
    bool_value, chars_of, parse_i8, parse_int, parse_u16, parse_u8, split_nonempty, str_contains,
    str_eq, substring, IntErrorKind,
};

fn kind_of(e: &std::num::ParseIntError) -> IntErrorKind {
    match e.kind() {
        std::num::IntErrorKind::Empty => IntErrorKind::Empty,
        std::num::IntErrorKind::InvalidDigit => IntErrorKind::InvalidDigit,
        std::num::IntErrorKind::PosOverflow => IntErrorKind::PosOverflow,
        std::num::IntErrorKind::NegOverflow => IntErrorKind::NegOverflow,
        _ => panic!("unexpected kind"),
    }
}

const NUMBERS: [&str; 30] = [
    "", "0", "1", "9", "10", "+7", "-7", "+", "-", "007", "127", "128", "-128", "-129", "255",
    "256", "-0", "65535", "65536", "99999999999999999999", "-99999999999999999999", "1a", "a1",
    " 1", "1 ", "++1", "+-1", "--1", "٣", "12e2",
];

#[test]
fn u8_reading_agrees_with_std() {
    for s in NUMBERS {
        let expected = s.parse::<u8>().map_err(|e| kind_of(&e));
        assert_eq!(parse_u8(s), expected, "input {s:?}");
    }
}

#[test]
fn i8_reading_agrees_with_std() {
    for s in NUMBERS {
        let expected = s.parse::<i8>().map_err(|e| kind_of(&e));
        assert_eq!(parse_i8(s), expected, "input {s:?}");
    }
}

#[test]
fn u16_reading_agrees_with_std() {
    for s in NUMBERS {
        let expected = s.parse::<u16>().map_err(|e| kind_of(&e));
        assert_eq!(parse_u16(s), expected, "input {s:?}");
    }
}

#[test]
fn integer_reading_exact_values() {
    assert_eq!(parse_u8("255"), Ok(255));
    assert_eq!(parse_u8("256"), Err(IntErrorKind::PosOverflow));
    assert_eq!(parse_i8("-128"), Ok(-128));
    assert_eq!(parse_i8("-129"), Err(IntErrorKind::NegOverflow));
    assert_eq!(parse_u16("2008"), Ok(2008));
    assert_eq!(parse_u8(""), Err(IntErrorKind::Empty));
    assert_eq!(parse_u8("-1"), Err(IntErrorKind::InvalidDigit));
    assert_eq!(parse_int("-1000", true, -5000, 5000), Ok(-1000));
    assert_eq!(parse_int("5001", true, -5000, 5000), Err(IntErrorKind::PosOverflow));
}

#[test]
fn boolean_spellings() {
    for s in ["1", "TRUE", "true"] {
        assert_eq!(bool_value(s), Some(true));
    }
    for s in ["0", "FALSE", "false"] {
        assert_eq!(bool_value(s), Some(false));
    }
    for s in ["", "True", "yes", "2", " true"] {
        assert_eq!(bool_value(s), None);
    }
}

#[test]
fn splitting_agrees_with_std() {
    let inputs = ["", ";", ";;", "a", "a;b", ";a;;b;", "WIN32;NDEBUG;MASTER_GOLD;", "x;;y", "é;ü"];
    for s in inputs {
        let expected: Vec<String> = s.split(';').filter(|p| !p.is_empty()).map(str::to_string).collect();
        assert_eq!(split_nonempty(s, ';'), expected, "input {s:?}");
    }
    assert_eq!(split_nonempty("a,b,,c", ','), vec!["a", "b", "c"]);
}

#[test]
fn splitting_joined_items_gives_them_back() {
    let items = vec!["WIN32".to_string(), "NDEBUG".to_string(), "_LIB".to_string()];
    assert_eq!(split_nonempty(&items.join(";"), ';'), items);
    let pieces = split_nonempty(";;a;b;;c;", ';');
    assert!(pieces.iter().all(|p| !p.is_empty() && !p.contains(';')));
}

#[test]
fn containment_agrees_with_std() {
    let hays = ["", "None", "Some(None)", "Non", "xNonex", "Release|x64", "Xbox 360"];
    let needles = ["", "None", "x64", "Xbox", "PS3"];
    for h in hays {
        for n in needles {
            assert_eq!(str_contains(h, n), h.contains(n), "{h:?} {n:?}");
        }
    }
}

#[test]
fn characters_and_substrings() {
    assert_eq!(chars_of("aé€"), vec!['a', 'é', '€']);
    assert_eq!(substring("aé€b", 1, 3), "é€");
    assert!(str_eq("abc", "abc"));
    assert!(!str_eq("abc", "abd"));
    assert!(!str_eq("abc", "ab"));
}

#[test]
fn integer_reading_over_the_whole_i64_range() {
    for s in ["9223372036854775807", "9223372036854775808", "-9223372036854775808", "-9223372036854775809", "0", "-1"] {
        let expected = s.parse::<i64>().map_err(|e| kind_of(&e));
        assert_eq!(parse_int(s, true, i64::MIN, i64::MAX), expected, "input {s:?}");
    }
}
