use command_core::{ArgType, CommandError, ParseArgument, ParsedValue};
use command_core::parse_argument::parse_token;

fn conv_err(r: Result<ParsedValue, CommandError>) -> (String, String) {
    match r {
        Err(CommandError::ArgumentConversionError(ty, raw)) => (ty, raw),
        other => panic!("expected a conversion error, got {:?}", other),
    }
}

#[test]
fn bool_accepts_true_forms() {
    assert_eq!(<bool as ParseArgument>::parse("true").unwrap(), true);
    assert_eq!(<bool as ParseArgument>::parse("TRUE").unwrap(), true);
    assert_eq!(<bool as ParseArgument>::parse("True").unwrap(), true);
    assert_eq!(<bool as ParseArgument>::parse("1").unwrap(), true);
}

#[test]
fn bool_accepts_false_forms() {
    assert_eq!(<bool as ParseArgument>::parse("false").unwrap(), false);
    assert_eq!(<bool as ParseArgument>::parse("FALSE").unwrap(), false);
    assert_eq!(<bool as ParseArgument>::parse("0").unwrap(), false);
}

#[test]
fn bool_rejects_yes_naming_it() {
    let (ty, raw) = conv_err(parse_token(ArgType::Boolean, "yes"));
    assert_eq!(ty, "bool");
    assert_eq!(raw, "yes");
    let e = <bool as ParseArgument>::parse("yes").unwrap_err();
    assert_eq!(e.message(), "Invalid bool: 'yes'");
}

#[test]
fn char_accepts_exactly_one_character() {
    assert_eq!(<char as ParseArgument>::parse("x").unwrap(), 'x');
    assert_eq!(<char as ParseArgument>::parse("\u{00e9}").unwrap(), '\u{00e9}');
    assert!(<char as ParseArgument>::parse("").is_err());
    assert!(<char as ParseArgument>::parse("xy").is_err());
    let e = <char as ParseArgument>::parse("xy").unwrap_err();
    assert_eq!(e.message(), "Invalid char: 'xy'");
}

#[test]
fn string_converter_is_identity() {
    assert_eq!(<String as ParseArgument>::parse("anything at all").unwrap(), "anything at all");
    assert_eq!(<String as ParseArgument>::parse("").unwrap(), "");
}

#[test]
fn integer_accepts_forty_two() {
    assert_eq!(<i32 as ParseArgument>::parse("42").unwrap(), 42);
    assert_eq!(<u8 as ParseArgument>::parse("42").unwrap(), 42u8);
    assert_eq!(<i64 as ParseArgument>::parse("+42").unwrap(), 42);
    assert_eq!(<i64 as ParseArgument>::parse("-42").unwrap(), -42);
}

#[test]
fn integer_rejects_malformed_naming_type_and_token() {
    let e = <i32 as ParseArgument>::parse("4x").unwrap_err();
    match &e {
        CommandError::ArgumentConversionError(ty, raw) => {
            assert_eq!(ty, "i32");
            assert_eq!(raw, "4x");
        }
        other => panic!("expected a conversion error, got {:?}", other),
    }
    assert_eq!(e.message(), "Invalid i32: '4x'");
    assert!(<u16 as ParseArgument>::parse("").is_err());
    assert!(<u16 as ParseArgument>::parse("+").is_err());
    assert!(<u16 as ParseArgument>::parse("-").is_err());
    assert!(<u16 as ParseArgument>::parse(" 7").is_err());
    assert!(<u16 as ParseArgument>::parse("7 ").is_err());
    assert!(<u64 as ParseArgument>::parse("0x10").is_err());
}

#[test]
fn integer_bounds_are_exact() {
    assert_eq!(<u8 as ParseArgument>::parse("255").unwrap(), 255u8);
    assert!(<u8 as ParseArgument>::parse("256").is_err());
    assert_eq!(<i8 as ParseArgument>::parse("127").unwrap(), 127i8);
    assert!(<i8 as ParseArgument>::parse("128").is_err());
    assert_eq!(<i8 as ParseArgument>::parse("-128").unwrap(), -128i8);
    assert!(<i8 as ParseArgument>::parse("-129").is_err());
    assert_eq!(
        <i64 as ParseArgument>::parse("-9223372036854775808").unwrap(),
        i64::MIN
    );
    assert_eq!(
        <i64 as ParseArgument>::parse("9223372036854775807").unwrap(),
        i64::MAX
    );
    assert!(<i64 as ParseArgument>::parse("9223372036854775808").is_err());
    assert_eq!(
        <u128 as ParseArgument>::parse("340282366920938463463374607431768211455").unwrap(),
        u128::MAX
    );
    assert!(<u128 as ParseArgument>::parse("340282366920938463463374607431768211456").is_err());
    assert_eq!(
        <i128 as ParseArgument>::parse("-170141183460469231731687303715884105728").unwrap(),
        i128::MIN
    );
}

#[test]
fn unsigned_rejects_minus() {
    assert!(<u32 as ParseArgument>::parse("-1").is_err());
    assert!(<u32 as ParseArgument>::parse("-0").is_err());
    assert_eq!(<i32 as ParseArgument>::parse("-0").unwrap(), 0);
}

#[test]
fn size_types_parse() {
    assert_eq!(<usize as ParseArgument>::parse("7").unwrap(), 7usize);
    assert_eq!(<isize as ParseArgument>::parse("-7").unwrap(), -7isize);
}

#[test]
fn parse_token_tags_values() {
    assert!(matches!(parse_token(ArgType::Text, "hello"), Ok(ParsedValue::Str(s)) if s == "hello"));
    assert!(matches!(parse_token(ArgType::Path, "/tmp/x"), Ok(ParsedValue::Path(p)) if p == "/tmp/x"));
    assert!(matches!(parse_token(ArgType::Boolean, "True"), Ok(ParsedValue::Bool(true))));
    assert!(matches!(parse_token(ArgType::Character, "k"), Ok(ParsedValue::Char('k'))));
    assert!(matches!(parse_token(ArgType::Int8, "-5"), Ok(ParsedValue::I8(-5))));
    assert!(matches!(parse_token(ArgType::Int16, "-5"), Ok(ParsedValue::I16(-5))));
    assert!(matches!(parse_token(ArgType::Int32, "-5"), Ok(ParsedValue::I32(-5))));
    assert!(matches!(parse_token(ArgType::Int64, "-5"), Ok(ParsedValue::I64(-5))));
    assert!(matches!(parse_token(ArgType::Int128, "-5"), Ok(ParsedValue::I128(-5))));
    assert!(matches!(parse_token(ArgType::IntSize, "-5"), Ok(ParsedValue::ISize(-5))));
    assert!(matches!(parse_token(ArgType::UInt8, "5"), Ok(ParsedValue::U8(5))));
    assert!(matches!(parse_token(ArgType::UInt16, "5"), Ok(ParsedValue::U16(5))));
    assert!(matches!(parse_token(ArgType::UInt32, "5"), Ok(ParsedValue::U32(5))));
    assert!(matches!(parse_token(ArgType::UInt64, "5"), Ok(ParsedValue::U64(5))));
    assert!(matches!(parse_token(ArgType::UInt128, "5"), Ok(ParsedValue::U128(5))));
    assert!(matches!(parse_token(ArgType::UIntSize, "5"), Ok(ParsedValue::USize(5))));
}

#[test]
fn parse_token_reports_the_tag_name() {
    let (ty, raw) = conv_err(parse_token(ArgType::UInt64, "many"));
    assert_eq!(ty, "u64");
    assert_eq!(raw, "many");
    let (ty, raw) = conv_err(parse_token(ArgType::Character, ""));
    assert_eq!(ty, "char");
    assert_eq!(raw, "");
}
