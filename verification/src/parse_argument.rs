//! The type conversion protocol: converters from one raw string token to a
//! typed value or a typed parse error.
//!
//! Every converter is a pure function of the token. The numeric converters
//! accept an optional leading sign followed by decimal digits, and reject
//! anything else, overflow included; the boolean converter is ASCII
//! case-insensitive; the text and path converters take the token as it stands.

use vstd::prelude::*;

use crate::command_error::{CommandError, CommandErrorView};

verus! {

/// The type tag of one parameter: which converter binds its token.
#[derive(Clone, Copy, Debug, PartialEq, Eq, Structural)]
pub enum ArgType {
    /// Text, taken as it stands; always converts.
    Text,
    /// `true`/`1` or `false`/`0`, without regard to ASCII case.
    Boolean,
    /// Exactly one character.
    Character,
    /// A filesystem path, taken as it stands without an existence check.
    Path,
    Int8,
    Int16,
    Int32,
    Int64,
    Int128,
    IntSize,
    UInt8,
    UInt16,
    UInt32,
    UInt64,
    UInt128,
    UIntSize,
}

/// ASCII lower-casing of a single character; the token comparisons of the
/// boolean converter are case-insensitive under this folding.
pub open spec fn spec_ascii_lower(c: char) -> char {
    if 'A' <= c && c <= 'Z' {
        ((c as u32) + 32) as char
    } else {
        c
    }
}

/// A whole token, ASCII lower-cased.
pub open spec fn spec_lower(s: Seq<char>) -> Seq<char> {
    s.map_values(|c: char| spec_ascii_lower(c))
}

/// What the boolean converter accepts: `"true"` and `"1"` (affirmative),
/// `"false"` and `"0"` (negative), compared without regard to ASCII case.
pub open spec fn spec_parse_bool(s: Seq<char>) -> Option<bool> {
    if spec_lower(s) == "true"@ || spec_lower(s) == "1"@ {
        Some(true)
    } else if spec_lower(s) == "false"@ || spec_lower(s) == "0"@ {
        Some(false)
    } else {
        None
    }
}

/// What the character converter accepts: exactly one character.
pub open spec fn spec_parse_char(s: Seq<char>) -> Option<char> {
    if s.len() == 1 {
        Some(s[0])
    } else {
        None
    }
}

/// A decimal digit.
pub open spec fn spec_is_digit(c: char) -> bool {
    '0' <= c && c <= '9'
}

/// The numeric value of a digit character.
pub open spec fn spec_digit_val(c: char) -> nat {
    (c as int - '0' as int) as nat
}

/// Every character of the sequence is a decimal digit.
pub open spec fn spec_all_digits(s: Seq<char>) -> bool {
    forall|i: int| 0 <= i < s.len() ==> spec_is_digit(s[i])
}

/// The base-10 value of a digit sequence, most significant digit first.
pub open spec fn spec_dec_value(s: Seq<char>) -> nat
    decreases s.len(),
{
    if s.len() == 0 {
        0
    } else {
        spec_dec_value(s.drop_last()) * 10 + spec_digit_val(s.last())
    }
}

/// A prefix of a digit sequence never has a larger value than the whole.
proof fn lemma_dec_value_prefix_le(s: Seq<char>, m: int)
    requires
        0 <= m <= s.len(),
    ensures
        spec_dec_value(s.take(m)) <= spec_dec_value(s),
    decreases s.len() - m,
{
    if m == s.len() {
        assert(s.take(m) =~= s);
    } else {
        assert(s.take(m + 1).drop_last() =~= s.take(m));
        assert(s.take(m + 1).last() == s[m]);
        lemma_dec_value_prefix_le(s, m + 1);
    }
}

/// What the unsigned numeric converters accept: an optional leading `+`, then
/// one or more decimal digits whose value does not exceed `bound`.
pub open spec fn spec_parse_uint(s: Seq<char>, bound: nat) -> Option<nat> {
    let t = if s.len() > 0 && s[0] == '+' {
        s.skip(1)
    } else {
        s
    };
    if t.len() > 0 && spec_all_digits(t) && spec_dec_value(t) <= bound {
        Some(spec_dec_value(t))
    } else {
        None
    }
}

/// What the signed numeric converters accept: an optional leading `+` or `-`,
/// then one or more decimal digits; the signed value must lie in `[lo, hi]`.
pub open spec fn spec_parse_sint(s: Seq<char>, lo: int, hi: int) -> Option<int> {
    if s.len() > 0 && s[0] == '-' {
        let t = s.skip(1);
        if t.len() > 0 && spec_all_digits(t) && -(spec_dec_value(t) as int) >= lo {
            Some(-(spec_dec_value(t) as int))
        } else {
            None
        }
    } else {
        let t = if s.len() > 0 && s[0] == '+' {
            s.skip(1)
        } else {
            s
        };
        if t.len() > 0 && spec_all_digits(t) && spec_dec_value(t) <= hi {
            Some(spec_dec_value(t) as int)
        } else {
            None
        }
    }
}

/// Lower-cases one character, exactly as `spec_ascii_lower` describes.
fn ascii_lower(c: char) -> (r: char)
    ensures
        r == spec_ascii_lower(c),
{
    let u = c as u32;
    if 65 <= u && u <= 90 {
        assert('A' <= c && c <= 'Z');
        ((u + 32) as u8) as char
    } else {
        assert(!('A' <= c && c <= 'Z'));
        c
    }
}

/// Whether the token, ASCII lower-cased, equals the given literal.
fn lower_eq(s: &str, lit: &str) -> (r: bool)
    ensures
        r == (spec_lower(s@) == lit@),
{
    let n = s.unicode_len();
    if n != lit.unicode_len() {
        assert(spec_lower(s@).len() == s@.len());
        return false;
    }
    let mut i: usize = 0;
    while i < n
        invariant
            n == s@.len(),
            n == lit@.len(),
            0 <= i <= n,
            forall|j: int| 0 <= j < i ==> spec_ascii_lower(s@[j]) == lit@[j],
        decreases n - i,
    {
        if ascii_lower(s.get_char(i)) != lit.get_char(i) {
            assert(spec_lower(s@)[i as int] != lit@[i as int]);
            return false;
        }
        i += 1;
    }
    proof {
        assert(spec_lower(s@) =~= lit@);
    }
    true
}

/// The error a converter reports: the target type's name and the raw token.
fn conversion_error(ty_name: &str, raw: &str) -> (r: CommandError)
    ensures
        r@ == CommandErrorView::ArgumentConversionError(ty_name@, raw@),
{
    CommandError::ArgumentConversionError(String::from_str(ty_name), String::from_str(raw))
}

/// Parses `s` from position `from` to the end as decimal digits, failing on a
/// non-digit, on no digits at all, and on a value above `bound`.
fn parse_digits(s: &str, from: usize, bound: u128) -> (r: Option<u128>)
    requires
        from <= s@.len(),
    ensures
        ({
            let t = s@.skip(from as int);
            match r {
                Some(v) => t.len() > 0 && spec_all_digits(t) && spec_dec_value(t) == v && v
                    <= bound,
                None => !(t.len() > 0 && spec_all_digits(t) && spec_dec_value(t) <= bound),
            }
        }),
{
    let len = s.unicode_len();
    let ghost t = s@.skip(from as int);
    let mut i: usize = from;
    let mut acc: u128 = 0;
    while i < len
        invariant
            from <= i <= len,
            len == s@.len(),
            t == s@.skip(from as int),
            spec_all_digits(s@.subrange(from as int, i as int)),
            acc == spec_dec_value(s@.subrange(from as int, i as int)),
            acc <= bound,
        decreases len - i,
    {
        let c = s.get_char(i);
        let u = c as u32;
        if u < 48 || u > 57 {
            proof {
                assert(t[i - from] == s@[i as int]);
                assert(!spec_is_digit(t[i - from]));
            }
            return None;
        }
        let d = (u - 48) as u128;
        proof {
            assert(spec_is_digit(c));
            assert(d == spec_digit_val(c));
            assert(s@.subrange(from as int, i as int + 1).drop_last() =~= s@.subrange(
                from as int,
                i as int,
            ));
            assert(s@.subrange(from as int, i as int + 1).last() == s@[i as int]);
        }
        let step = match acc.checked_mul(10) {
            Some(x) => x.checked_add(d),
            None => None,
        };
        let next = match step {
            Some(y) => if y <= bound {
                Some(y)
            } else {
                None
            },
            None => None,
        };
        match next {
            Some(y) => {
                acc = y;
            },
            None => {
                proof {
                    assert(acc * 10 + d > bound);
                    assert(s@.subrange(from as int, i as int + 1) =~= t.take(i - from + 1));
                    assert(spec_dec_value(t.take(i - from + 1)) == acc * 10 + d);
                    lemma_dec_value_prefix_le(t, i - from + 1);
                }
                return None;
            },
        }
        i += 1;
    }
    if i == from {
        proof {
            assert(t.len() == 0);
        }
        return None;
    }
    proof {
        assert(s@.subrange(from as int, len as int) =~= t);
    }
    Some(acc)
}

/// Parses a whole unsigned numeric token: an optional `+`, then digits, with
/// the value capped by `bound`.
fn parse_unsigned_token(s: &str, bound: u128) -> (r: Option<u128>)
    ensures
        match r {
            Some(v) => spec_parse_uint(s@, bound as nat) == Some(v as nat),
            None => spec_parse_uint(s@, bound as nat) is None,
        },
{
    let len = s.unicode_len();
    let from: usize = if len > 0 && s.get_char(0) == '+' {
        1
    } else {
        0
    };
    proof {
        assert(s@.skip(0) =~= s@);
    }
    parse_digits(s, from, bound)
}

/// Parses a whole signed numeric token as a sign and a magnitude: an optional
/// `+` or `-`, then digits. A negative magnitude is capped by `neg_bound`, a
/// positive one by `pos_bound`.
fn parse_signed_token(s: &str, neg_bound: u128, pos_bound: u128) -> (r: Option<(bool, u128)>)
    requires
        neg_bound >= 1,
    ensures
        ({
            let spec_r = spec_parse_sint(s@, -(neg_bound as int), pos_bound as int);
            match r {
                Some((neg, v)) => if neg {
                    v <= neg_bound && spec_r == Some(-(v as int))
                } else {
                    v <= pos_bound && spec_r == Some(v as int)
                },
                None => spec_r is None,
            }
        }),
{
    let len = s.unicode_len();
    proof {
        assert(s@.skip(0) =~= s@);
    }
    if len > 0 && s.get_char(0) == '-' {
        match parse_digits(s, 1, neg_bound) {
            Some(v) => Some((true, v)),
            None => None,
        }
    } else {
        let from: usize = if len > 0 && s.get_char(0) == '+' {
            1
        } else {
            0
        };
        match parse_digits(s, from, pos_bound) {
            Some(v) => Some((false, v)),
            None => None,
        }
    }
}

/// The uniform conversion protocol: each typed converter is a pure function
/// of the token, stated by `parse_spec`, and reports failure with its type's
/// name and the offending token.
pub trait ParseArgument: View + Sized {
    /// What the converter accepts, and the value it yields.
    spec fn parse_spec(s: Seq<char>) -> Option<<Self as View>::V>;

    /// The type's name, as conversion errors report it.
    spec fn type_name_spec() -> Seq<char>;

    /// Converts one raw token, exactly as `parse_spec` says: a typed value on
    /// the tokens the converter accepts, and on every other token an error
    /// naming the type and the token.
    fn parse(s: &str) -> (r: Result<Self, CommandError>)
        ensures
            r is Ok <==> Self::parse_spec(s@) is Some,
            match r {
                Ok(v) => Self::parse_spec(s@) == Some(v@),
                Err(e) => e@ == CommandErrorView::ArgumentConversionError(
                    Self::type_name_spec(),
                    s@,
                ),
            },
    ;
}

impl ParseArgument for String {
    open spec fn parse_spec(s: Seq<char>) -> Option<Seq<char>> {
        Some(s)
    }

    open spec fn type_name_spec() -> Seq<char> {
        "string"@
    }

    fn parse(s: &str) -> (r: Result<String, CommandError>) {
        Ok(String::from_str(s))
    }
}

impl ParseArgument for bool {
    open spec fn parse_spec(s: Seq<char>) -> Option<bool> {
        spec_parse_bool(s)
    }

    open spec fn type_name_spec() -> Seq<char> {
        "bool"@
    }

    fn parse(s: &str) -> (r: Result<bool, CommandError>) {
        if lower_eq(s, "true") || lower_eq(s, "1") {
            Ok(true)
        } else if lower_eq(s, "false") || lower_eq(s, "0") {
            Ok(false)
        } else {
            Err(conversion_error("bool", s))
        }
    }
}

impl ParseArgument for char {
    open spec fn parse_spec(s: Seq<char>) -> Option<char> {
        spec_parse_char(s)
    }

    open spec fn type_name_spec() -> Seq<char> {
        "char"@
    }

    fn parse(s: &str) -> (r: Result<char, CommandError>) {
        if s.unicode_len() == 1 {
            Ok(s.get_char(0))
        } else {
            Err(conversion_error("char", s))
        }
    }
}

impl ParseArgument for u8 {
    open spec fn parse_spec(s: Seq<char>) -> Option<u8> {
        match spec_parse_uint(s, u8::MAX as nat) {
            Some(v) => Some(v as u8),
            None => None,
        }
    }

    open spec fn type_name_spec() -> Seq<char> {
        "u8"@
    }

    fn parse(s: &str) -> (r: Result<u8, CommandError>) {
        match parse_unsigned_token(s, u8::MAX as u128) {
            Some(v) => Ok(v as u8),
            None => Err(conversion_error("u8", s)),
        }
    }
}

impl ParseArgument for u16 {
    open spec fn parse_spec(s: Seq<char>) -> Option<u16> {
        match spec_parse_uint(s, u16::MAX as nat) {
            Some(v) => Some(v as u16),
            None => None,
        }
    }

    open spec fn type_name_spec() -> Seq<char> {
        "u16"@
    }

    fn parse(s: &str) -> (r: Result<u16, CommandError>) {
        match parse_unsigned_token(s, u16::MAX as u128) {
            Some(v) => Ok(v as u16),
            None => Err(conversion_error("u16", s)),
        }
    }
}

impl ParseArgument for u32 {
    open spec fn parse_spec(s: Seq<char>) -> Option<u32> {
        match spec_parse_uint(s, u32::MAX as nat) {
            Some(v) => Some(v as u32),
            None => None,
        }
    }

    open spec fn type_name_spec() -> Seq<char> {
        "u32"@
    }

    fn parse(s: &str) -> (r: Result<u32, CommandError>) {
        match parse_unsigned_token(s, u32::MAX as u128) {
            Some(v) => Ok(v as u32),
            None => Err(conversion_error("u32", s)),
        }
    }
}

impl ParseArgument for u64 {
    open spec fn parse_spec(s: Seq<char>) -> Option<u64> {
        match spec_parse_uint(s, u64::MAX as nat) {
            Some(v) => Some(v as u64),
            None => None,
        }
    }

    open spec fn type_name_spec() -> Seq<char> {
        "u64"@
    }

    fn parse(s: &str) -> (r: Result<u64, CommandError>) {
        match parse_unsigned_token(s, u64::MAX as u128) {
            Some(v) => Ok(v as u64),
            None => Err(conversion_error("u64", s)),
        }
    }
}

impl ParseArgument for u128 {
    open spec fn parse_spec(s: Seq<char>) -> Option<u128> {
        match spec_parse_uint(s, u128::MAX as nat) {
            Some(v) => Some(v as u128),
            None => None,
        }
    }

    open spec fn type_name_spec() -> Seq<char> {
        "u128"@
    }

    fn parse(s: &str) -> (r: Result<u128, CommandError>) {
        match parse_unsigned_token(s, u128::MAX) {
            Some(v) => Ok(v),
            None => Err(conversion_error("u128", s)),
        }
    }
}

impl ParseArgument for usize {
    open spec fn parse_spec(s: Seq<char>) -> Option<usize> {
        match spec_parse_uint(s, usize::MAX as nat) {
            Some(v) => Some(v as usize),
            None => None,
        }
    }

    open spec fn type_name_spec() -> Seq<char> {
        "usize"@
    }

    fn parse(s: &str) -> (r: Result<usize, CommandError>) {
        match parse_unsigned_token(s, usize::MAX as u128) {
            Some(v) => Ok(v as usize),
            None => Err(conversion_error("usize", s)),
        }
    }
}

impl ParseArgument for i8 {
    open spec fn parse_spec(s: Seq<char>) -> Option<i8> {
        match spec_parse_sint(s, i8::MIN as int, i8::MAX as int) {
            Some(v) => Some(v as i8),
            None => None,
        }
    }

    open spec fn type_name_spec() -> Seq<char> {
        "i8"@
    }

    fn parse(s: &str) -> (r: Result<i8, CommandError>) {
        match parse_signed_token(s, 128u128, i8::MAX as u128) {
            Some((neg, v)) => if neg {
                if v == 0 {
                    Ok(0i8)
                } else {
                    Ok((-1i8) - ((v - 1) as i8))
                }
            } else {
                Ok(v as i8)
            },
            None => Err(conversion_error("i8", s)),
        }
    }
}

impl ParseArgument for i16 {
    open spec fn parse_spec(s: Seq<char>) -> Option<i16> {
        match spec_parse_sint(s, i16::MIN as int, i16::MAX as int) {
            Some(v) => Some(v as i16),
            None => None,
        }
    }

    open spec fn type_name_spec() -> Seq<char> {
        "i16"@
    }

    fn parse(s: &str) -> (r: Result<i16, CommandError>) {
        match parse_signed_token(s, 32768u128, i16::MAX as u128) {
            Some((neg, v)) => if neg {
                if v == 0 {
                    Ok(0i16)
                } else {
                    Ok((-1i16) - ((v - 1) as i16))
                }
            } else {
                Ok(v as i16)
            },
            None => Err(conversion_error("i16", s)),
        }
    }
}

impl ParseArgument for i32 {
    open spec fn parse_spec(s: Seq<char>) -> Option<i32> {
        match spec_parse_sint(s, i32::MIN as int, i32::MAX as int) {
            Some(v) => Some(v as i32),
            None => None,
        }
    }

    open spec fn type_name_spec() -> Seq<char> {
        "i32"@
    }

    fn parse(s: &str) -> (r: Result<i32, CommandError>) {
        match parse_signed_token(s, 2147483648u128, i32::MAX as u128) {
            Some((neg, v)) => if neg {
                if v == 0 {
                    Ok(0i32)
                } else {
                    Ok((-1i32) - ((v - 1) as i32))
                }
            } else {
                Ok(v as i32)
            },
            None => Err(conversion_error("i32", s)),
        }
    }
}

impl ParseArgument for i64 {
    open spec fn parse_spec(s: Seq<char>) -> Option<i64> {
        match spec_parse_sint(s, i64::MIN as int, i64::MAX as int) {
            Some(v) => Some(v as i64),
            None => None,
        }
    }

    open spec fn type_name_spec() -> Seq<char> {
        "i64"@
    }

    fn parse(s: &str) -> (r: Result<i64, CommandError>) {
        match parse_signed_token(s, 9223372036854775808u128, i64::MAX as u128) {
            Some((neg, v)) => if neg {
                if v == 0 {
                    Ok(0i64)
                } else {
                    Ok((-1i64) - ((v - 1) as i64))
                }
            } else {
                Ok(v as i64)
            },
            None => Err(conversion_error("i64", s)),
        }
    }
}

impl ParseArgument for i128 {
    open spec fn parse_spec(s: Seq<char>) -> Option<i128> {
        match spec_parse_sint(s, i128::MIN as int, i128::MAX as int) {
            Some(v) => Some(v as i128),
            None => None,
        }
    }

    open spec fn type_name_spec() -> Seq<char> {
        "i128"@
    }

    fn parse(s: &str) -> (r: Result<i128, CommandError>) {
        match parse_signed_token(s, 170141183460469231731687303715884105728u128, i128::MAX as u128) {
            Some((neg, v)) => if neg {
                if v == 0 {
                    Ok(0i128)
                } else {
                    Ok((-1i128) - ((v - 1) as i128))
                }
            } else {
                Ok(v as i128)
            },
            None => Err(conversion_error("i128", s)),
        }
    }
}

/// A typed value bound from one raw token, tagged by its converter.
#[derive(Debug)]
pub enum ParsedValue {
    Str(String),
    Bool(bool),
    Char(char),
    Path(String),
    I8(i8),
    I16(i16),
    I32(i32),
    I64(i64),
    I128(i128),
    ISize(isize),
    U8(u8),
    U16(u16),
    U32(u32),
    U64(u64),
    U128(u128),
    USize(usize),
}

/// The mathematical value of a `ParsedValue`.
pub enum ValueView {
    Str(Seq<char>),
    Bool(bool),
    Char(char),
    Path(Seq<char>),
    I8(i8),
    I16(i16),
    I32(i32),
    I64(i64),
    I128(i128),
    ISize(isize),
    U8(u8),
    U16(u16),
    U32(u32),
    U64(u64),
    U128(u128),
    USize(usize),
}

impl View for ParsedValue {
    type V = ValueView;

    open spec fn view(&self) -> ValueView {
        match self {
            ParsedValue::Str(v) => ValueView::Str(v@),
            ParsedValue::Bool(v) => ValueView::Bool(*v),
            ParsedValue::Char(v) => ValueView::Char(*v),
            ParsedValue::Path(v) => ValueView::Path(v@),
            ParsedValue::I8(v) => ValueView::I8(*v),
            ParsedValue::I16(v) => ValueView::I16(*v),
            ParsedValue::I32(v) => ValueView::I32(*v),
            ParsedValue::I64(v) => ValueView::I64(*v),
            ParsedValue::I128(v) => ValueView::I128(*v),
            ParsedValue::ISize(v) => ValueView::ISize(*v),
            ParsedValue::U8(v) => ValueView::U8(*v),
            ParsedValue::U16(v) => ValueView::U16(*v),
            ParsedValue::U32(v) => ValueView::U32(*v),
            ParsedValue::U64(v) => ValueView::U64(*v),
            ParsedValue::U128(v) => ValueView::U128(*v),
            ParsedValue::USize(v) => ValueView::USize(*v),
        }
    }
}

/// The name of a tag's target type, as conversion errors report it.
pub open spec fn spec_type_name(ty: ArgType) -> Seq<char> {
    match ty {
        ArgType::Text => "string"@,
        ArgType::Boolean => "bool"@,
        ArgType::Character => "char"@,
        ArgType::Path => "path"@,
        ArgType::Int8 => "i8"@,
        ArgType::Int16 => "i16"@,
        ArgType::Int32 => "i32"@,
        ArgType::Int64 => "i64"@,
        ArgType::Int128 => "i128"@,
        ArgType::IntSize => "isize"@,
        ArgType::UInt8 => "u8"@,
        ArgType::UInt16 => "u16"@,
        ArgType::UInt32 => "u32"@,
        ArgType::UInt64 => "u64"@,
        ArgType::UInt128 => "u128"@,
        ArgType::UIntSize => "usize"@,
    }
}

/// The one positional conversion relation the binding algorithm is generic
/// over: which tokens a tag's converter accepts and the value each yields.
pub open spec fn spec_convert(ty: ArgType, s: Seq<char>) -> Option<ValueView> {
    match ty {
        ArgType::Text => Some(ValueView::Str(s)),
        ArgType::Boolean => match spec_parse_bool(s) {
            Some(v) => Some(ValueView::Bool(v)),
            None => None,
        },
        ArgType::Character => match spec_parse_char(s) {
            Some(v) => Some(ValueView::Char(v)),
            None => None,
        },
        ArgType::Path => Some(ValueView::Path(s)),
        ArgType::Int8 => match <i8 as ParseArgument>::parse_spec(s) {
            Some(v) => Some(ValueView::I8(v)),
            None => None,
        },
        ArgType::Int16 => match <i16 as ParseArgument>::parse_spec(s) {
            Some(v) => Some(ValueView::I16(v)),
            None => None,
        },
        ArgType::Int32 => match <i32 as ParseArgument>::parse_spec(s) {
            Some(v) => Some(ValueView::I32(v)),
            None => None,
        },
        ArgType::Int64 => match <i64 as ParseArgument>::parse_spec(s) {
            Some(v) => Some(ValueView::I64(v)),
            None => None,
        },
        ArgType::Int128 => match <i128 as ParseArgument>::parse_spec(s) {
            Some(v) => Some(ValueView::I128(v)),
            None => None,
        },
        ArgType::IntSize => match <isize as ParseArgument>::parse_spec(s) {
            Some(v) => Some(ValueView::ISize(v)),
            None => None,
        },
        ArgType::UInt8 => match <u8 as ParseArgument>::parse_spec(s) {
            Some(v) => Some(ValueView::U8(v)),
            None => None,
        },
        ArgType::UInt16 => match <u16 as ParseArgument>::parse_spec(s) {
            Some(v) => Some(ValueView::U16(v)),
            None => None,
        },
        ArgType::UInt32 => match <u32 as ParseArgument>::parse_spec(s) {
            Some(v) => Some(ValueView::U32(v)),
            None => None,
        },
        ArgType::UInt64 => match <u64 as ParseArgument>::parse_spec(s) {
            Some(v) => Some(ValueView::U64(v)),
            None => None,
        },
        ArgType::UInt128 => match <u128 as ParseArgument>::parse_spec(s) {
            Some(v) => Some(ValueView::U128(v)),
            None => None,
        },
        ArgType::UIntSize => match <usize as ParseArgument>::parse_spec(s) {
            Some(v) => Some(ValueView::USize(v)),
            None => None,
        },
    }
}

/// Converts one raw token with the converter the tag names, exactly as
/// `spec_convert` says; a failure names the target type and the token.
pub fn parse_token(ty: ArgType, s: &str) -> (r: Result<ParsedValue, CommandError>)
    ensures
        r is Ok <==> spec_convert(ty, s@) is Some,
        match r {
            Ok(v) => spec_convert(ty, s@) == Some(v@),
            Err(e) => e@ == CommandErrorView::ArgumentConversionError(spec_type_name(ty), s@),
        },
{
    match ty {
        ArgType::Text => Ok(ParsedValue::Str(String::from_str(s))),
        ArgType::Boolean => match <bool as ParseArgument>::parse(s) {
            Ok(v) => Ok(ParsedValue::Bool(v)),
            Err(e) => Err(e),
        },
        ArgType::Character => match <char as ParseArgument>::parse(s) {
            Ok(v) => Ok(ParsedValue::Char(v)),
            Err(e) => Err(e),
        },
        ArgType::Path => Ok(ParsedValue::Path(String::from_str(s))),
        ArgType::Int8 => match <i8 as ParseArgument>::parse(s) {
            Ok(v) => Ok(ParsedValue::I8(v)),
            Err(e) => Err(e),
        },
        ArgType::Int16 => match <i16 as ParseArgument>::parse(s) {
            Ok(v) => Ok(ParsedValue::I16(v)),
            Err(e) => Err(e),
        },
        ArgType::Int32 => match <i32 as ParseArgument>::parse(s) {
            Ok(v) => Ok(ParsedValue::I32(v)),
            Err(e) => Err(e),
        },
        ArgType::Int64 => match <i64 as ParseArgument>::parse(s) {
            Ok(v) => Ok(ParsedValue::I64(v)),
            Err(e) => Err(e),
        },
        ArgType::Int128 => match <i128 as ParseArgument>::parse(s) {
            Ok(v) => Ok(ParsedValue::I128(v)),
            Err(e) => Err(e),
        },
        ArgType::IntSize => match <isize as ParseArgument>::parse(s) {
            Ok(v) => Ok(ParsedValue::ISize(v)),
            Err(e) => Err(e),
        },
        ArgType::UInt8 => match <u8 as ParseArgument>::parse(s) {
            Ok(v) => Ok(ParsedValue::U8(v)),
            Err(e) => Err(e),
        },
        ArgType::UInt16 => match <u16 as ParseArgument>::parse(s) {
            Ok(v) => Ok(ParsedValue::U16(v)),
            Err(e) => Err(e),
        },
        ArgType::UInt32 => match <u32 as ParseArgument>::parse(s) {
            Ok(v) => Ok(ParsedValue::U32(v)),
            Err(e) => Err(e),
        },
        ArgType::UInt64 => match <u64 as ParseArgument>::parse(s) {
            Ok(v) => Ok(ParsedValue::U64(v)),
            Err(e) => Err(e),
        },
        ArgType::UInt128 => match <u128 as ParseArgument>::parse(s) {
            Ok(v) => Ok(ParsedValue::U128(v)),
            Err(e) => Err(e),
        },
        ArgType::UIntSize => match <usize as ParseArgument>::parse(s) {
            Ok(v) => Ok(ParsedValue::USize(v)),
            Err(e) => Err(e),
        },
    }
}

impl ParseArgument for isize {
    open spec fn parse_spec(s: Seq<char>) -> Option<isize> {
        match spec_parse_sint(s, isize::MIN as int, isize::MAX as int) {
            Some(v) => Some(v as isize),
            None => None,
        }
    }

    open spec fn type_name_spec() -> Seq<char> {
        "isize"@
    }

    fn parse(s: &str) -> (r: Result<isize, CommandError>) {
        match parse_signed_token(s, (isize::MAX as u128) + 1, isize::MAX as u128) {
            Some((neg, v)) => if neg {
                if v == 0 {
                    Ok(0isize)
                } else {
                    Ok((-1isize) - ((v - 1) as isize))
                }
            } else {
                Ok(v as isize)
            },
            None => Err(conversion_error("isize", s)),
        }
    }
}

} // verus!
