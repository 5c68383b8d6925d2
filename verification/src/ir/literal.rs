//! Literals: the texts from which types and attributes are read.
//!
//! A type is `index`, or `i` and a width in decimal digits. An attribute is
//! `unit`, a string between double quotes, a type, or an integer and a type
//! with ` : ` between them.

use super::attribute::{Attribute, AttributeView};
use super::syntax::{attribute_text, type_text};
use super::types::Type;
use crate::text::{decimal, digit, signed_decimal};
use vstd::prelude::*;
use vstd::string::StringExecFns;

verus! {

/// The character is a decimal digit.
pub open spec fn is_digit(c: char) -> bool {
    48 <= c as u32 <= 57
}

/// The value of a decimal digit.
pub open spec fn digit_value(c: char) -> nat {
    (c as u32 - 48) as nat
}

/// The text is one decimal digit or more.
pub open spec fn is_digits(s: Seq<char>) -> bool {
    s.len() > 0 && forall|i: int| 0 <= i < s.len() ==> is_digit(#[trigger] s[i])
}

/// The number that decimal digits stand for.
pub open spec fn digits_value(s: Seq<char>) -> nat
    decreases s.len(),
{
    if s.len() == 0 {
        0
    } else {
        digits_value(s.drop_last()) * 10 + digit_value(s.last())
    }
}

/// The first position at or behind `from` that holds the character, or the
/// length of the text where none does.
pub open spec fn find_from(s: Seq<char>, c: char, from: int) -> int
    decreases s.len() - from,
{
    if from < 0 || from >= s.len() {
        s.len() as int
    } else if s[from] == c {
        from
    } else {
        find_from(s, c, from + 1)
    }
}

/// The type that a text stands for, if it stands for one.
pub open spec fn parse_type(s: Seq<char>) -> Option<Type> {
    if s == "index"@ {
        Some(Type::Index)
    } else if s.len() >= 2 && s[0] == 'i' && is_digits(s.skip(1)) && digits_value(s.skip(1))
        <= u32::MAX {
        Some(Type::Integer(digits_value(s.skip(1)) as u32))
    } else {
        None
    }
}

/// The integer that a text stands for, if it stands for one that fits 64
/// bits: digits, after a minus sign or not.
pub open spec fn parse_integer(s: Seq<char>) -> Option<int> {
    if s.len() >= 2 && s[0] == '-' && is_digits(s.skip(1)) && digits_value(s.skip(1))
        <= 0x8000_0000_0000_0000 {
        Some(-(digits_value(s.skip(1)) as int))
    } else if is_digits(s) && digits_value(s) <= 0x7fff_ffff_ffff_ffff {
        Some(digits_value(s) as int)
    } else {
        None
    }
}

/// The text is a string literal: it begins and ends with a double quote and
/// holds no other.
pub open spec fn is_string_literal(s: Seq<char>) -> bool {
    &&& s.len() >= 2
    &&& s[0] == '"'
    &&& find_from(s, '"', 1) == s.len() - 1
}

/// The integer attribute that a text stands for, if it stands for one: an
/// integer up to the first space, then ` : `, then a type.
pub open spec fn parse_typed_integer(s: Seq<char>) -> Option<AttributeView> {
    let space = find_from(s, ' ', 0);
    if space + 3 <= s.len() && s[space + 1] == ':' && s[space + 2] == ' ' {
        match (parse_integer(s.subrange(0, space)), parse_type(s.subrange(space + 3, s.len() as int))) {
            (Some(value), Some(ty)) => Some(AttributeView::Integer(value, ty)),
            _ => None,
        }
    } else {
        None
    }
}

/// The attribute that a text stands for, if it stands for one.
pub open spec fn parse_attribute(s: Seq<char>) -> Option<AttributeView> {
    if s == "unit"@ {
        Some(AttributeView::Unit)
    } else if is_string_literal(s) {
        Some(AttributeView::String(s.subrange(1, s.len() - 1)))
    } else if parse_type(s).is_some() {
        Some(AttributeView::Type(parse_type(s).unwrap()))
    } else {
        parse_typed_integer(s)
    }
}

/// More digits do not make a smaller number.
proof fn lemma_digits_value_grows(s: Seq<char>, k: int)
    requires
        0 <= k <= s.len(),
    ensures
        digits_value(s.take(k)) <= digits_value(s),
    decreases s.len() - k,
{
    if k == s.len() {
        assert(s.take(k) =~= s);
    } else {
        lemma_digits_value_grows(s, k + 1);
        assert(s.take(k + 1).drop_last() =~= s.take(k));
    }
}

/// A position before which the character does not occur, and that holds it
/// or is the end, is where the search from any earlier position ends.
proof fn lemma_find_from(s: Seq<char>, c: char, from: int, at: int)
    requires
        0 <= from <= at <= s.len(),
        forall|j: int| from <= j < at ==> s[j] != c,
        at == s.len() || s[at] == c,
    ensures
        find_from(s, c, from) == at,
    decreases at - from,
{
    if from < at {
        lemma_find_from(s, c, from + 1, at);
    }
}

/// The decimal numeral of a number is made of digits and stands for the
/// number.
pub proof fn lemma_decimal_is_read_back(n: nat)
    ensures
        is_digits(decimal(n)),
        digits_value(decimal(n)) == n,
    decreases n,
{
    if n < 10 {
        assert(decimal(n).drop_last() =~= Seq::<char>::empty());
        assert(digits_value(decimal(n).drop_last()) == 0);
        assert(decimal(n).last() == digit(n));
        assert(is_digit(digit(n)) && digit_value(digit(n)) == n);
    } else {
        lemma_decimal_is_read_back(n / 10);
        let front = decimal(n / 10);
        let all = decimal(n);
        assert(all.drop_last() =~= front);
        assert(all.last() == digit(n % 10));
        assert(is_digit(digit(n % 10)) && digit_value(digit(n % 10)) == n % 10);
        assert forall|i: int| 0 <= i < all.len() implies is_digit(#[trigger] all[i]) by {
            if i < front.len() {
                assert(all[i] == front[i]);
            }
        }
    }
}

/// The text of a type is read back as that type.
pub proof fn law_type_text_is_read_back(ty: Type)
    ensures
        parse_type(type_text(ty)) == Some(ty),
{
    reveal_strlit("index");
    reveal_strlit("i");
    match ty {
        Type::Index => {},
        Type::Integer(bits) => {
            let s = type_text(ty);
            lemma_decimal_is_read_back(bits as nat);
            assert(s[0] == 'i');
            assert(s.skip(1) =~= decimal(bits as nat));
            assert(s != "index"@) by {
                assert(s[1] == decimal(bits as nat)[0]);
                assert(is_digit(s[1]));
            }
        },
    }
}

/// The numeral of an integer that fits 64 bits is read back as that
/// integer, and holds no space.
pub proof fn lemma_signed_decimal_is_read_back(value: int)
    requires
        -0x8000_0000_0000_0000 <= value <= 0x7fff_ffff_ffff_ffff,
    ensures
        parse_integer(signed_decimal(value)) == Some(value),
        signed_decimal(value).len() > 0,
        forall|i: int|
            0 <= i < signed_decimal(value).len() ==> (#[trigger] signed_decimal(value)[i]) != ' ',
        signed_decimal(value)[0] == '-' || is_digit(signed_decimal(value)[0]),
{
    reveal_strlit("-");
    let s = signed_decimal(value);
    if value < 0 {
        let digits = decimal((-value) as nat);
        lemma_decimal_is_read_back((-value) as nat);
        assert(s.skip(1) =~= digits);
        assert(s[0] == '-');
        assert forall|i: int| 0 <= i < s.len() implies (#[trigger] s[i]) != ' ' by {
            if i > 0 {
                assert(s[i] == digits[i - 1]);
                assert(is_digit(digits[i - 1]));
            }
        }
    } else {
        lemma_decimal_is_read_back(value as nat);
        assert(is_digit(s[0]));
        assert forall|i: int| 0 <= i < s.len() implies (#[trigger] s[i]) != ' ' by {
            assert(is_digit(s[i]));
        }
    }
}

/// The text of an attribute is read back as that attribute, where its
/// integer fits 64 bits and its string holds no double quote.
pub proof fn law_attribute_text_is_read_back(attribute: AttributeView)
    requires
        attribute matches AttributeView::Integer(value, _) ==> -0x8000_0000_0000_0000 <= value
            <= 0x7fff_ffff_ffff_ffff,
        attribute matches AttributeView::String(text) ==> forall|i: int|
            0 <= i < text.len() ==> text[i] != '"',
    ensures
        parse_attribute(attribute_text(attribute)) == Some(attribute),
{
    reveal_strlit("unit");
    reveal_strlit("index");
    reveal_strlit("i");
    reveal_strlit("\"");
    reveal_strlit(" : ");
    let s = attribute_text(attribute);
    match attribute {
        AttributeView::Unit => {},
        AttributeView::String(text) => {
            assert(s[0] == '"');
            assert(s != "unit"@);
            assert(s[s.len() - 1] == '"');
            assert forall|j: int| 1 <= j < s.len() - 1 implies s[j] != '"' by {
                assert(s[j] == text[j - 1]);
            }
            lemma_find_from(s, '"', 1, s.len() - 1);
            assert(s.subrange(1, s.len() - 1) =~= text);
        },
        AttributeView::Type(ty) => {
            law_type_text_is_read_back(ty);
            assert(s[0] == 'i');
            assert(s != "unit"@);
            assert(!is_string_literal(s));
        },
        AttributeView::Integer(value, ty) => {
            let number = signed_decimal(value);
            let n = number.len() as int;
            lemma_signed_decimal_is_read_back(value);
            law_type_text_is_read_back(ty);
            assert(s[0] == number[0]);
            assert(s != "unit"@);
            assert(!is_string_literal(s));
            assert(s != "index"@);
            assert(parse_type(s).is_none());
            assert forall|j: int| 0 <= j < n implies s[j] != ' ' by {
                assert(s[j] == number[j]);
            }
            assert(s[n] == ' ' && s[n + 1] == ':' && s[n + 2] == ' ');
            lemma_find_from(s, ' ', 0, n);
            assert(s.subrange(0, n) =~= number);
            assert(s.subrange(n + 3, s.len() as int) =~= type_text(ty));
        },
    }
}

/// Reads the digits between two positions as a number up to a limit.
fn read_digits(text: &str, from: usize, to: usize, limit: u64) -> (value: Option<u64>)
    requires
        from <= to <= text@.len(),
    ensures
        ({
            let s = text@.subrange(from as int, to as int);
            match value {
                Some(v) => is_digits(s) && digits_value(s) == v && v <= limit,
                None => !is_digits(s) || digits_value(s) > limit,
            }
        }),
{
    let ghost s = text@.subrange(from as int, to as int);
    if from == to {
        return None;
    }
    let mut value: u64 = 0;
    let mut i: usize = from;
    assert(s.take(0) =~= Seq::<char>::empty());
    while i < to
        invariant
            from <= i <= to <= text@.len(),
            s == text@.subrange(from as int, to as int),
            forall|j: int| 0 <= j < i - from ==> is_digit(#[trigger] s[j]),
            digits_value(s.take(i - from)) == value,
            value <= limit,
        decreases to - i,
    {
        let c = text.get_char(i);
        assert(c == s[i - from]);
        let code = c as u32;
        if code < 48 || code > 57 {
            return None;
        }
        let d = (code - 48) as u64;
        proof {
            assert(s.take(i - from + 1).drop_last() =~= s.take(i - from));
            assert(s.take(i - from + 1).last() == c);
            lemma_digits_value_grows(s, i - from + 1);
        }
        if d > limit || value > (limit - d) / 10 {
            proof {
                assert(digits_value(s.take(i - from + 1)) == value * 10 + d);
                assert(value * 10 + d > limit) by (nonlinear_arith)
                    requires
                        d <= limit ==> value > (limit - d) / 10,
                        d < 10,
                        value >= 0,
                        limit >= 0,
                ;
            }
            return None;
        }
        assert(value * 10 + d <= limit) by (nonlinear_arith)
            requires
                value <= (limit - d) / 10,
                d <= limit,
        ;
        value = value * 10 + d;
        i += 1;
    }
    assert(s.take(to - from) =~= s);
    Some(value)
}

/// Reads a type between two positions of a text.
fn read_type(text: &str, from: usize, to: usize) -> (ty: Option<Type>)
    requires
        from <= to <= text@.len(),
    ensures
        ty == parse_type(text@.subrange(from as int, to as int)),
{
    let ghost s = text@.subrange(from as int, to as int);
    proof {
        reveal_strlit("index");
    }
    if to - from == 5 && text.get_char(from) == 'i' && text.get_char(from + 1) == 'n'
        && text.get_char(from + 2) == 'd' && text.get_char(from + 3) == 'e' && text.get_char(
        from + 4,
    ) == 'x' {
        assert(s =~= "index"@);
        return Some(Type::Index);
    }
    assert(s != "index"@) by {
        if s == "index"@ {
            assert(s.len() == 5);
            assert(s[0] == 'i' && s[1] == 'n' && s[2] == 'd' && s[3] == 'e' && s[4] == 'x');
        }
    }
    if to - from >= 2 && text.get_char(from) == 'i' {
        assert(s.skip(1) =~= text@.subrange(from + 1, to as int));
        match read_digits(text, from + 1, to, 0xffff_ffff) {
            Some(bits) => Some(Type::Integer(bits as u32)),
            None => None,
        }
    } else {
        None
    }
}

/// Reads an integer between two positions of a text.
fn read_integer(text: &str, from: usize, to: usize) -> (value: Option<i64>)
    requires
        from <= to <= text@.len(),
    ensures
        match value {
            Some(v) => parse_integer(text@.subrange(from as int, to as int)) == Some(v as int),
            None => parse_integer(text@.subrange(from as int, to as int)).is_none(),
        },
{
    let ghost s = text@.subrange(from as int, to as int);
    if to - from >= 2 && text.get_char(from) == '-' {
        assert(s.skip(1) =~= text@.subrange(from + 1, to as int));
        assert(!is_digits(s)) by {
            assert(!is_digit(s[0]));
        }
        match read_digits(text, from + 1, to, 0x8000_0000_0000_0000) {
            Some(magnitude) => {
                if magnitude == 0x8000_0000_0000_0000 {
                    Some(i64::MIN)
                } else {
                    Some(-(magnitude as i64))
                }
            },
            None => None,
        }
    } else {
        assert(!(s.len() >= 2 && s[0] == '-'));
        match read_digits(text, from, to, 0x7fff_ffff_ffff_ffff) {
            Some(magnitude) => Some(magnitude as i64),
            None => None,
        }
    }
}

/// The first position at or behind `from` that holds the character, or the
/// length of the text.
fn find(text: &str, c: char, from: usize) -> (at: usize)
    requires
        from <= text@.len(),
    ensures
        at == find_from(text@, c, from as int),
        from <= at <= text@.len(),
{
    let length = text.unicode_len();
    let mut i: usize = from;
    while i < length
        invariant
            from <= i <= length,
            length == text@.len(),
            forall|j: int| from <= j < i ==> text@[j] != c,
        decreases length - i,
    {
        if text.get_char(i) == c {
            proof {
                lemma_find_from(text@, c, from as int, i as int);
            }
            return i;
        }
        i += 1;
    }
    proof {
        lemma_find_from(text@, c, from as int, i as int);
    }
    i
}

/// Reads a type from a text.
pub(crate) fn read_type_literal(text: &str) -> (ty: Option<Type>)
    ensures
        ty == parse_type(text@),
{
    let length = text.unicode_len();
    assert(text@.subrange(0, length as int) =~= text@);
    read_type(text, 0, length)
}

/// Reads an attribute from a text.
pub(crate) fn read_attribute_literal(text: &str) -> (attribute: Option<Attribute>)
    ensures
        match attribute {
            Some(a) => parse_attribute(text@) == Some(a@),
            None => parse_attribute(text@).is_none(),
        },
{
    let length = text.unicode_len();
    proof {
        reveal_strlit("unit");
        assert(text@.subrange(0, length as int) =~= text@);
    }
    if length == 4 && text.get_char(0) == 'u' && text.get_char(1) == 'n' && text.get_char(2) == 'i'
        && text.get_char(3) == 't' {
        assert(text@ =~= "unit"@);
        return Some(Attribute::Unit);
    }
    assert(text@ != "unit"@) by {
        if text@ == "unit"@ {
            assert(text@.len() == 4);
            assert(text@[0] == 'u' && text@[1] == 'n' && text@[2] == 'i' && text@[3] == 't');
        }
    }
    if length >= 2 && text.get_char(0) == '"' {
        let closing = find(text, '"', 1);
        if closing == length - 1 {
            let inner = text.substring_char(1, length - 1);
            return Some(Attribute::String(String::from_str(inner)));
        }
    }
    assert(!is_string_literal(text@));
    match read_type(text, 0, length) {
        Some(ty) => {
            return Some(Attribute::Type(ty));
        },
        None => {},
    }
    let space = find(text, ' ', 0);
    if length >= 3 && space <= length - 3 && text.get_char(space + 1) == ':' && text.get_char(
        space + 2,
    ) == ' ' {
        let value = read_integer(text, 0, space);
        let ty = read_type(text, space + 3, length);
        match (value, ty) {
            (Some(value), Some(ty)) => Some(Attribute::Integer(value, ty)),
            _ => None,
        }
    } else {
        None
    }
}

} // verus!
