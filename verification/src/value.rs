//! Typed attribute values and their canonical textual representation.
//!
//! A `set` on an attribute parses the supplied string into the attribute's
//! declared scalar type; a string that cannot be parsed as that type is a
//! `TypeMismatch`. `get` and comparisons work on the parsed values, so
//! round-trip equality checks are exact, never lexical.

use vstd::prelude::*;
use crate::errors::EngineError;

verus! {

/// The scalar type an attribute declares.
#[derive(Debug, Clone, PartialEq, Eq)]
pub enum ScalarType {
    Bool,
    Int,
    Uint,
    Str,
    /// An enumerated type: the value must be one of the declared names.
    Enum { names: Vec<String> },
}

/// A typed attribute value.
#[derive(Debug, Clone, PartialEq, Eq)]
pub enum Value {
    Bool(bool),
    Int(i64),
    Uint(u64),
    Str(String),
    EnumName(String),
}

/// The mathematical value behind a `Value`, with strings as character
/// sequences, so that contracts compare values and not allocations.
pub enum ValueView {
    Bool { b: bool },
    Int { i: int },
    Uint { u: int },
    Str { s: Seq<char> },
    EnumName { s: Seq<char> },
}

impl View for Value {
    type V = ValueView;

    open spec fn view(&self) -> ValueView {
        match self {
            Value::Bool(b) => ValueView::Bool { b: *b },
            Value::Int(i) => ValueView::Int { i: *i as int },
            Value::Uint(u) => ValueView::Uint { u: *u as int },
            Value::Str(s) => ValueView::Str { s: s@ },
            Value::EnumName(s) => ValueView::EnumName { s: s@ },
        }
    }
}

/// Whether a character is a decimal digit.
pub open spec fn spec_is_digit(c: char) -> bool {
    '0' <= c && c <= '9'
}

/// The numeric value of a decimal digit.
pub open spec fn spec_digit_val(c: char) -> int {
    c as int - '0' as int
}

/// Whether every character of `s` is a decimal digit.
pub open spec fn all_digits(s: Seq<char>) -> bool {
    forall|i: int| 0 <= i < s.len() ==> spec_is_digit(#[trigger] s[i])
}

/// The number a digit string denotes, most significant digit first.
pub open spec fn digits_value(s: Seq<char>) -> int
    decreases s.len(),
{
    if s.len() == 0 {
        0
    } else {
        digits_value(s.drop_last()) * 10 + spec_digit_val(s.last())
    }
}

/// The canonical unsigned reading of `s`: one or more decimal digits.
pub open spec fn spec_parse_uint(s: Seq<char>) -> Option<int> {
    if s.len() > 0 && all_digits(s) {
        Some(digits_value(s))
    } else {
        None
    }
}

/// The canonical signed reading of `s`: an optional leading minus sign
/// followed by one or more decimal digits.
pub open spec fn spec_parse_int(s: Seq<char>) -> Option<int> {
    if s.len() > 0 && s[0] == '-' {
        match spec_parse_uint(s.skip(1)) {
            Some(v) => Some(-v),
            None => None,
        }
    } else {
        spec_parse_uint(s)
    }
}

/// Whether `input` has a canonical reading at scalar type `ty`.
pub open spec fn spec_scalar_ok(ty: &ScalarType, input: Seq<char>) -> bool {
    match ty {
        ScalarType::Bool => input == "true"@ || input == "false"@,
        ScalarType::Int => match spec_parse_int(input) {
            Some(v) => i64::MIN <= v <= i64::MAX,
            None => false,
        },
        ScalarType::Uint => match spec_parse_uint(input) {
            Some(v) => v <= u64::MAX,
            None => false,
        },
        ScalarType::Str => true,
        ScalarType::Enum { names } => enum_member(names@, input),
    }
}

/// Whether `input` is one of the declared enumerated names.
pub open spec fn enum_member(names: Seq<String>, input: Seq<char>) -> bool {
    exists|j: int| 0 <= j < names.len() && #[trigger] names[j]@ == input
}

/// Whether `v` is the canonical reading of `input` at scalar type `ty`.
pub open spec fn spec_value_matches(ty: &ScalarType, input: Seq<char>, v: ValueView) -> bool {
    match ty {
        ScalarType::Bool => v matches ValueView::Bool { b }
            && (input == "true"@ && b || input == "false"@ && !b),
        ScalarType::Int => v matches ValueView::Int { i } && spec_parse_int(input) == Some(i),
        ScalarType::Uint => v matches ValueView::Uint { u } && spec_parse_uint(input) == Some(u),
        ScalarType::Str => v matches ValueView::Str { s } && s == input,
        ScalarType::Enum { names } => v matches ValueView::EnumName { s }
            && s == input
            && spec_scalar_ok(ty, input),
    }
}

/// A digit string never denotes a negative number.
pub proof fn lemma_digits_value_nonneg(s: Seq<char>)
    requires
        all_digits(s),
    ensures
        digits_value(s) >= 0,
    decreases s.len(),
{
    if s.len() > 0 {
        assert(all_digits(s.drop_last()));
        lemma_digits_value_nonneg(s.drop_last());
    }
}

/// Reading more digits never makes the denoted number smaller.
pub proof fn lemma_digits_value_prefix(s: Seq<char>, i: int)
    requires
        all_digits(s),
        0 <= i <= s.len(),
    ensures
        digits_value(s.take(i)) <= digits_value(s),
        digits_value(s.take(i)) >= 0,
    decreases s.len() - i,
{
    assert(all_digits(s.take(i)));
    lemma_digits_value_nonneg(s.take(i));
    if i < s.len() {
        assert(s.take(i + 1).drop_last() =~= s.take(i));
        assert(digits_value(s.take(i + 1))
            == digits_value(s.take(i)) * 10 + spec_digit_val(s.take(i + 1).last()));
        lemma_digits_value_nonneg(s.take(i));
        assert(digits_value(s.take(i)) * 10 >= digits_value(s.take(i))) by {
            assert(digits_value(s.take(i)) >= 0);
        }
        lemma_digits_value_prefix(s, i + 1);
    } else {
        assert(s.take(i) =~= s);
    }
}

/// Parses one or more decimal digits from the characters of `s` in
/// `from..s.len()`, rejecting values beyond `u64`.
fn parse_uint_from(s: &str, from: usize, len: usize) -> (r: Option<u64>)
    requires
        from < len,
        len == s@.len(),
    ensures
        match r {
            Some(v) => spec_parse_uint(s@.skip(from as int)) == Some(v as int),
            None => match spec_parse_uint(s@.skip(from as int)) {
                Some(v) => v > u64::MAX,
                None => true,
            },
        },
{
    let ghost tail = s@.skip(from as int);
    let mut acc: u64 = 0;
    let mut i: usize = from;
    proof {
        assert(tail.take(0) =~= Seq::<char>::empty());
    }
    while i < len
        invariant
            from <= i <= len,
            len == s@.len(),
            tail == s@.skip(from as int),
            all_digits(tail.take(i - from)),
            acc as int == digits_value(tail.take(i - from)),
        decreases len - i,
    {
        let c = s.get_char(i);
        proof {
            assert(tail[i - from] == s@[i as int]);
        }
        if c < '0' || c > '9' {
            proof {
                assert(!spec_is_digit(tail[i - from]));
            }
            return None;
        }
        let d: u64 = (c as u32 - 48) as u64;
        proof {
            assert(d as int == spec_digit_val(tail[i - from]));
        }
        if acc > (u64::MAX - d) / 10 {
            // The digits read so far already exceed the machine range, and
            // further digits can only grow the value.
            proof {
                assert(tail.take(i - from + 1).drop_last() =~= tail.take(i - from));
                assert(all_digits(tail.take(i - from + 1)));
                assert(digits_value(tail.take(i - from + 1))
                    == acc as int * 10 + d as int);
                assert(acc as int * 10 + d > u64::MAX);
                assert(tail.take(tail.len() as int) =~= tail);
                if all_digits(tail) {
                    lemma_digits_value_prefix(tail, i - from + 1);
                    assert(digits_value(tail) > u64::MAX);
                }
            }
            return None;
        }
        proof {
            assert(acc <= (u64::MAX - d) / 10);
            assert(acc as int * 10 + d as int <= u64::MAX) by (nonlinear_arith)
                requires
                    acc as int <= (u64::MAX - d as int) / 10,
                    0 <= d as int <= 9,
            ;
            assert(tail.take(i - from + 1).drop_last() =~= tail.take(i - from));
            assert(tail.take(i - from + 1).last() == tail[i - from]);
        }
        acc = acc * 10 + d;
        i = i + 1;
    }
    proof {
        assert(tail.take(len - from) =~= tail);
        assert(tail.len() == len - from > 0);
    }
    Some(acc)
}

/// Parses the canonical unsigned decimal representation.
pub fn parse_uint(s: &str) -> (r: Option<u64>)
    ensures
        match r {
            Some(v) => spec_parse_uint(s@) == Some(v as int),
            None => match spec_parse_uint(s@) {
                Some(v) => v > u64::MAX,
                None => true,
            },
        },
{
    let len = s.unicode_len();
    if len == 0 {
        return None;
    }
    proof {
        assert(s@.skip(0) =~= s@);
    }
    parse_uint_from(s, 0, len)
}

/// Parses the canonical signed decimal representation: an optional leading
/// minus sign, then one or more digits.
pub fn parse_int(s: &str) -> (r: Option<i64>)
    ensures
        match r {
            Some(v) => spec_parse_int(s@) == Some(v as int),
            None => match spec_parse_int(s@) {
                Some(v) => !(i64::MIN <= v <= i64::MAX),
                None => true,
            },
        },
{
    let len = s.unicode_len();
    if len == 0 {
        return None;
    }
    let first = s.get_char(0);
    if first == '-' {
        if len == 1 {
            return None;
        }
        let mag = parse_uint_from(s, 1, len);
        match mag {
            None => {
                proof {
                    if spec_parse_uint(s@.skip(1)) is Some {
                        assert(spec_parse_uint(s@.skip(1)).unwrap() > u64::MAX);
                    }
                }
                None
            },
            Some(m) => {
                if m <= i64::MAX as u64 {
                    Some(-(m as i64))
                } else if m == 9223372036854775808u64 {
                    Some(i64::MIN)
                } else {
                    None
                }
            },
        }
    } else {
        let v = parse_uint_from(s, 0, len);
        proof {
            assert(s@.skip(0) =~= s@);
        }
        match v {
            None => None,
            Some(v) => {
                if v <= i64::MAX as u64 {
                    Some(v as i64)
                } else {
                    None
                }
            },
        }
    }
}

/// Parses `input` into the canonical value of the declared scalar type.
/// A string that has no reading at that type is a `TypeMismatch`, never a
/// silent coercion.
pub fn parse_scalar(ty: &ScalarType, input: &str) -> (r: Result<Value, EngineError>)
    ensures
        match r {
            Ok(v) => spec_scalar_ok(ty, input@) && spec_value_matches(ty, input@, v@),
            Err(e) => !spec_scalar_ok(ty, input@)
                && (e matches EngineError::TypeMismatch { input: i } && i@ == input@),
        },
{
    match ty {
        ScalarType::Bool => {
            let owned = input.to_owned();
            if owned == String::from_str("true") {
                Ok(Value::Bool(true))
            } else if owned == String::from_str("false") {
                Ok(Value::Bool(false))
            } else {
                Err(EngineError::TypeMismatch { input: owned })
            }
        },
        ScalarType::Int => {
            match parse_int(input) {
                Some(v) => Ok(Value::Int(v)),
                None => Err(EngineError::TypeMismatch { input: input.to_owned() }),
            }
        },
        ScalarType::Uint => {
            match parse_uint(input) {
                Some(v) => Ok(Value::Uint(v)),
                None => Err(EngineError::TypeMismatch { input: input.to_owned() }),
            }
        },
        ScalarType::Str => Ok(Value::Str(input.to_owned())),
        ScalarType::Enum { names } => {
            let n = names.len();
            let mut j: usize = 0;
            let owned = input.to_owned();
            while j < n
                invariant
                    j <= n,
                    n == names@.len(),
                    owned@ == input@,
                    ty matches ScalarType::Enum { names: ns } && ns@ == names@,
                    forall|k: int| 0 <= k < j ==> #[trigger] names@[k]@ != input@,
                decreases n - j,
            {
                let candidate: &String = &names[j];
                let hit = candidate.eq(&owned);
                if hit {
                    proof {
                        assert(enum_member(names@, input@)) by {
                            assert(names@[j as int]@ == input@);
                        }
                    }
                    return Ok(Value::EnumName(owned));
                }
                j = j + 1;
            }
            Err(EngineError::TypeMismatch { input: owned })
        },
    }
}

/// The character's code with an upper-case ASCII letter folded to lower case.
pub open spec fn spec_fold_char(c: char) -> int {
    if 'A' <= c && c <= 'Z' {
        c as int + 32
    } else {
        c as int
    }
}

/// Case-insensitive equality of two texts: same length, and every character
/// equal after ASCII case folding.
pub open spec fn spec_eq_ci(a: Seq<char>, b: Seq<char>) -> bool {
    a.len() == b.len() && forall|i: int|
        0 <= i < a.len() ==> spec_fold_char(a[i]) == spec_fold_char(b[i])
}

/// Compares two texts ignoring ASCII case.
pub fn eq_ignore_case(a: &str, b: &str) -> (r: bool)
    ensures
        r == spec_eq_ci(a@, b@),
{
    let la = a.unicode_len();
    let lb = b.unicode_len();
    if la != lb {
        return false;
    }
    let mut i: usize = 0;
    while i < la
        invariant
            i <= la,
            la == a@.len(),
            la == b@.len(),
            forall|j: int| 0 <= j < i ==> spec_fold_char(a@[j]) == spec_fold_char(b@[j]),
        decreases la - i,
    {
        let ca = a.get_char(i) as u32;
        let cb = b.get_char(i) as u32;
        let fa: u32 = if ca >= 65 && ca <= 90 {
            ca + 32
        } else {
            ca
        };
        let fb: u32 = if cb >= 65 && cb <= 90 {
            cb + 32
        } else {
            cb
        };
        if fa != fb {
            return false;
        }
        i = i + 1;
    }
    true
}

/// Law: the canonical reading at a scalar type is unique. Two values that
/// both match one input at one type are the same mathematical value, so a
/// `set` followed by a `get` can yield nothing but the parsed input.
pub proof fn lemma_canonical_reading_unique(
    ty: &ScalarType,
    input: Seq<char>,
    v1: ValueView,
    v2: ValueView,
)
    requires
        spec_value_matches(ty, input, v1),
        spec_value_matches(ty, input, v2),
    ensures
        v1 == v2,
{
    reveal_strlit("true");
    reveal_strlit("false");
}

} // verus!
