//! Query-parameter extraction: given the decoded key/value pairs of a
//! request's query string, find a parameter's value and read it as an
//! unsigned integer. Splitting the raw query string into pairs is the URL
//! parser's job; this logic starts from plain pairs.

use vstd::prelude::*;

use crate::text::str_eq;

verus! {

/// Why a query parameter could not be delivered: it was missing, or its
/// value was not the unsigned integer asked for.
#[derive(PartialEq, Eq, Debug)]
pub enum ServiceError {
    MissingQueryParameter(&'static str),
    QueryParameterParseError,
}

/// Whether a character is a decimal digit.
pub open spec fn is_dec_digit(c: char) -> bool {
    48 <= c as int <= 57
}

/// The numeric value of one decimal digit character.
pub open spec fn digit_value(c: char) -> int {
    c as int - 48
}

/// The number the digits spell, most significant first.
pub open spec fn parse_dec(s: Seq<char>) -> int
    decreases s.len(),
{
    if s.len() == 0 {
        0
    } else {
        parse_dec(s.drop_last()) * 10 + digit_value(s.last())
    }
}

/// Whether a string is a valid decimal spelling of a 32-bit unsigned
/// number: non-empty, digits only, and in range.
pub open spec fn is_valid_u32_text(s: Seq<char>) -> bool {
    &&& s.len() > 0
    &&& forall|i: int| 0 <= i < s.len() ==> is_dec_digit(#[trigger] s[i])
    &&& parse_dec(s) <= u32::MAX
}

/// The position of the first pair whose key is the parameter.
pub open spec fn first_match(pairs: Seq<(String, String)>, parameter: Seq<char>) -> int {
    choose|i: int|
        0 <= i < pairs.len() && pairs[i].0@ == parameter && (forall|k: int|
            0 <= k < i ==> pairs[k].0@ != parameter)
}

/// Whether some pair's key is the parameter.
pub open spec fn has_parameter(pairs: Seq<(String, String)>, parameter: Seq<char>) -> bool {
    exists|i: int| 0 <= i < pairs.len() && pairs[i].0@ == parameter
}

/// The value of the first pair whose key matches the parameter, or a
/// missing-parameter error naming it.
pub fn query_parameter(pairs: &Vec<(String, String)>, parameter: &'static str) -> (r: Result<
    String,
    ServiceError,
>)
    ensures
        match r {
            Ok(value) => has_parameter(pairs@, parameter@) && value@ == pairs@[first_match(
                pairs@,
                parameter@,
            )].1@,
            Err(e) => !has_parameter(pairs@, parameter@) && e == ServiceError::MissingQueryParameter(
                parameter,
            ),
        },
{
    let mut i: usize = 0;
    while i < pairs.len()
        invariant
            0 <= i <= pairs@.len(),
            forall|k: int| 0 <= k < i ==> pairs@[k].0@ != parameter@,
        decreases pairs@.len() - i,
    {
        if str_eq(pairs[i].0.as_str(), parameter) {
            proof {
                let w = i as int;
                assert(0 <= w < pairs@.len() && pairs@[w].0@ == parameter@ && (forall|k: int|
                    0 <= k < w ==> pairs@[k].0@ != parameter@));
                let f = first_match(pairs@, parameter@);
                if f < w {
                    assert(pairs@[f].0@ != parameter@);
                }
                if w < f {
                    assert(pairs@[w].0@ != parameter@);
                }
                assert(f == w);
            }
            return Ok(pairs[i].1.clone());
        }
        i = i + 1;
    }
    Err(ServiceError::MissingQueryParameter(parameter))
}

/// Reads a string as a 32-bit unsigned decimal number: every character must
/// be a digit and the value must fit.
pub fn parse_u32(s: &str) -> (r: Result<u32, ServiceError>)
    ensures
        match r {
            Ok(v) => is_valid_u32_text(s@) && v == parse_dec(s@),
            Err(e) => !is_valid_u32_text(s@) && e == ServiceError::QueryParameterParseError,
        },
{
    let n = s.unicode_len();
    if n == 0 {
        return Err(ServiceError::QueryParameterParseError);
    }
    let mut acc: u64 = 0;
    let mut too_big: bool = false;
    let mut i: usize = 0;
    while i < n
        invariant
            n == s@.len(),
            0 <= i <= n,
            forall|k: int| 0 <= k < i ==> is_dec_digit(#[trigger] s@[k]),
            !too_big ==> acc == parse_dec(s@.subrange(0, i as int)) && acc <= u32::MAX,
            too_big ==> parse_dec(s@.subrange(0, i as int)) > u32::MAX,
        decreases n - i,
    {
        let c = s.get_char(i);
        let cu: u32 = c as u32;
        if cu < 48 || cu > 57 {
            return Err(ServiceError::QueryParameterParseError);
        }
        let d: u64 = (cu - 48) as u64;
        proof {
            assert(s@.subrange(0, i + 1).drop_last() =~= s@.subrange(0, i as int));
            assert(s@.subrange(0, i + 1).last() == s@[i as int]);
        }
        if too_big {
            proof {
                let p = parse_dec(s@.subrange(0, i as int));
                assert(parse_dec(s@.subrange(0, i + 1)) == p * 10 + digit_value(s@[i as int]));
                assert(p * 10 >= p) by (nonlinear_arith)
                    requires
                        p > 0,
                ;
            }
        } else {
            let next: u64 = acc * 10 + d;
            if next > 0xFFFF_FFFF {
                too_big = true;
            } else {
                acc = next;
            }
        }
        i = i + 1;
    }
    if too_big {
        proof {
            assert(s@.subrange(0, n as int) =~= s@);
        }
        return Err(ServiceError::QueryParameterParseError);
    }
    proof {
        assert(s@.subrange(0, n as int) =~= s@);
    }
    Ok(acc as u32)
}

/// The named query parameter read as a 32-bit unsigned integer: missing and
/// malformed parameters are told apart in the error.
pub fn integer_query_parameter(pairs: &Vec<(String, String)>, parameter: &'static str) -> (r:
    Result<u32, ServiceError>)
    ensures
        match r {
            Ok(v) => has_parameter(pairs@, parameter@) && is_valid_u32_text(
                pairs@[first_match(pairs@, parameter@)].1@,
            ) && v == parse_dec(pairs@[first_match(pairs@, parameter@)].1@),
            Err(ServiceError::MissingQueryParameter(p)) => !has_parameter(pairs@, parameter@) && p
                == parameter,
            Err(ServiceError::QueryParameterParseError) => has_parameter(pairs@, parameter@)
                && !is_valid_u32_text(pairs@[first_match(pairs@, parameter@)].1@),
        },
{
    match query_parameter(pairs, parameter) {
        Ok(value) => parse_u32(value.as_str()),
        Err(e) => Err(e),
    }
}

} // verus!
