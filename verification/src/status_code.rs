//! The key type of per-status-code response maps: an exact HTTP status code
//! or a `dXX` range pattern.

use vstd::prelude::*;
use vstd::string::StrSliceExecFns;
use vstd::string::StringExecFns;
use crate::error::DecodeError;
use crate::value::{GValue, Number, Value};

verus! {

/// An exact status code in `100..=999`, or the range of codes sharing a
/// leading digit (the textual pattern `dXX`).
#[derive(Debug, Clone, Copy, PartialEq, Eq, Hash, Structural)]
pub enum StatusCode {
    Code(u16),
    Range(u16),
}

/// Whether `c` is one of the ten decimal digit characters.
pub open spec fn is_digit(c: char) -> bool {
    48 <= c as u32 <= 57
}

/// The numeric value of a decimal digit character.
pub open spec fn digit_of(c: char) -> int {
    c as u32 - 48
}

/// The character for one decimal digit.
pub open spec fn digit_char(d: int) -> char {
    if d == 0 {
        '0'
    } else if d == 1 {
        '1'
    } else if d == 2 {
        '2'
    } else if d == 3 {
        '3'
    } else if d == 4 {
        '4'
    } else if d == 5 {
        '5'
    } else if d == 6 {
        '6'
    } else if d == 7 {
        '7'
    } else if d == 8 {
        '8'
    } else {
        '9'
    }
}

/// The status code a 3-character string stands for: three digits whose value
/// lies in `100..=999` give an exact code, a digit followed by uppercase
/// `XX` gives a range, and every other string is rejected.
pub open spec fn status_of_text(s: Seq<char>) -> Option<StatusCode> {
    if s.len() == 3 && is_digit(s[0]) && is_digit(s[1]) && is_digit(s[2]) {
        if 1 <= digit_of(s[0]) {
            Some(
                StatusCode::Code(
                    (100 * digit_of(s[0]) + 10 * digit_of(s[1]) + digit_of(s[2])) as u16,
                ),
            )
        } else {
            None
        }
    } else if s.len() == 3 && is_digit(s[0]) && s[1] == 'X' && s[2] == 'X' {
        Some(StatusCode::Range(digit_of(s[0]) as u16))
    } else {
        None
    }
}

/// The status code a generic value stands for: an integral number in
/// `100..=999`, or a string as in [`status_of_text`]; everything else is
/// rejected.
pub open spec fn status_gdec(gv: GValue) -> Option<StatusCode> {
    match gv {
        GValue::Num(n) => if n is Int && 100 <= n->Int_0 <= 999 {
            Some(StatusCode::Code(n->Int_0 as u16))
        } else {
            None
        },
        GValue::Text(s) => status_of_text(s),
        _ => None,
    }
}

/// The textual encoding of a status code: an exact code as its three decimal
/// digits, a range as its digit followed by `XX`.
pub open spec fn status_gstr(sc: StatusCode) -> Seq<char> {
    match sc {
        StatusCode::Code(n) => seq![
            digit_char(n as int / 100),
            digit_char((n as int / 10) % 10),
            digit_char(n as int % 10),
        ],
        StatusCode::Range(d) => seq![digit_char(d as int), 'X', 'X'],
    }
}

impl StatusCode {
    /// Well-formedness: exact codes lie in `100..=999`, ranges have a single
    /// leading digit.
    pub open spec fn wf(self) -> bool {
        match self {
            StatusCode::Code(n) => 100 <= n <= 999,
            StatusCode::Range(d) => d <= 9,
        }
    }

    /// Decodes a status-code key from a 3-character string.
    pub fn parse_str(s: &str) -> (r: Result<StatusCode, DecodeError>)
        ensures
            match r {
                Ok(sc) => status_of_text(s@) == Some(sc) && sc.wf(),
                Err(e) => status_of_text(s@) is None && e == DecodeError::BadStatusCode,
            },
    {
        if s.unicode_len() != 3 {
            return Err(DecodeError::BadStatusCode);
        }
        let c0 = s.get_char(0);
        let c1 = s.get_char(1);
        let c2 = s.get_char(2);
        let d0 = c0 as u32;
        let d1 = c1 as u32;
        let d2 = c2 as u32;
        if 48 <= d0 && d0 <= 57 {
            if 48 <= d1 && d1 <= 57 && 48 <= d2 && d2 <= 57 {
                if d0 >= 49 {
                    let n: u32 = 100 * (d0 - 48) + 10 * (d1 - 48) + (d2 - 48);
                    Ok(StatusCode::Code(n as u16))
                } else {
                    Err(DecodeError::BadStatusCode)
                }
            } else if c1 == 'X' && c2 == 'X' {
                Ok(StatusCode::Range((d0 - 48) as u16))
            } else {
                Err(DecodeError::BadStatusCode)
            }
        } else {
            Err(DecodeError::BadStatusCode)
        }
    }

    /// Decodes a status-code key from a generic value: an integral number in
    /// `100..=999` or a 3-character string.
    pub fn from_value(v: &Value) -> (r: Result<StatusCode, DecodeError>)
        ensures
            match r {
                Ok(sc) => status_gdec(v.gv()) == Some(sc) && sc.wf(),
                Err(e) => status_gdec(v.gv()) is None && e == DecodeError::BadStatusCode,
            },
    {
        match v {
            Value::Num(num) => match num.as_int() {
                Some(n) => {
                    if 100 <= n && n <= 999 {
                        Ok(StatusCode::Code(n as u16))
                    } else {
                        Err(DecodeError::BadStatusCode)
                    }
                },
                None => Err(DecodeError::BadStatusCode),
            },
            Value::Text(s) => StatusCode::parse_str(s.as_str()),
            _ => Err(DecodeError::BadStatusCode),
        }
    }

    /// Encodes this status code as a string: `Code(n)` as `n`'s three
    /// decimal digits, `Range(d)` as the digit followed by `XX`.
    pub fn to_text(&self) -> (r: String)
        requires
            self.wf(),
        ensures
            r@ == status_gstr(*self),
    {
        match self {
            StatusCode::Code(n) => {
                let mut out = digit_string(n / 100);
                out.append(digit_str((n / 10) % 10));
                out.append(digit_str(n % 10));
                out
            },
            StatusCode::Range(d) => {
                let mut out = digit_string(*d);
                proof {
                    reveal_strlit("XX");
                }
                out.append("XX");
                out
            },
        }
    }

    /// Encodes this status code as a generic (string) value.
    pub fn to_value(&self) -> (r: Value)
        requires
            self.wf(),
        ensures
            r.gv() == GValue::Text(status_gstr(*self)),
    {
        Value::Text(self.to_text())
    }
}

/// The 1-character string for one decimal digit.
fn digit_str(d: u16) -> (r: &'static str)
    requires
        d <= 9,
    ensures
        r@ =~= seq![digit_char(d as int)],
{
    proof {
        reveal_strlit("0");
        reveal_strlit("1");
        reveal_strlit("2");
        reveal_strlit("3");
        reveal_strlit("4");
        reveal_strlit("5");
        reveal_strlit("6");
        reveal_strlit("7");
        reveal_strlit("8");
        reveal_strlit("9");
    }
    match d {
        0 => "0",
        1 => "1",
        2 => "2",
        3 => "3",
        4 => "4",
        5 => "5",
        6 => "6",
        7 => "7",
        8 => "8",
        _ => "9",
    }
}

/// An owned 1-character string for one decimal digit.
fn digit_string(d: u16) -> (r: String)
    requires
        d <= 9,
    ensures
        r@ =~= seq![digit_char(d as int)],
{
    String::from_str(digit_str(d))
}

/// Encoding an exact code and decoding the result gives the code back: the
/// three emitted digits are read as the same value.
pub proof fn lemma_status_round_trip(sc: StatusCode)
    requires
        sc.wf(),
    ensures
        status_of_text(status_gstr(sc)) == Some(sc),
{
    match sc {
        StatusCode::Code(n) => {
            let d0 = n as int / 100;
            let d1 = (n as int / 10) % 10;
            let d2 = n as int % 10;
            assert(1 <= d0 <= 9);
            assert(0 <= d1 <= 9);
            assert(0 <= d2 <= 9);
            assert(digit_of(digit_char(d0)) == d0);
            assert(digit_of(digit_char(d1)) == d1);
            assert(digit_of(digit_char(d2)) == d2);
            assert(100 * d0 + 10 * d1 + d2 == n as int);
        },
        StatusCode::Range(d) => {
            assert(digit_of(digit_char(d as int)) == d as int);
            assert(!is_digit('X'));
        },
    }
}

/// A digit character is recovered from its numeric value.
proof fn lemma_digit_char_inverse(c: char)
    requires
        is_digit(c),
    ensures
        digit_char(digit_of(c)) == c,
{
}

/// Decoding a string and re-encoding the result reproduces the string: no
/// two distinct 3-character keys decode to the same status code.
pub proof fn lemma_status_text_canonical(s: Seq<char>, sc: StatusCode)
    requires
        status_of_text(s) == Some(sc),
    ensures
        status_gstr(sc) =~= s,
{
    if s.len() == 3 && is_digit(s[0]) && is_digit(s[1]) && is_digit(s[2]) {
        let n = 100 * digit_of(s[0]) + 10 * digit_of(s[1]) + digit_of(s[2]);
        assert(n / 100 == digit_of(s[0]));
        assert((n / 10) % 10 == digit_of(s[1]));
        assert(n % 10 == digit_of(s[2]));
        lemma_digit_char_inverse(s[0]);
        lemma_digit_char_inverse(s[1]);
        lemma_digit_char_inverse(s[2]);
    } else {
        lemma_digit_char_inverse(s[0]);
    }
}

} // verus!
