//! The interactive addition line: a compact two-word form
//! `<-><collector number><f> <setcode>`, where the leading `-` asks for
//! removal, the trailing `f` marks a foil, and the set code may instead be
//! supplied once at start-up.

use vstd::prelude::*;

use crate::text::char_is_alphanumeric;
use crate::text::is_alnum;

verus! {

/// One parsed addition line.
#[derive(Debug, PartialEq, Eq)]
pub struct Input {
    pub card_number: String,
    pub set_code: String,
    pub foil: bool,
    pub removal: bool,
}

/// Mathematical view of a parsed addition line.
pub ghost struct InputV {
    pub card_number: Seq<char>,
    pub set_code: Seq<char>,
    pub foil: bool,
    pub removal: bool,
}

impl DeepView for Input {
    type V = InputV;

    open spec fn deep_view(&self) -> InputV {
        InputV {
            card_number: self.card_number@,
            set_code: self.set_code@,
            foil: self.foil,
            removal: self.removal,
        }
    }
}

/// Why an addition line is rejected.
#[derive(Debug, PartialEq, Eq)]
pub enum ParseError {
    /// The set code (the line's second word, or the one given at
    /// start-up) held a character that is not alphanumeric.
    NonAlphanumericSetCode(String),
    /// The line held no set code and none was given at start-up.
    MissingSetCode,
}

/// Mathematical view of a rejection.
pub ghost enum ParseErrorV {
    NonAlphanumericSetCode(Seq<char>),
    MissingSetCode,
}

impl DeepView for ParseError {
    type V = ParseErrorV;

    open spec fn deep_view(&self) -> ParseErrorV {
        match self {
            ParseError::NonAlphanumericSetCode(s) => ParseErrorV::NonAlphanumericSetCode(s@),
            ParseError::MissingSetCode => ParseErrorV::MissingSetCode,
        }
    }
}

/// The ASCII whitespace characters that separate the line's words.
pub open spec fn is_ascii_ws(c: char) -> bool {
    c == ' ' || c == '\t' || c == '\n' || c == '\r' || c == '\u{0C}'
}

/// The first position at or after `i` that does not hold ASCII
/// whitespace, or the end of the text.
pub open spec fn skip_ws(s: Seq<char>, i: int) -> int
    recommends
        0 <= i <= s.len(),
    decreases s.len() - i,
{
    if i < 0 || i >= s.len() {
        i
    } else if is_ascii_ws(s[i]) {
        skip_ws(s, i + 1)
    } else {
        i
    }
}

/// The first position at or after `i` that holds ASCII whitespace, or the
/// end of the text.
pub open spec fn skip_word(s: Seq<char>, i: int) -> int
    recommends
        0 <= i <= s.len(),
    decreases s.len() - i,
{
    if i < 0 || i >= s.len() {
        i
    } else if !is_ascii_ws(s[i]) {
        skip_word(s, i + 1)
    } else {
        i
    }
}

/// Whether every character of `s` is alphanumeric.
pub open spec fn all_alnum(s: Seq<char>) -> bool {
    forall|i: int| 0 <= i < s.len() ==> is_alnum(s[i])
}

/// What parsing an addition line yields: the first word, stripped of a
/// leading `-` (removal) and then of a trailing `f` (foil), is the
/// collector number; the second word, or failing that the code provided
/// at start-up, is the set code, accepted only when alphanumeric
/// throughout.
pub open spec fn parse_outcome(s: Seq<char>, provided: Option<Seq<char>>) -> Result<
    InputV,
    ParseErrorV,
> {
    let b1 = skip_ws(s, 0);
    let e1 = skip_word(s, b1);
    let w1 = s.subrange(b1, e1);
    let removal = w1.len() > 0 && w1[0] == '-';
    let n1 = if removal {
        w1.drop_first()
    } else {
        w1
    };
    let foil = n1.len() > 0 && n1.last() == 'f';
    let number = if foil {
        n1.drop_last()
    } else {
        n1
    };
    let b2 = skip_ws(s, e1);
    if b2 < s.len() {
        let w2 = s.subrange(b2, skip_word(s, b2));
        if all_alnum(w2) {
            Ok(InputV { card_number: number, set_code: w2, foil, removal })
        } else {
            Err(ParseErrorV::NonAlphanumericSetCode(w2))
        }
    } else {
        match provided {
            Some(p) => if all_alnum(p) {
                Ok(InputV { card_number: number, set_code: p, foil, removal })
            } else {
                Err(ParseErrorV::NonAlphanumericSetCode(p))
            },
            None => Err(ParseErrorV::MissingSetCode),
        }
    }
}

/// Whether `c` is one of the ASCII whitespace separators.
fn is_ws_char(c: char) -> (r: bool)
    ensures
        r == is_ascii_ws(c),
{
    c == ' ' || c == '\t' || c == '\n' || c == '\r' || c == '\u{0C}'
}

/// Checks that every character of `s` is alphanumeric.
fn all_alnum_str(s: &str) -> (r: bool)
    ensures
        r == all_alnum(s@),
{
    let len = s.unicode_len();
    let mut i: usize = 0;
    while i < len
        invariant
            i <= len,
            len == s@.len(),
            forall|t: int| 0 <= t < i ==> is_alnum(s@[t]),
        decreases len - i,
    {
        if !char_is_alphanumeric(s.get_char(i)) {
            return false;
        }
        i = i + 1;
    }
    true
}

/// Parses one addition line. The line must hold at least one word; the
/// result is exactly `parse_outcome` of the line and the code provided at
/// start-up.
pub fn parse_addition_input(input: String, provided_set_code: Option<String>) -> (r: Result<
    Input,
    ParseError,
>)
    requires
        skip_ws(input@, 0) < input@.len(),
    ensures
        (r matches Ok(inp) ==> parse_outcome(input@, provided_set_code.deep_view())
            == Ok::<InputV, ParseErrorV>(inp.deep_view())),
        (r matches Err(e) ==> parse_outcome(input@, provided_set_code.deep_view())
            == Err::<InputV, ParseErrorV>(e.deep_view())),
{
    let s = input.as_str();
    let len = s.unicode_len();
    let mut b1: usize = 0;
    while b1 < len && is_ws_char(s.get_char(b1))
        invariant
            b1 <= len,
            len == s@.len(),
            skip_ws(s@, 0) == skip_ws(s@, b1 as int),
        decreases len - b1,
    {
        b1 = b1 + 1;
    }
    let mut e1: usize = b1;
    while e1 < len && !is_ws_char(s.get_char(e1))
        invariant
            b1 <= e1 <= len,
            len == s@.len(),
            skip_word(s@, b1 as int) == skip_word(s@, e1 as int),
        decreases len - e1,
    {
        e1 = e1 + 1;
    }
    let w1 = s.substring_char(b1, e1);
    let w1_len = e1 - b1;
    proof {
        assert(w1@.len() == w1_len);
    }
    let removal = w1_len > 0 && w1.get_char(0) == '-';
    let after_minus: &str = if removal {
        w1.substring_char(1, w1_len)
    } else {
        w1
    };
    let am_len = if removal {
        w1_len - 1
    } else {
        w1_len
    };
    proof {
        if removal {
            assert(after_minus@ =~= s@.subrange(b1 as int, e1 as int).drop_first());
        }
    }
    let foil = am_len > 0 && after_minus.get_char(am_len - 1) == 'f';
    let number: &str = if foil {
        after_minus.substring_char(0, am_len - 1)
    } else {
        after_minus
    };
    proof {
        if foil {
            assert(number@ =~= after_minus@.drop_last());
        }
    }
    let card_number = number.to_owned();
    let mut b2: usize = e1;
    while b2 < len && is_ws_char(s.get_char(b2))
        invariant
            e1 <= b2 <= len,
            len == s@.len(),
            skip_ws(s@, e1 as int) == skip_ws(s@, b2 as int),
        decreases len - b2,
    {
        b2 = b2 + 1;
    }
    if b2 < len {
        let mut e2: usize = b2;
        while e2 < len && !is_ws_char(s.get_char(e2))
            invariant
                b2 <= e2 <= len,
                len == s@.len(),
                skip_word(s@, b2 as int) == skip_word(s@, e2 as int),
            decreases len - e2,
        {
            e2 = e2 + 1;
        }
        let w2 = s.substring_char(b2, e2);
        if all_alnum_str(w2) {
            Ok(Input { card_number, set_code: w2.to_owned(), foil, removal })
        } else {
            Err(ParseError::NonAlphanumericSetCode(w2.to_owned()))
        }
    } else {
        match provided_set_code {
            Some(p) => {
                if all_alnum_str(p.as_str()) {
                    Ok(Input { card_number, set_code: p, foil, removal })
                } else {
                    Err(ParseError::NonAlphanumericSetCode(p))
                }
            },
            None => Err(ParseError::MissingSetCode),
        }
    }
}

} // verus!
