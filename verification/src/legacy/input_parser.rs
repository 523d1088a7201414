//! The earlier, freeform addition-line parser: it scans the line once to
//! note removal marks, takes a trailing `f` as the foil mark, and then
//! splits what is left into set code and collector number — expecting
//! input like `dsk 12` or `blb 51f`.

use vstd::prelude::*;

use crate::text::char_is_alphabetic;
use crate::text::char_is_whitespace;
use crate::text::is_alpha;
use crate::text::is_unicode_ws;

verus! {

/// One parsed addition line.
#[derive(Debug, PartialEq, Eq)]
pub struct Input {
    pub card_number: String,
    pub set_code: String,
    pub foil: bool,
    pub removal: bool,
}

/// Mathematical view of a parsed addition line.
pub ghost struct InputV {
    pub card_number: Seq<char>,
    pub set_code: Seq<char>,
    pub foil: bool,
    pub removal: bool,
}

impl DeepView for Input {
    type V = InputV;

    open spec fn deep_view(&self) -> InputV {
        InputV {
            card_number: self.card_number@,
            set_code: self.set_code@,
            foil: self.foil,
            removal: self.removal,
        }
    }
}

/// Why an addition line is rejected: it could not be split into a set
/// code and a number. The original line is carried along for the report.
#[derive(Debug, PartialEq, Eq)]
pub enum ParseError {
    UnparsableInput(String),
}

/// Mathematical view of a rejection.
pub ghost enum ParseErrorV {
    UnparsableInput(Seq<char>),
}

impl DeepView for ParseError {
    type V = ParseErrorV;

    open spec fn deep_view(&self) -> ParseErrorV {
        match self {
            ParseError::UnparsableInput(s) => ParseErrorV::UnparsableInput(s@),
        }
    }
}

/// Whether `c` is a decimal digit.
pub open spec fn is_digit10(c: char) -> bool {
    0x30 <= (c as u32) && (c as u32) <= 0x39
}

/// The first position at or after `i` holding Unicode whitespace, or the
/// end of the text.
pub open spec fn non_ws_end(s: Seq<char>, i: int) -> int
    recommends
        0 <= i <= s.len(),
    decreases s.len() - i,
{
    if i < 0 || i >= s.len() {
        i
    } else if is_unicode_ws(s[i]) {
        i
    } else {
        non_ws_end(s, i + 1)
    }
}

/// The first position at or after `i` that does not hold a non-blank
/// decimal digit, or the end of the text.
pub open spec fn digit_end(s: Seq<char>, i: int) -> int
    recommends
        0 <= i <= s.len(),
    decreases s.len() - i,
{
    if i < 0 || i >= s.len() {
        i
    } else if !is_unicode_ws(s[i]) && is_digit10(s[i]) {
        digit_end(s, i + 1)
    } else {
        i
    }
}

/// One pass of the freeform scan from position `i`: a `-` marks removal,
/// a letter starts a word taken to the next blank, a digit starts a run
/// of digits, blanks are skipped. The result is the removal mark, or
/// nothing where the scan meets a character that none of its steps can
/// consume and so stops making progress.
pub open spec fn legacy_scan(s: Seq<char>, i: int, removal: bool) -> Option<bool>
    recommends
        0 <= i <= s.len(),
    decreases s.len() - i,
{
    if i < 0 || i >= s.len() {
        Some(removal)
    } else if s[i] == '-' {
        legacy_scan(s, i + 1, true)
    } else if is_alpha(s[i]) {
        if i < non_ws_end(s, i) <= s.len() {
            legacy_scan(s, non_ws_end(s, i), removal)
        } else {
            None
        }
    } else if is_digit10(s[i]) {
        if i < digit_end(s, i) <= s.len() {
            legacy_scan(s, digit_end(s, i), removal)
        } else {
            None
        }
    } else if is_unicode_ws(s[i]) {
        legacy_scan(s, i + 1, removal)
    } else {
        None
    }
}

/// The first position of the text that is not Unicode whitespace.
pub open spec fn trim_start_at(s: Seq<char>, i: int) -> int
    recommends
        0 <= i <= s.len(),
    decreases s.len() - i,
{
    if i < 0 || i >= s.len() {
        i
    } else if is_unicode_ws(s[i]) {
        trim_start_at(s, i + 1)
    } else {
        i
    }
}

/// One past the last position before `i` that is not Unicode whitespace.
pub open spec fn trim_end_at(s: Seq<char>, i: int) -> int
    recommends
        0 <= i <= s.len(),
    decreases i,
{
    if i <= 0 {
        0
    } else if is_unicode_ws(s[i - 1]) {
        trim_end_at(s, i - 1)
    } else {
        i
    }
}

/// The text with Unicode whitespace removed from both ends.
pub open spec fn trimmed(s: Seq<char>) -> Seq<char> {
    let a = trim_start_at(s, 0);
    let b = trim_end_at(s, s.len() as int);
    if a >= b {
        Seq::empty()
    } else {
        s.subrange(a, b)
    }
}

/// The first position of `s` holding a space, or the end of the text.
pub open spec fn space_at(s: Seq<char>, i: int) -> int
    recommends
        0 <= i <= s.len(),
    decreases s.len() - i,
{
    if i < 0 || i >= s.len() {
        i
    } else if s[i] == ' ' {
        i
    } else {
        space_at(s, i + 1)
    }
}

/// What parsing a freeform line yields, given that its scan terminates:
/// the removal mark from the scan; the foil mark from a trailing `f`,
/// which is stripped; then, with a code provided at start-up, the rest
/// trimmed as the number, and otherwise the rest split at its first
/// space into set code and number — a rest with no space at all is
/// rejected, reporting the original line.
pub open spec fn legacy_parse_outcome(s: Seq<char>, provided: Option<Seq<char>>) -> Result<
    InputV,
    ParseErrorV,
> {
    let removal = legacy_scan(s, 0, false)->0;
    let foil = s.len() > 0 && s.last() == 'f';
    let body = if foil {
        s.drop_last()
    } else {
        s
    };
    match provided {
        Some(set) => Ok(
            InputV { card_number: trimmed(body), set_code: set, foil, removal },
        ),
        None => {
            let sp = space_at(body, 0);
            if sp < body.len() {
                Ok(
                    InputV {
                        card_number: body.subrange(sp + 1, body.len() as int),
                        set_code: body.subrange(0, sp),
                        foil,
                        removal,
                    },
                )
            } else {
                Err(ParseErrorV::UnparsableInput(s))
            }
        },
    }
}

/// Whether `c` is a decimal digit, matching `is_digit10`.
fn digit_char(c: char) -> (r: bool)
    ensures
        r == is_digit10(c),
{
    let u = c as u32;
    0x30 <= u && u <= 0x39
}

/// Runs the freeform scan: the removal mark, or nothing where the scan
/// stops making progress.
pub fn scan_line(s: &str) -> (r: Option<bool>)
    ensures
        r == legacy_scan(s@, 0, false),
{
    let len = s.unicode_len();
    let mut i: usize = 0;
    let mut removal = false;
    while i < len
        invariant
            i <= len,
            len == s@.len(),
            legacy_scan(s@, 0, false) == legacy_scan(s@, i as int, removal),
        decreases len - i,
    {
        let c = s.get_char(i);
        if c == '-' {
            removal = true;
            i = i + 1;
        } else if char_is_alphabetic(c) {
            let mut j: usize = i;
            while j < len && !char_is_whitespace(s.get_char(j))
                invariant
                    i <= j <= len,
                    len == s@.len(),
                    non_ws_end(s@, i as int) == non_ws_end(s@, j as int),
                decreases len - j,
            {
                j = j + 1;
            }
            if j == i {
                return None;
            }
            i = j;
        } else if digit_char(c) {
            let mut j: usize = i;
            while j < len && !char_is_whitespace(s.get_char(j)) && digit_char(s.get_char(j))
                invariant
                    i <= j <= len,
                    len == s@.len(),
                    digit_end(s@, i as int) == digit_end(s@, j as int),
                decreases len - j,
            {
                j = j + 1;
            }
            if j == i {
                return None;
            }
            i = j;
        } else if char_is_whitespace(c) {
            i = i + 1;
        } else {
            return None;
        }
    }
    Some(removal)
}

/// Trims Unicode whitespace from both ends, matching `trimmed`.
fn trim_str(s: &str) -> (r: String)
    ensures
        r@ == trimmed(s@),
{
    let len = s.unicode_len();
    let mut a: usize = 0;
    while a < len && char_is_whitespace(s.get_char(a))
        invariant
            a <= len,
            len == s@.len(),
            trim_start_at(s@, 0) == trim_start_at(s@, a as int),
        decreases len - a,
    {
        a = a + 1;
    }
    let mut b: usize = len;
    while b > 0 && char_is_whitespace(s.get_char(b - 1))
        invariant
            b <= len,
            len == s@.len(),
            trim_end_at(s@, len as int) == trim_end_at(s@, b as int),
        decreases b,
    {
        b = b - 1;
    }
    if a >= b {
        String::new()
    } else {
        s.substring_char(a, b).to_owned()
    }
}

/// Parses one freeform addition line, whose scan must terminate. The
/// result is exactly `legacy_parse_outcome` of the line and the code
/// provided at start-up.
pub fn parse_addition_input(input: String, provided_set_code: Option<String>) -> (r: Result<
    Input,
    ParseError,
>)
    requires
        legacy_scan(input@, 0, false) is Some,
    ensures
        (r matches Ok(inp) ==> legacy_parse_outcome(input@, provided_set_code.deep_view())
            == Ok::<InputV, ParseErrorV>(inp.deep_view())),
        (r matches Err(e) ==> legacy_parse_outcome(input@, provided_set_code.deep_view())
            == Err::<InputV, ParseErrorV>(e.deep_view())),
{
    let s = input.as_str();
    let len = s.unicode_len();
    let removal = match scan_line(s) {
        Some(r) => r,
        None => {
            proof {
                assert(false);
            }
            false
        },
    };
    let foil = len > 0 && s.get_char(len - 1) == 'f';
    let body: &str = if foil {
        s.substring_char(0, len - 1)
    } else {
        s
    };
    proof {
        if foil {
            assert(body@ =~= s@.drop_last());
        }
    }
    let body_len = if foil {
        len - 1
    } else {
        len
    };
    match provided_set_code {
        Some(set) => {
            let number = trim_str(body);
            Ok(Input { card_number: number, set_code: set, foil, removal })
        },
        None => {
            let mut sp: usize = 0;
            while sp < body_len && body.get_char(sp) != ' '
                invariant
                    sp <= body_len,
                    body_len == body@.len(),
                    space_at(body@, 0) == space_at(body@, sp as int),
                decreases body_len - sp,
            {
                sp = sp + 1;
            }
            if sp < body_len {
                let set_code = body.substring_char(0, sp).to_owned();
                let card_number = body.substring_char(sp + 1, body_len).to_owned();
                Ok(Input { card_number, set_code, foil, removal })
            } else {
                Err(ParseError::UnparsableInput(input.clone()))
            }
        },
    }
}

/// Parses one freeform addition line after checking that its scan
/// terminates: a line on which the scan would stop making progress
/// yields nothing.
pub fn try_parse_addition_input(input: String, provided_set_code: Option<String>) -> (r: Option<
    Result<Input, ParseError>,
>)
    ensures
        r is Some <==> legacy_scan(input@, 0, false) is Some,
        (r matches Some(inner) ==> (inner matches Ok(inp) ==> legacy_parse_outcome(
            input@,
            provided_set_code.deep_view(),
        ) == Ok::<InputV, ParseErrorV>(inp.deep_view())) && (inner matches Err(e)
            ==> legacy_parse_outcome(input@, provided_set_code.deep_view()) == Err::<
            InputV,
            ParseErrorV,
        >(e.deep_view()))),
{
    match scan_line(input.as_str()) {
        Some(_) => Some(parse_addition_input(input, provided_set_code)),
        None => None,
    }
}

} // verus!
