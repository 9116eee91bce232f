//! The text of a quality-inspection parameter: which form it has and the
//! texts of its bounds or description.
use vstd::prelude::*;

use crate::error::Error;
use crate::text::{
    chars_of, extend_chars, find_chars, first_occurrence_from, str_eq, string_of, trim, trim_chars,
    trim_str,
};

verus! {

/// The marker between the bounds of a two-sided parameter.
pub open spec fn both_marker() -> Seq<char> {
    seq!['≤', 'V', '≤']
}

/// An ASCII digit or a decimal point.
pub open spec fn is_number_char(c: char) -> bool {
    ('0' <= c && c <= '9') || c == '.'
}

/// The last position before `j` that holds a digit or a decimal point.
pub open spec fn last_number_char(t: Seq<char>, j: int) -> Option<int>
    decreases j,
{
    if j <= 0 {
        None
    } else if is_number_char(t[j - 1]) {
        Some(j - 1)
    } else {
        last_number_char(t, j - 1)
    }
}

/// A number without the unit after it: the trimmed text up to its last
/// digit or decimal point (all of it when it has none), trimmed again.
pub open spec fn strip_unit(s: Seq<char>) -> Seq<char> {
    let t = trim(s);
    let end = match last_number_char(t, t.len() as int) {
        Some(k) => k + 1,
        None => t.len() as int,
    };
    trim(t.take(end))
}

/// `s` without the unit that follows its number, e.g. "50mm" gives "50".
pub fn strip_unit_suffix(s: &str) -> (r: String)
    ensures
        r@ == strip_unit(s@),
{
    let t = trim_chars(chars_of(s).as_slice());
    let mut j: usize = t.len();
    while j > 0 && !(('0' <= t[j - 1] && t[j - 1] <= '9') || t[j - 1] == '.')
        invariant
            j <= t.len(),
            last_number_char(t@, t@.len() as int) == last_number_char(t@, j as int),
        decreases j,
    {
        j = j - 1;
    }
    let end = if j == 0 {
        t.len()
    } else {
        j
    };
    let mut head: Vec<char> = Vec::new();
    let mut k: usize = 0;
    while k < end
        invariant
            end <= t.len(),
            k <= end,
            head@ =~= t@.take(k as int),
        decreases end - k,
    {
        head.push(t[k]);
        k = k + 1;
    }
    string_of(trim_chars(head.as_slice()).as_slice())
}

/// The form of a parameter and the texts it holds.
#[derive(Debug, Clone)]
pub enum ParamText {
    /// `lower≤V≤upper`: both bounds (the upper without its unit).
    BothBounds { lower: String, upper: String },
    /// `V≥lower`.
    LowerBound { lower: String },
    /// `V≤upper`.
    UpperBound { upper: String },
    /// `V=description`.
    Qualitative { description: String },
}

/// A parameter's form and texts as plain values.
pub enum ParamView {
    BothBounds(Seq<char>, Seq<char>),
    LowerBound(Seq<char>),
    UpperBound(Seq<char>),
    Qualitative(Seq<char>),
}

impl ParamText {
    pub open spec fn view(&self) -> ParamView {
        match self {
            ParamText::BothBounds { lower, upper } => ParamView::BothBounds(lower@, upper@),
            ParamText::LowerBound { lower } => ParamView::LowerBound(lower@),
            ParamText::UpperBound { upper } => ParamView::UpperBound(upper@),
            ParamText::Qualitative { description } => ParamView::Qualitative(description@),
        }
    }

    /// Whether the parameter bounds a measured value.
    pub fn is_quantitative(&self) -> (r: bool)
        ensures
            r == !(self is Qualitative),
    {
        match self {
            ParamText::Qualitative { .. } => false,
            _ => true,
        }
    }

    /// Whether the parameter names a required description.
    pub fn is_qualitative(&self) -> (r: bool)
        ensures
            r == (self is Qualitative),
    {
        match self {
            ParamText::Qualitative { .. } => true,
            _ => false,
        }
    }
}

/// `s` begins with the characters `a`, `b`.
pub open spec fn starts_with2(s: Seq<char>, a: char, b: char) -> bool {
    s.len() >= 2 && s[0] == a && s[1] == b
}

/// How a parameter text reads, in order of precedence: `lower≤V≤upper`,
/// `V=description`, `V≥lower`, `V≤upper`; `None` for a blank text (`Some(None)`
/// never occurs) — see `param_result`.
pub open spec fn param_form(raw: Seq<char>) -> Option<ParamView> {
    let s = trim(raw);
    match first_occurrence_from(s, both_marker(), 0) {
        Some(pos) => Some(ParamView::BothBounds(trim(s.take(pos)), strip_unit(s.skip(pos + 3)))),
        None => if starts_with2(s, 'V', '=') {
            Some(ParamView::Qualitative(s.skip(2)))
        } else if starts_with2(s, 'V', '≥') {
            Some(ParamView::LowerBound(trim(s.skip(2))))
        } else if starts_with2(s, 'V', '≤') {
            Some(ParamView::UpperBound(trim(s.skip(2))))
        } else {
            None
        },
    }
}

/// The message of a parameter text that has no known form.
pub open spec fn unrecognized_message(raw: Seq<char>) -> Seq<char> {
    "unrecognized param format: '"@ + raw + "'"@
}

/// Reads the form of a parameter text. A blank text is an error ("empty
/// param string"), and so is a text of no known form.
pub fn parse_param_text(raw: &str) -> (r: Result<ParamText, Error>)
    ensures
        trim(raw@).len() == 0 ==> (r matches Err(Error::DataError(m)) && m@
            == "empty param string"@),
        trim(raw@).len() > 0 ==> match param_form(raw@) {
            Some(p) => (r matches Ok(t) && t.view() == p),
            None => (r matches Err(Error::DataError(m)) && m@ == unrecognized_message(raw@)),
        },
{
    let s = trim_chars(chars_of(raw).as_slice());
    if s.len() == 0 {
        return Err(Error::DataError("empty param string".to_owned()));
    }
    let marker: Vec<char> = vec!['≤', 'V', '≤'];
    assert(marker@ =~= both_marker());
    match find_chars(s.as_slice(), marker.as_slice()) {
        Some(pos) => {
            proof {
                crate::text::lemma_first_occurrence_found(s@, both_marker(), 0);
            }
            let mut lower: Vec<char> = Vec::new();
            let mut k: usize = 0;
            while k < pos
                invariant
                    pos <= s.len(),
                    k <= pos,
                    lower@ =~= s@.take(k as int),
                decreases pos - k,
            {
                lower.push(s[k]);
                k = k + 1;
            }
            let mut upper: Vec<char> = Vec::new();
            let mut k2: usize = pos + 3;
            assert(pos + 3 <= s.len()) by {
                assert(crate::text::occurs_at(s@, both_marker(), pos as int));
            }
            while k2 < s.len()
                invariant
                    pos + 3 <= k2 <= s.len(),
                    upper@ =~= s@.subrange(pos + 3, k2 as int),
                decreases s.len() - k2,
            {
                upper.push(s[k2]);
                k2 = k2 + 1;
            }
            assert(upper@ =~= s@.skip(pos + 3));
            let lower_text = string_of(trim_chars(lower.as_slice()).as_slice());
            let upper_text = strip_unit_suffix(string_of(upper.as_slice()).as_str());
            return Ok(ParamText::BothBounds { lower: lower_text, upper: upper_text });
        },
        None => {},
    }
    if s.len() >= 2 && s[0] == 'V' && (s[1] == '=' || s[1] == '≥' || s[1] == '≤') {
        let mut rest: Vec<char> = Vec::new();
        let mut k: usize = 2;
        while k < s.len()
            invariant
                2 <= k <= s.len(),
                rest@ =~= s@.subrange(2, k as int),
            decreases s.len() - k,
        {
            rest.push(s[k]);
            k = k + 1;
        }
        assert(rest@ =~= s@.skip(2));
        if s[1] == '=' {
            return Ok(ParamText::Qualitative { description: string_of(rest.as_slice()) });
        }
        let text = string_of(trim_chars(rest.as_slice()).as_slice());
        if s[1] == '≥' {
            return Ok(ParamText::LowerBound { lower: text });
        }
        return Ok(ParamText::UpperBound { upper: text });
    }
    let mut msg: Vec<char> = Vec::new();
    extend_chars(&mut msg, "unrecognized param format: '");
    extend_chars(&mut msg, raw);
    extend_chars(&mut msg, "'");
    Err(Error::DataError(string_of(msg.as_slice())))
}

/// A test value that cannot be judged: blank once trimmed, or the marker
/// that stands for "no value".
pub open spec fn no_test_value(test_value: Seq<char>, empty_value_indicator: Seq<char>) -> bool {
    trim(test_value).len() == 0 || trim(test_value) == empty_value_indicator
}

/// The trimmed test value; an error ("empty test value") when it is blank or
/// the "no value" marker.
pub fn test_value_text(test_value: &str, empty_value_indicator: &str) -> (r: Result<String, Error>)
    ensures
        no_test_value(test_value@, empty_value_indicator@) ==> (r matches Err(Error::DataError(m))
            && m@ == "empty test value"@),
        !no_test_value(test_value@, empty_value_indicator@) ==> (r matches Ok(t) && t@ == trim(
            test_value@,
        )),
{
    let t = trim_str(test_value);
    if t.as_str().is_empty() || str_eq(t.as_str(), empty_value_indicator) {
        return Err(Error::DataError("empty test value".to_owned()));
    }
    Ok(t)
}

/// Judges a test value against a qualitative parameter: it passes when,
/// trimmed, it equals the pass value; a value that cannot be judged is an
/// error (see `test_value_text`).
pub fn recalc_qualitative(test_value: &str, empty_value_indicator: &str, pass_value: &str) -> (r: Result<
    bool,
    Error,
>)
    ensures
        no_test_value(test_value@, empty_value_indicator@) ==> (r matches Err(Error::DataError(m))
            && m@ == "empty test value"@),
        !no_test_value(test_value@, empty_value_indicator@) ==> r == Ok::<bool, Error>(
            trim(test_value@) == pass_value@,
        ),
{
    let t = test_value_text(test_value, empty_value_indicator)?;
    Ok(str_eq(t.as_str(), pass_value))
}

} // verus!
