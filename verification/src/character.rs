//! The character classifier: one decoded Unicode scalar value, or the
//! end-of-input sentinel, together with the classification queries the lexer
//! asks of it.

use vstd::prelude::*;

verus! {

/// One unit handed to the lexer by the decoder: a Unicode scalar value, or
/// the end-of-input marker (the decoder's end-of-stream and no-data states
/// both collapse into `End`, which the lexer treats alike).
#[derive(Clone, Copy, Debug, PartialEq, Eq, Structural)]
pub enum CharValue {
    Scalar(char),
    End,
}

/// Names the result of `char::is_alphabetic`, which vstd gives no
/// specification: whether the scalar has the Unicode `Alphabetic` property.
pub uninterp spec fn alphabetic(c: char) -> bool;

/// Names the result of `char::is_alphanumeric`, which vstd gives no
/// specification: whether the scalar has the Unicode `Alphabetic` property
/// or is numeric.
pub uninterp spec fn alphanumeric(c: char) -> bool;

/// The Unicode `White_Space` property, written out: its code points form a
/// short, fixed list, so the result of `char::is_whitespace` can be stated
/// exactly.
pub open spec fn unicode_whitespace(c: char) -> bool {
    c == ' ' || c == '\t' || c == '\n' || c == '\r' || c == '\u{b}' || c == '\u{c}'
        || c == '\u{85}' || c == '\u{a0}' || c == '\u{1680}' || ('\u{2000}' <= c && c
        <= '\u{200a}') || c == '\u{2028}' || c == '\u{2029}' || c == '\u{202f}' || c == '\u{205f}'
        || c == '\u{3000}'
}

/// The ASCII decimal digits, the only characters `char::is_digit(10)`
/// accepts.
pub open spec fn digit_char(c: char) -> bool {
    '0' <= c && c <= '9'
}

/// Relies on `char::is_alphabetic`: returns whether the scalar has the
/// Unicode `Alphabetic` property. That property excludes the ASCII digits
/// and every `White_Space` code point.
pub assume_specification[ char::is_alphabetic ](c: char) -> (r: bool)
    ensures
        r == alphabetic(c),
        digit_char(c) ==> !r,
        unicode_whitespace(c) ==> !r,
;

/// Relies on `char::is_alphanumeric`: returns whether the scalar is
/// alphabetic or numeric. Every such scalar is outside the `White_Space`
/// set, and the ASCII digits are all accepted.
pub assume_specification[ char::is_alphanumeric ](c: char) -> (r: bool)
    ensures
        r == alphanumeric(c),
        r ==> !unicode_whitespace(c),
        digit_char(c) ==> r,
        alphabetic(c) ==> r,
;

/// Relies on `char::is_whitespace`: returns whether the scalar has the
/// Unicode `White_Space` property, whose code points `unicode_whitespace`
/// lists in full.
pub assume_specification[ char::is_whitespace ](c: char) -> (r: bool)
    ensures
        r == unicode_whitespace(c),
;

/// The classifier's view of an alphabetic unit.
pub open spec fn cv_alphabetic(v: CharValue) -> bool {
    v matches CharValue::Scalar(c) && alphabetic(c)
}

/// The classifier's view of an alphanumeric unit.
pub open spec fn cv_alphanumeric(v: CharValue) -> bool {
    v matches CharValue::Scalar(c) && alphanumeric(c)
}

/// The classifier's view of a decimal-digit unit.
pub open spec fn cv_digit(v: CharValue) -> bool {
    v matches CharValue::Scalar(c) && digit_char(c)
}

/// The classifier's view of a whitespace unit.
pub open spec fn cv_whitespace(v: CharValue) -> bool {
    v matches CharValue::Scalar(c) && unicode_whitespace(c)
}

/// The classifier's view of a newline unit: carriage return or line feed.
pub open spec fn cv_newline(v: CharValue) -> bool {
    v matches CharValue::Scalar(c) && (c == '\r' || c == '\n')
}

/// Whether the unit is the given scalar; the end-of-input sentinel equals no
/// scalar.
pub open spec fn cv_is(v: CharValue, c: char) -> bool {
    v == CharValue::Scalar(c)
}

/// A scalar that is neither alphabetic, a digit, nor whitespace: the lexer's
/// residual class (punctuation, operators, anything invalid).
pub open spec fn cv_other(v: CharValue) -> bool {
    v is Scalar && !cv_alphabetic(v) && !cv_digit(v) && !cv_whitespace(v)
}

/// The four classes a scalar can fall in, as the lexer tells them apart.
#[derive(Clone, Copy, Debug, PartialEq, Eq, Structural)]
pub enum CharClass {
    Alphabetic,
    Digit,
    Whitespace,
    Other,
}

/// Wraps exactly one decoded unit and answers classification queries about
/// it. It has no other state and no side effects.
#[derive(Clone, Copy, Debug)]
pub struct Char {
    value: CharValue,
}

impl View for Char {
    type V = CharValue;

    closed spec fn view(&self) -> CharValue {
        self.value
    }
}

impl Char {
    pub fn new(value: CharValue) -> (r: Self)
        ensures
            r@ == value,
    {
        Self { value }
    }

    pub fn is_alphabetic(&self) -> (r: bool)
        ensures
            r == cv_alphabetic(self@),
            r ==> !cv_digit(self@) && !cv_whitespace(self@),
    {
        match self.value {
            CharValue::Scalar(c) => c.is_alphabetic(),
            CharValue::End => false,
        }
    }

    pub fn is_alphanumeric(&self) -> (r: bool)
        ensures
            r == cv_alphanumeric(self@),
            r ==> !cv_whitespace(self@),
    {
        match self.value {
            CharValue::Scalar(c) => c.is_alphanumeric(),
            CharValue::End => false,
        }
    }

    pub fn is_eof(&self) -> (r: bool)
        ensures
            r == (self@ is End),
    {
        match self.value {
            CharValue::Scalar(_) => false,
            CharValue::End => true,
        }
    }

    /// Accepts exactly the ASCII decimal digits, as `char::is_digit(10)`
    /// does.
    pub fn is_digit(&self) -> (r: bool)
        ensures
            r == cv_digit(self@),
    {
        match self.value {
            CharValue::Scalar(c) => '0' <= c && c <= '9',
            CharValue::End => false,
        }
    }

    pub fn is_whitespace(&self) -> (r: bool)
        ensures
            r == cv_whitespace(self@),
    {
        match self.value {
            CharValue::Scalar(c) => c.is_whitespace(),
            CharValue::End => false,
        }
    }

    /// The wrapped scalar. Materializing a character out of the end-of-input
    /// sentinel is a programming error, so that input is excluded.
    pub fn as_char(&self) -> (r: char)
        requires
            self@ is Scalar,
        ensures
            self@ == CharValue::Scalar(r),
    {
        match self.value {
            CharValue::Scalar(c) => c,
            CharValue::End => {
                // excluded by the precondition
                proof {
                    assert(false);
                }
                ' '
            },
        }
    }

    pub fn is_newline(&self) -> (r: bool)
        ensures
            r == cv_newline(self@),
    {
        self.eq_char('\r') || self.eq_char('\n')
    }

    /// Equality against a literal character; symmetric by construction.
    pub fn eq_char(&self, other: char) -> (r: bool)
        ensures
            r == cv_is(self@, other),
    {
        match self.value {
            CharValue::Scalar(c) => c == other,
            CharValue::End => false,
        }
    }

    /// Sorts a scalar into exactly one of the four classes the lexer
    /// distinguishes: for every decoded non-end-of-input unit, precisely one
    /// of alphabetic, digit, whitespace, or other holds.
    pub fn classify(&self) -> (r: CharClass)
        requires
            self@ is Scalar,
        ensures
            r is Alphabetic <==> cv_alphabetic(self@),
            r is Digit <==> cv_digit(self@),
            r is Whitespace <==> cv_whitespace(self@),
            r is Other <==> cv_other(self@),
    {
        if self.is_alphabetic() {
            CharClass::Alphabetic
        } else if self.is_digit() {
            CharClass::Digit
        } else if self.is_whitespace() {
            CharClass::Whitespace
        } else {
            CharClass::Other
        }
    }
}

} // verus!
