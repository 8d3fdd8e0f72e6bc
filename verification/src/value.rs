//! The values a request parameter can take.

use crate::decimal::{decimal, decimal_text};
use crate::percent::{percent_encode, percent_encoded};
use vstd::prelude::*;
use vstd::string::StringExecFns;

verus! {

/// A parameter value that can be signed and sent: a text, a number or a
/// boolean.
#[derive(Debug)]
pub enum ScalarValue {
    /// A text; percent-encoded wherever it is signed.
    Text(String),
    /// A whole number.
    Integer(i64),
    /// A whole number too large for `Integer`.
    Unsigned(u64),
    /// A number with a fraction or an exponent, as its decimal text. The text
    /// is written out as it stands.
    Decimal(String),
    /// A boolean.
    Bool(bool),
}

/// What a [`ScalarValue`] stands for. Whole numbers are one kind here,
/// whichever variant held them.
pub enum ScalarView {
    Text(Seq<char>),
    Integer(int),
    Decimal(Seq<char>),
    Bool(bool),
}

/// A value as a request template may hold it: a scalar, or one of the kinds
/// that cannot be a request parameter.
#[derive(Debug)]
pub enum TemplateValue {
    /// A value that can be signed and sent.
    Scalar(ScalarValue),
    /// An explicit null.
    Null,
    /// A list of values.
    Array,
    /// A nested object.
    Object,
}

/// The decimal form of an integer, with a minus sign where it is negative.
pub open spec fn signed_decimal(n: int) -> Seq<char> {
    if n < 0 {
        seq!['-'] + decimal((-n) as nat)
    } else {
        decimal(n as nat)
    }
}

impl ScalarView {
    /// The literal text of the value: a text itself, a number in decimal,
    /// `true` or `false`.
    pub open spec fn plain(self) -> Seq<char> {
        match self {
            ScalarView::Text(t) => t,
            ScalarView::Integer(n) => signed_decimal(n),
            ScalarView::Decimal(t) => t,
            ScalarView::Bool(b) => if b {
                "true"@
            } else {
                "false"@
            },
        }
    }

    /// The value as it enters a signature: a text percent-encoded, a number
    /// or a boolean as its literal text.
    pub open spec fn signed(self) -> Seq<char> {
        match self {
            ScalarView::Text(t) => percent_encoded(t),
            _ => self.plain(),
        }
    }
}

impl View for ScalarValue {
    type V = ScalarView;

    open spec fn view(&self) -> ScalarView {
        match self {
            ScalarValue::Text(t) => ScalarView::Text(t@),
            ScalarValue::Integer(n) => ScalarView::Integer(*n as int),
            ScalarValue::Unsigned(n) => ScalarView::Integer(*n as int),
            ScalarValue::Decimal(t) => ScalarView::Decimal(t@),
            ScalarValue::Bool(b) => ScalarView::Bool(*b),
        }
    }
}

impl Clone for ScalarValue {
    fn clone(&self) -> (copy: Self)
        ensures
            copy == *self,
    {
        match self {
            ScalarValue::Text(t) => ScalarValue::Text(t.clone()),
            ScalarValue::Integer(n) => ScalarValue::Integer(*n),
            ScalarValue::Unsigned(n) => ScalarValue::Unsigned(*n),
            ScalarValue::Decimal(t) => ScalarValue::Decimal(t.clone()),
            ScalarValue::Bool(b) => ScalarValue::Bool(*b),
        }
    }
}

/// Writes an integer in decimal, with a minus sign where it is negative.
pub fn signed_decimal_text(n: i64) -> (out: String)
    ensures
        out@ == signed_decimal(n as int),
{
    if n < 0 {
        let magnitude: u64 = (-(n + 1)) as u64 + 1;
        let digits = decimal_text(magnitude);
        let mut out = String::new();
        out.push('-');
        out.append(digits.as_str());
        out
    } else {
        decimal_text(n as u64)
    }
}

impl ScalarValue {
    /// The literal text of the value.
    pub fn plain_text(&self) -> (out: String)
        ensures
            out@ == self@.plain(),
    {
        match self {
            ScalarValue::Text(t) => t.clone(),
            ScalarValue::Integer(n) => signed_decimal_text(*n),
            ScalarValue::Unsigned(n) => decimal_text(*n),
            ScalarValue::Decimal(t) => t.clone(),
            ScalarValue::Bool(b) => if *b {
                "true".to_owned()
            } else {
                "false".to_owned()
            },
        }
    }

    /// The value as it enters a signature.
    pub fn signed_text(&self) -> (out: String)
        ensures
            out@ == self@.signed(),
    {
        match self {
            ScalarValue::Text(t) => percent_encode(t.as_str()),
            _ => self.plain_text(),
        }
    }
}

impl TemplateValue {
    /// Whether the value can be a request parameter.
    pub open spec fn supported(self) -> bool {
        self is Scalar
    }

    /// Whether the value can be a request parameter.
    pub fn is_supported(&self) -> (r: bool)
        ensures
            r == self.supported(),
    {
        match self {
            TemplateValue::Scalar(_) => true,
            _ => false,
        }
    }
}

} // verus!
