//! The pluggable scalar representation.
//!
//! The value algebra is generic over which concrete type backs leaf literal
//! values. [`ScalarValue`] is the minimal capability set the algebra needs:
//! each scalar has a mathematical model, can be cloned, compared and rendered,
//! and can be built from the primitives the construction helpers accept.

use vstd::prelude::*;
use crate::digits::{int_text, render_i32};

verus! {

/// Capabilities the value algebra requires of a scalar representation.
///
/// `M` is the mathematical model of a scalar: all contracts of the algebra
/// speak about scalars through it, so two scalars with equal models are
/// interchangeable as far as this crate's contracts go.
pub trait ScalarValue: Sized {
    /// Mathematical model of a scalar value.
    type M;

    /// The model of this scalar.
    spec fn m(&self) -> Self::M;

    /// Canonical text of a scalar with model `m`, as it appears inside a
    /// rendered literal.
    spec fn txt(m: Self::M) -> Seq<char>;

    /// Model of the scalar built from the string `t`.
    spec fn str_model(t: Seq<char>) -> Self::M;

    /// The string content of a scalar, if the scalar is a string.
    spec fn as_str_model(m: Self::M) -> Option<Seq<char>>;

    /// Model of the scalar built from the integer `v`.
    spec fn int_model(v: i32) -> Self::M;

    /// Model of the scalar built from the boolean `v`.
    spec fn bool_model(v: bool) -> Self::M;

    /// Clones the scalar; the clone has the same model.
    fn sv_clone(&self) -> (r: Self)
        ensures
            r.m() == self.m(),
    ;

    /// Compares two scalars by their models.
    fn sv_eq(&self, other: &Self) -> (r: bool)
        ensures
            r == (self.m() == other.m()),
    ;

    /// Renders the scalar in its canonical textual form.
    fn render(&self) -> (r: String)
        ensures
            r@ == Self::txt(self.m()),
    ;

    /// Builds a string scalar.
    fn from_string(s: String) -> (r: Self)
        ensures
            r.m() == Self::str_model(s@),
    ;

    /// Builds an integer scalar.
    fn from_int(v: i32) -> (r: Self)
        ensures
            r.m() == Self::int_model(v),
    ;

    /// Builds a boolean scalar.
    fn from_bool(v: bool) -> (r: Self)
        ensures
            r.m() == Self::bool_model(v),
    ;

    /// The string content of this scalar, if it is a string scalar.
    fn as_string(&self) -> (r: Option<&str>)
        ensures
            match r {
                Some(t) => Self::as_str_model(self.m()) == Some(t@),
                None => Self::as_str_model(self.m()) is None,
            },
    ;
}

/// Model of a [`DefaultScalarValue`].
pub enum ScalarModel {
    /// An integer scalar.
    Int(int),
    /// A string scalar.
    Str(Seq<char>),
    /// A boolean scalar.
    Bool(bool),
}

/// A ready-made scalar representation over the primitives the algebra's
/// construction helpers accept: integers, strings and booleans.
#[derive(Debug)]
pub enum DefaultScalarValue {
    /// An integer scalar, rendered in decimal.
    Int(i32),
    /// A string scalar, rendered in double quotes.
    String(String),
    /// A boolean scalar, rendered as `true` or `false`.
    Boolean(bool),
}

impl ScalarValue for DefaultScalarValue {
    type M = ScalarModel;

    open spec fn m(&self) -> ScalarModel {
        match self {
            DefaultScalarValue::Int(v) => ScalarModel::Int(*v as int),
            DefaultScalarValue::String(s) => ScalarModel::Str(s@),
            DefaultScalarValue::Boolean(b) => ScalarModel::Bool(*b),
        }
    }

    open spec fn txt(m: ScalarModel) -> Seq<char> {
        match m {
            ScalarModel::Int(v) => int_text(v),
            ScalarModel::Str(t) => seq!['"'] + t + seq!['"'],
            ScalarModel::Bool(b) => if b {
                "true"@
            } else {
                "false"@
            },
        }
    }

    open spec fn str_model(t: Seq<char>) -> ScalarModel {
        ScalarModel::Str(t)
    }

    open spec fn as_str_model(m: ScalarModel) -> Option<Seq<char>> {
        match m {
            ScalarModel::Str(t) => Some(t),
            _ => None,
        }
    }

    open spec fn int_model(v: i32) -> ScalarModel {
        ScalarModel::Int(v as int)
    }

    open spec fn bool_model(v: bool) -> ScalarModel {
        ScalarModel::Bool(v)
    }

    fn sv_clone(&self) -> (r: Self) {
        match self {
            DefaultScalarValue::Int(v) => DefaultScalarValue::Int(*v),
            DefaultScalarValue::String(s) => DefaultScalarValue::String(s.clone()),
            DefaultScalarValue::Boolean(b) => DefaultScalarValue::Boolean(*b),
        }
    }

    fn sv_eq(&self, other: &Self) -> (r: bool) {
        match (self, other) {
            (DefaultScalarValue::Int(a), DefaultScalarValue::Int(b)) => a == b,
            (DefaultScalarValue::String(a), DefaultScalarValue::String(b)) => a.eq(b),
            (DefaultScalarValue::Boolean(a), DefaultScalarValue::Boolean(b)) => a == b,
            _ => false,
        }
    }

    fn render(&self) -> (r: String) {
        match self {
            DefaultScalarValue::Int(v) => render_i32(*v),
            DefaultScalarValue::String(s) => {
                let mut out = String::new();
                out.append("\"");
                out.append(s.as_str());
                out.append("\"");
                proof {
                    reveal_strlit("\"");
                    assert(out@ =~= Self::txt(self.m()));
                }
                out
            }
            DefaultScalarValue::Boolean(b) => {
                if *b {
                    String::from_str("true")
                } else {
                    String::from_str("false")
                }
            }
        }
    }

    fn from_string(s: String) -> (r: Self) {
        DefaultScalarValue::String(s)
    }

    fn from_int(v: i32) -> (r: Self) {
        DefaultScalarValue::Int(v)
    }

    fn from_bool(v: bool) -> (r: Self) {
        DefaultScalarValue::Boolean(v)
    }

    fn as_string(&self) -> (r: Option<&str>) {
        match self {
            DefaultScalarValue::String(s) => Some(s.as_str()),
            _ => None,
        }
    }
}


/// String equality by content, stated over the views.
pub fn str_eq(a: &str, b: &str) -> (r: bool)
    ensures
        r == (a@ == b@),
{
    let x = a.to_owned();
    let y = b.to_owned();
    x == y
}

} // verus!
