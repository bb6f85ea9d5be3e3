//! The tri-state model of one configuration field.
use vstd::prelude::*;

verus! {

/// One field as one source supplied it: not at all, present but unusable
/// (with the reason), or present with a usable value.
#[derive(Debug)]
pub enum FieldState<T> {
    Absent,
    Invalid(String),
    Valid(T),
}

/// The meaning of a `FieldState`, with the failure reason as characters.
pub enum FieldModel<V> {
    Absent,
    Invalid(Seq<char>),
    Valid(V),
}

impl<T: View> View for FieldState<T> {
    type V = FieldModel<T::V>;

    open spec fn view(&self) -> FieldModel<T::V> {
        match self {
            FieldState::Absent => FieldModel::Absent,
            FieldState::Invalid(e) => FieldModel::Invalid(e@),
            FieldState::Valid(v) => FieldModel::Valid(v@),
        }
    }
}

impl<V> FieldModel<V> {
    /// Precedence by presence: a present override wins, valid or not;
    /// an absent one leaves the base as it was.
    pub open spec fn overridden_by(self, over: FieldModel<V>) -> FieldModel<V> {
        if over is Absent {
            self
        } else {
            over
        }
    }
}

impl<T: View> FieldState<T> {
    /// This state laid over `base`: kept where present, else `base`.
    pub fn over(self, base: FieldState<T>) -> (r: FieldState<T>)
        ensures
            r@ == base@.overridden_by(self@),
    {
        match self {
            FieldState::Absent => base,
            other => other,
        }
    }
}

/// A value that a source either gave (and is then valid) or did not give.
pub fn ok_result_of<T>(value: Option<T>) -> (r: FieldState<T>)
    ensures
        match value {
            None => r is Absent,
            Some(v) => r == FieldState::Valid(v),
        },
{
    match value {
        None => FieldState::Absent,
        Some(v) => FieldState::Valid(v),
    }
}

} // verus!
