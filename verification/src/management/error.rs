//! The ways in which occupying a seat can fail.

use vstd::prelude::*;

verus! {

/// Why a seat could not be occupied.
///
/// The operations report a failure as the text of its kind, see
/// [`SeatError::message`].
#[derive(Debug, Clone, Copy, PartialEq, Eq)]
pub enum SeatError {
    /// The seat is already taken.
    SeatAlreadyOccupied,
    /// No seat of the compartment has the number.
    InvalidSeatNumber,
    /// The train has no wagon at the index.
    InvalidWagonIndex,
    /// The wagon has no compartment at the index.
    InvalidCompartmentIndex,
    /// The compartment is of a shape whose seats cannot be occupied.
    UnsupportedCompartmentType,
}

impl SeatError {
    /// The text by which the failure is reported.
    pub open spec fn text(self) -> Seq<char> {
        match self {
            SeatError::SeatAlreadyOccupied => "Seat already occupied."@,
            SeatError::InvalidSeatNumber => "Invalid seat number."@,
            SeatError::InvalidWagonIndex => "Invalid wagon index."@,
            SeatError::InvalidCompartmentIndex => "Invalid compartment index."@,
            SeatError::UnsupportedCompartmentType => {
                "Cannot occupy seat in this compartment type."@
            },
        }
    }

    /// The text by which the failure is reported, as an owned string.
    pub fn message(&self) -> (s: String)
        ensures
            s@ == self.text(),
    {
        match self {
            SeatError::SeatAlreadyOccupied => "Seat already occupied.".to_owned(),
            SeatError::InvalidSeatNumber => "Invalid seat number.".to_owned(),
            SeatError::InvalidWagonIndex => "Invalid wagon index.".to_owned(),
            SeatError::InvalidCompartmentIndex => "Invalid compartment index.".to_owned(),
            SeatError::UnsupportedCompartmentType => {
                "Cannot occupy seat in this compartment type.".to_owned()
            },
        }
    }

    /// Two kinds of failure never share a text, so the text of a reported
    /// failure tells its kind.
    pub proof fn lemma_text_tells_kind(a: SeatError, b: SeatError)
        requires
            a.text() == b.text(),
        ensures
            a == b,
    {
        reveal_strlit("Seat already occupied.");
        reveal_strlit("Invalid seat number.");
        reveal_strlit("Invalid wagon index.");
        reveal_strlit("Invalid compartment index.");
        reveal_strlit("Cannot occupy seat in this compartment type.");
        let a_text = a.text();
        let b_text = b.text();
        assert(a_text.len() == b_text.len());
        assert(a_text[8] == b_text[8]);
    }
}

} // verus!
