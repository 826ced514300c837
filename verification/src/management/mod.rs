//! Train management: seats, compartments, wagons and trains.

use vstd::prelude::*;

pub mod chance;
pub mod compartment;
pub mod error;
pub mod laws;
pub mod layout;
pub mod sequences;
pub mod train;
pub mod wagon;

pub use error::SeatError;
pub use train::Train;
pub use wagon::Wagon;

verus! {

/// A numbered seat that is free or occupied.
///
/// A seat is conventionally displayed as its compartment's number followed by
/// its own, so seat 3 of compartment 1 reads "13".
#[derive(Debug, Clone, PartialEq)]
pub struct Seat {
    pub number: u32,
    pub is_occupied: bool,
}

impl Seat {
    /// A free seat with the given number.
    pub fn new(number: u32) -> (seat: Self)
        ensures
            seat == Seat::free(number),
    {
        Self { number, is_occupied: false }
    }

    /// The free seat numbered `number`.
    pub open spec fn free(number: u32) -> Seat {
        Seat { number, is_occupied: false }
    }

    /// The occupied seat numbered `number`.
    pub open spec fn taken(number: u32) -> Seat {
        Seat { number, is_occupied: true }
    }
}

/// The shape shared by all compartments of a wagon.
#[derive(Debug, Clone, PartialEq)]
pub enum WagonType {
    Seat6,
    Seat8,
    OpenSpace,
}

} // verus!
