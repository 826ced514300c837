//! Compartment management: the three shapes of compartment and what all of
//! them can do with their seats.

use vstd::prelude::*;

use crate::management::error::SeatError;
use crate::management::layout::{
    absent_before, free_numbers, free_numbers_of, lemma_free_numbers_of_step,
    lemma_free_numbers_step, lemma_position_found, not_occupied_before, open_space_rows,
    rows_view, seat6_rows, seat8_rows, CompartmentView,
};
use crate::management::{Seat, WagonType};

verus! {

/// What every compartment that stores rows of seats can do: occupy a seat,
/// tell whether a seat is occupied, and list the free seats.
///
/// An implementation hands out its rows; the three operations are written
/// once, over those rows.
pub trait SeatManagement: View<V = CompartmentView> + Sized {
    /// The rows of seats, in declaration order.
    fn rows(&self) -> (rows: &[Vec<Seat>])
        ensures
            rows_view(rows@) == self@.rows,
    ;

    /// The rows of seats, for changing them: what is written to the rows is
    /// written to the compartment, and nothing else of it changes.
    fn rows_mut(&mut self) -> (rows: &mut [Vec<Seat>])
        ensures
            rows_view(rows@) == old(self)@.rows,
            final(self)@ == (CompartmentView { rows: rows_view(final(rows)@), ..old(self)@ }),
    ;

    /// Occupies the first seat numbered `seat_number`.
    ///
    /// Fails, and changes nothing, if that seat is already occupied or if no
    /// seat has the number.
    #[verifier::loop_isolation(false)]
    fn occupy_seat(&mut self, seat_number: u32) -> (res: Result<(), String>)
        ensures
            match old(self)@.occupy(seat_number) {
                Ok(after) => res is Ok && final(self)@ == after,
                Err(kind) => res is Err && res->Err_0@ == kind.text() && final(self)@ == old(
                    self,
                )@,
            },
    {
        let ghost before = self@;
        let rows = self.rows_mut();
        let mut r: usize = 0;
        while r < rows.len()
            invariant
                r <= rows.len(),
                rows_view(rows@) == before.rows,
                absent_before(before.rows, seat_number, r as int, 0),
            decreases rows.len() - r,
        {
            let mut i: usize = 0;
            while i < rows[r].len()
                invariant
                    r < rows.len(),
                    i <= rows[r as int].len(),
                    rows_view(rows@) == before.rows,
                    absent_before(before.rows, seat_number, r as int, i as int),
                decreases rows[r as int].len() - i,
            {
                if rows[r][i].number == seat_number {
                    proof {
                        lemma_position_found(before, seat_number, r as int, i as int);
                    }
                    if rows[r][i].is_occupied {
                        return Err(SeatError::SeatAlreadyOccupied.message());
                    }
                    rows[r][i].is_occupied = true;
                    assert(rows_view(rows@) =~~= before.with_seat(
                        r as int,
                        i as int,
                        Seat::taken(seat_number),
                    ).rows);
                    return Ok(());
                }
                i += 1;
            }
            r += 1;
        }
        Err(SeatError::InvalidSeatNumber.message())
    }

    /// Whether some seat numbered `seat_number` is occupied; `false` where no
    /// seat has the number.
    fn is_seat_occupied(&self, seat_number: u32) -> (occupied: bool)
        ensures
            occupied == self@.is_occupied(seat_number),
    {
        let rows = self.rows();
        let mut r: usize = 0;
        while r < rows.len()
            invariant
                r <= rows.len(),
                rows_view(rows@) == self@.rows,
                not_occupied_before(self@.rows, seat_number, r as int, 0),
            decreases rows.len() - r,
        {
            let row = &rows[r];
            let mut i: usize = 0;
            while i < row.len()
                invariant
                    r < rows.len(),
                    i <= row.len(),
                    r < self@.rows.len(),
                    self@.rows[r as int] == row@,
                    not_occupied_before(self@.rows, seat_number, r as int, i as int),
                decreases row.len() - i,
            {
                if row[i].number == seat_number && row[i].is_occupied {
                    return true;
                }
                i += 1;
            }
            r += 1;
        }
        false
    }

    /// The numbers of the free seats, row by row in declaration order and
    /// within a row seat by seat.
    fn list_available_seats(&self) -> (numbers: Vec<u32>)
        ensures
            numbers@ == self@.available(),
    {
        let rows = self.rows();
        let mut numbers: Vec<u32> = Vec::new();
        let mut r: usize = 0;
        while r < rows.len()
            invariant
                r <= rows.len(),
                rows_view(rows@) == self@.rows,
                numbers@ == free_numbers_of(self@.rows.take(r as int)),
            decreases rows.len() - r,
        {
            let row = &rows[r];
            let mut i: usize = 0;
            while i < row.len()
                invariant
                    r < rows.len(),
                    i <= row.len(),
                    r < self@.rows.len(),
                    self@.rows[r as int] == row@,
                    numbers@ == free_numbers_of(self@.rows.take(r as int)) + free_numbers(
                        row@.take(i as int),
                    ),
                decreases row.len() - i,
            {
                if !row[i].is_occupied {
                    numbers.push(row[i].number);
                }
                proof {
                    lemma_free_numbers_step(row@, i as int);
                }
                i += 1;
            }
            proof {
                assert(row@.take(row.len() as int) == row@);
                lemma_free_numbers_of_step(self@.rows, r as int);
            }
            r += 1;
        }
        assert(self@.rows.take(r as int) == self@.rows);
        numbers
    }
}

/// Compartment structure having 6 seats
#[derive(Debug, Clone, PartialEq)]
pub struct Compartment6Seats {
    pub number: u8,
    pub rows: [Vec<Seat>; 3],
}

/// Compartment structure having 8 seats
#[derive(Debug, Clone, PartialEq)]
pub struct Compartment8Seats {
    pub number: u8,
    pub rows: [Vec<Seat>; 4],
}

/// Compartment structure in open space having 8 seats, but for the first and
/// the tenth of a wagon
#[derive(Debug, Clone, PartialEq)]
pub struct CompartmentOpenSpace {
    pub number: u8,
    pub rows: [Vec<Seat>; 4],
}

/// Compartment type combining compartment types
#[derive(Debug, Clone, PartialEq)]
pub enum CompartmentType {
    Seat6(Compartment6Seats),
    Seat8(Compartment8Seats),
    OpenSpace(CompartmentOpenSpace),
}

impl View for Compartment6Seats {
    type V = CompartmentView;

    open spec fn view(&self) -> CompartmentView {
        CompartmentView {
            shape: WagonType::Seat6,
            number: self.number,
            rows: rows_view(self.rows@),
        }
    }
}

impl View for Compartment8Seats {
    type V = CompartmentView;

    open spec fn view(&self) -> CompartmentView {
        CompartmentView {
            shape: WagonType::Seat8,
            number: self.number,
            rows: rows_view(self.rows@),
        }
    }
}

impl View for CompartmentOpenSpace {
    type V = CompartmentView;

    open spec fn view(&self) -> CompartmentView {
        CompartmentView {
            shape: WagonType::OpenSpace,
            number: self.number,
            rows: rows_view(self.rows@),
        }
    }
}

impl View for CompartmentType {
    type V = CompartmentView;

    open spec fn view(&self) -> CompartmentView {
        match self {
            CompartmentType::Seat6(comp) => comp@,
            CompartmentType::Seat8(comp) => comp@,
            CompartmentType::OpenSpace(comp) => comp@,
        }
    }
}

impl CompartmentType {
    /// Create new compartment
    pub fn new(wagon_type: &WagonType, number: u8) -> (compartment: Self)
        ensures
            compartment@ == CompartmentView::fresh(*wagon_type, number),
            compartment@.wf(),
    {
        match wagon_type {
            WagonType::Seat6 => CompartmentType::Seat6(Compartment6Seats::new(number)),
            WagonType::Seat8 => CompartmentType::Seat8(Compartment8Seats::new(number)),
            WagonType::OpenSpace => CompartmentType::OpenSpace(CompartmentOpenSpace::new(number)),
        }
    }

    /// List available seats for the specific compartment
    pub fn list_available_seats(&self) -> (numbers: Vec<u32>)
        ensures
            numbers@ == self@.available(),
    {
        match self {
            CompartmentType::Seat6(comp) => comp.list_available_seats(),
            CompartmentType::Seat8(comp) => comp.list_available_seats(),
            CompartmentType::OpenSpace(comp) => comp.list_available_seats(),
        }
    }
}

impl SeatManagement for Compartment6Seats {
    fn rows(&self) -> (rows: &[Vec<Seat>]) {
        &self.rows
    }

    fn rows_mut(&mut self) -> (rows: &mut [Vec<Seat>]) {
        &mut self.rows
    }
}

impl SeatManagement for Compartment8Seats {
    fn rows(&self) -> (rows: &[Vec<Seat>]) {
        &self.rows
    }

    fn rows_mut(&mut self) -> (rows: &mut [Vec<Seat>]) {
        &mut self.rows
    }
}

impl SeatManagement for CompartmentOpenSpace {
    fn rows(&self) -> (rows: &[Vec<Seat>]) {
        &self.rows
    }

    fn rows_mut(&mut self) -> (rows: &mut [Vec<Seat>]) {
        &mut self.rows
    }
}

impl Compartment6Seats {
    /// A compartment of six free seats: rows 5-6, 3-4 and 1-2.
    pub fn new(number: u8) -> (compartment: Self)
        ensures
            compartment@ == CompartmentView::fresh(WagonType::Seat6, number),
            compartment@.wf(),
    {
        let compartment = Self {
            number,
            rows: [
                vec![Seat::new(5), Seat::new(6)],
                vec![Seat::new(3), Seat::new(4)],
                vec![Seat::new(1), Seat::new(2)],
            ],
        };
        assert(compartment@.rows =~~= seat6_rows());
        compartment
    }
}

impl Compartment8Seats {
    /// A compartment of eight free seats: rows 5-6, 7-4, 3-8 and 1-2.
    pub fn new(number: u8) -> (compartment: Self)
        ensures
            compartment@ == CompartmentView::fresh(WagonType::Seat8, number),
            compartment@.wf(),
    {
        let compartment = Self {
            number,
            rows: [
                vec![Seat::new(5), Seat::new(6)],
                vec![Seat::new(7), Seat::new(4)],
                vec![Seat::new(3), Seat::new(8)],
                vec![Seat::new(1), Seat::new(2)],
            ],
        };
        assert(compartment@.rows =~~= seat8_rows());
        compartment
    }
}

impl CompartmentOpenSpace {
    /// An open-space compartment of free seats. The first of a wagon has six
    /// seats (rows 6, 4, 3-8, 1-2), the tenth four (rows 5, 7, 3, 1), any other
    /// the eight of [`Compartment8Seats`].
    pub fn new(number: u8) -> (compartment: Self)
        ensures
            compartment@ == CompartmentView::fresh(WagonType::OpenSpace, number),
            compartment@.wf(),
    {
        let compartment = if number == 1 {
            Self {
                number,
                rows: [
                    vec![Seat::new(6)],
                    vec![Seat::new(4)],
                    vec![Seat::new(3), Seat::new(8)],
                    vec![Seat::new(1), Seat::new(2)],
                ],
            }
        } else if number == 10 {
            Self {
                number,
                rows: [
                    vec![Seat::new(5)],
                    vec![Seat::new(7)],
                    vec![Seat::new(3)],
                    vec![Seat::new(1)],
                ],
            }
        } else {
            Self { number, rows: Compartment8Seats::new(number).rows }
        };
        assert(compartment@.rows =~~= open_space_rows(number));
        compartment
    }
}

} // verus!
