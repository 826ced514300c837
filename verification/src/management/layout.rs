//! The mathematical model of a compartment: a few rows of seats, read in
//! declaration order (row by row, and within a row seat by seat).

use vstd::prelude::*;

use crate::management::error::SeatError;
use crate::management::sequences::{
    lemma_flatten_contains, lemma_flatten_len_bound, lemma_flatten_len_update,
};
use crate::management::{Seat, WagonType};

verus! {

/// The rows of a compartment as sequences of seats.
pub open spec fn rows_view(rows: Seq<Vec<Seat>>) -> Seq<Seq<Seat>> {
    rows.map_values(|row: Vec<Seat>| row@)
}

/// `(r, i)` is the place of a seat: seat `i` of row `r`.
pub open spec fn in_rows(rows: Seq<Seq<Seat>>, r: int, i: int) -> bool {
    0 <= r < rows.len() && 0 <= i < rows[r].len()
}

/// Place `(r1, i1)` comes before place `(r2, i2)` in declaration order.
pub open spec fn comes_before(r1: int, i1: int, r2: int, i2: int) -> bool {
    r1 < r2 || (r1 == r2 && i1 < i2)
}

/// No seat before place `(r, i)` is numbered `n`.
pub open spec fn absent_before(rows: Seq<Seq<Seat>>, n: u32, r: int, i: int) -> bool {
    forall|r2: int, i2: int|
        in_rows(rows, r2, i2) && comes_before(r2, i2, r, i) ==> (#[trigger] rows[r2][i2]).number
            != n
}

/// No seat before place `(r, i)` is numbered `n` and occupied.
pub open spec fn not_occupied_before(rows: Seq<Seq<Seat>>, n: u32, r: int, i: int) -> bool {
    forall|r2: int, i2: int|
        in_rows(rows, r2, i2) && comes_before(r2, i2, r, i) ==> !((#[trigger] rows[r2][i2]).number
            == n && rows[r2][i2].is_occupied)
}

/// `(r, i)` is the place of the first seat numbered `n`.
pub open spec fn is_first_seat(rows: Seq<Seq<Seat>>, n: u32, r: int, i: int) -> bool {
    &&& in_rows(rows, r, i)
    &&& rows[r][i].number == n
    &&& absent_before(rows, n, r, i)
}

/// The numbers of the free seats of one row, in the order of the row.
pub open spec fn free_numbers(row: Seq<Seat>) -> Seq<u32> {
    row.filter(|s: Seat| !s.is_occupied).map_values(|s: Seat| s.number)
}

/// The numbers of the free seats of some rows, in declaration order.
pub open spec fn free_numbers_of(rows: Seq<Seq<Seat>>) -> Seq<u32> {
    rows.flat_map(|row: Seq<Seat>| free_numbers(row))
}

/// The rows of a new compartment of six seats.
pub open spec fn seat6_rows() -> Seq<Seq<Seat>> {
    seq![
        seq![Seat::free(5), Seat::free(6)],
        seq![Seat::free(3), Seat::free(4)],
        seq![Seat::free(1), Seat::free(2)],
    ]
}

/// The rows of a new compartment of eight seats.
pub open spec fn seat8_rows() -> Seq<Seq<Seat>> {
    seq![
        seq![Seat::free(5), Seat::free(6)],
        seq![Seat::free(7), Seat::free(4)],
        seq![Seat::free(3), Seat::free(8)],
        seq![Seat::free(1), Seat::free(2)],
    ]
}

/// The rows of a new open-space compartment, which depend on its position in
/// the wagon: the first has six seats, the tenth four, any other eight.
pub open spec fn open_space_rows(number: u8) -> Seq<Seq<Seat>> {
    if number == 1 {
        seq![
            seq![Seat::free(6)],
            seq![Seat::free(4)],
            seq![Seat::free(3), Seat::free(8)],
            seq![Seat::free(1), Seat::free(2)],
        ]
    } else if number == 10 {
        seq![
            seq![Seat::free(5)],
            seq![Seat::free(7)],
            seq![Seat::free(3)],
            seq![Seat::free(1)],
        ]
    } else {
        seat8_rows()
    }
}

/// The rows of a new compartment of the given shape and number.
pub open spec fn fresh_rows(shape: WagonType, number: u8) -> Seq<Seq<Seat>> {
    match shape {
        WagonType::Seat6 => seat6_rows(),
        WagonType::Seat8 => seat8_rows(),
        WagonType::OpenSpace => open_space_rows(number),
    }
}

/// What a compartment is: its shape, its number in the wagon and its rows of
/// seats.
pub struct CompartmentView {
    pub shape: WagonType,
    pub number: u8,
    pub rows: Seq<Seq<Seat>>,
}

impl CompartmentView {
    /// The new compartment of the given shape and number: every seat of its
    /// layout is free.
    pub open spec fn fresh(shape: WagonType, number: u8) -> CompartmentView {
        CompartmentView { shape, number, rows: fresh_rows(shape, number) }
    }

    /// The seat numbers are pairwise distinct.
    pub open spec fn wf(self) -> bool {
        forall|r1: int, i1: int, r2: int, i2: int|
            in_rows(self.rows, r1, i1) && in_rows(self.rows, r2, i2) && (
            #[trigger] self.rows[r1][i1]).number == (#[trigger] self.rows[r2][i2]).number ==> r1
                == r2 && i1 == i2
    }

    /// Some seat is numbered `n`.
    pub open spec fn has_seat(self, n: u32) -> bool {
        exists|r: int, i: int| in_rows(self.rows, r, i) && (#[trigger] self.rows[r][i]).number == n
    }

    /// Some seat is numbered `n` and occupied.
    pub open spec fn is_occupied(self, n: u32) -> bool {
        exists|r: int, i: int|
            in_rows(self.rows, r, i) && (#[trigger] self.rows[r][i]).number == n
                && self.rows[r][i].is_occupied
    }

    /// Some seat is numbered `n` and free.
    pub open spec fn is_free(self, n: u32) -> bool {
        exists|r: int, i: int|
            in_rows(self.rows, r, i) && (#[trigger] self.rows[r][i]).number == n
                && !self.rows[r][i].is_occupied
    }

    /// The place of the first seat numbered `n`, if there is one.
    pub open spec fn position_of(self, n: u32) -> Option<(int, int)> {
        if exists|p: (int, int)| is_first_seat(self.rows, n, p.0, p.1) {
            Some(choose|p: (int, int)| is_first_seat(self.rows, n, p.0, p.1))
        } else {
            None
        }
    }

    /// The numbers of the free seats in declaration order.
    pub open spec fn available(self) -> Seq<u32> {
        free_numbers_of(self.rows)
    }

    /// The compartment with the seat at place `(r, i)` replaced.
    pub open spec fn with_seat(self, r: int, i: int, seat: Seat) -> CompartmentView {
        CompartmentView { rows: self.rows.update(r, self.rows[r].update(i, seat)), ..self }
    }

    /// Whether the seats belong to the tracked pool, the seats that a wagon
    /// and a train list and occupy: those of every shape but the open space.
    pub open spec fn is_tracked(self) -> bool {
        self.shape != WagonType::OpenSpace
    }

    /// The free seats as a wagon lists them: those of the tracked pool, and
    /// none of an open-space compartment, whatever the state of its seats.
    pub open spec fn listed(self) -> Seq<u32> {
        if self.is_tracked() {
            self.available()
        } else {
            Seq::empty()
        }
    }

    /// The same compartment at a later time: the same seats at the same
    /// places, of which some more may be occupied, and none freed.
    pub open spec fn filled_from(self, before: CompartmentView) -> bool {
        &&& self.shape == before.shape
        &&& self.number == before.number
        &&& self.rows.len() == before.rows.len()
        &&& forall|r: int|
            0 <= r < self.rows.len() ==> (#[trigger] self.rows[r]).len() == before.rows[r].len()
        &&& forall|r: int, i: int|
            in_rows(self.rows, r, i) ==> {
                &&& (#[trigger] self.rows[r][i]).number == before.rows[r][i].number
                &&& before.rows[r][i].is_occupied ==> self.rows[r][i].is_occupied
            }
    }

    /// What occupying seat `n` does: the compartment with the first seat
    /// numbered `n` taken if that seat is free, the reason of the failure if it
    /// is taken or if no seat has the number.
    pub open spec fn occupy(self, n: u32) -> Result<CompartmentView, SeatError> {
        match self.position_of(n) {
            None => Err(SeatError::InvalidSeatNumber),
            Some((r, i)) => if self.rows[r][i].is_occupied {
                Err(SeatError::SeatAlreadyOccupied)
            } else {
                Ok(self.with_seat(r, i, Seat::taken(n)))
            },
        }
    }
}

/// Where the first seat numbered `n` is at `(r, i)`, that is its position.
pub proof fn lemma_position_found(c: CompartmentView, n: u32, r: int, i: int)
    requires
        is_first_seat(c.rows, n, r, i),
    ensures
        c.position_of(n) == Some((r, i)),
        c.has_seat(n),
{
    let here = (r, i);
    assert(is_first_seat(c.rows, n, here.0, here.1));
}

/// A position is the place of the first seat with the number.
pub proof fn lemma_position_is_first(c: CompartmentView, n: u32)
    ensures
        match c.position_of(n) {
            Some((r, i)) => is_first_seat(c.rows, n, r, i),
            None => !c.has_seat(n),
        },
{
    if c.has_seat(n) {
        let (r, i) = choose|r: int, i: int|
            in_rows(c.rows, r, i) && (#[trigger] c.rows[r][i]).number == n;
        lemma_first_exists(c.rows, n, r, i);
        let (r0, i0) = choose|r0: int, i0: int| is_first_seat(c.rows, n, r0, i0);
        assert(is_first_seat(c.rows, n, (r0, i0).0, (r0, i0).1));
    }
}

/// Where a seat is numbered `n`, a first such seat exists.
pub proof fn lemma_first_exists(rows: Seq<Seq<Seat>>, n: u32, r: int, i: int)
    requires
        in_rows(rows, r, i),
        rows[r][i].number == n,
    ensures
        exists|r0: int, i0: int| is_first_seat(rows, n, r0, i0),
    decreases r, i,
{
    if absent_before(rows, n, r, i) {
        assert(is_first_seat(rows, n, r, i));
    } else {
        let (r2, i2) = choose|r2: int, i2: int|
            in_rows(rows, r2, i2) && comes_before(r2, i2, r, i) && (#[trigger] rows[r2][i2]).number
                == n;
        lemma_first_exists(rows, n, r2, i2);
    }
}

/// The free numbers of a row grow seat by seat: a free seat adds its number,
/// an occupied one adds nothing.
pub proof fn lemma_free_numbers_step(row: Seq<Seat>, i: int)
    requires
        0 <= i < row.len(),
    ensures
        free_numbers(row.take(i + 1)) == if row[i].is_occupied {
            free_numbers(row.take(i))
        } else {
            free_numbers(row.take(i)).push(row[i].number)
        },
        free_numbers(row.take(0)) == Seq::<u32>::empty(),
{
    let free = |s: Seat| !s.is_occupied;
    assert(row.take(i + 1) == row.take(i).push(row[i]));
    row.take(i).lemma_filter_push(row[i], free);
}

/// The free numbers of some rows grow row by row.
pub proof fn lemma_free_numbers_of_step(rows: Seq<Seq<Seat>>, r: int)
    requires
        0 <= r < rows.len(),
    ensures
        free_numbers_of(rows.take(r + 1)) == free_numbers_of(rows.take(r)) + free_numbers(rows[r]),
        free_numbers_of(rows.take(0)) == Seq::<u32>::empty(),
{
    let per_row = |row: Seq<Seat>| free_numbers(row);
    assert(rows.take(r + 1).map_values(per_row) == rows.take(r).map_values(per_row).push(
        free_numbers(rows[r]),
    ));
    rows.take(r).map_values(per_row).lemma_flatten_push(free_numbers(rows[r]));
}

/// Taking a free seat of a row removes its number from the free numbers of
/// the row, and nothing else.
pub proof fn lemma_row_loses_one(row: Seq<Seat>, i: int)
    requires
        0 <= i < row.len(),
        !row[i].is_occupied,
    ensures
        free_numbers(row) == free_numbers(row.take(i)) + seq![row[i].number] + free_numbers(
            row.skip(i + 1),
        ),
        free_numbers(row.update(i, Seat::taken(row[i].number))) == free_numbers(row.take(i))
            + free_numbers(row.skip(i + 1)),
{
    let free = |s: Seat| !s.is_occupied;
    let head = row.take(i);
    let tail = row.skip(i + 1);
    let taken = Seat::taken(row[i].number);
    let was = Seq::<Seat>::empty().push(row[i]);
    let is = Seq::<Seat>::empty().push(taken);
    assert(row =~= head + was + tail);
    assert(row.update(i, taken) =~= head + is + tail);
    Seq::<Seat>::empty().lemma_filter_push(row[i], free);
    Seq::<Seat>::empty().lemma_filter_push(taken, free);
    Seq::<Seat>::empty().lemma_filter_len(free);
}

/// Occupying a seat with success takes exactly one seat: the compartment is
/// the same but for that seat, which is now occupied, and it has one free seat
/// less.
pub proof fn lemma_occupy_takes_one(c: CompartmentView, n: u32)
    requires
        c.occupy(n) is Ok,
    ensures
        c.occupy(n)->Ok_0.filled_from(c),
        c.occupy(n)->Ok_0.available().len() + 1 == c.available().len(),
        c.occupy(n)->Ok_0.is_occupied(n),
        c.is_free(n),
{
    let (r, i) = c.position_of(n)->Some_0;
    let after = c.with_seat(r, i, Seat::taken(n));
    assert(in_rows(after.rows, r, i) && after.rows[r][i] == Seat::taken(n));
    let per_row = |row: Seq<Seat>| free_numbers(row);
    assert(after.rows.map_values(per_row) =~= c.rows.map_values(per_row).update(
        r,
        free_numbers(after.rows[r]),
    ));
    lemma_flatten_len_update(c.rows.map_values(per_row), r, free_numbers(after.rows[r]));
    lemma_row_loses_one(c.rows[r], i);
}

/// The free numbers of a row are the numbers of its free seats.
pub proof fn lemma_free_numbers_contains(row: Seq<Seat>, n: u32)
    ensures
        free_numbers(row).contains(n) <==> exists|i: int|
            0 <= i < row.len() && (#[trigger] row[i]).number == n && !row[i].is_occupied,
{
    let free = |s: Seat| !s.is_occupied;
    let kept = row.filter(free);
    if free_numbers(row).contains(n) {
        let j = choose|j: int| 0 <= j < free_numbers(row).len() && free_numbers(row)[j] == n;
        row.lemma_filter_contains_rev(free, kept[j]);
    }
    if exists|i: int| 0 <= i < row.len() && (#[trigger] row[i]).number == n && !row[i].is_occupied {
        let i = choose|i: int|
            0 <= i < row.len() && (#[trigger] row[i]).number == n && !row[i].is_occupied;
        row.lemma_filter_contains(free, i);
        let j = choose|j: int| 0 <= j < kept.len() && kept[j] == row[i];
        assert(free_numbers(row)[j] == n);
    }
}

/// The list of available seats of a compartment holds the numbers of its free
/// seats.
pub proof fn lemma_available_contains(c: CompartmentView, n: u32)
    ensures
        c.available().contains(n) <==> c.is_free(n),
{
    let per_row = |row: Seq<Seat>| free_numbers(row);
    let lists = c.rows.map_values(per_row);
    lemma_flatten_contains(lists, n);
    if c.available().contains(n) {
        let r = choose|r: int| 0 <= r < lists.len() && (#[trigger] lists[r]).contains(n);
        lemma_free_numbers_contains(c.rows[r], n);
    }
    if c.is_free(n) {
        let (r, i) = choose|r: int, i: int|
            in_rows(c.rows, r, i) && (#[trigger] c.rows[r][i]).number == n
                && !c.rows[r][i].is_occupied;
        lemma_free_numbers_contains(c.rows[r], n);
        assert(lists[r].contains(n));
    }
}

/// A new compartment lists eight seats at most.
pub proof fn lemma_new_compartment_lists_few(shape: WagonType, number: u8)
    ensures
        CompartmentView::fresh(shape, number).listed().len() <= 8,
{
    let rows = fresh_rows(shape, number);
    let per_row = |row: Seq<Seat>| free_numbers(row);
    let lists = rows.map_values(per_row);
    assert forall|r: int| 0 <= r < lists.len() implies (#[trigger] lists[r]).len() <= 2 by {
        rows[r].lemma_filter_len(|s: Seat| !s.is_occupied);
        assert(rows[r].len() <= 2);
    }
    assert(lists.len() <= 4);
    lemma_flatten_len_bound(lists, 2);
    assert(lists.len() * 2 <= 8);
}

} // verus!
