//! What holds of compartments, wagons and trains, whatever their state:
//! statements that relate several operations, each proved from the models
//! that the contracts of the operations speak of.

use vstd::prelude::*;

use crate::management::error::SeatError;
use crate::management::layout::{
    comes_before, free_numbers, in_rows, lemma_available_contains, lemma_free_numbers_contains,
    lemma_occupy_takes_one, lemma_position_is_first, lemma_row_loses_one, CompartmentView,
};
use crate::management::sequences::{
    lemma_flatten_contains, lemma_flatten_empty, lemma_flatten_split,
};
use crate::management::Seat;
use crate::management::train::TrainView;
use crate::management::wagon::WagonView;
use crate::management::WagonType;

verus! {

/// In a new compartment the seat numbers are pairwise distinct, whatever its
/// shape and its number in the wagon.
pub proof fn law_new_compartment_has_distinct_numbers(shape: WagonType, number: u8)
    ensures
        CompartmentView::fresh(shape, number).wf(),
{
}

/// In a new compartment every seat is free and numbered from 1 to 8, from 1
/// to 6 in a compartment of six seats.
pub proof fn law_new_compartment_seats_are_free(shape: WagonType, number: u8, r: int, i: int)
    requires
        in_rows(CompartmentView::fresh(shape, number).rows, r, i),
    ensures
        !CompartmentView::fresh(shape, number).rows[r][i].is_occupied,
        1 <= CompartmentView::fresh(shape, number).rows[r][i].number <= 8,
        shape == WagonType::Seat6 ==> CompartmentView::fresh(shape, number).rows[r][i].number <= 6,
{
}

/// A compartment keeps its seats and their numbers while it is filled: where
/// the numbers were pairwise distinct they still are, and the set of declared
/// numbers is the same.
pub proof fn law_filling_keeps_the_numbers(after: CompartmentView, before: CompartmentView, n: u32)
    requires
        after.filled_from(before),
    ensures
        before.wf() ==> after.wf(),
        after.has_seat(n) <==> before.has_seat(n),
{
    if before.has_seat(n) {
        let (r, i) = choose|r: int, i: int|
            in_rows(before.rows, r, i) && (#[trigger] before.rows[r][i]).number == n;
        assert(in_rows(after.rows, r, i) && after.rows[r][i].number == n);
    }
}

/// A wagon whose compartments have its shape, their places as numbers and
/// distinct seat numbers keeps all that while it is filled.
pub proof fn law_filling_keeps_wagon_well_formed(after: WagonView, before: WagonView)
    requires
        after.filled_from(before),
        before.wf(),
    ensures
        after.wf(),
{
}

/// Occupying a seat keeps the seat numbers pairwise distinct.
pub proof fn law_occupy_keeps_numbers_distinct(c: CompartmentView, n: u32)
    requires
        c.wf(),
        c.occupy(n) is Ok,
    ensures
        c.occupy(n)->Ok_0.wf(),
{
}

/// Occupying a seat that exists and is not occupied succeeds, and the seat is
/// occupied afterwards.
pub proof fn law_occupy_free_seat_succeeds(c: CompartmentView, n: u32)
    requires
        c.has_seat(n),
        !c.is_occupied(n),
    ensures
        c.occupy(n) is Ok,
        c.occupy(n)->Ok_0.is_occupied(n),
{
    lemma_position_is_first(c, n);
    lemma_occupy_takes_one(c, n);
}

/// Occupying a seat takes its number from the list of available seats, at
/// the first place where the list holds it, and leaves the others in their
/// order.
pub proof fn law_occupy_removes_the_number(c: CompartmentView, n: u32)
    requires
        c.occupy(n) is Ok,
    ensures
        c.occupy(n)->Ok_0.available() == c.available().remove_value(n),
{
    let (r, i) = c.position_of(n)->Some_0;
    let after = c.occupy(n)->Ok_0;
    let per_row = |row: Seq<Seat>| free_numbers(row);
    let lists = c.rows.map_values(per_row);
    let row = c.rows[r];
    let before_seat = lists.take(r).flatten() + free_numbers(row.take(i));
    let after_seat = free_numbers(row.skip(i + 1)) + lists.skip(r + 1).flatten();
    assert(after.rows.map_values(per_row) =~= lists.update(r, free_numbers(after.rows[r])));
    lemma_flatten_split(lists, r);
    lemma_flatten_split(lists.update(r, free_numbers(after.rows[r])), r);
    assert(lists.update(r, free_numbers(after.rows[r])).take(r) =~= lists.take(r));
    assert(lists.update(r, free_numbers(after.rows[r])).skip(r + 1) =~= lists.skip(r + 1));
    lemma_row_loses_one(row, i);
    assert(c.available() =~= before_seat + seq![n] + after_seat);
    assert(after.available() =~= before_seat + after_seat);
    assert(!before_seat.contains(n)) by {
        lemma_flatten_contains(lists.take(r), n);
        if lists.take(r).flatten().contains(n) {
            let r2 = choose|r2: int| 0 <= r2 < r && (#[trigger] lists.take(r)[r2]).contains(n);
            lemma_free_numbers_contains(c.rows[r2], n);
            let i2 = choose|i2: int|
                0 <= i2 < c.rows[r2].len() && (#[trigger] c.rows[r2][i2]).number == n;
            assert(in_rows(c.rows, r2, i2) && comes_before(r2, i2, r, i));
        }
        lemma_free_numbers_contains(row.take(i), n);
        if free_numbers(row.take(i)).contains(n) {
            let i2 = choose|i2: int| 0 <= i2 < i && (#[trigger] row.take(i)[i2]).number == n;
            assert(in_rows(c.rows, r, i2) && comes_before(r, i2, r, i));
        }
    }
    let at = before_seat.len() as int;
    c.available().index_of_first_ensures(n);
    assert(c.available()[at] == n);
    assert(c.available().index_of_first(n) == Some(at));
    assert(c.available().remove(at) =~= before_seat + after_seat);
}

/// Occupying a seat that is already occupied fails with
/// `SeatAlreadyOccupied`, in a compartment whose seat numbers are pairwise
/// distinct. (A failure changes nothing: the operation states so itself.)
pub proof fn law_occupy_taken_seat_fails(c: CompartmentView, n: u32)
    requires
        c.wf(),
        c.is_occupied(n),
    ensures
        c.occupy(n) == Err::<CompartmentView, SeatError>(SeatError::SeatAlreadyOccupied),
{
    lemma_position_is_first(c, n);
}

/// Occupying a number that no seat has fails with `InvalidSeatNumber`.
pub proof fn law_occupy_unknown_seat_fails(c: CompartmentView, n: u32)
    requires
        !c.has_seat(n),
    ensures
        c.occupy(n) == Err::<CompartmentView, SeatError>(SeatError::InvalidSeatNumber),
{
}

/// The numbers that a compartment lists as available and the numbers of its
/// occupied seats are together the numbers of all its seats, at any time. Where
/// the seat numbers are pairwise distinct, no number is both.
pub proof fn law_available_and_occupied_are_all(c: CompartmentView, n: u32)
    ensures
        c.has_seat(n) <==> c.available().contains(n) || c.is_occupied(n),
        c.wf() ==> !(c.available().contains(n) && c.is_occupied(n)),
{
    lemma_available_contains(c, n);
    if c.has_seat(n) {
        let (r, i) = choose|r: int, i: int|
            in_rows(c.rows, r, i) && (#[trigger] c.rows[r][i]).number == n;
        assert(c.rows[r][i].is_occupied ==> c.is_occupied(n));
        assert(!c.rows[r][i].is_occupied ==> c.is_free(n));
    }
}

/// As sets: the available numbers and the occupied numbers of a compartment
/// make up its declared numbers.
pub proof fn law_available_and_occupied_sets(c: CompartmentView)
    ensures
        c.available().to_set().union(Set::new(|n: u32| c.is_occupied(n))) == Set::new(
            |n: u32| c.has_seat(n),
        ),
{
    let free = c.available().to_set();
    let taken = Set::new(|n: u32| c.is_occupied(n));
    let all = Set::new(|n: u32| c.has_seat(n));
    assert forall|n: u32| free.union(taken).contains(n) <==> all.contains(n) by {
        law_available_and_occupied_are_all(c, n);
    }
}

/// A wagon lists no seat for an open-space compartment, whatever the state of
/// the seats of that compartment.
pub proof fn law_open_space_lists_no_seat(wagon: WagonView, k: int)
    requires
        0 <= k < wagon.compartments.len(),
        wagon.compartments[k].shape == WagonType::OpenSpace,
    ensures
        wagon.available()[k] == Seq::<u32>::empty(),
{
}

/// No seat of an open-space compartment can be occupied through the train:
/// the attempt fails with `UnsupportedCompartmentType`, whatever the seat
/// number and the state of the seats.
pub proof fn law_open_space_cannot_be_occupied(train: TrainView, w: int, c: int, n: u32)
    requires
        train.has_compartment(w, c),
        train.wagons[w].compartments[c].shape == WagonType::OpenSpace,
    ensures
        train.occupy(w, c, n) == Err::<TrainView, SeatError>(
            SeatError::UnsupportedCompartmentType,
        ),
{
}

/// Filling goes on from where it stood: a train filled from one that was
/// filled from another is filled from that other, so what a run of random
/// occupation promises holds across several runs.
pub proof fn law_filling_is_transitive(last: TrainView, middle: TrainView, first: TrainView)
    requires
        last.filled_from(middle),
        middle.filled_from(first),
    ensures
        last.filled_from(first),
{
}

/// In a train of wagons that are as the constructor builds them, the seat
/// numbers of each compartment are pairwise distinct: random occupation
/// reaches its target in such a train.
pub proof fn law_well_formed_wagons_have_distinct_seats(train: TrainView)
    requires
        forall|w: int| 0 <= w < train.wagons.len() ==> (#[trigger] train.wagons[w]).wf(),
    ensures
        train.seats_distinct(),
{
}

/// The seat numbers stay distinct while a train is filled, so what random
/// occupation promises of its first run it promises of each further run.
pub proof fn law_filling_keeps_seats_distinct(after: TrainView, before: TrainView)
    requires
        after.filled_from(before),
        before.seats_distinct(),
    ensures
        after.seats_distinct(),
{
    assert forall|w: int, c: int|
        after.has_compartment(w, c) && (
        #[trigger] after.wagons[w].compartments[c]).is_tracked() implies {
        after.wagons[w].compartments[c].wf()
    } by {
        assert(after.wagons[w].filled_from(before.wagons[w]));
        law_filling_keeps_the_numbers(
            after.wagons[w].compartments[c],
            before.wagons[w].compartments[c],
            0,
        );
    }
}

/// A train has no free seat in the tracked pool where each of its lists of
/// available seats is empty, and only there. So a train in which as many
/// seats were occupied as were free before lists no seat any more.
pub proof fn law_no_free_seat_lists_nothing(train: TrainView)
    ensures
        train.free_seats() == 0 <==> forall|w: int, c: int|
            train.has_compartment(w, c) ==> (#[trigger] train.available()[w][c]).len() == 0,
{
    let lists = train.available();
    let flat = lists.flatten();
    lemma_flatten_empty(flat);
    if train.free_seats() == 0 {
        assert forall|w: int, c: int| train.has_compartment(w, c) implies (
        #[trigger] lists[w][c]).len() == 0 by {
            lemma_flatten_contains(lists, lists[w][c]);
        }
    }
    if forall|w: int, c: int|
        train.has_compartment(w, c) ==> (#[trigger] train.available()[w][c]).len() == 0 {
        assert forall|j: int| 0 <= j < flat.len() implies (#[trigger] flat[j]).len() == 0 by {
            lemma_flatten_contains(lists, flat[j]);
        }
    }
}

} // verus!
