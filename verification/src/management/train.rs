//! Trains: an operator and the wagons in their order.

use vstd::prelude::*;

use crate::management::compartment::{CompartmentType, SeatManagement};
use crate::management::error::SeatError;
use crate::management::laws::{
    law_available_and_occupied_are_all, law_no_free_seat_lists_nothing,
    law_occupy_free_seat_succeeds,
};
use crate::management::layout::{
    comes_before, lemma_new_compartment_lists_few, lemma_occupy_takes_one, CompartmentView,
};
use crate::management::chance::{choose_number, gen_range_inclusive};
use crate::management::sequences::{
    lemma_flatten_contains, lemma_flatten_len_bound, lemma_flatten_len_update,
    lemma_flatten_step, lemma_flatten_twice_len_update, lemma_flatten_twice_step,
};
use crate::management::wagon::{lists_view, Wagon, WagonView};
use crate::management::WagonType;

verus! {

/// Train structure
#[derive(Debug, Clone, PartialEq)]
pub struct Train {
    pub operator: String,
    pub wagons: Vec<Wagon>,
}

/// What a train is: its operator and its wagons in order.
pub struct TrainView {
    pub operator: Seq<char>,
    pub wagons: Seq<WagonView>,
}

impl TrainView {
    /// The free seats of the tracked pool, wagon by wagon and compartment by
    /// compartment.
    pub open spec fn available(self) -> Seq<Seq<Seq<u32>>> {
        self.wagons.map_values(|w: WagonView| w.available())
    }

    /// The number of free seats of the tracked pool: how many numbers the
    /// lists of free seats hold, all wagons and compartments together.
    pub open spec fn free_seats(self) -> nat {
        self.available().flatten().flatten().len()
    }

    /// The same train at a later time: the same wagons and compartments, in
    /// which some more seats of the tracked pool may be occupied and none
    /// freed.
    pub open spec fn filled_from(self, before: TrainView) -> bool {
        &&& self.operator == before.operator
        &&& self.wagons.len() == before.wagons.len()
        &&& forall|w: int|
            0 <= w < self.wagons.len() ==> (#[trigger] self.wagons[w]).filled_from(before.wagons[w])
    }

    /// In every compartment of the tracked pool the seat numbers are pairwise
    /// distinct, so each seat that is listed as available can be occupied.
    pub open spec fn seats_distinct(self) -> bool {
        forall|w: int, c: int|
            self.has_compartment(w, c) && (#[trigger] self.wagons[w].compartments[c]).is_tracked()
                ==> self.wagons[w].compartments[c].wf()
    }

    /// No compartment before compartment `c` of wagon `w`, in the order of the
    /// wagons and of their compartments, lists a free seat.
    pub open spec fn none_listed_before(self, w: int, c: int) -> bool {
        forall|w2: int, c2: int|
            self.has_compartment(w2, c2) && comes_before(w2, c2, w, c) ==> (
            #[trigger] self.wagons[w2].compartments[c2]).listed().len() == 0
    }

    /// The train has a compartment at place `c` of wagon `w`.
    pub open spec fn has_compartment(self, w: int, c: int) -> bool {
        0 <= w < self.wagons.len() && 0 <= c < self.wagons[w].compartments.len()
    }

    /// The train with compartment `c` of wagon `w` replaced.
    pub open spec fn with_compartment(
        self,
        w: int,
        c: int,
        compartment: CompartmentView,
    ) -> TrainView {
        TrainView {
            wagons: self.wagons.update(w, self.wagons[w].with_compartment(c, compartment)),
            ..self
        }
    }

    /// What occupying seat `n` of compartment `c` of wagon `w` does: the train
    /// with that seat taken, or the reason of the failure. The indices are
    /// tested first, then the shape of the compartment, then the seat.
    pub open spec fn occupy(self, w: int, c: int, n: u32) -> Result<TrainView, SeatError> {
        if !(0 <= w < self.wagons.len()) {
            Err(SeatError::InvalidWagonIndex)
        } else if !(0 <= c < self.wagons[w].compartments.len()) {
            Err(SeatError::InvalidCompartmentIndex)
        } else if !self.wagons[w].compartments[c].is_tracked() {
            Err(SeatError::UnsupportedCompartmentType)
        } else {
            match self.wagons[w].compartments[c].occupy(n) {
                Ok(compartment) => Ok(self.with_compartment(w, c, compartment)),
                Err(kind) => Err(kind),
            }
        }
    }
}

/// Occupying a seat of a train with success takes exactly one seat of the
/// tracked pool: the train is the same but for that seat, and it has one free
/// seat less.
pub proof fn lemma_train_occupy_takes_one(train: TrainView, w: int, c: int, n: u32)
    requires
        train.occupy(w, c, n) is Ok,
    ensures
        train.occupy(w, c, n)->Ok_0.filled_from(train),
        train.occupy(w, c, n)->Ok_0.free_seats() + 1 == train.free_seats(),
{
    let after = train.occupy(w, c, n)->Ok_0;
    let wagon = train.wagons[w];
    let compartment = wagon.compartments[c];
    let taken = compartment.occupy(n)->Ok_0;
    lemma_occupy_takes_one(compartment, n);
    assert(after.wagons[w].available() =~= wagon.available().update(c, taken.listed()));
    assert(after.available() =~= train.available().update(w, after.wagons[w].available()));
    lemma_flatten_len_update(wagon.available(), c, taken.listed());
    lemma_flatten_twice_len_update(train.available(), w, after.wagons[w].available());
}

/// A seat that a compartment of the tracked pool lists as available can be
/// occupied, where the seat numbers of the compartment are pairwise distinct.
pub proof fn lemma_listed_seat_can_be_occupied(train: TrainView, w: int, c: int, n: u32)
    requires
        train.seats_distinct(),
        train.has_compartment(w, c),
        train.wagons[w].compartments[c].is_tracked(),
        train.wagons[w].compartments[c].available().contains(n),
    ensures
        train.occupy(w, c, n) is Ok,
{
    let compartment = train.wagons[w].compartments[c];
    law_available_and_occupied_are_all(compartment, n);
    law_occupy_free_seat_succeeds(compartment, n);
}

/// A train has no more free seats in the tracked pool than its wagons,
/// their compartments and the lists of these can hold.
pub proof fn lemma_free_seats_bound(train: TrainView, wagons: nat, compartments: nat, seats: nat)
    requires
        train.wagons.len() <= wagons,
        forall|w: int|
            0 <= w < train.wagons.len() ==> (#[trigger] train.wagons[w]).compartments.len()
                <= compartments,
        forall|w: int, c: int|
            train.has_compartment(w, c) ==> (
            #[trigger] train.wagons[w].compartments[c]).listed().len() <= seats,
    ensures
        train.free_seats() <= wagons * compartments * seats,
{
    let lists = train.available();
    let flat = lists.flatten();
    lemma_flatten_len_bound(lists, compartments);
    assert forall|j: int| 0 <= j < flat.len() implies (#[trigger] flat[j]).len() <= seats by {
        lemma_flatten_contains(lists, flat[j]);
        let w = choose|w: int| 0 <= w < lists.len() && (#[trigger] lists[w]).contains(flat[j]);
        let c = choose|c: int| 0 <= c < lists[w].len() && lists[w][c] == flat[j];
        assert(train.has_compartment(w, c));
    }
    lemma_flatten_len_bound(flat, seats);
    assert(flat.len() * seats <= wagons * compartments * seats) by (nonlinear_arith)
        requires
            flat.len() <= lists.len() * compartments,
            lists.len() <= wagons,
    ;
}

/// The smaller of a target and the number of free seats.
pub open spec fn fewer(target: usize, free: nat) -> nat {
    if target <= free {
        target as nat
    } else {
        free
    }
}

/// A count of seats as a `usize` holds it: the count itself, or `usize::MAX`
/// if the count is larger.
pub open spec fn saturated(count: nat) -> nat {
    if count <= usize::MAX {
        count
    } else {
        usize::MAX as nat
    }
}

impl View for Train {
    type V = TrainView;

    open spec fn view(&self) -> TrainView {
        TrainView {
            operator: self.operator@,
            wagons: self.wagons@.map_values(|w: Wagon| w@),
        }
    }
}

/// The free seats of some wagons as lists of lists of numbers.
pub open spec fn wagon_lists_view(lists: Seq<Vec<Vec<u32>>>) -> Seq<Seq<Seq<u32>>> {
    lists.map_values(|wagon: Vec<Vec<u32>>| lists_view(wagon@))
}

impl Train {
    /// Create new train
    pub fn new(operator: String, wagons: Vec<Wagon>) -> (train: Self)
        ensures
            train.operator == operator,
            train.wagons == wagons,
    {
        Self { operator, wagons }
    }

    /// Occupy seat in compartment
    pub fn occupy_seat(
        &mut self,
        wagon_index: usize,
        compartment_index: usize,
        seat_number: u32,
    ) -> (res: Result<(), String>)
        ensures
            match old(self)@.occupy(wagon_index as int, compartment_index as int, seat_number) {
                Ok(after) => res is Ok && final(self)@ == after,
                Err(kind) => res is Err && res->Err_0@ == kind.text() && final(self)@ == old(
                    self,
                )@,
            },
    {
        if wagon_index >= self.wagons.len() {
            return Err(SeatError::InvalidWagonIndex.message());
        }
        if compartment_index >= self.wagons[wagon_index].compartments.len() {
            return Err(SeatError::InvalidCompartmentIndex.message());
        }
        let ghost before = self@;
        let res = match &mut self.wagons[wagon_index].compartments[compartment_index] {
            CompartmentType::Seat6(comp) => comp.occupy_seat(seat_number),
            CompartmentType::Seat8(comp) => comp.occupy_seat(seat_number),
            _ => Err(SeatError::UnsupportedCompartmentType.message()),
        };
        proof {
            let w = wagon_index as int;
            let c = compartment_index as int;
            let compartment = self@.wagons[w].compartments[c];
            assert(self@.wagons[w].compartments =~= before.wagons[w].compartments.update(
                c,
                compartment,
            ));
            assert(self@.wagons =~= before.wagons.update(
                w,
                before.wagons[w].with_compartment(c, compartment),
            ));
            if res is Err {
                assert(self@.wagons[w].compartments =~= before.wagons[w].compartments);
                assert(self@.wagons =~= before.wagons);
            }
        }
        res
    }

    /// The number of free seats of the tracked pool, counted from the lists of
    /// free seats; `usize::MAX` if there are more than that.
    pub fn count_available_seats(&self) -> (count: usize)
        ensures
            count == saturated(self@.free_seats()),
    {
        let lists = self.list_all_available_seats();
        let ghost all = self@.available();
        let mut count: usize = 0;
        let mut w: usize = 0;
        while w < lists.len()
            invariant
                w <= lists.len(),
                wagon_lists_view(lists@) == all,
                count == saturated(all.take(w as int).flatten().flatten().len()),
            decreases lists.len() - w,
        {
            let wagon = &lists[w];
            let ghost done = all.take(w as int).flatten().flatten().len();
            let mut c: usize = 0;
            while c < wagon.len()
                invariant
                    c <= wagon.len(),
                    w < all.len(),
                    lists_view(wagon@) == all[w as int],
                    done == all.take(w as int).flatten().flatten().len(),
                    count == saturated(done + all[w as int].take(c as int).flatten().len()),
                decreases wagon.len() - c,
            {
                proof {
                    lemma_flatten_step(all[w as int], c as int);
                }
                count = count.saturating_add(wagon[c].len());
                c += 1;
            }
            proof {
                assert(all[w as int].take(c as int) == all[w as int]);
                lemma_flatten_twice_step(all, w as int);
            }
            w += 1;
        }
        assert(all.take(w as int) == all);
        count
    }

    /// Occupies `target_occupied` free seats of the tracked pool, or all of
    /// them if there are fewer, and returns how many seats it occupied.
    ///
    /// The seats are drawn at random. One draw picks a wagon, then one of its
    /// compartments, then one of the free seats of that compartment, each
    /// uniformly, and occupies that seat. A draw that hits a wagon without
    /// compartments, a compartment without a free seat or an open-space
    /// compartment occupies nothing and is made again. No more than
    /// `max_draws` draws are made: if the seats asked for are not all occupied
    /// by then, the rest are taken in order, wagon by wagon, compartment by
    /// compartment and as the compartment lists them. So the count of seats is
    /// not left to chance, only which seats are taken.
    ///
    /// The count is promised where the seat numbers of each compartment of the
    /// tracked pool are pairwise distinct, as they are in every compartment
    /// that the constructors build: a seat whose number an occupied seat
    /// before it bears cannot be occupied.
    pub fn randomly_occupy_seats(
        &mut self,
        target_occupied: usize,
        max_draws: u64,
    ) -> (occupied: usize)
        ensures
            occupied <= target_occupied,
            final(self)@.filled_from(old(self)@),
            final(self)@.free_seats() + occupied == old(self)@.free_seats(),
            occupied == 0 ==> final(self)@ == old(self)@,
            old(self)@.seats_distinct() ==> occupied == fewer(
                target_occupied,
                old(self)@.free_seats(),
            ),
    {
        let total_seats = self.count_available_seats();
        let goal = if target_occupied <= total_seats {
            target_occupied
        } else {
            total_seats
        };
        let mut occupied: usize = 0;
        let mut draws: u64 = 0;
        let mut rng = rand::thread_rng();
        while occupied < goal && draws < max_draws && self.wagons.len() > 0
            invariant
                occupied <= goal,
                self@.filled_from(old(self)@),
                self@.free_seats() + occupied == old(self)@.free_seats(),
                occupied == 0 ==> self@ == old(self)@,
                old(self)@.seats_distinct() ==> self@.seats_distinct(),
            decreases max_draws - draws,
        {
            draws += 1;
            let wagon_index = gen_range_inclusive(&mut rng, 0, self.wagons.len() - 1);
            let compartments_count = self.wagons[wagon_index].compartments.len();
            if compartments_count == 0 {
                continue;
            }
            let compartment_index = gen_range_inclusive(&mut rng, 0, compartments_count - 1);
            let available_seats =
                self.wagons[wagon_index].compartments[compartment_index].list_available_seats();
            let seat_number = match choose_number(&mut rng, &available_seats) {
                Some(number) => number,
                None => {
                    continue;
                },
            };
            let ghost before = self@;
            if self.occupy_seat(wagon_index, compartment_index, seat_number).is_err() {
                continue;
            }
            proof {
                let (w, c) = (wagon_index as int, compartment_index as int);
                lemma_train_occupy_takes_one(before, w, c, seat_number);
            }
            occupied += 1;
        }
        self.occupy_in_order(goal, occupied)
    }

    /// Occupies free seats of the tracked pool in order, wagon by wagon,
    /// compartment by compartment and as the compartment lists them, until
    /// `goal` seats are occupied, the `already` occupied ones counted in, or
    /// no seat is left. Returns the count of seats occupied, `already`
    /// counted in.
    fn occupy_in_order(&mut self, goal: usize, already: usize) -> (occupied: usize)
        requires
            already <= goal,
        ensures
            already <= occupied <= goal,
            final(self)@.filled_from(old(self)@),
            final(self)@.free_seats() + occupied == old(self)@.free_seats() + already,
            occupied == already ==> final(self)@ == old(self)@,
            old(self)@.seats_distinct() ==> occupied == goal || final(self)@.free_seats() == 0,
    {
        let mut occupied: usize = already;
        let mut w: usize = 0;
        while w < self.wagons.len() && occupied < goal
            invariant
                w <= self.wagons.len(),
                already <= occupied <= goal,
                self@.filled_from(old(self)@),
                self@.free_seats() + occupied == old(self)@.free_seats() + already,
                occupied == already ==> self@ == old(self)@,
                old(self)@.seats_distinct() ==> self@.seats_distinct() && (occupied == goal
                    || self@.none_listed_before(w as int, 0)),
            decreases self.wagons.len() - w,
        {
            let mut c: usize = 0;
            while c < self.wagons[w].compartments.len() && occupied < goal
                invariant
                    w < self.wagons.len(),
                    c <= self.wagons[w as int].compartments.len(),
                    already <= occupied <= goal,
                    self@.filled_from(old(self)@),
                    self@.free_seats() + occupied == old(self)@.free_seats() + already,
                    occupied == already ==> self@ == old(self)@,
                    old(self)@.seats_distinct() ==> self@.seats_distinct() && (occupied == goal
                        || self@.none_listed_before(w as int, c as int)),
                decreases self.wagons[w as int].compartments.len() - c,
            {
                let mut more = true;
                while more && occupied < goal
                    invariant
                        w < self.wagons.len(),
                        c < self.wagons[w as int].compartments.len(),
                        already <= occupied <= goal,
                        self@.filled_from(old(self)@),
                        self@.free_seats() + occupied == old(self)@.free_seats() + already,
                        occupied == already ==> self@ == old(self)@,
                        old(self)@.seats_distinct() ==> self@.seats_distinct()
                            && self@.none_listed_before(w as int, c as int) && (!more
                            ==> self@.wagons[w as int].compartments[c as int].listed().len() == 0),
                    decreases
                        self@.wagons[w as int].compartments[c as int].available().len() + (if more {
                            1nat
                        } else {
                            0nat
                        }),
                {
                    let available_seats = self.wagons[w].compartments[c].list_available_seats();
                    let ghost before = self@;
                    let ghost compartment = before.wagons[w as int].compartments[c as int];
                    if available_seats.len() == 0 {
                        more = false;
                    } else {
                        let seat_number = available_seats[0];
                        if self.occupy_seat(w, c, seat_number).is_err() {
                            proof {
                                if before.seats_distinct() && compartment.is_tracked() {
                                    lemma_listed_seat_can_be_occupied(
                                        before,
                                        w as int,
                                        c as int,
                                        seat_number,
                                    );
                                }
                            }
                            more = false;
                        } else {
                            proof {
                                let (at_w, at_c) = (w as int, c as int);
                                lemma_train_occupy_takes_one(before, at_w, at_c, seat_number);
                                lemma_occupy_takes_one(compartment, seat_number);
                            }
                            occupied += 1;
                        }
                    }
                }
                c += 1;
            }
            w += 1;
        }
        proof {
            if old(self)@.seats_distinct() && occupied < goal {
                law_no_free_seat_lists_nothing(self@);
            }
        }
        occupied
    }

    /// Generate a random train and occupy its seats
    ///
    /// The train has 9 to 15 wagons; each wagon has one of the three shapes, 8
    /// to 10 compartments and a number from 1 to 100, all drawn uniformly and
    /// one wagon apart from the other, so two wagons may bear one number. The
    /// seats of the tracked pool are then occupied at random, with all of them
    /// as the target: in the train that is returned no seat of the tracked
    /// pool is free, and every seat of an open-space compartment is.
    pub fn generate_random_train() -> (train: Self)
        ensures
            train@.operator == "Random Train"@,
            9 <= train@.wagons.len() <= 15,
            forall|w: int|
                0 <= w < train@.wagons.len() ==> {
                    let wagon = #[trigger] train@.wagons[w];
                    &&& 8 <= wagon.compartments.len() <= 10
                    &&& 1 <= wagon.number <= 100
                    &&& wagon.filled_from(
                        WagonView::fresh(
                            wagon.wagon_type,
                            wagon.compartments.len() as u8,
                            wagon.number,
                        ),
                    )
                    &&& wagon.wf()
                },
            train@.free_seats() == 0,
    {
        let mut rng = rand::thread_rng();
        let num_wagons = gen_range_inclusive(&mut rng, 9, 15);
        let mut wagons: Vec<Wagon> = Vec::new();
        while wagons.len() < num_wagons
            invariant
                wagons.len() <= num_wagons,
                forall|w: int|
                    0 <= w < wagons.len() ==> {
                        let wagon = #[trigger] wagons@[w]@;
                        &&& 8 <= wagon.compartments.len() <= 10
                        &&& 1 <= wagon.number <= 100
                        &&& wagon == WagonView::fresh(
                            wagon.wagon_type,
                            wagon.compartments.len() as u8,
                            wagon.number,
                        )
                        &&& wagon.wf()
                    },
            decreases num_wagons - wagons.len(),
        {
            let wagon_type = match gen_range_inclusive(&mut rng, 0, 2) {
                0 => WagonType::Seat6,
                1 => WagonType::Seat8,
                _ => WagonType::OpenSpace,
            };
            let compartments_count = gen_range_inclusive(&mut rng, 8, 10) as u8;
            let wagon_number = gen_range_inclusive(&mut rng, 1, 100) as u8;
            wagons.push(Wagon::new(wagon_type, compartments_count, wagon_number));
        }
        let mut train = Self { operator: "Random Train".to_owned(), wagons };
        proof {
            let built = train@;
            assert forall|w: int, c: int| built.has_compartment(w, c) implies {
                let compartment = #[trigger] built.wagons[w].compartments[c];
                compartment.wf() && compartment.listed().len() <= 8
            } by {
                let wagon = built.wagons[w];
                lemma_new_compartment_lists_few(wagon.wagon_type, (c + 1) as u8);
            }
            lemma_free_seats_bound(built, 15, 10, 8);
        }
        let total_seats = train.count_available_seats();
        train.randomly_occupy_seats(total_seats, u64::MAX);
        train
    }

    /// List all available seats
    pub fn list_all_available_seats(&self) -> (lists: Vec<Vec<Vec<u32>>>)
        ensures
            wagon_lists_view(lists@) == self@.available(),
    {
        let mut lists: Vec<Vec<Vec<u32>>> = Vec::new();
        let mut w: usize = 0;
        while w < self.wagons.len()
            invariant
                w <= self.wagons.len(),
                lists@.len() == w,
                forall|j: int|
                    0 <= j < w ==> lists_view((#[trigger] lists@[j])@)
                        == self@.wagons[j].available(),
            decreases self.wagons.len() - w,
        {
            lists.push(self.wagons[w].list_all_available_seats());
            w += 1;
        }
        lists
    }
}

} // verus!
