//! Wagons: a number, a shape and the compartments in their order.

use vstd::prelude::*;

use crate::management::compartment::{CompartmentType, SeatManagement};
use crate::management::layout::CompartmentView;
use crate::management::WagonType;

verus! {

/// Train wagon
#[derive(Debug, Clone, PartialEq)]
pub struct Wagon {
    pub number: u8,
    pub wagon_type: WagonType,
    pub compartments: Vec<CompartmentType>,
}

/// What a wagon is: its number, its shape and its compartments in order.
pub struct WagonView {
    pub number: u8,
    pub wagon_type: WagonType,
    pub compartments: Seq<CompartmentView>,
}

impl WagonView {
    /// The new wagon of `count` compartments of the given shape, numbered from
    /// 1 in their order, with every seat free.
    pub open spec fn fresh(wagon_type: WagonType, count: u8, number: u8) -> WagonView {
        WagonView {
            number,
            wagon_type,
            compartments: Seq::new(
                count as nat,
                |k: int| CompartmentView::fresh(wagon_type, (k + 1) as u8),
            ),
        }
    }

    /// Every compartment has the shape of the wagon, its place in the wagon as
    /// its number, and pairwise distinct seat numbers.
    pub open spec fn wf(self) -> bool {
        forall|k: int|
            0 <= k < self.compartments.len() ==> {
                &&& (#[trigger] self.compartments[k]).shape == self.wagon_type
                &&& self.compartments[k].number == k + 1
                &&& self.compartments[k].wf()
            }
    }

    /// The free seats of the tracked pool, compartment by compartment: the
    /// free seat numbers of a compartment of six or eight seats, and nothing
    /// for an open-space compartment.
    pub open spec fn available(self) -> Seq<Seq<u32>> {
        self.compartments.map_values(|c: CompartmentView| c.listed())
    }

    /// The same wagon at a later time: the same compartments, in which some
    /// more seats may be occupied and none freed, the open-space compartments
    /// as they were.
    pub open spec fn filled_from(self, before: WagonView) -> bool {
        &&& self.number == before.number
        &&& self.wagon_type == before.wagon_type
        &&& self.compartments.len() == before.compartments.len()
        &&& forall|k: int|
            0 <= k < self.compartments.len() ==> {
                &&& (#[trigger] self.compartments[k]).filled_from(before.compartments[k])
                &&& !before.compartments[k].is_tracked() ==> self.compartments[k]
                    == before.compartments[k]
            }
    }

    /// The wagon with compartment `k` replaced.
    pub open spec fn with_compartment(self, k: int, compartment: CompartmentView) -> WagonView {
        WagonView { compartments: self.compartments.update(k, compartment), ..self }
    }
}

impl View for Wagon {
    type V = WagonView;

    open spec fn view(&self) -> WagonView {
        WagonView {
            number: self.number,
            wagon_type: self.wagon_type,
            compartments: self.compartments@.map_values(|c: CompartmentType| c@),
        }
    }
}

/// The free seats of some compartments as lists of numbers.
pub open spec fn lists_view(lists: Seq<Vec<u32>>) -> Seq<Seq<u32>> {
    lists.map_values(|list: Vec<u32>| list@)
}

impl Wagon {
    /// Create new wagon
    pub fn new(wagon_type: WagonType, compartments_count: u8, number: u8) -> (wagon: Self)
        ensures
            wagon@ == WagonView::fresh(wagon_type, compartments_count, number),
            wagon@.wf(),
    {
        let mut compartments: Vec<CompartmentType> = Vec::new();
        let mut i: u8 = 0;
        while i < compartments_count
            invariant
                i <= compartments_count,
                compartments@.len() == i,
                forall|k: int|
                    0 <= k < i ==> {
                        &&& (#[trigger] compartments@[k])@ == CompartmentView::fresh(
                            wagon_type,
                            (k + 1) as u8,
                        )
                        &&& compartments@[k]@.wf()
                    },
            decreases compartments_count - i,
        {
            i += 1;
            compartments.push(CompartmentType::new(&wagon_type, i));
        }
        let wagon = Self { number, wagon_type, compartments };
        assert(wagon@.compartments =~= WagonView::fresh(
            wagon_type,
            compartments_count,
            number,
        ).compartments);
        wagon
    }

    /// List all available seats in all compartments
    pub fn list_all_available_seats(&self) -> (lists: Vec<Vec<u32>>)
        ensures
            lists_view(lists@) == self@.available(),
    {
        let mut lists: Vec<Vec<u32>> = Vec::new();
        let mut k: usize = 0;
        while k < self.compartments.len()
            invariant
                k <= self.compartments.len(),
                lists@.len() == k,
                forall|j: int|
                    0 <= j < k ==> (#[trigger] lists@[j])@ == self@.compartments[j].listed(),
            decreases self.compartments.len() - k,
        {
            let list = match &self.compartments[k] {
                CompartmentType::Seat6(comp) => comp.list_available_seats(),
                CompartmentType::Seat8(comp) => comp.list_available_seats(),
                _ => Vec::new(),
            };
            lists.push(list);
            k += 1;
        }
        lists
    }
}

} // verus!
