use train_seating::management::compartment::{CompartmentType, SeatManagement};
use train_seating::management::{Wagon, WagonType};

fn compartment_number(compartment: &CompartmentType) -> u8 {
    match compartment {
        CompartmentType::Seat6(c) => c.number,
        CompartmentType::Seat8(c) => c.number,
        CompartmentType::OpenSpace(c) => c.number,
    }
}

#[test]
fn wagon_new_numbers_compartments_from_one() {
    let wagon = Wagon::new(WagonType::Seat6, 9, 42);
    assert_eq!(wagon.number, 42);
    assert_eq!(wagon.wagon_type, WagonType::Seat6);
    assert_eq!(wagon.compartments.len(), 9);
    for (k, compartment) in wagon.compartments.iter().enumerate() {
        assert_eq!(compartment_number(compartment) as usize, k + 1);
        assert_eq!(*compartment, CompartmentType::new(&WagonType::Seat6, (k + 1) as u8));
        assert!(matches!(compartment, CompartmentType::Seat6(_)));
    }
}

#[test]
fn wagon_new_uses_the_shape_for_every_compartment() {
    let eight = Wagon::new(WagonType::Seat8, 3, 1);
    assert!(eight.compartments.iter().all(|c| matches!(c, CompartmentType::Seat8(_))));
    let open = Wagon::new(WagonType::OpenSpace, 10, 1);
    assert!(open.compartments.iter().all(|c| matches!(c, CompartmentType::OpenSpace(_))));
    assert_eq!(open.compartments[0].list_available_seats(), vec![6, 4, 3, 8, 1, 2]);
    assert_eq!(open.compartments[1].list_available_seats(), vec![5, 6, 7, 4, 3, 8, 1, 2]);
    assert_eq!(open.compartments[9].list_available_seats(), vec![5, 7, 3, 1]);
}

#[test]
fn wagon_new_without_compartments_and_with_the_most() {
    let empty = Wagon::new(WagonType::Seat8, 0, 7);
    assert_eq!(empty.number, 7);
    assert!(empty.compartments.is_empty());
    assert_eq!(empty.list_all_available_seats(), Vec::<Vec<u32>>::new());
    let full = Wagon::new(WagonType::Seat6, 255, 0);
    assert_eq!(full.compartments.len(), 255);
    assert_eq!(compartment_number(&full.compartments[254]), 255);
}

#[test]
fn wagon_lists_free_seats_per_compartment() {
    let mut wagon = Wagon::new(WagonType::Seat6, 2, 5);
    assert_eq!(
        wagon.list_all_available_seats(),
        vec![vec![5, 6, 3, 4, 1, 2], vec![5, 6, 3, 4, 1, 2]]
    );
    if let CompartmentType::Seat6(compartment) = &mut wagon.compartments[1] {
        assert_eq!(compartment.occupy_seat(6), Ok(()));
        assert_eq!(compartment.occupy_seat(1), Ok(()));
    }
    assert_eq!(
        wagon.list_all_available_seats(),
        vec![vec![5, 6, 3, 4, 1, 2], vec![5, 3, 4, 2]]
    );
    let eight = Wagon::new(WagonType::Seat8, 1, 5);
    assert_eq!(eight.list_all_available_seats(), vec![vec![5, 6, 7, 4, 3, 8, 1, 2]]);
}

#[test]
fn wagon_lists_nothing_for_open_space() {
    let mut wagon = Wagon::new(WagonType::OpenSpace, 10, 3);
    let nothing: Vec<Vec<u32>> = vec![Vec::new(); 10];
    assert_eq!(wagon.list_all_available_seats(), nothing);
    if let CompartmentType::OpenSpace(compartment) = &mut wagon.compartments[0] {
        assert_eq!(compartment.occupy_seat(6), Ok(()));
        assert_eq!(compartment.list_available_seats(), vec![4, 3, 8, 1, 2]);
    }
    assert_eq!(wagon.compartments[0].list_available_seats(), vec![4, 3, 8, 1, 2]);
    assert_eq!(wagon.list_all_available_seats(), nothing);
}

#[test]
fn wagon_of_mixed_compartments_lists_by_compartment_shape() {
    let wagon = Wagon {
        number: 1,
        wagon_type: WagonType::Seat6,
        compartments: vec![
            CompartmentType::new(&WagonType::OpenSpace, 1),
            CompartmentType::new(&WagonType::Seat8, 2),
            CompartmentType::new(&WagonType::Seat6, 3),
        ],
    };
    assert_eq!(
        wagon.list_all_available_seats(),
        vec![vec![], vec![5, 6, 7, 4, 3, 8, 1, 2], vec![5, 6, 3, 4, 1, 2]]
    );
}
