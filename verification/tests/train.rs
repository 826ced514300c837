use train_seating::management::compartment::{CompartmentType, SeatManagement};
use train_seating::management::{Seat, SeatError, Train, Wagon, WagonType};

fn small_train() -> Train {
    Train::new(
        "Test".to_string(),
        vec![
            Wagon::new(WagonType::Seat6, 2, 10),
            Wagon::new(WagonType::OpenSpace, 10, 10),
            Wagon::new(WagonType::Seat8, 1, 30),
        ],
    )
}

fn seats_of(compartment: &CompartmentType) -> Vec<Seat> {
    let rows: &[Vec<Seat>] = match compartment {
        CompartmentType::Seat6(c) => &c.rows,
        CompartmentType::Seat8(c) => &c.rows,
        CompartmentType::OpenSpace(c) => &c.rows,
    };
    rows.iter().flat_map(|row| row.iter().cloned()).collect()
}

fn occupied_count(train: &Train) -> usize {
    train
        .wagons
        .iter()
        .flat_map(|wagon| wagon.compartments.iter())
        .flat_map(|compartment| seats_of(compartment))
        .filter(|seat| seat.is_occupied)
        .count()
}

fn listed_count(train: &Train) -> usize {
    train.list_all_available_seats().iter().flatten().flatten().count()
}

/// Whether `after` has the seats of `before`, with none of them freed.
fn only_filled(after: &Train, before: &Train) -> bool {
    after.operator == before.operator
        && after.wagons.len() == before.wagons.len()
        && after.wagons.iter().zip(before.wagons.iter()).all(|(a, b)| {
            a.number == b.number
                && a.wagon_type == b.wagon_type
                && a.compartments.len() == b.compartments.len()
                && a.compartments.iter().zip(b.compartments.iter()).all(|(x, y)| {
                    let (xs, ys) = (seats_of(x), seats_of(y));
                    xs.len() == ys.len()
                        && xs.iter().zip(ys.iter()).all(|(s, t)| {
                            s.number == t.number && (s.is_occupied || !t.is_occupied)
                        })
                })
        })
}

#[test]
fn train_new_stores_what_it_is_given() {
    let wagons = vec![Wagon::new(WagonType::Seat6, 2, 7), Wagon::new(WagonType::Seat8, 1, 7)];
    let train = Train::new("PKP".to_string(), wagons.clone());
    assert_eq!(train.operator, "PKP");
    assert_eq!(train.wagons, wagons);
    let empty = Train::new(String::new(), Vec::new());
    assert_eq!(empty.operator, "");
    assert!(empty.wagons.is_empty());
}

#[test]
fn train_occupy_seat_takes_the_seat() {
    let mut train = small_train();
    let before = train.clone();
    assert_eq!(train.occupy_seat(0, 1, 4), Ok(()));
    assert_eq!(
        train.list_all_available_seats()[0],
        vec![vec![5, 6, 3, 4, 1, 2], vec![5, 6, 3, 1, 2]]
    );
    assert_eq!(train.wagons[1], before.wagons[1]);
    assert_eq!(train.wagons[2], before.wagons[2]);
    assert_eq!(train.wagons[0].compartments[0], before.wagons[0].compartments[0]);
    assert_eq!(occupied_count(&train), 1);
    assert!(only_filled(&train, &before));
    assert_eq!(train.occupy_seat(2, 0, 8), Ok(()));
    assert_eq!(train.list_all_available_seats()[2], vec![vec![5, 6, 7, 4, 3, 1, 2]]);
}

#[test]
fn train_occupy_seat_rejects_wagon_index() {
    let mut train = small_train();
    let before = train.clone();
    assert_eq!(train.occupy_seat(3, 0, 1), Err("Invalid wagon index.".to_string()));
    assert_eq!(train.occupy_seat(usize::MAX, 0, 1), Err(SeatError::InvalidWagonIndex.message()));
    assert_eq!(train, before);
    let mut empty = Train::new("None".to_string(), Vec::new());
    assert_eq!(empty.occupy_seat(0, 0, 1), Err("Invalid wagon index.".to_string()));
}

#[test]
fn train_occupy_seat_rejects_compartment_index() {
    let mut train = small_train();
    let before = train.clone();
    assert_eq!(train.occupy_seat(0, 2, 1), Err("Invalid compartment index.".to_string()));
    assert_eq!(
        train.occupy_seat(2, 1, 1),
        Err(SeatError::InvalidCompartmentIndex.message())
    );
    assert_eq!(train.occupy_seat(1, 10, 1), Err("Invalid compartment index.".to_string()));
    assert_eq!(train, before);
}

#[test]
fn train_occupy_seat_rejects_open_space() {
    let mut train = small_train();
    let before = train.clone();
    for compartment in 0..10 {
        for seat in [1u32, 3, 6, 99] {
            assert_eq!(
                train.occupy_seat(1, compartment, seat),
                Err("Cannot occupy seat in this compartment type.".to_string())
            );
        }
    }
    assert_eq!(train, before);
    assert_eq!(
        train.wagons[1].compartments[0].list_available_seats(),
        vec![6, 4, 3, 8, 1, 2]
    );
    assert_eq!(
        train.occupy_seat(1, 0, 6),
        Err(SeatError::UnsupportedCompartmentType.message())
    );
}

#[test]
fn train_occupy_seat_99_in_seat6_is_invalid() {
    let mut train = Train::new("Test".to_string(), vec![Wagon::new(WagonType::Seat6, 1, 1)]);
    let before = train.clone();
    assert_eq!(train.occupy_seat(0, 0, 99), Err("Invalid seat number.".to_string()));
    assert_eq!(train, before);
    assert_eq!(train.occupy_seat(0, 0, 7), Err(SeatError::InvalidSeatNumber.message()));
    assert_eq!(train.occupy_seat(0, 0, 0), Err(SeatError::InvalidSeatNumber.message()));
}

#[test]
fn train_occupy_seat_twice_fails() {
    let mut train = small_train();
    assert_eq!(train.occupy_seat(0, 0, 5), Ok(()));
    let before = train.clone();
    assert_eq!(train.occupy_seat(0, 0, 5), Err("Seat already occupied.".to_string()));
    assert_eq!(train, before);
}

#[test]
fn train_index_is_tested_before_the_shape_and_the_seat() {
    let mut train = small_train();
    assert_eq!(train.occupy_seat(9, 99, 99), Err("Invalid wagon index.".to_string()));
    assert_eq!(train.occupy_seat(1, 99, 99), Err("Invalid compartment index.".to_string()));
    assert_eq!(
        train.occupy_seat(1, 9, 99),
        Err("Cannot occupy seat in this compartment type.".to_string())
    );
    assert_eq!(train.occupy_seat(0, 1, 99), Err("Invalid seat number.".to_string()));
}

#[test]
fn train_lists_free_seats_per_wagon_and_compartment() {
    let mut train = small_train();
    let open: Vec<Vec<u32>> = vec![Vec::new(); 10];
    assert_eq!(
        train.list_all_available_seats(),
        vec![
            vec![vec![5, 6, 3, 4, 1, 2], vec![5, 6, 3, 4, 1, 2]],
            open.clone(),
            vec![vec![5, 6, 7, 4, 3, 8, 1, 2]],
        ]
    );
    assert_eq!(train.occupy_seat(2, 0, 5), Ok(()));
    assert_eq!(train.occupy_seat(0, 0, 2), Ok(()));
    assert_eq!(
        train.list_all_available_seats(),
        vec![
            vec![vec![5, 6, 3, 4, 1], vec![5, 6, 3, 4, 1, 2]],
            open,
            vec![vec![6, 7, 4, 3, 8, 1, 2]],
        ]
    );
    let empty = Train::new("None".to_string(), Vec::new());
    assert_eq!(empty.list_all_available_seats(), Vec::<Vec<Vec<u32>>>::new());
}

#[test]
fn count_available_seats_counts_the_tracked_pool() {
    let mut train = small_train();
    assert_eq!(train.count_available_seats(), 6 + 6 + 8);
    assert_eq!(train.count_available_seats(), listed_count(&train));
    assert_eq!(train.occupy_seat(0, 0, 1), Ok(()));
    assert_eq!(train.occupy_seat(2, 0, 1), Ok(()));
    assert_eq!(train.count_available_seats(), 18);
    let open = Train::new("Open".to_string(), vec![Wagon::new(WagonType::OpenSpace, 10, 1)]);
    assert_eq!(open.count_available_seats(), 0);
    assert_eq!(Train::new("None".to_string(), Vec::new()).count_available_seats(), 0);
}

#[test]
fn randomly_occupy_half_of_one_seat8_compartment() {
    for _ in 0..50 {
        let mut train = Train::new("Test".to_string(), vec![Wagon::new(WagonType::Seat8, 1, 1)]);
        let before = train.clone();
        let total = train.count_available_seats();
        assert_eq!(total, 8);
        let target = (total as f64 * 0.5) as usize;
        assert_eq!(target, 4);
        assert_eq!(train.randomly_occupy_seats(target, u64::MAX), 4);
        assert_eq!(occupied_count(&train), 4);
        assert_eq!(train.list_all_available_seats()[0][0].len(), 4);
        assert_eq!(train.count_available_seats(), 4);
        assert!(only_filled(&train, &before));
    }
}

#[test]
fn randomly_occupy_all_then_none() {
    let mut train = small_train();
    let before = train.clone();
    let total = train.count_available_seats();
    assert_eq!(total, 20);
    assert_eq!(train.randomly_occupy_seats(total, u64::MAX), total);
    assert_eq!(train.count_available_seats(), 0);
    assert_eq!(occupied_count(&train), 20);
    assert!(only_filled(&train, &before));
    assert_eq!(train.wagons[1], before.wagons[1]);
    assert!(train.list_all_available_seats().iter().flatten().all(|list| list.is_empty()));
    let full = train.clone();
    assert_eq!(train.randomly_occupy_seats(0, u64::MAX), 0);
    assert_eq!(train, full);
}

#[test]
fn randomly_occupy_nothing_is_a_no_op() {
    let mut train = small_train();
    let before = train.clone();
    assert_eq!(train.randomly_occupy_seats(0, u64::MAX), 0);
    assert_eq!(train, before);
    assert_eq!(train.randomly_occupy_seats(0, 0), 0);
    assert_eq!(train, before);
    let mut empty = Train::new("None".to_string(), Vec::new());
    assert_eq!(empty.randomly_occupy_seats(3, 1000), 0);
    assert_eq!(empty.randomly_occupy_seats(3, 0), 0);
    assert!(empty.wagons.is_empty());
}

#[test]
fn randomly_occupy_stops_at_the_target() {
    for target in 0..=20usize {
        let mut train = small_train();
        let before = train.clone();
        assert_eq!(train.randomly_occupy_seats(target, u64::MAX), target);
        assert_eq!(occupied_count(&train), target);
        assert_eq!(train.count_available_seats(), 20 - target);
        assert!(only_filled(&train, &before));
        assert_eq!(train.wagons[1], before.wagons[1]);
    }
}

#[test]
fn randomly_occupy_reaches_the_target_whatever_the_draws_allowed() {
    for max_draws in [0u64, 1, 3, 10, 1000] {
        for target in [1usize, 7, 13, 20] {
            let mut train = small_train();
            let before = train.clone();
            assert_eq!(train.randomly_occupy_seats(target, max_draws), target);
            assert_eq!(occupied_count(&train), target);
            assert_eq!(train.count_available_seats(), 20 - target);
            assert!(only_filled(&train, &before));
            assert_eq!(train.wagons[1], before.wagons[1]);
        }
    }
}

#[test]
fn randomly_occupy_takes_seats_in_order_where_no_draw_is_allowed() {
    let mut train = small_train();
    assert_eq!(train.randomly_occupy_seats(5, 0), 5);
    let open: Vec<Vec<u32>> = vec![Vec::new(); 10];
    assert_eq!(
        train.list_all_available_seats(),
        vec![
            vec![vec![2], vec![5, 6, 3, 4, 1, 2]],
            open.clone(),
            vec![vec![5, 6, 7, 4, 3, 8, 1, 2]],
        ]
    );
    assert_eq!(train.randomly_occupy_seats(9, 0), 9);
    assert_eq!(
        train.list_all_available_seats(),
        vec![vec![vec![], vec![]], open.clone(), vec![vec![7, 4, 3, 8, 1, 2]]]
    );
    assert_eq!(train.randomly_occupy_seats(9, 0), 6);
    assert_eq!(train.count_available_seats(), 0);
    assert_eq!(occupied_count(&train), 20);
    assert_eq!(train.wagons[1], small_train().wagons[1]);
}

#[test]
fn randomly_occupy_leaves_a_seat_whose_number_is_taken_before_it() {
    let mut wagon = Wagon::new(WagonType::Seat6, 1, 1);
    if let CompartmentType::Seat6(compartment) = &mut wagon.compartments[0] {
        compartment.rows[0][0] = Seat { number: 2, is_occupied: true };
        for number in [6u32, 3, 4, 1] {
            assert_eq!(compartment.occupy_seat(number), Ok(()));
        }
        assert_eq!(compartment.list_available_seats(), vec![2]);
    }
    let mut train = Train::new("Test".to_string(), vec![wagon]);
    let before = train.clone();
    assert_eq!(train.count_available_seats(), 1);
    assert_eq!(train.randomly_occupy_seats(1, 100), 0);
    assert_eq!(train, before);
}

#[test]
fn randomly_occupy_cannot_pass_the_number_of_free_seats() {
    let mut train = small_train();
    assert_eq!(train.occupy_seat(0, 0, 1), Ok(()));
    let occupied = train.randomly_occupy_seats(1000, 100_000);
    assert_eq!(occupied, 19);
    assert_eq!(train.count_available_seats(), 0);
    let open_only = Wagon::new(WagonType::OpenSpace, 10, 1);
    let mut open = Train::new("Open".to_string(), vec![open_only.clone()]);
    assert_eq!(open.randomly_occupy_seats(5, 10_000), 0);
    assert_eq!(open.wagons[0], open_only);
}

#[test]
fn randomly_occupy_skips_wagons_without_compartments() {
    let mut train = Train::new(
        "Test".to_string(),
        vec![Wagon::new(WagonType::Seat6, 0, 1), Wagon::new(WagonType::Seat6, 1, 2)],
    );
    assert_eq!(train.randomly_occupy_seats(6, 1_000_000), 6);
    assert_eq!(train.count_available_seats(), 0);
    assert!(train.wagons[0].compartments.is_empty());
}

#[test]
fn randomly_occupy_reaches_every_wagon_and_compartment() {
    let mut train = Train::new(
        "Test".to_string(),
        vec![
            Wagon::new(WagonType::Seat6, 3, 1),
            Wagon::new(WagonType::Seat8, 2, 2),
            Wagon::new(WagonType::Seat6, 1, 3),
        ],
    );
    assert_eq!(train.randomly_occupy_seats(40, 1_000_000), 40);
    for wagon in &train.wagons {
        for compartment in &wagon.compartments {
            assert!(seats_of(compartment).iter().all(|seat| seat.is_occupied));
        }
    }
}

#[test]
fn randomly_occupy_draws_differ() {
    let mut seen = Vec::new();
    for _ in 0..200 {
        let mut train = Train::new("Test".to_string(), vec![Wagon::new(WagonType::Seat8, 1, 1)]);
        assert_eq!(train.randomly_occupy_seats(1, u64::MAX), 1);
        let list = train.list_all_available_seats()[0][0].clone();
        if !seen.contains(&list) {
            seen.push(list);
        }
    }
    assert!(seen.len() > 1);
}

#[test]
fn generate_random_train_has_the_promised_shape() {
    for _ in 0..20 {
        let train = Train::generate_random_train();
        assert_eq!(train.operator, "Random Train");
        assert!((9..=15).contains(&train.wagons.len()));
        for wagon in &train.wagons {
            assert!((8..=10).contains(&wagon.compartments.len()));
            assert!((1..=100).contains(&wagon.number));
            let fresh =
                Wagon::new(wagon.wagon_type.clone(), wagon.compartments.len() as u8, wagon.number);
            for (compartment, new) in wagon.compartments.iter().zip(fresh.compartments.iter()) {
                let (now, then) = (seats_of(compartment), seats_of(new));
                assert_eq!(now.len(), then.len());
                for (a, b) in now.iter().zip(then.iter()) {
                    assert_eq!(a.number, b.number);
                }
                match compartment {
                    CompartmentType::OpenSpace(_) => {
                        assert_eq!(wagon.wagon_type, WagonType::OpenSpace);
                        assert_eq!(compartment, new);
                    }
                    CompartmentType::Seat6(_) => {
                        assert_eq!(wagon.wagon_type, WagonType::Seat6);
                        assert!(now.iter().all(|seat| seat.is_occupied));
                    }
                    CompartmentType::Seat8(_) => {
                        assert_eq!(wagon.wagon_type, WagonType::Seat8);
                        assert!(now.iter().all(|seat| seat.is_occupied));
                    }
                }
            }
        }
        assert_eq!(train.count_available_seats(), 0);
    }
}

#[test]
fn generate_random_train_varies() {
    let mut lengths = Vec::new();
    let mut shapes = Vec::new();
    for _ in 0..60 {
        let train = Train::generate_random_train();
        if !lengths.contains(&train.wagons.len()) {
            lengths.push(train.wagons.len());
        }
        for wagon in &train.wagons {
            if !shapes.contains(&wagon.wagon_type) {
                shapes.push(wagon.wagon_type.clone());
            }
        }
    }
    assert!(lengths.len() > 1);
    assert_eq!(shapes.len(), 3);
}
