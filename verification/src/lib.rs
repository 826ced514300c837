//! Seating inventory of a passenger train.
//!
//! A train is a sequence of wagons, a wagon a sequence of compartments of one
//! shape, and a compartment a few rows of numbered seats that are free or
//! occupied. A seat is addressed by the index of its wagon, the index of its
//! compartment and its number.
//!
//! Every executable function carries a contract over the mathematical views
//! of these types, and Verus proves each body against it:
//!
//! - [`management::layout`] models a compartment and what occupying a seat
//!   does to it;
//! - [`management::compartment`] holds the three shapes of compartment and the
//!   operations they share;
//! - [`management::wagon`] and [`management::train`] hold wagons and trains;
//! - [`management::laws`] states what holds across the operations;
//! - [`management::chance`] is the one place where code of another crate is
//!   called, for the random draws.

pub mod management;
