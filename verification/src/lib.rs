//! Booking working hours on a Libemax site: signing in, finding the form that takes bookings,
//! preparing bookings for many days and reading what the site answers.

pub mod app;
pub mod booking;
pub mod calendar;
pub mod discovery;
pub mod fields;
pub mod form;
pub mod job;
pub mod json;
pub mod libemax;
pub mod links;
pub mod lookup;
pub mod markup;
pub mod sorting;
pub mod storage;
pub mod text;
