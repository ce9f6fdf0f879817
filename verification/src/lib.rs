//! Decoding of 802.11 MAC frames and aggregation of the devices they reveal.
//!
//! The crate has two halves. The decoder ([`wifi`], with [`tag`] for the
//! elements of management frames and [`address`] for hardware addresses)
//! turns a captured byte buffer into a typed frame. The registry
//! ([`devices`]) folds decoded frames into one record per hardware address,
//! asking a vendor database ([`manufacturer`]) who made each new device, and
//! answers aggregate queries ([`histogram`]).
//!
//! Beside them stands the state of a dashboard that shows the registry:
//! selections ([`ui`]), pages ([`page`]) and what keys do ([`dashboard`]).
//! Drawing, the keyboard and the capture itself are left to the program that
//! uses the crate.

pub mod address;
pub mod dashboard;
pub mod devices;
pub mod histogram;
pub mod manufacturer;
pub mod page;
pub mod tag;
pub mod ui;
pub mod wifi;
