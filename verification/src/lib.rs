//! Verified core of a watering controller that drives a FRITZ!Box smart plug.

pub mod crypto;
pub mod duration;
pub mod pump;
pub mod socket;
pub mod text;
pub mod weather;
