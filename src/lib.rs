//! Core of a load meter: low-priority probes pinned one per physical core
//! count units of busy work; the controller drains those counts at every
//! tick and compares their sum with a stored calibration baseline.

pub mod calibration;
pub mod controller;
pub mod decimal;
pub mod kernel;
pub mod probe;
