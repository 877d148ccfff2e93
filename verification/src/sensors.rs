//! Sensor drivers: sample metadata, register-value arithmetic, and the GNSS driver's
//! configuration and state machines.

pub mod gnss;
pub mod lis2du12;
pub mod lps22df;
pub mod metadata;
pub mod stts22h;
