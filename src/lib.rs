//! Conversion of quantities between units of length, temperature and mass.
//! Quantities are exact rationals, so conversions lose nothing.
pub mod convert;
pub mod parse;
pub mod ratio;
pub mod registry;
pub mod units;
