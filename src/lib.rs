//! Fitting a byte count into four characters of text.
pub mod decimal;
pub mod fit;
pub mod laws;
pub mod rounding;

pub use fit::fit_4;
