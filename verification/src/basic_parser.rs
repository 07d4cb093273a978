pub use crate::basic::{char, digit, string};
