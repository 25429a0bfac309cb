//! The flat public surface of the library: every function under one roof.

pub use crate::decimal::format_number_10d;
pub use crate::decimal::u64_to_string;
pub use crate::factorial::fact;
pub use crate::factorial::fact_vec;
pub use crate::factorial::gamma;
pub use crate::factorial::gamma_vec;
pub use crate::generator::capped_size;
pub use crate::parse::string_to_u64;
pub use crate::random::format_clock_parts;
pub use crate::random::formatted;
pub use crate::random::rand;
