//! The validation capability and the rules on plain text.

pub mod rules;
pub mod traits;

pub use rules::validate_ip_address;
pub use traits::Validate;
