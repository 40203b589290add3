//! Security classification of wireless beacon frames and a duplicate-free
//! catalog of the network names already reported in a scanning session.

pub mod beacon;
pub mod catalog;
pub mod elements;
pub mod security;

pub use beacon::{classify_frame, handle_beacon, handle_frame, Report};
pub use catalog::Catalog;
pub use elements::{scan_elements, security_of_elements};
pub use security::{classify, Security, SecurityFlags};
