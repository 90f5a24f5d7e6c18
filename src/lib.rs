//! Early-boot region allocators.
//!
//! Both allocators manage one contiguous address range and serve byte
//! requests from one end and pages (or a second byte stream) from the other.
//! A small linear-probing hash map keyed by `u64` sits beside them.

mod error;
pub mod align;
pub mod early;
pub mod lab;
pub mod map;

pub use error::AllocError;
pub use early::{EarlyAllocator, EarlyState};
pub use lab::{LabByteAllocator, LabState, Placement, SizeClass};
pub use map::{HashMap, Iter};
