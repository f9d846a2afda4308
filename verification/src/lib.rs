//! Roadmap planning: scoring work items by urgency and greedily allocating a
//! limited pool of contributors to them.
//!
//! Urgency is a value in hundredths (0 to 100, standing for 0.00 to 1.00),
//! computed from an item's estimated complexity, estimated value and date
//! span. Allocation walks the items in descending urgency order and drains a
//! shared contributor pool per a tiered rule.

pub mod allocation;
pub mod contributor;
pub mod date;
pub mod roadmap;
pub mod sorting;
