//! What a window decides: what it shows of the hierarchy, what its keys mean
//! and what it asks of its driver.

pub mod agents;
pub mod appearance;
pub mod keys;
pub mod selection;
pub mod updates;
pub mod view;
pub mod scene;
