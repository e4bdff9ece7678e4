//! Read-only views of the store, with no side effects.

mod get_something;
mod get_trial;

pub use get_something::get_ballot;
pub use get_trial::get_trial;
