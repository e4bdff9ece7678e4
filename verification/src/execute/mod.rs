//! The four engines: vote casting, jury decision aggregation, cancellation
//! and claim settlement. Each one is a single read-modify-write transaction
//! against the store: on success all mutations take effect together, on any
//! error the store is untouched.

mod cancel;
mod claim;
mod decide;
mod vote;

pub use cancel::cancel;
pub use claim::claim;
pub use claim::{claim_payout_msg, prize_amount, refund_amount, refund_mode};
pub use decide::decide;
pub use decide::decide_would_finalize;
pub use decide::jury_payout_fits;
pub use decide::jury_reward_msg;
pub use decide::jury_reward_msgs;
pub use decide::recorded_jurors;
pub use decide::{decide_admissible, decide_finalizes, decide_payout_fits, trial_total};
pub use vote::vote;
pub use vote::vote_cast_choices;
pub use vote::vote_cast_votes;
