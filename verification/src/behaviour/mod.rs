//! The strategies by which a player chooses its action.
pub mod keyboard;
pub mod minimax;
pub mod static_action;
pub mod stupid_random;
