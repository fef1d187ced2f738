//! A verified scoring engine and Monte Carlo driver for the dice game Farkle.
//!
//! The scoring engine turns a hand of one to six six-sided dice into a point
//! value, a whole-hand special combination, and a count of cleared face slots
//! that sizes the next roll. The driver repeatedly rolls and scores hands to
//! estimate the long-run average score per scoring roll.

pub mod die;
pub mod scoring;
pub mod sim;
