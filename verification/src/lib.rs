//! An election engine for an agent-based settlement simulation.
//!
//! The populace periodically opens an election over a fixed list of options
//! (build a farm, build a house, mint money, do nothing, ...).  Each voter
//! rates every option on a fixed seven-level scale; the rating vector is
//! encoded into method-specific ballots, identical ballots are bundled, and
//! seven voting methods (First-Past-The-Post, Approval, Preferential,
//! Good-Ok-Bad, STAR, Anti-Plurality, Usual Judgment) tally the bundles and
//! name a winner.  The lifecycle module owns the open elections, accepts
//! votes, and resolves each election after its open period elapses.

pub mod want_level;
pub mod ratings;
pub mod ballots;
pub mod bundles;
pub mod tallies;
pub mod hunger;
pub mod election;
pub mod first_pass_the_post;
pub mod approval;
pub mod anti_plurality;
pub mod star;
pub mod good_ok_bad;
pub mod preferential;
pub mod score_count;
pub mod usual_judgment;
pub mod rng;
pub mod voter;
pub mod world_stats;
pub mod death;
pub mod energy;
pub mod shelter;
pub mod reproduction;
