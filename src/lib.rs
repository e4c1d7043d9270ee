pub mod bonding_curve;
pub mod config;
pub mod errors;
pub mod instructions;
pub mod tokenomics;
