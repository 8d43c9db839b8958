//! The decisions of a program that trains recurrent models on a stock's minute
//! bars and forecasts the next trading day with them: what the command line asks
//! for, how data is prepared and split, which features are selected, which stage
//! of training or forecasting comes next, and how a forecast is written down.
//!
//! The library decides; the program around it reads and writes files, trains
//! models and prints.

pub mod double;
pub mod features;
pub mod frame;
pub mod loading;
pub mod prediction;
pub mod preparation;
pub mod ratio;
pub mod request;
pub mod schedule;
pub mod session;
pub mod share;
pub mod split;
pub mod text;
pub mod training;
pub mod workflow;
