pub mod category;
pub mod distance;
pub mod explain;
pub mod item;
pub mod practice;
pub mod rng;
pub mod search;
pub mod sentence;
pub mod utils;
pub mod text;
pub mod ui;
