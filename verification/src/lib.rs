//! Helpers for a postflop poker solver: card and flop texts, flop similarity and
//! canonical suits, scenario and range files, solution file names, the decisions of
//! the walks that store solved strategies, and the commands of the tree explorers.

pub mod cards;
pub mod flop_similarity;
pub mod navigation;
pub mod ranges;
pub mod scenario;
pub mod solutions;
pub mod suit_mapper;
pub mod text;
pub mod tree;
pub mod walk;
