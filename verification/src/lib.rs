//! Scoring of predicted dependency parses against gold-standard parses:
//! dense numbering of classes, confusion matrices over them, lock-step
//! comparison of two sentence streams, and the report tables built from
//! the result.

pub mod class;
pub mod confusion;
pub mod counts;
pub mod grid;
pub mod laws;
pub mod numberer;
pub mod render;
pub mod reporter;
pub mod score;
pub mod table;
pub mod token;

pub use crate::class::Class;
pub use crate::confusion::Confusion;
pub use crate::counts::Counts;
pub use crate::numberer::Numberer;
pub use crate::reporter::{Destinations, Report};
pub use crate::score::{countable, score, ScoreError, Scorer};
pub use crate::table::{Cell, Ratio, Table};
pub use crate::token::{Feature, GetFeature, Head, Node, Sentence, Token};
