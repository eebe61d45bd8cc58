//! A recognizer for one Gherkin scenario outline: optional tag lines, a
//! feature header, a scenario-outline header and a Given / When / Then step
//! triple, each on a newline-terminated line of its own.
//!
//! Every executable function states, over the characters of its input, which
//! text it accepts, what it captures and what it leaves unconsumed.

pub mod diagnosis;
pub mod laws;
pub mod lines;
pub mod outline;
pub mod parse;
pub mod primitives;
pub mod text;

pub use diagnosis::{Expected, Failure, Keyword, Outcome, ParseError, Parsed};
pub use lines::{prefixed_line, until_n, ws};
pub use outline::{header_parser, outline_parser, OutlineView, ScenarioOutline};
pub use parse::{
    and_parser, closing_step_parser, comment_parser, feature_parser, given_parser,
    language_parser, one_or_more, scenario_parser, tag_parser, then_and_parser, then_parser,
    when_parser,
};
pub use text::trim;
