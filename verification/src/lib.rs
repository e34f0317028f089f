//! Boolean conditions over the state of an 8-bit processor: a small grammar,
//! the typed expression it denotes, and its evaluation against registers and
//! memory.
//!
//! Text such as `A = 0x12` or `#0x1234 >= 0x10` is parsed by
//! [`parse_condition`] into a [`BooleanExpression`], which [`evaluate`]
//! decides against a [`MachineState`].

pub mod ascii;
pub mod builder;
pub mod condition;
pub mod diagnostic;
pub mod grammar;
pub mod hexadecimal;
pub mod laws;
pub mod layout;
pub mod machine;

pub use builder::{parse_boolex, parse_condition, ParseError};
pub use condition::{evaluate, BooleanExpression, OutOfBoundsMemoryAccess, Source8};
pub use diagnostic::{expected_hint, location_message, marker_line};
pub use grammar::{BEParser, Expected, InputLocation, Pair, ParseTree, Rule, SyntaxError};
pub use machine::{MachineState, Registers};
