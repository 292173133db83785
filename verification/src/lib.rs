//! Front end of a small compiler: a segment scanner over a flat token list,
//! a dispatch loop that builds syntax nodes from it, and a generator that
//! lowers nodes to target text.

pub mod compiler;
pub mod diagnostics;
pub mod lexer;
pub mod token;
pub mod types;

pub use lexer::Argument;
pub use lexer::ConditionBlock;
pub use lexer::Expression;
pub use lexer::Function;
pub use lexer::FunctionCall;
pub use lexer::Immutablity;
pub use lexer::Lexer;
pub use lexer::Literal;
pub use lexer::Match;
pub use lexer::MatchCase;
pub use lexer::Math;
pub use lexer::Node;
pub use lexer::NodeData;
pub use lexer::Operations;
pub use lexer::Statement;
pub use lexer::Struct;
pub use lexer::StructMember;
pub use lexer::VariableAssignment;
pub use types::Types;
