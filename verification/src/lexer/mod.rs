//! From a flat token list to syntax nodes.

pub mod builders;
pub mod classify;
pub mod dispatch;
pub mod grammar;
pub mod node;
pub mod pieces;
pub mod scan;
pub mod scan_laws;

pub use dispatch::load;
pub use node::Argument;
pub use node::ConditionBlock;
pub use node::Expression;
pub use node::Function;
pub use node::FunctionCall;
pub use node::Immutablity;
pub use node::Lexer;
pub use node::Literal;
pub use node::Match;
pub use node::MatchCase;
pub use node::Math;
pub use node::Node;
pub use node::NodeData;
pub use node::Operations;
pub use node::Statement;
pub use node::Struct;
pub use node::StructMember;
pub use node::VariableAssignment;
pub use scan::get_till_token_or_block;
