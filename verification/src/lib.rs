//! Value and type model at the heart of a GraphQL query-execution engine:
//! the representation of parsed query documents and the algebra for
//! GraphQL-style literal values, including constant folding of variable
//! references against a runtime binding map.

pub mod ast;
pub mod digits;
pub mod input_value;
pub mod integrations;
pub mod scalar;
pub mod span;

pub use ast::{
    Arguments, Definition, Directive, Document, Field, Fragment, FragmentSpread, InlineFragment,
    Operation, OperationType, OwnedDocument, Selection, Type, VariableDefinition,
    VariableDefinitions,
};
pub use input_value::{FromInputValue, InputValue, IntoInputValue, ToInputValue, Variables};
pub use scalar::{DefaultScalarValue, ScalarValue};
pub use span::{SourcePosition, Span, Spanning};
