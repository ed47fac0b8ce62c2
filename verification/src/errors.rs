//! The single error channel of the engine: every failure during rendering is
//! one of these kinds, propagated eagerly to the caller.

use vstd::prelude::*;

verus! {

/// The failure kinds a render can surface. Errors abort the walk at once;
/// bytes already written stay in the sink.
#[derive(Clone, Copy, Debug, PartialEq, Eq, Structural)]
pub enum EngineError {
    /// The root template is missing or has no tree.
    IncompleteTemplate,
    /// A template invocation names no entry of the template set.
    UnknownTemplate,
    /// A `$name` is bound in no live frame.
    UnboundVariable,
    /// Field access on a record for an absent name.
    MissingField,
    /// Field access on a value that is neither a record nor a mapping.
    NotIndexable,
    /// A non-function first node received arguments or a pipeline tail.
    NotAFunction,
    /// Field access with extra arguments or a trailing input.
    NotCallable,
    /// A chain whose base expression is explicit nil.
    IndirectionThroughNil,
    /// An identifier absent from the function table.
    UnknownFunction,
    /// A user-callable function itself failed.
    FunctionError,
    /// `range` over a value that cannot be iterated.
    RangeNotIterable,
    /// An argument node kind the evaluator does not accept.
    UnsupportedArg,
    /// A value with no canonical textual form was printed.
    UnformattableValue,
    /// The sink refused a write.
    WriteError,
    /// Rendered bytes were not valid UTF-8.
    InvalidUtf8,
    /// Rebinding the kth-last variable of a frame smaller than k.
    FrameTooSmall,
    /// Nested template invocations deeper than the fixed ceiling.
    TemplateRecursionTooDeep,
    /// A tree shape the parser never produces (empty pipelines, empty
    /// commands, control nodes in expression position, and the like).
    MalformedTree,
}

} // verus!
