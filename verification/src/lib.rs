//! The execution core of a small stack-based, template-driven language.
//!
//! Source text is parsed into template values, templates are rendered
//! against a stack and a chain of scopes, and the instructions that come of
//! it are run by a stack machine. Before a program runs, a preparation pass
//! may evaluate what the program marks for early evaluation.
pub mod built_in;
pub mod comptime;
pub mod invoke;
pub mod parse;
pub mod program;
pub mod reading_back;
pub mod render;
pub mod scope;
pub mod text;
pub mod to_syntax;
pub mod type_system;
pub mod types;

pub use built_in::{
    get_comptime_builtins, get_compile_builtins, get_interpret_builtins, Arity, BuiltInError,
    BuiltIns, InterpretBuiltIn,
};
pub use comptime::{comptime_pass, ComptimeError};
pub use invoke::{
    interpret, interpret_one, interpret_steps, invoke, ExeState, Halt, RuntimeError,
};
pub use parse::{parse, parse_str, ParseError, ParseStringError};
pub use program::{interpret_str, SidError};
pub use render::{render_template, RenderError};
pub use scope::Scope;
pub use to_syntax::ToSyntax;
pub use type_system::SidType;
pub use types::{DataValue, ProgramValue, Template, TemplateData, TemplateValue};
