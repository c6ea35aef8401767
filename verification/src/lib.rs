//! An embeddable scripting language: its syntax tree, its values, and a
//! verified interpreter for them.
//!
//! A program is a list of statements ([`ast`]). Running it ([`interpreter`])
//! gives the lines it prints, exactly as [`semantics`] says: every
//! executable function here is proved to compute what the corresponding
//! function on models states. Where a program needs the host, for an
//! object of its type registry or for a native function, the run records
//! the request and ends as pending; the host answers, and runs the program
//! again with the answer ([`replay`]).
//!
//! [`laws`], [`wellformed`] and [`replay`] hold what is proved of the
//! language itself.

pub mod arith;
pub mod assoc;
pub mod ast;
pub mod interpreter;
pub mod laws;
pub mod listform;
pub mod objects;
pub mod registry;
pub mod replay;
pub mod semantics;
pub mod text;
pub mod token;
pub mod value;
pub mod wellformed;

pub use ast::{BinOp, Expr, ListItem, Stmt};
pub use interpreter::{
    count_asked, eval_expr_for_tests, pending_request, printed_lines, run, run_tests, Attempt,
    Context, Interpreter,
};
pub use listform::{list_to_stmt, stmt_to_list_expr};
pub use objects::live_objects;
pub use registry::{
    call_answer, call_line, type_lines, type_list_lines, CallReply, MethodInfo, OpInfo, OpsInfo,
    Returned, TypeInfo,
};
pub use semantics::BlockHandler;
pub use token::{lex, unescape, Spanned, Token};
pub use value::{
    to_string, Answer, Arg, ControlFlow, Env, Error, ErrorKind, Output, ParamType, Request, Value,
};
