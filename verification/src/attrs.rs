//! The arguments of the attributes that wrap a function in a runtime:
//! `flavor`, `worker_threads` and `start_paused`.

pub mod laws;

use crate::text::push_text;
use vstd::prelude::*;

verus! {

/// The runtime that an attribute asks for.
#[derive(Debug, Clone, Copy, PartialEq, Eq, Structural)]
pub enum Flavor {
    MultiThread,
    CurrentThread,
}

/// A token of the arguments.
pub enum ArgToken {
    /// A name.
    Ident(String),
    /// `=`
    Equals,
    /// `,`
    Comma,
    /// A string literal.
    Text(String),
    /// An integer literal, with its value if that is a size.
    Int(Option<usize>),
    /// `true` or `false`.
    Bool(bool),
    /// Any other literal.
    OtherLiteral,
    /// Anything else.
    Other,
}

/// What is wrong with the arguments.
pub enum Problem {
    ExpectedName,
    ExpectedEquals,
    ExpectedLiteral,
    ExpectedComma,
    UnknownFlavor,
    FlavorNotText,
    ThreadsNotPositive,
    ThreadsNotInteger,
    PausedNotBool,
    UnknownArgument(String),
}

/// What is wrong, and at which token.
pub struct AttrError {
    pub at: usize,
    pub problem: Problem,
}

/// The arguments of an attribute.
#[derive(Debug, Clone, Copy, PartialEq, Eq, Structural)]
pub struct AttrArgs {
    pub flavor: Option<Flavor>,
    pub worker_threads: Option<usize>,
    pub start_paused: Option<bool>,
}

// ---------------------------------------------------------------------------
// What arguments mean
// ---------------------------------------------------------------------------

/// A problem as a value.
pub enum ProblemModel {
    ExpectedName,
    ExpectedEquals,
    ExpectedLiteral,
    ExpectedComma,
    UnknownFlavor,
    FlavorNotText,
    ThreadsNotPositive,
    ThreadsNotInteger,
    PausedNotBool,
    UnknownArgument(Seq<char>),
}

impl View for Problem {
    type V = ProblemModel;

    open spec fn view(&self) -> ProblemModel {
        match *self {
            Problem::ExpectedName => ProblemModel::ExpectedName,
            Problem::ExpectedEquals => ProblemModel::ExpectedEquals,
            Problem::ExpectedLiteral => ProblemModel::ExpectedLiteral,
            Problem::ExpectedComma => ProblemModel::ExpectedComma,
            Problem::UnknownFlavor => ProblemModel::UnknownFlavor,
            Problem::FlavorNotText => ProblemModel::FlavorNotText,
            Problem::ThreadsNotPositive => ProblemModel::ThreadsNotPositive,
            Problem::ThreadsNotInteger => ProblemModel::ThreadsNotInteger,
            Problem::PausedNotBool => ProblemModel::PausedNotBool,
            Problem::UnknownArgument(name) => ProblemModel::UnknownArgument(name@),
        }
    }
}

/// A problem at a token.
pub open spec fn wrong<T>(at: int, problem: ProblemModel) -> Result<T, (int, ProblemModel)> {
    Err((at, problem))
}

/// Whether a token is a literal.
pub open spec fn is_literal(token: ArgToken) -> bool {
    token is Text || token is Int || token is Bool || token is OtherLiteral
}

/// The arguments after one more of them, with the value `value` at token `at`.
pub open spec fn with_value(
    args: AttrArgs,
    name: Seq<char>,
    name_at: int,
    value: ArgToken,
    at: int,
) -> Result<AttrArgs, (int, ProblemModel)> {
    if name == "flavor"@ {
        match value {
            ArgToken::Text(text) => if text@ == "multi_thread"@ {
                Ok(AttrArgs { flavor: Some(Flavor::MultiThread), ..args })
            } else if text@ == "current_thread"@ {
                Ok(AttrArgs { flavor: Some(Flavor::CurrentThread), ..args })
            } else {
                wrong(at, ProblemModel::UnknownFlavor)
            },
            _ => wrong(at, ProblemModel::FlavorNotText),
        }
    } else if name == "worker_threads"@ {
        match value {
            ArgToken::Int(Some(count)) => if count > 0 {
                Ok(AttrArgs { worker_threads: Some(count), ..args })
            } else {
                wrong(at, ProblemModel::ThreadsNotPositive)
            },
            ArgToken::Int(None) => wrong(at, ProblemModel::ThreadsNotPositive),
            _ => wrong(at, ProblemModel::ThreadsNotInteger),
        }
    } else if name == "start_paused"@ {
        match value {
            ArgToken::Bool(paused) => Ok(AttrArgs { start_paused: Some(paused), ..args }),
            _ => wrong(at, ProblemModel::PausedNotBool),
        }
    } else {
        wrong(name_at, ProblemModel::UnknownArgument(name))
    }
}

/// Whether a name is that of an argument.
pub open spec fn is_argument(name: Seq<char>) -> bool {
    name == "flavor"@ || name == "worker_threads"@ || name == "start_paused"@
}

/// What the tokens from `at` on mean, behind the arguments `args`: names with values,
/// separated by commas. A comma may also stand at the end, and a later value of an
/// argument takes the place of an earlier one. The first problem counts.
pub open spec fn parsed_from(tokens: Seq<ArgToken>, at: int, args: AttrArgs) -> Result<
    AttrArgs,
    (int, ProblemModel),
>
    decreases tokens.len() - at,
{
    if at < 0 || at >= tokens.len() {
        Ok(args)
    } else {
        match tokens[at] {
            ArgToken::Ident(name) => {
                if at + 1 >= tokens.len() || !(tokens[at + 1] is Equals) {
                    wrong(at + 1, ProblemModel::ExpectedEquals)
                } else if !is_argument(name@) {
                    wrong(at, ProblemModel::UnknownArgument(name@))
                } else if at + 2 >= tokens.len() || !is_literal(tokens[at + 2]) {
                    wrong(at + 2, ProblemModel::ExpectedLiteral)
                } else {
                    match with_value(args, name@, at, tokens[at + 2], at + 2) {
                        Err(error) => Err(error),
                        Ok(more) => if at + 3 >= tokens.len() {
                            Ok(more)
                        } else if !(tokens[at + 3] is Comma) {
                            wrong(at + 3, ProblemModel::ExpectedComma)
                        } else {
                            parsed_from(tokens, at + 4, more)
                        },
                    }
                }
            },
            _ => wrong(at, ProblemModel::ExpectedName),
        }
    }
}

/// No arguments.
pub open spec fn no_args() -> AttrArgs {
    AttrArgs { flavor: None, worker_threads: None, start_paused: None }
}

// ---------------------------------------------------------------------------
// Parsing
// ---------------------------------------------------------------------------

/// Whether a text is this one.
fn is_text(a: &String, b: &str) -> (same: bool)
    ensures
        same == (a@ == b@),
{
    *a == b.to_owned()
}

/// The value of an argument.
fn take_value(args: AttrArgs, name: &String, name_at: usize, value: &ArgToken, at: usize) -> (result:
    Result<AttrArgs, AttrError>)
    ensures
        match result {
            Ok(more) => with_value(args, name@, name_at as int, *value, at as int) == Ok::<
                AttrArgs,
                (int, ProblemModel),
            >(more),
            Err(error) => with_value(args, name@, name_at as int, *value, at as int) == Err::<
                AttrArgs,
                (int, ProblemModel),
            >((error.at as int, error.problem@)),
        },
{
    if is_text(name, "flavor") {
        match value {
            ArgToken::Text(text) => {
                if is_text(text, "multi_thread") {
                    Ok(AttrArgs { flavor: Some(Flavor::MultiThread), ..args })
                } else if is_text(text, "current_thread") {
                    Ok(AttrArgs { flavor: Some(Flavor::CurrentThread), ..args })
                } else {
                    Err(AttrError { at, problem: Problem::UnknownFlavor })
                }
            },
            _ => Err(AttrError { at, problem: Problem::FlavorNotText }),
        }
    } else if is_text(name, "worker_threads") {
        match value {
            ArgToken::Int(Some(count)) => {
                if *count > 0 {
                    Ok(AttrArgs { worker_threads: Some(*count), ..args })
                } else {
                    Err(AttrError { at, problem: Problem::ThreadsNotPositive })
                }
            },
            ArgToken::Int(None) => Err(AttrError { at, problem: Problem::ThreadsNotPositive }),
            _ => Err(AttrError { at, problem: Problem::ThreadsNotInteger }),
        }
    } else if is_text(name, "start_paused") {
        match value {
            ArgToken::Bool(paused) => Ok(AttrArgs { start_paused: Some(*paused), ..args }),
            _ => Err(AttrError { at, problem: Problem::PausedNotBool }),
        }
    } else {
        Err(AttrError { at: name_at, problem: Problem::UnknownArgument(name.clone()) })
    }
}

/// Whether a token is a literal.
fn literal(token: &ArgToken) -> (result: bool)
    ensures
        result == is_literal(*token),
{
    match token {
        ArgToken::Text(_) => true,
        ArgToken::Int(_) => true,
        ArgToken::Bool(_) => true,
        ArgToken::OtherLiteral => true,
        _ => false,
    }
}

impl AttrArgs {
    /// Parses the arguments of an attribute.
    pub fn parse(tokens: &Vec<ArgToken>) -> (result: Result<AttrArgs, AttrError>)
        requires
            tokens@.len() + 4 <= usize::MAX,
        ensures
            match result {
                Ok(args) => parsed_from(tokens@, 0, no_args()) == Ok::<
                    AttrArgs,
                    (int, ProblemModel),
                >(args),
                Err(error) => parsed_from(tokens@, 0, no_args()) == Err::<
                    AttrArgs,
                    (int, ProblemModel),
                >((error.at as int, error.problem@)),
            },
    {
        let mut args = AttrArgs { flavor: None, worker_threads: None, start_paused: None };
        let mut at: usize = 0;
        while at < tokens.len()
            invariant_except_break
                parsed_from(tokens@, at as int, args) == parsed_from(tokens@, 0, no_args()),
            invariant
                tokens@.len() + 4 <= usize::MAX,
                0 <= at,
            ensures
                parsed_from(tokens@, 0, no_args()) == Ok::<AttrArgs, (int, ProblemModel)>(args),
            decreases tokens.len() - at,
        {
            let name = match &tokens[at] {
                ArgToken::Ident(name) => name,
                _ => {
                    return Err(AttrError { at, problem: Problem::ExpectedName });
                },
            };
            let equals = at + 1 < tokens.len() && match &tokens[at + 1] {
                ArgToken::Equals => true,
                _ => false,
            };
            if !equals {
                return Err(AttrError { at: at + 1, problem: Problem::ExpectedEquals });
            }
            if !is_text(name, "flavor") && !is_text(name, "worker_threads") && !is_text(
                name,
                "start_paused",
            ) {
                return Err(AttrError { at, problem: Problem::UnknownArgument(name.clone()) });
            }
            if at + 2 >= tokens.len() || !literal(&tokens[at + 2]) {
                return Err(AttrError { at: at + 2, problem: Problem::ExpectedLiteral });
            }
            match take_value(args, name, at, &tokens[at + 2], at + 2) {
                Ok(more) => {
                    args = more;
                },
                Err(error) => {
                    return Err(error);
                },
            }
            if at + 3 >= tokens.len() {
                break;
            }
            let comma = match &tokens[at + 3] {
                ArgToken::Comma => true,
                _ => false,
            };
            if !comma {
                return Err(AttrError { at: at + 3, problem: Problem::ExpectedComma });
            }
            at = at + 4;
        }
        Ok(args)
    }

    /// The runtime to build: the one that is asked for, or else `default`; and how many
    /// workers, if that is said.
    pub fn builder_choice(&self, default: Flavor) -> (choice: (Flavor, Option<usize>))
        ensures
            choice.0 == (match self.flavor {
                Some(flavor) => flavor,
                None => default,
            }),
            choice.1 == self.worker_threads,
    {
        let flavor = match self.flavor {
            Some(flavor) => flavor,
            None => default,
        };
        (flavor, self.worker_threads)
    }

    /// Whether time stands still at the beginning of a test.
    pub fn paused(&self) -> (paused: bool)
        ensures
            paused == (self.start_paused == Some(true)),
    {
        match self.start_paused {
            Some(paused) => paused,
            None => false,
        }
    }
}

/// A later value of an argument takes the place of an earlier one, and arguments that
/// are not given stay as they were.
pub proof fn law_arguments_are_independent(
    args: AttrArgs,
    flavor: String,
    count: usize,
    paused: bool,
    at: int,
)
    requires
        flavor@ == "multi_thread"@ || flavor@ == "current_thread"@,
        count > 0,
    ensures
        with_value(args, "flavor"@, at, ArgToken::Text(flavor), at + 2) == Ok::<
            AttrArgs,
            (int, ProblemModel),
        >(
            AttrArgs {
                flavor: Some(
                    if flavor@ == "multi_thread"@ {
                        Flavor::MultiThread
                    } else {
                        Flavor::CurrentThread
                    },
                ),
                ..args
            },
        ),
        with_value(args, "worker_threads"@, at, ArgToken::Int(Some(count)), at + 2) == Ok::<
            AttrArgs,
            (int, ProblemModel),
        >(AttrArgs { worker_threads: Some(count), ..args }),
        with_value(args, "start_paused"@, at, ArgToken::Bool(paused), at + 2) == Ok::<
            AttrArgs,
            (int, ProblemModel),
        >(AttrArgs { start_paused: Some(paused), ..args }),
{
    reveal_strlit("flavor");
    reveal_strlit("worker_threads");
    reveal_strlit("start_paused");
    assert("flavor"@.len() != "worker_threads"@.len());
    assert("flavor"@.len() != "start_paused"@.len());
    assert("worker_threads"@.len() != "start_paused"@.len());
}

// ---------------------------------------------------------------------------
// Messages
// ---------------------------------------------------------------------------

/// What to say about a problem.
pub open spec fn problem_text(problem: ProblemModel) -> Seq<char> {
    match problem {
        ProblemModel::ExpectedName => "expected identifier"@,
        ProblemModel::ExpectedEquals => "expected `=`"@,
        ProblemModel::ExpectedLiteral => "expected literal"@,
        ProblemModel::ExpectedComma => "expected `,`"@,
        ProblemModel::UnknownFlavor => "expected `flavor = \"current_thread\"` or `flavor = \"multi_thread\"`"@,
        ProblemModel::FlavorNotText => "expected a string literal for `flavor`"@,
        ProblemModel::ThreadsNotPositive => "`worker_threads` must be a positive integer"@,
        ProblemModel::ThreadsNotInteger => "expected an integer literal for `worker_threads`"@,
        ProblemModel::PausedNotBool => "expected a boolean literal for `start_paused`"@,
        ProblemModel::UnknownArgument(name) => "unknown attribute argument `"@ + name + "`"@,
    }
}

impl Problem {
    /// What to say about a problem.
    pub fn message(&self) -> (message: String)
        ensures
            message@ == problem_text(self@),
    {
        match self {
            Problem::ExpectedName => "expected identifier".to_owned(),
            Problem::ExpectedEquals => "expected `=`".to_owned(),
            Problem::ExpectedLiteral => "expected literal".to_owned(),
            Problem::ExpectedComma => "expected `,`".to_owned(),
            Problem::UnknownFlavor =>
                "expected `flavor = \"current_thread\"` or `flavor = \"multi_thread\"`".to_owned(),
            Problem::FlavorNotText => "expected a string literal for `flavor`".to_owned(),
            Problem::ThreadsNotPositive =>
                "`worker_threads` must be a positive integer".to_owned(),
            Problem::ThreadsNotInteger =>
                "expected an integer literal for `worker_threads`".to_owned(),
            Problem::PausedNotBool => "expected a boolean literal for `start_paused`".to_owned(),
            Problem::UnknownArgument(name) => {
                let mut message = "unknown attribute argument `".to_owned();
                push_text(&mut message, name.as_str());
                push_text(&mut message, "`");
                message
            },
        }
    }
}

// ---------------------------------------------------------------------------
// The function
// ---------------------------------------------------------------------------

/// The attributes.
#[derive(Debug, Clone, Copy, PartialEq, Eq, Structural)]
pub enum Kind {
    Main,
    Test,
}

/// The name of an attribute.
pub open spec fn kind_name(kind: Kind) -> Seq<char> {
    match kind {
        Kind::Main => "eddy::main"@,
        Kind::Test => "eddy::test"@,
    }
}

/// Why an attribute cannot be applied to a function, if it cannot.
pub open spec fn item_error(
    kind: Kind,
    generic: bool,
    is_async: bool,
    name: Seq<char>,
) -> Option<Seq<char>> {
    if generic {
        Some("#["@ + kind_name(kind) + "] cannot be applied to a generic function"@)
    } else if is_async {
        Some(
            "#["@ + kind_name(kind)
                + "] cannot be applied to `async fn`; write a synchronous function and `.await` inside it"@,
        )
    } else if kind == Kind::Main && name != "main"@ {
        Some("#[eddy::main] must be applied to `fn main`"@)
    } else if kind == Kind::Test && name == "main"@ {
        Some("#[eddy::test] cannot be applied to `fn main`"@)
    } else {
        None
    }
}

/// Checks that an attribute can be applied to a function.
pub fn validate_item(kind: Kind, generic: bool, is_async: bool, name: &String) -> (result: Result<
    (),
    String,
>)
    ensures
        match result {
            Ok(_) => item_error(kind, generic, is_async, name@) is None,
            Err(message) => item_error(kind, generic, is_async, name@) == Some(message@),
        },
{
    if generic || is_async {
        let mut message = "#[".to_owned();
        match kind {
            Kind::Main => {
                push_text(&mut message, "eddy::main");
            },
            Kind::Test => {
                push_text(&mut message, "eddy::test");
            },
        }
        if generic {
            push_text(&mut message, "] cannot be applied to a generic function");
        } else {
            push_text(
                &mut message,
                "] cannot be applied to `async fn`; write a synchronous function and `.await` inside it",
            );
        }
        return Err(message);
    }
    let is_main = is_text(name, "main");
    match kind {
        Kind::Main => if !is_main {
            return Err("#[eddy::main] must be applied to `fn main`".to_owned());
        },
        Kind::Test => if is_main {
            return Err("#[eddy::test] cannot be applied to `fn main`".to_owned());
        },
    }
    Ok(())
}

/// Whether another attribute of the function is kept: all are, but `main` and `test`.
pub fn carries(name: &String) -> (kept: bool)
    ensures
        kept == (name@ != "main"@ && name@ != "test"@),
{
    !is_text(name, "main") && !is_text(name, "test")
}

} // verus!
