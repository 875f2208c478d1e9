//! What attribute arguments mean, and which of them are refused where.

use super::{
    carries, item_error, parsed_from, problem_text, validate_item, with_value, ArgToken, AttrArgs,
    AttrError, Flavor, Kind, Problem, ProblemModel,
};
use vstd::prelude::*;

verus! {

/// An argument sets the value that it names and no other: the runtime by its word, the
/// number of workers where it is positive, and whether time stands still.
pub proof fn law_values_set_what_they_name(
    args: AttrArgs,
    name: Seq<char>,
    name_at: int,
    value: ArgToken,
    at: int,
)
    ensures
        ({
            let result = with_value(args, name, name_at, value, at);
            let word = value->Text_0@;
            let threads = value->Int_0;
            &&& name == "flavor"@ ==> {
                &&& result is Ok <==> value is Text && (word == "multi_thread"@ || word
                    == "current_thread"@)
                &&& result is Ok && word == "multi_thread"@ ==> result->Ok_0.flavor == Some(
                    Flavor::MultiThread,
                )
                &&& result is Ok && word == "current_thread"@ ==> result->Ok_0.flavor == Some(
                    Flavor::CurrentThread,
                )
                &&& result is Ok ==> result->Ok_0.worker_threads == args.worker_threads
                    && result->Ok_0.start_paused == args.start_paused
                &&& value is Text && result is Err ==> result->Err_0.1 is UnknownFlavor
                &&& !(value is Text) ==> result->Err_0.1 is FlavorNotText
            }
            &&& name == "worker_threads"@ ==> {
                &&& result is Ok <==> value is Int && threads is Some && threads->0 > 0
                &&& result is Ok ==> result->Ok_0.worker_threads == threads && result->Ok_0.flavor
                    == args.flavor && result->Ok_0.start_paused == args.start_paused
                &&& value is Int && result is Err ==> result->Err_0.1 is ThreadsNotPositive
                &&& !(value is Int) ==> result->Err_0.1 is ThreadsNotInteger
            }
            &&& name == "start_paused"@ ==> {
                &&& result is Ok <==> value is Bool
                &&& result is Ok ==> result->Ok_0.start_paused == Some(value->Bool_0)
                    && result->Ok_0.flavor == args.flavor && result->Ok_0.worker_threads
                    == args.worker_threads
                &&& result is Err ==> result->Err_0.1 is PausedNotBool
            }
            &&& name != "flavor"@ && name != "worker_threads"@ && name != "start_paused"@ ==> {
                &&& result is Err
                &&& result->Err_0 == (name_at, ProblemModel::UnknownArgument(name))
            }
            &&& result is Err && (name == "flavor"@ || name == "worker_threads"@ || name
                == "start_paused"@) ==> result->Err_0.0 == at
        }),
{
    lemma_names_differ();
}

proof fn lemma_names_differ()
    ensures
        "flavor"@ != "worker_threads"@,
        "flavor"@ != "start_paused"@,
        "worker_threads"@ != "start_paused"@,
        "multi_thread"@ != "current_thread"@,
{
    reveal_strlit("flavor");
    reveal_strlit("worker_threads");
    reveal_strlit("start_paused");
    reveal_strlit("multi_thread");
    reveal_strlit("current_thread");
    assert("flavor"@.len() == 6 && "worker_threads"@.len() == 14 && "start_paused"@.len() == 12);
    assert("multi_thread"@.len() == 12 && "current_thread"@.len() == 14);
}

/// Arguments are read from the left: a name, an equals sign and a literal, and then either
/// the end or a comma and the next argument. The first token that does not fit is named,
/// and what was expected there.
pub proof fn law_arguments_are_read_from_the_left(tokens: Seq<ArgToken>, at: int, args: AttrArgs)
    requires
        0 <= at <= tokens.len(),
    ensures
        ({
            let result = parsed_from(tokens, at, args);
            let left = tokens.len() - at;
            let known = tokens[at] is Ident && (tokens[at]->Ident_0@ == "flavor"@
                || tokens[at]->Ident_0@ == "worker_threads"@ || tokens[at]->Ident_0@
                == "start_paused"@);
            let equals = left > 1 && tokens[at + 1] is Equals;
            let literal = left > 2 && (tokens[at + 2] is Text || tokens[at + 2] is Int
                || tokens[at + 2] is Bool || tokens[at + 2] is OtherLiteral);
            let value = with_value(args, tokens[at]->Ident_0@, at, tokens[at + 2], at + 2);
            &&& left == 0 ==> result is Ok && result->Ok_0 == args
            &&& left > 0 && !(tokens[at] is Ident) ==> result is Err && result->Err_0 == (
                at,
                ProblemModel::ExpectedName,
            )
            &&& left > 0 && tokens[at] is Ident && !equals ==> result is Err && result->Err_0 == (
                at + 1,
                ProblemModel::ExpectedEquals,
            )
            &&& left > 0 && tokens[at] is Ident && equals && !known ==> result is Err
                && result->Err_0 == (at, ProblemModel::UnknownArgument(tokens[at]->Ident_0@))
            &&& left > 0 && known && equals && !literal ==> result is Err && result->Err_0 == (
                at + 2,
                ProblemModel::ExpectedLiteral,
            )
            &&& left > 0 && known && equals && literal && value is Err ==> result == value
            &&& left == 3 && known && equals && literal && value is Ok ==> result == value
            &&& left > 3 && known && equals && literal && value is Ok && !(tokens[at + 3] is Comma)
                ==> result is Err && result->Err_0 == (at + 3, ProblemModel::ExpectedComma)
            &&& left > 3 && known && equals && literal && value is Ok && tokens[at + 3] is Comma
                ==> result == parsed_from(tokens, at + 4, value->Ok_0)
        }),
{
}

/// An attribute can be applied to a function that is neither generic nor async: `main` to
/// the function of that name alone, and `test` to any other.
pub proof fn law_where_attributes_apply(
    kind: Kind,
    generic: bool,
    is_async: bool,
    name: Seq<char>,
)
    ensures
        item_error(kind, generic, is_async, name) is None <==> !generic && !is_async && (kind
            == Kind::Main <==> name == "main"@),
{
}

/// What is said about a problem names what was expected.
pub proof fn law_problems_are_named(name: Seq<char>)
    ensures
        problem_text(ProblemModel::ExpectedName) == "expected identifier"@,
        problem_text(ProblemModel::ExpectedEquals) == "expected `=`"@,
        problem_text(ProblemModel::ExpectedLiteral) == "expected literal"@,
        problem_text(ProblemModel::ExpectedComma) == "expected `,`"@,
        problem_text(ProblemModel::UnknownFlavor)
            == "expected `flavor = \"current_thread\"` or `flavor = \"multi_thread\"`"@,
        problem_text(ProblemModel::FlavorNotText) == "expected a string literal for `flavor`"@,
        problem_text(ProblemModel::ThreadsNotPositive)
            == "`worker_threads` must be a positive integer"@,
        problem_text(ProblemModel::ThreadsNotInteger)
            == "expected an integer literal for `worker_threads`"@,
        problem_text(ProblemModel::PausedNotBool)
            == "expected a boolean literal for `start_paused`"@,
        problem_text(ProblemModel::UnknownArgument(name)) == "unknown attribute argument `"@ + name
            + "`"@,
{
}

/// The arguments of an attribute are what its tokens mean, read from the first one on with
/// nothing set. The runtime is the one that is asked for, or the usual one; time stands still
/// only where that is said.
pub proof fn law_parsing_and_choosing()
    ensures
        forall|tokens: Vec<ArgToken>, result: Result<AttrArgs, AttrError>| #[trigger]
            call_ensures(AttrArgs::parse, (&tokens,), result) ==> {
                let meant = parsed_from(
                    tokens@,
                    0,
                    AttrArgs { flavor: None, worker_threads: None, start_paused: None },
                );
                &&& result is Ok <==> meant is Ok
                &&& result is Ok ==> result->Ok_0 == meant->Ok_0
                &&& result is Err ==> result->Err_0.at == (meant->Err_0).0 && result->Err_0.problem@
                    == (meant->Err_0).1
            },
        forall|args: AttrArgs, default: Flavor, choice: (Flavor, Option<usize>)| #[trigger]
            call_ensures(AttrArgs::builder_choice, (&args, default), choice) ==> {
                &&& args.flavor is Some ==> choice.0 == args.flavor->0
                &&& args.flavor is None ==> choice.0 == default
                &&& choice.1 == args.worker_threads
            },
        forall|args: AttrArgs, paused: bool| #[trigger]
            call_ensures(AttrArgs::paused, (&args,), paused) ==> (paused
                <==> args.start_paused is Some && args.start_paused->0),
        forall|problem: Problem, message: String| #[trigger]
            call_ensures(Problem::message, (&problem,), message) ==> message@ == problem_text(
                problem@,
            ),
{
}

/// An attribute is refused with what is wrong, under its own name; other attributes of the
/// function are kept, but for those that the compiler would take for its own.
pub proof fn law_refusing_an_attribute()
    ensures
        forall|
            kind: Kind,
            generic: bool,
            is_async: bool,
            name: String,
            result: Result<(), String>,
        | #[trigger]
            call_ensures(validate_item, (kind, generic, is_async, &name), result) ==> {
                let own = if kind is Main {
                    "eddy::main"@
                } else {
                    "eddy::test"@
                };
                &&& result is Ok <==> !generic && !is_async && (kind is Main <==> name@ == "main"@)
                &&& generic ==> result->Err_0@ == "#["@ + own
                    + "] cannot be applied to a generic function"@
                &&& !generic && is_async ==> result->Err_0@ == "#["@ + own
                    + "] cannot be applied to `async fn`; write a synchronous function and `.await` inside it"@
                &&& !generic && !is_async && kind is Main && name@ != "main"@ ==> result->Err_0@
                    == "#[eddy::main] must be applied to `fn main`"@
                &&& !generic && !is_async && kind is Test && name@ == "main"@ ==> result->Err_0@
                    == "#[eddy::test] cannot be applied to `fn main`"@
            },
        forall|name: String, kept: bool| #[trigger]
            call_ensures(carries, (&name,), kept) ==> (kept <==> !(name@ == "main"@ || name@
                == "test"@)),
{
}

} // verus!
