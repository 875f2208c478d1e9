//! The arguments of the attributes, and what they can be applied to.

use eddy::attrs::{carries, validate_item, ArgToken, AttrArgs, Flavor, Kind, Problem};

fn ident(name: &str) -> ArgToken {
    ArgToken::Ident(name.to_string())
}

fn text(value: &str) -> ArgToken {
    ArgToken::Text(value.to_string())
}

fn assign(name: &str, value: ArgToken) -> Vec<ArgToken> {
    vec![ident(name), ArgToken::Equals, value]
}

fn refusal(tokens: Vec<ArgToken>) -> (usize, String) {
    let error = AttrArgs::parse(&tokens).err().unwrap();
    (error.at, error.problem.message())
}

#[test]
fn arguments_come_in_any_order() {
    let mut tokens = assign("worker_threads", ArgToken::Int(Some(3)));
    tokens.push(ArgToken::Comma);
    tokens.extend(assign("flavor", text("multi_thread")));
    tokens.push(ArgToken::Comma);
    tokens.extend(assign("start_paused", ArgToken::Bool(true)));
    tokens.push(ArgToken::Comma);
    let args = AttrArgs::parse(&tokens).ok().unwrap();
    assert_eq!(args.flavor, Some(Flavor::MultiThread));
    assert_eq!(args.worker_threads, Some(3));
    assert!(args.paused());
    assert_eq!(
        args.builder_choice(Flavor::CurrentThread),
        (Flavor::MultiThread, Some(3))
    );
}

#[test]
fn defaults_hold_where_nothing_is_said() {
    let args = AttrArgs::parse(&vec![]).ok().unwrap();
    assert_eq!(args.flavor, None);
    assert!(!args.paused());
    assert_eq!(
        args.builder_choice(Flavor::CurrentThread).0,
        Flavor::CurrentThread
    );
}

#[test]
fn every_problem_is_named_at_its_token() {
    assert_eq!(
        refusal(vec![ArgToken::Comma]),
        (0, "expected identifier".to_string())
    );
    assert_eq!(
        refusal(vec![ident("flavor")]),
        (1, "expected `=`".to_string())
    );
    assert_eq!(
        refusal(vec![ident("flavor"), ArgToken::Equals, ident("x")]),
        (2, "expected literal".to_string())
    );
    let mut two = assign("start_paused", ArgToken::Bool(false));
    two.push(ident("flavor"));
    assert_eq!(refusal(two), (3, "expected `,`".to_string()));
    assert_eq!(
        refusal(assign("flavor", text("green"))),
        (
            2,
            "expected `flavor = \"current_thread\"` or `flavor = \"multi_thread\"`".to_string()
        )
    );
    assert_eq!(
        refusal(assign("flavor", ArgToken::Int(Some(1)))),
        (2, "expected a string literal for `flavor`".to_string())
    );
    assert_eq!(
        refusal(assign("worker_threads", ArgToken::Int(Some(0)))),
        (2, "`worker_threads` must be a positive integer".to_string())
    );
    assert_eq!(
        refusal(assign("worker_threads", text("3"))),
        (
            2,
            "expected an integer literal for `worker_threads`".to_string()
        )
    );
    assert_eq!(
        refusal(assign("start_paused", text("true"))),
        (2, "expected a boolean literal for `start_paused`".to_string())
    );
    assert_eq!(
        refusal(assign("speed", ArgToken::OtherLiteral)).1,
        "unknown attribute argument `speed`"
    );
    assert!(Problem::ExpectedComma.message().contains(','));
}

#[test]
fn attributes_know_what_they_can_be_applied_to() {
    let check = |kind: Kind, generic: bool, is_async: bool, name: &str| {
        validate_item(kind, generic, is_async, &name.to_string())
    };
    assert!(check(Kind::Main, false, false, "main").is_ok());
    assert!(check(Kind::Test, false, false, "works").is_ok());
    assert_eq!(
        check(Kind::Main, true, true, "main").unwrap_err(),
        "#[eddy::main] cannot be applied to a generic function"
    );
    assert_eq!(
        check(Kind::Test, false, true, "works").unwrap_err(),
        "#[eddy::test] cannot be applied to `async fn`; write a synchronous function and `.await` inside it"
    );
    assert_eq!(
        check(Kind::Main, false, false, "start").unwrap_err(),
        "#[eddy::main] must be applied to `fn main`"
    );
    assert_eq!(
        check(Kind::Test, false, false, "main").unwrap_err(),
        "#[eddy::test] cannot be applied to `fn main`"
    );
    assert!(carries(&"allow".to_string()));
    assert!(!carries(&"test".to_string()) && !carries(&"main".to_string()));
}
