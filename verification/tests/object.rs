use minilisp::env::Env;
use minilisp::error::{Error, Fault, ParseError, RuntimeError, Shape};
use minilisp::evaluate;
use minilisp::object::Object;

fn sym(name: &str) -> Object {
    Object::Symbol(name.to_string())
}

#[test]
fn conversions_unwrap_the_matching_shape() {
    assert_eq!(Object::Integer(5).into_integer(), Ok(5));
    assert_eq!(Object::Boolean(true).into_boolean(), Ok(true));
    assert_eq!(sym("a").into_symbol(), Ok("a".to_string()));
    assert_eq!(
        Object::List(vec![Object::Integer(1)]).into_list(),
        Ok(vec![Object::Integer(1)])
    );
}

#[test]
fn conversions_refuse_other_shapes() {
    assert_eq!(
        Object::Boolean(true).into_integer(),
        Err(RuntimeError::TypeMismatch(Shape::Integer))
    );
    assert_eq!(
        Object::Integer(1).into_boolean(),
        Err(RuntimeError::TypeMismatch(Shape::Boolean))
    );
    assert_eq!(
        Object::Integer(1).into_symbol(),
        Err(RuntimeError::TypeMismatch(Shape::Symbol))
    );
    assert_eq!(
        sym("a").into_list(),
        Err(RuntimeError::TypeMismatch(Shape::List))
    );
}

#[test]
fn renders_integers() {
    assert_eq!(Object::Integer(0).to_string(), "0");
    assert_eq!(Object::Integer(7).to_string(), "7");
    assert_eq!(Object::Integer(10).to_string(), "10");
    assert_eq!(Object::Integer(-42).to_string(), "-42");
    assert_eq!(Object::Integer(1234567890).to_string(), "1234567890");
    assert_eq!(Object::Integer(i64::MAX).to_string(), "9223372036854775807");
    assert_eq!(Object::Integer(i64::MIN).to_string(), "-9223372036854775808");
}

#[test]
fn renders_truth_values_and_symbols() {
    assert_eq!(Object::Boolean(true).to_string(), "true");
    assert_eq!(Object::Boolean(false).to_string(), "false");
    assert_eq!(sym("abc").to_string(), "abc");
    assert_eq!(sym("").to_string(), "");
}

#[test]
fn renders_lists() {
    assert_eq!(Object::List(vec![]).to_string(), "()");
    assert_eq!(Object::List(vec![Object::Integer(1)]).to_string(), "(1)");
    assert_eq!(
        Object::List(vec![
            sym("+"),
            Object::Integer(1),
            Object::List(vec![sym("*"), Object::Integer(2), Object::Integer(3)]),
        ])
        .to_string(),
        "(+ 1 (* 2 3))"
    );
}

#[test]
fn renders_callables() {
    assert_eq!(
        Object::Function(
            vec!["a".to_string(), "b".to_string()],
            vec![sym("+"), sym("a"), sym("b")]
        )
        .to_string(),
        "(fn (a b) (+ a b))"
    );
    assert_eq!(Object::Function(vec![], vec![]).to_string(), "(fn () ())");
    assert_eq!(Object::PrimitiveFunction("+".to_string(), 2).to_string(), "+/2");
    assert_eq!(Object::SpecialForm("if".to_string(), Some(3)).to_string(), "if/3");
    assert_eq!(Object::SpecialForm("progn".to_string(), None).to_string(), "progn/*");
    assert_eq!(
        Object::SpecialForm("wide".to_string(), Some(usize::MAX)).to_string(),
        format!("wide/{}", usize::MAX)
    );
}

#[test]
fn write_appends_to_the_text() {
    let mut text = String::from("=> ");
    Object::List(vec![Object::Integer(1), Object::Integer(2)]).write(&mut text);
    assert_eq!(text, "=> (1 2)");
}

#[test]
fn a_clone_is_equal_and_independent() {
    let first = Object::Function(
        vec!["x".to_string()],
        vec![sym("+"), sym("x"), Object::List(vec![Object::Integer(1), Object::Boolean(true)])],
    );
    let copy = first.clone();
    assert_eq!(copy, first);
    drop(first);
    assert_eq!(copy.to_string(), "(fn (x) (+ x (1 true)))");
}

#[test]
fn messages_of_errors() {
    assert_eq!(
        RuntimeError::UnboundSymbol("foo".to_string()).message(),
        "Unknown symbol: foo"
    );
    assert_eq!(RuntimeError::TypeMismatch(Shape::Integer).message(), "Expected integer");
    assert_eq!(RuntimeError::TypeMismatch(Shape::Boolean).message(), "Expected boolean");
    assert_eq!(RuntimeError::TypeMismatch(Shape::Symbol).message(), "Expected symbol");
    assert_eq!(RuntimeError::TypeMismatch(Shape::List).message(), "Expected list");
    assert_eq!(
        RuntimeError::ArityMismatch("+".to_string(), 2, 1).message(),
        "Expected 2 arguments to +"
    );
    assert_eq!(
        RuntimeError::ArityMismatch("wide".to_string(), 12, 0).message(),
        "Expected 12 arguments to wide"
    );
    assert_eq!(
        RuntimeError::NotCallable("(1 2)".to_string()).message(),
        "Expected callable, got (1 2)"
    );
    assert_eq!(
        RuntimeError::CannotEvalCallable("+/2".to_string()).message(),
        "Cannot eval +/2"
    );
    assert_eq!(
        RuntimeError::UnknownSpecialForm("loop".to_string()).message(),
        "Unknown special form: loop"
    );
    assert_eq!(
        RuntimeError::Fault(Fault::DivisionByZero).message(),
        "Division by zero"
    );
    assert_eq!(
        RuntimeError::Fault(Fault::DepthExceeded).message(),
        "Recursion limit exceeded"
    );
    assert_eq!(
        RuntimeError::Fault(Fault::UnknownPrimitive).message(),
        "Unknown primitive function"
    );
    assert_eq!(
        RuntimeError::Fault(Fault::MissingOperand).message(),
        "Missing operand"
    );
}

#[test]
fn only_faults_are_fatal() {
    assert!(RuntimeError::Fault(Fault::DepthExceeded).is_fault());
    assert!(!RuntimeError::UnboundSymbol("a".to_string()).is_fault());
    assert!(!RuntimeError::TypeMismatch(Shape::List).is_fault());
    assert!(Error::Runtime(RuntimeError::Fault(Fault::DivisionByZero)).is_fault());
    assert!(!Error::Runtime(RuntimeError::NotCallable("1".to_string())).is_fault());
    assert!(!Error::Parse(ParseError::ExpectedOpenParen).is_fault());
}

#[test]
fn evaluate_gives_the_text_of_the_value() {
    let mut env = Env::base();
    assert_eq!(evaluate("(+ 1 (* 2 3))", &mut env), Ok("7".to_string()));
    assert_eq!(evaluate("(< 1 2)", &mut env), Ok("true".to_string()));
    assert_eq!(evaluate("(def inc (fn (x) (+ x 1)))", &mut env), Ok("true".to_string()));
    assert_eq!(evaluate("(inc 41)", &mut env), Ok("42".to_string()));
    assert_eq!(evaluate("(fn (a) (+ a 1))", &mut env), Ok("(fn (a) (+ a 1))".to_string()));
    assert_eq!(evaluate("()", &mut env), Ok("()".to_string()));
}

#[test]
fn evaluate_gives_the_error() {
    let mut env = Env::base();
    assert_eq!(evaluate("1", &mut env), Err(Error::Parse(ParseError::ExpectedOpenParen)));
    let unbound = evaluate("(foo)", &mut env).unwrap_err();
    assert_eq!(unbound, Error::Runtime(RuntimeError::UnboundSymbol("foo".to_string())));
    assert_eq!(unbound.message(), "Unknown symbol: foo");
    let fault = evaluate("(/ 1 0)", &mut env).unwrap_err();
    assert!(fault.is_fault());
    assert_eq!(fault.message(), "Division by zero");
    assert_eq!(
        Error::Parse(ParseError::ExpectedOpenParen).message(),
        "Expected ("
    );
}
