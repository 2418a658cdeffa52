use minilisp::env::Env;
use minilisp::error::{Fault, RuntimeError, Shape};
use minilisp::interpreter::{eval, eval_bounded, RECURSION_LIMIT};
use minilisp::object::Object;
use minilisp::parser::parse;

fn run(input: &str) -> Result<Object, RuntimeError> {
    let mut env = Env::base();
    eval(parse(input).unwrap(), &mut env)
}

fn symbol(name: &str) -> Object {
    Object::Symbol(name.to_string())
}

#[test]
fn eval_arithmetic() {
    let input = "(+ 1 2)";
    let mut env = Env::base();
    let result = eval(parse(input).unwrap(), &mut env).unwrap();
    assert_eq!(result, Object::Integer(3));
}

#[test]
fn eval_arithmetic_nested() {
    let input = "(+ 1 (* 2 3))";
    let mut env = Env::base();
    let result = eval(parse(input).unwrap(), &mut env).unwrap();
    assert_eq!(result, Object::Integer(7));
}

#[test]
fn eval_arithmetic_triply_nested() {
    let input = "(+ 1 (* 2 (+ 3 4)))";
    let mut env = Env::base();
    let result = eval(parse(input).unwrap(), &mut env).unwrap();
    assert_eq!(result, Object::Integer(15));
}

#[test]
fn eval_let() {
    let input = "(let ((a 1) (b 2)) (+ a b))";
    let mut env = Env::base();
    let result = eval(parse(input).unwrap(), &mut env).unwrap();
    assert_eq!(result, Object::Integer(3));
}

#[test]
fn eval_lets_nested() {
    let input = "(let ((a 1) (b 2)) (let ((c 3) (d 4)) (+ a (+ b (+ c d)))))";
    let mut env = Env::base();
    let result = eval(parse(input).unwrap(), &mut env).unwrap();
    assert_eq!(result, Object::Integer(10));
}

#[test]
fn eval_if() {
    let input = "(if #true 1 2)";
    let mut env = Env::base();
    let result = eval(parse(input).unwrap(), &mut env).unwrap();
    assert_eq!(result, Object::Integer(1));
}

#[test]
fn eval_ifs_nested() {
    let input = "(if #true (if #false 1 2) 3)";
    let mut env = Env::base();
    let result = eval(parse(input).unwrap(), &mut env).unwrap();
    assert_eq!(result, Object::Integer(2));
}

#[test]
fn eval_def() {
    let input = "(def a 1)";
    let mut env = Env::base();
    let result = eval(parse(input).unwrap(), &mut env).unwrap();
    assert_eq!(result, Object::Boolean(true));
    assert_eq!(env.get("a").unwrap(), Object::Integer(1));
}

#[test]
fn eval_def_use_later() {
    let input = "(progn (def a 1) (+ a 1))";
    let mut env = Env::base();
    let result = eval(parse(input).unwrap(), &mut env).unwrap();
    assert_eq!(result, Object::Integer(2));
}

#[test]
fn eval_def_fn_use_later() {
    let input = "(progn (def a (fn (x) (+ x 1))) (a 1))";
    let mut env = Env::base();
    let result = eval(parse(input).unwrap(), &mut env).unwrap();
    assert_eq!(result, Object::Integer(2));
}

#[test]
fn eval_fn() {
    let input = "(fn (a) (+ a 1))";
    let mut env = Env::base();
    let result = eval(parse(input).unwrap(), &mut env).unwrap();
    assert_eq!(
        result,
        Object::Function(
            vec!["a".into()],
            vec![Object::Symbol("+".into()), Object::Symbol("a".into()), Object::Integer(1)]
        )
    );
}

#[test]
fn eval_fn_call() {
    let input = "((fn (a) (+ a 1)) 1)";
    let mut env = Env::base();
    let result = eval(parse(input).unwrap(), &mut env).unwrap();
    assert_eq!(result, Object::Integer(2));
}

#[test]
fn literals_evaluate_to_themselves() {
    let mut env = Env::base();
    assert_eq!(eval(Object::Integer(-7), &mut env), Ok(Object::Integer(-7)));
    assert_eq!(eval(Object::Boolean(false), &mut env), Ok(Object::Boolean(false)));
    assert_eq!(run("()"), Ok(Object::List(vec![])));
}

#[test]
fn arithmetic_operators() {
    assert_eq!(run("(+ 40 2)"), Ok(Object::Integer(42)));
    assert_eq!(run("(- 3 5)"), Ok(Object::Integer(-2)));
    assert_eq!(run("(* -6 7)"), Ok(Object::Integer(-42)));
    assert_eq!(run("(/ 7 2)"), Ok(Object::Integer(3)));
    assert_eq!(run("(/ -7 2)"), Ok(Object::Integer(-3)));
    assert_eq!(run("(/ 7 -2)"), Ok(Object::Integer(-3)));
    assert_eq!(run("(/ -7 -2)"), Ok(Object::Integer(3)));
    assert_eq!(run("(/ 0 5)"), Ok(Object::Integer(0)));
}

#[test]
fn arithmetic_wraps_around() {
    assert_eq!(run("(+ 9223372036854775807 1)"), Ok(Object::Integer(i64::MIN)));
    assert_eq!(run("(- -9223372036854775808 1)"), Ok(Object::Integer(i64::MAX)));
    assert_eq!(run("(* 4611686018427387904 2)"), Ok(Object::Integer(i64::MIN)));
    assert_eq!(run("(* 4611686018427387904 4)"), Ok(Object::Integer(0)));
    assert_eq!(run("(/ -9223372036854775808 -1)"), Ok(Object::Integer(i64::MIN)));
}

#[test]
fn comparison_operators() {
    assert_eq!(run("(= 2 2)"), Ok(Object::Boolean(true)));
    assert_eq!(run("(= 2 3)"), Ok(Object::Boolean(false)));
    assert_eq!(run("(!= 2 3)"), Ok(Object::Boolean(true)));
    assert_eq!(run("(!= 2 2)"), Ok(Object::Boolean(false)));
    assert_eq!(run("(< 2 3)"), Ok(Object::Boolean(true)));
    assert_eq!(run("(< 3 3)"), Ok(Object::Boolean(false)));
    assert_eq!(run("(> 3 2)"), Ok(Object::Boolean(true)));
    assert_eq!(run("(> 2 2)"), Ok(Object::Boolean(false)));
    assert_eq!(run("(<= 3 3)"), Ok(Object::Boolean(true)));
    assert_eq!(run("(<= 4 3)"), Ok(Object::Boolean(false)));
    assert_eq!(run("(>= 3 3)"), Ok(Object::Boolean(true)));
    assert_eq!(run("(>= 2 3)"), Ok(Object::Boolean(false)));
}

#[test]
fn division_by_zero_is_a_fault() {
    let error = run("(/ 1 0)").unwrap_err();
    assert_eq!(error, RuntimeError::Fault(Fault::DivisionByZero));
    assert!(error.is_fault());
}

#[test]
fn inner_let_shadows_outer() {
    assert_eq!(run("(let ((a 1)) (let ((a 2)) a))"), Ok(Object::Integer(2)));
    assert_eq!(run("(let ((a 1)) (progn (let ((a 2)) a) a))"), Ok(Object::Integer(1)));
}

#[test]
fn let_bindings_do_not_see_each_other() {
    assert_eq!(
        run("(let ((a 1) (b a)) b)"),
        Err(RuntimeError::UnboundSymbol("a".to_string()))
    );
}

#[test]
fn let_scope_ends_with_the_let() {
    assert_eq!(
        run("(progn (let ((a 1)) a) a)"),
        Err(RuntimeError::UnboundSymbol("a".to_string()))
    );
}

#[test]
fn let_body_sees_what_an_initializer_defined() {
    let mut env = Env::base();
    let result = eval(parse("(let ((a (def x 5))) (+ x 1))").unwrap(), &mut env);
    assert_eq!(result, Ok(Object::Integer(6)));
    assert_eq!(env.get("x"), Some(Object::Integer(5)));
    assert_eq!(env.get("a"), None);
}

#[test]
fn let_evaluates_the_initializer_before_checking_the_name() {
    let mut env = Env::base();
    let result = eval(parse("(let ((1 (def x 5))) x)").unwrap(), &mut env);
    assert_eq!(result, Err(RuntimeError::TypeMismatch(Shape::Symbol)));
    assert_eq!(env.get("x"), Some(Object::Integer(5)));
}

#[test]
fn if_leaves_the_other_branch_alone() {
    assert_eq!(run("(if #true 1 (bogus))"), Ok(Object::Integer(1)));
    assert_eq!(run("(if #false (bogus) 2)"), Ok(Object::Integer(2)));
    assert_eq!(
        run("(if #false 1 (bogus))"),
        Err(RuntimeError::UnboundSymbol("bogus".to_string()))
    );
}

#[test]
fn def_writes_to_the_innermost_scope_only() {
    let mut env = Env::base();
    let result = eval(
        parse("(progn (def f (fn () (def y 1))) (f) y)").unwrap(),
        &mut env,
    );
    assert_eq!(result, Err(RuntimeError::UnboundSymbol("y".to_string())));
    assert_eq!(env.get("y"), None);
}

#[test]
fn a_failure_keeps_earlier_definitions() {
    let mut env = Env::base();
    let result = eval(parse("(progn (def a 1) (bogus) (def b 2))").unwrap(), &mut env);
    assert_eq!(result, Err(RuntimeError::UnboundSymbol("bogus".to_string())));
    assert_eq!(env.get("a"), Some(Object::Integer(1)));
    assert_eq!(env.get("b"), None);
}

#[test]
fn progn_gives_the_last_value() {
    assert_eq!(run("(progn 1 2 3)"), Ok(Object::Integer(3)));
    assert_eq!(run("(progn)"), Ok(Object::List(vec![])));
}

#[test]
fn arguments_are_bound_unevaluated() {
    assert_eq!(
        run("((fn (x) (+ x 1)) (+ 1 2))"),
        Err(RuntimeError::TypeMismatch(Shape::Integer))
    );
}

#[test]
fn surplus_arguments_are_dropped_and_missing_ones_left_unbound() {
    assert_eq!(run("((fn (a) (+ a 1)) 1 2 3)"), Ok(Object::Integer(2)));
    assert_eq!(
        run("((fn (a b) (+ a b)) 1)"),
        Err(RuntimeError::UnboundSymbol("b".to_string()))
    );
}

#[test]
fn free_names_resolve_where_the_function_is_called() {
    assert_eq!(
        run("(progn (def f (fn () (+ x 1))) (let ((x 5)) (f)))"),
        Ok(Object::Integer(6))
    );
}

#[test]
fn a_function_with_an_empty_body_gives_the_empty_list() {
    assert_eq!(run("((fn () ()))"), Ok(Object::List(vec![])));
}

#[test]
fn symbols_bound_to_symbols_are_followed() {
    let mut env = Env::base();
    env.set("a", symbol("b"));
    env.set("b", Object::Integer(3));
    assert_eq!(eval(symbol("a"), &mut env), Ok(Object::Integer(3)));
}

#[test]
fn a_symbol_bound_to_itself_exhausts_the_depth() {
    let mut env = Env::base();
    env.set("a", symbol("a"));
    assert_eq!(
        eval(symbol("a"), &mut env),
        Err(RuntimeError::Fault(Fault::DepthExceeded))
    );
}

#[test]
fn arity_violations() {
    assert_eq!(
        run("(+ 1)"),
        Err(RuntimeError::ArityMismatch("+".to_string(), 2, 1))
    );
    assert_eq!(
        run("(+ 1 2 3)"),
        Err(RuntimeError::ArityMismatch("+".to_string(), 2, 3))
    );
    assert_eq!(
        run("(if #true 1)"),
        Err(RuntimeError::ArityMismatch("if".to_string(), 3, 2))
    );
    assert_eq!(
        run("(def a)"),
        Err(RuntimeError::ArityMismatch("def".to_string(), 2, 1))
    );
}

#[test]
fn quote_is_not_in_the_base_environment() {
    assert_eq!(
        run("(quote (1 2 3))"),
        Err(RuntimeError::UnboundSymbol("quote".to_string()))
    );
}

#[test]
fn quote_gives_its_operand_unevaluated() {
    let mut env = Env::base();
    env.set("quote", Object::SpecialForm("quote".to_string(), Some(1)));
    assert_eq!(
        eval(parse("(quote (1 2 3))").unwrap(), &mut env),
        Ok(Object::List(vec![Object::Integer(1), Object::Integer(2), Object::Integer(3)]))
    );
    assert_eq!(
        eval(parse("(quote (bogus 1))").unwrap(), &mut env),
        Ok(Object::List(vec![symbol("bogus"), Object::Integer(1)]))
    );
    assert_eq!(eval(parse("(quote bogus)").unwrap(), &mut env), Ok(symbol("bogus")));
}

#[test]
fn type_mismatches() {
    assert_eq!(run("(+ 1 #true)"), Err(RuntimeError::TypeMismatch(Shape::Integer)));
    assert_eq!(run("(+ #true 1)"), Err(RuntimeError::TypeMismatch(Shape::Integer)));
    assert_eq!(run("(if 1 2 3)"), Err(RuntimeError::TypeMismatch(Shape::Boolean)));
    assert_eq!(run("(def 1 2)"), Err(RuntimeError::TypeMismatch(Shape::Symbol)));
    assert_eq!(run("(let 1 2)"), Err(RuntimeError::TypeMismatch(Shape::List)));
    assert_eq!(run("(let (1) 2)"), Err(RuntimeError::TypeMismatch(Shape::List)));
    assert_eq!(run("(fn a (+ a 1))"), Err(RuntimeError::TypeMismatch(Shape::List)));
    assert_eq!(run("(fn (1) (+ a 1))"), Err(RuntimeError::TypeMismatch(Shape::Symbol)));
    assert_eq!(run("(fn (a) a)"), Err(RuntimeError::TypeMismatch(Shape::List)));
}

#[test]
fn heads_that_cannot_be_called() {
    assert_eq!(run("(1 2)"), Err(RuntimeError::NotCallable("1".to_string())));
    assert_eq!(run("(#true)"), Err(RuntimeError::NotCallable("true".to_string())));
    assert_eq!(run("(())"), Err(RuntimeError::NotCallable("()".to_string())));
    let mut env = Env::base();
    env.set("neg", Object::PrimitiveFunction("neg".to_string(), 1));
    assert_eq!(
        eval(parse("(neg 1)").unwrap(), &mut env),
        Err(RuntimeError::NotCallable("neg/1".to_string()))
    );
}

#[test]
fn callables_do_not_evaluate_on_their_own() {
    let mut env = Env::base();
    assert_eq!(
        eval(Object::PrimitiveFunction("+".to_string(), 2), &mut env),
        Err(RuntimeError::CannotEvalCallable("+/2".to_string()))
    );
    assert_eq!(
        eval(Object::SpecialForm("progn".to_string(), None), &mut env),
        Err(RuntimeError::CannotEvalCallable("progn/*".to_string()))
    );
    assert_eq!(
        eval(
            Object::Function(vec!["a".to_string()], vec![symbol("a")]),
            &mut env
        ),
        Err(RuntimeError::CannotEvalCallable("(fn (a) (a))".to_string()))
    );
}

#[test]
fn a_symbol_that_names_a_callable_evaluates_to_it() {
    assert_eq!(
        eval(symbol("+"), &mut Env::base()),
        Ok(Object::PrimitiveFunction("+".to_string(), 2))
    );
}

#[test]
fn unknown_builtins() {
    let mut env = Env::base();
    env.set("loop", Object::SpecialForm("loop".to_string(), None));
    env.set("mod", Object::PrimitiveFunction("mod".to_string(), 2));
    assert_eq!(
        eval(parse("(loop 1)").unwrap(), &mut env),
        Err(RuntimeError::UnknownSpecialForm("loop".to_string()))
    );
    assert_eq!(
        eval(parse("(mod 7 2)").unwrap(), &mut env),
        Err(RuntimeError::Fault(Fault::UnknownPrimitive))
    );
}

#[test]
fn special_forms_given_too_few_operands() {
    let mut env = Env::base();
    env.set("quote", Object::SpecialForm("quote".to_string(), None));
    env.set("if", Object::SpecialForm("if".to_string(), None));
    assert_eq!(
        eval(parse("(quote)").unwrap(), &mut env),
        Err(RuntimeError::Fault(Fault::MissingOperand))
    );
    assert_eq!(
        eval(parse("(if #true 1)").unwrap(), &mut env),
        Err(RuntimeError::Fault(Fault::MissingOperand))
    );
    assert_eq!(
        eval(parse("(let ((a)) a)").unwrap(), &mut env),
        Err(RuntimeError::Fault(Fault::MissingOperand))
    );
}

#[test]
fn endless_recursion_exhausts_the_depth() {
    assert_eq!(
        run("(progn (def f (fn () (f))) (f))"),
        Err(RuntimeError::Fault(Fault::DepthExceeded))
    );
}

#[test]
fn depth_counts_nested_evaluations() {
    let mut env = Env::base();
    let program = parse("(+ 1 (+ 2 3))").unwrap();
    assert_eq!(
        eval_bounded(&program, &mut env, 0),
        Err(RuntimeError::Fault(Fault::DepthExceeded))
    );
    assert_eq!(
        eval_bounded(&program, &mut env, 2),
        Err(RuntimeError::Fault(Fault::DepthExceeded))
    );
    assert_eq!(eval_bounded(&program, &mut env, 3), Ok(Object::Integer(6)));
    assert_eq!(
        eval_bounded(&Object::Integer(1), &mut env, 0),
        Err(RuntimeError::Fault(Fault::DepthExceeded))
    );
    assert_eq!(eval_bounded(&Object::Integer(1), &mut env, 1), Ok(Object::Integer(1)));
    assert_eq!(
        eval_bounded(&program, &mut env, RECURSION_LIMIT),
        Ok(Object::Integer(6))
    );
}

#[test]
fn recursive_calls_receive_their_arguments_unevaluated() {
    let program = "(progn (def count (fn (n) (if (= n 0) 0 (count (- n 1))))) (count 20))";
    assert_eq!(run(program), Err(RuntimeError::TypeMismatch(Shape::Integer)));
}
