use vstd::prelude::*;
use crate::env::{bind, extended, lookup, Scope};
use crate::error::{Failure, Fault, RuntimeError, Shape};
use crate::object::{render, Object, Value};

verus! {

/// How an evaluation ends: with a value or a failure, and with the scopes as
/// it left them. A failure keeps the bindings that were made before it.
pub struct Outcome {
    pub result: Result<Value, Failure>,
    pub scopes: Seq<Scope>,
}

/// The outcome that is a value.
pub open spec fn done(value: Value, scopes: Seq<Scope>) -> Outcome {
    Outcome { result: Ok(value), scopes }
}

/// The outcome that is a failure.
pub open spec fn failed(failure: Failure, scopes: Seq<Scope>) -> Outcome {
    Outcome { result: Err(failure), scopes }
}

/// The result that an executable result stands for.
pub open spec fn result_of(result: Result<Object, RuntimeError>) -> Result<Value, Failure> {
    match result {
        Ok(object) => Ok(object@),
        Err(error) => Err(error@),
    }
}

/// The outcome that an executable result and the scopes left behind stand for.
pub open spec fn outcome_of(result: Result<Object, RuntimeError>, scopes: Seq<Scope>) -> Outcome {
    Outcome { result: result_of(result), scopes }
}

/// The integer of 64 bits that a mathematical integer wraps around to.
pub open spec fn wrap(x: int) -> i64 {
    let r = x % 0x1_0000_0000_0000_0000;
    if r > i64::MAX {
        (r - 0x1_0000_0000_0000_0000) as i64
    } else {
        r as i64
    }
}

/// The quotient of two integers, rounded toward zero.
pub open spec fn quotient(a: int, b: int) -> int {
    let size = (if a < 0 {
        -a
    } else {
        a
    }) / (if b < 0 {
        -b
    } else {
        b
    });
    if (a < 0) == (b < 0) {
        size
    } else {
        -size
    }
}

/// What an operator makes of two integers: the arithmetic operators wrap
/// around, division rounds toward zero and refuses a zero divisor, and the
/// comparisons give a truth value.
pub open spec fn operate(name: Seq<char>, a: i64, b: i64) -> Result<Value, Failure> {
    if name == "+"@ {
        Ok(Value::Integer(wrap(a + b)))
    } else if name == "-"@ {
        Ok(Value::Integer(wrap(a - b)))
    } else if name == "*"@ {
        Ok(Value::Integer(wrap(a * b)))
    } else if name == "/"@ {
        if b == 0 {
            Err(Failure::Fault(Fault::DivisionByZero))
        } else {
            Ok(Value::Integer(wrap(quotient(a as int, b as int))))
        }
    } else if name == "="@ {
        Ok(Value::Boolean(a == b))
    } else if name == "!="@ {
        Ok(Value::Boolean(a != b))
    } else if name == "<"@ {
        Ok(Value::Boolean(a < b))
    } else if name == ">"@ {
        Ok(Value::Boolean(a > b))
    } else if name == "<="@ {
        Ok(Value::Boolean(a <= b))
    } else if name == ">="@ {
        Ok(Value::Boolean(a >= b))
    } else {
        Err(Failure::Fault(Fault::UnknownPrimitive))
    }
}

/// Whether the name is that of an operator.
pub open spec fn is_operator(name: Seq<char>) -> bool {
    name == "+"@ || name == "-"@ || name == "*"@ || name == "/"@ || name == "="@ || name == "!="@
        || name == "<"@ || name == ">"@ || name == "<="@ || name == ">="@
}

/// What an operator makes of two values: both must be integers, the left one
/// being looked at first.
pub open spec fn apply_operator_spec(name: Seq<char>, left: Value, right: Value) -> Result<
    Value,
    Failure,
> {
    if !is_operator(name) {
        Err(Failure::Fault(Fault::UnknownPrimitive))
    } else {
        match (left, right) {
            (Value::Integer(a), Value::Integer(b)) => operate(name, a, b),
            _ => Err(Failure::TypeMismatch(Shape::Integer)),
        }
    }
}

/// The scopes after each name, in order, is bound in the innermost scope to
/// the value at its place. Names without a value stay unbound, and values
/// without a name are dropped.
pub open spec fn bind_each(scopes: Seq<Scope>, names: Seq<Seq<char>>, values: Seq<Value>) -> Seq<
    Scope,
>
    decreases names.len(),
{
    if names.len() == 0 || values.len() == 0 {
        scopes
    } else {
        bind_each(bind(scopes, names[0], values[0]), names.drop_first(), values.drop_first())
    }
}

/// The names of the values, where each of them is a symbol.
pub open spec fn symbol_names(values: Seq<Value>) -> Option<Seq<Seq<char>>> {
    if forall|i: int| 0 <= i < values.len() ==> (#[trigger] values[i]) is Symbol {
        Some(Seq::new(values.len(), |i: int| values[i]->Symbol_0))
    } else {
        None
    }
}

/// What evaluating a value in the given scopes comes to, when evaluations may
/// nest `depth` deep.
///
/// An integer or a truth value is its own value. A symbol is resolved against
/// the scopes, a list is a call, and a callable met on its own is a failure.
pub open spec fn eval_spec(value: Value, scopes: Seq<Scope>, depth: nat) -> Outcome
    decreases depth, 0nat, 0nat,
{
    if depth == 0 {
        failed(Failure::Fault(Fault::DepthExceeded), scopes)
    } else {
        match value {
            Value::Integer(_) => done(value, scopes),
            Value::Boolean(_) => done(value, scopes),
            Value::Symbol(name) => eval_symbol_spec(name, scopes, (depth - 1) as nat),
            Value::List(items) => eval_list_spec(items, scopes, (depth - 1) as nat),
            _ => failed(Failure::CannotEvalCallable(render(value)), scopes),
        }
    }
}

/// A symbol evaluates to the value that the scopes give its name. Where that
/// is another symbol, that one is evaluated in turn.
pub open spec fn eval_symbol_spec(name: Seq<char>, scopes: Seq<Scope>, depth: nat) -> Outcome
    decreases depth, 1nat, 0nat,
{
    match lookup(scopes, name) {
        Some(Value::Symbol(alias)) => eval_spec(Value::Symbol(alias), scopes, depth),
        Some(value) => done(value, scopes),
        None => failed(Failure::UnboundSymbol(name), scopes),
    }
}

/// The empty list evaluates to itself. Of any other list the first item is
/// evaluated, and what it comes to is applied to the items after it, which
/// are handed over as they stand.
pub open spec fn eval_list_spec(items: Seq<Value>, scopes: Seq<Scope>, depth: nat) -> Outcome
    decreases depth, 5nat, 0nat,
{
    if items.len() == 0 {
        done(Value::List(Seq::empty()), scopes)
    } else {
        let head = eval_spec(items[0], scopes, depth);
        match head.result {
            Err(_) => head,
            Ok(Value::Function(params, body)) => eval_function_spec(
                params,
                body,
                items.drop_first(),
                head.scopes,
                depth,
            ),
            Ok(Value::PrimitiveFunction(name, arity)) => if arity == 2 {
                eval_primitive_binary_spec(name, items.drop_first(), head.scopes, depth)
            } else {
                failed(
                    Failure::NotCallable(render(Value::PrimitiveFunction(name, arity))),
                    head.scopes,
                )
            },
            Ok(Value::SpecialForm(name, arity)) => eval_special_form_spec(
                name,
                arity,
                items.drop_first(),
                head.scopes,
                depth,
            ),
            Ok(other) => failed(Failure::NotCallable(render(other)), head.scopes),
        }
    }
}

/// A function is applied in a new scope inside the caller's scopes, in which
/// its parameters are bound to the arguments as they stand, unevaluated. Its
/// body is evaluated there as one list. The caller's scopes stay as they were.
pub open spec fn eval_function_spec(
    params: Seq<Seq<char>>,
    body: Seq<Value>,
    arguments: Seq<Value>,
    scopes: Seq<Scope>,
    depth: nat,
) -> Outcome
    decreases depth, 4nat, 0nat,
{
    if depth == 0 {
        failed(Failure::Fault(Fault::DepthExceeded), scopes)
    } else {
        let inner = bind_each(extended(scopes), params, arguments);
        Outcome { result: eval_list_spec(body, inner, (depth - 1) as nat).result, scopes }
    }
}

/// An operator takes exactly two operands, evaluates the left one and then
/// the right one, and works on the integers that they come to.
pub open spec fn eval_primitive_binary_spec(
    name: Seq<char>,
    operands: Seq<Value>,
    scopes: Seq<Scope>,
    depth: nat,
) -> Outcome
    decreases depth, 4nat, 0nat,
{
    if operands.len() != 2 {
        failed(Failure::ArityMismatch(name, 2, operands.len() as usize), scopes)
    } else {
        let left = eval_spec(operands[0], scopes, depth);
        match left.result {
            Err(_) => left,
            Ok(a) => {
                let right = eval_spec(operands[1], left.scopes, depth);
                match right.result {
                    Err(_) => right,
                    Ok(b) => Outcome {
                        result: apply_operator_spec(name, a, b),
                        scopes: right.scopes,
                    },
                }
            },
        }
    }
}

/// A special form with a fixed number of operands refuses any other number.
/// After that its name decides what is done with the operands.
pub open spec fn eval_special_form_spec(
    name: Seq<char>,
    arity: Option<usize>,
    operands: Seq<Value>,
    scopes: Seq<Scope>,
    depth: nat,
) -> Outcome
    decreases depth, 4nat, 0nat,
{
    if arity is Some && arity->Some_0 != operands.len() {
        failed(Failure::ArityMismatch(name, arity->Some_0, operands.len() as usize), scopes)
    } else if name == "quote"@ {
        if operands.len() == 0 {
            failed(Failure::Fault(Fault::MissingOperand), scopes)
        } else {
            done(operands[0], scopes)
        }
    } else if name == "progn"@ {
        eval_progn_spec(operands, scopes, depth)
    } else if name == "let"@ {
        eval_let_spec(operands, scopes, depth)
    } else if name == "if"@ {
        eval_if_spec(operands, scopes, depth)
    } else if name == "def"@ {
        eval_def_spec(operands, scopes, depth)
    } else if name == "fn"@ {
        Outcome { result: eval_fn_spec(operands), scopes }
    } else {
        failed(Failure::UnknownSpecialForm(name), scopes)
    }
}

/// The forms are evaluated from left to right, each in the scopes that the
/// one before it left. The value is that of the last form, or `last` where
/// there is none. The first failure ends it.
pub open spec fn eval_each_spec(
    last: Value,
    forms: Seq<Value>,
    scopes: Seq<Scope>,
    depth: nat,
) -> Outcome
    decreases depth, 2nat, forms.len(),
{
    if forms.len() == 0 {
        done(last, scopes)
    } else {
        let first = eval_spec(forms[0], scopes, depth);
        match first.result {
            Err(_) => first,
            Ok(value) => eval_each_spec(value, forms.drop_first(), first.scopes, depth),
        }
    }
}

/// `progn` evaluates its forms in order and gives the value of the last one,
/// the empty list where it has no form.
pub open spec fn eval_progn_spec(forms: Seq<Value>, scopes: Seq<Scope>, depth: nat) -> Outcome
    decreases depth, 3nat, 0nat,
{
    eval_each_spec(Value::List(Seq::empty()), forms, scopes, depth)
}

/// How the definitions of a `let` end: with the scope that they fill or a
/// failure, and with the outer scopes as the initializers left them.
pub struct Bindings {
    pub result: Result<Scope, Failure>,
    pub scopes: Seq<Scope>,
}

/// Each definition is a list of a name and an initializer. The initializers
/// are evaluated in order in the outer scopes, so none sees a name that the
/// same `let` defines. Each is evaluated before its name is looked at.
pub open spec fn eval_bindings_spec(
    scope: Scope,
    definitions: Seq<Value>,
    scopes: Seq<Scope>,
    depth: nat,
) -> Bindings
    decreases depth, 2nat, definitions.len(),
{
    if definitions.len() == 0 {
        Bindings { result: Ok(scope), scopes }
    } else {
        match definitions[0] {
            Value::List(pair) => if pair.len() < 2 {
                Bindings { result: Err(Failure::Fault(Fault::MissingOperand)), scopes }
            } else {
                let initial = eval_spec(pair[1], scopes, depth);
                match (initial.result, pair[0]) {
                    (Err(failure), _) => Bindings { result: Err(failure), scopes: initial.scopes },
                    (Ok(value), Value::Symbol(name)) => eval_bindings_spec(
                        scope.insert(name, value),
                        definitions.drop_first(),
                        initial.scopes,
                        depth,
                    ),
                    (Ok(_), _) => Bindings {
                        result: Err(Failure::TypeMismatch(Shape::Symbol)),
                        scopes: initial.scopes,
                    },
                }
            },
            _ => Bindings { result: Err(Failure::TypeMismatch(Shape::List)), scopes },
        }
    }
}

/// `let` takes a list of definitions and a body. The body is evaluated in a
/// new scope that holds the definitions, inside the outer scopes; its value is
/// that of the `let`. Afterwards the new scope is gone.
pub open spec fn eval_let_spec(operands: Seq<Value>, scopes: Seq<Scope>, depth: nat) -> Outcome
    decreases depth, 3nat, 0nat,
{
    if operands.len() == 0 {
        failed(Failure::Fault(Fault::MissingOperand), scopes)
    } else {
        match operands[0] {
            Value::List(definitions) => if operands.len() < 2 {
                failed(Failure::Fault(Fault::MissingOperand), scopes)
            } else {
                let bound = eval_bindings_spec(Map::empty(), definitions, scopes, depth);
                match bound.result {
                    Err(failure) => failed(failure, bound.scopes),
                    Ok(scope) => Outcome {
                        result: eval_spec(operands[1], seq![scope] + bound.scopes, depth).result,
                        scopes: bound.scopes,
                    },
                }
            },
            _ => failed(Failure::TypeMismatch(Shape::List), scopes),
        }
    }
}

/// `if` evaluates its condition, which must come to a truth value, and then
/// the second operand where that is true, the third where it is false. The
/// other one is not evaluated.
pub open spec fn eval_if_spec(operands: Seq<Value>, scopes: Seq<Scope>, depth: nat) -> Outcome
    decreases depth, 3nat, 0nat,
{
    if operands.len() == 0 {
        failed(Failure::Fault(Fault::MissingOperand), scopes)
    } else {
        let condition = eval_spec(operands[0], scopes, depth);
        match condition.result {
            Err(_) => condition,
            Ok(value) => if operands.len() < 3 {
                failed(Failure::Fault(Fault::MissingOperand), condition.scopes)
            } else {
                match value {
                    Value::Boolean(holds) => eval_spec(
                        if holds {
                            operands[1]
                        } else {
                            operands[2]
                        },
                        condition.scopes,
                        depth,
                    ),
                    _ => failed(Failure::TypeMismatch(Shape::Boolean), condition.scopes),
                }
            },
        }
    }
}

/// `def` takes a symbol and an expression, binds the symbol's name in the
/// innermost scope to what the expression comes to, and gives `true`.
pub open spec fn eval_def_spec(operands: Seq<Value>, scopes: Seq<Scope>, depth: nat) -> Outcome
    decreases depth, 3nat, 0nat,
{
    if operands.len() == 0 {
        failed(Failure::Fault(Fault::MissingOperand), scopes)
    } else {
        match operands[0] {
            Value::Symbol(name) => if operands.len() < 2 {
                failed(Failure::Fault(Fault::MissingOperand), scopes)
            } else {
                let defined = eval_spec(operands[1], scopes, depth);
                match defined.result {
                    Err(_) => defined,
                    Ok(value) => done(Value::Boolean(true), bind(defined.scopes, name, value)),
                }
            },
            _ => failed(Failure::TypeMismatch(Shape::Symbol), scopes),
        }
    }
}

/// `fn` takes a list of symbols, the parameters, and a list, the body, and
/// gives the function made of them. Nothing is evaluated.
pub open spec fn eval_fn_spec(operands: Seq<Value>) -> Result<Value, Failure> {
    if operands.len() == 0 {
        Err(Failure::Fault(Fault::MissingOperand))
    } else {
        match operands[0] {
            Value::List(params) => match symbol_names(params) {
                None => Err(Failure::TypeMismatch(Shape::Symbol)),
                Some(names) => if operands.len() < 2 {
                    Err(Failure::Fault(Fault::MissingOperand))
                } else {
                    match operands[1] {
                        Value::List(body) => Ok(Value::Function(names, body)),
                        _ => Err(Failure::TypeMismatch(Shape::List)),
                    }
                },
            },
            _ => Err(Failure::TypeMismatch(Shape::List)),
        }
    }
}

} // verus!
