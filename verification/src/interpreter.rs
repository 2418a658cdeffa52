use vstd::prelude::*;
use vstd::slice::slice_subrange;
use crate::env::{bind, extended, Env, Scope};
use crate::error::{Fault, RuntimeError, Shape};
use crate::object::{clone_names, clone_objects, names_of, values_of, Object, Value};
use crate::semantics::{
    apply_operator_spec, bind_each, eval_bindings_spec, eval_def_spec, eval_each_spec,
    eval_fn_spec, eval_function_spec, eval_if_spec, eval_let_spec, eval_list_spec,
    eval_primitive_binary_spec, eval_progn_spec, eval_special_form_spec, eval_spec,
    eval_symbol_spec, failed, outcome_of, quotient, result_of, symbol_names,
};
use crate::text::same_text;

verus! {

/// How deep evaluations may nest before the evaluator gives up. Every
/// evaluation of a value inside another one, and every function call, counts
/// as one level.
pub const RECURSION_LIMIT: usize = 200;

/// The values of a part of a list are that part of the list's values.
pub proof fn lemma_values_of_subrange(objects: Seq<Object>, from: int, to: int)
    requires
        0 <= from <= to <= objects.len(),
    ensures
        values_of(objects.subrange(from, to)) == values_of(objects).subrange(from, to),
{
    assert(values_of(objects.subrange(from, to)) =~= values_of(objects).subrange(from, to));
}

/// Evaluates a program in the environment, with evaluations nesting no deeper
/// than the recursion limit. A program that needs more fails with
/// [`Fault::DepthExceeded`]; whatever it had defined by then stays defined.
pub fn eval(object: Object, env: &mut Env) -> (result: Result<Object, RuntimeError>)
    ensures
        outcome_of(result, final(env)@) == eval_spec(object@, old(env)@, RECURSION_LIMIT as nat),
{
    eval_bounded(&object, env, RECURSION_LIMIT)
}

/// Evaluates a value in the environment, with evaluations nesting no deeper
/// than `depth`.
pub fn eval_bounded(object: &Object, env: &mut Env, depth: usize) -> (result: Result<
    Object,
    RuntimeError,
>)
    ensures
        outcome_of(result, final(env)@) == eval_spec(object@, old(env)@, depth as nat),
    decreases depth, 0nat,
{
    if depth == 0 {
        return Err(RuntimeError::Fault(Fault::DepthExceeded));
    }
    match object {
        Object::Integer(i) => Ok(Object::Integer(*i)),
        Object::Boolean(b) => Ok(Object::Boolean(*b)),
        Object::Symbol(name) => eval_symbol(name.as_str(), env, depth - 1),
        Object::List(items) => eval_list(items.as_slice(), env, depth - 1),
        _ => Err(RuntimeError::CannotEvalCallable(object.to_string())),
    }
}

/// Resolves a name against the environment, following symbols bound to symbols.
pub fn eval_symbol(name: &str, env: &mut Env, depth: usize) -> (result: Result<
    Object,
    RuntimeError,
>)
    ensures
        outcome_of(result, final(env)@) == eval_symbol_spec(name@, old(env)@, depth as nat),
    decreases depth, 1nat,
{
    match env.get(name) {
        Some(Object::Symbol(alias)) => {
            let next = Object::Symbol(alias);
            eval_bounded(&next, env, depth)
        },
        Some(found) => Ok(found),
        None => Err(RuntimeError::UnboundSymbol(name.to_owned())),
    }
}

/// Evaluates a list: the empty list as itself, any other as a call of what
/// its first item comes to.
pub fn eval_list(list: &[Object], env: &mut Env, depth: usize) -> (result: Result<
    Object,
    RuntimeError,
>)
    ensures
        outcome_of(result, final(env)@) == eval_list_spec(
            values_of(list@),
            old(env)@,
            depth as nat,
        ),
    decreases depth, 5nat,
{
    if list.len() == 0 {
        let empty = Object::List(Vec::new());
        assert(empty@ == Value::List(Seq::empty())) by {
            assert(values_of(Seq::<Object>::empty()) =~= Seq::<Value>::empty());
        }
        return Ok(empty);
    }
    let head = eval_bounded(&list[0], env, depth)?;
    let operands = slice_subrange(list, 1, list.len());
    proof {
        lemma_values_of_subrange(list@, 1, list.len() as int);
    }
    match &head {
        Object::Function(params, body) => eval_function(params, body, operands, env, depth),
        Object::PrimitiveFunction(name, arity) => {
            if *arity == 2 {
                eval_primitive_binary(name.as_str(), operands, env, depth)
            } else {
                Err(RuntimeError::NotCallable(head.to_string()))
            }
        },
        Object::SpecialForm(name, arity) => eval_special_form(
            name.as_str(),
            *arity,
            operands,
            env,
            depth,
        ),
        _ => Err(RuntimeError::NotCallable(head.to_string())),
    }
}

/// Applies a function to arguments, which are bound as they stand.
pub fn eval_function(
    params: &Vec<String>,
    body: &Vec<Object>,
    arguments: &[Object],
    env: &mut Env,
    depth: usize,
) -> (result: Result<Object, RuntimeError>)
    ensures
        outcome_of(result, final(env)@) == eval_function_spec(
            names_of(params@),
            values_of(body@),
            values_of(arguments@),
            old(env)@,
            depth as nat,
        ),
    decreases depth, 4nat,
{
    if depth == 0 {
        return Err(RuntimeError::Fault(Fault::DepthExceeded));
    }
    let mut inner = env.extend();
    let ghost names = names_of(params@);
    let ghost values = values_of(arguments@);
    assert(names.skip(0) =~= names);
    assert(values.skip(0) =~= values);
    let mut i: usize = 0;
    while i < params.len() && i < arguments.len()
        invariant
            i <= params.len(),
            i <= arguments.len(),
            names == names_of(params@),
            values == values_of(arguments@),
            bind_each(inner@, names.skip(i as int), values.skip(i as int)) == bind_each(
                extended(env@),
                names,
                values,
            ),
        decreases params.len() - i,
    {
        proof {
            assert(names.skip(i as int).drop_first() =~= names.skip(i + 1));
            assert(values.skip(i as int).drop_first() =~= values.skip(i + 1));
        }
        inner.set(params[i].as_str(), arguments[i].clone());
        i += 1;
    }
    eval_list(body.as_slice(), &mut inner, depth - 1)
}

/// What an operator makes of two values.
pub fn apply_operator(name: &str, left: Object, right: Object) -> (result: Result<
    Object,
    RuntimeError,
>)
    ensures
        result_of(result) == apply_operator_spec(name@, left@, right@),
{
    let add = same_text(name, "+");
    let subtract = same_text(name, "-");
    let multiply = same_text(name, "*");
    let divide = same_text(name, "/");
    let equal = same_text(name, "=");
    let unequal = same_text(name, "!=");
    let less = same_text(name, "<");
    let greater = same_text(name, ">");
    let at_most = same_text(name, "<=");
    let at_least = same_text(name, ">=");
    if !(add || subtract || multiply || divide || equal || unequal || less || greater || at_most
        || at_least) {
        return Err(RuntimeError::Fault(Fault::UnknownPrimitive));
    }
    let a = left.into_integer()?;
    let b = right.into_integer()?;
    if add {
        Ok(Object::Integer(a.wrapping_add(b)))
    } else if subtract {
        Ok(Object::Integer(a.wrapping_sub(b)))
    } else if multiply {
        Ok(Object::Integer(a.wrapping_mul(b)))
    } else if divide {
        if b == 0 {
            Err(RuntimeError::Fault(Fault::DivisionByZero))
        } else {
            proof {
                lemma_quotient_bounds(a as int, b as int);
            }
            match a.checked_div(b) {
                Some(q) => Ok(Object::Integer(q)),
                None => Ok(Object::Integer(i64::MIN)),
            }
        }
    } else if equal {
        Ok(Object::Boolean(a == b))
    } else if unequal {
        Ok(Object::Boolean(a != b))
    } else if less {
        Ok(Object::Boolean(a < b))
    } else if greater {
        Ok(Object::Boolean(a > b))
    } else if at_most {
        Ok(Object::Boolean(a <= b))
    } else {
        Ok(Object::Boolean(a >= b))
    }
}

/// The quotient of two integers of 64 bits is at most 2^63 in size.
pub proof fn lemma_quotient_bounds(a: int, b: int)
    requires
        i64::MIN <= a <= i64::MAX,
        i64::MIN <= b <= i64::MAX,
        b != 0,
    ensures
        -0x8000_0000_0000_0000 <= quotient(a, b) <= 0x8000_0000_0000_0000,
{
    let x = if a < 0 {
        -a
    } else {
        a
    };
    let d = if b < 0 {
        -b
    } else {
        b
    };
    vstd::arithmetic::div_mod::lemma_div_nonincreasing(x, d);
    vstd::arithmetic::div_mod::lemma_div_pos_is_pos(x, d);
}

/// Applies an operator to two operands, which are evaluated first.
pub fn eval_primitive_binary(name: &str, list: &[Object], env: &mut Env, depth: usize) -> (result:
    Result<Object, RuntimeError>)
    ensures
        outcome_of(result, final(env)@) == eval_primitive_binary_spec(
            name@,
            values_of(list@),
            old(env)@,
            depth as nat,
        ),
    decreases depth, 4nat,
{
    if list.len() != 2 {
        return Err(RuntimeError::ArityMismatch(name.to_owned(), 2, list.len()));
    }
    let a = eval_bounded(&list[0], env, depth)?;
    let b = eval_bounded(&list[1], env, depth)?;
    apply_operator(name, a, b)
}

/// Applies a special form to its operands, which it receives unevaluated.
pub fn eval_special_form(
    name: &str,
    arity: Option<usize>,
    list: &[Object],
    env: &mut Env,
    depth: usize,
) -> (result: Result<Object, RuntimeError>)
    ensures
        outcome_of(result, final(env)@) == eval_special_form_spec(
            name@,
            arity,
            values_of(list@),
            old(env)@,
            depth as nat,
        ),
    decreases depth, 4nat,
{
    if let Some(expected) = arity {
        if list.len() != expected {
            return Err(RuntimeError::ArityMismatch(name.to_owned(), expected, list.len()));
        }
    }
    if same_text(name, "quote") {
        if list.len() == 0 {
            Err(RuntimeError::Fault(Fault::MissingOperand))
        } else {
            Ok(list[0].clone())
        }
    } else if same_text(name, "progn") {
        eval_progn(list, env, depth)
    } else if same_text(name, "let") {
        eval_let(list, env, depth)
    } else if same_text(name, "if") {
        eval_if(list, env, depth)
    } else if same_text(name, "def") {
        eval_def(list, env, depth)
    } else if same_text(name, "fn") {
        eval_fn(list, env)
    } else {
        Err(RuntimeError::UnknownSpecialForm(name.to_owned()))
    }
}

/// Evaluates the forms in order and gives the value of the last one.
pub fn eval_progn(list: &[Object], env: &mut Env, depth: usize) -> (result: Result<
    Object,
    RuntimeError,
>)
    ensures
        outcome_of(result, final(env)@) == eval_progn_spec(
            values_of(list@),
            old(env)@,
            depth as nat,
        ),
    decreases depth, 3nat,
{
    let ghost forms = values_of(list@);
    let ghost goal = eval_progn_spec(forms, env@, depth as nat);
    let mut last = Object::List(Vec::new());
    assert(last@ == Value::List(Seq::empty())) by {
        assert(values_of(Seq::<Object>::empty()) =~= Seq::<Value>::empty());
    }
    assert(forms.skip(0) =~= forms);
    let mut i: usize = 0;
    while i < list.len()
        invariant
            i <= list.len(),
            forms == values_of(list@),
            goal == eval_progn_spec(forms, old(env)@, depth as nat),
            eval_each_spec(last@, forms.skip(i as int), env@, depth as nat) == goal,
        decreases list.len() - i,
    {
        proof {
            assert(forms.skip(i as int).drop_first() =~= forms.skip(i + 1));
            assert(forms.skip(i as int)[0] == list[i as int]@);
        }
        last = eval_bounded(&list[i], env, depth)?;
        i += 1;
    }
    Ok(last)
}

/// The scope that a sequence of names with their values fills, a later pair
/// taking the place of an earlier one of the same name.
pub open spec fn scope_from(pairs: Seq<(String, Object)>) -> Scope
    decreases pairs.len(),
{
    if pairs.len() == 0 {
        Map::empty()
    } else {
        scope_from(pairs.drop_last()).insert(pairs.last().0@, pairs.last().1@)
    }
}

/// Evaluates the body of a `let` in a new scope that holds its definitions.
pub fn eval_let(list: &[Object], env: &mut Env, depth: usize) -> (result: Result<
    Object,
    RuntimeError,
>)
    ensures
        outcome_of(result, final(env)@) == eval_let_spec(values_of(list@), old(env)@, depth as nat),
    decreases depth, 3nat,
{
    if list.len() == 0 {
        return Err(RuntimeError::Fault(Fault::MissingOperand));
    }
    match &list[0] {
        Object::List(definitions) => {
            if list.len() < 2 {
                return Err(RuntimeError::Fault(Fault::MissingOperand));
            }
            let ghost all = values_of(definitions@);
            let ghost goal = eval_bindings_spec(Map::empty(), all, env@, depth as nat);
            let ghost whole = eval_let_spec(values_of(list@), env@, depth as nat);
            assert(values_of(list@)[0] == list[0]@);
            assert(values_of(list@)[1] == list[1]@);
            let mut pairs: Vec<(String, Object)> = Vec::new();
            assert(all.skip(0) =~= all);
            let mut i: usize = 0;
            while i < definitions.len()
                invariant
                    i <= definitions.len(),
                    all == values_of(definitions@),
                    whole == eval_let_spec(values_of(list@), old(env)@, depth as nat),
                    goal.result is Err ==> whole == failed(goal.result->Err_0, goal.scopes),
                    eval_bindings_spec(scope_from(pairs@), all.skip(i as int), env@, depth as nat)
                        == goal,
                decreases definitions.len() - i,
            {
                proof {
                    assert(all.skip(i as int).drop_first() =~= all.skip(i + 1));
                    assert(all.skip(i as int)[0] == definitions[i as int]@);
                }
                match &definitions[i] {
                    Object::List(pair) => {
                        proof {
                            assert(pair.len() >= 1 ==> values_of(pair@)[0] == pair[0]@);
                            assert(pair.len() >= 2 ==> values_of(pair@)[1] == pair[1]@);
                        }
                        if pair.len() < 2 {
                            return Err(RuntimeError::Fault(Fault::MissingOperand));
                        }
                        let value = eval_bounded(&pair[1], env, depth)?;
                        let name = pair[0].clone().into_symbol()?;
                        proof {
                            let next = pairs@.push((name, value));
                            assert(next.drop_last() =~= pairs@);
                        }
                        pairs.push((name, value));
                    },
                    _ => {
                        return Err(RuntimeError::TypeMismatch(Shape::List));
                    },
                }
                i += 1;
            }
            let mut inner = env.extend();
            let ghost all_pairs = pairs@;
            assert(inner@ =~= seq![scope_from(all_pairs.take(0))] + env@);
            for pair in it: pairs
                invariant
                    it.seq() == all_pairs,
                    inner@ == seq![scope_from(all_pairs.take(it.index() as int))] + env@,
            {
                proof {
                    assert(all_pairs.take(it.index() + 1).drop_last() =~= all_pairs.take(
                        it.index() as int,
                    ));
                }
                let (name, value) = pair;
                inner.set(name.as_str(), value);
                assert(inner@ =~= seq![scope_from(all_pairs.take(it.index() + 1))] + env@);
            }
            assert(all_pairs.take(all_pairs.len() as int) =~= all_pairs);
            eval_bounded(&list[1], &mut inner, depth)
        },
        _ => Err(RuntimeError::TypeMismatch(Shape::List)),
    }
}

/// Evaluates the condition and then one of the two branches.
pub fn eval_if(list: &[Object], env: &mut Env, depth: usize) -> (result: Result<
    Object,
    RuntimeError,
>)
    ensures
        outcome_of(result, final(env)@) == eval_if_spec(values_of(list@), old(env)@, depth as nat),
    decreases depth, 3nat,
{
    if list.len() == 0 {
        return Err(RuntimeError::Fault(Fault::MissingOperand));
    }
    let condition = eval_bounded(&list[0], env, depth)?;
    if list.len() < 3 {
        return Err(RuntimeError::Fault(Fault::MissingOperand));
    }
    if condition.into_boolean()? {
        eval_bounded(&list[1], env, depth)
    } else {
        eval_bounded(&list[2], env, depth)
    }
}

/// Binds a name in the innermost scope to what an expression comes to.
pub fn eval_def(list: &[Object], env: &mut Env, depth: usize) -> (result: Result<
    Object,
    RuntimeError,
>)
    ensures
        outcome_of(result, final(env)@) == eval_def_spec(values_of(list@), old(env)@, depth as nat),
    decreases depth, 3nat,
{
    if list.len() == 0 {
        return Err(RuntimeError::Fault(Fault::MissingOperand));
    }
    let name = list[0].clone().into_symbol()?;
    if list.len() < 2 {
        return Err(RuntimeError::Fault(Fault::MissingOperand));
    }
    let value = eval_bounded(&list[1], env, depth)?;
    env.set(name.as_str(), value);
    Ok(Object::Boolean(true))
}

/// Makes a function of a list of parameters and a body.
pub fn eval_fn(list: &[Object], env: &mut Env) -> (result: Result<Object, RuntimeError>)
    ensures
        final(env)@ == old(env)@,
        result_of(result) == eval_fn_spec(values_of(list@)),
{
    if list.len() == 0 {
        return Err(RuntimeError::Fault(Fault::MissingOperand));
    }
    assert(values_of(list@)[0] == list[0]@);
    assert(list.len() >= 2 ==> values_of(list@)[1] == list[1]@);
    match &list[0] {
        Object::List(symbols) => {
            let ghost all = values_of(symbols@);
            let mut params: Vec<String> = Vec::new();
            let mut i: usize = 0;
            while i < symbols.len()
                invariant
                    i <= symbols.len(),
                    all == values_of(symbols@),
                    list.len() > 0,
                    values_of(list@)[0] == Value::List(all),
                    params.len() == i,
                    forall|j: int| 0 <= j < i ==> all[j] == Value::Symbol(#[trigger] params[j]@),
                decreases symbols.len() - i,
            {
                assert(all[i as int] == symbols[i as int]@);
                let name = match symbols[i].clone().into_symbol() {
                    Ok(name) => name,
                    Err(error) => {
                        assert(!(all[i as int] is Symbol));
                        return Err(error);
                    },
                };
                params.push(name);
                i += 1;
            }
            assert(symbol_names(all) == Some(names_of(params@))) by {
                assert forall|j: int| 0 <= j < all.len() implies (#[trigger] all[j]) is Symbol by {
                    assert(all[j] == Value::Symbol(params[j]@));
                }
                assert(symbol_names(all)->Some_0 =~= names_of(params@));
            }
            if list.len() < 2 {
                return Err(RuntimeError::Fault(Fault::MissingOperand));
            }
            let body = list[1].clone().into_list()?;
            Ok(Object::Function(params, body))
        },
        _ => Err(RuntimeError::TypeMismatch(Shape::List)),
    }
}

} // verus!
