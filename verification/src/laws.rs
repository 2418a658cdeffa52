use vstd::prelude::*;
use crate::env::{
    base_scope, bind, extended, lemma_base_names, lemma_base_scope, lookup, Scope,
};
use crate::error::{Failure, Fault};
use crate::invariants::law_eval_keeps_outer;
use crate::object::Value;
use crate::semantics::{
    apply_operator_spec, done, eval_bindings_spec, eval_def_spec, eval_function_spec,
    eval_if_spec, eval_let_spec, eval_list_spec, eval_primitive_binary_spec, eval_spec,
    eval_special_form_spec, eval_symbol_spec, failed, is_operator, operate, quotient, wrap,
    Outcome,
};

verus! {

/// The call of a name on two integers.
pub open spec fn call(name: Seq<char>, a: i64, b: i64) -> Value {
    Value::List(seq![Value::Symbol(name), Value::Integer(a), Value::Integer(b)])
}

/// The environment that every program starts in.
pub open spec fn base() -> Seq<Scope> {
    seq![base_scope()]
}

/// A name bound in the innermost scope is found there, whatever the scopes
/// around it bind.
pub proof fn law_innermost_binding_wins(scopes: Seq<Scope>, name: Seq<char>, value: Value)
    requires
        scopes.len() > 0,
    ensures
        lookup(bind(scopes, name, value), name) == Some(value),
        lookup(bind(extended(scopes), name, value), name) == Some(value),
{
}

/// Binding a name changes the innermost scope only, and no other name.
pub proof fn law_binding_is_local(
    scopes: Seq<Scope>,
    name: Seq<char>,
    value: Value,
    other: Seq<char>,
)
    requires
        scopes.len() > 0,
    ensures
        bind(scopes, name, value).drop_first() == scopes.drop_first(),
        bind(extended(scopes), name, value).drop_first() == scopes,
        other != name ==> lookup(bind(scopes, name, value), other) == lookup(scopes, other),
{
    assert(bind(scopes, name, value).drop_first() =~= scopes.drop_first());
    assert(bind(extended(scopes), name, value).drop_first() =~= scopes);
}

/// A new scope binds nothing: every name is looked up in the scopes around it.
pub proof fn law_new_scope_is_empty(scopes: Seq<Scope>, name: Seq<char>)
    ensures
        lookup(extended(scopes), name) == lookup(scopes, name),
{
    assert(extended(scopes).drop_first() =~= scopes);
}

/// The base environment binds each operator's name to the operator of two operands.
pub proof fn law_base_binds_operators(name: Seq<char>)
    requires
        is_operator(name),
    ensures
        lookup(base(), name) == Some(Value::PrimitiveFunction(name, 2)),
{
    lemma_base_scope();
    assert(base()[0] == base_scope());
}

/// Where a name is bound to the operator of that name, the call of it on two
/// integers comes to what the operator makes of them, and changes no binding.
pub proof fn law_operator_call(name: Seq<char>, a: i64, b: i64, scopes: Seq<Scope>, depth: nat)
    requires
        is_operator(name),
        lookup(scopes, name) == Some(Value::PrimitiveFunction(name, 2)),
        depth >= 3,
    ensures
        eval_spec(call(name, a, b), scopes, depth) == (Outcome {
            result: operate(name, a, b),
            scopes,
        }),
{
    let items = seq![Value::Symbol(name), Value::Integer(a), Value::Integer(b)];
    let operands = items.drop_first();
    let inner = (depth - 1) as nat;
    assert(eval_spec(call(name, a, b), scopes, depth) == eval_list_spec(items, scopes, inner));
    assert(eval_spec(items[0], scopes, inner) == eval_symbol_spec(
        name,
        scopes,
        (inner - 1) as nat,
    ));
    assert(eval_spec(items[0], scopes, inner) == done(Value::PrimitiveFunction(name, 2), scopes));
    assert(eval_list_spec(items, scopes, inner) == eval_primitive_binary_spec(
        name,
        operands,
        scopes,
        inner,
    ));
    assert(operands.len() == 2);
    assert(eval_spec(operands[0], scopes, inner) == done(Value::Integer(a), scopes));
    assert(eval_spec(operands[1], scopes, inner) == done(Value::Integer(b), scopes));
    assert(apply_operator_spec(name, Value::Integer(a), Value::Integer(b)) == operate(name, a, b));
}

/// In the base environment the four arithmetic operators give the integer of
/// machine arithmetic, division rounding toward zero, and the six comparisons
/// give the truth value of the comparison.
pub proof fn law_arithmetic(a: i64, b: i64, depth: nat)
    requires
        depth >= 3,
    ensures
        eval_spec(call("+"@, a, b), base(), depth) == done(Value::Integer(wrap(a + b)), base()),
        eval_spec(call("-"@, a, b), base(), depth) == done(Value::Integer(wrap(a - b)), base()),
        eval_spec(call("*"@, a, b), base(), depth) == done(Value::Integer(wrap(a * b)), base()),
        b != 0 ==> eval_spec(call("/"@, a, b), base(), depth) == done(
            Value::Integer(wrap(quotient(a as int, b as int))),
            base(),
        ),
        eval_spec(call("="@, a, b), base(), depth) == done(Value::Boolean(a == b), base()),
        eval_spec(call("!="@, a, b), base(), depth) == done(Value::Boolean(a != b), base()),
        eval_spec(call("<"@, a, b), base(), depth) == done(Value::Boolean(a < b), base()),
        eval_spec(call(">"@, a, b), base(), depth) == done(Value::Boolean(a > b), base()),
        eval_spec(call("<="@, a, b), base(), depth) == done(Value::Boolean(a <= b), base()),
        eval_spec(call(">="@, a, b), base(), depth) == done(Value::Boolean(a >= b), base()),
{
    lemma_base_names();
    law_base_binds_operators("+"@);
    law_operator_call("+"@, a, b, base(), depth);
    law_base_binds_operators("-"@);
    law_operator_call("-"@, a, b, base(), depth);
    law_base_binds_operators("*"@);
    law_operator_call("*"@, a, b, base(), depth);
    law_base_binds_operators("/"@);
    law_operator_call("/"@, a, b, base(), depth);
    law_base_binds_operators("="@);
    law_operator_call("="@, a, b, base(), depth);
    law_base_binds_operators("!="@);
    law_operator_call("!="@, a, b, base(), depth);
    law_base_binds_operators("<"@);
    law_operator_call("<"@, a, b, base(), depth);
    law_base_binds_operators(">"@);
    law_operator_call(">"@, a, b, base(), depth);
    law_base_binds_operators("<="@);
    law_operator_call("<="@, a, b, base(), depth);
    law_base_binds_operators(">="@);
    law_operator_call(">="@, a, b, base(), depth);
}

/// Where no arithmetic leaves the 64 bits, the operators give the sum, the
/// difference and the product themselves.
pub proof fn law_wrap_in_range(x: int)
    requires
        i64::MIN <= x <= i64::MAX,
    ensures
        wrap(x) == x,
{
}

/// An operator applied to any number of operands but two fails with an arity
/// mismatch that names it, and evaluates none of them.
pub proof fn law_operator_arity(
    name: Seq<char>,
    operands: Seq<Value>,
    scopes: Seq<Scope>,
    depth: nat,
)
    requires
        lookup(scopes, name) == Some(Value::PrimitiveFunction(name, 2)),
        operands.len() != 2,
        depth >= 3,
    ensures
        eval_spec(Value::List(seq![Value::Symbol(name)] + operands), scopes, depth) == failed(
            Failure::ArityMismatch(name, 2, operands.len() as usize),
            scopes,
        ),
{
    let items = seq![Value::Symbol(name)] + operands;
    let inner = (depth - 1) as nat;
    assert(items.drop_first() =~= operands);
    assert(eval_spec(Value::List(items), scopes, depth) == eval_list_spec(items, scopes, inner));
    assert(eval_spec(items[0], scopes, inner) == eval_symbol_spec(
        name,
        scopes,
        (inner - 1) as nat,
    ));
}

/// A special form of a fixed number of operands, applied to any other number,
/// fails with an arity mismatch that names it, and evaluates none of them.
pub proof fn law_special_form_arity(
    name: Seq<char>,
    arity: usize,
    operands: Seq<Value>,
    scopes: Seq<Scope>,
    depth: nat,
)
    requires
        operands.len() != arity,
    ensures
        eval_special_form_spec(name, Some(arity), operands, scopes, depth) == failed(
            Failure::ArityMismatch(name, arity, operands.len() as usize),
            scopes,
        ),
{
}

/// `quote` gives its operand as it stands, whatever evaluating the operand
/// would come to, and changes no binding.
pub proof fn law_quote(operand: Value, scopes: Seq<Scope>, depth: nat)
    ensures
        eval_special_form_spec("quote"@, Some(1), seq![operand], scopes, depth) == done(
            operand,
            scopes,
        ),
        eval_special_form_spec("quote"@, None, seq![operand], scopes, depth) == done(
            operand,
            scopes,
        ),
{
}

/// `if` does not evaluate the branch that it does not take: the outcome is
/// the same whatever stands in its place.
pub proof fn law_if_skips_the_other_branch(
    condition: Value,
    taken: Value,
    skipped: Value,
    other: Value,
    scopes: Seq<Scope>,
    depth: nat,
)
    ensures
        eval_spec(condition, scopes, depth).result == Ok::<Value, Failure>(Value::Boolean(true))
            ==> eval_if_spec(seq![condition, taken, skipped], scopes, depth) == eval_if_spec(
            seq![condition, taken, other],
            scopes,
            depth,
        ) && eval_if_spec(seq![condition, taken, skipped], scopes, depth) == eval_spec(
            taken,
            eval_spec(condition, scopes, depth).scopes,
            depth,
        ),
        eval_spec(condition, scopes, depth).result == Ok::<Value, Failure>(Value::Boolean(false))
            ==> eval_if_spec(seq![condition, skipped, taken], scopes, depth) == eval_if_spec(
            seq![condition, other, taken],
            scopes,
            depth,
        ) && eval_if_spec(seq![condition, skipped, taken], scopes, depth) == eval_spec(
            taken,
            eval_spec(condition, scopes, depth).scopes,
            depth,
        ),
{
}

/// `def` gives `true` whatever it defines, and afterwards the name is bound
/// to what the expression came to.
pub proof fn law_def(name: Seq<char>, expression: Value, scopes: Seq<Scope>, depth: nat)
    requires
        scopes.len() > 0,
        eval_spec(expression, scopes, depth).result is Ok,
    ensures
        eval_def_spec(seq![Value::Symbol(name), expression], scopes, depth).result == Ok::<
            Value,
            Failure,
        >(Value::Boolean(true)),
        lookup(eval_def_spec(seq![Value::Symbol(name), expression], scopes, depth).scopes, name)
            == Some(eval_spec(expression, scopes, depth).result->Ok_0),
{
    law_eval_keeps_outer(expression, scopes, depth);
}

/// With no depth left nothing evaluates.
pub proof fn law_depth_exhausted(value: Value, scopes: Seq<Scope>)
    ensures
        eval_spec(value, scopes, 0) == failed(Failure::Fault(Fault::DepthExceeded), scopes),
{
}

/// Where `quote` is bound to the special form of that name, the call of it
/// on one operand gives the operand as it stands and changes no binding.
pub proof fn law_quote_call(operand: Value, scopes: Seq<Scope>, depth: nat)
    requires
        lookup(scopes, "quote"@) == Some(Value::SpecialForm("quote"@, Some(1))),
        depth >= 3,
    ensures
        eval_spec(Value::List(seq![Value::Symbol("quote"@), operand]), scopes, depth) == done(
            operand,
            scopes,
        ),
{
    let items = seq![Value::Symbol("quote"@), operand];
    let inner = (depth - 1) as nat;
    assert(items.drop_first() =~= seq![operand]);
    assert(eval_spec(Value::List(items), scopes, depth) == eval_list_spec(items, scopes, inner));
    assert(eval_spec(items[0], scopes, inner) == eval_symbol_spec(
        "quote"@,
        scopes,
        (inner - 1) as nat,
    ));
    law_quote(operand, scopes, inner);
}

/// A function call leaves the caller's scopes as they were, whatever the body does.
pub proof fn law_call_is_local(
    params: Seq<Seq<char>>,
    body: Seq<Value>,
    arguments: Seq<Value>,
    scopes: Seq<Scope>,
    depth: nat,
)
    ensures
        eval_function_spec(params, body, arguments, scopes, depth).scopes == scopes,
{
}

/// The definition of a name in a `let`.
pub open spec fn definition(name: Seq<char>, initializer: Value) -> Value {
    Value::List(seq![Value::Symbol(name), initializer])
}

/// In the body of a `let` a name stands for what its initializer came to,
/// whatever the scopes around the `let` bind it to.
pub proof fn law_let_shadows(name: Seq<char>, initializer: Value, scopes: Seq<Scope>, depth: nat)
    requires
        depth >= 2,
        eval_spec(initializer, scopes, depth).result is Ok,
        !(eval_spec(initializer, scopes, depth).result->Ok_0 is Symbol),
    ensures
        eval_let_spec(
            seq![Value::List(seq![definition(name, initializer)]), Value::Symbol(name)],
            scopes,
            depth,
        ) == eval_spec(initializer, scopes, depth),
{
    let definitions = seq![definition(name, initializer)];
    let first = eval_spec(initializer, scopes, depth);
    let value = first.result->Ok_0;
    let scope = Map::<Seq<char>, Value>::empty().insert(name, value);
    assert(definitions.drop_first() =~= Seq::<Value>::empty());
    assert(eval_bindings_spec(scope, definitions.drop_first(), first.scopes, depth).result == Ok::<
        Scope,
        Failure,
    >(scope));
    let inner = seq![scope] + first.scopes;
    assert(inner[0] == scope);
    assert(eval_spec(Value::Symbol(name), inner, depth) == eval_symbol_spec(
        name,
        inner,
        (depth - 1) as nat,
    ));
}

/// The initializers of a `let` do not see the names that the same `let`
/// defines: one that names an earlier definition, unbound outside, fails.
pub proof fn law_let_is_not_sequential(
    first: Seq<char>,
    i: i64,
    second: Seq<char>,
    body: Value,
    scopes: Seq<Scope>,
    depth: nat,
)
    requires
        depth >= 2,
        lookup(scopes, first) is None,
    ensures
        eval_let_spec(
            seq![
                Value::List(
                    seq![
                        definition(first, Value::Integer(i)),
                        definition(second, Value::Symbol(first)),
                    ],
                ),
                body,
            ],
            scopes,
            depth,
        ) == failed(Failure::UnboundSymbol(first), scopes),
{
    let definitions = seq![
        definition(first, Value::Integer(i)),
        definition(second, Value::Symbol(first)),
    ];
    let rest = definitions.drop_first();
    let scope = Map::<Seq<char>, Value>::empty().insert(first, Value::Integer(i));
    assert(rest[0] == definition(second, Value::Symbol(first)));
    assert(eval_spec(Value::Symbol(first), scopes, depth) == eval_symbol_spec(
        first,
        scopes,
        (depth - 1) as nat,
    ));
    assert(eval_bindings_spec(scope, rest, scopes, depth).result == Err::<Scope, Failure>(
        Failure::UnboundSymbol(first),
    ));
    assert(eval_bindings_spec(scope, rest, scopes, depth).scopes == scopes);
}

} // verus!
