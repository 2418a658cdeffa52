use vstd::prelude::*;
use crate::env::{bind, extended, lookup, Scope};
use crate::error::{Failure, Fault};
use crate::object::Value;
use crate::semantics::{
    bind_each, eval_bindings_spec, eval_def_spec, eval_each_spec, eval_function_spec,
    eval_if_spec, eval_let_spec, eval_list_spec, eval_primitive_binary_spec,
    eval_special_form_spec, eval_spec, eval_symbol_spec,
};

verus! {

/// Whether the scopes around the innermost one are the same in both chains,
/// which are of one length.
pub open spec fn same_outer(before: Seq<Scope>, after: Seq<Scope>) -> bool {
    after.len() == before.len() && after.drop_first() == before.drop_first()
}

/// Binding a name writes to the innermost scope only.
pub proof fn lemma_bind_keeps_outer(scopes: Seq<Scope>, name: Seq<char>, value: Value)
    ensures
        same_outer(scopes, bind(scopes, name, value)),
{
    assert(bind(scopes, name, value).drop_first() =~= scopes.drop_first());
}

/// Evaluation writes to the innermost scope only: whatever a program does,
/// it neither adds nor removes a scope of the chain it was given, and the
/// scopes around the innermost one keep every binding.
pub proof fn law_eval_keeps_outer(value: Value, scopes: Seq<Scope>, depth: nat)
    ensures
        same_outer(scopes, eval_spec(value, scopes, depth).scopes),
    decreases depth, 0nat, 0nat,
{
    if depth > 0 {
        match value {
            Value::Symbol(name) => lemma_symbol_keeps_outer(name, scopes, (depth - 1) as nat),
            Value::List(items) => lemma_list_keeps_outer(items, scopes, (depth - 1) as nat),
            _ => {},
        }
    }
}

proof fn lemma_symbol_keeps_outer(name: Seq<char>, scopes: Seq<Scope>, depth: nat)
    ensures
        same_outer(scopes, eval_symbol_spec(name, scopes, depth).scopes),
    decreases depth, 1nat, 0nat,
{
    match lookup(scopes, name) {
        Some(Value::Symbol(alias)) => law_eval_keeps_outer(Value::Symbol(alias), scopes, depth),
        _ => {},
    }
}

proof fn lemma_list_keeps_outer(items: Seq<Value>, scopes: Seq<Scope>, depth: nat)
    ensures
        same_outer(scopes, eval_list_spec(items, scopes, depth).scopes),
    decreases depth, 5nat, 0nat,
{
    if items.len() > 0 {
        law_eval_keeps_outer(items[0], scopes, depth);
        let head = eval_spec(items[0], scopes, depth);
        match head.result {
            Ok(Value::PrimitiveFunction(name, arity)) => {
                if arity == 2 {
                    lemma_primitive_keeps_outer(name, items.drop_first(), head.scopes, depth);
                }
            },
            Ok(Value::SpecialForm(name, arity)) => {
                lemma_special_form_keeps_outer(
                    name,
                    arity,
                    items.drop_first(),
                    head.scopes,
                    depth,
                );
            },
            _ => {},
        }
    }
}

proof fn lemma_primitive_keeps_outer(
    name: Seq<char>,
    operands: Seq<Value>,
    scopes: Seq<Scope>,
    depth: nat,
)
    ensures
        same_outer(scopes, eval_primitive_binary_spec(name, operands, scopes, depth).scopes),
    decreases depth, 4nat, 0nat,
{
    if operands.len() == 2 {
        law_eval_keeps_outer(operands[0], scopes, depth);
        let left = eval_spec(operands[0], scopes, depth);
        if left.result is Ok {
            law_eval_keeps_outer(operands[1], left.scopes, depth);
        }
    }
}

proof fn lemma_special_form_keeps_outer(
    name: Seq<char>,
    arity: Option<usize>,
    operands: Seq<Value>,
    scopes: Seq<Scope>,
    depth: nat,
)
    ensures
        same_outer(scopes, eval_special_form_spec(name, arity, operands, scopes, depth).scopes),
    decreases depth, 4nat, 0nat,
{
    if arity is Some && arity->Some_0 != operands.len() {
    } else if name == "quote"@ {
    } else if name == "progn"@ {
        lemma_each_keeps_outer(Value::List(Seq::empty()), operands, scopes, depth);
    } else if name == "let"@ {
        lemma_let_keeps_outer(operands, scopes, depth);
    } else if name == "if"@ {
        lemma_if_keeps_outer(operands, scopes, depth);
    } else if name == "def"@ {
        lemma_def_keeps_outer(operands, scopes, depth);
    }
}

proof fn lemma_each_keeps_outer(last: Value, forms: Seq<Value>, scopes: Seq<Scope>, depth: nat)
    ensures
        same_outer(scopes, eval_each_spec(last, forms, scopes, depth).scopes),
    decreases depth, 2nat, forms.len(),
{
    if forms.len() > 0 {
        law_eval_keeps_outer(forms[0], scopes, depth);
        let first = eval_spec(forms[0], scopes, depth);
        if let Ok(value) = first.result {
            lemma_each_keeps_outer(value, forms.drop_first(), first.scopes, depth);
        }
    }
}

proof fn lemma_bindings_keep_outer(
    scope: Scope,
    definitions: Seq<Value>,
    scopes: Seq<Scope>,
    depth: nat,
)
    ensures
        same_outer(scopes, eval_bindings_spec(scope, definitions, scopes, depth).scopes),
    decreases depth, 2nat, definitions.len(),
{
    if definitions.len() > 0 {
        if let Value::List(pair) = definitions[0] {
            if pair.len() >= 2 {
                law_eval_keeps_outer(pair[1], scopes, depth);
                let initial = eval_spec(pair[1], scopes, depth);
                if let (Ok(value), Value::Symbol(name)) = (initial.result, pair[0]) {
                    lemma_bindings_keep_outer(
                        scope.insert(name, value),
                        definitions.drop_first(),
                        initial.scopes,
                        depth,
                    );
                }
            }
        }
    }
}

proof fn lemma_let_keeps_outer(operands: Seq<Value>, scopes: Seq<Scope>, depth: nat)
    ensures
        same_outer(scopes, eval_let_spec(operands, scopes, depth).scopes),
    decreases depth, 3nat, 0nat,
{
    if operands.len() >= 2 {
        if let Value::List(definitions) = operands[0] {
            lemma_bindings_keep_outer(Map::empty(), definitions, scopes, depth);
        }
    }
}

proof fn lemma_if_keeps_outer(operands: Seq<Value>, scopes: Seq<Scope>, depth: nat)
    ensures
        same_outer(scopes, eval_if_spec(operands, scopes, depth).scopes),
    decreases depth, 3nat, 0nat,
{
    if operands.len() > 0 {
        law_eval_keeps_outer(operands[0], scopes, depth);
        let condition = eval_spec(operands[0], scopes, depth);
        if operands.len() >= 3 {
            if let Ok(Value::Boolean(holds)) = condition.result {
                law_eval_keeps_outer(
                    if holds {
                        operands[1]
                    } else {
                        operands[2]
                    },
                    condition.scopes,
                    depth,
                );
            }
        }
    }
}

proof fn lemma_def_keeps_outer(operands: Seq<Value>, scopes: Seq<Scope>, depth: nat)
    ensures
        same_outer(scopes, eval_def_spec(operands, scopes, depth).scopes),
    decreases depth, 3nat, 0nat,
{
    if operands.len() >= 2 {
        if let Value::Symbol(name) = operands[0] {
            law_eval_keeps_outer(operands[1], scopes, depth);
            let defined = eval_spec(operands[1], scopes, depth);
            if let Ok(value) = defined.result {
                lemma_bind_keeps_outer(defined.scopes, name, value);
            }
        }
    }
}

/// Whether a result is the failure of an evaluation that ran out of depth.
pub open spec fn exhausted<T>(result: Result<T, Failure>) -> bool {
    result == Err::<T, Failure>(Failure::Fault(Fault::DepthExceeded))
}

/// The depth is a cutoff and nothing else: an evaluation that did not run out
/// of depth comes to the same outcome at any greater depth.
pub proof fn law_depth_is_a_cutoff(value: Value, scopes: Seq<Scope>, depth: nat, more: nat)
    requires
        !exhausted(eval_spec(value, scopes, depth).result),
        more >= depth,
    ensures
        eval_spec(value, scopes, more) == eval_spec(value, scopes, depth),
    decreases more - depth,
{
    if more > depth {
        law_depth_is_a_cutoff(value, scopes, depth, (more - 1) as nat);
        lemma_eval_deeper(value, scopes, (more - 1) as nat);
    }
}

proof fn lemma_eval_deeper(value: Value, scopes: Seq<Scope>, depth: nat)
    requires
        !exhausted(eval_spec(value, scopes, depth).result),
    ensures
        eval_spec(value, scopes, depth + 1) == eval_spec(value, scopes, depth),
    decreases depth, 0nat, 0nat,
{
    match value {
        Value::Symbol(name) => lemma_symbol_deeper(name, scopes, (depth - 1) as nat),
        Value::List(items) => lemma_list_deeper(items, scopes, (depth - 1) as nat),
        _ => {},
    }
}

proof fn lemma_symbol_deeper(name: Seq<char>, scopes: Seq<Scope>, depth: nat)
    requires
        !exhausted(eval_symbol_spec(name, scopes, depth).result),
    ensures
        eval_symbol_spec(name, scopes, depth + 1) == eval_symbol_spec(name, scopes, depth),
    decreases depth, 1nat, 0nat,
{
    match lookup(scopes, name) {
        Some(Value::Symbol(alias)) => lemma_eval_deeper(Value::Symbol(alias), scopes, depth),
        _ => {},
    }
}

proof fn lemma_list_deeper(items: Seq<Value>, scopes: Seq<Scope>, depth: nat)
    requires
        !exhausted(eval_list_spec(items, scopes, depth).result),
    ensures
        eval_list_spec(items, scopes, depth + 1) == eval_list_spec(items, scopes, depth),
    decreases depth, 5nat, 0nat,
{
    if items.len() > 0 {
        lemma_eval_deeper(items[0], scopes, depth);
        let head = eval_spec(items[0], scopes, depth);
        match head.result {
            Ok(Value::Function(params, body)) => {
                lemma_function_deeper(params, body, items.drop_first(), head.scopes, depth);
            },
            Ok(Value::PrimitiveFunction(name, arity)) => {
                if arity == 2 {
                    lemma_primitive_deeper(name, items.drop_first(), head.scopes, depth);
                }
            },
            Ok(Value::SpecialForm(name, arity)) => {
                lemma_special_form_deeper(name, arity, items.drop_first(), head.scopes, depth);
            },
            _ => {},
        }
    }
}

proof fn lemma_function_deeper(
    params: Seq<Seq<char>>,
    body: Seq<Value>,
    arguments: Seq<Value>,
    scopes: Seq<Scope>,
    depth: nat,
)
    requires
        !exhausted(eval_function_spec(params, body, arguments, scopes, depth).result),
    ensures
        eval_function_spec(params, body, arguments, scopes, depth + 1) == eval_function_spec(
            params,
            body,
            arguments,
            scopes,
            depth,
        ),
    decreases depth, 4nat, 0nat,
{
    let inner = bind_each(extended(scopes), params, arguments);
    lemma_list_deeper(body, inner, (depth - 1) as nat);
}

proof fn lemma_primitive_deeper(
    name: Seq<char>,
    operands: Seq<Value>,
    scopes: Seq<Scope>,
    depth: nat,
)
    requires
        !exhausted(eval_primitive_binary_spec(name, operands, scopes, depth).result),
    ensures
        eval_primitive_binary_spec(name, operands, scopes, depth + 1)
            == eval_primitive_binary_spec(name, operands, scopes, depth),
    decreases depth, 4nat, 0nat,
{
    if operands.len() == 2 {
        lemma_eval_deeper(operands[0], scopes, depth);
        let left = eval_spec(operands[0], scopes, depth);
        if left.result is Ok {
            lemma_eval_deeper(operands[1], left.scopes, depth);
        }
    }
}

proof fn lemma_special_form_deeper(
    name: Seq<char>,
    arity: Option<usize>,
    operands: Seq<Value>,
    scopes: Seq<Scope>,
    depth: nat,
)
    requires
        !exhausted(eval_special_form_spec(name, arity, operands, scopes, depth).result),
    ensures
        eval_special_form_spec(name, arity, operands, scopes, depth + 1)
            == eval_special_form_spec(name, arity, operands, scopes, depth),
    decreases depth, 4nat, 0nat,
{
    if arity is Some && arity->Some_0 != operands.len() {
    } else if name == "quote"@ {
    } else if name == "progn"@ {
        lemma_each_deeper(Value::List(Seq::empty()), operands, scopes, depth);
    } else if name == "let"@ {
        lemma_let_deeper(operands, scopes, depth);
    } else if name == "if"@ {
        lemma_if_deeper(operands, scopes, depth);
    } else if name == "def"@ {
        lemma_def_deeper(operands, scopes, depth);
    }
}

proof fn lemma_each_deeper(last: Value, forms: Seq<Value>, scopes: Seq<Scope>, depth: nat)
    requires
        !exhausted(eval_each_spec(last, forms, scopes, depth).result),
    ensures
        eval_each_spec(last, forms, scopes, depth + 1) == eval_each_spec(
            last,
            forms,
            scopes,
            depth,
        ),
    decreases depth, 2nat, forms.len(),
{
    if forms.len() > 0 {
        lemma_eval_deeper(forms[0], scopes, depth);
        let first = eval_spec(forms[0], scopes, depth);
        if let Ok(value) = first.result {
            lemma_each_deeper(value, forms.drop_first(), first.scopes, depth);
        }
    }
}

proof fn lemma_bindings_deeper(
    scope: Scope,
    definitions: Seq<Value>,
    scopes: Seq<Scope>,
    depth: nat,
)
    requires
        !exhausted(eval_bindings_spec(scope, definitions, scopes, depth).result),
    ensures
        eval_bindings_spec(scope, definitions, scopes, depth + 1) == eval_bindings_spec(
            scope,
            definitions,
            scopes,
            depth,
        ),
    decreases depth, 2nat, definitions.len(),
{
    if definitions.len() > 0 {
        if let Value::List(pair) = definitions[0] {
            if pair.len() >= 2 {
                lemma_eval_deeper(pair[1], scopes, depth);
                let initial = eval_spec(pair[1], scopes, depth);
                if let (Ok(value), Value::Symbol(name)) = (initial.result, pair[0]) {
                    lemma_bindings_deeper(
                        scope.insert(name, value),
                        definitions.drop_first(),
                        initial.scopes,
                        depth,
                    );
                }
            }
        }
    }
}

proof fn lemma_let_deeper(operands: Seq<Value>, scopes: Seq<Scope>, depth: nat)
    requires
        !exhausted(eval_let_spec(operands, scopes, depth).result),
    ensures
        eval_let_spec(operands, scopes, depth + 1) == eval_let_spec(operands, scopes, depth),
    decreases depth, 3nat, 0nat,
{
    if operands.len() >= 2 {
        if let Value::List(definitions) = operands[0] {
            lemma_bindings_deeper(Map::empty(), definitions, scopes, depth);
            let bound = eval_bindings_spec(Map::empty(), definitions, scopes, depth);
            if let Ok(scope) = bound.result {
                lemma_eval_deeper(operands[1], seq![scope] + bound.scopes, depth);
            }
        }
    }
}

proof fn lemma_if_deeper(operands: Seq<Value>, scopes: Seq<Scope>, depth: nat)
    requires
        !exhausted(eval_if_spec(operands, scopes, depth).result),
    ensures
        eval_if_spec(operands, scopes, depth + 1) == eval_if_spec(operands, scopes, depth),
    decreases depth, 3nat, 0nat,
{
    if operands.len() > 0 {
        lemma_eval_deeper(operands[0], scopes, depth);
        let condition = eval_spec(operands[0], scopes, depth);
        if operands.len() >= 3 {
            if let Ok(Value::Boolean(holds)) = condition.result {
                lemma_eval_deeper(
                    if holds {
                        operands[1]
                    } else {
                        operands[2]
                    },
                    condition.scopes,
                    depth,
                );
            }
        }
    }
}

proof fn lemma_def_deeper(operands: Seq<Value>, scopes: Seq<Scope>, depth: nat)
    requires
        !exhausted(eval_def_spec(operands, scopes, depth).result),
    ensures
        eval_def_spec(operands, scopes, depth + 1) == eval_def_spec(operands, scopes, depth),
    decreases depth, 3nat, 0nat,
{
    if operands.len() >= 2 {
        if let Value::Symbol(name) = operands[0] {
            lemma_eval_deeper(operands[1], scopes, depth);
        }
    }
}

} // verus!
