use vstd::prelude::*;
use vstd::std_specs::cmp::PartialEqSpecImpl;
use vstd::string::*;
use crate::error::{Failure, RuntimeError, Shape};
use crate::text::{push_char, render_int, render_nat, write_int, write_nat};

verus! {

/// The mathematical value that an [`Object`] stands for.
pub enum Value {
    Integer(i64),
    Boolean(bool),
    Symbol(Seq<char>),
    Function(Seq<Seq<char>>, Seq<Value>),
    PrimitiveFunction(Seq<char>, usize),
    SpecialForm(Seq<char>, Option<usize>),
    List(Seq<Value>),
}

/// A runtime datum: both the programs and the results of the language.
#[derive(Debug, Eq)]
pub enum Object {
    Integer(i64),
    Boolean(bool),
    /// A name, yet to be resolved against an environment.
    Symbol(String),
    /// A user function: its parameter names and its body, a single call form.
    Function(Vec<String>, Vec<Object>),
    /// A builtin operator, by name, with the number of operands it takes.
    PrimitiveFunction(String, usize),
    /// A builtin control structure, by name, with the number of operands it
    /// takes; `None` is any number.
    SpecialForm(String, Option<usize>),
    List(Vec<Object>),
}

/// The values of a sequence of objects, in order.
pub open spec fn values_of(objects: Seq<Object>) -> Seq<Value>
    decreases objects,
{
    Seq::new(
        objects.len(),
        |i: int|
            if 0 <= i < objects.len() {
                objects[i].view()
            } else {
                Value::List(Seq::empty())
            },
    )
}

/// The texts of a sequence of strings, in order.
pub open spec fn names_of(names: Seq<String>) -> Seq<Seq<char>> {
    Seq::new(names.len(), |i: int| names[i]@)
}

impl View for Object {
    type V = Value;

    open spec fn view(&self) -> Value
        decreases self,
    {
        match self {
            Object::Integer(i) => Value::Integer(*i),
            Object::Boolean(b) => Value::Boolean(*b),
            Object::Symbol(name) => Value::Symbol(name@),
            Object::Function(params, body) => Value::Function(names_of(params@), values_of(body@)),
            Object::PrimitiveFunction(name, arity) => Value::PrimitiveFunction(name@, *arity),
            Object::SpecialForm(name, arity) => Value::SpecialForm(name@, *arity),
            Object::List(items) => Value::List(values_of(items@)),
        }
    }
}

/// The names, with one space between each two.
pub open spec fn render_names(names: Seq<Seq<char>>) -> Seq<char>
    decreases names.len(),
{
    if names.len() == 0 {
        Seq::empty()
    } else if names.len() == 1 {
        names[0]
    } else {
        render_names(names.drop_last()) + seq![' '] + names.last()
    }
}

/// The text of a value. An integer is written in decimal, a truth value as
/// `true` or `false`, a symbol as its name, a list as its items in
/// parentheses, a function as `(fn (..) (..))` around its parameters and its
/// body, and a builtin as its name, a slash and the number of its operands,
/// `*` where it takes any number.
pub open spec fn render(value: Value) -> Seq<char>
    decreases value,
{
    match value {
        Value::Integer(i) => render_int(i as int),
        Value::Boolean(b) => if b {
            "true"@
        } else {
            "false"@
        },
        Value::Symbol(name) => name,
        Value::Function(params, body) => "(fn ("@ + render_names(params) + ") ("@ + render_items(
            body,
        ) + "))"@,
        Value::PrimitiveFunction(name, arity) => name + seq!['/'] + render_nat(arity as nat),
        Value::SpecialForm(name, arity) => name + seq!['/'] + match arity {
            Some(n) => render_nat(n as nat),
            None => seq!['*'],
        },
        Value::List(items) => seq!['('] + render_items(items) + seq![')'],
    }
}

/// The texts of the values, with one space between each two.
pub open spec fn render_items(items: Seq<Value>) -> Seq<char>
    decreases items,
{
    if items.len() == 0 {
        Seq::empty()
    } else if items.len() == 1 {
        render(items[0])
    } else {
        render_items(items.drop_last()) + seq![' '] + render(items.last())
    }
}

/// A copy of each string, in order.
pub fn clone_names(names: &Vec<String>) -> (copy: Vec<String>)
    ensures
        names_of(copy@) == names_of(names@),
{
    let mut copy: Vec<String> = Vec::new();
    let mut i: usize = 0;
    while i < names.len()
        invariant
            i <= names.len(),
            copy.len() == i,
            forall|j: int| 0 <= j < i ==> copy[j]@ == names[j]@,
        decreases names.len() - i,
    {
        copy.push(names[i].clone());
        i += 1;
    }
    assert(names_of(copy@) =~= names_of(names@));
    copy
}

/// A deep copy of each object, in order.
pub fn clone_objects(objects: &Vec<Object>) -> (copy: Vec<Object>)
    ensures
        values_of(copy@) == values_of(objects@),
    decreases objects,
{
    let mut copy: Vec<Object> = Vec::new();
    let mut i: usize = 0;
    while i < objects.len()
        invariant
            i <= objects.len(),
            copy.len() == i,
            forall|j: int| 0 <= j < i ==> copy[j]@ == objects[j]@,
        decreases objects.len() - i,
    {
        copy.push(objects[i].clone());
        i += 1;
    }
    assert(values_of(copy@) =~= values_of(objects@));
    copy
}

impl Clone for Object {
    /// A deep copy: an object that stands for the same value.
    fn clone(&self) -> (copy: Object)
        ensures
            copy@ == self@,
        decreases self,
    {
        match self {
            Object::Integer(i) => Object::Integer(*i),
            Object::Boolean(b) => Object::Boolean(*b),
            Object::Symbol(name) => Object::Symbol(name.clone()),
            Object::Function(params, body) => Object::Function(
                clone_names(params),
                clone_objects(body),
            ),
            Object::PrimitiveFunction(name, arity) => Object::PrimitiveFunction(
                name.clone(),
                *arity,
            ),
            Object::SpecialForm(name, arity) => Object::SpecialForm(name.clone(), *arity),
            Object::List(items) => Object::List(clone_objects(items)),
        }
    }
}

/// Whether the two sequences hold the same strings.
fn same_names(left: &Vec<String>, right: &Vec<String>) -> (same: bool)
    ensures
        same == (names_of(left@) == names_of(right@)),
{
    if left.len() != right.len() {
        assert(names_of(left@).len() != names_of(right@).len());
        return false;
    }
    let mut i: usize = 0;
    while i < left.len()
        invariant
            i <= left.len(),
            left.len() == right.len(),
            forall|j: int| 0 <= j < i ==> left[j]@ == right[j]@,
        decreases left.len() - i,
    {
        if left[i] != right[i] {
            assert(names_of(left@)[i as int] != names_of(right@)[i as int]);
            return false;
        }
        i += 1;
    }
    assert(names_of(left@) =~= names_of(right@));
    true
}

/// Whether the two sequences hold objects that stand for the same values.
fn same_objects(left: &Vec<Object>, right: &Vec<Object>) -> (same: bool)
    ensures
        same == (values_of(left@) == values_of(right@)),
    decreases left,
{
    if left.len() != right.len() {
        assert(values_of(left@).len() != values_of(right@).len());
        return false;
    }
    let mut i: usize = 0;
    while i < left.len()
        invariant
            i <= left.len(),
            left.len() == right.len(),
            forall|j: int| 0 <= j < i ==> left[j]@ == right[j]@,
        decreases left.len() - i,
    {
        if !left[i].eq(&right[i]) {
            assert(values_of(left@)[i as int] != values_of(right@)[i as int]);
            return false;
        }
        i += 1;
    }
    assert(values_of(left@) =~= values_of(right@));
    true
}

impl PartialEq for Object {
    /// Deep equality: whether the two objects stand for the same value.
    fn eq(&self, other: &Object) -> (same: bool)
        decreases self,
    {
        match (self, other) {
            (Object::Integer(a), Object::Integer(b)) => *a == *b,
            (Object::Boolean(a), Object::Boolean(b)) => *a == *b,
            (Object::Symbol(a), Object::Symbol(b)) => *a == *b,
            (Object::Function(params, body), Object::Function(other_params, other_body)) => {
                same_names(params, other_params) && same_objects(body, other_body)
            },
            (Object::PrimitiveFunction(a, arity), Object::PrimitiveFunction(b, other_arity)) => {
                *a == *b && *arity == *other_arity
            },
            (Object::SpecialForm(a, arity), Object::SpecialForm(b, other_arity)) => {
                *a == *b && match (arity, other_arity) {
                    (Some(n), Some(m)) => *n == *m,
                    (None, None) => true,
                    _ => false,
                }
            },
            (Object::List(items), Object::List(other_items)) => same_objects(items, other_items),
            _ => false,
        }
    }
}

impl PartialEqSpecImpl for Object {
    open spec fn obeys_eq_spec() -> bool {
        true
    }

    open spec fn eq_spec(&self, other: &Object) -> bool {
        self@ == other@
    }
}

impl Object {
    /// The integer that the object holds; any other shape is a type mismatch.
    pub fn into_integer(self) -> (result: Result<i64, RuntimeError>)
        ensures
            match self@ {
                Value::Integer(i) => result == Ok::<i64, RuntimeError>(i),
                _ => result is Err && result->Err_0@ == Failure::TypeMismatch(Shape::Integer),
            },
    {
        match self {
            Object::Integer(i) => Ok(i),
            _ => Err(RuntimeError::TypeMismatch(Shape::Integer)),
        }
    }

    /// The truth value that the object holds; any other shape is a type mismatch.
    pub fn into_boolean(self) -> (result: Result<bool, RuntimeError>)
        ensures
            match self@ {
                Value::Boolean(b) => result == Ok::<bool, RuntimeError>(b),
                _ => result is Err && result->Err_0@ == Failure::TypeMismatch(Shape::Boolean),
            },
    {
        match self {
            Object::Boolean(b) => Ok(b),
            _ => Err(RuntimeError::TypeMismatch(Shape::Boolean)),
        }
    }

    /// The name that the object holds; any other shape is a type mismatch.
    pub fn into_symbol(self) -> (result: Result<String, RuntimeError>)
        ensures
            match self@ {
                Value::Symbol(name) => result is Ok && result->Ok_0@ == name,
                _ => result is Err && result->Err_0@ == Failure::TypeMismatch(Shape::Symbol),
            },
    {
        match self {
            Object::Symbol(name) => Ok(name),
            _ => Err(RuntimeError::TypeMismatch(Shape::Symbol)),
        }
    }

    /// The items that the object holds; any other shape is a type mismatch.
    pub fn into_list(self) -> (result: Result<Vec<Object>, RuntimeError>)
        ensures
            match self@ {
                Value::List(items) => result is Ok && values_of(result->Ok_0@) == items,
                _ => result is Err && result->Err_0@ == Failure::TypeMismatch(Shape::List),
            },
    {
        match self {
            Object::List(items) => Ok(items),
            _ => Err(RuntimeError::TypeMismatch(Shape::List)),
        }
    }
}

fn write_names(names: &Vec<String>, text: &mut String)
    ensures
        final(text)@ == old(text)@ + render_names(names_of(names@)),
{
    let ghost start = text@;
    let ghost all = names_of(names@);
    let mut i: usize = 0;
    while i < names.len()
        invariant
            i <= names.len(),
            all == names_of(names@),
            text@ == start + render_names(all.take(i as int)),
        decreases names.len() - i,
    {
        if i > 0 {
            push_char(text, ' ');
        }
        text.append(names[i].as_str());
        proof {
            let next = all.take(i + 1);
            assert(next.drop_last() =~= all.take(i as int));
            assert(next.last() == names[i as int]@);
            assert(text@ =~= start + render_names(next));
        }
        i += 1;
    }
    assert(all.take(i as int) =~= all);
}

fn write_items(items: &Vec<Object>, text: &mut String)
    ensures
        final(text)@ == old(text)@ + render_items(values_of(items@)),
    decreases items,
{
    let ghost start = text@;
    let ghost all = values_of(items@);
    let mut i: usize = 0;
    while i < items.len()
        invariant
            i <= items.len(),
            all == values_of(items@),
            text@ == start + render_items(all.take(i as int)),
        decreases items.len() - i,
    {
        if i > 0 {
            push_char(text, ' ');
        }
        items[i].write(text);
        proof {
            let next = all.take(i + 1);
            assert(next.drop_last() =~= all.take(i as int));
            assert(next.last() == items[i as int]@);
            assert(text@ =~= start + render_items(next));
        }
        i += 1;
    }
    assert(all.take(i as int) =~= all);
}

impl Object {
    /// Writes the text of the object at the end of the given text.
    pub fn write(&self, text: &mut String)
        ensures
            final(text)@ == old(text)@ + render(self@),
        decreases self,
    {
        match self {
            Object::Integer(i) => {
                write_int(text, *i);
            },
            Object::Boolean(b) => {
                if *b {
                    text.append("true");
                } else {
                    text.append("false");
                }
            },
            Object::Symbol(name) => {
                text.append(name.as_str());
            },
            Object::Function(params, body) => {
                text.append("(fn (");
                write_names(params, text);
                text.append(") (");
                write_items(body, text);
                text.append("))");
                assert(final(text)@ =~= old(text)@ + render(self@));
            },
            Object::PrimitiveFunction(name, arity) => {
                text.append(name.as_str());
                push_char(text, '/');
                write_nat(text, *arity as u64);
                assert(final(text)@ =~= old(text)@ + render(self@));
            },
            Object::SpecialForm(name, arity) => {
                text.append(name.as_str());
                push_char(text, '/');
                match arity {
                    Some(n) => {
                        write_nat(text, *n as u64);
                    },
                    None => {
                        push_char(text, '*');
                    },
                }
                assert(final(text)@ =~= old(text)@ + render(self@));
            },
            Object::List(items) => {
                push_char(text, '(');
                write_items(items, text);
                push_char(text, ')');
                assert(final(text)@ =~= old(text)@ + render(self@));
            },
        }
    }

    /// The text of the object.
    pub fn to_string(&self) -> (text: String)
        ensures
            text@ == render(self@),
    {
        let mut text = String::new();
        self.write(&mut text);
        assert(text@ =~= render(self@));
        text
    }
}

} // verus!
