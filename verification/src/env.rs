use std::sync::Arc;
use vstd::prelude::*;
use crate::object::{Object, Value};
use crate::text::same_text;

verus! {

/// One scope: the values bound to names at one level of nesting.
pub type Scope = Map<Seq<char>, Value>;

/// The value that a chain of scopes, innermost first, gives a name: that of
/// the first scope which binds it.
pub open spec fn lookup(scopes: Seq<Scope>, name: Seq<char>) -> Option<Value>
    decreases scopes.len(),
{
    if scopes.len() == 0 {
        None
    } else if scopes[0].contains_key(name) {
        Some(scopes[0][name])
    } else {
        lookup(scopes.drop_first(), name)
    }
}

/// The chain with the name bound to the value in its innermost scope.
pub open spec fn bind(scopes: Seq<Scope>, name: Seq<char>, value: Value) -> Seq<Scope> {
    if scopes.len() == 0 {
        scopes
    } else {
        scopes.update(0, scopes[0].insert(name, value))
    }
}

/// The chain with a new, empty innermost scope.
pub open spec fn extended(scopes: Seq<Scope>) -> Seq<Scope> {
    seq![Map::empty()] + scopes
}

/// The scope that an evaluation starts from: the operators, the special forms
/// and the two truth values.
pub open spec fn base_scope() -> Scope {
    Map::<Seq<char>, Value>::empty().insert("+"@, Value::PrimitiveFunction("+"@, 2)).insert(
        "-"@,
        Value::PrimitiveFunction("-"@, 2),
    ).insert("*"@, Value::PrimitiveFunction("*"@, 2)).insert(
        "/"@,
        Value::PrimitiveFunction("/"@, 2),
    ).insert("="@, Value::PrimitiveFunction("="@, 2)).insert(
        "!="@,
        Value::PrimitiveFunction("!="@, 2),
    ).insert("<"@, Value::PrimitiveFunction("<"@, 2)).insert(
        ">"@,
        Value::PrimitiveFunction(">"@, 2),
    ).insert("<="@, Value::PrimitiveFunction("<="@, 2)).insert(
        ">="@,
        Value::PrimitiveFunction(">="@, 2),
    ).insert("progn"@, Value::SpecialForm("progn"@, None)).insert(
        "let"@,
        Value::SpecialForm("let"@, Some(2)),
    ).insert("if"@, Value::SpecialForm("if"@, Some(3))).insert(
        "def"@,
        Value::SpecialForm("def"@, Some(2)),
    ).insert("fn"@, Value::SpecialForm("fn"@, Some(2))).insert(
        "#true"@,
        Value::Boolean(true),
    ).insert("#false"@, Value::Boolean(false))
}

/// The first character and the length of each name that the base scope
/// binds: enough to tell any two of them apart.
pub proof fn lemma_base_names()
    ensures
        "+"@.len() == 1 && "+"@[0] == '+',
        "-"@.len() == 1 && "-"@[0] == '-',
        "*"@.len() == 1 && "*"@[0] == '*',
        "/"@.len() == 1 && "/"@[0] == '/',
        "="@.len() == 1 && "="@[0] == '=',
        "!="@.len() == 2 && "!="@[0] == '!',
        "<"@.len() == 1 && "<"@[0] == '<',
        ">"@.len() == 1 && ">"@[0] == '>',
        "<="@.len() == 2 && "<="@[0] == '<',
        ">="@.len() == 2 && ">="@[0] == '>',
        "progn"@.len() == 5 && "progn"@[0] == 'p',
        "let"@.len() == 3 && "let"@[0] == 'l',
        "if"@.len() == 2 && "if"@[0] == 'i',
        "def"@.len() == 3 && "def"@[0] == 'd',
        "fn"@.len() == 2 && "fn"@[0] == 'f',
        "#true"@.len() == 5 && "#true"@[0] == '#',
        "#false"@.len() == 6 && "#false"@[0] == '#',
{
    reveal_strlit("+");
    reveal_strlit("-");
    reveal_strlit("*");
    reveal_strlit("/");
    reveal_strlit("=");
    reveal_strlit("!=");
    reveal_strlit("<");
    reveal_strlit(">");
    reveal_strlit("<=");
    reveal_strlit(">=");
    reveal_strlit("progn");
    reveal_strlit("let");
    reveal_strlit("if");
    reveal_strlit("def");
    reveal_strlit("fn");
    reveal_strlit("#true");
    reveal_strlit("#false");
}

/// What the base scope binds a name to: its own builtin or truth value.
pub proof fn lemma_base_scope()
    ensures
        base_scope().contains_key("+"@) && base_scope()["+"@] == Value::PrimitiveFunction("+"@, 2),
        base_scope().contains_key("-"@) && base_scope()["-"@] == Value::PrimitiveFunction("-"@, 2),
        base_scope().contains_key("*"@) && base_scope()["*"@] == Value::PrimitiveFunction("*"@, 2),
        base_scope().contains_key("/"@) && base_scope()["/"@] == Value::PrimitiveFunction("/"@, 2),
        base_scope().contains_key("="@) && base_scope()["="@] == Value::PrimitiveFunction("="@, 2),
        base_scope().contains_key("!="@) && base_scope()["!="@] == Value::PrimitiveFunction(
            "!="@,
            2,
        ),
        base_scope().contains_key("<"@) && base_scope()["<"@] == Value::PrimitiveFunction("<"@, 2),
        base_scope().contains_key(">"@) && base_scope()[">"@] == Value::PrimitiveFunction(">"@, 2),
        base_scope().contains_key("<="@) && base_scope()["<="@] == Value::PrimitiveFunction(
            "<="@,
            2,
        ),
        base_scope().contains_key(">="@) && base_scope()[">="@] == Value::PrimitiveFunction(
            ">="@,
            2,
        ),
        base_scope().contains_key("progn"@) && base_scope()["progn"@] == Value::SpecialForm(
            "progn"@,
            None,
        ),
        base_scope().contains_key("let"@) && base_scope()["let"@] == Value::SpecialForm(
            "let"@,
            Some(2),
        ),
        base_scope().contains_key("if"@) && base_scope()["if"@] == Value::SpecialForm(
            "if"@,
            Some(3),
        ),
        base_scope().contains_key("def"@) && base_scope()["def"@] == Value::SpecialForm(
            "def"@,
            Some(2),
        ),
        base_scope().contains_key("fn"@) && base_scope()["fn"@] == Value::SpecialForm(
            "fn"@,
            Some(2),
        ),
        base_scope().contains_key("#true"@) && base_scope()["#true"@] == Value::Boolean(true),
        base_scope().contains_key("#false"@) && base_scope()["#false"@] == Value::Boolean(false),
{
    lemma_base_names();
}

/// `Arc::clone`: a second handle to the allocation that the first one points
/// to, so that both read the same value.
#[verifier::external_body]
fn share<T>(handle: &Arc<T>) -> (other: Arc<T>)
    ensures
        other == *handle,
{
    Arc::clone(handle)
}

/// A binding of one scope, with the bindings that were made before it. A name
/// bound again stands in front of its earlier binding and hides it.
pub struct Binding {
    name: String,
    value: Object,
    earlier: Option<Arc<Binding>>,
}

/// The scope that a list of bindings amounts to.
pub closed spec fn scope_of(bindings: Option<Arc<Binding>>) -> Scope
    decreases bindings,
{
    match bindings {
        None => Map::empty(),
        Some(binding) => scope_of(binding.earlier).insert(binding.name@, binding.value@),
    }
}

/// A scope with a shared handle to the scope around it. The scopes around the
/// innermost one are never written to.
pub struct EnvImpl {
    parent: Option<Arc<EnvImpl>>,
    vars: Option<Arc<Binding>>,
}

impl EnvImpl {
    /// The scopes from this one outward.
    pub closed spec fn scopes(&self) -> Seq<Scope>
        decreases self,
    {
        seq![scope_of(self.vars)] + match self.parent {
            Some(parent) => (*parent).scopes(),
            None => Seq::empty(),
        }
    }
}

impl View for EnvImpl {
    type V = Seq<Scope>;

    /// The scopes from this one outward.
    closed spec fn view(&self) -> Seq<Scope> {
        self.scopes()
    }
}

fn share_bindings(bindings: &Option<Arc<Binding>>) -> (other: Option<Arc<Binding>>)
    ensures
        other == *bindings,
{
    match bindings {
        Some(handle) => Some(share(handle)),
        None => None,
    }
}

impl EnvImpl {
    /// The first scope is that of this level; the others are those around it.
    proof fn lemma_scopes(&self)
        ensures
            self@.len() >= 1,
            self@[0] == scope_of(self.vars),
            self@.drop_first() == match self.parent {
                Some(parent) => (*parent)@,
                None => Seq::empty(),
            },
    {
        assert(self@.drop_first() =~= match self.parent {
            Some(parent) => (*parent).scopes(),
            None => Seq::empty(),
        });
    }

    /// The value bound to the name in the nearest scope that binds it.
    pub fn get(&self, name: &str) -> (found: Option<Object>)
        ensures
            match lookup(self@, name@) {
                Some(value) => found is Some && found->Some_0@ == value,
                None => found is None,
            },
    {
        let mut scope: &EnvImpl = self;
        loop
            invariant
                lookup(scope@, name@) == lookup(self@, name@),
            decreases scope,
        {
            let mut bindings: &Option<Arc<Binding>> = &scope.vars;
            proof {
                scope.lemma_scopes();
            }
            loop
                invariant
                    lookup(scope@, name@) == lookup(self@, name@),
                    scope@.len() >= 1,
                    scope@[0] == scope_of(scope.vars),
                    scope_of(scope.vars).contains_key(name@) <==> scope_of(*bindings).contains_key(
                        name@,
                    ),
                    scope_of(*bindings).contains_key(name@) ==> scope_of(scope.vars)[name@]
                        == scope_of(*bindings)[name@],
                ensures
                    !scope_of(scope.vars).contains_key(name@),
                decreases bindings,
            {
                match bindings {
                    Some(binding) => {
                        if same_text(binding.name.as_str(), name) {
                            return Some(binding.value.clone());
                        }
                        bindings = &binding.earlier;
                    },
                    None => {
                        break ;
                    },
                }
            }
            proof {
                scope.lemma_scopes();
            }
            match &scope.parent {
                Some(parent) => {
                    scope = parent;
                },
                None => {
                    assert(lookup(scope@.drop_first(), name@) is None);
                    return None;
                },
            }
        }
    }

    /// Binds the name in this scope, in place of any value it had there.
    pub fn set(&mut self, name: &str, value: Object)
        ensures
            final(self)@ == bind(old(self)@, name@, value@),
    {
        let earlier = self.vars.take();
        self.vars = Some(Arc::new(Binding { name: name.to_owned(), value, earlier }));
        assert(final(self)@ =~= bind(old(self)@, name@, value@));
    }
}

/// An environment: a chain of scopes, of which only the innermost is written to.
pub struct Env {
    env: EnvImpl,
}

impl View for Env {
    type V = Seq<Scope>;

    /// The scopes, innermost first.
    closed spec fn view(&self) -> Seq<Scope> {
        self.env@
    }
}

impl Env {
    /// An environment has at least one scope.
    pub proof fn lemma_has_a_scope(&self)
        ensures
            self@.len() > 0,
    {
        self.env.lemma_scopes();
    }

    /// The environment that every program starts in: one scope, with no scope around it.
    pub fn base() -> (env: Env)
        ensures
            env@ == seq![base_scope()],
    {
        let mut env = Env { env: EnvImpl { parent: None, vars: None } };
        assert(env@ =~= seq![Map::<Seq<char>, Value>::empty()]);
        env.set("+", Object::PrimitiveFunction("+".to_owned(), 2));
        env.set("-", Object::PrimitiveFunction("-".to_owned(), 2));
        env.set("*", Object::PrimitiveFunction("*".to_owned(), 2));
        env.set("/", Object::PrimitiveFunction("/".to_owned(), 2));
        env.set("=", Object::PrimitiveFunction("=".to_owned(), 2));
        env.set("!=", Object::PrimitiveFunction("!=".to_owned(), 2));
        env.set("<", Object::PrimitiveFunction("<".to_owned(), 2));
        env.set(">", Object::PrimitiveFunction(">".to_owned(), 2));
        env.set("<=", Object::PrimitiveFunction("<=".to_owned(), 2));
        env.set(">=", Object::PrimitiveFunction(">=".to_owned(), 2));
        env.set("progn", Object::SpecialForm("progn".to_owned(), None));
        env.set("let", Object::SpecialForm("let".to_owned(), Some(2)));
        env.set("if", Object::SpecialForm("if".to_owned(), Some(3)));
        env.set("def", Object::SpecialForm("def".to_owned(), Some(2)));
        env.set("fn", Object::SpecialForm("fn".to_owned(), Some(2)));
        env.set("#true", Object::Boolean(true));
        env.set("#false", Object::Boolean(false));
        assert(env@ =~= seq![base_scope()]);
        env
    }

    /// A new environment: an empty scope inside the scopes of this one, as they are now.
    pub fn extend(&self) -> (child: Env)
        ensures
            child@ == extended(self@),
    {
        let around = EnvImpl {
            parent: match &self.env.parent {
                Some(handle) => Some(share(handle)),
                None => None,
            },
            vars: share_bindings(&self.env.vars),
        };
        assert(around@ == self@);
        Env { env: EnvImpl { parent: Some(Arc::new(around)), vars: None } }
    }

    /// The value bound to the name in the nearest scope that binds it, if any does.
    pub fn get(&self, name: &str) -> (found: Option<Object>)
        ensures
            match lookup(self@, name@) {
                Some(value) => found is Some && found->Some_0@ == value,
                None => found is None,
            },
    {
        self.env.get(name)
    }

    /// Binds the name in the innermost scope. The scopes around it keep their bindings.
    pub fn set(&mut self, name: &str, value: Object)
        ensures
            final(self)@ == bind(old(self)@, name@, value@),
    {
        self.env.set(name, value)
    }
}

} // verus!
