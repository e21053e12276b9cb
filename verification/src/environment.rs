//! The environment: a chain of lexical scopes, held as one arena of
//! scopes indexed by scope id. Each scope maps symbol names to values and
//! points at most at one parent scope with a smaller id, so lookup walks
//! a strictly decreasing chain.
//!
//! A scope's bindings are modelled by a `Map<Seq<char>, SpecAtom>` and
//! the whole arena by a `Seq<SpecScope>`; [`spec_lookup`] is the
//! mathematical model of symbol resolution.

use vstd::prelude::*;

use crate::atom::{atom_view, Atom, NativeFn, SchemeFnWrap, SpecAtom, SpecFnWrap};
use crate::errors::{error_view, SchemeError, SpecError};

verus! {

/// One binding of a symbol name to a value.
pub struct Binding {
    pub name: String,
    pub value: Atom,
}

/// One scope: its local bindings, newest last, and an optional parent
/// scope id.
pub struct Scope {
    pub parent: Option<usize>,
    pub defs: Vec<Binding>,
}

/// The model of one scope: the parent id and the map the bindings
/// denote, where the newest binding of a name wins.
#[verifier::ext_equal]
pub struct SpecScope {
    pub parent: Option<int>,
    pub defs: Map<Seq<char>, SpecAtom>,
}

/// The model of a whole scope arena.
pub type SpecEnv = Seq<SpecScope>;

/// The map a binding list denotes: later bindings shadow earlier ones.
pub open spec fn bindings_map(bs: Seq<Binding>) -> Map<Seq<char>, SpecAtom>
    decreases bs.len(),
{
    if bs.len() == 0 {
        Map::empty()
    } else {
        bindings_map(bs.drop_last()).insert(bs.last().name@, atom_view(bs.last().value))
    }
}

/// The model a scope stands for.
pub open spec fn scope_view(s: Scope) -> SpecScope {
    SpecScope {
        parent: match s.parent {
            Some(p) => Some(p as int),
            None => None,
        },
        defs: bindings_map(s.defs@),
    }
}

/// A chain of scopes: the root scope exists and every parent id points
/// strictly downwards, so parent chains terminate.
pub open spec fn wf_env(e: SpecEnv) -> bool {
    &&& e.len() >= 1
    &&& forall|i: int|
        0 <= i < e.len() ==> (#[trigger] e[i].parent matches Some(p) ==> 0 <= p < i)
}

/// The model of symbol resolution: the local bindings first, then the
/// parent chain, and failure only when no ancestor remains.
pub open spec fn spec_lookup(env: SpecEnv, scope: int, name: Seq<char>) -> Result<
    SpecAtom,
    SpecError,
>
    decreases scope,
{
    if !(0 <= scope < env.len()) {
        Err(SpecError::UndefinedSymbol(name))
    } else if env[scope].defs.contains_key(name) {
        Ok(env[scope].defs[name])
    } else {
        match env[scope].parent {
            Some(p) => if 0 <= p < scope {
                spec_lookup(env, p, name)
            } else {
                Err(SpecError::UndefinedSymbol(name))
            },
            None => Err(SpecError::UndefinedSymbol(name)),
        }
    }
}

/// A mutable, chained symbol table: all scopes of one interpretation,
/// indexed by scope id.
pub struct Environment {
    pub scopes: Vec<Scope>,
}

impl View for Environment {
    type V = SpecEnv;

    open spec fn view(&self) -> SpecEnv {
        Seq::new(self.scopes@.len(), |i: int| scope_view(self.scopes@[i]))
    }
}

/// If no binding at position `k` or later carries `name`, the denoted map
/// looks `name` up among the first `k` bindings alone.
proof fn lemma_bindings_map_scan(bs: Seq<Binding>, name: Seq<char>, k: int)
    requires
        0 <= k <= bs.len(),
        forall|j: int| k <= j < bs.len() ==> bs[j].name@ != name,
    ensures
        bindings_map(bs).contains_key(name) == bindings_map(bs.take(k)).contains_key(name),
        bindings_map(bs).contains_key(name) ==> bindings_map(bs)[name] == bindings_map(
            bs.take(k),
        )[name],
    decreases bs.len() - k,
{
    if k < bs.len() {
        lemma_bindings_map_scan(bs, name, k + 1);
        assert(bs.take(k + 1).drop_last() =~= bs.take(k));
        assert(bs.take(k + 1).last() == bs[k]);
    } else {
        assert(bs.take(k) =~= bs);
    }
}

impl Environment {
    /// The arena is a well-formed scope chain.
    pub open spec fn wf(&self) -> bool {
        wf_env(self@)
    }

    /// A fresh environment holding one empty root scope.
    pub fn new() -> (e: Environment)
        ensures
            e@ =~= seq![SpecScope { parent: None, defs: Map::empty() }],
            e.wf(),
    {
        let root = Scope { parent: None, defs: Vec::new() };
        let mut scopes: Vec<Scope> = Vec::new();
        scopes.push(root);
        let e = Environment { scopes };
        proof {
            assert(e@ =~= seq![SpecScope { parent: None, defs: Map::empty() }]);
        }
        e
    }

    /// Inserts or overwrites a binding in the given scope; same-named
    /// bindings of ancestor scopes are shadowed, not changed.
    pub fn set_symbol(&mut self, scope: usize, symbol: String, atom: Atom)
        requires
            old(self).wf(),
            scope < old(self)@.len(),
        ensures
            final(self)@ == old(self)@.update(
                scope as int,
                SpecScope {
                    parent: old(self)@[scope as int].parent,
                    defs: old(self)@[scope as int].defs.insert(symbol@, atom_view(atom)),
                },
            ),
            final(self).wf(),
    {
        let ghost old_defs = self.scopes@[scope as int].defs@;
        let ghost sym_view = symbol@;
        let ghost atom_model = atom_view(atom);
        let slot = &mut self.scopes[scope];
        slot.defs.push(Binding { name: symbol, value: atom });
        proof {
            let b = self.scopes@[scope as int].defs@.last();
            assert(self.scopes@[scope as int].defs@.drop_last() =~= old_defs);
            assert(bindings_map(self.scopes@[scope as int].defs@) == bindings_map(
                old_defs,
            ).insert(sym_view, atom_model));
            assert(self@ =~= old(self)@.update(
                scope as int,
                SpecScope {
                    parent: old(self)@[scope as int].parent,
                    defs: old(self)@[scope as int].defs.insert(sym_view, atom_model),
                },
            ));
        }
    }

    /// Resolves a symbol: the local bindings first, then the parent
    /// chain; fails exactly when no scope of the chain binds it.
    pub fn get_symbol(&self, scope: usize, symbol: &String) -> (r: Result<Atom, SchemeError>)
        requires
            self.wf(),
            scope < self@.len(),
        ensures
            crate::atom::result_view(r) == spec_lookup(self@, scope as int, symbol@),
        decreases scope,
    {
        let sc = &self.scopes[scope];
        let ghost bs = sc.defs@;
        let mut k: usize = sc.defs.len();
        #[verifier::loop_isolation(false)]
        while k > 0
            invariant
                k <= bs.len(),
                forall|j: int| k <= j < bs.len() ==> bs[j].name@ != symbol@,
            decreases k,
        {
            let b = &sc.defs[k - 1];
            if b.name == *symbol {
                proof {
                    lemma_bindings_map_scan(bs, symbol@, k as int);
                    assert(bs.take(k as int).drop_last() =~= bs.take(k as int - 1));
                    assert(bs.take(k as int).last() == bs[k as int - 1]);
                }
                return Ok(b.value.clone());
            }
            k -= 1;
        }
        proof {
            lemma_bindings_map_scan(bs, symbol@, 0);
            assert(bs.take(0) =~= Seq::<Binding>::empty());
            assert(!bindings_map(bs).contains_key(symbol@));
        }
        match sc.parent {
            Some(p) => self.get_symbol(p, symbol),
            None => Err(SchemeError::UndefinedSymbol(symbol.clone())),
        }
    }
}

/// Resolves a symbol in the given scope chain.
pub fn env_get(env: &Environment, scope: usize, s: &String) -> (r: Result<Atom, SchemeError>)
    requires
        env.wf(),
        scope < env@.len(),
    ensures
        crate::atom::result_view(r) == spec_lookup(env@, scope as int, s@),
{
    env.get_symbol(scope, s)
}

/// Inserts or overwrites a binding in the given scope.
pub fn env_set(env: &mut Environment, scope: usize, symbol: String, atom: Atom)
    requires
        old(env).wf(),
        scope < old(env)@.len(),
    ensures
        final(env)@ == old(env)@.update(
            scope as int,
            SpecScope {
                parent: old(env)@[scope as int].parent,
                defs: old(env)@[scope as int].defs.insert(symbol@, atom_view(atom)),
            },
        ),
        final(env).wf(),
{
    env.set_symbol(scope, symbol, atom)
}

/// Allocates a new empty scope whose parent is the given scope, and
/// returns its id; used once per procedure call.
pub fn env_spawn_child(env: &mut Environment, scope: usize) -> (child: usize)
    requires
        old(env).wf(),
        scope < old(env)@.len(),
    ensures
        child == old(env)@.len(),
        final(env)@ == old(env)@.push(SpecScope { parent: Some(scope as int), defs: Map::empty() }),
        final(env).wf(),
{
    let child = env.scopes.len();
    env.scopes.push(Scope { parent: Some(scope), defs: Vec::new() });
    proof {
        assert(env@ =~= old(env)@.push(
            SpecScope { parent: Some(scope as int), defs: Map::empty() },
        ));
    }
    child
}

/// The model of the root environment: one scope binding every built-in
/// procedure's name to its callable value.
pub open spec fn std_bindings() -> Map<Seq<char>, SpecAtom> {
    Map::empty().insert("+"@, SpecAtom::Callable(SpecFnWrap::Fn(NativeFn::Add))).insert(
        "*"@,
        SpecAtom::Callable(SpecFnWrap::Fn(NativeFn::Multiply)),
    ).insert("-"@, SpecAtom::Callable(SpecFnWrap::Fn(NativeFn::Subtract))).insert(
        "/"@,
        SpecAtom::Callable(SpecFnWrap::Fn(NativeFn::Divide)),
    ).insert(">"@, SpecAtom::Callable(SpecFnWrap::Fn(NativeFn::Gt))).insert(
        "<"@,
        SpecAtom::Callable(SpecFnWrap::Fn(NativeFn::Lt)),
    ).insert(">="@, SpecAtom::Callable(SpecFnWrap::Fn(NativeFn::Ge))).insert(
        "<="@,
        SpecAtom::Callable(SpecFnWrap::Fn(NativeFn::Le)),
    ).insert("="@, SpecAtom::Callable(SpecFnWrap::Fn(NativeFn::NumEq))).insert(
        "abs"@,
        SpecAtom::Callable(SpecFnWrap::Fn(NativeFn::Abs)),
    ).insert("append"@, SpecAtom::Callable(SpecFnWrap::Fn(NativeFn::Append))).insert(
        "apply"@,
        SpecAtom::Callable(SpecFnWrap::Fn(NativeFn::Apply)),
    ).insert("begin"@, SpecAtom::Callable(SpecFnWrap::Fn(NativeFn::Begin))).insert(
        "car"@,
        SpecAtom::Callable(SpecFnWrap::Fn(NativeFn::Car)),
    ).insert("cdr"@, SpecAtom::Callable(SpecFnWrap::Fn(NativeFn::Cdr))).insert(
        "cons"@,
        SpecAtom::Callable(SpecFnWrap::Fn(NativeFn::Cons)),
    ).insert("eq?"@, SpecAtom::Callable(SpecFnWrap::Fn(NativeFn::IsEq))).insert(
        "equal?"@,
        SpecAtom::Callable(SpecFnWrap::Fn(NativeFn::IsEqual)),
    ).insert("list"@, SpecAtom::Callable(SpecFnWrap::Fn(NativeFn::List))).insert(
        "list?"@,
        SpecAtom::Callable(SpecFnWrap::Fn(NativeFn::IsList)),
    ).insert("let"@, SpecAtom::Callable(SpecFnWrap::Fn(NativeFn::Let)))
}

/// The model of a fresh root environment.
pub open spec fn spec_std_env() -> SpecEnv {
    seq![SpecScope { parent: None, defs: std_bindings() }]
}

impl Environment {
    /// The root environment: one scope pre-populated with every built-in
    /// procedure.
    pub fn standard_env() -> (e: Environment)
        ensures
            e@ == spec_std_env(),
            e.wf(),
    {
        let mut env = Environment::new();
        env.set_symbol(0, String::from_str("+"), Atom::Callable(SchemeFnWrap::Fn(NativeFn::Add)));
        env.set_symbol(
            0,
            String::from_str("*"),
            Atom::Callable(SchemeFnWrap::Fn(NativeFn::Multiply)),
        );
        env.set_symbol(
            0,
            String::from_str("-"),
            Atom::Callable(SchemeFnWrap::Fn(NativeFn::Subtract)),
        );
        env.set_symbol(
            0,
            String::from_str("/"),
            Atom::Callable(SchemeFnWrap::Fn(NativeFn::Divide)),
        );
        env.set_symbol(0, String::from_str(">"), Atom::Callable(SchemeFnWrap::Fn(NativeFn::Gt)));
        env.set_symbol(0, String::from_str("<"), Atom::Callable(SchemeFnWrap::Fn(NativeFn::Lt)));
        env.set_symbol(0, String::from_str(">="), Atom::Callable(SchemeFnWrap::Fn(NativeFn::Ge)));
        env.set_symbol(0, String::from_str("<="), Atom::Callable(SchemeFnWrap::Fn(NativeFn::Le)));
        env.set_symbol(
            0,
            String::from_str("="),
            Atom::Callable(SchemeFnWrap::Fn(NativeFn::NumEq)),
        );
        env.set_symbol(
            0,
            String::from_str("abs"),
            Atom::Callable(SchemeFnWrap::Fn(NativeFn::Abs)),
        );
        env.set_symbol(
            0,
            String::from_str("append"),
            Atom::Callable(SchemeFnWrap::Fn(NativeFn::Append)),
        );
        env.set_symbol(
            0,
            String::from_str("apply"),
            Atom::Callable(SchemeFnWrap::Fn(NativeFn::Apply)),
        );
        env.set_symbol(
            0,
            String::from_str("begin"),
            Atom::Callable(SchemeFnWrap::Fn(NativeFn::Begin)),
        );
        env.set_symbol(
            0,
            String::from_str("car"),
            Atom::Callable(SchemeFnWrap::Fn(NativeFn::Car)),
        );
        env.set_symbol(
            0,
            String::from_str("cdr"),
            Atom::Callable(SchemeFnWrap::Fn(NativeFn::Cdr)),
        );
        env.set_symbol(
            0,
            String::from_str("cons"),
            Atom::Callable(SchemeFnWrap::Fn(NativeFn::Cons)),
        );
        env.set_symbol(
            0,
            String::from_str("eq?"),
            Atom::Callable(SchemeFnWrap::Fn(NativeFn::IsEq)),
        );
        env.set_symbol(
            0,
            String::from_str("equal?"),
            Atom::Callable(SchemeFnWrap::Fn(NativeFn::IsEqual)),
        );
        env.set_symbol(
            0,
            String::from_str("list"),
            Atom::Callable(SchemeFnWrap::Fn(NativeFn::List)),
        );
        env.set_symbol(
            0,
            String::from_str("list?"),
            Atom::Callable(SchemeFnWrap::Fn(NativeFn::IsList)),
        );
        env.set_symbol(
            0,
            String::from_str("let"),
            Atom::Callable(SchemeFnWrap::Fn(NativeFn::Let)),
        );
        proof {
            reveal_with_fuel(atom_view, 2);
            assert(env@[0].defs =~= std_bindings());
            assert(env@[0] =~= spec_std_env()[0]);
            assert(env@ =~= spec_std_env());
        }
        env
    }
}

} // verus!
