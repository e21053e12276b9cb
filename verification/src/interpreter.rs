//! The evaluator: a recursive tree walk over values, dispatching the two
//! special forms before evaluating any operand and applying built-in or
//! user-defined procedures otherwise.
//!
//! The mathematical model is [`spec_eval`], a recursive function from an
//! environment, a scope, a value and a recursion budget to the new
//! environment and the result. Every executable function here returns
//! exactly what its model returns. The budget bounds the evaluation
//! depth: user programs may recurse without bound, so a budget stands in
//! for the host call stack, and exhausting it is reported as an error.
//!
//! Scoping is dynamic by design: a procedure body resolves free symbols
//! against the scope chain active at call time, not at definition time.

use vstd::prelude::*;

use crate::atom::{
    atom_view, atoms_view, atoms_view_index, atoms_view_len, atoms_view_subrange, lambda_view,
    result_view, strings_view, wrap_view, Atom, NativeFn, SchemeFnWrap, SchemeLambda, SpecAtom,
    SpecFnWrap, SpecLambda,
};
use crate::builtins::{
    scheme_abs, scheme_add, scheme_append, scheme_apply, scheme_begin, scheme_car, scheme_cdr,
    scheme_cons, scheme_divide, scheme_eq, scheme_ge, scheme_gt, scheme_is_eq, scheme_is_equal,
    scheme_is_list, scheme_le, scheme_let, scheme_list, scheme_lt, scheme_multiply,
    scheme_subtract, spec_abs, spec_add, spec_append, spec_apply, spec_begin, spec_car, spec_cdr,
    spec_compare, spec_cons, spec_divide, spec_is_eq, spec_is_equal, spec_is_list, spec_list,
    spec_multiply, spec_subtract, CompareOp,
};
use crate::environment::{
    env_set, env_spawn_child, spec_lookup, spec_std_env, Environment, SpecEnv, SpecScope,
};
use crate::errors::{error_text, error_view, SchemeError, SpecError};
use crate::parse::{read_from_tokens, spec_parse, spec_tokenize, tokenize};

verus! {

/// The outcome of one evaluation step: the environment afterwards, and
/// the value or the error.
pub type EvalOut = (SpecEnv, Result<SpecAtom, SpecError>);

/// The outcome of evaluating a list of expressions for their values.
pub type EvalSeqOut = (SpecEnv, Result<Seq<SpecAtom>, SpecError>);

/// The evaluation budget `run_program` starts with; deep user-level
/// recursion beyond it is reported as an error.
pub const INITIAL_FUEL: u64 = 1000000;

/// A scope with one more binding.
pub open spec fn scope_bind(sc: SpecScope, name: Seq<char>, v: SpecAtom) -> SpecScope {
    SpecScope { parent: sc.parent, defs: sc.defs.insert(name, v) }
}

/// Whether every element is a symbol.
pub open spec fn all_symbols(s: Seq<SpecAtom>) -> bool {
    forall|i: int| 0 <= i < s.len() ==> s[i] is Symbol
}

/// The texts of a sequence of symbols.
pub open spec fn symbol_names(s: Seq<SpecAtom>) -> Seq<Seq<char>> {
    Seq::new(s.len(), |i: int| s[i]->Symbol_0)
}

/// The map binding each parameter name to the matching argument; with
/// duplicate names the later binding wins.
pub open spec fn bind_params(params: Seq<Seq<char>>, args: Seq<SpecAtom>) -> Map<
    Seq<char>,
    SpecAtom,
>
    recommends
        params.len() == args.len(),
    decreases params.len(),
{
    if params.len() == 0 {
        Map::empty()
    } else {
        bind_params(params.drop_last(), args.drop_last()).insert(params.last(), args.last())
    }
}

/// The model of evaluation: what one value evaluates to, and how the
/// environment changes, given a recursion budget.
pub open spec fn spec_eval(env: SpecEnv, scope: int, a: SpecAtom, fuel: nat) -> EvalOut
    decreases fuel, 2int,
{
    if fuel == 0 {
        (env, Err(SpecError::RecursionLimit))
    } else {
        match a {
            SpecAtom::Nil => (env, Ok(a)),
            SpecAtom::Bool(_) => (env, Ok(a)),
            SpecAtom::Int(_) => (env, Ok(a)),
            SpecAtom::Callable(_) => (env, Ok(a)),
            SpecAtom::Symbol(s) => (env, spec_lookup(env, scope, s)),
            SpecAtom::Cons(_, _) => (env, Err(SpecError::IllFormedExpression)),
            SpecAtom::List(items) => {
                if items.len() == 0 {
                    (env, Err(SpecError::IllFormedExpression))
                } else {
                    let (env1, special) = spec_check_special(
                        env,
                        scope,
                        items[0],
                        items,
                        (fuel - 1) as nat,
                    );
                    match special {
                        Some(r) => (env1, r),
                        None => {
                            let (env2, r1) = spec_eval(env1, scope, items[0], (fuel - 1) as nat);
                            match r1 {
                                Err(e) => (env2, Err(e)),
                                Ok(SpecAtom::Callable(w)) => {
                                    let (env3, r2) = spec_eval_args(
                                        env2,
                                        scope,
                                        items.skip(1),
                                        (fuel - 1) as nat,
                                    );
                                    match r2 {
                                        Err(e) => (env3, Err(e)),
                                        Ok(vals) => spec_execute_fn(
                                            w,
                                            vals,
                                            env3,
                                            scope,
                                            (fuel - 1) as nat,
                                        ),
                                    }
                                },
                                Ok(_) => (env2, Err(SpecError::NotCallable)),
                            }
                        },
                    }
                }
            },
        }
    }
}

/// The model of special-form dispatch: `define` and `if` are recognized
/// by the literal first symbol, before any operand is evaluated; `None`
/// means the combination is an ordinary application.
pub open spec fn spec_check_special(
    env: SpecEnv,
    scope: int,
    first: SpecAtom,
    items: Seq<SpecAtom>,
    fuel: nat,
) -> (SpecEnv, Option<Result<SpecAtom, SpecError>>)
    decreases fuel, 2int,
{
    if first == SpecAtom::Symbol("define"@) {
        if fuel == 0 {
            (env, Some(Err(SpecError::RecursionLimit)))
        } else if items.len() < 2 {
            (env, Some(Err(SpecError::IllFormedDefine)))
        } else {
            let (e, r) = spec_eval_define(env, scope, items[1], items.skip(2), (fuel - 1) as nat);
            (e, Some(r))
        }
    } else if first == SpecAtom::Symbol("if"@) {
        if fuel == 0 {
            (env, Some(Err(SpecError::RecursionLimit)))
        } else if items.len() < 2 {
            (env, Some(Err(SpecError::IllFormedExpression)))
        } else {
            let (e, r) = spec_eval_if(env, scope, items[1], items.skip(2), (fuel - 1) as nat);
            (e, Some(r))
        }
    } else {
        (env, None)
    }
}

/// The model of `define`: a symbol target binds the evaluated single
/// value (or the unit value when none is given) in the current scope; a
/// list target defines a procedure under the list's leading name, whose
/// parameters must all be symbols. Either shape yields the unit value.
pub open spec fn spec_eval_define(
    env: SpecEnv,
    scope: int,
    target: SpecAtom,
    body: Seq<SpecAtom>,
    fuel: nat,
) -> EvalOut
    decreases fuel, 2int,
{
    if fuel == 0 {
        (env, Err(SpecError::RecursionLimit))
    } else {
        match target {
            SpecAtom::Symbol(name) => {
                if body.len() == 0 {
                    (
                        env.update(scope, scope_bind(env[scope], name, SpecAtom::Nil)),
                        Ok(SpecAtom::Nil),
                    )
                } else if body.len() == 1 {
                    let (env1, r) = spec_eval(env, scope, body[0], (fuel - 1) as nat);
                    match r {
                        Ok(v) => (
                            env1.update(scope, scope_bind(env1[scope], name, v)),
                            Ok(SpecAtom::Nil),
                        ),
                        Err(e) => (env1, Err(e)),
                    }
                } else {
                    (env, Err(SpecError::IllFormedDefine))
                }
            },
            SpecAtom::List(header) => {
                if header.len() == 0 {
                    (env, Err(SpecError::IllFormedDefine))
                } else {
                    match header[0] {
                        SpecAtom::Symbol(name) => {
                            if all_symbols(header.skip(1)) {
                                let lam = SpecLambda {
                                    name: name,
                                    params: symbol_names(header.skip(1)),
                                    body: body,
                                };
                                (
                                    env.update(
                                        scope,
                                        scope_bind(
                                            env[scope],
                                            name,
                                            SpecAtom::Callable(SpecFnWrap::Lambda(lam)),
                                        ),
                                    ),
                                    Ok(SpecAtom::Nil),
                                )
                            } else {
                                (env, Err(SpecError::NonSymbolInParameterList))
                            }
                        },
                        _ => (env, Err(SpecError::InvalidDefineTarget)),
                    }
                }
            },
            _ => (env, Err(SpecError::InvalidDefineTarget)),
        }
    }
}

/// The model of `if`: the condition must evaluate to a boolean. True
/// takes the first branch. False takes the second of exactly two
/// branches, yields the unit value when only one branch was given, and is
/// an error with more than two branches or with none.
pub open spec fn spec_eval_if(
    env: SpecEnv,
    scope: int,
    condition: SpecAtom,
    branches: Seq<SpecAtom>,
    fuel: nat,
) -> EvalOut
    decreases fuel, 2int,
{
    if fuel == 0 {
        (env, Err(SpecError::RecursionLimit))
    } else {
        let (env1, r) = spec_eval(env, scope, condition, (fuel - 1) as nat);
        match r {
            Err(e) => (env1, Err(e)),
            Ok(SpecAtom::Bool(b)) => {
                if b {
                    if branches.len() >= 1 {
                        spec_eval(env1, scope, branches[0], (fuel - 1) as nat)
                    } else {
                        (env1, Err(SpecError::IllFormedExpression))
                    }
                } else {
                    if branches.len() == 2 {
                        spec_eval(env1, scope, branches[1], (fuel - 1) as nat)
                    } else if branches.len() > 2 {
                        (env1, Err(SpecError::TooManyIfBranches))
                    } else if branches.len() == 1 {
                        (env1, Ok(SpecAtom::Nil))
                    } else {
                        (env1, Err(SpecError::IllFormedExpression))
                    }
                }
            },
            Ok(_) => (env1, Err(SpecError::NonBooleanCondition)),
        }
    }
}

/// The model of operand evaluation: left to right, short-circuiting on
/// the first failure, threading the environment through.
pub open spec fn spec_eval_args(env: SpecEnv, scope: int, args: Seq<SpecAtom>, fuel: nat) -> EvalSeqOut
    decreases fuel, 2int,
{
    if fuel == 0 {
        (env, Err(SpecError::RecursionLimit))
    } else if args.len() == 0 {
        (env, Ok(Seq::empty()))
    } else {
        let (env1, r0) = spec_eval(env, scope, args[0], (fuel - 1) as nat);
        match r0 {
            Err(e) => (env1, Err(e)),
            Ok(v) => {
                let (env2, rr) = spec_eval_args(env1, scope, args.skip(1), (fuel - 1) as nat);
                match rr {
                    Err(e) => (env2, Err(e)),
                    Ok(vs) => (env2, Ok(seq![v] + vs)),
                }
            },
        }
    }
}

/// The model of evaluating expressions in order for effect, yielding the
/// last value, or the unit value for an empty list.
pub open spec fn spec_eval_seq(env: SpecEnv, scope: int, items: Seq<SpecAtom>, fuel: nat) -> EvalOut
    decreases fuel, 2int,
{
    if fuel == 0 {
        (env, Err(SpecError::RecursionLimit))
    } else if items.len() == 0 {
        (env, Ok(SpecAtom::Nil))
    } else {
        let (env1, r0) = spec_eval(env, scope, items[0], (fuel - 1) as nat);
        match r0 {
            Err(e) => (env1, Err(e)),
            Ok(v) => {
                if items.len() == 1 {
                    (env1, Ok(v))
                } else {
                    spec_eval_seq(env1, scope, items.skip(1), (fuel - 1) as nat)
                }
            },
        }
    }
}

/// The model of calling a user-defined procedure: exact arity, one fresh
/// child of the scope supplied at call time holding the parameter
/// bindings, and the body evaluated in order for the last value.
pub open spec fn spec_lambda_eval(
    lam: SpecLambda,
    env: SpecEnv,
    scope: int,
    args: Seq<SpecAtom>,
    fuel: nat,
) -> EvalOut
    decreases fuel, 2int,
{
    if fuel == 0 {
        (env, Err(SpecError::RecursionLimit))
    } else if args.len() != lam.params.len() {
        (env, Err(SpecError::ArityMismatch(lam.name, lam.params.len())))
    } else {
        let child = env.len() as int;
        let env1 = env.push(
            SpecScope { parent: Some(scope), defs: bind_params(lam.params, args) },
        );
        spec_eval_seq(env1, child, lam.body, (fuel - 1) as nat)
    }
}

/// The model of dispatching a native procedure on evaluated arguments.
/// All but `begin` and `apply` are pure in the environment.
pub open spec fn spec_native(op: NativeFn, env: SpecEnv, scope: int, args: Seq<SpecAtom>, fuel: nat) -> EvalOut
    decreases fuel, 1int,
{
    match op {
        NativeFn::Add => (env, spec_add(args)),
        NativeFn::Multiply => (env, spec_multiply(args)),
        NativeFn::Subtract => (env, spec_subtract(args)),
        NativeFn::Divide => (env, spec_divide(args)),
        NativeFn::Gt => (env, spec_compare(CompareOp::Gt, args)),
        NativeFn::Lt => (env, spec_compare(CompareOp::Lt, args)),
        NativeFn::Ge => (env, spec_compare(CompareOp::Ge, args)),
        NativeFn::Le => (env, spec_compare(CompareOp::Le, args)),
        NativeFn::NumEq => (env, spec_compare(CompareOp::Eq, args)),
        NativeFn::Abs => (env, spec_abs(args)),
        NativeFn::Append => (env, spec_append(args)),
        NativeFn::Apply => spec_apply(env, scope, args, fuel),
        NativeFn::Begin => spec_begin(env, scope, args, fuel),
        NativeFn::Car => (env, spec_car(args)),
        NativeFn::Cdr => (env, spec_cdr(args)),
        NativeFn::Cons => (env, spec_cons(args)),
        NativeFn::IsEq => (env, spec_is_eq(args)),
        NativeFn::IsEqual => (env, spec_is_equal(args)),
        NativeFn::List => (env, spec_list(args)),
        NativeFn::IsList => (env, spec_is_list(args)),
        NativeFn::Let => (env, Err(SpecError::LetNotDefined)),
    }
}

/// The model of procedure dispatch: native procedures receive the
/// caller's environment and scope; user-defined procedures check arity
/// and run their body in a fresh child scope.
pub open spec fn spec_execute_fn(
    w: SpecFnWrap,
    args: Seq<SpecAtom>,
    env: SpecEnv,
    scope: int,
    fuel: nat,
) -> EvalOut
    decreases fuel, 2int,
{
    if fuel == 0 {
        (env, Err(SpecError::RecursionLimit))
    } else {
        match w {
            SpecFnWrap::Fn(op) => spec_native(op, env, scope, args, (fuel - 1) as nat),
            SpecFnWrap::Lambda(lam) => spec_lambda_eval(lam, env, scope, args, (fuel - 1) as nat),
        }
    }
}

/// Evaluates one value against a scope chain, with a recursion budget.
///
/// Self-evaluating values return themselves; symbols resolve through the
/// scope chain; a non-empty combination dispatches a special form or
/// applies a procedure; pairs and the empty combination are ill-formed
/// expressions.
pub fn evaluate(atom: Atom, env: &mut Environment, scope: usize, fuel: u64) -> (r: Result<
    Atom,
    SchemeError,
>)
    requires
        old(env).wf(),
        scope < old(env)@.len(),
    ensures
        ({
            let (e2, r2) = spec_eval(old(env)@, scope as int, atom_view(atom), fuel as nat);
            final(env)@ == e2 && result_view(r) == r2
        }),
        final(env).wf(),
        old(env)@.len() <= final(env)@.len(),
    decreases fuel,
{
    if fuel == 0 {
        return Err(SchemeError::RecursionLimit);
    }
    match atom {
        Atom::Nil => Ok(Atom::Nil),
        Atom::Bool(b) => Ok(Atom::Bool(b)),
        Atom::Int(i) => Ok(Atom::Int(i)),
        Atom::Callable(w) => Ok(Atom::Callable(w)),
        Atom::Symbol(s) => env.get_symbol(scope, &s),
        Atom::Cons(_, _) => Err(SchemeError::IllFormedExpression),
        Atom::List(items) => {
            proof {
                atoms_view_len(items@);
            }
            if items.len() == 0 {
                return Err(SchemeError::IllFormedExpression);
            }
            proof {
                atoms_view_index(items@, 0);
            }
            let first = (&items[0]).clone();
            let copy = crate::atom::clone_atoms(&items);
            match check_special_forms(first, copy, env, scope, fuel - 1) {
                Err(e) => Err(e),
                Ok(Some(v)) => Ok(v),
                Ok(None) => {
                    let head = match evaluate((&items[0]).clone(), env, scope, fuel - 1) {
                        Ok(h) => h,
                        Err(e) => return Err(e),
                    };
                    match head {
                        Atom::Callable(w) => {
                            let vals = match evaluate_args(env, scope, &items, 1, fuel - 1) {
                                Ok(v) => v,
                                Err(e) => return Err(e),
                            };
                            execute_fn(w, vals, env, scope, fuel - 1)
                        },
                        _ => Err(SchemeError::NotCallable),
                    }
                },
            }
        },
    }
}

/// Dispatches `define` and `if` before any operand is evaluated; returns
/// `Ok(None)` when the combination is an ordinary application.
pub fn check_special_forms(
    atom_sym: Atom,
    args: Vec<Atom>,
    env: &mut Environment,
    scope: usize,
    fuel: u64,
) -> (r: Result<Option<Atom>, SchemeError>)
    requires
        old(env).wf(),
        scope < old(env)@.len(),
    ensures
        ({
            let (e2, special) = spec_check_special(
                old(env)@,
                scope as int,
                atom_view(atom_sym),
                atoms_view(args@),
                fuel as nat,
            );
            final(env)@ == e2 && (match r {
                Ok(None) => special is None,
                Ok(Some(v)) => special == Some(Ok::<SpecAtom, SpecError>(atom_view(v))),
                Err(e) => special == Some(Err::<SpecAtom, SpecError>(error_view(e))),
            })
        }),
        final(env).wf(),
        old(env)@.len() <= final(env)@.len(),
    decreases fuel,
{
    let ghost views = atoms_view(args@);
    let ghost args0 = args@;
    proof {
        atoms_view_len(args@);
    }
    let sym = match atom_sym.as_symbol() {
        Some(s) => s,
        None => {
            return Ok(None);
        },
    };
    let is_define = *sym == String::from_str("define");
    let is_if = *sym == String::from_str("if");
    if is_define {
        if fuel == 0 {
            return Err(SchemeError::RecursionLimit);
        }
        if args.len() < 2 {
            return Err(SchemeError::IllFormedDefine);
        }
        let mut header = args;
        let body = header.split_off(2);
        proof {
            assert(header@[1] == args0[1]);
            atoms_view_index(header@, 1);
            atoms_view_index(args0, 1);
            atoms_view_subrange(args0, 2, args0.len() as int);
            assert(body@ == args0.subrange(2, args0.len() as int));
            assert(views.skip(2) =~= views.subrange(2, views.len() as int));
            assert(atoms_view(body@) == views.skip(2));
        }
        match eval_define(env, scope, &header[1], body, fuel - 1) {
            Ok(v) => Ok(Some(v)),
            Err(e) => Err(e),
        }
    } else if is_if {
        if fuel == 0 {
            return Err(SchemeError::RecursionLimit);
        }
        if args.len() < 2 {
            return Err(SchemeError::IllFormedExpression);
        }
        let mut header = args;
        let body = header.split_off(2);
        proof {
            assert(header@[1] == args0[1]);
            atoms_view_index(header@, 1);
            atoms_view_index(args0, 1);
            atoms_view_subrange(args0, 2, args0.len() as int);
            assert(body@ == args0.subrange(2, args0.len() as int));
            assert(views.skip(2) =~= views.subrange(2, views.len() as int));
            assert(atoms_view(body@) == views.skip(2));
        }
        match eval_if(env, scope, &header[1], body, fuel - 1) {
            Ok(v) => Ok(Some(v)),
            Err(e) => Err(e),
        }
    } else {
        Ok(None)
    }
}

/// Evaluates a `define` form's target and body against the current
/// scope.
fn eval_define(env: &mut Environment, scope: usize, arg_list: &Atom, body: Vec<Atom>, fuel: u64) -> (r:
    Result<Atom, SchemeError>)
    requires
        old(env).wf(),
        scope < old(env)@.len(),
    ensures
        ({
            let (e2, r2) = spec_eval_define(
                old(env)@,
                scope as int,
                atom_view(*arg_list),
                atoms_view(body@),
                fuel as nat,
            );
            final(env)@ == e2 && result_view(r) == r2
        }),
        final(env).wf(),
        old(env)@.len() <= final(env)@.len(),
    decreases fuel,
{
    if fuel == 0 {
        return Err(SchemeError::RecursionLimit);
    }
    let ghost body_views = atoms_view(body@);
    proof {
        atoms_view_len(body@);
    }
    match arg_list {
        Atom::Symbol(sym) => {
            if body.len() == 0 {
                env_set(env, scope, sym.clone(), Atom::Nil);
                Ok(Atom::Nil)
            } else if body.len() == 1 {
                proof {
                    atoms_view_index(body@, 0);
                }
                let value = match evaluate((&body[0]).clone(), env, scope, fuel - 1) {
                    Ok(v) => v,
                    Err(e) => return Err(e),
                };
                env_set(env, scope, sym.clone(), value);
                Ok(Atom::Nil)
            } else {
                Err(SchemeError::IllFormedDefine)
            }
        },
        Atom::List(header) => {
            let ghost header_views = atoms_view(header@);
            proof {
                atoms_view_len(header@);
            }
            if header.len() == 0 {
                return Err(SchemeError::IllFormedDefine);
            }
            proof {
                atoms_view_index(header@, 0);
            }
            let name = match (&header[0]).as_symbol() {
                Some(s) => s.clone(),
                None => return Err(SchemeError::InvalidDefineTarget),
            };
            let mut params: Vec<String> = Vec::new();
            let mut k: usize = 1;
            #[verifier::loop_isolation(false)]
            while k < header.len()
                invariant
                    1 <= k <= header@.len(),
                    all_symbols(header_views.subrange(1, k as int)),
                    strings_view(params@) =~= symbol_names(header_views.subrange(1, k as int)),
                decreases header@.len() - k,
            {
                proof {
                    atoms_view_index(header@, k as int);
                }
                match (&header[k]).as_symbol() {
                    Some(s) => {
                        let ghost pre = params@;
                        params.push(s.clone());
                        proof {
                            assert forall|i: int|
                                0 <= i < k implies #[trigger] header_views.subrange(
                                1,
                                k as int + 1,
                            )[i] is Symbol by {
                                assert(header_views.subrange(1, k as int + 1)[i]
                                    == header_views[1 + i]);
                                if i < k - 1 {
                                    assert(header_views.subrange(1, k as int)[i]
                                        == header_views[1 + i]);
                                    assert(header_views.subrange(1, k as int)[i] is Symbol);
                                }
                            }
                            assert forall|i: int| 0 <= i < k implies strings_view(params@)[i]
                                == symbol_names(header_views.subrange(1, k as int + 1))[i] by {
                                assert(header_views.subrange(1, k as int + 1)[i]
                                    == header_views[1 + i]);
                                if i < k - 1 {
                                    assert(strings_view(pre)[i] == symbol_names(
                                        header_views.subrange(1, k as int),
                                    )[i]);
                                    assert(header_views.subrange(1, k as int)[i]
                                        == header_views[1 + i]);
                                }
                            }
                            assert(strings_view(params@) =~= symbol_names(
                                header_views.subrange(1, k as int + 1),
                            ));
                        }
                    },
                    None => {
                        proof {
                            assert(!(header_views.skip(1)[k - 1] is Symbol));
                            assert(!all_symbols(header_views.skip(1)));
                        }
                        return Err(SchemeError::NonSymbolInParameterList);
                    },
                }
                k += 1;
            }
            proof {
                assert(header_views.subrange(1, header_views.len() as int) =~= header_views.skip(
                    1,
                ));
            }
            let lam = SchemeLambda { name: name.clone(), arg_list: params, body };
            let callable = Atom::Callable(SchemeFnWrap::Lambda(lam));
            proof {
                reveal_with_fuel(atom_view, 3);
            }
            env_set(env, scope, name, callable);
            Ok(Atom::Nil)
        },
        _ => Err(SchemeError::InvalidDefineTarget),
    }
}

/// Evaluates an `if` form's condition and the branch it selects.
fn eval_if(env: &mut Environment, scope: usize, condition: &Atom, body: Vec<Atom>, fuel: u64) -> (r:
    Result<Atom, SchemeError>)
    requires
        old(env).wf(),
        scope < old(env)@.len(),
    ensures
        ({
            let (e2, r2) = spec_eval_if(
                old(env)@,
                scope as int,
                atom_view(*condition),
                atoms_view(body@),
                fuel as nat,
            );
            final(env)@ == e2 && result_view(r) == r2
        }),
        final(env).wf(),
        old(env)@.len() <= final(env)@.len(),
    decreases fuel,
{
    if fuel == 0 {
        return Err(SchemeError::RecursionLimit);
    }
    proof {
        atoms_view_len(body@);
        if body@.len() > 0 {
            atoms_view_index(body@, 0);
        }
        if body@.len() > 1 {
            atoms_view_index(body@, 1);
        }
    }
    let evaluated = match evaluate(condition.clone(), env, scope, fuel - 1) {
        Ok(v) => v,
        Err(e) => return Err(e),
    };
    match evaluated {
        Atom::Bool(cond) => {
            if cond {
                if body.len() >= 1 {
                    evaluate((&body[0]).clone(), env, scope, fuel - 1)
                } else {
                    Err(SchemeError::IllFormedExpression)
                }
            } else {
                if body.len() == 2 {
                    evaluate((&body[1]).clone(), env, scope, fuel - 1)
                } else if body.len() > 2 {
                    Err(SchemeError::TooManyIfBranches)
                } else if body.len() == 1 {
                    Ok(Atom::Nil)
                } else {
                    Err(SchemeError::IllFormedExpression)
                }
            }
        },
        _ => Err(SchemeError::NonBooleanCondition),
    }
}

/// Evaluates the operands from position `k` on, left to right.
fn evaluate_args(env: &mut Environment, scope: usize, items: &Vec<Atom>, k: usize, fuel: u64) -> (r:
    Result<Vec<Atom>, SchemeError>)
    requires
        old(env).wf(),
        scope < old(env)@.len(),
        k <= items@.len(),
    ensures
        ({
            let (e2, r2) = spec_eval_args(
                old(env)@,
                scope as int,
                atoms_view(items@).skip(k as int),
                fuel as nat,
            );
            final(env)@ == e2 && (match r {
                Ok(vals) => r2 == Ok::<Seq<SpecAtom>, SpecError>(atoms_view(vals@)),
                Err(e) => r2 == Err::<Seq<SpecAtom>, SpecError>(error_view(e)),
            })
        }),
        final(env).wf(),
        old(env)@.len() <= final(env)@.len(),
    decreases fuel,
{
    let ghost views = atoms_view(items@);
    proof {
        atoms_view_len(items@);
    }
    if fuel == 0 {
        return Err(SchemeError::RecursionLimit);
    }
    if k == items.len() {
        let empty: Vec<Atom> = Vec::new();
        proof {
            assert(views.skip(k as int) =~= Seq::<SpecAtom>::empty());
            assert(atoms_view(empty@) =~= Seq::<SpecAtom>::empty());
        }
        return Ok(empty);
    }
    proof {
        atoms_view_index(items@, k as int);
        assert(views.skip(k as int)[0] == views[k as int]);
        assert(views.skip(k as int).skip(1) =~= views.skip(k as int + 1));
    }
    let v = match evaluate((&items[k]).clone(), env, scope, fuel - 1) {
        Ok(v) => v,
        Err(e) => return Err(e),
    };
    let mut rest = match evaluate_args(env, scope, items, k + 1, fuel - 1) {
        Ok(r) => r,
        Err(e) => return Err(e),
    };
    let ghost tail = rest@;
    let ghost v_model = atom_view(v);
    rest.insert(0, v);
    proof {
        assert(rest@.drop_first() =~= tail);
        assert(atoms_view(rest@) =~= seq![v_model] + atoms_view(tail));
    }
    Ok(rest)
}

/// Evaluates the expressions from position `k` on in order, returning the
/// last value, or the unit value when none remain.
pub(crate) fn eval_seq_from(
    env: &mut Environment,
    scope: usize,
    items: &Vec<Atom>,
    k: usize,
    fuel: u64,
) -> (r: Result<Atom, SchemeError>)
    requires
        old(env).wf(),
        scope < old(env)@.len(),
        k <= items@.len(),
    ensures
        ({
            let (e2, r2) = spec_eval_seq(
                old(env)@,
                scope as int,
                atoms_view(items@).skip(k as int),
                fuel as nat,
            );
            final(env)@ == e2 && result_view(r) == r2
        }),
        final(env).wf(),
        old(env)@.len() <= final(env)@.len(),
    decreases fuel,
{
    let ghost views = atoms_view(items@);
    proof {
        atoms_view_len(items@);
    }
    if fuel == 0 {
        return Err(SchemeError::RecursionLimit);
    }
    if k == items.len() {
        proof {
            assert(views.skip(k as int) =~= Seq::<SpecAtom>::empty());
        }
        return Ok(Atom::Nil);
    }
    proof {
        atoms_view_index(items@, k as int);
        assert(views.skip(k as int)[0] == views[k as int]);
        assert(views.skip(k as int).skip(1) =~= views.skip(k as int + 1));
    }
    let v = match evaluate((&items[k]).clone(), env, scope, fuel - 1) {
        Ok(v) => v,
        Err(e) => return Err(e),
    };
    if k + 1 == items.len() {
        Ok(v)
    } else {
        eval_seq_from(env, scope, items, k + 1, fuel - 1)
    }
}

/// Applies a callable to already-evaluated arguments: native procedures
/// get the caller's environment and scope, user-defined procedures a
/// fresh child scope of it.
pub fn execute_fn(
    func_wrap: SchemeFnWrap,
    args: Vec<Atom>,
    env: &mut Environment,
    scope: usize,
    fuel: u64,
) -> (r: Result<Atom, SchemeError>)
    requires
        old(env).wf(),
        scope < old(env)@.len(),
    ensures
        ({
            let (e2, r2) = spec_execute_fn(
                wrap_view(func_wrap),
                atoms_view(args@),
                old(env)@,
                scope as int,
                fuel as nat,
            );
            final(env)@ == e2 && result_view(r) == r2
        }),
        final(env).wf(),
        old(env)@.len() <= final(env)@.len(),
    decreases fuel,
{
    if fuel == 0 {
        return Err(SchemeError::RecursionLimit);
    }
    match func_wrap {
        SchemeFnWrap::Fn(op) => {
            match op {
                NativeFn::Add => scheme_add(env, scope, args, fuel - 1),
                NativeFn::Multiply => scheme_multiply(env, scope, args, fuel - 1),
                NativeFn::Subtract => scheme_subtract(env, scope, args, fuel - 1),
                NativeFn::Divide => scheme_divide(env, scope, args, fuel - 1),
                NativeFn::Gt => scheme_gt(env, scope, args, fuel - 1),
                NativeFn::Lt => scheme_lt(env, scope, args, fuel - 1),
                NativeFn::Ge => scheme_ge(env, scope, args, fuel - 1),
                NativeFn::Le => scheme_le(env, scope, args, fuel - 1),
                NativeFn::NumEq => scheme_eq(env, scope, args, fuel - 1),
                NativeFn::Abs => scheme_abs(env, scope, args, fuel - 1),
                NativeFn::Append => scheme_append(env, scope, args, fuel - 1),
                NativeFn::Apply => scheme_apply(env, scope, args, fuel - 1),
                NativeFn::Begin => scheme_begin(env, scope, args, fuel - 1),
                NativeFn::Car => scheme_car(env, scope, args, fuel - 1),
                NativeFn::Cdr => scheme_cdr(env, scope, args, fuel - 1),
                NativeFn::Cons => scheme_cons(env, scope, args, fuel - 1),
                NativeFn::IsEq => scheme_is_eq(env, scope, args, fuel - 1),
                NativeFn::IsEqual => scheme_is_equal(env, scope, args, fuel - 1),
                NativeFn::List => scheme_list(env, scope, args, fuel - 1),
                NativeFn::IsList => scheme_is_list(env, scope, args, fuel - 1),
                NativeFn::Let => scheme_let(env, scope, args, fuel - 1),
            }
        },
        SchemeFnWrap::Lambda(lambda) => lambda.evaluate(env, scope, args, fuel - 1),
    }
}

impl SchemeLambda {
    /// Calls this procedure: checks exact arity, binds the parameters in
    /// one fresh child of the scope supplied at call time, and evaluates
    /// the body forms in order, returning the last value.
    pub fn evaluate(self, env: &mut Environment, scope: usize, args: Vec<Atom>, fuel: u64) -> (r:
        Result<Atom, SchemeError>)
        requires
            old(env).wf(),
            scope < old(env)@.len(),
        ensures
            ({
                let (e2, r2) = spec_lambda_eval(
                    lambda_view(self),
                    old(env)@,
                    scope as int,
                    atoms_view(args@),
                    fuel as nat,
                );
                final(env)@ == e2 && result_view(r) == r2
            }),
            final(env).wf(),
            old(env)@.len() <= final(env)@.len(),
        decreases fuel,
    {
        if fuel == 0 {
            return Err(SchemeError::RecursionLimit);
        }
        let ghost params_views = strings_view(self.arg_list@);
        let ghost args_views = atoms_view(args@);
        proof {
            atoms_view_len(args@);
        }
        if args.len() != self.arg_list.len() {
            let n = self.arg_list.len();
            return Err(SchemeError::ArityMismatch(self.name, n));
        }
        let child = env_spawn_child(env, scope);
        let ghost spawned = env@;
        let mut i: usize = 0;
        #[verifier::loop_isolation(false)]
        while i < self.arg_list.len()
            invariant
                i <= self.arg_list@.len(),
                args@.len() == self.arg_list@.len(),
                child == old(env)@.len(),
                env@ == old(env)@.push(
                    SpecScope {
                        parent: Some(scope as int),
                        defs: bind_params(
                            params_views.take(i as int),
                            args_views.take(i as int),
                        ),
                    },
                ),
                env.wf(),
            decreases self.arg_list@.len() - i,
        {
            let name = (&self.arg_list[i]).clone();
            let value = (&args[i]).clone();
            proof {
                atoms_view_index(args@, i as int);
            }
            env_set(env, child, name, value);
            proof {
                assert(params_views.take(i as int + 1).drop_last() =~= params_views.take(
                    i as int,
                ));
                assert(args_views.take(i as int + 1).drop_last() =~= args_views.take(i as int));
                assert(params_views.take(i as int + 1).last() == params_views[i as int]);
                assert(args_views.take(i as int + 1).last() == args_views[i as int]);
                assert(env@ =~= old(env)@.push(
                    SpecScope {
                        parent: Some(scope as int),
                        defs: bind_params(
                            params_views.take(i as int + 1),
                            args_views.take(i as int + 1),
                        ),
                    },
                ));
            }
            i += 1;
        }
        proof {
            assert(params_views.take(params_views.len() as int) =~= params_views);
            assert(args_views.take(args_views.len() as int) =~= args_views);
            assert(atoms_view(self.body@).skip(0) =~= atoms_view(self.body@));
        }
        eval_seq_from(env, child, &self.body, 0, fuel - 1)
    }
}

/// What running a program yields: tokenize, parse one top-level form
/// (trailing tokens are ignored), evaluate it against a fresh root
/// environment with the initial budget, and render the result; any error
/// becomes its message.
pub open spec fn spec_run(program: Seq<char>) -> Result<Seq<char>, Seq<char>> {
    let toks = spec_tokenize(program);
    let (parsed, _) = spec_parse(toks);
    match parsed {
        Err(e) => Err(error_text(e)),
        Ok(ast) => {
            let (_, res) = spec_eval(spec_std_env(), 0, ast, INITIAL_FUEL as nat);
            match res {
                Ok(v) => Ok(crate::atom::spec_display(v)),
                Err(e) => Err(error_text(e)),
            }
        },
    }
}

/// Runs one program: tokenizes it, parses exactly one top-level form,
/// evaluates it against a fresh root environment, and renders the result
/// to its display string; every failure is returned as its message.
pub fn run_program(program: &str) -> (r: Result<String, String>)
    ensures
        match (r, spec_run(program@)) {
            (Ok(s), Ok(text)) => s@ == text,
            (Err(m), Err(text)) => m@ == text,
            _ => false,
        },
{
    let mut env = Environment::standard_env();
    let mut tokens = tokenize(program);
    let ast = match read_from_tokens(&mut tokens) {
        Ok(a) => a,
        Err(e) => return Err(e.message()),
    };
    let result = match evaluate(ast, &mut env, 0, INITIAL_FUEL) {
        Ok(v) => v,
        Err(e) => return Err(e.message()),
    };
    Ok(result.display_string())
}

} // verus!
