//! Laws of the interpreter, stated over the same specification functions
//! that the executable contracts use, and proved once and for all.

use vstd::prelude::*;

use crate::atom::{NativeFn, SpecAtom, SpecFnWrap};
use crate::builtins::{
    spec_append, spec_append_items, spec_apply, spec_car, spec_cdr, spec_compare, spec_cons,
    spec_ints, spec_is_eq, spec_is_equal, CompareOp,
};
use crate::environment::{spec_lookup, spec_std_env, wf_env, SpecEnv, SpecScope};
use crate::errors::SpecError;
use crate::interpreter::{
    scope_bind, spec_check_special, spec_eval, spec_eval_args, spec_execute_fn,
};

verus! {

broadcast use vstd::string::group_string_axioms;

/// Appending two sequences concatenates their elements in order.
pub proof fn lemma_append_binary(a: Seq<SpecAtom>, b: Seq<SpecAtom>)
    ensures
        spec_append(seq![SpecAtom::List(a), SpecAtom::List(b)]) == Ok::<SpecAtom, SpecError>(
            SpecAtom::List(a + b),
        ),
{
    let s = seq![SpecAtom::List(a), SpecAtom::List(b)];
    assert(s.drop_first() =~= seq![SpecAtom::List(b)]);
    assert(seq![SpecAtom::List(b)].drop_first() =~= Seq::<SpecAtom>::empty());
    assert(spec_append_items(Seq::<SpecAtom>::empty()) == Ok::<Seq<SpecAtom>, SpecError>(
        Seq::<SpecAtom>::empty(),
    ));
    assert(b + Seq::<SpecAtom>::empty() =~= b);
    assert(spec_append_items(seq![SpecAtom::List(b)]) == Ok::<Seq<SpecAtom>, SpecError>(b));
    assert(spec_append_items(s) == Ok::<Seq<SpecAtom>, SpecError>(a + b));
}

/// `append` is associative: appending an appended pair to a third
/// sequence equals appending the first to the appended last two.
pub proof fn lemma_append_associative(a: Seq<SpecAtom>, b: Seq<SpecAtom>, c: Seq<SpecAtom>)
    ensures
        spec_append(seq![SpecAtom::List(a + b), SpecAtom::List(c)]) == spec_append(
            seq![SpecAtom::List(a), SpecAtom::List(b + c)],
        ),
{
    lemma_append_binary(a + b, c);
    lemma_append_binary(a, b + c);
    assert((a + b) + c =~= a + (b + c));
}

/// The empty sequence is a left and right identity of `append`.
pub proof fn lemma_append_identity(a: Seq<SpecAtom>)
    ensures
        spec_append(seq![SpecAtom::List(Seq::<SpecAtom>::empty()), SpecAtom::List(a)]) == Ok::<
            SpecAtom,
            SpecError,
        >(SpecAtom::List(a)),
        spec_append(seq![SpecAtom::List(a), SpecAtom::List(Seq::<SpecAtom>::empty())]) == Ok::<
            SpecAtom,
            SpecError,
        >(SpecAtom::List(a)),
{
    lemma_append_binary(Seq::<SpecAtom>::empty(), a);
    lemma_append_binary(a, Seq::<SpecAtom>::empty());
    assert(Seq::<SpecAtom>::empty() + a =~= a);
    assert(a + Seq::<SpecAtom>::empty() =~= a);
}

/// Chaining four sequences preserves the full concatenation order.
pub proof fn lemma_append_chain(
    a: Seq<SpecAtom>,
    b: Seq<SpecAtom>,
    c: Seq<SpecAtom>,
    d: Seq<SpecAtom>,
)
    ensures
        spec_append(
            seq![
                SpecAtom::List(a),
                SpecAtom::List(b),
                SpecAtom::List(c),
                SpecAtom::List(d),
            ],
        ) == Ok::<SpecAtom, SpecError>(SpecAtom::List(a + b + c + d)),
{
    let s = seq![SpecAtom::List(a), SpecAtom::List(b), SpecAtom::List(c), SpecAtom::List(d)];
    let s1 = seq![SpecAtom::List(b), SpecAtom::List(c), SpecAtom::List(d)];
    let s2 = seq![SpecAtom::List(c), SpecAtom::List(d)];
    assert(s.drop_first() =~= s1);
    assert(s1.drop_first() =~= s2);
    lemma_append_binary(c, d);
    assert(spec_append_items(s2) == Ok::<Seq<SpecAtom>, SpecError>(c + d));
    assert(spec_append_items(s1) == Ok::<Seq<SpecAtom>, SpecError>(b + (c + d)));
    assert(spec_append_items(s) == Ok::<Seq<SpecAtom>, SpecError>(a + (b + (c + d))));
    assert(a + (b + (c + d)) =~= a + b + c + d);
}

/// The comparison procedures are total on two integers and return the
/// expected boolean.
pub proof fn lemma_compare_total(a: i32, b: i32)
    ensures
        spec_compare(CompareOp::Gt, seq![SpecAtom::Int(a), SpecAtom::Int(b)]) == Ok::<
            SpecAtom,
            SpecError,
        >(SpecAtom::Bool(a > b)),
        spec_compare(CompareOp::Lt, seq![SpecAtom::Int(a), SpecAtom::Int(b)]) == Ok::<
            SpecAtom,
            SpecError,
        >(SpecAtom::Bool(a < b)),
        spec_compare(CompareOp::Ge, seq![SpecAtom::Int(a), SpecAtom::Int(b)]) == Ok::<
            SpecAtom,
            SpecError,
        >(SpecAtom::Bool(a >= b)),
        spec_compare(CompareOp::Le, seq![SpecAtom::Int(a), SpecAtom::Int(b)]) == Ok::<
            SpecAtom,
            SpecError,
        >(SpecAtom::Bool(a <= b)),
        spec_compare(CompareOp::Eq, seq![SpecAtom::Int(a), SpecAtom::Int(b)]) == Ok::<
            SpecAtom,
            SpecError,
        >(SpecAtom::Bool(a == b)),
{
}

/// `apply` flattens its trailing sequence: the callable is applied to
/// the middle arguments followed by the elements of the trailing
/// sequence, in the caller's environment.
pub proof fn lemma_apply_flattens(
    w: SpecFnWrap,
    mids: Seq<SpecAtom>,
    tail: Seq<SpecAtom>,
    env: SpecEnv,
    scope: int,
    fuel: nat,
)
    requires
        fuel > 0,
    ensures
        spec_apply(
            env,
            scope,
            seq![SpecAtom::Callable(w)] + mids + seq![SpecAtom::List(tail)],
            fuel,
        ) == spec_execute_fn(w, mids + tail, env, scope, (fuel - 1) as nat),
{
    let args = seq![SpecAtom::Callable(w)] + mids + seq![SpecAtom::List(tail)];
    assert(args.len() == mids.len() + 2);
    assert(args[0] == SpecAtom::Callable(w));
    assert(args.last() == SpecAtom::List(tail));
    assert(args.subrange(1, args.len() - 1) =~= mids);
}

/// `equal?` is reflexive: every value is structurally equal to itself.
pub proof fn lemma_equal_reflexive(a: SpecAtom)
    ensures
        spec_is_equal(seq![a, a]) == Ok::<SpecAtom, SpecError>(SpecAtom::Bool(true)),
{
}

/// `equal?` is symmetric.
pub proof fn lemma_equal_symmetric(a: SpecAtom, b: SpecAtom)
    ensures
        spec_is_equal(seq![a, b]) == spec_is_equal(seq![b, a]),
{
}

/// `eq?` is strictly weaker than `equal?`: whenever `eq?` answers true,
/// so does `equal?`, and on every value that is neither a boolean nor an
/// integer `eq?` answers false, structurally equal or not.
pub proof fn lemma_is_eq_weaker(a: SpecAtom, b: SpecAtom)
    ensures
        spec_is_eq(seq![a, b]) == Ok::<SpecAtom, SpecError>(SpecAtom::Bool(true)) ==> spec_is_equal(
            seq![a, b],
        ) == Ok::<SpecAtom, SpecError>(SpecAtom::Bool(true)),
        !(a is Bool) && !(a is Int) ==> spec_is_eq(seq![a, b]) == Ok::<SpecAtom, SpecError>(
            SpecAtom::Bool(false),
        ),
{
}

/// `car` and `cdr` round-trip through `cons`: for any values, the head
/// and tail of the built pair are the two values again.
pub proof fn lemma_car_cdr_cons(a: SpecAtom, b: SpecAtom)
    ensures
        spec_cons(seq![a, b]) is Ok,
        spec_car(seq![spec_cons(seq![a, b])->Ok_0]) == Ok::<SpecAtom, SpecError>(a),
        spec_cdr(seq![spec_cons(seq![a, b])->Ok_0]) == Ok::<SpecAtom, SpecError>(b),
{
}

/// `car` and `cdr` fail on any value that is neither a pair nor a
/// sequence.
pub proof fn lemma_car_cdr_non_pair(v: SpecAtom)
    requires
        !(v is Cons),
        !(v is List),
    ensures
        spec_car(seq![v]) == Err::<SpecAtom, SpecError>(SpecError::ExpectedPair),
        spec_cdr(seq![v]) == Err::<SpecAtom, SpecError>(SpecError::ExpectedPair),
{
}

/// `car` and `cdr` fail on the empty sequence.
pub proof fn lemma_car_cdr_empty_sequence()
    ensures
        spec_car(seq![SpecAtom::List(Seq::<SpecAtom>::empty())]) == Err::<SpecAtom, SpecError>(
            SpecError::ExpectedPair,
        ),
        spec_cdr(seq![SpecAtom::List(Seq::<SpecAtom>::empty())]) == Err::<SpecAtom, SpecError>(
            SpecError::ExpectedPair,
        ),
{
}

/// Whether a value is the symbol of one of the four arithmetic
/// procedures.
pub open spec fn is_arith_op(op: SpecAtom) -> bool {
    ||| op == SpecAtom::Symbol("+"@)
    ||| op == SpecAtom::Symbol("-"@)
    ||| op == SpecAtom::Symbol("*"@)
    ||| op == SpecAtom::Symbol("/"@)
}

/// A well-formed arithmetic expression: an integer leaf, or one of the
/// four arithmetic procedures applied to two arithmetic expressions.
pub open spec fn is_arith_expr(e: SpecAtom) -> bool
    decreases e,
{
    match e {
        SpecAtom::Int(_) => true,
        SpecAtom::List(items) => items.len() == 3 && is_arith_op(items[0]) && is_arith_expr(
            items[1],
        ) && is_arith_expr(items[2]),
        _ => false,
    }
}

/// Division truncating toward zero, as the host integers divide.
pub open spec fn trunc_div(x: int, d: int) -> int
    recommends
        d != 0,
{
    if x == 0 {
        0
    } else if x > 0 && d > 0 {
        x / d
    } else if x < 0 && d < 0 {
        ((x * -1) / (d * -1))
    } else if x < 0 {
        ((x * -1) / d) * -1
    } else {
        (x / (d * -1)) * -1
    }
}

/// The value of an arithmetic expression in unbounded integer
/// arithmetic, with truncating division.
pub open spec fn arith_val(e: SpecAtom) -> int
    decreases e,
{
    match e {
        SpecAtom::Int(i) => i as int,
        SpecAtom::List(items) => {
            if items.len() == 3 {
                let x = arith_val(items[1]);
                let y = arith_val(items[2]);
                if items[0] == SpecAtom::Symbol("+"@) {
                    x + y
                } else if items[0] == SpecAtom::Symbol("-"@) {
                    x - y
                } else if items[0] == SpecAtom::Symbol("*"@) {
                    x * y
                } else {
                    trunc_div(x, y)
                }
            } else {
                0
            }
        },
        _ => 0,
    }
}

/// Whether a value lies in the signed 32-bit range.
pub open spec fn fits_i32(v: int) -> bool {
    -2147483648 <= v <= 2147483647
}

/// Whether an arithmetic expression evaluates without overflow or
/// division by zero: every node's value fits in 32 bits and no divisor
/// is zero.
pub open spec fn arith_ok(e: SpecAtom) -> bool
    decreases e,
{
    match e {
        SpecAtom::List(items) => {
            &&& items.len() == 3
            &&& arith_ok(items[1])
            &&& arith_ok(items[2])
            &&& fits_i32(arith_val(e))
            &&& (items[0] == SpecAtom::Symbol("/"@) ==> arith_val(items[2]) != 0)
        },
        _ => true,
    }
}

/// The number of leaves and operators of an arithmetic expression.
pub open spec fn arith_size(e: SpecAtom) -> nat
    decreases e,
{
    match e {
        SpecAtom::List(items) => if items.len() == 3 {
            1 + arith_size(items[1]) + arith_size(items[2])
        } else {
            1
        },
        _ => 1,
    }
}

/// The value of a well-formed arithmetic expression without overflow
/// fits in 32 bits.
proof fn lemma_arith_val_fits(e: SpecAtom)
    requires
        is_arith_expr(e),
        arith_ok(e),
    ensures
        fits_i32(arith_val(e)),
{
    match e {
        SpecAtom::Int(_) => {},
        SpecAtom::List(_) => {},
        _ => {},
    }
}

/// The concrete character sequences of the interpreter's keyword and
/// operator literals, and the lengths of the remaining built-in names.
proof fn lemma_literal_shapes()
    ensures
        "+"@.len() == 1 && "+"@[0] == '+',
        "-"@.len() == 1 && "-"@[0] == '-',
        "*"@.len() == 1 && "*"@[0] == '*',
        "/"@.len() == 1 && "/"@[0] == '/',
        ">"@.len() == 1 && ">"@[0] == '>',
        "<"@.len() == 1 && "<"@[0] == '<',
        "="@.len() == 1 && "="@[0] == '=',
        ">="@.len() == 2 && ">="@[0] == '>',
        "<="@.len() == 2 && "<="@[0] == '<',
        "define"@.len() == 6,
        "if"@.len() == 2,
        "abs"@.len() == 3,
        "append"@.len() == 6,
        "apply"@.len() == 5,
        "begin"@.len() == 5,
        "car"@.len() == 3,
        "cdr"@.len() == 3,
        "cons"@.len() == 4,
        "eq?"@.len() == 3,
        "equal?"@.len() == 6,
        "list"@.len() == 4,
        "list?"@.len() == 5,
        "let"@.len() == 3,
{
    reveal_strlit("+");
    reveal_strlit("-");
    reveal_strlit("*");
    reveal_strlit("/");
    reveal_strlit(">");
    reveal_strlit("<");
    reveal_strlit("=");
    reveal_strlit(">=");
    reveal_strlit("<=");
    reveal_strlit("define");
    reveal_strlit("if");
    reveal_strlit("abs");
    reveal_strlit("append");
    reveal_strlit("apply");
    reveal_strlit("begin");
    reveal_strlit("car");
    reveal_strlit("cdr");
    reveal_strlit("cons");
    reveal_strlit("eq?");
    reveal_strlit("equal?");
    reveal_strlit("list");
    reveal_strlit("list?");
    reveal_strlit("let");
    assert("+"@ =~= seq!['+']);
    assert("-"@ =~= seq!['-']);
    assert("*"@ =~= seq!['*']);
    assert("/"@ =~= seq!['/']);
    assert(">"@ =~= seq!['>']);
    assert("<"@ =~= seq!['<']);
    assert("="@ =~= seq!['=']);
    assert(">="@ =~= seq!['>', '=']);
    assert("<="@ =~= seq!['<', '=']);
}

/// Evaluating a well-formed arithmetic expression with integer leaves
/// matches standard integer arithmetic with truncating division, leaves
/// the environment unchanged, and never fails — in any scope chain that
/// binds the four arithmetic symbols to their native procedures, given
/// enough evaluation budget and no overflow.
pub proof fn lemma_arith_eval(env: SpecEnv, scope: int, e: SpecAtom, fuel: nat)
    requires
        is_arith_expr(e),
        arith_ok(e),
        fuel >= 6 * arith_size(e),
        spec_lookup(env, scope, "+"@) == Ok::<SpecAtom, SpecError>(
            SpecAtom::Callable(SpecFnWrap::Fn(NativeFn::Add)),
        ),
        spec_lookup(env, scope, "-"@) == Ok::<SpecAtom, SpecError>(
            SpecAtom::Callable(SpecFnWrap::Fn(NativeFn::Subtract)),
        ),
        spec_lookup(env, scope, "*"@) == Ok::<SpecAtom, SpecError>(
            SpecAtom::Callable(SpecFnWrap::Fn(NativeFn::Multiply)),
        ),
        spec_lookup(env, scope, "/"@) == Ok::<SpecAtom, SpecError>(
            SpecAtom::Callable(SpecFnWrap::Fn(NativeFn::Divide)),
        ),
    ensures
        spec_eval(env, scope, e, fuel) == (
            env,
            Ok::<SpecAtom, SpecError>(SpecAtom::Int(arith_val(e) as i32)),
        ),
    decreases e,
{
    lemma_literal_shapes();
    match e {
        SpecAtom::Int(_) => {},
        SpecAtom::List(items) => {
            reveal_with_fuel(spec_eval_args, 3);
            let op = items[0];
            let e1 = items[1];
            let e2 = items[2];
            assert(arith_size(e1) >= 1 && arith_size(e2) >= 1);
            assert(arith_size(e) == 1 + arith_size(e1) + arith_size(e2));
            let f1 = (fuel - 1) as nat;
            assert(op != SpecAtom::Symbol("define"@));
            assert(op != SpecAtom::Symbol("if"@));
            assert(spec_check_special(env, scope, op, items, f1) == (
                env,
                None::<Result<SpecAtom, SpecError>>,
            ));
            // the head symbol resolves to the matching native procedure
            let native = if op == SpecAtom::Symbol("+"@) {
                NativeFn::Add
            } else if op == SpecAtom::Symbol("-"@) {
                NativeFn::Subtract
            } else if op == SpecAtom::Symbol("*"@) {
                NativeFn::Multiply
            } else {
                NativeFn::Divide
            };
            assert(spec_eval(env, scope, op, f1) == (
                env,
                Ok::<SpecAtom, SpecError>(SpecAtom::Callable(SpecFnWrap::Fn(native))),
            ));
            // both operands evaluate to their arithmetic values
            let rest = items.skip(1);
            assert(rest.len() == 2 && rest[0] == e1 && rest[1] == e2);
            assert(rest.skip(1) =~= seq![e2]);
            assert(seq![e2].skip(1) =~= Seq::<SpecAtom>::empty());
            let f2 = (f1 - 1) as nat;
            let f3 = (f2 - 1) as nat;
            lemma_arith_eval(env, scope, e1, f2);
            lemma_arith_eval(env, scope, e2, f3);
            lemma_arith_val_fits(e1);
            lemma_arith_val_fits(e2);
            let v1 = SpecAtom::Int(arith_val(e1) as i32);
            let v2 = SpecAtom::Int(arith_val(e2) as i32);
            assert(spec_eval_args(env, scope, seq![e2], f2) == (
                env,
                Ok::<Seq<SpecAtom>, SpecError>(seq![v2] + Seq::<SpecAtom>::empty()),
            ));
            assert(seq![v2] + Seq::<SpecAtom>::empty() =~= seq![v2]);
            assert(spec_eval_args(env, scope, rest, f1) == (
                env,
                Ok::<Seq<SpecAtom>, SpecError>(seq![v1] + seq![v2]),
            ));
            let vals = seq![v1, v2];
            assert(seq![v1] + seq![v2] =~= vals);
            // the native procedure computes the arithmetic result
            assert(vals.len() == 2);
            assert(spec_ints(vals) =~= seq![arith_val(e1) as i32, arith_val(e2) as i32]) by {
                reveal_with_fuel(spec_ints, 3);
                assert(vals.drop_first() =~= seq![v2]);
                assert(seq![v2].drop_first() =~= Seq::<SpecAtom>::empty());
                assert(spec_ints(vals) == seq![arith_val(e1) as i32] + (seq![
                    arith_val(e2) as i32,
                ] + Seq::<i32>::empty()));
            }
            lemma_arith_native(e, vals, env, scope, native, (f1 - 1) as nat);
            assert(spec_execute_fn(SpecFnWrap::Fn(native), vals, env, scope, f1) == (
                env,
                Ok::<SpecAtom, SpecError>(SpecAtom::Int(arith_val(e) as i32)),
            ));
        },
        _ => {},
    }
}

/// The native arithmetic procedures, applied to the two operand values
/// of an arithmetic node without overflow, return the node's value.
proof fn lemma_arith_native(
    e: SpecAtom,
    vals: Seq<SpecAtom>,
    env: SpecEnv,
    scope: int,
    native: NativeFn,
    fuel: nat,
)
    requires
        is_arith_expr(e),
        arith_ok(e),
        e is List,
        vals =~= seq![
            SpecAtom::Int(arith_val(e->List_0[1]) as i32),
            SpecAtom::Int(arith_val(e->List_0[2]) as i32),
        ],
        fits_i32(arith_val(e->List_0[1])),
        fits_i32(arith_val(e->List_0[2])),
        native == (if e->List_0[0] == SpecAtom::Symbol("+"@) {
            NativeFn::Add
        } else if e->List_0[0] == SpecAtom::Symbol("-"@) {
            NativeFn::Subtract
        } else if e->List_0[0] == SpecAtom::Symbol("*"@) {
            NativeFn::Multiply
        } else {
            NativeFn::Divide
        }),
    ensures
        crate::interpreter::spec_native(native, env, scope, vals, fuel) == (
            env,
            Ok::<SpecAtom, SpecError>(SpecAtom::Int(arith_val(e) as i32)),
        ),
{
    let items = e->List_0;
    let a = arith_val(items[1]) as i32;
    let b = arith_val(items[2]) as i32;
    assert(vals[0] == SpecAtom::Int(a) && vals[1] == SpecAtom::Int(b) && vals.len() == 2);
    reveal_with_fuel(spec_ints, 4);
    reveal_with_fuel(crate::builtins::spec_fold_add, 4);
    reveal_with_fuel(crate::builtins::spec_fold_mul, 4);
    assert(spec_ints(vals) =~= seq![a, b]) by {
        assert(vals.drop_first() =~= seq![SpecAtom::Int(b)]);
        assert(seq![SpecAtom::Int(b)].drop_first() =~= Seq::<SpecAtom>::empty());
        assert(spec_ints(vals) == seq![a] + (seq![b] + Seq::<i32>::empty()));
    }
    let ints = seq![a, b];
    assert(ints.drop_first() =~= seq![b]);
    assert(seq![b].drop_first() =~= Seq::<i32>::empty());
    lemma_arith_val_fits(e);
    if items[0] == SpecAtom::Symbol("+"@) {
        assert(arith_val(e) == a as int + b as int);
        assert(crate::builtins::spec_fold_add(ints, 0) == Some((a as int + b as int) as i32));
    } else if items[0] == SpecAtom::Symbol("-"@) {
        assert(arith_val(e) == a as int - b as int);
    } else if items[0] == SpecAtom::Symbol("*"@) {
        assert(arith_val(e) == a as int * b as int);
        assert(crate::builtins::spec_fold_mul(ints, 1) == Some((a as int * b as int) as i32));
    } else {
        assert(items[0] == SpecAtom::Symbol("/"@));
        assert(b != 0);
        assert(arith_val(e) == trunc_div(a as int, b as int));
        assert(a.checked_div(b) == Some(arith_val(e) as i32));
    }
}

/// Evaluating a well-formed arithmetic expression without overflow in a
/// fresh root environment matches standard integer arithmetic with
/// truncating division.
pub proof fn lemma_arith_eval_std(e: SpecAtom, fuel: nat)
    requires
        is_arith_expr(e),
        arith_ok(e),
        fuel >= 6 * arith_size(e),
    ensures
        spec_eval(spec_std_env(), 0, e, fuel) == (
            spec_std_env(),
            Ok::<SpecAtom, SpecError>(SpecAtom::Int(arith_val(e) as i32)),
        ),
{
    lemma_std_env_arith_lookups();
    lemma_arith_eval(spec_std_env(), 0, e, fuel);
}

/// The root environment binds the four arithmetic symbols to their
/// native procedures.
#[verifier::rlimit(100)]
proof fn lemma_std_env_arith_lookups()
    ensures
        spec_lookup(spec_std_env(), 0, "+"@) == Ok::<SpecAtom, SpecError>(
            SpecAtom::Callable(SpecFnWrap::Fn(NativeFn::Add)),
        ),
        spec_lookup(spec_std_env(), 0, "-"@) == Ok::<SpecAtom, SpecError>(
            SpecAtom::Callable(SpecFnWrap::Fn(NativeFn::Subtract)),
        ),
        spec_lookup(spec_std_env(), 0, "*"@) == Ok::<SpecAtom, SpecError>(
            SpecAtom::Callable(SpecFnWrap::Fn(NativeFn::Multiply)),
        ),
        spec_lookup(spec_std_env(), 0, "/"@) == Ok::<SpecAtom, SpecError>(
            SpecAtom::Callable(SpecFnWrap::Fn(NativeFn::Divide)),
        ),
{
    lemma_literal_shapes();
    let env = spec_std_env();
    let defs = crate::environment::std_bindings();
    assert(env[0].defs == defs);
    assert(defs["+"@] == SpecAtom::Callable(SpecFnWrap::Fn(NativeFn::Add))) by {
        lemma_literal_shapes();
    }
    assert(defs["-"@] == SpecAtom::Callable(SpecFnWrap::Fn(NativeFn::Subtract))) by {
        lemma_literal_shapes();
    }
    assert(defs["*"@] == SpecAtom::Callable(SpecFnWrap::Fn(NativeFn::Multiply))) by {
        lemma_literal_shapes();
    }
    assert(defs["/"@] == SpecAtom::Callable(SpecFnWrap::Fn(NativeFn::Divide))) by {
        lemma_literal_shapes();
    }
    assert(defs.contains_key("+"@));
    assert(defs.contains_key("-"@));
    assert(defs.contains_key("*"@));
    assert(defs.contains_key("/"@));
}

/// A definition is visible in the scope it was made in: after binding a
/// name, looking the name up in the same scope yields the bound value.
pub proof fn lemma_define_then_lookup(env: SpecEnv, scope: int, name: Seq<char>, v: SpecAtom)
    requires
        0 <= scope < env.len(),
    ensures
        spec_lookup(env.update(scope, scope_bind(env[scope], name, v)), scope, name) == Ok::<
            SpecAtom,
            SpecError,
        >(v),
{
    let env1 = env.update(scope, scope_bind(env[scope], name, v));
    assert(env1[scope].defs.contains_key(name));
}

/// Pushing a new scope on the arena changes no lookup in the scopes that
/// already existed.
pub proof fn lemma_push_preserves_lookup(env: SpecEnv, sc: SpecScope, i: int, name: Seq<char>)
    requires
        0 <= i < env.len(),
    ensures
        spec_lookup(env.push(sc), i, name) == spec_lookup(env, i, name),
    decreases i,
{
    let env1 = env.push(sc);
    assert(env1[i] == env[i]);
    if !env[i].defs.contains_key(name) {
        match env[i].parent {
            Some(p) => {
                if 0 <= p < i {
                    lemma_push_preserves_lookup(env, sc, p, name);
                }
            },
            None => {},
        }
    }
}

/// A definition also resolves from a nested scope: looking a name up in
/// a fresh empty child scope falls back to the parent chain, so it finds
/// exactly what the parent scope finds.
pub proof fn lemma_child_scope_falls_back(env: SpecEnv, scope: int, name: Seq<char>)
    requires
        wf_env(env),
        0 <= scope < env.len(),
    ensures
        spec_lookup(
            env.push(SpecScope { parent: Some(scope), defs: Map::empty() }),
            env.len() as int,
            name,
        ) == spec_lookup(env, scope, name),
{
    let sc = SpecScope { parent: Some(scope), defs: Map::empty() };
    let env1 = env.push(sc);
    assert(env1[env.len() as int] == sc);
    assert(!sc.defs.contains_key(name));
    lemma_push_preserves_lookup(env, sc, scope, name);
}

} // verus!

