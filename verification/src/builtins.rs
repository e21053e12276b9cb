//! The built-in procedure catalog: the native procedures installed into
//! the root environment. Each one takes the caller's environment, the
//! scope the call was made in, the evaluated argument values, and the
//! evaluator's remaining recursion budget; most are pure and leave the
//! environment untouched, while `begin` and `apply` re-enter the
//! evaluator in the caller's scope.
//!
//! Arithmetic is exact 32-bit arithmetic: a result outside the 32-bit
//! range is reported as an overflow error, and division rejects a zero
//! divisor, where the host language would abort instead.

use vstd::prelude::*;

use crate::atom::{
    atom_equal, atom_view, atoms_view, clone_atoms, result_view, Atom, SpecAtom, SpecAtomResult,
};
use crate::environment::{Environment, SpecEnv};
use crate::errors::{SchemeError, SpecError};
use crate::interpreter::{execute_fn, spec_eval_seq, spec_execute_fn, EvalOut};

verus! {

/// The integers among a value sequence, in order; other values are
/// silently dropped, as the folding arithmetic procedures do.
pub open spec fn spec_ints(s: Seq<SpecAtom>) -> Seq<i32>
    decreases s.len(),
{
    if s.len() == 0 {
        Seq::empty()
    } else {
        (match s[0] {
            SpecAtom::Int(i) => seq![i],
            _ => Seq::<i32>::empty(),
        }) + spec_ints(s.drop_first())
    }
}

/// A left fold of addition over 32-bit integers, failing on the first
/// partial sum outside the 32-bit range.
pub open spec fn spec_fold_add(xs: Seq<i32>, acc: i32) -> Option<i32>
    decreases xs.len(),
{
    if xs.len() == 0 {
        Some(acc)
    } else {
        let s = acc as int + xs[0] as int;
        if -2147483648 <= s <= 2147483647 {
            spec_fold_add(xs.drop_first(), s as i32)
        } else {
            None
        }
    }
}

/// A left fold of multiplication over 32-bit integers, failing on the
/// first partial product outside the 32-bit range.
pub open spec fn spec_fold_mul(xs: Seq<i32>, acc: i32) -> Option<i32>
    decreases xs.len(),
{
    if xs.len() == 0 {
        Some(acc)
    } else {
        let s = acc as int * xs[0] as int;
        if -2147483648 <= s <= 2147483647 {
            spec_fold_mul(xs.drop_first(), s as i32)
        } else {
            None
        }
    }
}

/// The sum of the integer arguments, starting from zero.
pub open spec fn spec_add(args: Seq<SpecAtom>) -> SpecAtomResult {
    match spec_fold_add(spec_ints(args), 0) {
        Some(v) => Ok(SpecAtom::Int(v)),
        None => Err(SpecError::IntegerOverflow),
    }
}

/// The product of the integer arguments, starting from one.
pub open spec fn spec_multiply(args: Seq<SpecAtom>) -> SpecAtomResult {
    match spec_fold_mul(spec_ints(args), 1) {
        Some(v) => Ok(SpecAtom::Int(v)),
        None => Err(SpecError::IntegerOverflow),
    }
}

/// The two integer operands of a strictly binary procedure, or the error
/// the procedure reports: exactly two arguments, each an integer.
pub open spec fn spec_two_ints(args: Seq<SpecAtom>) -> Result<(i32, i32), SpecError> {
    if args.len() != 2 {
        Err(SpecError::InvalidArgumentCount)
    } else {
        match args[0] {
            SpecAtom::Int(a) => match args[1] {
                SpecAtom::Int(b) => Ok((a, b)),
                _ => Err(SpecError::NotAnInteger),
            },
            _ => Err(SpecError::NotAnInteger),
        }
    }
}

/// The difference of exactly two integers, or the error for bad operands
/// or a result outside the 32-bit range.
pub open spec fn spec_subtract(args: Seq<SpecAtom>) -> SpecAtomResult {
    match spec_two_ints(args) {
        Err(e) => Err(e),
        Ok((a, b)) => if -2147483648 <= a as int - b as int <= 2147483647 {
            Ok(SpecAtom::Int((a as int - b as int) as i32))
        } else {
            Err(SpecError::IntegerOverflow)
        },
    }
}

/// The truncating quotient of exactly two integers; a zero divisor and
/// the one overflowing quotient are errors.
pub open spec fn spec_divide(args: Seq<SpecAtom>) -> SpecAtomResult {
    match spec_two_ints(args) {
        Err(e) => Err(e),
        Ok((a, b)) => if b == 0 {
            Err(SpecError::DivisionByZero)
        } else {
            match a.checked_div(b) {
                Some(q) => Ok(SpecAtom::Int(q)),
                None => Err(SpecError::IntegerOverflow),
            }
        },
    }
}

/// The comparisons a strictly binary comparison procedure can make.
pub enum CompareOp {
    Gt,
    Lt,
    Ge,
    Le,
    Eq,
}

/// The boolean a comparison procedure returns on exactly two integers:
/// total on integers, an error on anything else.
pub open spec fn spec_compare(op: CompareOp, args: Seq<SpecAtom>) -> SpecAtomResult {
    match spec_two_ints(args) {
        Err(e) => Err(e),
        Ok((a, b)) => Ok(SpecAtom::Bool(
            match op {
                CompareOp::Gt => a > b,
                CompareOp::Lt => a < b,
                CompareOp::Ge => a >= b,
                CompareOp::Le => a <= b,
                CompareOp::Eq => a == b,
            },
        )),
    }
}

/// The absolute value of exactly one integer; the one value without a
/// 32-bit absolute value is an overflow error.
pub open spec fn spec_abs(args: Seq<SpecAtom>) -> SpecAtomResult {
    if args.len() != 1 {
        Err(SpecError::InvalidArgumentCount)
    } else {
        match args[0] {
            SpecAtom::Int(a) => if a == -2147483648 {
                Err(SpecError::IntegerOverflow)
            } else if a < 0 {
                Ok(SpecAtom::Int((-(a as int)) as i32))
            } else {
                Ok(SpecAtom::Int(a))
            },
            _ => Err(SpecError::NotAnInteger),
        }
    }
}

/// The concatenation of the elements of every argument, each of which
/// must be a sequence; fails on the first argument that is not.
pub open spec fn spec_append_items(args: Seq<SpecAtom>) -> Result<Seq<SpecAtom>, SpecError>
    decreases args.len(),
{
    if args.len() == 0 {
        Ok(Seq::empty())
    } else {
        match args[0] {
            SpecAtom::List(items) => match spec_append_items(args.drop_first()) {
                Ok(rest) => Ok(items + rest),
                Err(e) => Err(e),
            },
            _ => Err(SpecError::NotAList),
        }
    }
}

/// One new sequence holding the elements of every argument in order.
pub open spec fn spec_append(args: Seq<SpecAtom>) -> SpecAtomResult {
    match spec_append_items(args) {
        Ok(items) => Ok(SpecAtom::List(items)),
        Err(e) => Err(e),
    }
}

/// The head of a pair or of a non-empty sequence.
pub open spec fn spec_car(args: Seq<SpecAtom>) -> SpecAtomResult {
    if args.len() != 1 {
        Err(SpecError::InvalidArgumentCount)
    } else {
        match args[0] {
            SpecAtom::Cons(car, _) => Ok(*car),
            SpecAtom::List(items) => if items.len() > 0 {
                Ok(items[0])
            } else {
                Err(SpecError::ExpectedPair)
            },
            _ => Err(SpecError::ExpectedPair),
        }
    }
}

/// The tail of a pair, or the tail of a non-empty sequence as a new
/// sequence.
pub open spec fn spec_cdr(args: Seq<SpecAtom>) -> SpecAtomResult {
    if args.len() != 1 {
        Err(SpecError::InvalidArgumentCount)
    } else {
        match args[0] {
            SpecAtom::Cons(_, cdr) => Ok(*cdr),
            SpecAtom::List(items) => if items.len() > 0 {
                Ok(SpecAtom::List(items.drop_first()))
            } else {
                Err(SpecError::ExpectedPair)
            },
            _ => Err(SpecError::ExpectedPair),
        }
    }
}

/// A pair of exactly two values; always succeeds on two arguments.
pub open spec fn spec_cons(args: Seq<SpecAtom>) -> SpecAtomResult {
    if args.len() != 2 {
        Err(SpecError::InvalidArgumentCount)
    } else {
        Ok(SpecAtom::Cons(Box::new(args[0]), Box::new(args[1])))
    }
}

/// Identity-like comparison: booleans and integers compare by value;
/// every other kind compares as distinct, even from itself.
pub open spec fn spec_is_eq(args: Seq<SpecAtom>) -> SpecAtomResult {
    if args.len() != 2 {
        Err(SpecError::InvalidArgumentCount)
    } else {
        Ok(SpecAtom::Bool(
            match args[0] {
                SpecAtom::Bool(_) => args[0] == args[1],
                SpecAtom::Int(_) => args[0] == args[1],
                _ => false,
            },
        ))
    }
}

/// Deep structural equality of exactly two values.
pub open spec fn spec_is_equal(args: Seq<SpecAtom>) -> SpecAtomResult {
    if args.len() != 2 {
        Err(SpecError::InvalidArgumentCount)
    } else {
        Ok(SpecAtom::Bool(args[0] == args[1]))
    }
}

/// One sequence wrapping all arguments, unconditionally.
pub open spec fn spec_list(args: Seq<SpecAtom>) -> SpecAtomResult {
    Ok(SpecAtom::List(args))
}

/// Whether the single argument is a sequence.
pub open spec fn spec_is_list(args: Seq<SpecAtom>) -> SpecAtomResult {
    if args.len() != 1 {
        Err(SpecError::InvalidArgumentCount)
    } else {
        Ok(SpecAtom::Bool(args[0] is List))
    }
}

/// Sums the integer arguments, dropping non-integers.
pub fn scheme_add(env: &mut Environment, scope: usize, args: Vec<Atom>, fuel: u64) -> (r: Result<
    Atom,
    SchemeError,
>)
    ensures
        final(env)@ == old(env)@,
        result_view(r) == spec_add(atoms_view(args@)),
{
    let ghost views = atoms_view(args@);
    proof {
        crate::atom::atoms_view_len(args@);
    }
    let mut acc: i32 = 0;
    let mut k: usize = 0;
    proof {
        assert(views.skip(0) =~= views);
    }
    #[verifier::loop_isolation(false)]
    while k < args.len()
        invariant
            k <= args@.len(),
            spec_fold_add(spec_ints(views.skip(k as int)), acc) == spec_fold_add(
                spec_ints(views),
                0,
            ),
        decreases args@.len() - k,
    {
        proof {
            crate::atom::atoms_view_index(args@, k as int);
            assert(views.skip(k as int)[0] == views[k as int]);
            assert(views.skip(k as int).drop_first() =~= views.skip(k as int + 1));
        }
        match (&args[k]).as_int() {
            Some(i) => {
                proof {
                    assert(spec_ints(views.skip(k as int)) == seq![i] + spec_ints(
                        views.skip(k as int + 1),
                    ));
                    assert((seq![i] + spec_ints(views.skip(k as int + 1))).drop_first()
                        =~= spec_ints(views.skip(k as int + 1)));
                }
                match acc.checked_add(i) {
                    Some(s) => {
                        acc = s;
                    },
                    None => {
                        return Err(SchemeError::IntegerOverflow);
                    },
                }
            },
            None => {
                proof {
                    assert(spec_ints(views.skip(k as int)) =~= spec_ints(views.skip(k as int + 1)));
                }
            },
        }
        k += 1;
    }
    proof {
        assert(views.skip(views.len() as int) =~= Seq::<SpecAtom>::empty());
    }
    Ok(Atom::Int(acc))
}

/// Multiplies the integer arguments, dropping non-integers.
pub fn scheme_multiply(env: &mut Environment, scope: usize, args: Vec<Atom>, fuel: u64) -> (r:
    Result<Atom, SchemeError>)
    ensures
        final(env)@ == old(env)@,
        result_view(r) == spec_multiply(atoms_view(args@)),
{
    let ghost views = atoms_view(args@);
    proof {
        crate::atom::atoms_view_len(args@);
    }
    let mut acc: i32 = 1;
    let mut k: usize = 0;
    proof {
        assert(views.skip(0) =~= views);
    }
    #[verifier::loop_isolation(false)]
    while k < args.len()
        invariant
            k <= args@.len(),
            spec_fold_mul(spec_ints(views.skip(k as int)), acc) == spec_fold_mul(
                spec_ints(views),
                1,
            ),
        decreases args@.len() - k,
    {
        proof {
            crate::atom::atoms_view_index(args@, k as int);
            assert(views.skip(k as int)[0] == views[k as int]);
            assert(views.skip(k as int).drop_first() =~= views.skip(k as int + 1));
        }
        match (&args[k]).as_int() {
            Some(i) => {
                proof {
                    assert(spec_ints(views.skip(k as int)) == seq![i] + spec_ints(
                        views.skip(k as int + 1),
                    ));
                    assert((seq![i] + spec_ints(views.skip(k as int + 1))).drop_first()
                        =~= spec_ints(views.skip(k as int + 1)));
                }
                match acc.checked_mul(i) {
                    Some(s) => {
                        acc = s;
                    },
                    None => {
                        return Err(SchemeError::IntegerOverflow);
                    },
                }
            },
            None => {
                proof {
                    assert(spec_ints(views.skip(k as int)) =~= spec_ints(views.skip(k as int + 1)));
                }
            },
        }
        k += 1;
    }
    proof {
        assert(views.skip(views.len() as int) =~= Seq::<SpecAtom>::empty());
    }
    Ok(Atom::Int(acc))
}

/// Reads exactly two integer operands from the argument list.
fn two_int_args(args: &Vec<Atom>) -> (r: Result<(i32, i32), SchemeError>)
    ensures
        match r {
            Ok((a, b)) => spec_two_ints(atoms_view(args@)) == Ok::<(i32, i32), SpecError>((a, b)),
            Err(e) => spec_two_ints(atoms_view(args@)) == Err::<(i32, i32), SpecError>(
                crate::errors::error_view(e),
            ),
        },
{
    proof {
        crate::atom::atoms_view_len(args@);
        if args@.len() > 0 {
            crate::atom::atoms_view_index(args@, 0);
        }
        if args@.len() > 1 {
            crate::atom::atoms_view_index(args@, 1);
        }
    }
    if args.len() != 2 {
        return Err(SchemeError::InvalidArgumentCount);
    }
    let a = match (&args[0]).as_int_result() {
        Ok(a) => a,
        Err(e) => return Err(e),
    };
    let b = match (&args[1]).as_int_result() {
        Ok(b) => b,
        Err(e) => return Err(e),
    };
    Ok((a, b))
}

/// Subtracts exactly two integers.
pub fn scheme_subtract(env: &mut Environment, scope: usize, args: Vec<Atom>, fuel: u64) -> (r:
    Result<Atom, SchemeError>)
    ensures
        final(env)@ == old(env)@,
        result_view(r) == spec_subtract(atoms_view(args@)),
{
    let (a, b) = match two_int_args(&args) {
        Ok(p) => p,
        Err(e) => return Err(e),
    };
    match a.checked_sub(b) {
        Some(d) => Ok(Atom::Int(d)),
        None => Err(SchemeError::IntegerOverflow),
    }
}

/// Divides exactly two integers, truncating toward zero.
pub fn scheme_divide(env: &mut Environment, scope: usize, args: Vec<Atom>, fuel: u64) -> (r: Result<
    Atom,
    SchemeError,
>)
    ensures
        final(env)@ == old(env)@,
        result_view(r) == spec_divide(atoms_view(args@)),
{
    let (a, b) = match two_int_args(&args) {
        Ok(p) => p,
        Err(e) => return Err(e),
    };
    if b == 0 {
        return Err(SchemeError::DivisionByZero);
    }
    match a.checked_div(b) {
        Some(q) => Ok(Atom::Int(q)),
        None => Err(SchemeError::IntegerOverflow),
    }
}

/// Whether the first of exactly two integers is greater.
pub fn scheme_gt(env: &mut Environment, scope: usize, args: Vec<Atom>, fuel: u64) -> (r: Result<
    Atom,
    SchemeError,
>)
    ensures
        final(env)@ == old(env)@,
        result_view(r) == spec_compare(CompareOp::Gt, atoms_view(args@)),
{
    let (a, b) = match two_int_args(&args) {
        Ok(p) => p,
        Err(e) => return Err(e),
    };
    Ok(Atom::Bool(a > b))
}

/// Whether the first of exactly two integers is smaller.
pub fn scheme_lt(env: &mut Environment, scope: usize, args: Vec<Atom>, fuel: u64) -> (r: Result<
    Atom,
    SchemeError,
>)
    ensures
        final(env)@ == old(env)@,
        result_view(r) == spec_compare(CompareOp::Lt, atoms_view(args@)),
{
    let (a, b) = match two_int_args(&args) {
        Ok(p) => p,
        Err(e) => return Err(e),
    };
    Ok(Atom::Bool(a < b))
}

/// Whether the first of exactly two integers is greater or equal.
pub fn scheme_ge(env: &mut Environment, scope: usize, args: Vec<Atom>, fuel: u64) -> (r: Result<
    Atom,
    SchemeError,
>)
    ensures
        final(env)@ == old(env)@,
        result_view(r) == spec_compare(CompareOp::Ge, atoms_view(args@)),
{
    let (a, b) = match two_int_args(&args) {
        Ok(p) => p,
        Err(e) => return Err(e),
    };
    Ok(Atom::Bool(a >= b))
}

/// Whether the first of exactly two integers is smaller or equal.
pub fn scheme_le(env: &mut Environment, scope: usize, args: Vec<Atom>, fuel: u64) -> (r: Result<
    Atom,
    SchemeError,
>)
    ensures
        final(env)@ == old(env)@,
        result_view(r) == spec_compare(CompareOp::Le, atoms_view(args@)),
{
    let (a, b) = match two_int_args(&args) {
        Ok(p) => p,
        Err(e) => return Err(e),
    };
    Ok(Atom::Bool(a <= b))
}

/// Whether exactly two integers are equal.
pub fn scheme_eq(env: &mut Environment, scope: usize, args: Vec<Atom>, fuel: u64) -> (r: Result<
    Atom,
    SchemeError,
>)
    ensures
        final(env)@ == old(env)@,
        result_view(r) == spec_compare(CompareOp::Eq, atoms_view(args@)),
{
    let (a, b) = match two_int_args(&args) {
        Ok(p) => p,
        Err(e) => return Err(e),
    };
    Ok(Atom::Bool(a == b))
}

/// The absolute value of exactly one integer.
pub fn scheme_abs(env: &mut Environment, scope: usize, args: Vec<Atom>, fuel: u64) -> (r: Result<
    Atom,
    SchemeError,
>)
    ensures
        final(env)@ == old(env)@,
        result_view(r) == spec_abs(atoms_view(args@)),
{
    proof {
        crate::atom::atoms_view_len(args@);
        if args@.len() > 0 {
            crate::atom::atoms_view_index(args@, 0);
        }
    }
    if args.len() != 1 {
        return Err(SchemeError::InvalidArgumentCount);
    }
    let a = match (&args[0]).as_int_result() {
        Ok(a) => a,
        Err(e) => return Err(e),
    };
    if a == i32::MIN {
        Err(SchemeError::IntegerOverflow)
    } else if a < 0 {
        Ok(Atom::Int(-a))
    } else {
        Ok(Atom::Int(a))
    }
}

/// Concatenates the elements of each argument, all of which must be
/// sequences, into one new sequence, preserving argument order.
pub fn scheme_append(env: &mut Environment, scope: usize, args: Vec<Atom>, fuel: u64) -> (r: Result<
    Atom,
    SchemeError,
>)
    ensures
        final(env)@ == old(env)@,
        result_view(r) == spec_append(atoms_view(args@)),
{
    let ghost views = atoms_view(args@);
    proof {
        crate::atom::atoms_view_len(args@);
    }
    let mut out: Vec<Atom> = Vec::new();
    let mut k: usize = 0;
    proof {
        assert(views.skip(0) =~= views);
        assert(atoms_view(out@) =~= Seq::<SpecAtom>::empty());
        if spec_append_items(views) is Ok {
            assert(atoms_view(out@) + spec_append_items(views)->Ok_0
                =~= spec_append_items(views)->Ok_0);
        }
    }
    #[verifier::loop_isolation(false)]
    while k < args.len()
        invariant
            k <= args@.len(),
            match spec_append_items(views.skip(k as int)) {
                Ok(rest) => spec_append_items(views) == Ok::<Seq<SpecAtom>, SpecError>(
                    atoms_view(out@) + rest,
                ),
                Err(e) => spec_append_items(views) == Err::<Seq<SpecAtom>, SpecError>(e),
            },
        decreases args@.len() - k,
    {
        proof {
            crate::atom::atoms_view_index(args@, k as int);
            assert(views.skip(k as int)[0] == views[k as int]);
            assert(views.skip(k as int).drop_first() =~= views.skip(k as int + 1));
        }
        let items = match (&args[k]).as_list_result() {
            Ok(items) => items,
            Err(e) => return Err(e),
        };
        let ghost out_pre = out@;
        let mut cl = clone_atoms(items);
        let ghost cl_pre = cl@;
        out.append(&mut cl);
        proof {
            crate::atom::atoms_view_len(out_pre);
            crate::atom::atoms_view_len(items@);
            crate::atom::atoms_view_len(cl_pre);
            crate::atom::atoms_view_len(out@);
            assert forall|i: int| 0 <= i < out@.len() implies atoms_view(out@)[i] == (atoms_view(
                out_pre,
            ) + atoms_view(items@))[i] by {
                crate::atom::atoms_view_index(out@, i);
                if i < out_pre.len() {
                    crate::atom::atoms_view_index(out_pre, i);
                } else {
                    crate::atom::atoms_view_index(cl_pre, i - out_pre.len());
                    crate::atom::atoms_view_index(items@, i - out_pre.len());
                    assert(out@[i] == cl_pre[i - out_pre.len()]);
                    assert(atoms_view(cl_pre)[i - out_pre.len()] == atoms_view(items@)[i
                        - out_pre.len()]);
                }
            }
            assert(atoms_view(out@) =~= atoms_view(out_pre) + atoms_view(items@));
            if spec_append_items(views.skip(k as int + 1)) is Ok {
                assert(atoms_view(out@) + spec_append_items(views.skip(k as int + 1))->Ok_0
                    =~= atoms_view(out_pre) + spec_append_items(views.skip(k as int))->Ok_0);
            }
        }
        k += 1;
    }
    proof {
        assert(views.skip(views.len() as int) =~= Seq::<SpecAtom>::empty());
        assert(atoms_view(out@) + Seq::<SpecAtom>::empty() =~= atoms_view(out@));
    }
    Ok(Atom::List(out))
}

/// Builds a pair from exactly two values.
pub fn scheme_cons(env: &mut Environment, scope: usize, args: Vec<Atom>, fuel: u64) -> (r: Result<
    Atom,
    SchemeError,
>)
    ensures
        final(env)@ == old(env)@,
        result_view(r) == spec_cons(atoms_view(args@)),
{
    proof {
        crate::atom::atoms_view_len(args@);
        if args@.len() > 1 {
            crate::atom::atoms_view_index(args@, 0);
            crate::atom::atoms_view_index(args@, 1);
        }
    }
    if args.len() != 2 {
        return Err(SchemeError::InvalidArgumentCount);
    }
    let car = (&args[0]).clone();
    let cdr = (&args[1]).clone();
    Ok(Atom::Cons(Box::new(car), Box::new(cdr)))
}

/// The head of a pair or of a non-empty sequence.
pub fn scheme_car(env: &mut Environment, scope: usize, args: Vec<Atom>, fuel: u64) -> (r: Result<
    Atom,
    SchemeError,
>)
    ensures
        final(env)@ == old(env)@,
        result_view(r) == spec_car(atoms_view(args@)),
{
    proof {
        crate::atom::atoms_view_len(args@);
        if args@.len() > 0 {
            crate::atom::atoms_view_index(args@, 0);
        }
    }
    if args.len() != 1 {
        return Err(SchemeError::InvalidArgumentCount);
    }
    match &args[0] {
        Atom::Cons(car, _) => Ok((**car).clone()),
        Atom::List(items) => {
            if items.len() > 0 {
                proof {
                    crate::atom::atoms_view_index(items@, 0);
                    crate::atom::atoms_view_len(items@);
                }
                Ok((&items[0]).clone())
            } else {
                proof {
                    crate::atom::atoms_view_len(items@);
                }
                Err(SchemeError::ExpectedPair)
            }
        },
        _ => Err(SchemeError::ExpectedPair),
    }
}

/// The tail of a pair, or of a non-empty sequence as a new sequence.
pub fn scheme_cdr(env: &mut Environment, scope: usize, args: Vec<Atom>, fuel: u64) -> (r: Result<
    Atom,
    SchemeError,
>)
    ensures
        final(env)@ == old(env)@,
        result_view(r) == spec_cdr(atoms_view(args@)),
{
    proof {
        crate::atom::atoms_view_len(args@);
        if args@.len() > 0 {
            crate::atom::atoms_view_index(args@, 0);
        }
    }
    if args.len() != 1 {
        return Err(SchemeError::InvalidArgumentCount);
    }
    match &args[0] {
        Atom::Cons(_, cdr) => Ok((**cdr).clone()),
        Atom::List(items) => {
            proof {
                crate::atom::atoms_view_len(items@);
            }
            if items.len() > 0 {
                let mut tail = clone_atoms(items);
                let ghost cloned = tail@;
                tail.remove(0);
                proof {
                    assert(tail@ =~= cloned.drop_first());
                    crate::atom::atoms_view_len(tail@);
                    crate::atom::atoms_view_len(cloned);
                    assert forall|i: int| 0 <= i < tail@.len() implies atoms_view(tail@)[i]
                        == atoms_view(items@).drop_first()[i] by {
                        crate::atom::atoms_view_index(tail@, i);
                        crate::atom::atoms_view_index(cloned, i + 1);
                        crate::atom::atoms_view_index(items@, i + 1);
                    }
                    assert(atoms_view(tail@) =~= atoms_view(items@).drop_first());
                }
                Ok(Atom::List(tail))
            } else {
                Err(SchemeError::ExpectedPair)
            }
        },
        _ => Err(SchemeError::ExpectedPair),
    }
}

/// Identity-like comparison of exactly two values: value equality for
/// booleans and integers, false for every other kind.
pub fn scheme_is_eq(env: &mut Environment, scope: usize, args: Vec<Atom>, fuel: u64) -> (r: Result<
    Atom,
    SchemeError,
>)
    ensures
        final(env)@ == old(env)@,
        result_view(r) == spec_is_eq(atoms_view(args@)),
{
    proof {
        crate::atom::atoms_view_len(args@);
        if args@.len() > 1 {
            crate::atom::atoms_view_index(args@, 0);
            crate::atom::atoms_view_index(args@, 1);
        }
    }
    if args.len() != 2 {
        return Err(SchemeError::InvalidArgumentCount);
    }
    let same = match &args[0] {
        Atom::Bool(_) => atom_equal(&args[0], &args[1]),
        Atom::Int(_) => atom_equal(&args[0], &args[1]),
        _ => false,
    };
    Ok(Atom::Bool(same))
}

/// Deep structural equality of exactly two values.
pub fn scheme_is_equal(env: &mut Environment, scope: usize, args: Vec<Atom>, fuel: u64) -> (r:
    Result<Atom, SchemeError>)
    ensures
        final(env)@ == old(env)@,
        result_view(r) == spec_is_equal(atoms_view(args@)),
{
    proof {
        crate::atom::atoms_view_len(args@);
        if args@.len() > 1 {
            crate::atom::atoms_view_index(args@, 0);
            crate::atom::atoms_view_index(args@, 1);
        }
    }
    if args.len() != 2 {
        return Err(SchemeError::InvalidArgumentCount);
    }
    Ok(Atom::Bool(atom_equal(&args[0], &args[1])))
}

/// Wraps all arguments into one sequence, unconditionally.
pub fn scheme_list(env: &mut Environment, scope: usize, args: Vec<Atom>, fuel: u64) -> (r: Result<
    Atom,
    SchemeError,
>)
    ensures
        final(env)@ == old(env)@,
        result_view(r) == spec_list(atoms_view(args@)),
{
    Ok(Atom::List(args))
}

/// Whether the single argument is a sequence.
pub fn scheme_is_list(env: &mut Environment, scope: usize, args: Vec<Atom>, fuel: u64) -> (r:
    Result<Atom, SchemeError>)
    ensures
        final(env)@ == old(env)@,
        result_view(r) == spec_is_list(atoms_view(args@)),
{
    proof {
        crate::atom::atoms_view_len(args@);
        if args@.len() > 0 {
            crate::atom::atoms_view_index(args@, 0);
        }
    }
    if args.len() != 1 {
        return Err(SchemeError::InvalidArgumentCount);
    }
    match (&args[0]).as_list() {
        Some(_) => Ok(Atom::Bool(true)),
        None => Ok(Atom::Bool(false)),
    }
}

/// The `let` procedure is installed but not implemented; calling it is an
/// error.
pub fn scheme_let(env: &mut Environment, scope: usize, args: Vec<Atom>, fuel: u64) -> (r: Result<
    Atom,
    SchemeError,
>)
    ensures
        final(env)@ == old(env)@,
        result_view(r) == Err::<SpecAtom, SpecError>(SpecError::LetNotDefined),
{
    Err(SchemeError::LetNotDefined)
}

/// What `begin` returns: each argument expression evaluated in the
/// caller's scope in order, yielding the last value.
pub open spec fn spec_begin(env: SpecEnv, scope: int, args: Seq<SpecAtom>, fuel: nat) -> EvalOut
    decreases fuel, 0int,
{
    if args.len() == 0 {
        (env, Err(SpecError::InvalidArgumentCount))
    } else if fuel == 0 {
        (env, Err(SpecError::RecursionLimit))
    } else {
        spec_eval_seq(env, scope, args, (fuel - 1) as nat)
    }
}

/// Evaluates each argument in the caller's scope in order and returns the
/// last value; the arguments arrive already evaluated once by the
/// application step, so self-evaluating values pass through unchanged.
pub fn scheme_begin(env: &mut Environment, scope: usize, args: Vec<Atom>, fuel: u64) -> (r: Result<
    Atom,
    SchemeError,
>)
    requires
        old(env).wf(),
        scope < old(env)@.len(),
    ensures
        ({
            let (e2, r2) = spec_begin(old(env)@, scope as int, atoms_view(args@), fuel as nat);
            final(env)@ == e2 && result_view(r) == r2
        }),
        final(env).wf(),
        old(env)@.len() <= final(env)@.len(),
    decreases fuel,
{
    proof {
        crate::atom::atoms_view_len(args@);
    }
    if args.len() == 0 {
        return Err(SchemeError::InvalidArgumentCount);
    }
    if fuel == 0 {
        return Err(SchemeError::RecursionLimit);
    }
    proof {
        assert(atoms_view(args@).skip(0) =~= atoms_view(args@));
    }
    crate::interpreter::eval_seq_from(env, scope, &args, 0, fuel - 1)
}

/// What `apply` returns: the callable applied to the middle arguments
/// followed by the elements of the trailing sequence, in the caller's
/// scope.
pub open spec fn spec_apply(env: SpecEnv, scope: int, args: Seq<SpecAtom>, fuel: nat) -> EvalOut
    decreases fuel, 0int,
{
    if args.len() < 2 {
        (env, Err(SpecError::InvalidArgumentCount))
    } else {
        match args[0] {
            SpecAtom::Callable(w) => match args.last() {
                SpecAtom::List(tail) => if fuel == 0 {
                    (env, Err(SpecError::RecursionLimit))
                } else {
                    spec_execute_fn(
                        w,
                        args.subrange(1, args.len() - 1) + tail,
                        env,
                        scope,
                        (fuel - 1) as nat,
                    )
                },
                _ => (env, Err(SpecError::NotAList)),
            },
            _ => (env, Err(SpecError::NotCallable)),
        }
    }
}

/// Applies the callable first argument to the middle arguments followed
/// by the elements of the trailing sequence, in the caller's scope.
pub fn scheme_apply(env: &mut Environment, scope: usize, args: Vec<Atom>, fuel: u64) -> (r: Result<
    Atom,
    SchemeError,
>)
    requires
        old(env).wf(),
        scope < old(env)@.len(),
    ensures
        ({
            let (e2, r2) = spec_apply(old(env)@, scope as int, atoms_view(args@), fuel as nat);
            final(env)@ == e2 && result_view(r) == r2
        }),
        final(env).wf(),
        old(env)@.len() <= final(env)@.len(),
    decreases fuel,
{
    let ghost views = atoms_view(args@);
    proof {
        crate::atom::atoms_view_len(args@);
        if args@.len() >= 2 {
            crate::atom::atoms_view_index(args@, 0);
            crate::atom::atoms_view_index(args@, args@.len() - 1);
        }
    }
    if args.len() < 2 {
        return Err(SchemeError::InvalidArgumentCount);
    }
    let func = match (&args[0]).as_callable_result() {
        Ok(w) => w.clone(),
        Err(e) => return Err(e),
    };
    let tail = match (&args[args.len() - 1]).as_list_result() {
        Ok(items) => items,
        Err(e) => return Err(e),
    };
    let mut call_args: Vec<Atom> = Vec::new();
    let mut k: usize = 1;
    #[verifier::loop_isolation(false)]
    while k < args.len() - 1
        invariant
            1 <= k <= args@.len() - 1,
            atoms_view(call_args@) =~= views.subrange(1, k as int),
        decreases args@.len() - k,
    {
        let ghost pre = call_args@;
        call_args.push((&args[k]).clone());
        proof {
            crate::atom::atoms_view_len(pre);
            crate::atom::atoms_view_len(call_args@);
            crate::atom::atoms_view_index(args@, k as int);
            assert forall|i: int| 0 <= i < call_args@.len() implies atoms_view(call_args@)[i]
                == views.subrange(1, k as int + 1)[i] by {
                crate::atom::atoms_view_index(call_args@, i);
                if i < pre.len() {
                    crate::atom::atoms_view_index(pre, i);
                }
            }
            assert(atoms_view(call_args@) =~= views.subrange(1, k as int + 1));
        }
        k += 1;
    }
    let mut tail_clone = clone_atoms(tail);
    let ghost mids = call_args@;
    let ghost tail_pre = tail_clone@;
    call_args.append(&mut tail_clone);
    proof {
        let tail_views = match views.last() {
            SpecAtom::List(t) => t,
            _ => Seq::empty(),
        };
        crate::atom::atoms_view_len(mids);
        crate::atom::atoms_view_len(tail_pre);
        crate::atom::atoms_view_len(call_args@);
        assert forall|i: int| 0 <= i < call_args@.len() implies atoms_view(call_args@)[i] == (
        views.subrange(1, views.len() - 1) + tail_views)[i] by {
            crate::atom::atoms_view_index(call_args@, i);
            if i < mids.len() {
                crate::atom::atoms_view_index(mids, i);
            } else {
                crate::atom::atoms_view_index(tail_pre, i - mids.len());
            }
        }
        assert(atoms_view(call_args@) =~= views.subrange(1, views.len() - 1) + tail_views);
    }
    if fuel == 0 {
        return Err(SchemeError::RecursionLimit);
    }
    execute_fn(func, call_args, env, scope, fuel - 1)
}

} // verus!
