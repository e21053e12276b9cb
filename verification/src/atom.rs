//! The value model: one tagged union serves both as the abstract syntax
//! tree produced by the reader and as the data model of the evaluator.
//!
//! Executable values ([`Atom`]) are modelled in specifications by
//! [`SpecAtom`], a purely mathematical tree over `Seq` and `Seq<char>`;
//! [`atom_view`] maps one to the other.

use vstd::prelude::*;

use crate::errors::{error_view, SchemeError, SpecError};
use crate::numtext::{i32_to_string, int_str};

verus! {

/// A built-in procedure, identified by which routine it is. Two callable
/// values holding the same `NativeFn` reference the identical routine.
#[derive(Clone, Copy, PartialEq, Eq, Structural)]
pub enum NativeFn {
    Add,
    Multiply,
    Subtract,
    Divide,
    Gt,
    Lt,
    Ge,
    Le,
    NumEq,
    Abs,
    Append,
    Apply,
    Begin,
    Car,
    Cdr,
    Cons,
    IsEq,
    IsEqual,
    List,
    IsList,
    Let,
}

/// A user-defined procedure: its name, its ordered parameter list, and
/// its ordered body forms.
pub struct SchemeLambda {
    pub name: String,
    pub arg_list: Vec<String>,
    pub body: Vec<Atom>,
}

/// A callable value: a built-in routine or a user-defined procedure.
pub enum SchemeFnWrap {
    Fn(NativeFn),
    Lambda(SchemeLambda),
}

/// A syntax or runtime value.
pub enum Atom {
    Bool(bool),
    Int(i32),
    Symbol(String),
    Cons(Box<Atom>, Box<Atom>),
    List(Vec<Atom>),
    Callable(SchemeFnWrap),
    Nil,
}

/// The mathematical model of an [`Atom`].
pub enum SpecAtom {
    Bool(bool),
    Int(i32),
    Symbol(Seq<char>),
    Cons(Box<SpecAtom>, Box<SpecAtom>),
    List(Seq<SpecAtom>),
    Callable(SpecFnWrap),
    Nil,
}

/// The mathematical model of a [`SchemeFnWrap`].
pub enum SpecFnWrap {
    Fn(NativeFn),
    Lambda(SpecLambda),
}

/// The mathematical model of a [`SchemeLambda`].
pub struct SpecLambda {
    pub name: Seq<char>,
    pub params: Seq<Seq<char>>,
    pub body: Seq<SpecAtom>,
}

/// The model a value stands for.
pub open spec fn atom_view(a: Atom) -> SpecAtom
    decreases a,
{
    match a {
        Atom::Bool(b) => SpecAtom::Bool(b),
        Atom::Int(i) => SpecAtom::Int(i),
        Atom::Symbol(s) => SpecAtom::Symbol(s@),
        Atom::Cons(car, cdr) => SpecAtom::Cons(
            Box::new(atom_view(*car)),
            Box::new(atom_view(*cdr)),
        ),
        Atom::List(items) => SpecAtom::List(atoms_view(items@)),
        Atom::Callable(w) => SpecAtom::Callable(wrap_view(w)),
        Atom::Nil => SpecAtom::Nil,
    }
}

/// The models of a sequence of values, element by element.
pub open spec fn atoms_view(s: Seq<Atom>) -> Seq<SpecAtom>
    decreases s,
{
    if s.len() == 0 {
        Seq::empty()
    } else {
        seq![atom_view(s[0])] + atoms_view(s.drop_first())
    }
}

/// The model a callable value stands for.
pub open spec fn wrap_view(w: SchemeFnWrap) -> SpecFnWrap
    decreases w,
{
    match w {
        SchemeFnWrap::Fn(op) => SpecFnWrap::Fn(op),
        SchemeFnWrap::Lambda(l) => SpecFnWrap::Lambda(lambda_view(l)),
    }
}

/// The model a user-defined procedure stands for.
pub open spec fn lambda_view(l: SchemeLambda) -> SpecLambda
    decreases l,
{
    SpecLambda { name: l.name@, params: strings_view(l.arg_list@), body: atoms_view(l.body@) }
}

/// The views of a sequence of strings, element by element.
pub open spec fn strings_view(s: Seq<String>) -> Seq<Seq<char>> {
    Seq::new(s.len(), |i: int| s[i]@)
}

pub broadcast proof fn atoms_view_len(s: Seq<Atom>)
    ensures
        #[trigger] atoms_view(s).len() == s.len(),
    decreases s,
{
    if s.len() > 0 {
        atoms_view_len(s.drop_first());
    }
}

pub broadcast proof fn atoms_view_index(s: Seq<Atom>, i: int)
    requires
        0 <= i < s.len(),
    ensures
        #[trigger] atoms_view(s)[i] == atom_view(s[i]),
    decreases s,
{
    atoms_view_len(s);
    if i > 0 {
        atoms_view_index(s.drop_first(), i - 1);
    }
}

/// Element views commute with taking a subrange.
pub proof fn atoms_view_subrange(s: Seq<Atom>, i: int, j: int)
    requires
        0 <= i <= j <= s.len(),
    ensures
        atoms_view(s.subrange(i, j)) == atoms_view(s).subrange(i, j),
{
    atoms_view_len(s);
    atoms_view_len(s.subrange(i, j));
    assert forall|k: int| 0 <= k < j - i implies atoms_view(s.subrange(i, j))[k] == atoms_view(
        s,
    ).subrange(i, j)[k] by {
        atoms_view_index(s.subrange(i, j), k);
        atoms_view_index(s, i + k);
    }
    assert(atoms_view(s.subrange(i, j)) =~= atoms_view(s).subrange(i, j));
}

impl SchemeLambda {
    /// Builds a user-defined procedure from its name, parameter list and
    /// body forms.
    pub fn new(name: String, arg_list: Vec<String>, body: Vec<Atom>) -> (r: SchemeLambda)
        ensures
            lambda_view(r) == (SpecLambda {
                name: name@,
                params: strings_view(arg_list@),
                body: atoms_view(body@),
            }),
    {
        SchemeLambda { name, arg_list, body }
    }
}

/// The result of a typed accessor, modelled over values and errors.
pub type SpecAtomResult = Result<SpecAtom, SpecError>;

/// The model a `Result` of a value stands for.
pub open spec fn result_view(r: Result<Atom, SchemeError>) -> SpecAtomResult {
    match r {
        Ok(a) => Ok(atom_view(a)),
        Err(e) => Err(error_view(e)),
    }
}

impl SpecAtom {
    /// The integer a model holds, if it is an integer.
    pub open spec fn as_int(self) -> Option<i32> {
        match self {
            SpecAtom::Int(i) => Some(i),
            _ => None,
        }
    }

    /// The elements a model holds, if it is a sequence.
    pub open spec fn as_list(self) -> Option<Seq<SpecAtom>> {
        match self {
            SpecAtom::List(items) => Some(items),
            _ => None,
        }
    }

    /// The symbol text a model holds, if it is a symbol.
    pub open spec fn as_symbol(self) -> Option<Seq<char>> {
        match self {
            SpecAtom::Symbol(s) => Some(s),
            _ => None,
        }
    }

    /// The callable a model holds, if it is a callable.
    pub open spec fn as_callable(self) -> Option<SpecFnWrap> {
        match self {
            SpecAtom::Callable(w) => Some(w),
            _ => None,
        }
    }
}

impl Atom {
    /// The integer this value holds, or `None` if it is not an integer.
    pub fn as_int(&self) -> (r: Option<i32>)
        ensures
            r == atom_view(*self).as_int(),
    {
        match self {
            Atom::Int(i) => Some(*i),
            _ => None,
        }
    }

    /// The integer this value holds, or the error that it is not one.
    pub fn as_int_result(&self) -> (r: Result<i32, SchemeError>)
        ensures
            match r {
                Ok(i) => atom_view(*self).as_int() == Some(i),
                Err(e) => atom_view(*self).as_int() is None && error_view(e)
                    == SpecError::NotAnInteger,
            },
    {
        match self.as_int() {
            Some(i) => Ok(i),
            None => Err(SchemeError::NotAnInteger),
        }
    }

    /// The element vector this value holds, or `None` if it is not a
    /// sequence.
    pub fn as_list(&self) -> (r: Option<&Vec<Atom>>)
        ensures
            match r {
                Some(items) => atom_view(*self).as_list() == Some(atoms_view(items@)),
                None => atom_view(*self).as_list() is None,
            },
    {
        match self {
            Atom::List(items) => Some(items),
            _ => None,
        }
    }

    /// The element vector this value holds, or the error that it is not a
    /// sequence.
    pub fn as_list_result(&self) -> (r: Result<&Vec<Atom>, SchemeError>)
        ensures
            match r {
                Ok(items) => atom_view(*self).as_list() == Some(atoms_view(items@)),
                Err(e) => atom_view(*self).as_list() is None && error_view(e)
                    == SpecError::NotAList,
            },
    {
        match self.as_list() {
            Some(items) => Ok(items),
            None => Err(SchemeError::NotAList),
        }
    }

    /// The callable this value holds, or the error that it is not one.
    pub fn as_callable_result(&self) -> (r: Result<&SchemeFnWrap, SchemeError>)
        ensures
            match r {
                Ok(w) => atom_view(*self).as_callable() == Some(wrap_view(*w)),
                Err(e) => atom_view(*self).as_callable() is None && error_view(e)
                    == SpecError::NotCallable,
            },
    {
        match self {
            Atom::Callable(w) => Ok(w),
            _ => Err(SchemeError::NotCallable),
        }
    }

    /// The symbol string this value holds, or `None` if it is not a
    /// symbol.
    pub fn as_symbol(&self) -> (r: Option<&String>)
        ensures
            match r {
                Some(s) => atom_view(*self).as_symbol() == Some(s@),
                None => atom_view(*self).as_symbol() is None,
            },
    {
        match self {
            Atom::Symbol(s) => Some(s),
            _ => None,
        }
    }

    /// The symbol string this value holds, or the error that it is not a
    /// symbol.
    pub fn as_symbol_result(&self) -> (r: Result<&String, SchemeError>)
        ensures
            match r {
                Ok(s) => atom_view(*self).as_symbol() == Some(s@),
                Err(e) => atom_view(*self).as_symbol() is None && error_view(e)
                    == SpecError::NotASymbol,
            },
    {
        match self.as_symbol() {
            Some(s) => Ok(s),
            None => Err(SchemeError::NotASymbol),
        }
    }
}

// ---------------------------------------------------------------------
// Display rendering
// ---------------------------------------------------------------------
/// The display string of a model: booleans as `true`/`false`, integers in
/// decimal, symbols as their text, pairs as `(a . b)`, sequences as their
/// space-separated elements in parentheses, and opaque placeholders for
/// callables and the unit value.
pub open spec fn spec_display(a: SpecAtom) -> Seq<char>
    decreases a,
{
    match a {
        SpecAtom::Bool(b) => if b {
            "true"@
        } else {
            "false"@
        },
        SpecAtom::Int(i) => int_str(i),
        SpecAtom::Symbol(s) => s,
        SpecAtom::Cons(car, cdr) => "("@ + spec_display(*car) + " . "@ + spec_display(*cdr)
            + ")"@,
        SpecAtom::List(items) => "("@ + spec_display_items(items) + ")"@,
        SpecAtom::Callable(_) => "SchemeFn()"@,
        SpecAtom::Nil => "Nil"@,
    }
}

/// The display strings of sequence elements, separated by single spaces.
pub open spec fn spec_display_items(items: Seq<SpecAtom>) -> Seq<char>
    decreases items,
{
    if items.len() == 0 {
        Seq::empty()
    } else if items.len() == 1 {
        spec_display(items[0])
    } else {
        spec_display(items[0]) + " "@ + spec_display_items(items.drop_first())
    }
}

impl Atom {
    /// Renders this value as its display string.
    pub fn display_string(&self) -> (s: String)
        ensures
            s@ == spec_display(atom_view(*self)),
        decreases *self, 0int,
    {
        match self {
            Atom::Bool(b) => if *b {
                String::from_str("true")
            } else {
                String::from_str("false")
            },
            Atom::Int(i) => i32_to_string(*i),
            Atom::Symbol(sym) => sym.clone(),
            Atom::Cons(car, cdr) => {
                let mut s = String::from_str("(");
                let head = (**car).display_string();
                s.append(head.as_str());
                s.append(" . ");
                let tail = (**cdr).display_string();
                s.append(tail.as_str());
                s.append(")");
                proof {
                    assert(s@ =~= spec_display(atom_view(*self)));
                }
                s
            },
            Atom::List(items) => {
                let mut s = String::from_str("(");
                let inner = display_items(items, 0);
                s.append(inner.as_str());
                s.append(")");
                proof {
                    assert(atoms_view(items@).skip(0) =~= atoms_view(items@));
                    assert(s@ =~= spec_display(atom_view(*self)));
                }
                s
            },
            Atom::Callable(_) => String::from_str("SchemeFn()"),
            Atom::Nil => String::from_str("Nil"),
        }
    }
}

/// Renders the elements of a sequence from position `k` on, separated by
/// single spaces.
fn display_items(items: &Vec<Atom>, k: usize) -> (s: String)
    requires
        k <= items@.len(),
    ensures
        s@ == spec_display_items(atoms_view(items@).skip(k as int)),
    decreases *items, items@.len() - k,
{
    proof {
        atoms_view_len(items@);
    }
    if k == items.len() {
        let s = String::new();
        proof {
            assert(atoms_view(items@).skip(k as int) =~= Seq::empty());
        }
        s
    } else {
        let mut s = (&items[k]).display_string();
        proof {
            atoms_view_index(items@, k as int);
        }
        if k + 1 < items.len() {
            s.append(" ");
            let rest = display_items(items, k + 1);
            s.append(rest.as_str());
            proof {
                let views = atoms_view(items@);
                assert(views.skip(k as int).drop_first() =~= views.skip(k as int + 1));
                assert(views.skip(k as int)[0] == views[k as int]);
            }
        } else {
            proof {
                let views = atoms_view(items@);
                assert(views.skip(k as int).len() == 1);
                assert(views.skip(k as int)[0] == views[k as int]);
            }
        }
        s
    }
}

// ---------------------------------------------------------------------
// Cloning
// ---------------------------------------------------------------------
impl Clone for Atom {
    /// A clone stands for the same model as the original.
    fn clone(&self) -> (r: Atom)
        ensures
            atom_view(r) == atom_view(*self),
        decreases *self, 0int,
    {
        match self {
            Atom::Bool(b) => Atom::Bool(*b),
            Atom::Int(i) => Atom::Int(*i),
            Atom::Symbol(s) => Atom::Symbol(s.clone()),
            Atom::Cons(car, cdr) => Atom::Cons(
                Box::new((**car).clone()),
                Box::new((**cdr).clone()),
            ),
            Atom::List(items) => Atom::List(clone_atoms(items)),
            Atom::Callable(w) => Atom::Callable(w.clone()),
            Atom::Nil => Atom::Nil,
        }
    }
}

/// Clones every element of a value vector.
pub(crate) fn clone_atoms(items: &Vec<Atom>) -> (r: Vec<Atom>)
    ensures
        atoms_view(r@) == atoms_view(items@),
    decreases *items, 1int,
{
    let mut out: Vec<Atom> = Vec::new();
    let mut k: usize = 0;
    while k < items.len()
        invariant
            k <= items@.len(),
            out@.len() == k,
            forall|i: int| 0 <= i < k ==> atom_view(out@[i]) == atom_view(items@[i]),
        decreases items@.len() - k,
    {
        let c = (&items[k]).clone();
        out.push(c);
        k += 1;
    }
    proof {
        atoms_view_len(out@);
        atoms_view_len(items@);
        assert forall|i: int| 0 <= i < items@.len() implies atoms_view(out@)[i] == atoms_view(
            items@,
        )[i] by {
            atoms_view_index(out@, i);
            atoms_view_index(items@, i);
        }
        assert(atoms_view(out@) =~= atoms_view(items@));
    }
    out
}

impl Clone for SchemeFnWrap {
    /// A clone stands for the same model as the original.
    fn clone(&self) -> (r: SchemeFnWrap)
        ensures
            wrap_view(r) == wrap_view(*self),
        decreases *self, 2int,
    {
        match self {
            SchemeFnWrap::Fn(op) => SchemeFnWrap::Fn(*op),
            SchemeFnWrap::Lambda(l) => SchemeFnWrap::Lambda(l.clone()),
        }
    }
}

impl Clone for SchemeLambda {
    /// A clone stands for the same model as the original.
    fn clone(&self) -> (r: SchemeLambda)
        ensures
            lambda_view(r) == lambda_view(*self),
        decreases *self, 1int,
    {
        let body = clone_atoms(&self.body);
        let arg_list = clone_strings(&self.arg_list);
        SchemeLambda { name: self.name.clone(), arg_list, body }
    }
}

/// Clones every element of a string vector; string clones are exact.
fn clone_strings(items: &Vec<String>) -> (r: Vec<String>)
    ensures
        r@ == items@,
{
    let mut out: Vec<String> = Vec::new();
    let mut k: usize = 0;
    while k < items.len()
        invariant
            k <= items@.len(),
            out@ =~= items@.take(k as int),
        decreases items@.len() - k,
    {
        let c = (&items[k]).clone();
        out.push(c);
        k += 1;
        proof {
            assert(out@ =~= items@.take(k as int));
        }
    }
    proof {
        assert(out@ =~= items@);
    }
    out
}

// ---------------------------------------------------------------------
// Structural equality
// ---------------------------------------------------------------------
/// Decides deep structural equality of two values: exactly whether their
/// models are equal.
pub fn atom_equal(a: &Atom, b: &Atom) -> (r: bool)
    ensures
        r == (atom_view(*a) == atom_view(*b)),
    decreases *a, 0int,
{
    match (a, b) {
        (Atom::Bool(x), Atom::Bool(y)) => *x == *y,
        (Atom::Int(x), Atom::Int(y)) => *x == *y,
        (Atom::Symbol(x), Atom::Symbol(y)) => *x == *y,
        (Atom::Cons(car1, cdr1), Atom::Cons(car2, cdr2)) => {
            atom_equal(&**car1, &**car2) && atom_equal(&**cdr1, &**cdr2)
        },
        (Atom::List(v1), Atom::List(v2)) => atoms_equal(v1, v2),
        (Atom::Callable(w1), Atom::Callable(w2)) => wrap_equal(w1, w2),
        (Atom::Nil, Atom::Nil) => true,
        _ => false,
    }
}

/// Decides element-wise structural equality of two value vectors.
fn atoms_equal(v1: &Vec<Atom>, v2: &Vec<Atom>) -> (r: bool)
    ensures
        r == (atoms_view(v1@) == atoms_view(v2@)),
    decreases *v1, 1int,
{
    proof {
        atoms_view_len(v1@);
        atoms_view_len(v2@);
    }
    if v1.len() != v2.len() {
        return false;
    }
    let mut k: usize = 0;
    while k < v1.len()
        invariant
            v1@.len() == v2@.len(),
            k <= v1@.len(),
            forall|i: int| 0 <= i < k ==> atom_view(v1@[i]) == atom_view(v2@[i]),
        decreases v1@.len() - k,
    {
        if !atom_equal(&v1[k], &v2[k]) {
            proof {
                atoms_view_index(v1@, k as int);
                atoms_view_index(v2@, k as int);
            }
            return false;
        }
        k += 1;
    }
    proof {
        atoms_view_len(v1@);
        atoms_view_len(v2@);
        assert forall|i: int| 0 <= i < v1@.len() implies atoms_view(v1@)[i] == atoms_view(
            v2@,
        )[i] by {
            atoms_view_index(v1@, i);
            atoms_view_index(v2@, i);
        }
        assert(atoms_view(v1@) =~= atoms_view(v2@));
    }
    true
}

/// Decides structural equality of two callables: built-ins are equal
/// exactly when they are the identical routine, a built-in never equals a
/// user-defined procedure, and user-defined procedures compare by name,
/// parameter list and body.
fn wrap_equal(w1: &SchemeFnWrap, w2: &SchemeFnWrap) -> (r: bool)
    ensures
        r == (wrap_view(*w1) == wrap_view(*w2)),
    decreases *w1, 2int,
{
    match (w1, w2) {
        (SchemeFnWrap::Fn(op1), SchemeFnWrap::Fn(op2)) => *op1 == *op2,
        (SchemeFnWrap::Lambda(l1), SchemeFnWrap::Lambda(l2)) => {
            let names_equal = l1.name == l2.name;
            let params_equal = strings_equal(&l1.arg_list, &l2.arg_list);
            names_equal && params_equal && atoms_equal(&l1.body, &l2.body)
        },
        _ => false,
    }
}

/// Decides element-wise equality of two string vectors.
fn strings_equal(v1: &Vec<String>, v2: &Vec<String>) -> (r: bool)
    ensures
        r == (strings_view(v1@) == strings_view(v2@)),
{
    if v1.len() != v2.len() {
        proof {
            assert(strings_view(v1@).len() != strings_view(v2@).len());
        }
        return false;
    }
    let mut k: usize = 0;
    while k < v1.len()
        invariant
            v1@.len() == v2@.len(),
            k <= v1@.len(),
            forall|i: int| 0 <= i < k ==> v1@[i]@ == v2@[i]@,
        decreases v1@.len() - k,
    {
        if !(v1[k] == v2[k]) {
            proof {
                assert(strings_view(v1@)[k as int] != strings_view(v2@)[k as int]);
            }
            return false;
        }
        k += 1;
    }
    proof {
        assert(strings_view(v1@) =~= strings_view(v2@));
    }
    true
}

} // verus!
