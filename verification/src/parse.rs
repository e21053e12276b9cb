//! The reader: tokenizing source text and parsing the token sequence
//! into one value tree.
//!
//! Tokenization separates the three special characters `(`, `)` and `'`
//! as single-character tokens and splits everything else on whitespace;
//! [`spec_tokenize`] is its mathematical model. Parsing consumes tokens
//! destructively from the front; [`spec_parse`] returns both the parsed
//! result and the remaining tokens, so every executable path is pinned
//! down exactly, the deterministic failures on unbalanced input included.

use vstd::prelude::*;

use crate::atom::{atom_view, atoms_view, result_view, strings_view, Atom, SpecAtom};
use crate::errors::{error_view, SchemeError, SpecError};
use crate::numtext::{int_token_val, is_int_token, parse_i32, push_char};

verus! {

/// Whitespace that separates tokens.
pub open spec fn is_token_space(c: char) -> bool {
    c == ' ' || c == '\t' || c == '\n' || c == '\r'
}

/// The three characters that always form single-character tokens.
pub open spec fn is_separator(c: char) -> bool {
    c == '(' || c == ')' || c == '\''
}

/// The pending word as a token list: nothing if it is empty.
pub open spec fn maybe_word(cur: Seq<char>) -> Seq<Seq<char>> {
    if cur.len() == 0 {
        Seq::empty()
    } else {
        seq![cur]
    }
}

/// The tokens of the remaining input, given the word read so far.
pub open spec fn spec_tokenize_from(s: Seq<char>, cur: Seq<char>) -> Seq<Seq<char>>
    decreases s.len(),
{
    if s.len() == 0 {
        maybe_word(cur)
    } else if is_token_space(s[0]) {
        maybe_word(cur) + spec_tokenize_from(s.drop_first(), Seq::empty())
    } else if is_separator(s[0]) {
        maybe_word(cur) + seq![seq![s[0]]] + spec_tokenize_from(s.drop_first(), Seq::empty())
    } else {
        spec_tokenize_from(s.drop_first(), cur.push(s[0]))
    }
}

/// The token sequence of a source text.
pub open spec fn spec_tokenize(s: Seq<char>) -> Seq<Seq<char>> {
    spec_tokenize_from(s, Seq::empty())
}

/// Splits source text into tokens: `(`, `)` and `'` stand alone, and
/// everything between whitespace becomes one token. Pure; always
/// succeeds, possibly with an empty token sequence.
pub fn tokenize(input: &str) -> (toks: Vec<String>)
    ensures
        strings_view(toks@) == spec_tokenize(input@),
{
    let n = input.unicode_len();
    let mut toks: Vec<String> = Vec::new();
    let mut cur = String::new();
    let mut cur_nonempty: bool = false;
    let mut i: usize = 0;
    proof {
        assert(input@.skip(0) =~= input@);
        assert(strings_view(toks@) =~= Seq::<Seq<char>>::empty());
        assert(strings_view(toks@) + spec_tokenize_from(input@.skip(0), cur@) =~= spec_tokenize(
            input@,
        ));
    }
    #[verifier::loop_isolation(false)]
    while i < n
        invariant
            i <= n,
            cur_nonempty == (cur@.len() > 0),
            spec_tokenize(input@) == strings_view(toks@) + spec_tokenize_from(
                input@.skip(i as int),
                cur@,
            ),
        decreases n - i,
    {
        let ghost pre_toks = toks@;
        let ghost pre_cur = cur@;
        let ghost rest = input@.skip(i as int);
        let c = input.get_char(i);
        proof {
            assert(rest[0] == input@[i as int]);
            assert(rest.drop_first() =~= input@.skip(i as int + 1));
        }
        if c == ' ' || c == '\t' || c == '\n' || c == '\r' {
            if cur_nonempty {
                toks.push(cur);
                cur = String::new();
                cur_nonempty = false;
            }
            proof {
                assert(is_token_space(rest[0]));
                assert(cur@ =~= Seq::<char>::empty());
                assert(spec_tokenize_from(rest, pre_cur) == maybe_word(pre_cur)
                    + spec_tokenize_from(rest.drop_first(), Seq::empty()));
                assert(strings_view(toks@) =~= strings_view(pre_toks) + maybe_word(pre_cur));
                assert(strings_view(toks@) + spec_tokenize_from(rest.drop_first(), cur@)
                    =~= strings_view(pre_toks) + spec_tokenize_from(rest, pre_cur));
            }
        } else if c == '(' || c == ')' || c == '\'' {
            if cur_nonempty {
                toks.push(cur);
                cur = String::new();
                cur_nonempty = false;
            }
            let mut sep = String::new();
            push_char(&mut sep, c);
            proof {
                assert(sep@ =~= seq![c]);
            }
            toks.push(sep);
            proof {
                assert(is_separator(rest[0]));
                assert(cur@ =~= Seq::<char>::empty());
                assert(spec_tokenize_from(rest, pre_cur) == maybe_word(pre_cur) + seq![
                    seq![rest[0]],
                ] + spec_tokenize_from(rest.drop_first(), Seq::empty()));
                assert(strings_view(toks@) =~= strings_view(pre_toks) + maybe_word(pre_cur)
                    + seq![seq![c]]);
                assert(strings_view(toks@) + spec_tokenize_from(rest.drop_first(), cur@)
                    =~= strings_view(pre_toks) + spec_tokenize_from(rest, pre_cur));
            }
        } else {
            push_char(&mut cur, c);
            cur_nonempty = true;
            proof {
                assert(spec_tokenize_from(rest.drop_first(), cur@) == spec_tokenize_from(
                    rest,
                    pre_cur,
                ));
            }
        }
        i += 1;
    }
    proof {
        assert(input@.skip(n as int) =~= Seq::<char>::empty());
    }
    if cur_nonempty {
        toks.push(cur);
        proof {
            assert(strings_view(toks@) =~= spec_tokenize(input@));
        }
    } else {
        proof {
            assert(strings_view(toks@) =~= spec_tokenize(input@));
        }
    }
    toks
}

/// The value a single non-separator token denotes: a 32-bit integer
/// literal when it reads as one, otherwise a symbol.
pub open spec fn spec_make_atom(t: Seq<char>) -> SpecAtom {
    if is_int_token(t) {
        SpecAtom::Int(int_token_val(t) as i32)
    } else {
        SpecAtom::Symbol(t)
    }
}

/// Reads one non-separator token as an integer or a symbol; never fails.
pub fn make_atom(input: &str) -> (r: Result<Atom, SchemeError>)
    ensures
        result_view(r) == Ok::<SpecAtom, SpecError>(spec_make_atom(input@)),
{
    match parse_i32(input) {
        Some(i) => Ok(Atom::Int(i)),
        None => Ok(Atom::Symbol(String::from_str(input))),
    }
}

/// The parse of a token sequence: one form read from the front, and the
/// tokens left over.
///
/// The quote token rewrites `'(...)` into a call of the list-building
/// procedure, so quoted contents are still evaluated.
pub open spec fn spec_parse(t: Seq<Seq<char>>) -> (Result<SpecAtom, SpecError>, Seq<Seq<char>>)
    decreases t.len(), 0int,
{
    if t.len() == 0 {
        (Err(SpecError::EmptyProgram), t)
    } else if t[0] == seq!['('] {
        let (r, rest) = spec_parse_list(t.drop_first());
        match r {
            Ok(items) => (Ok(SpecAtom::List(items)), rest),
            Err(e) => (Err(e), rest),
        }
    } else if t[0] == seq!['\''] {
        if t.len() >= 2 && t[1] == seq!['('] {
            let (r, rest) = spec_parse_list(t.skip(2));
            match r {
                Ok(items) => (Ok(SpecAtom::List(seq![SpecAtom::Symbol("list"@)] + items)), rest),
                Err(e) => (Err(e), rest),
            }
        } else if t.len() >= 2 {
            (Err(SpecError::ExpectedOpenParenAfterQuote), t.skip(2))
        } else {
            (Err(SpecError::ExpectedOpenParenAfterQuote), t.skip(1))
        }
    } else if t[0] == seq![')'] {
        (Err(SpecError::UnexpectedCloseParen), t.drop_first())
    } else {
        (Ok(spec_make_atom(t[0])), t.drop_first())
    }
}

/// The parse of list elements up to and including the closing
/// parenthesis, and the tokens left over. Fails with the missing-paren
/// error exactly when the tokens run out first.
pub open spec fn spec_parse_list(t: Seq<Seq<char>>) -> (Result<
    Seq<SpecAtom>,
    SpecError,
>, Seq<Seq<char>>)
    decreases t.len(), 1int,
{
    if t.len() == 0 {
        (Err(SpecError::MissingCloseParen), t)
    } else if t[0] == seq![')'] {
        (Ok(Seq::<SpecAtom>::empty()), t.drop_first())
    } else {
        let (r0, rest0) = spec_parse(t);
        match r0 {
            Err(e) => (Err(e), rest0),
            Ok(first) => {
                if rest0.len() == 0 {
                    (Err(SpecError::MissingCloseParen), rest0)
                } else if rest0.len() < t.len() {
                    let (r1, rest1) = spec_parse_list(rest0);
                    match r1 {
                        Ok(items) => (Ok(seq![first] + items), rest1),
                        Err(e) => (Err(e), rest1),
                    }
                } else {
                    // never reached: parsing a form always consumes a token,
                    // as the executable parser's contract shows; this branch
                    // only makes the recursion visibly well-founded
                    (Err(SpecError::MissingCloseParen), rest0)
                }
            },
        }
    }
}

/// Whether a token is exactly the one-character token `c`.
fn token_is_char(s: &String, c: char) -> (r: bool)
    ensures
        r == (s@ == seq![c]),
{
    let n = s.as_str().unicode_len();
    if n != 1 {
        proof {
            assert(s@ != seq![c]);
        }
        false
    } else {
        let c0 = s.as_str().get_char(0);
        proof {
            if c0 == c {
                assert(s@ =~= seq![c]);
            }
        }
        c0 == c
    }
}

/// Parses one form, consuming tokens destructively from the front.
pub fn read_from_tokens(tokens: &mut Vec<String>) -> (r: Result<Atom, SchemeError>)
    ensures
        result_view(r) == spec_parse(strings_view(old(tokens)@)).0,
        strings_view(final(tokens)@) == spec_parse(strings_view(old(tokens)@)).1,
        final(tokens)@.len() <= old(tokens)@.len(),
        old(tokens)@.len() > 0 ==> final(tokens)@.len() < old(tokens)@.len(),
    decreases old(tokens)@.len(), 0int,
{
    let ghost t0 = strings_view(tokens@);
    if tokens.len() == 0 {
        proof {
            assert(strings_view(tokens@) =~= t0);
        }
        return Err(SchemeError::EmptyProgram);
    }
    let token = tokens.remove(0);
    proof {
        assert(t0[0] == token@);
        assert(strings_view(tokens@) =~= t0.drop_first());
    }
    if token_is_char(&token, '(') {
        match read_list(tokens) {
            Ok(list) => Ok(Atom::List(list)),
            Err(e) => Err(e),
        }
    } else if token_is_char(&token, '\'') {
        if tokens.len() == 0 {
            return Err(SchemeError::ExpectedOpenParenAfterQuote);
        }
        let second = tokens.remove(0);
        proof {
            assert(t0.drop_first()[0] == second@);
            assert(t0[1] == second@);
            assert(strings_view(tokens@) =~= t0.skip(2));
        }
        if !token_is_char(&second, '(') {
            return Err(SchemeError::ExpectedOpenParenAfterQuote);
        }
        let mut list = match read_list(tokens) {
            Ok(list) => list,
            Err(e) => return Err(e),
        };
        let ghost parsed = list@;
        let list_sym = Atom::Symbol(String::from_str("list"));
        proof {
            assert(atom_view(list_sym) == SpecAtom::Symbol("list"@));
        }
        list.insert(0, list_sym);
        proof {
            reveal_with_fuel(atoms_view, 2);
            assert(list@.drop_first() =~= parsed);
            assert(atoms_view(list@) =~= seq![SpecAtom::Symbol("list"@)] + atoms_view(parsed));
        }
        Ok(Atom::List(list))
    } else if token_is_char(&token, ')') {
        Err(SchemeError::UnexpectedCloseParen)
    } else {
        make_atom(token.as_str())
    }
}

/// Parses list elements up to and including the closing parenthesis.
pub fn read_list(tokens: &mut Vec<String>) -> (r: Result<Vec<Atom>, SchemeError>)
    ensures
        (match r {
            Ok(items) => spec_parse_list(strings_view(old(tokens)@)).0 == Ok::<
                Seq<SpecAtom>,
                SpecError,
            >(atoms_view(items@)),
            Err(e) => spec_parse_list(strings_view(old(tokens)@)).0 == Err::<
                Seq<SpecAtom>,
                SpecError,
            >(error_view(e)),
        }),
        strings_view(final(tokens)@) == spec_parse_list(strings_view(old(tokens)@)).1,
        final(tokens)@.len() <= old(tokens)@.len(),
    decreases old(tokens)@.len(), 1int,
{
    let ghost t0 = strings_view(tokens@);
    if tokens.len() == 0 {
        proof {
            assert(strings_view(tokens@) =~= t0);
        }
        return Err(SchemeError::MissingCloseParen);
    }
    if token_is_char(&tokens[0], ')') {
        tokens.remove(0);
        proof {
            assert(strings_view(tokens@) =~= t0.drop_first());
        }
        let empty: Vec<Atom> = Vec::new();
        proof {
            assert(atoms_view(empty@) =~= Seq::<SpecAtom>::empty());
        }
        return Ok(empty);
    }
    let first = match read_from_tokens(tokens) {
        Ok(a) => a,
        Err(e) => return Err(e),
    };
    if tokens.len() == 0 {
        proof {
            assert(strings_view(tokens@) =~= Seq::<Seq<char>>::empty());
            assert(spec_parse_list(t0).1 =~= strings_view(tokens@));
        }
        return Err(SchemeError::MissingCloseParen);
    }
    let mut rest = match read_list(tokens) {
        Ok(v) => v,
        Err(e) => return Err(e),
    };
    let ghost tail = rest@;
    let ghost first_model = atom_view(first);
    rest.insert(0, first);
    proof {
        assert(rest@.drop_first() =~= tail);
        assert(atoms_view(rest@) =~= seq![first_model] + atoms_view(tail));
    }
    Ok(rest)
}

} // verus!
