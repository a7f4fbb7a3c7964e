//! The entry point of a program: what its `main` function may look like, and
//! which of its statements become static variables handed to it.

use vstd::prelude::*;

verus! {

/// What a function returns.
#[derive(Clone, Copy, PartialEq, Eq, Structural, Debug)]
pub enum Output {
    /// No return type is written.
    Default,
    /// `!`
    Never,
    /// `()`
    Unit,
    /// Any other type.
    Other,
}

/// The signature of a function, as far as the entry point cares.
#[derive(Clone, Copy, PartialEq, Eq, Structural, Debug)]
pub struct Signature {
    /// Whether the function has no visibility qualifier.
    pub inherited: bool,
    /// Whether the function is `const`.
    pub constness: bool,
    /// Whether the function is `async`.
    pub asyncness: bool,
    /// Whether the function names an ABI.
    pub abi: bool,
    /// Whether the function is `unsafe`.
    pub unsafety: bool,
    /// How many generic parameters the function has.
    pub generics: usize,
    /// Whether the function has a `where` clause.
    pub where_clause: bool,
    /// Whether the function is variadic.
    pub variadic: bool,
    /// How many inputs the function takes.
    pub inputs: usize,
    /// What the function returns.
    pub output: Output,
}

/// A statement at the start of the entry point.
#[derive(Clone, Copy, PartialEq, Eq, Structural, Debug)]
pub enum Stmt {
    /// A `static mut` item.
    StaticMut,
    /// A `static` item that cannot be changed.
    Static,
    /// Anything else.
    Other,
}

/// Why a function cannot be the entry point.
#[derive(Clone, Copy, PartialEq, Eq, Structural, Debug)]
pub enum Error {
    /// The attribute was given arguments; it accepts none.
    Arguments,
    /// The function does not have the signature `fn() [-> !]`.
    Signature,
}

/// A plain function: private, neither `const`, `async` nor `unsafe`, with
/// the Rust ABI, without generics, bounds or variadic arguments.
pub open spec fn plain(item: Signature) -> bool {
    item.inherited && !item.constness && !item.asyncness && !item.abi && !item.unsafety
        && item.generics == 0 && !item.where_clause && !item.variadic
}

/// Checks that a function is plain.
pub fn check_signature(item: &Signature) -> (r: bool)
    ensures
        r == plain(*item),
{
    item.inherited && !item.constness && !item.asyncness && !item.abi && !item.unsafety
        && item.generics == 0 && !item.where_clause && !item.variadic
}

/// Whether the function never returns.
pub fn is_bottom(ty: Output) -> (r: bool)
    ensures
        r == (ty == Output::Never),
{
    match ty {
        Output::Never => true,
        _ => false,
    }
}

/// Whether the function returns nothing.
pub fn is_unit(ty: Output) -> (r: bool)
    ensures
        r == (ty == Output::Unit || ty == Output::Default),
{
    match ty {
        Output::Unit => true,
        Output::Default => true,
        _ => false,
    }
}

/// How many statements at the start of `stmts` are `static mut` items.
pub open spec fn leading_statics(stmts: Seq<Stmt>) -> nat
    decreases stmts.len(),
{
    if stmts.len() > 0 && stmts[0] == Stmt::StaticMut {
        1 + leading_statics(stmts.drop_first())
    } else {
        0
    }
}

/// The leading statements are `static mut` items, and the statement after
/// them, if any, is none.
pub proof fn lemma_leading_statics(stmts: Seq<Stmt>)
    ensures
        leading_statics(stmts) <= stmts.len(),
        forall|i: int| 0 <= i < leading_statics(stmts) ==> stmts[i] == Stmt::StaticMut,
        leading_statics(stmts) < stmts.len() ==> stmts[leading_statics(stmts) as int]
            != Stmt::StaticMut,
    decreases stmts.len(),
{
    if stmts.len() > 0 && stmts[0] == Stmt::StaticMut {
        let rest = stmts.drop_first();
        lemma_leading_statics(rest);
        assert forall|i: int| 0 <= i < leading_statics(stmts) implies stmts[i]
            == Stmt::StaticMut by {
            if i > 0 {
                assert(rest[i - 1] == stmts[i]);
            }
        }
        if leading_statics(stmts) < stmts.len() {
            assert(rest[leading_statics(rest) as int] == stmts[leading_statics(stmts) as int]);
        }
    }
}

/// Extracts the `static mut` items from the beginning of the statements:
/// the result says how many there are. They become parameters of the entry
/// point; the statements from the first other statement on stay its body.
pub fn extract_statics(stmts: &Vec<Stmt>) -> (n: usize)
    ensures
        n == leading_statics(stmts@),
        n <= stmts@.len(),
{
    let mut n: usize = 0;
    assert(stmts@.subrange(0, stmts@.len() as int) =~= stmts@);
    while n < stmts.len() && stmts[n] == Stmt::StaticMut
        invariant
            n <= stmts@.len(),
            leading_statics(stmts@) == n + leading_statics(stmts@.subrange(n as int, stmts@.len() as int)),
        decreases stmts@.len() - n,
    {
        proof {
            let tail = stmts@.subrange(n as int, stmts@.len() as int);
            assert(tail[0] == stmts@[n as int]);
            assert(tail.drop_first() =~= stmts@.subrange(n + 1, stmts@.len() as int));
        }
        n += 1;
    }
    proof {
        let tail = stmts@.subrange(n as int, stmts@.len() as int);
        if n < stmts@.len() {
            assert(tail[0] == stmts@[n as int]);
        }
    }
    n
}

/// What the attribute makes of a function: the number of its leading
/// `static mut` items, or why the function cannot be the entry point.
pub open spec fn spec_entry(no_args: bool, f: Signature, stmts: Seq<Stmt>) -> Result<nat, Error> {
    if !no_args {
        Err(Error::Arguments)
    } else if !(plain(f) && f.inputs == 0 && (f.output == Output::Never || f.output
        == Output::Unit || f.output == Output::Default)) {
        Err(Error::Signature)
    } else {
        Ok(leading_statics(stmts))
    }
}

/// Checks the function that is to be the entry point and finds the static
/// variables that it declares for itself.
pub fn entry(no_args: bool, f: &Signature, stmts: &Vec<Stmt>) -> (r: Result<usize, Error>)
    ensures
        match spec_entry(no_args, *f, stmts@) {
            Ok(n) => r is Ok && r->Ok_0 == n,
            Err(e) => r is Err && r->Err_0 == e,
        },
{
    if !no_args {
        return Err(Error::Arguments);
    }
    let valid_signature = check_signature(f) && f.inputs == 0 && (is_bottom(f.output) || is_unit(
        f.output,
    ));
    if !valid_signature {
        return Err(Error::Signature);
    }
    Ok(extract_statics(stmts))
}

} // verus!
