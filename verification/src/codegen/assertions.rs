//! The assertions that types can cross threads.

use vstd::prelude::*;
use crate::analyze::Analysis;

verus! {

/// An assertion on a type, which is known by its number.
#[derive(Clone, Copy, PartialEq, Eq, Structural, Debug)]
pub enum Assertion {
    /// Values of the type may move between threads.
    Send(usize),
    /// Values of the type may be shared between threads.
    Sync(usize),
}

/// The lists of the first `n` cores, one after another.
pub open spec fn flat(table: Seq<Vec<usize>>, n: int) -> Seq<usize>
    decreases n,
{
    if n <= 0 {
        Seq::empty()
    } else {
        flat(table, n - 1) + table[n - 1]@
    }
}

/// The entries of `list`, each where it first occurs.
pub open spec fn distinct(list: Seq<usize>) -> Seq<usize>
    decreases list.len(),
{
    if list.len() == 0 {
        Seq::empty()
    } else if distinct(list.drop_last()).contains(list.last()) {
        distinct(list.drop_last())
    } else {
        distinct(list.drop_last()).push(list.last())
    }
}

/// The assertions: one for each type that some core must be able to send,
/// then one for each type that some core must be able to share.
pub open spec fn spec_codegen(analysis: &Analysis) -> Seq<Assertion> {
    distinct(flat(analysis.parent.send_types@, analysis.parent.send_types@.len() as int)).map_values(
        |ty: usize| Assertion::Send(ty),
    ) + distinct(
        flat(analysis.parent.sync_types@, analysis.parent.sync_types@.len() as int),
    ).map_values(|ty: usize| Assertion::Sync(ty))
}

/// In a list of distinct entries nothing occurs twice, and it holds what the
/// list it was made from holds.
pub proof fn lemma_distinct(list: Seq<usize>)
    ensures
        distinct(list).no_duplicates(),
        forall|x: usize| distinct(list).contains(x) <==> list.contains(x),
    decreases list.len(),
{
    if list.len() > 0 {
        let rest = list.drop_last();
        lemma_distinct(rest);
        let d = distinct(rest);
        let r = distinct(list);
        assert forall|x: usize| r.contains(x) <==> list.contains(x) by {
            if r.contains(x) {
                let j = choose|j: int| 0 <= j < r.len() && r[j] == x;
                if j < d.len() {
                    assert(d[j] == x);
                    assert(d.contains(x));
                    assert(distinct(rest).contains(x));
                    assert(rest.contains(x));
                    let k = choose|k: int| 0 <= k < rest.len() && rest[k] == x;
                    assert(list[k] == x);
                } else {
                    assert(list[list.len() - 1] == x);
                }
            }
            if list.contains(x) {
                let k = choose|k: int| 0 <= k < list.len() && list[k] == x;
                if k < rest.len() {
                    assert(rest[k] == x);
                    assert(rest.contains(x));
                    assert(distinct(rest).contains(x));
                    assert(d.contains(x));
                    let j = choose|j: int| 0 <= j < d.len() && d[j] == x;
                    assert(r[j] == x);
                } else if d.contains(x) {
                    let j = choose|j: int| 0 <= j < d.len() && d[j] == x;
                    assert(r[j] == x);
                } else {
                    assert(r[r.len() - 1] == x);
                }
            }
        }
    }
}

fn collect(table: &Vec<Vec<usize>>) -> (out: Vec<usize>)
    ensures
        out@ == distinct(flat(table@, table@.len() as int)),
{
    let mut out: Vec<usize> = Vec::new();
    let mut c: usize = 0;
    assert(flat(table@, 0) =~= Seq::empty());
    while c < table.len()
        invariant
            c <= table@.len(),
            out@ == distinct(flat(table@, c as int)),
        decreases table@.len() - c,
    {
        let list = &table[c];
        let ghost base = flat(table@, c as int);
        let mut k: usize = 0;
        assert(base + list@.subrange(0, 0) =~= base);
        while k < list.len()
            invariant
                c < table@.len(),
                *list == table@[c as int],
                base == flat(table@, c as int),
                k <= list@.len(),
                out@ == distinct(base + list@.subrange(0, k as int)),
            decreases list@.len() - k,
        {
            let ty: usize = list[k];
            let ghost prev = base + list@.subrange(0, k as int);
            let ghost next = base + list@.subrange(0, k + 1);
            assert(next.drop_last() =~= prev);
            assert(next.last() == ty);
            if !crate::ast::contains(&out, ty) {
                out.push(ty);
            }
            k += 1;
        }
        assert(list@.subrange(0, k as int) =~= list@);
        c += 1;
    }
    out
}

/// Creates the assertions.
pub fn codegen(analysis: &Analysis) -> (stmts: Vec<Assertion>)
    ensures
        stmts@ == spec_codegen(analysis),
{
    let mut stmts: Vec<Assertion> = Vec::new();
    let send = collect(&analysis.parent.send_types);
    let mut i: usize = 0;
    while i < send.len()
        invariant
            i <= send@.len(),
            stmts@ == send@.map_values(|ty: usize| Assertion::Send(ty)).subrange(0, i as int),
        decreases send@.len() - i,
    {
        stmts.push(Assertion::Send(send[i]));
        i += 1;
        assert(stmts@ =~= send@.map_values(|ty: usize| Assertion::Send(ty)).subrange(0, i as int));
    }
    let ghost first = stmts@;
    assert(first =~= send@.map_values(|ty: usize| Assertion::Send(ty)));
    let sync = collect(&analysis.parent.sync_types);
    let mut j: usize = 0;
    assert(stmts@ =~= first + sync@.map_values(|ty: usize| Assertion::Sync(ty)).subrange(0, 0));
    while j < sync.len()
        invariant
            j <= sync@.len(),
            stmts@ == first + sync@.map_values(|ty: usize| Assertion::Sync(ty)).subrange(
                0,
                j as int,
            ),
        decreases sync@.len() - j,
    {
        stmts.push(Assertion::Sync(sync[j]));
        j += 1;
        assert(stmts@ =~= first + sync@.map_values(|ty: usize| Assertion::Sync(ty)).subrange(
            0,
            j as int,
        ));
    }
    assert(sync@.map_values(|ty: usize| Assertion::Sync(ty)).subrange(0, j as int)
        =~= sync@.map_values(|ty: usize| Assertion::Sync(ty)));
    stmts
}

} // verus!
