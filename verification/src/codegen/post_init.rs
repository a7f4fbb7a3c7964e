//! The bootstrap after `init`: what core 0 does before its tasks may run.

use vstd::prelude::*;
use crate::analyze::Analysis;
use crate::ast::App;
use crate::codegen::childs::{self, Stmt};

verus! {

/// Whether some core waits for the `init` of core `sender`.
pub open spec fn is_sender(analysis: &Analysis, sender: u8) -> bool {
    exists|c: int|
        0 <= c < analysis.parent.initialization_barriers@.len()
            && (#[trigger] analysis.parent.initialization_barriers@[c])@.contains(sender)
}

/// The cores below `n` that some core waits for, ascending: each of them has
/// a barrier.
pub open spec fn senders(n: int, analysis: &Analysis) -> Seq<u8>
    decreases n,
{
    if n <= 0 {
        Seq::empty()
    } else if is_sender(analysis, (n - 1) as u8) {
        senders(n - 1, analysis).push((n - 1) as u8)
    } else {
        senders(n - 1, analysis)
    }
}

/// The statements of core 0 after its `init`: write the late resources that
/// `init` returned, release the barrier of core 0 where a core waits for it,
/// wait for the barriers of the cores whose late resources core 0 reads, and
/// unblock the signals of core 0.
pub open spec fn spec_stmts(analysis: &Analysis) -> Seq<Stmt> {
    childs::writes(0, analysis) + childs::release(0, analysis) + childs::waits(0, analysis)
        + seq![childs::unmask(0, analysis)]
}

/// The bootstrap barrier of core 0.
///
/// After its `init`, core 0 first writes the late resources that `init`
/// returned, then releases its barrier where a core waits for it, and
/// unblocks its own signals last, after it has waited for the barrier of
/// every core whose late resources it reads.
pub proof fn lemma_main_barrier(analysis: &Analysis)
    ensures
        ({
            let body = spec_stmts(analysis);
            let writes = childs::writes(0, analysis).len();
            let last = body.len() - 1;
            &&& body[last] == childs::unmask(0, analysis)
            &&& forall|i: int| 0 <= i < body.len() && #[trigger] body[i] is Unmask ==> i == last
            &&& forall|i: int| 0 <= i < body.len() && #[trigger] body[i] is WriteLate ==> i < writes
            &&& is_sender(analysis, 0) ==> body[writes as int] == (Stmt::ReleaseBarrier {
                sender: 0,
            })
            &&& forall|sender: u8|
                analysis.parent.spec_barriers(0).contains(sender) ==> #[trigger] childs::precedes(
                    body,
                    Stmt::WaitBarrier { sender },
                    last,
                )
        }),
{
    let body = spec_stmts(analysis);
    let w = childs::writes(0, analysis);
    let r = if is_sender(analysis, 0) {
        seq![Stmt::ReleaseBarrier { sender: 0 }]
    } else {
        Seq::empty()
    };
    let b = childs::waits(0, analysis);
    let last = body.len() - 1;
    assert(body.len() == w.len() + r.len() + b.len() + 1);
    assert forall|i: int| 0 <= i < body.len() implies ((#[trigger] body[i] is Unmask ==> i
        == last) && (body[i] is WriteLate ==> i < w.len())) by {
        if i < w.len() {
            assert(body[i] == w[i]);
        } else if i < w.len() + r.len() {
            assert(body[i] == r[i - w.len()]);
        } else if i < w.len() + r.len() + b.len() {
            assert(body[i] == b[i - w.len() - r.len()]);
        }
    }
    assert forall|sender: u8|
        analysis.parent.spec_barriers(0).contains(sender) implies #[trigger] childs::precedes(
        body,
        Stmt::WaitBarrier { sender },
        last,
    ) by {
        let list = analysis.parent.spec_barriers(0);
        let k = choose|k: int| 0 <= k < list.len() && list[k] == sender;
        let i = w.len() + r.len() + k;
        assert(body[i] == b[k]);
    }
    if is_sender(analysis, 0) {
        assert(body[w.len() as int] == r[0]);
    }
}

/// Whether some core waits for the `init` of core `sender`.
pub fn sends(analysis: &Analysis, sender: u8) -> (r: bool)
    ensures
        r == is_sender(analysis, sender),
{
    let table = &analysis.parent.initialization_barriers;
    let mut c: usize = 0;
    while c < table.len()
        invariant
            c <= table@.len(),
            *table == analysis.parent.initialization_barriers,
            forall|k: int| 0 <= k < c ==> !(#[trigger] table@[k])@.contains(sender),
        decreases table@.len() - c,
    {
        let list = &table[c];
        let mut k: usize = 0;
        while k < list.len()
            invariant
                c < table@.len(),
                *table == analysis.parent.initialization_barriers,
                *list == table@[c as int],
                k <= list@.len(),
                forall|j: int| 0 <= j < k ==> list@[j] != sender,
            decreases list@.len() - k,
        {
            if list[k] == sender {
                assert(table@[c as int]@.contains(sender));
                return true;
            }
            k += 1;
        }
        c += 1;
    }
    false
}

/// Creates the barriers and the statements of the bootstrap after `init`.
pub fn codegen(app: &App, analysis: &Analysis) -> (r: (Vec<u8>, Vec<Stmt>))
    requires
        analysis.fits(app),
        app.cores >= 1,
    ensures
        r.0@ == senders(app.cores as int, analysis),
        r.1@ == spec_stmts(analysis),
{
    let mut barriers: Vec<u8> = Vec::new();
    let mut core: u8 = 0;
    while core < app.cores
        invariant
            core <= app.cores,
            barriers@ == senders(core as int, analysis),
        decreases app.cores - core,
    {
        if sends(analysis, core) {
            barriers.push(core);
        }
        core += 1;
    }
    let mut stmts: Vec<Stmt> = Vec::new();
    childs::push_writes(&mut stmts, 0, app, analysis);
    if sends(analysis, 0) {
        stmts.push(Stmt::ReleaseBarrier { sender: 0 });
    }
    childs::push_waits(&mut stmts, 0, app, analysis);
    stmts.push(childs::unmask_stmt(0, app, analysis));
    assert(stmts@ =~= spec_stmts(analysis));
    (barriers, stmts)
}

} // verus!
