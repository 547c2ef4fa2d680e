//! Deciding whether the expressions of a program are acyclic.

use vstd::prelude::*;

use crate::arena::{expr_at, expr_count};
use crate::hir::{Expr, ExprIdx, Hir, Program};

verus! {

impl Hir {
    /// The number of expressions that have a handle: a handle is a `u32`.
    spec fn handles(self) -> nat {
        if self.exprs.len() <= 0x1_0000_0000 {
            self.exprs.len()
        } else {
            0x1_0000_0000
        }
    }

    /// Every child of the expression is marked.
    spec fn children_marked(self, marked: Seq<bool>, parent: ExprIdx) -> bool {
        forall|child: ExprIdx| #[trigger] self.child_of(parent, child) ==> marked[child.pos()]
    }

    /// The expression has a child that is not marked.
    spec fn blocked(self, marked: Seq<bool>, parent: ExprIdx) -> bool {
        exists|child: ExprIdx| #[trigger] self.child_of(parent, child) && !marked[child.pos()]
    }

    /// `rank` is a ranking of the marked expressions: each of them has a
    /// rank below `bound`, and only marked children, of lower rank.
    spec fn ranks_marked(self, marked: Seq<bool>, rank: Seq<nat>, bound: nat) -> bool {
        &&& forall|expr: ExprIdx|
            expr.pos() < marked.len() && #[trigger] marked[expr.pos()] ==> rank[expr.pos()]
                < bound
        &&& forall|parent: ExprIdx, child: ExprIdx|
            parent.pos() < marked.len() && marked[parent.pos()] && #[trigger] self.child_of(
                parent,
                child,
            ) ==> marked[child.pos()] && rank[child.pos()] < rank[parent.pos()]
    }

    /// Where the expressions have a ranking and every unmarked expression
    /// has an unmarked child, every expression is marked: from an unmarked
    /// one the ranks would have to fall without end.
    proof fn lemma_ranked_are_marked(self, marked: Seq<bool>, rank: Seq<nat>, expr: ExprIdx)
        requires
            self.valid(),
            self.ranked_by(rank),
            marked.len() == self.handles(),
            expr.pos() < self.handles(),
            forall|other: ExprIdx|
                other.pos() < self.handles() && !marked[other.pos()] ==> #[trigger] self.blocked(
                    marked,
                    other,
                ),
        ensures
            marked[expr.pos()],
        decreases rank[expr.pos()],
    {
        if !marked[expr.pos()] {
            assert(self.blocked(marked, expr));
            let child = choose|child: ExprIdx|
                #[trigger] self.child_of(expr, child) && !marked[child.pos()];
            self.lemma_child_is_valid(expr, child);
            self.lemma_ranked_are_marked(marked, rank, child);
        }
    }
}

/// The number of entries that are not marked.
spec fn unmarked(marked: Seq<bool>) -> nat
    decreases marked.len(),
{
    if marked.len() == 0 {
        0
    } else {
        unmarked(marked.drop_last()) + if marked.last() {
            0nat
        } else {
            1nat
        }
    }
}

/// Marking an unmarked entry leaves one unmarked entry less.
proof fn lemma_mark_one(marked: Seq<bool>, i: int)
    requires
        0 <= i < marked.len(),
        !marked[i],
    ensures
        unmarked(marked.update(i, true)) + 1 == unmarked(marked),
    decreases marked.len(),
{
    let after = marked.update(i, true);
    if i == marked.len() - 1 {
        assert(after.drop_last() =~= marked.drop_last());
    } else {
        assert(after.drop_last() =~= marked.drop_last().update(i, true));
        lemma_mark_one(marked.drop_last(), i);
    }
}

/// Where an entry is unmarked, the number of unmarked entries is not zero.
proof fn lemma_unmarked_counts(marked: Seq<bool>, i: int)
    requires
        0 <= i < marked.len(),
        !marked[i],
    ensures
        unmarked(marked) > 0,
    decreases marked.len(),
{
    if i < marked.len() - 1 {
        lemma_unmarked_counts(marked.drop_last(), i);
    }
}

/// Where the number of unmarked entries is not zero, an entry is unmarked.
proof fn lemma_some_unmarked(marked: Seq<bool>) -> (i: int)
    requires
        unmarked(marked) > 0,
    ensures
        0 <= i < marked.len(),
        !marked[i],
    decreases marked.len(),
{
    if !marked.last() {
        marked.len() - 1
    } else {
        lemma_some_unmarked(marked.drop_last())
    }
}

impl Program {
    /// Decides whether every child of the expression is marked.
    fn children_marked(&self, marked: &Vec<bool>, parent: ExprIdx) -> (ok: bool)
        requires
            self.hir().valid(),
            marked.len() == self.hir().handles(),
            parent.pos() < self.hir().exprs.len(),
        ensures
            ok == self.hir().children_marked(marked@, parent),
    {
        let ghost hir = self.hir();
        assert(hir.expr_valid(hir.exprs[parent.pos()]));
        match expr_at(&self.exprs, parent.0) {
            Expr::Bin { lhs, rhs, .. } => {
                proof {
                    assert(hir.child_of(parent, *lhs));
                    assert(hir.child_of(parent, *rhs));
                }
                marked[lhs.0 as usize] && marked[rhs.0 as usize]
            },
            Expr::Block(stmts) => {
                let mut i: usize = 0;
                while i < stmts.len()
                    invariant
                        i <= stmts.len(),
                        hir == self.hir(),
                        hir.valid(),
                        marked.len() == hir.handles(),
                        parent.pos() < hir.exprs.len(),
                        hir.exprs[parent.pos()] == Expr::Block(*stmts),
                        hir.stmts_valid(stmts@),
                        forall|j: int|
                            0 <= j < i ==> marked@[hir.stmt_root(#[trigger] stmts@[j]).pos()],
                    decreases stmts.len() - i,
                {
                    let root = self.stmt_root(stmts[i]);
                    proof {
                        hir.lemma_stmt_root_valid(stmts@[i as int]);
                    }
                    if !marked[root.0 as usize] {
                        assert(hir.child_of(parent, root));
                        return false;
                    }
                    i = i + 1;
                }
                proof {
                    assert forall|child: ExprIdx| #[trigger]
                        hir.child_of(parent, child) implies marked@[child.pos()] by {
                        let j = choose|j: int|
                            0 <= j < stmts@.len() && child == hir.stmt_root(#[trigger] stmts@[j]);
                        assert(marked@[hir.stmt_root(stmts@[j]).pos()]);
                    }
                }
                true
            },
            Expr::Missing | Expr::VarRef(_) | Expr::IntLiteral(_) | Expr::StringLiteral(_) => true,
        }
    }

    /// Decides whether the expressions are acyclic. It marks, round after
    /// round, every expression whose children are all marked, and numbers
    /// the expressions in the order in which it marks them. When every
    /// expression is marked, the numbers are a ranking. When a round marks
    /// nothing and an expression is left, every expression that is left has
    /// a child that is left, so there is no ranking.
    pub(crate) fn exprs_acyclic(&self) -> (ok: bool)
        requires
            self.hir().valid(),
        ensures
            ok == self.hir().acyclic(),
    {
        let ghost hir = self.hir();
        let count = expr_count(&self.exprs);
        let handles: usize = if (count as u64) > 0x1_0000_0000 {
            0x1_0000_0000u64 as usize
        } else {
            count
        };
        let mut marked: Vec<bool> = Vec::new();
        while marked.len() < handles
            invariant
                marked.len() <= handles,
                unmarked(marked@) == marked.len(),
                forall|i: int| 0 <= i < marked.len() ==> !marked@[i],
            decreases handles - marked.len(),
        {
            let ghost before = marked@;
            marked.push(false);
            assert(marked@.drop_last() =~= before);
        }
        let mut left: usize = handles;
        let ghost mut rank: Seq<nat> = Seq::new(hir.exprs.len(), |i: int| 0nat);
        let ghost mut bound: nat = 0;
        while left > 0
            invariant
                hir == self.hir(),
                hir.valid(),
                handles == hir.handles(),
                marked.len() == handles,
                left == unmarked(marked@),
                rank.len() == hir.exprs.len(),
                hir.ranks_marked(marked@, rank, bound),
            decreases left,
        {
            let ghost left_before = left;
            let mut changed = false;
            let mut next: usize = 0;
            while next < handles
                invariant
                    next <= handles,
                    hir == self.hir(),
                    hir.valid(),
                    handles == hir.handles(),
                    marked.len() == handles,
                    left == unmarked(marked@),
                    rank.len() == hir.exprs.len(),
                    hir.ranks_marked(marked@, rank, bound),
                    left_before > 0,
                    !changed ==> left == left_before,
                    changed ==> left < left_before,
                    !changed ==> forall|expr: ExprIdx|
                        expr.pos() < next && !marked@[expr.pos()] ==> #[trigger] hir.blocked(
                            marked@,
                            expr,
                        ),
                decreases handles - next,
            {
                let expr = ExprIdx(next as u32);
                if !marked[next] {
                    if self.children_marked(&marked, expr) {
                        let ghost before = marked@;
                        let ghost ranked = rank;
                        marked.set(next, true);
                        proof {
                            lemma_mark_one(before, next as int);
                            rank = ranked.update(next as int, bound);
                            assert forall|parent: ExprIdx, child: ExprIdx|
                                parent.pos() < marked@.len() && marked@[parent.pos()]
                                    && #[trigger] hir.child_of(
                                    parent,
                                    child,
                                ) implies marked@[child.pos()] && rank[child.pos()]
                                < rank[parent.pos()] by {
                                hir.lemma_child_is_valid(parent, child);
                                if parent == expr {
                                    assert(before[child.pos()]);
                                } else {
                                    assert(before[parent.pos()]);
                                    assert(before[child.pos()]);
                                }
                            }
                            bound = bound + 1;
                        }
                        left = left - 1;
                        changed = true;
                    } else {
                        assert(hir.blocked(marked@, expr));
                    }
                }
                next = next + 1;
            }
            if !changed {
                proof {
                    let i = lemma_some_unmarked(marked@);
                    let stuck = ExprIdx(i as u32);
                    if hir.acyclic() {
                        let any = choose|any: Seq<nat>| hir.ranked_by(any);
                        hir.lemma_ranked_are_marked(marked@, any, stuck);
                    }
                }
                return false;
            }
        }
        proof {
            assert forall|parent: ExprIdx, child: ExprIdx|
                parent.pos() < hir.exprs.len() && child.pos() < hir.exprs.len()
                    && #[trigger] hir.child_of(parent, child) implies rank[child.pos()]
                < rank[parent.pos()] by {
                if !marked@[parent.pos()] {
                    lemma_unmarked_counts(marked@, parent.pos());
                }
            }
            assert(hir.ranked_by(rank));
        }
        true
    }
}

} // verus!
