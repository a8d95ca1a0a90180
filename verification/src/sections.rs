use vstd::prelude::*;
use crate::laws::{is_path, tree_at};
use crate::grammar::{
    HeadV, Kind, Tree, close_v, eol_v, heading_at, heads_v, lemma_close_ok, lemma_eol, lemma_rows_ok,
    lemma_settle_ok, level_v, rows_v, settle_v, stack_ok, step_v,
};

verus! {

/// The level of the heading line at `o`: its number of leading `#`.
#[verifier::opaque]
pub open spec fn level_at(s: Seq<u8>, o: int) -> int {
    level_v(s, o, eol_v(s, o))
}

/// Where a section of level `k` closes when reading on from `p`: at the first heading line at
/// or after `p` whose level is `k` or less, or at the end of the text.
pub open spec fn close_at(s: Seq<u8>, k: int, p: int) -> int
    decreases s.len() - p,
{
    if p < 0 || p >= s.len() {
        s.len() as int
    } else if heading_at(s, p) && level_at(s, p) <= k {
        p
    } else {
        close_at(s, k, p + 1)
    }
}

/// The end of the section opened by the heading line at `o`: the first later heading line of
/// the same or a shallower level, or the end of the text.
pub open spec fn end_of(s: Seq<u8>, o: int) -> int {
    close_at(s, level_at(s, o), o + 1)
}

/// The starts of the heading lines before byte `at`, in order.
pub open spec fn heads_before(s: Seq<u8>, at: int) -> Seq<int>
    decreases at,
{
    if at <= 0 {
        seq![]
    } else {
        let rest = heads_before(s, at - 1);
        if heading_at(s, at - 1) {
            rest.push(at - 1)
        } else {
            rest
        }
    }
}

/// The starts of the nodes of a tree, in pre-order.
pub open spec fn node_starts(t: Tree) -> Seq<int>
    decreases t, 1int,
{
    seq![t.start as int] + preorder(t.kids)
}

/// The starts of the nodes of the trees, in pre-order.
pub open spec fn preorder(ts: Seq<Tree>) -> Seq<int>
    decreases ts, 0int,
{
    if ts.len() == 0 {
        seq![]
    } else {
        preorder(ts.drop_last()) + node_starts(ts.last())
    }
}

/// Whether the children of a section with start `lo`, end `hi` and level `level` are nested in
/// it: each starts after `lo` at a deeper heading and ends by `hi`, and each ends before the
/// next starts.
pub open spec fn nested(ks: Seq<Tree>, s: Seq<u8>, lo: int, hi: int, level: int) -> bool {
    &&& forall|i: int| 0 <= i < ks.len() ==> lo < (#[trigger] ks[i]).start && ks[i].start < ks[i].end && ks[i].end <= hi
        && level_at(s, ks[i].start as int) > level
    &&& forall|i: int, j: int| 0 <= i < j < ks.len() ==> (#[trigger] ks[i]).end <= (#[trigger] ks[j]).start
}

/// Whether `t` is the section of its heading line, and so are its descendants: a scope that
/// starts at a heading line and ends where that heading's section ends, whose children are
/// nested in it.
pub open spec fn exact(t: Tree, s: Seq<u8>) -> bool
    decreases t,
{
    &&& t.kind == Kind::Scope
    &&& heading_at(s, t.start as int)
    &&& t.end == end_of(s, t.start as int)
    &&& nested(t.kids, s, t.start as int, t.end as int, level_at(s, t.start as int))
    &&& forall|i: int| 0 <= i < t.kids.len() ==> exact(#[trigger] t.kids[i], s)
}

/// Whether the trees are sections nested in a section with start `lo`, end `hi` and level
/// `level`.
#[verifier::opaque]
pub open spec fn kids_ok(ks: Seq<Tree>, s: Seq<u8>, lo: int, hi: int, level: int) -> bool {
    &&& forall|i: int| 0 <= i < ks.len() ==> exact(#[trigger] ks[i], s)
    &&& nested(ks, s, lo, hi, level)
}

/// Whether an open section is sound before byte `at`: its children so far are sections ending
/// by `at`; unless it is the root, it starts at a heading line of its level before `at`, and no
/// heading line that would close it lies between its start and `at`.
#[verifier::opaque]
pub open spec fn open_exact(e: HeadV, root: bool, s: Seq<u8>, at: int) -> bool {
    &&& kids_ok(e.kids, s, if root { -1 } else { e.start as int }, at, e.level as int)
    &&& (!root ==> {
        &&& heading_at(s, e.start as int)
        &&& e.start < at
        &&& e.level == level_at(s, e.start as int)
        &&& close_at(s, e.level as int, e.start + 1) == close_at(s, e.level as int, at)
    })
}

/// Whether the open sections are sound before `at`, each later one starting after the earlier
/// one and after the children of the earlier one end.
#[verifier::opaque]
pub open spec fn stack_exact(stack: Seq<HeadV>, s: Seq<u8>, at: int) -> bool {
    &&& forall|j: int| 0 <= j < stack.len() ==> open_exact(#[trigger] stack[j], j == 0, s, at)
    &&& forall|j: int, k: int, i: int| 0 <= j < k < stack.len() && 0 <= i < stack[j].kids.len() ==> (#[trigger] stack[j].kids[i]).end
        <= (#[trigger] stack[k]).start
    &&& forall|j: int, k: int| 1 <= j < k < stack.len() ==> (#[trigger] stack[j]).start < (#[trigger] stack[k]).start
}

/// The heading starts the open sections account for: those of the finished children, each open
/// section's own start, and so on up the stack.
pub open spec fn flat(stack: Seq<HeadV>) -> Seq<int>
    decreases stack.len(),
{
    if stack.len() == 0 {
        seq![]
    } else {
        flat(stack.drop_last()) + (if stack.len() > 1 { seq![stack.last().start as int] } else { seq![] })
            + preorder(stack.last().kids)
    }
}

proof fn lemma_skip(s: Seq<u8>, k: int, lo: int, hi: int)
    requires
        0 <= lo <= hi <= s.len(),
        forall|p: int| lo <= p < hi ==> !(heading_at(s, p) && level_at(s, p) <= k),
    ensures
        close_at(s, k, lo) == close_at(s, k, hi),
    decreases hi - lo,
{
    if lo < hi {
        lemma_skip(s, k, lo + 1, hi);
    }
}

proof fn lemma_heads_skip(s: Seq<u8>, lo: int, hi: int)
    requires
        0 <= lo <= hi,
        forall|p: int| lo <= p < hi ==> !heading_at(s, p),
    ensures
        heads_before(s, hi) == heads_before(s, lo),
    decreases hi - lo,
{
    if lo < hi {
        lemma_heads_skip(s, lo, hi - 1);
    }
}

proof fn lemma_kids_hi(ks: Seq<Tree>, s: Seq<u8>, lo: int, hi: int, hi2: int, level: int)
    requires
        kids_ok(ks, s, lo, hi, level),
        hi <= hi2,
    ensures
        kids_ok(ks, s, lo, hi2, level),
{
    reveal(kids_ok);
}

proof fn lemma_kids_push(ks: Seq<Tree>, t: Tree, s: Seq<u8>, lo: int, hi: int, level: int)
    requires
        kids_ok(ks, s, lo, hi, level),
        exact(t, s),
        lo < t.start,
        t.start < t.end,
        t.end <= hi,
        level_at(s, t.start as int) > level,
        ks.len() > 0 ==> ks.last().end <= t.start,
    ensures
        kids_ok(ks.push(t), s, lo, hi, level),
{
    reveal(kids_ok);
    let k = ks.push(t);
    assert forall|i: int| 0 <= i < k.len() implies exact(#[trigger] k[i], s) by {
        if i < ks.len() {
            assert(k[i] == ks[i]);
        }
    }
    assert forall|i: int| 0 <= i < k.len() implies lo < (#[trigger] k[i]).start && k[i].start < k[i].end && k[i].end <= hi
        && level_at(s, k[i].start as int) > level by {
        if i < ks.len() {
            assert(k[i] == ks[i]);
        }
    }
    assert forall|i: int, j: int| 0 <= i < j < k.len() implies (#[trigger] k[i]).end <= (#[trigger] k[j]).start by {
        assert(k[i] == ks[i]);
        if j < ks.len() {
            assert(k[j] == ks[j]);
        } else {
            let l = ks.len() - 1;
            assert(ks.last() == ks[l]);
            if i < l {
                assert(ks[i].end <= ks[l].start);
            }
            assert(ks[l].start < ks[l].end);
        }
    }
}

proof fn lemma_kids_end(ks: Seq<Tree>, s: Seq<u8>, lo: int, hi: int, level: int)
    requires
        kids_ok(ks, s, lo, hi, level),
        ks.len() > 0,
    ensures
        ks.last().end <= hi,
{
    reveal(kids_ok);
    assert(ks.last() == ks[ks.len() - 1]);
}

proof fn lemma_preorder_push(ks: Seq<Tree>, t: Tree)
    ensures
        preorder(ks.push(t)) == preorder(ks) + node_starts(t),
{
    assert(ks.push(t).drop_last() =~= ks);
}

proof fn lemma_close_exact(stack: Seq<HeadV>, s: Seq<u8>, at: usize)
    requires
        stack_exact(stack, s, at as int),
        stack_ok(stack, s.len() as int),
        stack.len() > 1,
        at == s.len() || (heading_at(s, at as int) && level_at(s, at as int) <= stack.last().level),
    ensures
        stack_exact(close_v(stack, at), s, at as int),
        flat(close_v(stack, at)) == flat(stack),
{
    reveal(stack_exact);
    let n = stack.len();
    let p = n - 2;
    let done = stack[p + 1];
    let parent = stack[p];
    assert(stack.last() == done);
    assert(stack.drop_last().last() == parent);
    assert(open_exact(stack[p], p == 0, s, at as int));
    assert(open_exact(stack[p + 1], false, s, at as int));
    let lo = if p == 0 { -1 } else { parent.start as int };
    assert(stack[p].level < stack[p + 1].level);
    let node = Tree { kind: Kind::Scope, start: done.start, end: at, kids: done.kids };
    reveal(open_exact);
    assert(close_at(s, done.level as int, at as int) == at);
    assert(done.level == level_at(s, done.start as int));
    assert(close_at(s, done.level as int, done.start + 1) == at);
    assert(end_of(s, done.start as int) == at);
    assert(kids_ok(done.kids, s, done.start as int, at as int, done.level as int));
    assert(heading_at(s, done.start as int));
    assert(exact(node, s)) by {
        reveal(kids_ok);
    }
    if p > 0 {
        assert(stack[p].start < stack[p + 1].start);
    }
    if parent.kids.len() > 0 {
        assert(parent.kids.last() == stack[p].kids[parent.kids.len() - 1]);
        assert(stack[p].kids[parent.kids.len() - 1].end <= stack[p + 1].start);
    }
    assert(done.start < at);
    let kids = parent.kids.push(node);
    lemma_kids_push(parent.kids, node, s, lo, at as int, parent.level as int);
    let out = close_v(stack, at);
    assert(out.len() == n - 1);
    assert forall|j: int| 0 <= j < out.len() implies open_exact(#[trigger] out[j], j == 0, s, at as int) by {
        if j < p {
            assert(out[j] == stack[j]);
            assert(open_exact(stack[j], j == 0, s, at as int));
        } else {
            assert(out[j].kids == kids);
            assert(out[j].start == parent.start && out[j].level == parent.level);
        }
    }
    assert forall|j: int, k: int, i: int| 0 <= j < k < out.len() && 0 <= i < out[j].kids.len() implies (#[trigger] out[j].kids[i]).end
        <= (#[trigger] out[k]).start by {
        assert(out[j] == stack[j]);
        assert(out[k].start == stack[k].start);
        assert(stack[j].kids[i].end <= stack[k].start);
    }
    assert forall|j: int, k: int| 1 <= j < k < out.len() implies (#[trigger] out[j]).start < (#[trigger] out[k]).start by {
        assert(out[j].start == stack[j].start);
        assert(out[k].start == stack[k].start);
        assert(stack[j].start < stack[k].start);
    }
    let a = stack.drop_last().drop_last();
    assert(stack.drop_last() =~= a.push(parent));
    assert(out =~= a.push(HeadV { kids, ..parent }));
    assert(out.drop_last() =~= a);
    assert(out.last() == HeadV { kids, ..parent });
    lemma_preorder_push(parent.kids, node);
    assert(flat(out) == flat(a) + (if n - 1 > 1 { seq![parent.start as int] } else { seq![] }) + preorder(kids));
    assert(flat(stack.drop_last()) == flat(a) + (if n - 1 > 1 { seq![parent.start as int] } else { seq![] })
        + preorder(parent.kids));
    assert(flat(out) =~= flat(stack));
}

proof fn lemma_settle_exact(stack: Seq<HeadV>, s: Seq<u8>, level: usize, at: usize)
    requires
        stack_exact(stack, s, at as int),
        stack_ok(stack, s.len() as int),
        at == s.len() || (heading_at(s, at as int) && level_at(s, at as int) == level),
    ensures
        stack_exact(settle_v(stack, level, at), s, at as int),
        flat(settle_v(stack, level, at)) == flat(stack),
    decreases stack.len(),
{
    if stack.len() > 1 && stack.last().level >= level {
        lemma_close_exact(stack, s, at);
        lemma_close_ok(stack, s.len() as int, at);
        lemma_settle_exact(close_v(stack, at), s, level, at);
    }
}

proof fn lemma_stack_move(stack: Seq<HeadV>, s: Seq<u8>, at: int, after: int)
    requires
        stack_exact(stack, s, at),
        at <= after,
        forall|j: int| 1 <= j < stack.len() ==> close_at(s, (#[trigger] stack[j]).level as int, at) == close_at(
            s,
            stack[j].level as int,
            after,
        ),
    ensures
        stack_exact(stack, s, after),
{
    reveal(stack_exact);
    assert forall|j: int| 0 <= j < stack.len() implies open_exact(#[trigger] stack[j], j == 0, s, after) by {
        assert(open_exact(stack[j], j == 0, s, at));
        reveal(open_exact);
        let e = stack[j];
        lemma_kids_hi(e.kids, s, if j == 0 { -1 } else { e.start as int }, at, after, e.level as int);
    }
}

proof fn lemma_stack_push(stack: Seq<HeadV>, s: Seq<u8>, at: int, after: int, level: int)
    requires
        stack_exact(stack, s, at),
        stack_ok(stack, s.len() as int),
        stack.len() == 1 || stack.last().level < level,
        heading_at(s, at),
        level_at(s, at) == level,
        0 < level <= s.len(),
        0 <= at < after <= s.len(),
        s.len() <= usize::MAX,
        forall|p: int| at < p < after ==> !heading_at(s, p),
    ensures
        stack_exact(stack.push(HeadV { level: level as usize, start: at as usize, kids: seq![] }), s, after),
{
    let head = HeadV { level: level as usize, start: at as usize, kids: seq![] };
    let next = stack.push(head);
    assert forall|j: int| 1 <= j < stack.len() implies close_at(s, (#[trigger] stack[j]).level as int, at) == close_at(
        s,
        stack[j].level as int,
        after,
    ) by {
        assert(stack[j].level <= stack[stack.len() - 1].level);
        assert(stack.last() == stack[stack.len() - 1]);
        lemma_skip(s, stack[j].level as int, at, after);
    }
    lemma_stack_move(stack, s, at, after);
    lemma_skip(s, level, at + 1, after);
    reveal(stack_exact);
    assert(head.start as int == at && head.level as int == level);
    assert(open_exact(head, false, s, after)) by {
        reveal(open_exact);
        reveal(kids_ok);
    }
    assert forall|j: int| 0 <= j < next.len() implies open_exact(#[trigger] next[j], j == 0, s, after) by {
        if j < stack.len() {
            assert(next[j] == stack[j]);
        }
    }
    assert forall|j: int, k: int, i: int| 0 <= j < k < next.len() && 0 <= i < next[j].kids.len() implies (#[trigger] next[j].kids[i]).end
        <= (#[trigger] next[k]).start by {
        assert(next[j] == stack[j]);
        if k < stack.len() {
            assert(next[k] == stack[k]);
        } else {
            assert(open_exact(stack[j], j == 0, s, at));
            reveal(open_exact);
            reveal(kids_ok);
            assert(stack[j].kids[i].end <= at);
        }
    }
    assert forall|j: int, k: int| 1 <= j < k < next.len() implies (#[trigger] next[j]).start < (#[trigger] next[k]).start by {
        assert(next[j] == stack[j]);
        if k < stack.len() {
            assert(next[k] == stack[k]);
        } else {
            assert(open_exact(stack[j], false, s, at));
            reveal(open_exact);
            assert(stack[j].start < at);
            assert(next[k] == head);
        }
    }
}

proof fn lemma_rows_exact(s: Seq<u8>, at: int, stack: Seq<HeadV>)
    requires
        stack_exact(stack, s, at),
        stack_ok(stack, s.len() as int),
        flat(stack) == heads_before(s, at),
        0 <= at <= s.len(),
        at == 0 || at == s.len() || s[at - 1] == 10u8,
        s.len() <= usize::MAX,
    ensures
        stack_exact(rows_v(s, at, stack), s, s.len() as int),
        flat(rows_v(s, at, stack)) == heads_before(s, s.len() as int),
        stack_ok(rows_v(s, at, stack), s.len() as int),
    decreases s.len() - at,
{
    lemma_rows_ok(s, at, stack);
    if at < s.len() {
        let end = eol_v(s, at);
        lemma_eol(s, at);
        let level = level_v(s, at, end);
        let after = step_v(s, end);
        assert(at < after <= s.len());
        assert forall|p: int| at < p < after implies !heading_at(s, p) by {
            assert(s[p - 1] != 10u8);
        }
        crate::grammar::lemma_run(s, at, end);
        if level > 0 {
            assert(level <= s.len());
            assert(heading_at(s, at));
            assert(level_at(s, at) == level) by {
                reveal(level_at);
            }
            let settled = settle_v(stack, level as usize, at as usize);
            lemma_settle_exact(stack, s, level as usize, at as usize);
            lemma_settle_ok(stack, s.len() as int, level as usize, at as usize);
            let head = HeadV { level: level as usize, start: at as usize, kids: seq![] };
            let next = settled.push(head);
            lemma_stack_push(settled, s, at, after, level);
            assert(next.drop_last() =~= settled);
            assert(preorder(seq![]) =~= Seq::<int>::empty());
            assert(next.last() == head);
            assert(head.start as int == at);
            assert(next.len() > 1);
            assert(flat(next) =~= flat(settled) + seq![at]);
            lemma_heads_skip(s, at + 1, after);
            assert(heads_before(s, at + 1) == heads_before(s, at).push(at));
            assert(flat(settled) == heads_before(s, at));
            assert(flat(next) =~= heads_before(s, after));
            assert(next.last().kids =~= Seq::<Tree>::empty());
            assert(stack_ok(next, s.len() as int)) by {
                assert forall|j: int| 0 <= j < next.len() implies #[trigger] next[j].level <= s.len() by {
                    if j < settled.len() {
                        assert(next[j] == settled[j]);
                    }
                }
                assert forall|j: int| 0 <= j < next.len() implies crate::grammar::all_bounded(
                    #[trigger] next[j].kids,
                    s.len() - next[j].level,
                ) by {
                    if j < settled.len() {
                        assert(next[j] == settled[j]);
                    }
                }
                assert forall|i: int, j: int| 0 <= i < j < next.len() implies #[trigger] next[i].level
                    < #[trigger] next[j].level by {
                    assert(next[i] == settled[i]);
                    if j < settled.len() {
                        assert(next[j] == settled[j]);
                    } else if settled.len() > 1 {
                        assert(settled[i].level <= settled.last().level);
                    }
                }
            }
            lemma_rows_exact(s, after, next);
        } else {
            assert forall|p: int| at <= p < after implies !heading_at(s, p) by {
                if p == at {
                    assert(level_v(s, at, eol_v(s, at)) == 0);
                }
            }
            assert forall|j: int| 1 <= j < stack.len() implies close_at(s, (#[trigger] stack[j]).level as int, at)
                == close_at(s, stack[j].level as int, after) by {
                lemma_skip(s, stack[j].level as int, at, after);
            }
            lemma_stack_move(stack, s, at, after);
            lemma_heads_skip(s, at, after);
            lemma_rows_exact(s, after, stack);
        }
    }
}

/// The sections of a markdown text, one per heading line: the nodes below the root, read in
/// pre-order, start exactly at the heading lines, in order; and they are the sections of their
/// headings, nested in the root.
pub proof fn lemma_heads_exact(s: Seq<u8>)
    requires
        s.len() <= usize::MAX,
    ensures
        preorder(heads_v(s).kids) == heads_before(s, s.len() as int),
        forall|i: int| 0 <= i < heads_v(s).kids.len() ==> exact(#[trigger] heads_v(s).kids[i], s),
        nested(heads_v(s).kids, s, -1, s.len() as int, 0),
{
    let first = seq![HeadV { level: 0, start: 0, kids: seq![] }];
    assert(stack_exact(first, s, 0)) by {
        reveal(stack_exact);
        reveal(open_exact);
        reveal(kids_ok);
        assert(first[0].kids =~= Seq::<Tree>::empty());
    }
    assert(stack_ok(first, s.len() as int));
    assert(first.drop_last() =~= Seq::<HeadV>::empty());
    assert(preorder(first[0].kids) =~= Seq::<int>::empty());
    assert(flat(Seq::<HeadV>::empty()) =~= Seq::<int>::empty());
    assert(first.last() == first[0]);
    assert(flat(first) =~= Seq::<int>::empty());
    assert(heads_before(s, 0) =~= Seq::<int>::empty());
    lemma_rows_exact(s, 0, first);
    let rows = rows_v(s, 0, first);
    lemma_settle_exact(rows, s, 1, s.len() as usize);
    lemma_settle_ok(rows, s.len() as int, 1, s.len() as usize);
    let st = settle_v(rows, 1, s.len() as usize);
    if st.len() > 1 {
        assert(st[0].level < st[st.len() - 1].level);
    }
    assert(st.len() == 1);
    assert(st.last() == st[0]);
    assert(open_exact(st[0], true, s, s.len() as int)) by {
        reveal(stack_exact);
    }
    assert(kids_ok(st[0].kids, s, -1, s.len() as int, 0)) by {
        reveal(open_exact);
    }
    assert(st.drop_last() =~= Seq::<HeadV>::empty());
    assert(flat(st) =~= preorder(st[0].kids));
    reveal(kids_ok);
}

/// Whether `p` leads to a node of the forest: an index of one of its trees, then a path in it.
pub open spec fn in_forest(ts: Seq<Tree>, p: Seq<int>) -> bool {
    p.len() > 0 && 0 <= p[0] < ts.len() && is_path(ts[p[0]], p.drop_first())
}

/// The node of the forest that `p` leads to.
pub open spec fn forest_at(ts: Seq<Tree>, p: Seq<int>) -> Tree {
    tree_at(ts[p[0]], p.drop_first())
}

proof fn lemma_within(t: Tree, s: Seq<u8>, p: Seq<int>)
    requires
        exact(t, s),
        is_path(t, p),
    ensures
        exact(tree_at(t, p), s),
        t.start <= tree_at(t, p).start,
        tree_at(t, p).end <= t.end,
        p.len() > 0 ==> t.start < tree_at(t, p).start && tree_at(t, p).start < tree_at(t, p).end,
    decreases p.len(),
{
    if p.len() > 0 {
        let k = t.kids[p[0]];
        assert(exact(k, s));
        assert(t.start < k.start && k.start < k.end && k.end <= t.end);
        lemma_within(k, s, p.drop_first());
    }
}

/// In a forest of sections nested as `nested` says, a node whose start lies inside another node
/// has a parent, and that other node holds the parent: the parent is the innermost other node
/// around its start.
pub proof fn lemma_parent(ts: Seq<Tree>, s: Seq<u8>, lo: int, hi: int, level: int, p: Seq<int>, q: Seq<int>)
    requires
        forall|i: int| 0 <= i < ts.len() ==> exact(#[trigger] ts[i], s),
        nested(ts, s, lo, hi, level),
        in_forest(ts, p),
        in_forest(ts, q),
        p != q,
        forest_at(ts, q).start <= forest_at(ts, p).start < forest_at(ts, q).end,
    ensures
        p.len() >= 2,
        forest_at(ts, q).start <= forest_at(ts, p.drop_last()).start,
        forest_at(ts, p.drop_last()).end <= forest_at(ts, q).end,
    decreases p.len(),
{
    let i = p[0];
    let j = q[0];
    let n = forest_at(ts, p);
    let m = forest_at(ts, q);
    lemma_within(ts[i], s, p.drop_first());
    lemma_within(ts[j], s, q.drop_first());
    assert(ts[i].start < ts[i].end);
    assert(ts[j].start < ts[j].end);
    if i != j {
        if i < j {
            assert(ts[i].end <= ts[j].start);
        } else {
            assert(ts[j].end <= ts[i].start);
        }
        assert(false);
    } else {
        let t = ts[i];
        if q.len() == 1 {
            if p.len() == 1 {
                assert(p =~= q);
            }
            let up = p.drop_last();
            assert(up[0] == i);
            if up.len() > 1 {
                assert(up.drop_first() =~= p.drop_first().drop_last());
                lemma_path_prefix(t, p.drop_first());
                lemma_within(t, s, up.drop_first());
            } else {
                assert(up.drop_first() =~= Seq::<int>::empty());
            }
        } else if p.len() == 1 {
            assert(false);
        } else {
            let p1 = p.drop_first();
            let q1 = q.drop_first();
            assert(p1 != q1) by {
                if p1 == q1 {
                    assert(p =~= seq![i] + p1);
                    assert(q =~= seq![j] + q1);
                }
            }
            assert(forest_at(t.kids, p1) == n);
            assert(forest_at(t.kids, q1) == m);
            lemma_parent(t.kids, s, t.start as int, t.end as int, level_at(s, t.start as int), p1, q1);
            assert(p.drop_last().drop_first() =~= p1.drop_last());
            assert(p.drop_last()[0] == i);
            assert(p1.drop_last()[0] == p1[0]);
            assert(forest_at(ts, p.drop_last()) == forest_at(t.kids, p1.drop_last()));
        }
    }
}

proof fn lemma_path_prefix(t: Tree, p: Seq<int>)
    requires
        is_path(t, p),
        p.len() > 0,
    ensures
        is_path(t, p.drop_last()),
    decreases p.len(),
{
    if p.len() > 1 {
        lemma_path_prefix(t.kids[p[0]], p.drop_first());
        assert(p.drop_last().drop_first() =~= p.drop_first().drop_last());
    }
}

} // verus!
