use vstd::prelude::*;
use crate::grammar::{
    Cst, Kind, Span, Tree, all_bounded, all_inner, all_top, bounded, inner, lemma_all_concat, lemma_all_up,
    lemma_inner_concat, lemma_top_concat, top, tree_of, trees_of,
};
use crate::lex::{Token, TokenV, has_tag, toks_view};
use crate::peg::{Pat, PatV, Quant, Rule, RuleV, lemma_pat_view, pats_view, rules_view};
use crate::text::same;

verus! {

/// How deep rule references may nest while parsing: a bound that exists so that every parse is
/// defined, set far beyond what any call stack can hold, so that in practice references nest
/// as deep as the input asks.
pub const DEPTH: usize = 0xffff_fff0;

/// What the parser reads: the parser rules, the tokens and the source bytes.
pub struct Ctx {
    pub rules: Seq<RuleV>,
    pub toks: Seq<TokenV>,
    pub src: Seq<u8>,
}

/// Every token lies within the source.
pub open spec fn fits(toks: Seq<TokenV>, len: int) -> bool {
    forall|k: int| 0 <= k < toks.len() ==> #[trigger] toks[k].start <= toks[k].end && toks[k].end <= len
}

/// The index of the last rule named `name` among the first `n` rules.
pub open spec fn spec_find(rules: Seq<RuleV>, name: Seq<char>, n: nat) -> Option<int>
    decreases n,
{
    if n == 0 {
        None
    } else if rules[n - 1].name == name {
        Some(n - 1)
    } else {
        spec_find(rules, name, (n - 1) as nat)
    }
}

/// The index of the rule that `name` refers to: the last one so named.
pub open spec fn lookup(rules: Seq<RuleV>, name: Seq<char>) -> Option<int> {
    spec_find(rules, name, rules.len())
}

/// The kind of node a rule's tag asks for.
pub open spec fn tag_kind(r: RuleV) -> Option<Kind> {
    if has_tag(r, "scope"@) {
        Some(Kind::Scope)
    } else if has_tag(r, "item"@) {
        Some(Kind::Item)
    } else if has_tag(r, "literal"@) {
        Some(Kind::Literal)
    } else if has_tag(r, "pattern"@) {
        Some(Kind::Pattern)
    } else if has_tag(r, "word"@) {
        Some(Kind::Word)
    } else {
        None
    }
}

/// The byte span covered by tokens `[at, next)`: from the start of the first to the end of the
/// last; a match of no tokens starts and ends where token `at` starts.
pub open spec fn span_of(c: Ctx, at: int, next: int) -> (usize, usize) {
    let start = if 0 <= at < c.toks.len() { c.toks[at].start } else { 0 };
    let end = if at < next && 0 < next <= c.toks.len() { c.toks[next - 1].end } else { start };
    (start, end)
}

/// The nodes a rule yields for tokens `[at, next)`: one node of its kind holding `kids`, or
/// `kids` alone when its tag asks for no node.
pub open spec fn wrapped(c: Ctx, r: RuleV, at: int, next: int, kids: Seq<Tree>) -> Seq<Tree> {
    match tag_kind(r) {
        Some(kind) => seq![Tree { kind, start: span_of(c, at, next).0, end: span_of(c, at, next).1, kids }],
        None => kids,
    }
}

/// The bytes of token `at`.
pub open spec fn tok_text(c: Ctx, at: int) -> Seq<u8> {
    c.src.subrange(c.toks[at].start as int, c.toks[at].end as int)
}

/// Applies rule `idx` at token `at`.
pub open spec fn p_rule(c: Ctx, idx: int, at: int, fuel: nat) -> Option<(int, Seq<Tree>)>
    decreases fuel, 1int, c.rules[idx].pat, 0int,
{
    if 0 <= idx < c.rules.len() {
        match p_expr(c, c.rules[idx].pat, at, fuel) {
            Some((next, kids)) => Some((next, wrapped(c, c.rules[idx], at, next, kids))),
            None => None,
        }
    } else {
        None
    }
}

/// Matches `pat` at token `at`: where the match ends and the nodes it yields. A reference to
/// a rule uses up one unit of `fuel`.
pub open spec fn p_expr(c: Ctx, pat: PatV, at: int, fuel: nat) -> Option<(int, Seq<Tree>)>
    decreases fuel, 0int, pat, 0int,
{
    match pat {
        PatV::Lit(want) => {
            if 0 <= at < c.toks.len() && tok_text(c, at) == want {
                Some((at + 1, seq![]))
            } else {
                None
            }
        },
        PatV::Name(name) => match lookup(c.rules, name) {
            Some(idx) => if fuel == 0 { None } else { p_rule(c, idx, at, (fuel - 1) as nat) },
            None => {
                if 0 <= at < c.toks.len() && c.toks[at].name == name {
                    Some((at + 1, seq![]))
                } else {
                    None
                }
            },
        },
        PatV::Any => if 0 <= at < c.toks.len() { Some((at + 1, seq![])) } else { None },
        PatV::Cat(parts) => p_seq(c, parts, at, fuel),
        PatV::Alt(parts) => p_alt(c, parts, at, fuel),
        PatV::Rep(inner, quant) => match quant {
            Quant::Opt => match p_expr(c, *inner, at, fuel) {
                Some(hit) => Some(hit),
                None => Some((at, seq![])),
            },
            Quant::Star => Some(p_star(c, *inner, at, fuel)),
            Quant::Plus => {
                let (end, kids) = p_star(c, *inner, at, fuel);
                if end > at { Some((end, kids)) } else { None }
            },
        },
        PatV::Not(inner) => if p_expr(c, *inner, at, fuel) is Some { None } else { Some((at, seq![])) },
        PatV::Class(..) => None,
    }
}

/// Matches the parts one after another, joining their nodes.
pub open spec fn p_seq(c: Ctx, parts: Seq<PatV>, at: int, fuel: nat) -> Option<(int, Seq<Tree>)>
    decreases fuel, 0int, parts, 0int,
{
    if parts.len() == 0 {
        Some((at, seq![]))
    } else {
        match p_expr(c, parts[0], at, fuel) {
            Some((next, got)) => match p_seq(c, parts.drop_first(), next, fuel) {
                Some((end, rest)) => Some((end, got + rest)),
                None => None,
            },
            None => None,
        }
    }
}

/// The first part that matches.
pub open spec fn p_alt(c: Ctx, parts: Seq<PatV>, at: int, fuel: nat) -> Option<(int, Seq<Tree>)>
    decreases fuel, 0int, parts, 0int,
{
    if parts.len() == 0 {
        None
    } else {
        match p_expr(c, parts[0], at, fuel) {
            Some(hit) => Some(hit),
            None => p_alt(c, parts.drop_first(), at, fuel),
        }
    }
}

/// Matches `inner` as often as it makes progress.
pub open spec fn p_star(c: Ctx, inner: PatV, at: int, fuel: nat) -> (int, Seq<Tree>)
    decreases fuel, 0int, inner, c.toks.len() - at + 1,
{
    if 0 <= at <= c.toks.len() {
        match p_expr(c, inner, at, fuel) {
            Some((next, got)) => {
                if at < next <= c.toks.len() {
                    let (end, rest) = p_star(c, inner, next, fuel);
                    (end, got + rest)
                } else {
                    (at, seq![])
                }
            },
            None => (at, seq![]),
        }
    } else {
        (at, seq![])
    }
}

/// A node for the unparsed tokens `[lo, end)`.
pub open spec fn loose_of(c: Ctx, lo: int, end: int) -> Tree {
    Tree { kind: Kind::Loose, start: c.toks[lo].start, end: c.toks[end - 1].end, kids: seq![] }
}

/// The pending unparsed run, closed at `end`.
pub open spec fn flushed(c: Ctx, lost: Option<int>, end: int) -> Seq<Tree> {
    match lost {
        Some(lo) => seq![loose_of(c, lo, end)],
        None => seq![],
    }
}

/// The nodes of the tokens from `at` on: the unit rule is applied where it makes progress, and
/// each run of tokens where it does not becomes one loose node.
pub open spec fn p_sweep(c: Ctx, unit: int, at: int, lost: Option<int>) -> Seq<Tree>
    decreases c.toks.len() - at,
{
    if at < 0 || at >= c.toks.len() {
        flushed(c, lost, c.toks.len() as int)
    } else {
        match p_rule(c, unit, at, DEPTH as nat) {
            Some((next, got)) => {
                if next > at {
                    flushed(c, lost, at) + got + if next <= c.toks.len() {
                        p_sweep(c, unit, next, None)
                    } else {
                        seq![]
                    }
                } else {
                    p_sweep(c, unit, at + 1, if lost is Some { lost } else { Some(at) })
                }
            },
            None => p_sweep(c, unit, at + 1, if lost is Some { lost } else { Some(at) }),
        }
    }
}

/// The root's children: the sweep with the rule named `unit`, or nothing without one.
pub open spec fn p_start(c: Ctx) -> Seq<Tree> {
    match lookup(c.rules, "unit"@) {
        Some(idx) => p_sweep(c, idx, 0, None),
        None => seq![],
    }
}

/// The tree `run` builds.
pub open spec fn spec_run(rules: Seq<RuleV>, toks: Seq<TokenV>, src: Seq<u8>, end: usize) -> Tree {
    Tree {
        kind: Kind::Root,
        start: 0,
        end,
        kids: p_start(Ctx { rules, toks, src }),
    }
}

pub proof fn lemma_trees_concat(a: Seq<Cst>, b: Seq<Cst>)
    ensures
        trees_of(a + b) == trees_of(a) + trees_of(b),
{
    assert(trees_of(a + b) =~= trees_of(a) + trees_of(b));
}

struct State<'a> {
    rules: &'a [Rule],
    toks: &'a [Token],
    src: &'a [u8],
}

impl<'a> State<'a> {
    spec fn ctx(&self) -> Ctx {
        Ctx { rules: rules_view(self.rules@), toks: toks_view(self.toks@), src: self.src@ }
    }

    spec fn good(&self) -> bool {
        fits(toks_view(self.toks@), self.src@.len() as int)
    }
}

/// Parses the tokens with the parser rules into a tree whose root spans `[0, end)`: the rule
/// named `unit` is applied where it makes progress, and each run of tokens where it does not
/// becomes one loose node. Rule references nest at most `DEPTH` deep, a bound no call stack
/// reaches; past it a reference would fail.
pub fn run(rules: &[Rule], toks: &[Token], src: &[u8], end: usize) -> (root: Cst)
    requires
        fits(toks_view(toks@), src@.len() as int),
    ensures
        root@ == spec_run(rules_view(rules@), toks_view(toks@), src@, end),
{
    let state = State { rules, toks, src };
    let kids = start(&state);
    let root = Cst { kind: Kind::Root, span: Span { start: 0, end }, kids };
    proof {
        crate::grammar::lemma_kids(root);
    }
    root
}

/// The index of the rule named `name`: the last one so named.
fn find(rules: &[Rule], name: &str) -> (res: Option<usize>)
    ensures
        res matches Some(i) ==> lookup(rules_view(rules@), name@) == Some(i as int) && i < rules@.len(),
        res is None ==> lookup(rules_view(rules@), name@) is None,
{
    let mut n = rules.len();
    while n > 0
        invariant
            n <= rules@.len(),
            spec_find(rules_view(rules@), name@, rules@.len()) == spec_find(rules_view(rules@), name@, n as nat),
        decreases n,
    {
        if same(rules[n - 1].name.as_str(), name) {
            return Some(n - 1);
        }
        n -= 1;
    }
    None
}

fn start(st: &State) -> (kids: Vec<Cst>)
    requires
        st.good(),
    ensures
        trees_of(kids@) == p_start(st.ctx()),
{
    match find(st.rules, "unit") {
        Some(idx) => sweep(st, idx),
        None => Vec::new(),
    }
}

fn sweep(st: &State, unit: usize) -> (kids: Vec<Cst>)
    requires
        st.good(),
        unit < st.rules@.len(),
    ensures
        trees_of(kids@) == p_sweep(st.ctx(), unit as int, 0, None),
{
    let mut at: usize = 0;
    let mut kids: Vec<Cst> = Vec::new();
    let mut lost: Option<usize> = None;
    while at < st.toks.len()
        invariant
            st.good(),
            unit < st.rules@.len(),
            at <= st.toks@.len(),
            lost matches Some(lo) ==> lo < at,
            trees_of(kids@) + p_sweep(st.ctx(), unit as int, at as int, at_opt(lost))
                == p_sweep(st.ctx(), unit as int, 0, None),
        decreases st.toks@.len() - at,
    {
        at = tick(st, unit, at, &mut kids, &mut lost);
    }
    let ghost before = kids@;
    flush(st, &mut kids, lost, st.toks.len());
    assert(trees_of(before) + flushed(st.ctx(), at_opt(lost), st.toks@.len() as int) == trees_of(kids@));
    kids
}

spec fn at_opt(lost: Option<usize>) -> Option<int> {
    match lost {
        Some(lo) => Some(lo as int),
        None => None,
    }
}

/// One sweep step that found no progress: it moves on by one token, keeps the nodes, and opens a
/// pending run at `at` unless one is open.
spec fn passed(at: usize, next: usize, k0: Seq<Cst>, k1: Seq<Cst>, l0: Option<usize>, l1: Option<usize>) -> bool {
    &&& next == at + 1
    &&& k1 == k0
    &&& l1 == Some(
        match l0 {
            Some(lo) => lo,
            None => at,
        },
    )
}

fn tick(st: &State, unit: usize, at: usize, kids: &mut Vec<Cst>, lost: &mut Option<usize>) -> (next: usize)
    requires
        st.good(),
        unit < st.rules@.len(),
        at < st.toks.len(),
        *old(lost) matches Some(lo) ==> lo < at,
    ensures
        at < next <= st.toks@.len(),
        *final(lost) matches Some(lo) ==> lo < next,
        (match p_rule(st.ctx(), unit as int, at as int, DEPTH as nat) {
            Some((n, got)) => if n > at {
                &&& next == n
                &&& *final(lost) is None
                &&& trees_of(final(kids)@) == trees_of(old(kids)@) + flushed(st.ctx(), at_opt(*old(lost)), at as int) + got
            } else {
                passed(at, next, old(kids)@, final(kids)@, *old(lost), *final(lost))
            },
            None => passed(at, next, old(kids)@, final(kids)@, *old(lost), *final(lost)),
        }),
        trees_of(final(kids)@) + p_sweep(st.ctx(), unit as int, next as int, at_opt(*final(lost)))
            == trees_of(old(kids)@) + p_sweep(st.ctx(), unit as int, at as int, at_opt(*old(lost))),
{
    let ghost c = st.ctx();
    let ghost before = at_opt(*old(lost));
    let hit = rule(st, unit, at, DEPTH);
    proof {
        assert(p_sweep(c, unit as int, at as int, before) == match p_rule(c, unit as int, at as int, DEPTH as nat) {
            Some((next, got)) => {
                if next > at {
                    flushed(c, before, at as int) + got + if next <= c.toks.len() {
                        p_sweep(c, unit as int, next, None)
                    } else {
                        seq![]
                    }
                } else {
                    p_sweep(c, unit as int, at + 1, if before is Some { before } else { Some(at as int) })
                }
            },
            None => p_sweep(c, unit as int, at + 1, if before is Some { before } else { Some(at as int) }),
        });
    }
    if let Some((next, got)) = hit {
        if next > at {
            let ghost k0 = kids@;
            let mut got = got;
            let ghost g = got@;
            flush(st, kids, lost.take(), at);
            let ghost k1 = kids@;
            kids.append(&mut got);
            proof {
                lemma_trees_concat(k1, g);
                assert(trees_of(kids@) + p_sweep(c, unit as int, next as int, None) =~= trees_of(k0)
                    + (flushed(c, before, at as int) + trees_of(g) + p_sweep(c, unit as int, next as int, None)));
            }
            return next;
        }
    }
    if lost.is_none() {
        *lost = Some(at);
    }
    at + 1
}

fn flush(st: &State, kids: &mut Vec<Cst>, lost: Option<usize>, end: usize)
    requires
        st.good(),
        end <= st.toks@.len(),
        lost matches Some(lo) ==> lo < end,
    ensures
        trees_of(final(kids)@) == trees_of(old(kids)@) + flushed(st.ctx(), at_opt(lost), end as int),
{
    if let Some(lo) = lost {
        kids.push(loose(st, lo, end));
        assert(trees_of(final(kids)@) =~= trees_of(old(kids)@) + flushed(st.ctx(), at_opt(lost), end as int));
    } else {
        assert(trees_of(final(kids)@) =~= trees_of(old(kids)@) + flushed(st.ctx(), at_opt(lost), end as int));
    }
}

fn loose(st: &State, lo: usize, end: usize) -> (c: Cst)
    requires
        lo < end <= st.toks@.len(),
    ensures
        c@ == loose_of(st.ctx(), lo as int, end as int),
{
    let start = st.toks[lo].start;
    let stop = st.toks[end - 1].end;
    let c = Cst { kind: Kind::Loose, span: Span { start, end: stop }, kids: Vec::new() };
    assert(c@.kids =~= seq![]);
    c
}

fn rule(st: &State, idx: usize, at: usize, fuel: usize) -> (res: Option<(usize, Vec<Cst>)>)
    requires
        st.good(),
        at <= st.toks@.len(),
        idx < st.rules@.len(),
    ensures
        match res {
            Some((n, kids)) => p_rule(st.ctx(), idx as int, at as int, fuel as nat) == Some((n as int, trees_of(kids@)))
                && at <= n <= st.toks@.len(),
            None => p_rule(st.ctx(), idx as int, at as int, fuel as nat) is None,
        },
    decreases fuel, 1int, st.rules@[idx as int].pat, 0int,
{
    let r = &st.rules[idx];
    let (next, kids) = match expr(st, &r.pat, at, fuel) {
        Some(hit) => hit,
        None => return None,
    };
    Some(wrap(st, r, at, next, kids))
}

fn wrap(st: &State, r: &Rule, at: usize, next: usize, kids: Vec<Cst>) -> (res: (usize, Vec<Cst>))
    requires
        at <= next <= st.toks@.len(),
    ensures
        res.0 == next,
        trees_of(res.1@) == wrapped(st.ctx(), r@, at as int, next as int, trees_of(kids@)),
{
    match kind(r) {
        Some(kind) => {
            let ghost ks = kids@;
            let n = node(kind, span(st, at, next), kids);
            let mut out = Vec::new();
            out.push(n);
            assert(n@.kids =~= trees_of(ks));
            assert(trees_of(out@) =~= wrapped(st.ctx(), r@, at as int, next as int, trees_of(ks)));
            (next, out)
        },
        None => (next, kids),
    }
}

fn kind(r: &Rule) -> (res: Option<Kind>)
    ensures
        res == tag_kind(r@),
{
    if crate::lex::tagged(r, "scope") {
        Some(Kind::Scope)
    } else if crate::lex::tagged(r, "item") {
        Some(Kind::Item)
    } else if crate::lex::tagged(r, "literal") {
        Some(Kind::Literal)
    } else if crate::lex::tagged(r, "pattern") {
        Some(Kind::Pattern)
    } else if crate::lex::tagged(r, "word") {
        Some(Kind::Word)
    } else {
        None
    }
}

fn node(kind: Kind, span: Span, kids: Vec<Cst>) -> (c: Cst)
    ensures
        c == (Cst { kind, span, kids }),
{
    Cst { kind, span, kids }
}

fn span(st: &State, at: usize, next: usize) -> (s: Span)
    ensures
        (s.start, s.end) == span_of(st.ctx(), at as int, next as int),
{
    let start = if at < st.toks.len() { st.toks[at].start } else { 0 };
    let end = if next > at && next <= st.toks.len() { st.toks[next - 1].end } else { start };
    Span { start, end }
}

fn expr(st: &State, pat: &Pat, at: usize, fuel: usize) -> (res: Option<(usize, Vec<Cst>)>)
    requires
        st.good(),
        at <= st.toks@.len(),
    ensures
        match res {
            Some((n, kids)) => p_expr(st.ctx(), pat@, at as int, fuel as nat) == Some((n as int, trees_of(kids@)))
                && at <= n <= st.toks@.len(),
            None => p_expr(st.ctx(), pat@, at as int, fuel as nat) is None,
        },
    decreases fuel, 0int, *pat, 2int,
{
    proof {
        lemma_pat_view(*pat);
    }
    match pat {
        Pat::Lit(want) => lit(st, want, at),
        Pat::Name(name) => refer(st, name, at, fuel),
        Pat::Any => any(st, at),
        Pat::Cat(parts) => seq(st, parts, at, fuel),
        Pat::Alt(parts) => alt(st, parts, at, fuel),
        Pat::Rep(inner, quant) => rep(st, inner, quant, at, fuel),
        Pat::Not(inner) => not(st, inner, at, fuel),
        Pat::Class(..) => None,
    }
}

fn lit(st: &State, want: &Vec<u8>, at: usize) -> (res: Option<(usize, Vec<Cst>)>)
    requires
        st.good(),
        at <= st.toks@.len(),
    ensures
        match res {
            Some((n, kids)) => p_expr(st.ctx(), PatV::Lit(want@), at as int, 0) == Some((n as int, trees_of(kids@)))
                && at <= n <= st.toks@.len(),
            None => p_expr(st.ctx(), PatV::Lit(want@), at as int, 0) is None,
        },
{
    if at < st.toks.len() && text(st, at, want) {
        let kids = Vec::new();
        assert(trees_of(kids@) =~= seq![]);
        return Some((at + 1, kids));
    }
    None
}

/// Whether the bytes of token `at` are `want`.
fn text(st: &State, at: usize, want: &Vec<u8>) -> (res: bool)
    requires
        st.good(),
        at < st.toks@.len(),
    ensures
        res == (tok_text(st.ctx(), at as int) == want@),
{
    let tok = &st.toks[at];
    assert(st.ctx().toks[at as int] == st.toks@[at as int]@);
    assert(st.ctx().toks[at as int].start <= st.ctx().toks[at as int].end);
    assert(tok.start <= tok.end && tok.end <= st.src@.len());
    if tok.end - tok.start != want.len() {
        assert(tok_text(st.ctx(), at as int).len() != want@.len());
        return false;
    }
    let mut i: usize = 0;
    while i < want.len()
        invariant
            tok.start <= tok.end,
            tok.end <= st.src@.len(),
            tok.end - tok.start == want@.len(),
            *tok == st.toks@[at as int],
            st.ctx().toks[at as int].start == tok.start,
            st.ctx().toks[at as int].end == tok.end,
            i <= want@.len(),
            forall|j: int| 0 <= j < i ==> st.src@[tok.start + j] == want@[j],
        decreases want@.len() - i,
    {
        if st.src[tok.start + i] != want[i] {
            assert(tok_text(st.ctx(), at as int)[i as int] != want@[i as int]);
            return false;
        }
        i += 1;
    }
    assert(tok_text(st.ctx(), at as int) =~= want@);
    true
}

fn refer(st: &State, name: &String, at: usize, fuel: usize) -> (res: Option<(usize, Vec<Cst>)>)
    requires
        st.good(),
        at <= st.toks@.len(),
    ensures
        match res {
            Some((n, kids)) => p_expr(st.ctx(), PatV::Name(name@), at as int, fuel as nat) == Some((n as int, trees_of(kids@)))
                && at <= n <= st.toks@.len(),
            None => p_expr(st.ctx(), PatV::Name(name@), at as int, fuel as nat) is None,
        },
    decreases fuel, 0int, Pat::Name(*name), 1int,
{
    match find(st.rules, name.as_str()) {
        Some(idx) => {
            if fuel == 0 {
                None
            } else {
                rule(st, idx, at, fuel - 1)
            }
        },
        None => term(st, name, at),
    }
}

fn term(st: &State, name: &String, at: usize) -> (res: Option<(usize, Vec<Cst>)>)
    requires
        st.good(),
        at <= st.toks@.len(),
        lookup(rules_view(st.rules@), name@) is None,
    ensures
        match res {
            Some((n, kids)) => p_expr(st.ctx(), PatV::Name(name@), at as int, 0) == Some((n as int, trees_of(kids@)))
                && at <= n <= st.toks@.len(),
            None => p_expr(st.ctx(), PatV::Name(name@), at as int, 0) is None,
        },
{
    if at < st.toks.len() && same(st.toks[at].name.as_str(), name.as_str()) {
        let kids = Vec::new();
        assert(trees_of(kids@) =~= seq![]);
        return Some((at + 1, kids));
    }
    None
}

fn any(st: &State, at: usize) -> (res: Option<(usize, Vec<Cst>)>)
    requires
        at <= st.toks@.len(),
    ensures
        match res {
            Some((n, kids)) => p_expr(st.ctx(), PatV::Any, at as int, 0) == Some((n as int, trees_of(kids@)))
                && at <= n <= st.toks@.len(),
            None => p_expr(st.ctx(), PatV::Any, at as int, 0) is None,
        },
{
    if at < st.toks.len() {
        let kids = Vec::new();
        assert(trees_of(kids@) =~= seq![]);
        Some((at + 1, kids))
    } else {
        None
    }
}

fn seq(st: &State, parts: &Vec<Pat>, at: usize, fuel: usize) -> (res: Option<(usize, Vec<Cst>)>)
    requires
        st.good(),
        at <= st.toks@.len(),
    ensures
        match res {
            Some((n, kids)) => p_seq(st.ctx(), pats_view(parts@), at as int, fuel as nat) == Some((n as int, trees_of(kids@)))
                && at <= n <= st.toks@.len(),
            None => p_seq(st.ctx(), pats_view(parts@), at as int, fuel as nat) is None,
        },
    decreases fuel, 0int, parts, 0int,
{
    let mut pos = at;
    let mut kids: Vec<Cst> = Vec::new();
    let mut i: usize = 0;
    assert(pats_view(parts@).skip(0) =~= pats_view(parts@));
    while i < parts.len()
        invariant
            st.good(),
            at <= pos <= st.toks@.len(),
            i <= parts@.len(),
            p_seq(st.ctx(), pats_view(parts@), at as int, fuel as nat) == match p_seq(st.ctx(), pats_view(parts@).skip(i as int), pos as int, fuel as nat) {
                Some((end, rest)) => Some((end, trees_of(kids@) + rest)),
                None => None,
            },
        decreases parts@.len() - i,
    {
        assert(pats_view(parts@).skip(i as int).drop_first() =~= pats_view(parts@).skip(i + 1));
        let (next, mut got) = match expr(st, &parts[i], pos, fuel) {
            Some(hit) => hit,
            None => return None,
        };
        let ghost k0 = kids@;
        let ghost g = got@;
        pos = next;
        kids.append(&mut got);
        proof {
            lemma_trees_concat(k0, g);
            if let Some((end, rest)) = p_seq(st.ctx(), pats_view(parts@).skip(i + 1), pos as int, fuel as nat) {
                assert(trees_of(k0) + (trees_of(g) + rest) =~= trees_of(kids@) + rest);
            }
        }
        i += 1;
    }
    assert(trees_of(kids@) + seq![] =~= trees_of(kids@));
    Some((pos, kids))
}

fn alt(st: &State, parts: &Vec<Pat>, at: usize, fuel: usize) -> (res: Option<(usize, Vec<Cst>)>)
    requires
        st.good(),
        at <= st.toks@.len(),
    ensures
        match res {
            Some((n, kids)) => p_alt(st.ctx(), pats_view(parts@), at as int, fuel as nat) == Some((n as int, trees_of(kids@)))
                && at <= n <= st.toks@.len(),
            None => p_alt(st.ctx(), pats_view(parts@), at as int, fuel as nat) is None,
        },
    decreases fuel, 0int, parts, 0int,
{
    let mut i: usize = 0;
    assert(pats_view(parts@).skip(0) =~= pats_view(parts@));
    while i < parts.len()
        invariant
            st.good(),
            at <= st.toks@.len(),
            i <= parts@.len(),
            p_alt(st.ctx(), pats_view(parts@), at as int, fuel as nat) == p_alt(st.ctx(), pats_view(parts@).skip(i as int), at as int, fuel as nat),
        decreases parts@.len() - i,
    {
        assert(pats_view(parts@).skip(i as int).drop_first() =~= pats_view(parts@).skip(i + 1));
        if let Some(hit) = expr(st, &parts[i], at, fuel) {
            return Some(hit);
        }
        i += 1;
    }
    None
}

fn rep(st: &State, inner: &Pat, quant: &Quant, at: usize, fuel: usize) -> (res: Option<(usize, Vec<Cst>)>)
    requires
        st.good(),
        at <= st.toks@.len(),
    ensures
        match res {
            Some((n, kids)) => p_expr(st.ctx(), PatV::Rep(Box::new(inner@), *quant), at as int, fuel as nat) == Some((n as int, trees_of(kids@)))
                && at <= n <= st.toks@.len(),
            None => p_expr(st.ctx(), PatV::Rep(Box::new(inner@), *quant), at as int, fuel as nat) is None,
        },
    decreases fuel, 0int, *inner, st.toks@.len() - at + 5,
{
    match quant {
        Quant::Opt => Some(opt(st, inner, at, fuel)),
        Quant::Star => Some(star(st, inner, at, fuel)),
        Quant::Plus => plus(st, inner, at, fuel),
    }
}

fn opt(st: &State, inner: &Pat, at: usize, fuel: usize) -> (res: (usize, Vec<Cst>))
    requires
        st.good(),
        at <= st.toks@.len(),
    ensures
        p_expr(st.ctx(), PatV::Rep(Box::new(inner@), Quant::Opt), at as int, fuel as nat) == Some((res.0 as int, trees_of(res.1@))),
        at <= res.0 <= st.toks@.len(),
    decreases fuel, 0int, *inner, st.toks@.len() - at + 4,
{
    match expr(st, inner, at, fuel) {
        Some(hit) => hit,
        None => {
            let kids = Vec::new();
            assert(trees_of(kids@) =~= seq![]);
            (at, kids)
        },
    }
}

fn star(st: &State, inner: &Pat, at: usize, fuel: usize) -> (res: (usize, Vec<Cst>))
    requires
        st.good(),
        at <= st.toks@.len(),
    ensures
        p_star(st.ctx(), inner@, at as int, fuel as nat) == (res.0 as int, trees_of(res.1@)),
        at <= res.0 <= st.toks@.len(),
    decreases fuel, 0int, *inner, st.toks@.len() - at + 3,
{
    let mut pos = at;
    let mut kids: Vec<Cst> = Vec::new();
    loop
        invariant
            st.good(),
            at <= pos <= st.toks@.len(),
            p_star(st.ctx(), inner@, at as int, fuel as nat) == ({
                let (end, rest) = p_star(st.ctx(), inner@, pos as int, fuel as nat);
                (end, trees_of(kids@) + rest)
            }),
        decreases st.toks@.len() - pos,
    {
        let (next, mut got) = match expr(st, inner, pos, fuel) {
            Some(hit) => hit,
            None => {
                assert(trees_of(kids@) + seq![] =~= trees_of(kids@));
                return (pos, kids);
            },
        };
        if next == pos {
            assert(trees_of(kids@) + seq![] =~= trees_of(kids@));
            return (pos, kids);
        }
        let ghost k0 = kids@;
        let ghost g = got@;
        pos = next;
        kids.append(&mut got);
        proof {
            lemma_trees_concat(k0, g);
            let (end, rest) = p_star(st.ctx(), inner@, pos as int, fuel as nat);
            assert(trees_of(k0) + (trees_of(g) + rest) =~= trees_of(kids@) + rest);
        }
    }
}

fn plus(st: &State, inner: &Pat, at: usize, fuel: usize) -> (res: Option<(usize, Vec<Cst>)>)
    requires
        st.good(),
        at <= st.toks@.len(),
    ensures
        match res {
            Some((n, kids)) => p_expr(st.ctx(), PatV::Rep(Box::new(inner@), Quant::Plus), at as int, fuel as nat) == Some((n as int, trees_of(kids@)))
                && at <= n <= st.toks@.len(),
            None => p_expr(st.ctx(), PatV::Rep(Box::new(inner@), Quant::Plus), at as int, fuel as nat) is None,
        },
    decreases fuel, 0int, *inner, st.toks@.len() - at + 4,
{
    let (end, kids) = star(st, inner, at, fuel);
    if end > at { Some((end, kids)) } else { None }
}

fn not(st: &State, inner: &Pat, at: usize, fuel: usize) -> (res: Option<(usize, Vec<Cst>)>)
    requires
        st.good(),
        at <= st.toks@.len(),
    ensures
        match res {
            Some((n, kids)) => p_expr(st.ctx(), PatV::Not(Box::new(inner@)), at as int, fuel as nat) == Some((n as int, trees_of(kids@)))
                && at <= n <= st.toks@.len(),
            None => p_expr(st.ctx(), PatV::Not(Box::new(inner@)), at as int, fuel as nat) is None,
        },
    decreases fuel, 0int, *inner, 3int,
{
    match expr(st, inner, at, fuel) {
        Some(_) => None,
        None => {
            let kids = Vec::new();
            assert(trees_of(kids@) =~= seq![]);
            Some((at, kids))
        },
    }
}

/// The nodes a pattern yields are at most `fuel` levels high.
pub proof fn lemma_expr_height(c: Ctx, pat: PatV, at: int, fuel: nat)
    ensures
        p_expr(c, pat, at, fuel) matches Some((_, ts)) ==> all_bounded(ts, fuel as int),
    decreases fuel, 0int, pat, 0int,
{
    match pat {
        PatV::Name(name) => match lookup(c.rules, name) {
            Some(idx) => {
                if fuel > 0 {
                    lemma_rule_height(c, idx, at, (fuel - 1) as nat);
                }
            },
            None => {},
        },
        PatV::Cat(parts) => lemma_seq_height(c, parts, at, fuel),
        PatV::Alt(parts) => lemma_alt_height(c, parts, at, fuel),
        PatV::Rep(inner, quant) => {
            lemma_expr_height(c, *inner, at, fuel);
            lemma_star_height(c, *inner, at, fuel);
        },
        _ => {},
    }
}

/// The nodes a rule yields are at most `fuel + 1` levels high.
pub proof fn lemma_rule_height(c: Ctx, idx: int, at: int, fuel: nat)
    ensures
        p_rule(c, idx, at, fuel) matches Some((_, ts)) ==> all_bounded(ts, fuel + 1int),
    decreases fuel, 1int, c.rules[idx].pat, 0int,
{
    if 0 <= idx < c.rules.len() {
        lemma_expr_height(c, c.rules[idx].pat, at, fuel);
        if let Some((next, kids)) = p_expr(c, c.rules[idx].pat, at, fuel) {
            lemma_all_up(kids, fuel as int, fuel + 1int);
            match tag_kind(c.rules[idx]) {
                Some(kind) => {
                    let t = wrapped(c, c.rules[idx], at, next, kids)[0];
                    assert(t.kids == kids);
                    assert(bounded(t, fuel + 1int));
                },
                None => {},
            }
        }
    }
}

pub proof fn lemma_seq_height(c: Ctx, parts: Seq<PatV>, at: int, fuel: nat)
    ensures
        p_seq(c, parts, at, fuel) matches Some((_, ts)) ==> all_bounded(ts, fuel as int),
    decreases fuel, 0int, parts, 0int,
{
    if parts.len() > 0 {
        lemma_expr_height(c, parts[0], at, fuel);
        if let Some((next, got)) = p_expr(c, parts[0], at, fuel) {
            lemma_seq_height(c, parts.drop_first(), next, fuel);
            if let Some((end, rest)) = p_seq(c, parts.drop_first(), next, fuel) {
                lemma_all_concat(got, rest, fuel as int);
            }
        }
    }
}

pub proof fn lemma_alt_height(c: Ctx, parts: Seq<PatV>, at: int, fuel: nat)
    ensures
        p_alt(c, parts, at, fuel) matches Some((_, ts)) ==> all_bounded(ts, fuel as int),
    decreases fuel, 0int, parts, 0int,
{
    if parts.len() > 0 {
        lemma_expr_height(c, parts[0], at, fuel);
        lemma_alt_height(c, parts.drop_first(), at, fuel);
    }
}

pub proof fn lemma_star_height(c: Ctx, inner: PatV, at: int, fuel: nat)
    ensures
        all_bounded(p_star(c, inner, at, fuel).1, fuel as int),
    decreases fuel, 0int, inner, c.toks.len() - at + 1,
{
    if 0 <= at <= c.toks.len() {
        lemma_expr_height(c, inner, at, fuel);
        if let Some((next, got)) = p_expr(c, inner, at, fuel) {
            if at < next <= c.toks.len() {
                lemma_star_height(c, inner, next, fuel);
                lemma_all_concat(got, p_star(c, inner, next, fuel).1, fuel as int);
            }
        }
    }
}

/// The sweep's nodes are at most `DEPTH + 1` levels high.
pub proof fn lemma_sweep_height(c: Ctx, unit: int, at: int, lost: Option<int>)
    ensures
        all_bounded(p_sweep(c, unit, at, lost), DEPTH + 1),
    decreases c.toks.len() - at,
{
    let loose = flushed(c, lost, if at < 0 || at >= c.toks.len() { c.toks.len() as int } else { at });
    assert(all_bounded(loose, 1));
    lemma_all_up(loose, 1, DEPTH + 1);
    if !(at < 0 || at >= c.toks.len()) {
        lemma_rule_height(c, unit, at, DEPTH as nat);
        match p_rule(c, unit, at, DEPTH as nat) {
            Some((next, got)) => {
                if next > at {
                    if next <= c.toks.len() {
                        lemma_sweep_height(c, unit, next, None);
                        lemma_all_concat(got, p_sweep(c, unit, next, None), DEPTH + 1);
                        lemma_all_concat(loose, got + p_sweep(c, unit, next, None), DEPTH + 1);
                        assert(p_sweep(c, unit, at, lost) =~= loose + (got + p_sweep(c, unit, next, None)));
                    } else {
                        lemma_all_concat(loose, got, DEPTH + 1);
                        assert(p_sweep(c, unit, at, lost) =~= loose + got);
                    }
                } else {
                    lemma_sweep_height(c, unit, at + 1, if lost is Some { lost } else { Some(at) });
                }
            },
            None => {
                lemma_sweep_height(c, unit, at + 1, if lost is Some { lost } else { Some(at) });
            },
        }
    }
}

/// The root's children are at most `DEPTH + 1` levels high.
pub proof fn lemma_start_height(c: Ctx)
    ensures
        all_bounded(p_start(c), DEPTH + 1),
{
    if let Some(idx) = lookup(c.rules, "unit"@) {
        lemma_sweep_height(c, idx, 0, None);
    }
}

/// The nodes a pattern yields are below-root nodes within the source, and no patterns when
/// `free` and no rule carries the `pattern` tag.
pub proof fn lemma_expr_inner(c: Ctx, pat: PatV, at: int, fuel: nat, free: bool)
    requires
        fits(c.toks, c.src.len() as int),
        free ==> forall|i: int| 0 <= i < c.rules.len() ==> (#[trigger] c.rules[i]).tag != Some("pattern"@),
    ensures
        p_expr(c, pat, at, fuel) matches Some((_, ts)) ==> all_inner(ts, c.src.len() as int, free),
    decreases fuel, 0int, pat, 0int,
{
    match pat {
        PatV::Name(name) => match lookup(c.rules, name) {
            Some(idx) => {
                if fuel > 0 {
                    lemma_rule_inner(c, idx, at, (fuel - 1) as nat, free);
                }
            },
            None => {},
        },
        PatV::Cat(parts) => lemma_seq_inner(c, parts, at, fuel, free),
        PatV::Alt(parts) => lemma_alt_inner(c, parts, at, fuel, free),
        PatV::Rep(inner, quant) => {
            lemma_expr_inner(c, *inner, at, fuel, free);
            lemma_star_inner(c, *inner, at, fuel, free);
        },
        _ => {},
    }
}

/// The nodes a rule yields are below-root nodes within the source.
pub proof fn lemma_rule_inner(c: Ctx, idx: int, at: int, fuel: nat, free: bool)
    requires
        fits(c.toks, c.src.len() as int),
        free ==> forall|i: int| 0 <= i < c.rules.len() ==> (#[trigger] c.rules[i]).tag != Some("pattern"@),
    ensures
        p_rule(c, idx, at, fuel) matches Some((_, ts)) ==> all_inner(ts, c.src.len() as int, free),
    decreases fuel, 1int, c.rules[idx].pat, 0int,
{
    if 0 <= idx < c.rules.len() {
        lemma_expr_inner(c, c.rules[idx].pat, at, fuel, free);
        if let Some((next, kids)) = p_expr(c, c.rules[idx].pat, at, fuel) {
            match tag_kind(c.rules[idx]) {
                Some(kind) => {
                    let t = wrapped(c, c.rules[idx], at, next, kids)[0];
                    assert(t.kids == kids);
                    if free {
                        assert(c.rules[idx].tag != Some("pattern"@));
                    }
                    if 0 <= at < c.toks.len() {
                        assert(c.toks[at].start <= c.toks[at].end);
                    }
                    if 0 < next <= c.toks.len() {
                        assert(c.toks[next - 1].start <= c.toks[next - 1].end);
                    }
                    assert(inner(t, c.src.len() as int, free));
                },
                None => {},
            }
        }
    }
}

pub proof fn lemma_seq_inner(c: Ctx, parts: Seq<PatV>, at: int, fuel: nat, free: bool)
    requires
        fits(c.toks, c.src.len() as int),
        free ==> forall|i: int| 0 <= i < c.rules.len() ==> (#[trigger] c.rules[i]).tag != Some("pattern"@),
    ensures
        p_seq(c, parts, at, fuel) matches Some((_, ts)) ==> all_inner(ts, c.src.len() as int, free),
    decreases fuel, 0int, parts, 0int,
{
    if parts.len() > 0 {
        lemma_expr_inner(c, parts[0], at, fuel, free);
        if let Some((next, got)) = p_expr(c, parts[0], at, fuel) {
            lemma_seq_inner(c, parts.drop_first(), next, fuel, free);
            if let Some((end, rest)) = p_seq(c, parts.drop_first(), next, fuel) {
                lemma_inner_concat(got, rest, c.src.len() as int, free);
            }
        }
    }
}

pub proof fn lemma_alt_inner(c: Ctx, parts: Seq<PatV>, at: int, fuel: nat, free: bool)
    requires
        fits(c.toks, c.src.len() as int),
        free ==> forall|i: int| 0 <= i < c.rules.len() ==> (#[trigger] c.rules[i]).tag != Some("pattern"@),
    ensures
        p_alt(c, parts, at, fuel) matches Some((_, ts)) ==> all_inner(ts, c.src.len() as int, free),
    decreases fuel, 0int, parts, 0int,
{
    if parts.len() > 0 {
        lemma_expr_inner(c, parts[0], at, fuel, free);
        lemma_alt_inner(c, parts.drop_first(), at, fuel, free);
    }
}

pub proof fn lemma_star_inner(c: Ctx, inner: PatV, at: int, fuel: nat, free: bool)
    requires
        fits(c.toks, c.src.len() as int),
        free ==> forall|i: int| 0 <= i < c.rules.len() ==> (#[trigger] c.rules[i]).tag != Some("pattern"@),
    ensures
        all_inner(p_star(c, inner, at, fuel).1, c.src.len() as int, free),
    decreases fuel, 0int, inner, c.toks.len() - at + 1,
{
    if 0 <= at <= c.toks.len() {
        lemma_expr_inner(c, inner, at, fuel, free);
        if let Some((next, got)) = p_expr(c, inner, at, fuel) {
            if at < next <= c.toks.len() {
                lemma_star_inner(c, inner, next, fuel, free);
                lemma_inner_concat(got, p_star(c, inner, next, fuel).1, c.src.len() as int, free);
            }
        }
    }
}

proof fn lemma_flushed_top(c: Ctx, lost: Option<int>, end: int, free: bool)
    requires
        fits(c.toks, c.src.len() as int),
        end <= c.toks.len(),
        lost matches Some(lo) ==> 0 <= lo < end,
    ensures
        all_top(flushed(c, lost, end), c.src.len() as int, free),
{
    if let Some(lo) = lost {
        assert(c.toks[lo].start <= c.toks[lo].end);
        assert(c.toks[end - 1].start <= c.toks[end - 1].end);
        assert(top(flushed(c, lost, end)[0], c.src.len() as int, free));
    }
}

/// The sweep's nodes are loose regions without children, or below-root nodes, within the
/// source.
pub proof fn lemma_sweep_top(c: Ctx, unit: int, at: int, lost: Option<int>, free: bool)
    requires
        fits(c.toks, c.src.len() as int),
        free ==> forall|i: int| 0 <= i < c.rules.len() ==> (#[trigger] c.rules[i]).tag != Some("pattern"@),
        0 <= at,
        lost matches Some(lo) ==> 0 <= lo < at && lo < c.toks.len(),
    ensures
        all_top(p_sweep(c, unit, at, lost), c.src.len() as int, free),
    decreases c.toks.len() - at,
{
    let len = c.src.len() as int;
    if at >= c.toks.len() {
        lemma_flushed_top(c, lost, c.toks.len() as int, free);
    } else {
        lemma_rule_inner(c, unit, at, DEPTH as nat, free);
        match p_rule(c, unit, at, DEPTH as nat) {
            Some((next, got)) => {
                if next > at {
                    let loose = flushed(c, lost, at);
                    lemma_flushed_top(c, lost, at, free);
                    assert(all_top(got, len, free)) by {
                        assert forall|i: int| 0 <= i < got.len() implies top(#[trigger] got[i], len, free) by {
                            assert(inner(got[i], len, free));
                        }
                    }
                    if next <= c.toks.len() {
                        lemma_sweep_top(c, unit, next, None, free);
                        lemma_top_concat(got, p_sweep(c, unit, next, None), len, free);
                        lemma_top_concat(loose, got + p_sweep(c, unit, next, None), len, free);
                        assert(p_sweep(c, unit, at, lost) =~= loose + (got + p_sweep(c, unit, next, None)));
                    } else {
                        lemma_top_concat(loose, got, len, free);
                        assert(p_sweep(c, unit, at, lost) =~= loose + got);
                    }
                } else {
                    lemma_sweep_top(c, unit, at + 1, if lost is Some { lost } else { Some(at) }, free);
                }
            },
            None => {
                lemma_sweep_top(c, unit, at + 1, if lost is Some { lost } else { Some(at) }, free);
            },
        }
    }
}

/// The root's children are loose regions without children, or below-root nodes, within the
/// source.
pub proof fn lemma_start_top(c: Ctx, free: bool)
    requires
        fits(c.toks, c.src.len() as int),
        free ==> forall|i: int| 0 <= i < c.rules.len() ==> (#[trigger] c.rules[i]).tag != Some("pattern"@),
    ensures
        all_top(p_start(c), c.src.len() as int, free),
{
    if let Some(idx) = lookup(c.rules, "unit"@) {
        lemma_sweep_top(c, idx, 0, None, free);
    }
}

} // verus!
