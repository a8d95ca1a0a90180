use vstd::prelude::*;
use vstd::string::StringSliceAdditionalSpecFns;
use vstd::string::StrSliceExecFns;
use crate::lex::{Slot, Token, TokenV, lex, spec_lex, toks_view};
use crate::parse::{Ctx, DEPTH, fits, p_start};
use crate::peg::{Rule, RuleV, rules_view};
use crate::rust::rust_grammar;
use crate::text::{ends, ends_with};

verus! {

/// A source file: its path relative to the checked root, and its text.
pub struct Source {
    pub path: String,
    pub text: String,
}

/// The structural role of a node.
#[derive(Clone, Copy, PartialEq, Eq, Structural)]
pub enum Kind {
    Root,
    Scope,
    Item,
    Literal,
    Pattern,
    Comment,
    Loose,
    Word,
}

/// A byte range of the source.
pub struct Span {
    pub start: usize,
    pub end: usize,
}

/// A node of the concrete tree.
pub struct Cst {
    pub kind: Kind,
    pub span: Span,
    pub kids: Vec<Cst>,
}

/// The mathematical form of a concrete tree.
pub struct Tree {
    pub kind: Kind,
    pub start: usize,
    pub end: usize,
    pub kids: Seq<Tree>,
}

pub open spec fn tree_of(c: Cst) -> Tree
    decreases c,
{
    Tree {
        kind: c.kind,
        start: c.span.start,
        end: c.span.end,
        kids: Seq::new(
            c.kids@.len(),
            |i: int|
                if 0 <= i < c.kids@.len() {
                    tree_of(c.kids@[i])
                } else {
                    Tree { kind: Kind::Root, start: 0, end: 0, kids: Seq::empty() }
                },
        ),
    }
}

pub open spec fn trees_of(cs: Seq<Cst>) -> Seq<Tree> {
    Seq::new(cs.len(), |i: int| tree_of(cs[i]))
}

/// The view of a node's children is the view of each child.
pub proof fn lemma_kids(c: Cst)
    ensures
        c@.kids == trees_of(c.kids@),
        c@.kind == c.kind,
        c@.start == c.span.start,
        c@.end == c.span.end,
{
    assert(c@.kids =~= trees_of(c.kids@));
}

impl View for Cst {
    type V = Tree;

    open spec fn view(&self) -> Tree {
        tree_of(*self)
    }
}

/// The UTF-8 bytes of a text.
pub open spec fn text_bytes(text: String) -> Seq<u8> {
    vstd::utf8::encode_utf8(text@)
}

/// Whether a rule name starts with an upper-case ASCII letter, which makes it a lexer rule.
pub open spec fn is_upper(name: Seq<char>) -> bool {
    name.len() > 0 && 'A' <= name[0] && name[0] <= 'Z'
}

/// The lexer rules (`lexer` true) or the parser rules of `rs`, in order.
pub open spec fn pick(rs: Seq<RuleV>, lexer: bool) -> Seq<RuleV>
    decreases rs.len(),
{
    if rs.len() == 0 {
        seq![]
    } else {
        let rest = pick(rs.drop_last(), lexer);
        if is_upper(rs.last().name) == lexer {
            rest.push(rs.last())
        } else {
            rest
        }
    }
}

/// The tokens the parser reads: all but the comments.
pub open spec fn sig_of(ts: Seq<TokenV>) -> Seq<TokenV>
    decreases ts.len(),
{
    if ts.len() == 0 {
        seq![]
    } else {
        let rest = sig_of(ts.drop_last());
        if ts.last().kind == Slot::Comment {
            rest
        } else {
            rest.push(ts.last())
        }
    }
}

/// The spans of the comment tokens.
pub open spec fn notes_of(ts: Seq<TokenV>) -> Seq<Tree>
    decreases ts.len(),
{
    if ts.len() == 0 {
        seq![]
    } else {
        let rest = notes_of(ts.drop_last());
        if ts.last().kind == Slot::Comment {
            rest.push(Tree { kind: Kind::Comment, start: ts.last().start, end: ts.last().end, kids: seq![] })
        } else {
            rest
        }
    }
}

/// The tree of a source read with the brace grammar: the parse of its significant tokens,
/// then one comment node per comment.
pub open spec fn braces_v(text: Seq<u8>) -> Tree {
    let toks = spec_lex(pick(rust_grammar(), true), text, 0);
    Tree {
        kind: Kind::Root,
        start: 0,
        end: text.len() as usize,
        kids: p_start(Ctx { rules: pick(rust_grammar(), false), toks: sig_of(toks), src: text })
            + notes_of(toks),
    }
}

/// A root with no children over the whole text.
pub open spec fn bare_v(text: Seq<u8>) -> Tree {
    Tree { kind: Kind::Root, start: 0, end: text.len() as usize, kids: seq![] }
}

/// An open markdown section: its heading level, where it starts, and its children so far.
pub struct HeadV {
    pub level: usize,
    pub start: usize,
    pub kids: Seq<Tree>,
}

/// The index of the first newline at or after `at`, or the length.
pub open spec fn eol_v(s: Seq<u8>, at: int) -> int
    decreases s.len() - at,
{
    if at < 0 || at >= s.len() || s[at] == 10u8 {
        if at < 0 { 0 } else if at >= s.len() { s.len() as int } else { at }
    } else {
        eol_v(s, at + 1)
    }
}

pub proof fn lemma_eol(s: Seq<u8>, at: int)
    requires
        0 <= at <= s.len(),
    ensures
        at <= eol_v(s, at) <= s.len(),
        eol_v(s, at) < s.len() ==> s[eol_v(s, at)] == 10u8,
        forall|j: int| at <= j < eol_v(s, at) ==> s[j] != 10u8,
    decreases s.len() - at,
{
    if at < s.len() && s[at] != 10u8 {
        lemma_eol(s, at + 1);
    }
}

/// The index of the first byte at or after `at` and before `end` that is not `#`, or `end`.
pub open spec fn run_v(s: Seq<u8>, at: int, end: int) -> int
    decreases end - at,
{
    if at >= end || !(0 <= at < s.len()) || s[at] != 35u8 {
        at
    } else {
        run_v(s, at + 1, end)
    }
}

/// The heading level of the line `[at, end)`: the number of leading `#`, when they are
/// followed by a space; else zero.
pub open spec fn level_v(s: Seq<u8>, at: int, end: int) -> int {
    let run = run_v(s, at, end);
    if run - at > 0 && run < end && s[run] == 32u8 {
        run - at
    } else {
        0
    }
}

/// Closes the innermost open section at `at`, making it a scope node of its parent.
pub open spec fn close_v(stack: Seq<HeadV>, at: usize) -> Seq<HeadV> {
    let done = stack.last();
    let rest = stack.drop_last();
    let parent = rest.last();
    rest.drop_last().push(
        HeadV {
            kids: parent.kids.push(Tree { kind: Kind::Scope, start: done.start, end: at, kids: done.kids }),
            ..parent
        },
    )
}

/// Closes every open section of level `level` or deeper.
pub open spec fn settle_v(stack: Seq<HeadV>, level: usize, at: usize) -> Seq<HeadV>
    decreases stack.len(),
{
    if stack.len() > 1 && stack.last().level >= level {
        settle_v(close_v(stack, at), level, at)
    } else {
        stack
    }
}

/// The start of the line after the one ending at `end`.
pub open spec fn step_v(s: Seq<u8>, end: int) -> int {
    if end < s.len() { end + 1 } else { end }
}

/// The open sections after reading the lines from `at` on.
pub open spec fn rows_v(s: Seq<u8>, at: int, stack: Seq<HeadV>) -> Seq<HeadV>
    decreases s.len() - at,
{
    if at < 0 || at >= s.len() {
        stack
    } else {
        let end = eol_v(s, at);
        proof {
            lemma_eol(s, at);
        }
        let level = level_v(s, at, end);
        let next = if level > 0 {
            settle_v(stack, level as usize, at as usize).push(HeadV { level: level as usize, start: at as usize, kids: seq![] })
        } else {
            stack
        };
        rows_v(s, step_v(s, end), next)
    }
}

/// The tree of a markdown text: each heading opens a scope that runs until the next heading
/// of the same or a shallower level, or the end of the text.
pub open spec fn heads_v(s: Seq<u8>) -> Tree {
    let stack = settle_v(rows_v(s, 0, seq![HeadV { level: 0, start: 0, kids: seq![] }]), 1, s.len() as usize);
    Tree { kind: Kind::Root, start: 0, end: s.len() as usize, kids: stack.last().kids }
}

/// The tree `parse` builds for a source with this path and text bytes.
pub open spec fn spec_parse(path: Seq<char>, text: Seq<u8>) -> Tree {
    if ends_with(path, ".md"@) {
        heads_v(text)
    } else if ends_with(path, ".rs"@) || ends_with(path, ".ts"@) {
        braces_v(text)
    } else {
        bare_v(text)
    }
}

/// Parses a source into its concrete tree: markdown by headings, Rust and TypeScript with the
/// brace grammar, anything else as a bare root.
pub fn parse(source: &Source) -> (root: Cst)
    ensures
        root@ == spec_parse(source.path@, text_bytes(source.text)),
{
    if ends(source.path.as_str(), ".md") {
        return heads(source);
    }
    if ends(source.path.as_str(), ".rs") || ends(source.path.as_str(), ".ts") {
        return braces(source);
    }
    bare(source)
}

fn bare(source: &Source) -> (root: Cst)
    ensures
        root@ == bare_v(text_bytes(source.text)),
{
    let root = Cst { kind: Kind::Root, span: whole(source), kids: Vec::new() };
    proof {
        lemma_kids(root);
        assert(root@.kids =~= seq![]);
    }
    root
}

fn whole(source: &Source) -> (span: Span)
    ensures
        span.start == 0,
        span.end == text_bytes(source.text).len() as usize,
{
    Span { start: 0, end: source.text.as_str().len() }
}

/// Every token of `spec_lex(rules, s, at)` lies in `[at, s.len()]` and is not empty.
pub proof fn lemma_lex_bounds(rules: Seq<RuleV>, s: Seq<u8>, at: int)
    requires
        0 <= at,
        s.len() <= usize::MAX,
    ensures
        forall|k: int| 0 <= k < spec_lex(rules, s, at).len() ==>
            at <= #[trigger] spec_lex(rules, s, at)[k].start && spec_lex(rules, s, at)[k].start < spec_lex(rules, s, at)[k].end
                && spec_lex(rules, s, at)[k].end <= s.len(),
    decreases s.len() - at,
{
    if at < s.len() {
        match crate::lex::spec_longest(rules, s, at, rules.len()) {
            Some((i, end)) => {
                if at < end <= s.len() {
                    lemma_lex_bounds(rules, s, end);
                    let e = crate::lex::emitted(rules[i], at, end);
                    let r = spec_lex(rules, s, end);
                    assert(spec_lex(rules, s, at) == e + r);
                    assert forall|k: int| 0 <= k < (e + r).len() implies at <= #[trigger] (e + r)[k].start
                        && (e + r)[k].start < (e + r)[k].end && (e + r)[k].end <= s.len() by {
                        if k < e.len() {
                            assert((e + r)[k] == e[k]);
                        } else {
                            assert((e + r)[k] == r[k - e.len()]);
                        }
                    }
                }
            },
            None => {
                lemma_lex_bounds(rules, s, at + 1);
            },
        }
    }
}

/// Every significant token is one of the tokens.
pub proof fn lemma_sig_within(ts: Seq<TokenV>, len: int)
    requires
        forall|k: int| 0 <= k < ts.len() ==> (#[trigger] ts[k]).start <= ts[k].end && ts[k].end <= len,
    ensures
        fits(sig_of(ts), len),
    decreases ts.len(),
{
    if ts.len() > 0 {
        let rest = ts.drop_last();
        assert forall|k: int| 0 <= k < rest.len() implies (#[trigger] rest[k]).start <= rest[k].end && rest[k].end <= len by {
            assert(rest[k] == ts[k]);
        }
        lemma_sig_within(rest, len);
        assert(ts.last() == ts[ts.len() - 1]);
        let sr = sig_of(rest);
        if ts.last().kind != Slot::Comment {
            assert forall|k: int| 0 <= k < sr.push(ts.last()).len() implies #[trigger] sr.push(ts.last())[k].start
                <= sr.push(ts.last())[k].end && sr.push(ts.last())[k].end <= len by {
                if k < sr.len() {
                    assert(sr.push(ts.last())[k] == sr[k]);
                }
            }
        }
    }
}

/// Whether the name starts with an upper-case ASCII letter.
fn upper(name: &str) -> (res: bool)
    ensures
        res == is_upper(name@),
{
    if name.unicode_len() == 0 {
        return false;
    }
    let c = name.get_char(0);
    'A' <= c && c <= 'Z'
}

/// Sends a rule to the lexer rules or to the parser rules.
fn route(rule: Rule, lexers: &mut Vec<Rule>, parsers: &mut Vec<Rule>)
    ensures
        is_upper(rule@.name) ==> rules_view(final(lexers)@) == rules_view(old(lexers)@).push(rule@)
            && final(parsers)@ == old(parsers)@,
        !is_upper(rule@.name) ==> rules_view(final(parsers)@) == rules_view(old(parsers)@).push(rule@)
            && final(lexers)@ == old(lexers)@,
{
    let ghost r = rule@;
    if upper(rule.name.as_str()) {
        lexers.push(rule);
        assert(rules_view(final(lexers)@) =~= rules_view(old(lexers)@).push(r));
        return;
    }
    parsers.push(rule);
    assert(rules_view(final(parsers)@) =~= rules_view(old(parsers)@).push(r));
}

/// Splits the rules into lexer rules and parser rules, keeping their order.
fn split(all: Vec<Rule>) -> (res: (Vec<Rule>, Vec<Rule>))
    ensures
        rules_view(res.0@) == pick(rules_view(all@), true),
        rules_view(res.1@) == pick(rules_view(all@), false),
{
    let ghost orig = rules_view(all@);
    let mut all = all;
    let mut lexers: Vec<Rule> = Vec::new();
    let mut parsers: Vec<Rule> = Vec::new();
    let ghost mut i: int = 0;
    assert(rules_view(lexers@) =~= pick(orig.take(0), true));
    assert(rules_view(parsers@) =~= pick(orig.take(0), false));
    assert(rules_view(all@) =~= orig.skip(0));
    while all.len() > 0
        invariant
            0 <= i <= orig.len(),
            rules_view(all@) == orig.skip(i),
            rules_view(lexers@) == pick(orig.take(i), true),
            rules_view(parsers@) == pick(orig.take(i), false),
        decreases all@.len(),
    {
        let ghost before = all@;
        proof {
            assert(rules_view(before).len() == orig.len() - i);
            assert(rules_view(before)[0] == before[0]@);
            assert(orig.skip(i)[0] == orig[i]);
        }
        let rule = all.remove(0);
        proof {
            assert(rule@ == orig[i]);
            assert(orig.take(i + 1).drop_last() =~= orig.take(i));
            assert(orig.take(i + 1).last() == orig[i]);
            assert forall|k: int| 0 <= k < rules_view(all@).len() implies rules_view(all@)[k] == orig.skip(i + 1)[k] by {
                assert(all@[k] == before[k + 1]);
                assert(rules_view(before)[k + 1] == before[k + 1]@);
                assert(orig.skip(i)[k + 1] == orig[i + 1 + k]);
            }
            assert(rules_view(all@) =~= orig.skip(i + 1));
            i = i + 1;
        }
        route(rule, &mut lexers, &mut parsers);
    }
    assert(orig.take(i) =~= orig);
    (lexers, parsers)
}

/// The spans of some comments as comment nodes.
pub open spec fn notes_view(spans: Seq<Span>) -> Seq<Tree> {
    Seq::new(spans.len(), |i: int| Tree { kind: Kind::Comment, start: spans[i].start, end: spans[i].end, kids: seq![] })
}

/// Sets the comment tokens apart from the tokens the parser reads.
fn sift(tokens: Vec<Token>) -> (res: (Vec<Token>, Vec<Span>))
    ensures
        toks_view(res.0@) == sig_of(toks_view(tokens@)),
        notes_view(res.1@) == notes_of(toks_view(tokens@)),
{
    let ghost all = toks_view(tokens@);
    let mut sig: Vec<Token> = Vec::new();
    let mut comments: Vec<Span> = Vec::new();
    let mut i: usize = 0;
    assert(toks_view(sig@) =~= sig_of(all.take(0)));
    assert(notes_view(comments@) =~= notes_of(all.take(0)));
    while i < tokens.len()
        invariant
            all == toks_view(tokens@),
            i <= tokens@.len(),
            toks_view(sig@) == sig_of(all.take(i as int)),
            notes_view(comments@) == notes_of(all.take(i as int)),
        decreases tokens@.len() - i,
    {
        sort(&tokens[i], &mut sig, &mut comments);
        proof {
            assert(all.take(i + 1).drop_last() =~= all.take(i as int));
            assert(all.take(i + 1).last() == all[i as int]);
        }
        i += 1;
    }
    assert(all.take(i as int) =~= all);
    (sig, comments)
}

/// Files one token with the comments or with the tokens the parser reads.
fn sort(token: &Token, sig: &mut Vec<Token>, comments: &mut Vec<Span>)
    ensures
        token.kind == Slot::Comment ==> toks_view(final(sig)@) == toks_view(old(sig)@)
            && notes_view(final(comments)@) == notes_view(old(comments)@).push(
                Tree { kind: Kind::Comment, start: token.start, end: token.end, kids: seq![] },
            ),
        token.kind != Slot::Comment ==> toks_view(final(sig)@) == toks_view(old(sig)@).push(token@)
            && notes_view(final(comments)@) == notes_view(old(comments)@),
{
    if matches!(token.kind, Slot::Comment) {
        comments.push(Span { start: token.start, end: token.end });
        assert(notes_view(final(comments)@) =~= notes_view(old(comments)@).push(
            Tree { kind: Kind::Comment, start: token.start, end: token.end, kids: seq![] },
        ));
        return;
    }
    sig.push(Token { name: token.name.clone(), kind: Slot::Emit, start: token.start, end: token.end });
    assert(toks_view(final(sig)@) =~= toks_view(old(sig)@).push(token@));
}

/// A comment node over a span.
fn note(span: Span) -> (c: Cst)
    ensures
        c@ == (Tree { kind: Kind::Comment, start: span.start, end: span.end, kids: seq![] }),
{
    let c = Cst { kind: Kind::Comment, span, kids: Vec::new() };
    proof {
        lemma_kids(c);
        assert(c@.kids =~= seq![]);
    }
    c
}

/// Reads a source with the brace grammar.
fn braces(source: &Source) -> (root: Cst)
    ensures
        root@ == braces_v(text_bytes(source.text)),
{
    let bytes = source.text.as_str().as_bytes();
    let (lexers, parsers) = split(crate::rust::rules());
    let tokens = lex(lexers.as_slice(), bytes);
    let ghost all = toks_view(tokens@);
    let (sig, comments) = sift(tokens);
    let n = bytes.len();
    proof {
        lemma_lex_bounds(pick(rust_grammar(), true), bytes@, 0);
        lemma_sig_within(all, bytes@.len() as int);
    }
    let mut root = crate::parse::run(parsers.as_slice(), sig.as_slice(), bytes, source.text.as_str().len());
    let ghost parsed = root@.kids;
    proof {
        lemma_kids(root);
    }
    let mut i: usize = 0;
    while i < comments.len()
        invariant
            i <= comments@.len(),
            root.kind == Kind::Root,
            root.span.start == 0,
            root.span.end == text_bytes(source.text).len() as usize,
            trees_of(root.kids@) == parsed + notes_view(comments@).take(i as int),
        decreases comments@.len() - i,
    {
        let ghost k0 = root.kids@;
        root.kids.push(note(Span { start: comments[i].start, end: comments[i].end }));
        proof {
            assert(trees_of(root.kids@) =~= trees_of(k0).push(notes_view(comments@)[i as int]));
            assert(notes_view(comments@).take(i + 1) =~= notes_view(comments@).take(i as int).push(notes_view(comments@)[i as int]));
        }
        i += 1;
    }
    proof {
        lemma_kids(root);
        assert(notes_view(comments@).take(i as int) =~= notes_view(comments@));
    }
    root
}

/// An open markdown section while reading.
struct Head {
    level: usize,
    start: usize,
    kids: Vec<Cst>,
}

spec fn head_view(h: Head) -> HeadV {
    HeadV { level: h.level, start: h.start, kids: trees_of(h.kids@) }
}

spec fn stack_view(st: Seq<Head>) -> Seq<HeadV> {
    Seq::new(st.len(), |i: int| head_view(st[i]))
}

/// Reads a markdown source into its heading sections.
fn heads(source: &Source) -> (root: Cst)
    ensures
        root@ == heads_v(text_bytes(source.text)),
{
    let bytes = source.text.as_str().as_bytes();
    let mut stack: Vec<Head> = Vec::new();
    stack.push(Head { level: 0, start: 0, kids: Vec::new() });
    let ghost first = stack_view(stack@);
    assert(trees_of(stack@[0].kids@) =~= seq![]);
    assert(first =~= seq![HeadV { level: 0, start: 0, kids: seq![] }]);
    let mut at: usize = 0;
    while at < bytes.len()
        invariant
            at <= bytes@.len(),
            stack@.len() >= 1,
            rows_v(bytes@, at as int, stack_view(stack@)) == rows_v(bytes@, 0, first),
        decreases bytes@.len() - at,
    {
        at = row(bytes, at, &mut stack);
    }
    settle(&mut stack, 1, source.text.as_str().len());
    let ghost last = stack_view(stack@).last();
    let root = stack.pop().unwrap();
    let out = Cst { kind: Kind::Root, span: whole(source), kids: root.kids };
    proof {
        lemma_kids(out);
    }
    out
}

/// Reads one line; returns the start of the next.
fn row(bytes: &[u8], at: usize, stack: &mut Vec<Head>) -> (next: usize)
    requires
        at < bytes@.len(),
        old(stack)@.len() >= 1,
    ensures
        final(stack)@.len() >= 1,
        next == step_v(bytes@, eol_v(bytes@, at as int)),
        at < next <= bytes@.len(),
        rows_v(bytes@, next as int, stack_view(final(stack)@)) == rows_v(bytes@, at as int, stack_view(old(stack)@)),
{
    let end = eol(bytes, at);
    let level = hashes(bytes, at, end);
    if level > 0 {
        raise(stack, level, at);
    }
    step(bytes, end)
}

/// Opens a section of `level` at `start`, closing the open ones of that level or deeper.
fn raise(stack: &mut Vec<Head>, level: usize, start: usize)
    requires
        old(stack)@.len() >= 1,
    ensures
        final(stack)@.len() >= 1,
        stack_view(final(stack)@) == settle_v(stack_view(old(stack)@), level, start).push(
            HeadV { level, start, kids: seq![] },
        ),
{
    settle(stack, level, start);
    let ghost mid = stack@;
    stack.push(Head { level, start, kids: Vec::new() });
    assert(trees_of(stack@[stack@.len() - 1].kids@) =~= seq![]);
    assert(stack_view(final(stack)@) =~= stack_view(mid).push(HeadV { level, start, kids: seq![] }));
}

/// Closes, at `at`, every open section of `level` or deeper.
fn settle(stack: &mut Vec<Head>, level: usize, at: usize)
    requires
        old(stack)@.len() >= 1,
    ensures
        final(stack)@.len() >= 1,
        stack_view(final(stack)@) == settle_v(stack_view(old(stack)@), level, at),
{
    while deep(stack, level)
        invariant
            stack@.len() >= 1,
            settle_v(stack_view(stack@), level, at) == settle_v(stack_view(old(stack)@), level, at),
        decreases stack@.len(),
    {
        close(stack, at);
    }
}

/// Whether the innermost open section has `level` or deeper and is not the root.
fn deep(stack: &Vec<Head>, level: usize) -> (res: bool)
    ensures
        res == (stack@.len() > 1 && stack_view(stack@).last().level >= level),
{
    stack.len() > 1 && stack[stack.len() - 1].level >= level
}

/// Closes the innermost open section at `at`.
fn close(stack: &mut Vec<Head>, at: usize)
    requires
        old(stack)@.len() > 1,
    ensures
        final(stack)@.len() == old(stack)@.len() - 1,
        stack_view(final(stack)@) == close_v(stack_view(old(stack)@), at),
{
    let ghost before = stack_view(stack@);
    let done = stack.pop().unwrap();
    let node = Cst { kind: Kind::Scope, span: Span { start: done.start, end: at }, kids: done.kids };
    let mut parent = stack.pop().unwrap();
    let ghost pk = parent.kids@;
    parent.kids.push(node);
    stack.push(parent);
    proof {
        lemma_kids(node);
        assert(trees_of(pk.push(node)) =~= trees_of(pk).push(node@));
        assert(stack_view(final(stack)@) =~= close_v(before, at));
    }
}

/// The heading level of the line `[at, end)`.
fn hashes(bytes: &[u8], at: usize, end: usize) -> (level: usize)
    requires
        at <= end <= bytes@.len(),
    ensures
        level == level_v(bytes@, at as int, end as int),
{
    let mut run = at;
    while run < end && bytes[run] == 35u8
        invariant
            at <= run <= end,
            end <= bytes@.len(),
            run_v(bytes@, at as int, end as int) == run_v(bytes@, run as int, end as int),
        decreases end - run,
    {
        run += 1;
    }
    marked(bytes, run, end, run - at)
}

/// `count` when the run of `#` ends in a space before `end`; else zero.
fn marked(bytes: &[u8], run: usize, end: usize, count: usize) -> (level: usize)
    requires
        end <= bytes@.len(),
    ensures
        level == if count > 0 && run < end && bytes@[run as int] == 32u8 { count } else { 0 },
{
    if count > 0 && run < end && bytes[run] == 32u8 {
        count
    } else {
        0
    }
}

/// The index of the first newline at or after `at`, or the length.
fn eol(bytes: &[u8], at: usize) -> (end: usize)
    requires
        at <= bytes@.len(),
    ensures
        end == eol_v(bytes@, at as int),
        at <= end <= bytes@.len(),
{
    let mut end = at;
    while end < bytes.len() && bytes[end] != 10u8
        invariant
            at <= end <= bytes@.len(),
            eol_v(bytes@, at as int) == eol_v(bytes@, end as int),
        decreases bytes@.len() - end,
    {
        end += 1;
    }
    end
}

/// The start of the line after the one ending at `end`.
fn step(bytes: &[u8], end: usize) -> (next: usize)
    requires
        end <= bytes@.len(),
    ensures
        next == step_v(bytes@, end as int),
{
    if end < bytes.len() { end + 1 } else { end }
}

/// Whether the tree is at most `h` levels high.
pub open spec fn bounded(t: Tree, h: int) -> bool
    decreases t,
{
    &&& h >= 1
    &&& forall|i: int| 0 <= i < t.kids.len() ==> bounded(#[trigger] t.kids[i], h - 1)
}

/// Whether every tree is at most `h` levels high.
pub open spec fn all_bounded(ts: Seq<Tree>, h: int) -> bool {
    forall|i: int| 0 <= i < ts.len() ==> bounded(#[trigger] ts[i], h)
}

/// A bound on the height holds for every larger bound.
pub proof fn lemma_bounded_up(t: Tree, h: int, k: int)
    requires
        bounded(t, h),
        h <= k,
    ensures
        bounded(t, k),
    decreases t,
{
    assert forall|i: int| 0 <= i < t.kids.len() implies bounded(#[trigger] t.kids[i], k - 1) by {
        lemma_bounded_up(t.kids[i], h - 1, k - 1);
    }
}

pub proof fn lemma_all_up(ts: Seq<Tree>, h: int, k: int)
    requires
        all_bounded(ts, h),
        h <= k,
    ensures
        all_bounded(ts, k),
{
    assert forall|i: int| 0 <= i < ts.len() implies bounded(#[trigger] ts[i], k) by {
        lemma_bounded_up(ts[i], h, k);
    }
}

pub proof fn lemma_all_concat(a: Seq<Tree>, b: Seq<Tree>, h: int)
    requires
        all_bounded(a, h),
        all_bounded(b, h),
    ensures
        all_bounded(a + b, h),
{
    assert forall|i: int| 0 <= i < (a + b).len() implies bounded(#[trigger] (a + b)[i], h) by {
        if i < a.len() {
            assert((a + b)[i] == a[i]);
        } else {
            assert((a + b)[i] == b[i - a.len()]);
        }
    }
}

/// The open sections are well nested: levels rise strictly from the root's zero, stay within
/// `n`, and the children of a section of level `l` are at most `n - l` levels high.
pub open spec fn stack_ok(stack: Seq<HeadV>, n: int) -> bool {
    &&& stack.len() >= 1
    &&& stack[0].level == 0
    &&& forall|i: int, j: int| 0 <= i < j < stack.len() ==> #[trigger] stack[i].level < #[trigger] stack[j].level
    &&& forall|j: int| 0 <= j < stack.len() ==> #[trigger] stack[j].level <= n
    &&& forall|j: int| 0 <= j < stack.len() ==> all_bounded(#[trigger] stack[j].kids, n - stack[j].level)
}

pub proof fn lemma_close_ok(stack: Seq<HeadV>, n: int, at: usize)
    requires
        stack_ok(stack, n),
        stack.len() > 1,
    ensures
        stack_ok(close_v(stack, at), n),
        close_v(stack, at).len() == stack.len() - 1,
{
    let done = stack.last();
    let rest = stack.drop_last();
    let parent = rest.last();
    let p = stack.len() - 2;
    assert(parent == stack[p]);
    assert(done == stack[p + 1]);
    let node = Tree { kind: Kind::Scope, start: done.start, end: at, kids: done.kids };
    lemma_all_up(done.kids, n - done.level, n - parent.level - 1);
    assert(bounded(node, n - parent.level));
    let kids = parent.kids.push(node);
    assert forall|i: int| 0 <= i < kids.len() implies bounded(#[trigger] kids[i], n - parent.level) by {
        if i < parent.kids.len() {
            assert(kids[i] == parent.kids[i]);
        }
    }
    let out = close_v(stack, at);
    assert forall|j: int| 0 <= j < out.len() implies all_bounded(#[trigger] out[j].kids, n - out[j].level) by {
        if j < p {
            assert(out[j] == stack[j]);
        }
    }
    assert forall|i: int, j: int| 0 <= i < j < out.len() implies #[trigger] out[i].level < #[trigger] out[j].level by {
        assert(out[i].level == stack[i].level);
        assert(out[j].level == stack[j].level);
    }
    assert forall|j: int| 0 <= j < out.len() implies #[trigger] out[j].level <= n by {
        assert(out[j].level == stack[j].level);
    }
}

pub proof fn lemma_settle_ok(stack: Seq<HeadV>, n: int, level: usize, at: usize)
    requires
        stack_ok(stack, n),
    ensures
        stack_ok(settle_v(stack, level, at), n),
        settle_v(stack, level, at).len() == 1 || settle_v(stack, level, at).last().level < level,
    decreases stack.len(),
{
    if stack.len() > 1 && stack.last().level >= level {
        lemma_close_ok(stack, n, at);
        lemma_settle_ok(close_v(stack, at), n, level, at);
    }
}

pub proof fn lemma_run(s: Seq<u8>, at: int, end: int)
    requires
        0 <= at <= end,
    ensures
        at <= run_v(s, at, end) <= end,
    decreases end - at,
{
    if at < end && 0 <= at < s.len() && s[at] == 35u8 {
        lemma_run(s, at + 1, end);
    }
}

pub proof fn lemma_rows_ok(s: Seq<u8>, at: int, stack: Seq<HeadV>)
    requires
        stack_ok(stack, s.len() as int),
        0 <= at,
        s.len() <= usize::MAX,
    ensures
        stack_ok(rows_v(s, at, stack), s.len() as int),
    decreases s.len() - at,
{
    if at < s.len() {
        let end = eol_v(s, at);
        lemma_eol(s, at);
        lemma_run(s, at, end);
        let level = level_v(s, at, end);
        if level > 0 {
            let settled = settle_v(stack, level as usize, at as usize);
            lemma_settle_ok(stack, s.len() as int, level as usize, at as usize);
            let next = settled.push(HeadV { level: level as usize, start: at as usize, kids: seq![] });
            assert(next.last().kids =~= Seq::<Tree>::empty());
            assert forall|j: int| 0 <= j < next.len() implies all_bounded(#[trigger] next[j].kids, s.len() - next[j].level) by {
                if j < settled.len() {
                    assert(next[j] == settled[j]);
                }
            }
            assert forall|i: int, j: int| 0 <= i < j < next.len() implies #[trigger] next[i].level < #[trigger] next[j].level by {
                if j < settled.len() {
                    assert(next[i] == settled[i]);
                    assert(next[j] == settled[j]);
                } else {
                    assert(next[i] == settled[i]);
                    if settled.len() > 1 {
                        assert(settled[i].level <= settled.last().level);
                    }
                }
            }
            assert forall|j: int| 0 <= j < next.len() implies #[trigger] next[j].level <= s.len() by {
                if j < settled.len() {
                    assert(next[j] == settled[j]);
                }
            }
            lemma_rows_ok(s, step_v(s, end), next);
        } else {
            lemma_rows_ok(s, step_v(s, end), stack);
        }
    }
}

/// A markdown tree is at most one level higher than the text is long.
pub proof fn lemma_heads_height(s: Seq<u8>)
    requires
        s.len() <= usize::MAX,
    ensures
        bounded(heads_v(s), s.len() + 1int),
{
    let first = seq![HeadV { level: 0, start: 0, kids: seq![] }];
    assert(stack_ok(first, s.len() as int));
    lemma_rows_ok(s, 0, first);
    let rows = rows_v(s, 0, first);
    lemma_settle_ok(rows, s.len() as int, 1, s.len() as usize);
    let st = settle_v(rows, 1, s.len() as usize);
    if st.len() > 1 {
        assert(st[0].level < st[st.len() - 1].level);
    }
    assert(st.last() == st[st.len() - 1]);
    lemma_all_up(st.last().kids, s.len() - st.last().level, s.len() as int);
}

/// The concrete tree of a source is at most `DEPTH + 2` levels high, or one more level than
/// the text is long for markdown.
pub proof fn lemma_parse_height(path: Seq<char>, text: Seq<u8>)
    requires
        text.len() <= usize::MAX,
    ensures
        bounded(spec_parse(path, text), if ends_with(path, ".md"@) { text.len() + 1int } else { DEPTH + 2int }),
{
    if ends_with(path, ".md"@) {
        lemma_heads_height(text);
    } else if ends_with(path, ".rs"@) || ends_with(path, ".ts"@) {
        let toks = spec_lex(pick(rust_grammar(), true), text, 0);
        let c = Ctx { rules: pick(rust_grammar(), false), toks: sig_of(toks), src: text };
        crate::parse::lemma_start_height(c);
        lemma_notes_height(toks);
        lemma_all_up(notes_of(toks), 1, DEPTH + 1);
        lemma_all_concat(p_start(c), notes_of(toks), DEPTH + 1);
    }
}

pub proof fn lemma_notes_height(ts: Seq<TokenV>)
    ensures
        all_bounded(notes_of(ts), 1),
    decreases ts.len(),
{
    if ts.len() > 0 {
        lemma_notes_height(ts.drop_last());
        let rest = notes_of(ts.drop_last());
        if ts.last().kind == Slot::Comment {
            let t = Tree { kind: Kind::Comment, start: ts.last().start, end: ts.last().end, kids: seq![] };
            assert forall|i: int| 0 <= i < rest.push(t).len() implies bounded(#[trigger] rest.push(t)[i], 1) by {
                if i < rest.len() {
                    assert(rest.push(t)[i] == rest[i]);
                }
            }
        }
    }
}

/// Whether a node below the root is neither a root nor a loose region (nor, when `free`, a
/// pattern) and lies within `len` bytes, and so do all its descendants.
pub open spec fn inner(t: Tree, len: int, free: bool) -> bool
    decreases t,
{
    &&& t.kind != Kind::Root
    &&& t.kind != Kind::Loose
    &&& (free ==> t.kind != Kind::Pattern)
    &&& t.start <= len
    &&& t.end <= len
    &&& forall|i: int| 0 <= i < t.kids.len() ==> inner(#[trigger] t.kids[i], len, free)
}

/// Whether every tree is `inner`.
pub open spec fn all_inner(ts: Seq<Tree>, len: int, free: bool) -> bool {
    forall|i: int| 0 <= i < ts.len() ==> inner(#[trigger] ts[i], len, free)
}

/// Whether a child of the root is a loose region without children within `len` bytes, or
/// `inner`.
pub open spec fn top(t: Tree, len: int, free: bool) -> bool {
    (t.kind == Kind::Loose && t.kids.len() == 0 && t.start <= len && t.end <= len) || inner(t, len, free)
}

/// Whether every tree is `top`.
pub open spec fn all_top(ts: Seq<Tree>, len: int, free: bool) -> bool {
    forall|i: int| 0 <= i < ts.len() ==> top(#[trigger] ts[i], len, free)
}

pub proof fn lemma_inner_concat(a: Seq<Tree>, b: Seq<Tree>, len: int, free: bool)
    requires
        all_inner(a, len, free),
        all_inner(b, len, free),
    ensures
        all_inner(a + b, len, free),
{
    assert forall|i: int| 0 <= i < (a + b).len() implies inner(#[trigger] (a + b)[i], len, free) by {
        if i < a.len() {
            assert((a + b)[i] == a[i]);
        } else {
            assert((a + b)[i] == b[i - a.len()]);
        }
    }
}

pub proof fn lemma_top_concat(a: Seq<Tree>, b: Seq<Tree>, len: int, free: bool)
    requires
        all_top(a, len, free),
        all_top(b, len, free),
    ensures
        all_top(a + b, len, free),
{
    assert forall|i: int| 0 <= i < (a + b).len() implies top(#[trigger] (a + b)[i], len, free) by {
        if i < a.len() {
            assert((a + b)[i] == a[i]);
        } else {
            assert((a + b)[i] == b[i - a.len()]);
        }
    }
}

/// Every open section starts within `len` bytes and holds below-root nodes within it.
pub open spec fn stack_in(stack: Seq<HeadV>, len: int) -> bool {
    forall|j: int| 0 <= j < stack.len() ==> #[trigger] stack[j].start <= len && all_inner(stack[j].kids, len, true)
}

proof fn lemma_close_in(stack: Seq<HeadV>, len: int, at: usize)
    requires
        stack_in(stack, len),
        stack.len() > 1,
        at <= len,
    ensures
        stack_in(close_v(stack, at), len),
{
    let p = stack.len() - 2;
    let done = stack[p + 1];
    let parent = stack[p];
    assert(stack.last() == done);
    assert(stack.drop_last().last() == parent);
    assert(stack[p].start <= len && all_inner(stack[p].kids, len, true));
    assert(stack[p + 1].start <= len && all_inner(stack[p + 1].kids, len, true));
    let node = Tree { kind: Kind::Scope, start: done.start, end: at, kids: done.kids };
    assert(inner(node, len, true));
    let kids = parent.kids.push(node);
    assert forall|i: int| 0 <= i < kids.len() implies inner(#[trigger] kids[i], len, true) by {
        if i < parent.kids.len() {
            assert(kids[i] == parent.kids[i]);
        } else {
            assert(kids[i] == node);
        }
    }
    let out = close_v(stack, at);
    assert forall|j: int| 0 <= j < out.len() implies #[trigger] out[j].start <= len && all_inner(out[j].kids, len, true) by {
        if j < p {
            assert(out[j] == stack[j]);
        }
    }
}

proof fn lemma_settle_in(stack: Seq<HeadV>, len: int, level: usize, at: usize)
    requires
        stack_in(stack, len),
        at <= len,
    ensures
        stack_in(settle_v(stack, level, at), len),
    decreases stack.len(),
{
    if stack.len() > 1 && stack.last().level >= level {
        lemma_close_in(stack, len, at);
        lemma_settle_in(close_v(stack, at), len, level, at);
    }
}

proof fn lemma_rows_in(s: Seq<u8>, at: int, stack: Seq<HeadV>)
    requires
        stack_in(stack, s.len() as int),
        0 <= at,
        s.len() <= usize::MAX,
    ensures
        stack_in(rows_v(s, at, stack), s.len() as int),
    decreases s.len() - at,
{
    if at < s.len() {
        let end = eol_v(s, at);
        lemma_eol(s, at);
        let level = level_v(s, at, end);
        if level > 0 {
            let settled = settle_v(stack, level as usize, at as usize);
            lemma_settle_in(stack, s.len() as int, level as usize, at as usize);
            let next = settled.push(HeadV { level: level as usize, start: at as usize, kids: seq![] });
            assert forall|j: int| 0 <= j < next.len() implies #[trigger] next[j].start <= s.len() && all_inner(next[j].kids, s.len() as int, true) by {
                if j < settled.len() {
                    assert(next[j] == settled[j]);
                }
            }
            lemma_rows_in(s, step_v(s, end), next);
        } else {
            lemma_rows_in(s, step_v(s, end), stack);
        }
    }
}

/// The sections of a markdown text are below-root nodes within the text.
pub proof fn lemma_heads_inner(s: Seq<u8>)
    requires
        s.len() <= usize::MAX,
    ensures
        all_inner(heads_v(s).kids, s.len() as int, true),
{
    let first = seq![HeadV { level: 0, start: 0, kids: seq![] }];
    assert(stack_in(first, s.len() as int));
    lemma_rows_in(s, 0, first);
    assert(stack_ok(first, s.len() as int));
    lemma_rows_ok(s, 0, first);
    let rows = rows_v(s, 0, first);
    lemma_settle_ok(rows, s.len() as int, 1, s.len() as usize);
    lemma_settle_in(rows, s.len() as int, 1, s.len() as usize);
    let st = settle_v(rows, 1, s.len() as usize);
    assert(st.last() == st[st.len() - 1]);
    assert(st[st.len() - 1].start <= s.len() && all_inner(st[st.len() - 1].kids, s.len() as int, true));
}

/// The rules picked from rules of which none carries `tag` carry no such tag either.
pub proof fn lemma_pick_untagged(rs: Seq<RuleV>, lexer: bool, tag: Seq<char>)
    requires
        forall|i: int| 0 <= i < rs.len() ==> (#[trigger] rs[i]).tag != Some(tag),
    ensures
        forall|i: int| 0 <= i < pick(rs, lexer).len() ==> (#[trigger] pick(rs, lexer)[i]).tag != Some(tag),
    decreases rs.len(),
{
    if rs.len() > 0 {
        let rest = rs.drop_last();
        assert forall|i: int| 0 <= i < rest.len() implies (#[trigger] rest[i]).tag != Some(tag) by {
            assert(rest[i] == rs[i]);
        }
        lemma_pick_untagged(rest, lexer, tag);
        assert(rs.last() == rs[rs.len() - 1]);
    }
}

/// What holds of every rule holds of every rule picked from them.
pub proof fn lemma_pick_every(rs: Seq<RuleV>, lexer: bool, p: spec_fn(RuleV) -> bool)
    requires
        forall|i: int| 0 <= i < rs.len() ==> p(#[trigger] rs[i]),
    ensures
        forall|i: int| 0 <= i < pick(rs, lexer).len() ==> p(#[trigger] pick(rs, lexer)[i]),
    decreases rs.len(),
{
    if rs.len() > 0 {
        let rest = rs.drop_last();
        assert forall|i: int| 0 <= i < rest.len() implies p(#[trigger] rest[i]) by {
            assert(rest[i] == rs[i]);
        }
        lemma_pick_every(rest, lexer, p);
        assert(rs.last() == rs[rs.len() - 1]);
        let pr = pick(rest, lexer);
        assert forall|i: int| 0 <= i < pick(rs, lexer).len() implies p(#[trigger] pick(rs, lexer)[i]) by {
            if is_upper(rs.last().name) == lexer {
                assert(pick(rs, lexer) == pr.push(rs.last()));
                if i < pr.len() {
                    assert(pick(rs, lexer)[i] == pr[i]);
                }
            } else {
                assert(pick(rs, lexer) == pr);
            }
        }
    }
}

/// The comment nodes lie within `len` bytes when their tokens do.
pub proof fn lemma_notes_inner(ts: Seq<TokenV>, len: int)
    requires
        forall|k: int| 0 <= k < ts.len() ==> (#[trigger] ts[k]).start <= ts[k].end && ts[k].end <= len,
    ensures
        all_inner(notes_of(ts), len, true),
    decreases ts.len(),
{
    if ts.len() > 0 {
        let rest = ts.drop_last();
        assert forall|k: int| 0 <= k < rest.len() implies (#[trigger] rest[k]).start <= rest[k].end && rest[k].end <= len by {
            assert(rest[k] == ts[k]);
        }
        lemma_notes_inner(rest, len);
        assert(ts.last() == ts[ts.len() - 1]);
        let nr = notes_of(rest);
        if ts.last().kind == Slot::Comment {
            let t = Tree { kind: Kind::Comment, start: ts.last().start, end: ts.last().end, kids: seq![] };
            assert(inner(t, len, true));
            assert forall|i: int| 0 <= i < nr.push(t).len() implies inner(#[trigger] nr.push(t)[i], len, true) by {
                if i < nr.len() {
                    assert(nr.push(t)[i] == nr[i]);
                }
            }
        }
    }
}

/// Whether a heading line starts at byte `o`: `o` starts a line, and the line opens with one or
/// more `#` and a space.
pub open spec fn heading_at(s: Seq<u8>, o: int) -> bool {
    &&& 0 <= o < s.len()
    &&& (o == 0 || s[o - 1] == 10u8)
    &&& level_v(s, o, eol_v(s, o)) > 0
}

} // verus!
