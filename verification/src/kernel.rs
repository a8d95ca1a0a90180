use vstd::prelude::*;
use vstd::string::StringSliceAdditionalSpecFns;
use vstd::string::StrSliceExecFns;
use vstd::utf8::{decode_utf8, encode_utf8, is_char_boundary};
use crate::config::{Config, exempt_v};
use crate::grammar::{Cst, Kind, Source, Span, Tree, bounded, lemma_kids, parse, spec_parse, text_bytes, tree_of, trees_of};
use crate::parse::DEPTH;
use crate::text::listed;

verus! {

/// A node of the structure tree: a concrete node with its block depth.
pub struct Node {
    pub kind: Kind,
    pub depth: usize,
    pub span: Span,
    pub kids: Vec<Node>,
}

/// How a finding weighs: a fault fails the run, a blind spot marks what the grammar could not
/// read, debt is listed on request.
#[derive(Clone, Copy, PartialEq, Eq, Structural)]
pub enum Class {
    Fault,
    Blind,
    Debt,
}

/// A breach of a law at a place.
pub struct Finding {
    pub law: String,
    pub path: String,
    pub line: usize,
    pub col: usize,
    pub note: String,
    pub class: Class,
}

/// The mathematical form of a structure node.
pub struct NodeV {
    pub kind: Kind,
    pub depth: usize,
    pub start: usize,
    pub end: usize,
    pub kids: Seq<NodeV>,
}

/// The mathematical form of a finding.
pub struct FindingV {
    pub law: Seq<char>,
    pub path: Seq<char>,
    pub line: usize,
    pub col: usize,
    pub note: Seq<char>,
    pub class: Class,
}

pub open spec fn node_of(n: Node) -> NodeV
    decreases n,
{
    NodeV {
        kind: n.kind,
        depth: n.depth,
        start: n.span.start,
        end: n.span.end,
        kids: Seq::new(
            n.kids@.len(),
            |i: int|
                if 0 <= i < n.kids@.len() {
                    node_of(n.kids@[i])
                } else {
                    NodeV { kind: Kind::Root, depth: 0, start: 0, end: 0, kids: Seq::empty() }
                },
        ),
    }
}

/// The view of each node.
pub open spec fn nodes_of(ns: Seq<Node>) -> Seq<NodeV> {
    Seq::new(ns.len(), |i: int| node_of(ns[i]))
}

impl View for Node {
    type V = NodeV;

    open spec fn view(&self) -> NodeV {
        node_of(*self)
    }
}

impl View for Finding {
    type V = FindingV;

    open spec fn view(&self) -> FindingV {
        FindingV {
            law: self.law@,
            path: self.path@,
            line: self.line,
            col: self.col,
            note: self.note@,
            class: self.class,
        }
    }
}

/// The view of each finding.
pub open spec fn findings_of(fs: Seq<Finding>) -> Seq<FindingV> {
    Seq::new(fs.len(), |i: int| fs[i]@)
}

/// The view of a node's children is the view of each child.
pub proof fn lemma_node_kids(n: Node)
    ensures
        n@.kids == nodes_of(n.kids@),
{
    assert(n@.kids =~= nodes_of(n.kids@));
}

/// How much a node adds to the block depth: one for a scope, nothing else.
pub open spec fn scoped_v(kind: Kind) -> int {
    if kind == Kind::Scope { 1 } else { 0 }
}

/// Whether the block depths of `t` and its descendants, counted from `depth`, fit in a `usize`.
pub open spec fn depth_fits(t: Tree, depth: int) -> bool
    decreases t,
{
    &&& depth + scoped_v(t.kind) <= usize::MAX
    &&& forall|i: int| 0 <= i < t.kids.len() ==> depth_fits(#[trigger] t.kids[i], depth + scoped_v(t.kind))
}

/// The structure node of a concrete node at block depth `depth` of its parent: each scope
/// adds one to the depth of itself and of everything inside it.
pub open spec fn lift_v(t: Tree, depth: int) -> NodeV
    decreases t,
{
    let here = depth + scoped_v(t.kind);
    NodeV {
        kind: t.kind,
        depth: here as usize,
        start: t.start,
        end: t.end,
        kids: Seq::new(
            t.kids.len(),
            |i: int|
                if 0 <= i < t.kids.len() {
                    lift_v(t.kids[i], here)
                } else {
                    NodeV { kind: Kind::Root, depth: 0, start: 0, end: 0, kids: Seq::empty() }
                },
        ),
    }
}

/// A tree at most `h` levels high has depths that fit from any `depth` with `depth + h` in
/// range.
pub proof fn lemma_fits(t: Tree, depth: int, h: int)
    requires
        bounded(t, h),
        0 <= depth,
        depth + h <= usize::MAX,
    ensures
        depth_fits(t, depth),
    decreases t,
{
    assert forall|i: int| 0 <= i < t.kids.len() implies depth_fits(#[trigger] t.kids[i], depth + scoped_v(t.kind)) by {
        lemma_fits(t.kids[i], depth + scoped_v(t.kind), h - 1);
    }
}

/// The structure tree of a source.
pub fn structure(source: &Source) -> (node: Node)
    requires
        text_bytes(source.text).len() < usize::MAX,
    ensures
        node@ == lift_v(spec_parse(source.path@, text_bytes(source.text)), 0),
{
    proof {
        let text = text_bytes(source.text);
        crate::grammar::lemma_parse_height(source.path@, text);
        let h = if crate::text::ends_with(source.path@, ".md"@) { text.len() + 1int } else { DEPTH + 2int };
        lemma_fits(spec_parse(source.path@, text), 0, h);
    }
    lift(&parse(source), 0)
}

fn lift(cst: &Cst, depth: usize) -> (node: Node)
    requires
        depth_fits(cst@, depth as int),
    ensures
        node@ == lift_v(cst@, depth as int),
    decreases cst,
{
    proof {
        lemma_kids(*cst);
    }
    let here = depth + scoped(cst.kind);
    let mut kids: Vec<Node> = Vec::new();
    let mut i: usize = 0;
    while i < cst.kids.len()
        invariant
            i <= cst.kids@.len(),
            here == depth + scoped_v(cst.kind),
            cst@.kids == trees_of(cst.kids@),
            depth_fits(cst@, depth as int),
            kids@.len() == i,
            forall|j: int| 0 <= j < i ==> #[trigger] node_of(kids@[j]) == lift_v(tree_of(cst.kids@[j]), here as int),
        decreases cst.kids@.len() - i,
    {
        assert(cst@.kids[i as int] == tree_of(cst.kids@[i as int]));
        let kid = lift(&cst.kids[i], here);
        kids.push(kid);
        proof {
            assert(node_of(kids@[i as int]) == lift_v(tree_of(cst.kids@[i as int]), here as int));
        }
        i += 1;
    }
    let node = Node { kind: cst.kind, depth: here, span: Span { start: cst.span.start, end: cst.span.end }, kids };
    proof {
        lemma_node_kids(node);
        assert(node@.kids =~= lift_v(cst@, depth as int).kids);
    }
    node
}

fn scoped(kind: Kind) -> (n: usize)
    ensures
        n == scoped_v(kind),
{
    if kind == Kind::Scope { 1 } else { 0 }
}

/// Whether a character is upper-case, as `char::is_uppercase` reports it (the Unicode
/// `Uppercase` property).
pub uninterp spec fn uppercase(c: char) -> bool;

/// Calls `char::is_uppercase`. Its contract claims that the result is a fixed function of the
/// character, named `uppercase`, and what std documents of ASCII: `'A'..='Z'` are upper-case,
/// while `'a'..='z'`, the digits and `'_'` are not. What the property holds of the other
/// characters is left to the Unicode tables of std.
#[verifier::external_body]
fn upper_char(c: char) -> (res: bool)
    ensures
        res == uppercase(c),
        0x41 <= (c as u32) <= 0x5a ==> res,
        (0x61 <= (c as u32) <= 0x7a || 0x30 <= (c as u32) <= 0x39 || c == '_') ==> !res,
{
    c.is_uppercase()
}

/// Whether a character is upper-case: `'A'..='Z'` are, `'a'..='z'`, the digits and `'_'` are
/// not, and any other character is as `char::is_uppercase` reports it.
pub fn upper(c: char) -> (res: bool)
    ensures
        res == uppercase(c),
        0x41 <= (c as u32) <= 0x5a ==> res,
        (0x61 <= (c as u32) <= 0x7a || 0x30 <= (c as u32) <= 0x39 || c == '_') ==> !res,
{
    upper_char(c)
}

/// How many atoms a glyph starts after the glyph `prev` (none after an underscore): the first
/// glyph starts one, an upper-case glyph after a glyph that is not upper-case starts one, and an
/// underscore starts none.
pub open spec fn grow_v(prev: Option<char>, glyph: char) -> int {
    if glyph == '_' {
        0
    } else {
        match prev {
            None => 1,
            Some(before) => if uppercase(glyph) && !uppercase(before) { 1 } else { 0 },
        }
    }
}

/// What a glyph leaves as the previous glyph: nothing after an underscore.
pub open spec fn seat_v(glyph: char) -> Option<char> {
    if glyph == '_' { None } else { Some(glyph) }
}

/// The number of atoms in `name` read after `prev`: snake_case and camelCase boundaries
/// each start a new one.
pub open spec fn atoms(name: Seq<char>, prev: Option<char>) -> int
    decreases name.len(),
{
    if name.len() == 0 {
        0
    } else {
        grow_v(prev, name[0]) + atoms(name.drop_first(), seat_v(name[0]))
    }
}

/// Whether a name is more than one vocabulary atom.
pub open spec fn compound_v(name: Seq<char>) -> bool {
    atoms(name, None) > 1
}

/// The text a node covers: the characters of its byte span when the span lies on character
/// boundaries within the text, else nothing.
pub open spec fn word_v(text: Seq<u8>, start: usize, end: usize) -> Seq<char> {
    if start <= end && end <= text.len() && is_char_boundary(text, start as int) && is_char_boundary(text, end as int) {
        decode_utf8(text.subrange(start as int, end as int))
    } else {
        seq![]
    }
}

/// The number of newlines in `s`.
pub open spec fn newlines(s: Seq<u8>) -> int
    decreases s.len(),
{
    if s.len() == 0 {
        0
    } else {
        newlines(s.drop_last()) + if s.last() == 10u8 { 1int } else { 0int }
    }
}

/// Where the last line of `s` starts: just after its last newline, or at zero.
pub open spec fn line_start(s: Seq<u8>) -> int
    decreases s.len(),
{
    if s.len() == 0 {
        0
    } else if s.last() == 10u8 {
        s.len() as int
    } else {
        line_start(s.drop_last())
    }
}

/// The line and column (both from one) of byte `at`, clamped to the text.
pub open spec fn place_v(text: Seq<u8>, at: usize) -> (usize, usize) {
    let a = if at <= text.len() { at as int } else { text.len() as int };
    let head = text.take(a);
    ((newlines(head) + 1) as usize, (a - line_start(head) + 1) as usize)
}

/// Whether byte `at`, clamped to the text, is a character boundary.
pub open spec fn anchor_ok(text: Seq<u8>, at: usize) -> bool {
    is_char_boundary(text, if at <= text.len() { at as int } else { text.len() as int })
}


/// A finding of `law` at byte `at` of the source.
pub open spec fn mark_v(source: Source, at: usize, law: Seq<char>, note: Seq<char>, class: Class) -> FindingV {
    let (line, col) = place_v(text_bytes(source.text), at);
    FindingV { law, path: source.path@, line, col, note, class }
}

/// The block law: a scope deeper than the limit.
pub open spec fn block_v(source: Source, n: NodeV, config: Config) -> Seq<FindingV> {
    if n.depth > config.file.limit.block && n.kind == Kind::Scope && !exempt_v(config, source.path@, "block"@) {
        seq![mark_v(source, n.start, "block"@, "depth over limit"@, Class::Fault)]
    } else {
        seq![]
    }
}

/// The comment law: comments are denied unless allowed.
pub open spec fn comment_v(source: Source, n: NodeV, config: Config) -> Seq<FindingV> {
    if n.kind == Kind::Comment && !config.file.comment.allow && !exempt_v(config, source.path@, "comment"@) {
        seq![mark_v(source, n.start, "comment"@, "denied by default"@, Class::Fault)]
    } else {
        seq![]
    }
}

/// The coverage law: a region the grammar could not read is a blind spot.
pub open spec fn coverage_v(source: Source, n: NodeV) -> Seq<FindingV> {
    if n.kind == Kind::Loose {
        seq![mark_v(source, n.start, "coverage"@, "unparsed region"@, Class::Blind)]
    } else {
        seq![]
    }
}

/// Whether `name` is one of the registered compounds.
pub open spec fn registered_v(name: Seq<char>, vocab: Seq<String>) -> bool {
    exists|i: int| 0 <= i < vocab.len() && #[trigger] vocab[i]@ == name
}

/// The single-word law: a declared name of more than one atom that the vocabulary does not
/// register is debt.
pub open spec fn single_v(source: Source, n: NodeV, config: Config) -> Seq<FindingV> {
    let name = word_v(text_bytes(source.text), n.start, n.end);
    if n.kind == Kind::Word && config.file.word.single && compound_v(name) && !registered_v(name, config.vocab@)
        && !exempt_v(config, source.path@, "word"@) {
        seq![mark_v(source, n.start, "word"@, name, Class::Debt)]
    } else {
        seq![]
    }
}

/// The findings of one node, law by law.
pub open spec fn here_v(source: Source, n: NodeV, config: Config) -> Seq<FindingV> {
    block_v(source, n, config) + comment_v(source, n, config) + coverage_v(source, n) + single_v(source, n, config)
}

/// The findings of a tree: those of its root, then those of each child's tree in order.
pub open spec fn check_v(source: Source, n: NodeV, config: Config) -> Seq<FindingV>
    decreases n, 1int,
{
    here_v(source, n, config) + checks_v(source, n.kids, config)
}

/// The findings of the trees, one after the other.
pub open spec fn checks_v(source: Source, kids: Seq<NodeV>, config: Config) -> Seq<FindingV>
    decreases kids, 0int,
{
    if kids.len() == 0 {
        seq![]
    } else {
        checks_v(source, kids.drop_last(), config) + check_v(source, kids.last(), config)
    }
}

/// Whether every node of the tree that gets a finding starts on a character boundary of the
/// text, so that the finding's line and column can be read off the text before it.
pub open spec fn placeable_v(source: Source, n: NodeV, config: Config) -> bool
    decreases n,
{
    &&& (here_v(source, n, config).len() > 0 ==> anchor_ok(text_bytes(source.text), n.start))
    &&& forall|i: int| 0 <= i < n.kids.len() ==> placeable_v(source, #[trigger] n.kids[i], config)
}

/// Runs the constitutional laws over a structure tree.
pub fn check(source: &Source, node: &Node, config: &Config) -> (findings: Vec<Finding>)
    requires
        text_bytes(source.text).len() < usize::MAX,
        placeable_v(*source, node@, *config),
    ensures
        findings_of(findings@) == check_v(*source, node@, *config),
{
    let mut findings = Vec::new();
    assert(findings_of(findings@) =~= Seq::<FindingV>::empty());
    laws(source, node, config, &mut findings);
    assert(findings_of(findings@) =~= check_v(*source, node@, *config));
    findings
}

fn laws(source: &Source, node: &Node, config: &Config, findings: &mut Vec<Finding>)
    requires
        text_bytes(source.text).len() < usize::MAX,
        placeable_v(*source, node@, *config),
    ensures
        findings_of(final(findings)@) == findings_of(old(findings)@) + check_v(*source, node@, *config),
    decreases node,
{
    let ghost f0 = findings_of(findings@);
    block(source, node, config, findings);
    comment(source, node, config, findings);
    coverage(source, node, findings);
    single(source, node, config, findings);
    assert(findings_of(findings@) =~= f0 + here_v(*source, node@, *config));
    let ghost f1 = findings_of(findings@);
    proof {
        lemma_node_kids(*node);
    }
    let mut i: usize = 0;
    assert(node@.kids.take(0) =~= Seq::<NodeV>::empty());
    assert(f1 + checks_v(*source, node@.kids.take(0), *config) =~= f1);
    while i < node.kids.len()
        invariant
            text_bytes(source.text).len() < usize::MAX,
            placeable_v(*source, node@, *config),
            node@.kids == nodes_of(node.kids@),
            i <= node.kids@.len(),
            findings_of(findings@) == f1 + checks_v(*source, node@.kids.take(i as int), *config),
        decreases node.kids@.len() - i,
    {
        assert(node@.kids[i as int] == node.kids@[i as int]@);
        laws(source, &node.kids[i], config, findings);
        proof {
            assert(node@.kids.take(i + 1).drop_last() =~= node@.kids.take(i as int));
            assert(node@.kids.take(i + 1).last() == node@.kids[i as int]);
            assert(findings_of(findings@) =~= f1 + checks_v(*source, node@.kids.take(i + 1), *config));
        }
        i += 1;
    }
    assert(node@.kids.take(i as int) =~= node@.kids);
    assert(findings_of(findings@) =~= findings_of(old(findings)@) + check_v(*source, node@, *config));
}

proof fn lemma_push_finding(fs: Seq<Finding>, f: Finding)
    ensures
        findings_of(fs.push(f)) == findings_of(fs).push(f@),
{
    assert(findings_of(fs.push(f)) =~= findings_of(fs).push(f@));
}

fn block(source: &Source, node: &Node, config: &Config, findings: &mut Vec<Finding>)
    requires
        text_bytes(source.text).len() < usize::MAX,
        block_v(*source, node@, *config).len() > 0 ==> anchor_ok(text_bytes(source.text), node.span.start),
    ensures
        findings_of(final(findings)@) == findings_of(old(findings)@) + block_v(*source, node@, *config),
{
    if node.depth > config.file.limit.block && node.kind == Kind::Scope && !config.exempt(source.path.as_str(), "block") {
        let f = mark(source, node.span.start, "block", "depth over limit", Class::Fault);
        proof {
            lemma_push_finding(findings@, f);
        }
        findings.push(f);
    }
    assert(findings_of(final(findings)@) =~= findings_of(old(findings)@) + block_v(*source, node@, *config));
}

fn comment(source: &Source, node: &Node, config: &Config, findings: &mut Vec<Finding>)
    requires
        text_bytes(source.text).len() < usize::MAX,
        comment_v(*source, node@, *config).len() > 0 ==> anchor_ok(text_bytes(source.text), node.span.start),
    ensures
        findings_of(final(findings)@) == findings_of(old(findings)@) + comment_v(*source, node@, *config),
{
    if node.kind == Kind::Comment && !config.file.comment.allow && !config.exempt(source.path.as_str(), "comment") {
        let f = mark(source, node.span.start, "comment", "denied by default", Class::Fault);
        proof {
            lemma_push_finding(findings@, f);
        }
        findings.push(f);
    }
    assert(findings_of(final(findings)@) =~= findings_of(old(findings)@) + comment_v(*source, node@, *config));
}

fn coverage(source: &Source, node: &Node, findings: &mut Vec<Finding>)
    requires
        text_bytes(source.text).len() < usize::MAX,
        coverage_v(*source, node@).len() > 0 ==> anchor_ok(text_bytes(source.text), node.span.start),
    ensures
        findings_of(final(findings)@) == findings_of(old(findings)@) + coverage_v(*source, node@),
{
    if node.kind == Kind::Loose {
        let f = mark(source, node.span.start, "coverage", "unparsed region", Class::Blind);
        proof {
            lemma_push_finding(findings@, f);
        }
        findings.push(f);
    }
    assert(findings_of(final(findings)@) =~= findings_of(old(findings)@) + coverage_v(*source, node@));
}

fn single(source: &Source, node: &Node, config: &Config, findings: &mut Vec<Finding>)
    requires
        text_bytes(source.text).len() < usize::MAX,
        single_v(*source, node@, *config).len() > 0 ==> anchor_ok(text_bytes(source.text), node.span.start),
    ensures
        findings_of(final(findings)@) == findings_of(old(findings)@) + single_v(*source, node@, *config),
{
    let name = word(source, node);
    if node.kind == Kind::Word && config.file.word.single && compound(name) && !registered(name, &config.vocab)
        && !config.exempt(source.path.as_str(), "word") {
        let f = mark(source, node.span.start, "word", name, Class::Debt);
        proof {
            lemma_push_finding(findings@, f);
        }
        findings.push(f);
    }
    assert(findings_of(final(findings)@) =~= findings_of(old(findings)@) + single_v(*source, node@, *config));
}

/// Whether `name` is a registered compound.
fn registered(name: &str, vocab: &Vec<String>) -> (res: bool)
    ensures
        res == registered_v(name@, vocab@),
{
    listed(vocab, name)
}

/// The text of a node's span, or the empty string when the span does not lie on character
/// boundaries within the text.
fn word<'a>(source: &'a Source, node: &Node) -> (name: &'a str)
    ensures
        name@ == word_v(text_bytes(source.text), node.span.start, node.span.end),
{
    let text = source.text.as_str();
    let start = node.span.start;
    let end = node.span.end;
    let ghost bytes = text_bytes(source.text);
    let len = text.as_bytes().len();
    if start <= end && end <= len && text.is_char_boundary(start) && text.is_char_boundary(end) {
        proof {
            vstd::utf8::encode_utf8_valid_utf8(source.text@);
            vstd::utf8::valid_utf8_split(bytes, end as int);
            let head = bytes.subrange(0, end as int);
            if start < end {
                vstd::utf8::is_char_boundary_iff_not_is_continuation_byte(bytes, start as int);
                vstd::utf8::is_char_boundary_iff_not_is_continuation_byte(head, start as int);
            } else {
                vstd::utf8::is_char_boundary_start_end_of_seq(head);
            }
        }
        let (head, _) = text.split_at(end);
        let (_, name) = head.split_at(start);
        proof {
            assert(name.spec_bytes() =~= bytes.subrange(start as int, end as int));
            vstd::utf8::encode_utf8_decode_utf8(name@);
        }
        name
    } else {
        proof {
            reveal_strlit("");
        }
        ""
    }
}

/// Whether a name is more than one atom.
fn compound(name: &str) -> (res: bool)
    ensures
        res == compound_v(name@),
{
    segments(name) > 1
}

/// The number of atoms in a name.
fn segments(name: &str) -> (count: usize)
    ensures
        count == atoms(name@, None),
{
    let n = name.unicode_len();
    let mut count: usize = 0;
    let mut prev: Option<char> = None;
    let mut i: usize = 0;
    assert(name@.skip(0) =~= name@);
    while i < n
        invariant
            n == name@.len(),
            i <= n,
            count <= i,
            count + atoms(name@.skip(i as int), prev) == atoms(name@, None),
        decreases n - i,
    {
        let glyph = name.get_char(i);
        assert(name@.skip(i as int).drop_first() =~= name@.skip(i + 1));
        count += grow(prev, glyph);
        prev = seat(glyph);
        i += 1;
    }
    count
}

fn grow(prev: Option<char>, glyph: char) -> (n: usize)
    ensures
        n == grow_v(prev, glyph),
{
    if glyph == '_' {
        return 0;
    }
    match prev {
        None => 1,
        Some(before) => if upper(glyph) && !upper(before) { 1 } else { 0 },
    }
}

fn seat(glyph: char) -> (res: Option<char>)
    ensures
        res == seat_v(glyph),
{
    if glyph == '_' { None } else { Some(glyph) }
}

/// A finding of `law` at byte `at`.
fn mark(source: &Source, at: usize, law: &str, note: &str, class: Class) -> (f: Finding)
    requires
        text_bytes(source.text).len() < usize::MAX,
        anchor_ok(text_bytes(source.text), at),
    ensures
        f@ == mark_v(*source, at, law@, note@, class),
{
    let (line, col) = place(source.text.as_str(), at);
    Finding { law: law.to_owned(), path: source.path.clone(), line, col, note: note.to_owned(), class }
}

/// The line and column of byte `at`, clamped to the text.
fn place(text: &str, at: usize) -> (res: (usize, usize))
    requires
        text.spec_bytes().len() < usize::MAX,
        anchor_ok(text.spec_bytes(), at),
    ensures
        res == place_v(text.spec_bytes(), at),
{
    let bytes = text.as_bytes();
    let at = if at < bytes.len() { at } else { bytes.len() };
    let mut line: usize = 1;
    let mut start: usize = 0;
    let mut i: usize = 0;
    assert(bytes@.take(0) =~= Seq::<u8>::empty());
    while i < at
        invariant
            at <= bytes@.len(),
            bytes@.len() < usize::MAX,
            i <= at,
            line == newlines(bytes@.take(i as int)) + 1,
            start == line_start(bytes@.take(i as int)),
            line <= i + 1,
            start <= i,
        decreases at - i,
    {
        assert(bytes@.take(i + 1).drop_last() =~= bytes@.take(i as int));
        if bytes[i] == 10u8 {
            line += 1;
            start = i + 1;
        }
        i += 1;
    }
    (line, at - start + 1)
}

/// The number of `/` in a path.
pub open spec fn slashes(path: Seq<char>) -> int
    decreases path.len(),
{
    if path.len() == 0 {
        0
    } else {
        slashes(path.drop_last()) + if path.last() == '/' { 1int } else { 0int }
    }
}

/// The finding of a path deeper than the limit.
pub open spec fn pathmark_v(path: Seq<char>) -> FindingV {
    FindingV {
        law: "path"@,
        path,
        line: 0,
        col: 0,
        note: "depth over three"@,
        class: Class::Fault,
    }
}

/// The path law: a file nested deeper than the limit, unless a boundary waives it.
pub fn pathdepth(path: &str, config: &Config) -> (res: Option<Finding>)
    ensures
        res is Some <==> slashes(path@) > config.file.limit.path && !exempt_v(*config, path@, "path"@),
        res matches Some(f) ==> f@ == pathmark_v(path@),
{
    if depthof(path) > config.file.limit.path && !config.exempt(path, "path") {
        return Some(pathmark(path));
    }
    None
}

/// The directory depth of a path: the number of `/` in it.
fn depthof(path: &str) -> (depth: usize)
    ensures
        depth == slashes(path@),
{
    let n = path.unicode_len();
    let mut depth: usize = 0;
    let mut i: usize = 0;
    assert(path@.take(0) =~= Seq::<char>::empty());
    while i < n
        invariant
            n == path@.len(),
            i <= n,
            depth <= i,
            depth == slashes(path@.take(i as int)),
        decreases n - i,
    {
        assert(path@.take(i + 1).drop_last() =~= path@.take(i as int));
        if path.get_char(i) == '/' {
            depth += 1;
        }
        i += 1;
    }
    assert(path@.take(n as int) =~= path@);
    depth
}

/// The finding of a path deeper than the limit.
fn pathmark(path: &str) -> (f: Finding)
    ensures
        f@ == pathmark_v(path@),
{
    Finding {
        law: "path".to_owned(),
        path: path.to_owned(),
        line: 0,
        col: 0,
        note: "depth over three".to_owned(),
        class: Class::Fault,
    }
}

/// Whether a node gets a finding from some law.
fn flagged(source: &Source, node: &Node, config: &Config) -> (res: bool)
    ensures
        res == (here_v(*source, node@, *config).len() > 0),
{
    if node.kind == Kind::Scope && node.depth > config.file.limit.block && !config.exempt(source.path.as_str(), "block") {
        return true;
    }
    if node.kind == Kind::Comment && !config.file.comment.allow && !config.exempt(source.path.as_str(), "comment") {
        return true;
    }
    if node.kind == Kind::Loose {
        return true;
    }
    if node.kind == Kind::Word && config.file.word.single {
        let name = word(source, node);
        return compound(name) && !registered(name, &config.vocab) && !config.exempt(source.path.as_str(), "word");
    }
    false
}

/// Whether every node of the tree that gets a finding starts on a character boundary of the
/// source text, which `check` needs to place its findings.
pub fn placeable(source: &Source, node: &Node, config: &Config) -> (res: bool)
    ensures
        res == placeable_v(*source, node@, *config),
    decreases node,
{
    if flagged(source, node, config) {
        let text = source.text.as_str();
        let len = text.as_bytes().len();
        let at = if node.span.start <= len { node.span.start } else { len };
        if !text.is_char_boundary(at) {
            return false;
        }
    }
    proof {
        lemma_node_kids(*node);
    }
    let mut i: usize = 0;
    while i < node.kids.len()
        invariant
            node@.kids == nodes_of(node.kids@),
            i <= node.kids@.len(),
            forall|j: int| 0 <= j < i ==> placeable_v(*source, #[trigger] node@.kids[j], *config),
        decreases node.kids@.len() - i,
    {
        assert(node@.kids[i as int] == node.kids@[i as int]@);
        if !placeable(source, &node.kids[i], config) {
            return false;
        }
        i += 1;
    }
    true
}

} // verus!
