use vstd::prelude::*;
use crate::config::{Config, exempt_v};
use crate::grammar::{
    Kind, Source, Tree, all_inner, all_top, bounded, inner, lemma_parse_height, notes_of, pick, sig_of, spec_parse,
    text_bytes, top,
};
use crate::kernel::{
    FindingV, NodeV, atoms, check_v, checks_v, comment_v, compound_v, depth_fits, here_v, lift_v, mark_v,
    registered_v, scoped_v, seat_v, single_v, uppercase, word_v, block_v, coverage_v, Class,
};
use crate::lex::{Slot, TokenV, spec_lex, spec_longest, spec_better, emitted};
use crate::parse::{Ctx, DEPTH, fits, p_start, spec_run};
use crate::peg::{RuleV, spec_match};
use crate::text::ends_with;
use crate::sections::{exact, forest_at, heads_before, in_forest, nested, preorder};
use crate::report::{decimal, insert_v, lex_lt, not_after, ordered_v, report_v, tally};
use crate::shape::{json_v, kids_json};
use vstd::string::StringSliceAdditionalSpecFns;

verus! {

/// Only scopes count toward block depth: in the structure tree each node keeps the kind and
/// span of its concrete node, and its depth is its parent's depth, plus one exactly when the
/// node is a scope.
pub proof fn law_scope_depth(t: Tree, depth: int)
    requires
        0 <= depth,
        depth_fits(t, depth),
    ensures
        lift_v(t, depth).kind == t.kind,
        lift_v(t, depth).start == t.start,
        lift_v(t, depth).end == t.end,
        lift_v(t, depth).depth == depth + scoped_v(t.kind),
        lift_v(t, depth).kids.len() == t.kids.len(),
        forall|i: int| 0 <= i < t.kids.len() ==> (#[trigger] lift_v(t, depth).kids[i]).depth
            == lift_v(t, depth).depth + scoped_v(t.kids[i].kind),
{
    let here = depth + scoped_v(t.kind);
    assert forall|i: int| 0 <= i < t.kids.len() implies (#[trigger] lift_v(t, depth).kids[i]).depth
        == lift_v(t, depth).depth + scoped_v(t.kids[i].kind) by {
        assert(lift_v(t, depth).kids[i] == lift_v(t.kids[i], here));
        assert(depth_fits(t.kids[i], here));
    }
}

/// The concrete tree of any source is at most `DEPTH + 2` levels high, or one more level than
/// its text is long for markdown.
pub proof fn law_parse_height(path: Seq<char>, text: Seq<u8>)
    requires
        text.len() <= usize::MAX,
    ensures
        bounded(spec_parse(path, text), if ends_with(path, ".md"@) { text.len() + 1int } else { DEPTH + 2int }),
{
    lemma_parse_height(path, text);
}

/// Whether no finding has this law.
pub open spec fn none_of(fs: Seq<FindingV>, law: Seq<char>) -> bool {
    forall|i: int| 0 <= i < fs.len() ==> (#[trigger] fs[i]).law != law
}

proof fn lemma_none_concat(a: Seq<FindingV>, b: Seq<FindingV>, law: Seq<char>)
    requires
        none_of(a, law),
        none_of(b, law),
    ensures
        none_of(a + b, law),
{
    assert forall|i: int| 0 <= i < (a + b).len() implies (#[trigger] (a + b)[i]).law != law by {
        if i < a.len() {
            assert((a + b)[i] == a[i]);
        } else {
            assert((a + b)[i] == b[i - a.len()]);
        }
    }
}

proof fn lemma_check_none(source: Source, n: NodeV, config: Config, law: Seq<char>)
    requires
        forall|m: NodeV| none_of(#[trigger] here_v(source, m, config), law),
    ensures
        none_of(check_v(source, n, config), law),
    decreases n, 1int,
{
    lemma_checks_none(source, n.kids, config, law);
    lemma_none_concat(here_v(source, n, config), checks_v(source, n.kids, config), law);
}

proof fn lemma_checks_none(source: Source, kids: Seq<NodeV>, config: Config, law: Seq<char>)
    requires
        forall|m: NodeV| none_of(#[trigger] here_v(source, m, config), law),
    ensures
        none_of(checks_v(source, kids, config), law),
    decreases kids, 0int,
{
    if kids.len() > 0 {
        lemma_checks_none(source, kids.drop_last(), config, law);
        lemma_check_none(source, kids.last(), config, law);
        lemma_none_concat(checks_v(source, kids.drop_last(), config), check_v(source, kids.last(), config), law);
    }
}

proof fn lemma_laws_differ()
    ensures
        "block"@ != "comment"@,
        "block"@ != "coverage"@,
        "block"@ != "word"@,
        "comment"@ != "coverage"@,
        "comment"@ != "word"@,
        "word"@ != "coverage"@,
{
    reveal_strlit("block");
    reveal_strlit("comment");
    reveal_strlit("coverage");
    reveal_strlit("word");
    assert("block"@.len() == 5);
    assert("comment"@.len() == 7);
    assert("coverage"@.len() == 8);
    assert("word"@.len() == 4);
}

/// A boundary waives a law: when a boundary of the configuration waives the block, comment or
/// word law for a source's path, checking that source never reports that law.
pub proof fn law_boundary_waives(source: Source, n: NodeV, config: Config, law: Seq<char>)
    requires
        exempt_v(config, source.path@, law),
        law == "block"@ || law == "comment"@ || law == "word"@,
    ensures
        none_of(check_v(source, n, config), law),
{
    lemma_laws_differ();
    assert forall|m: NodeV| none_of(#[trigger] here_v(source, m, config), law) by {
        let fs = here_v(source, m, config);
        assert forall|i: int| 0 <= i < fs.len() implies (#[trigger] fs[i]).law != law by {
            let b = crate::kernel::block_v(source, m, config);
            let c = comment_v(source, m, config);
            let v = crate::kernel::coverage_v(source, m);
            let w = single_v(source, m, config);
            assert(fs == b + c + v + w);
            if i < b.len() {
                assert(fs[i] == b[i]);
            } else if i < b.len() + c.len() {
                assert(fs[i] == c[i - b.len()]);
            } else if i < b.len() + c.len() + v.len() {
                assert(fs[i] == v[i - b.len() - c.len()]);
            } else {
                assert(fs[i] == w[i - b.len() - c.len() - v.len()]);
            }
        }
    }
    lemma_check_none(source, n, config, law);
}

/// When comments are allowed, checking never reports the comment law.
pub proof fn law_comments_allowed(source: Source, n: NodeV, config: Config)
    requires
        config.file.comment.allow,
    ensures
        none_of(check_v(source, n, config), "comment"@),
{
    lemma_laws_differ();
    let law = "comment"@;
    assert forall|m: NodeV| none_of(#[trigger] here_v(source, m, config), law) by {
        let fs = here_v(source, m, config);
        assert forall|i: int| 0 <= i < fs.len() implies (#[trigger] fs[i]).law != law by {
            let b = crate::kernel::block_v(source, m, config);
            let c = comment_v(source, m, config);
            let v = crate::kernel::coverage_v(source, m);
            let w = single_v(source, m, config);
            assert(fs == b + c + v + w);
            if i < b.len() {
                assert(fs[i] == b[i]);
            } else if i < b.len() + c.len() {
                assert(fs[i] == c[i - b.len()]);
            } else if i < b.len() + c.len() + v.len() {
                assert(fs[i] == v[i - b.len() - c.len()]);
            } else {
                assert(fs[i] == w[i - b.len() - c.len() - v.len()]);
            }
        }
    }
    lemma_check_none(source, n, config, law);
}

/// Comments are denied by default: without an allowance or a boundary, a comment node is
/// reported as a fault of the comment law at its start.
pub proof fn law_comment_denied(source: Source, n: NodeV, config: Config)
    requires
        n.kind == Kind::Comment,
        !config.file.comment.allow,
        config.file.boundary@.len() == 0,
    ensures
        comment_v(source, n, config) == seq![mark_v(source, n.start, "comment"@, "denied by default"@, Class::Fault)],
{
}

/// A registered compound is no debt: the single-word law never reports a name that the
/// vocabulary registers.
pub proof fn law_registered(source: Source, n: NodeV, config: Config)
    requires
        registered_v(crate::kernel::word_v(crate::grammar::text_bytes(source.text), n.start, n.end), config.vocab@),
    ensures
        single_v(source, n, config) == Seq::<FindingV>::empty(),
{
}

/// What a run of glyphs leaves as the previous glyph.
pub open spec fn after(name: Seq<char>, prev: Option<char>) -> Option<char> {
    if name.len() == 0 { prev } else { seat_v(name.last()) }
}

proof fn lemma_atoms_concat(x: Seq<char>, y: Seq<char>, prev: Option<char>)
    ensures
        atoms(x + y, prev) == atoms(x, prev) + atoms(y, after(x, prev)),
    decreases x.len(),
{
    if x.len() > 0 {
        assert((x + y).drop_first() =~= x.drop_first() + y);
        assert((x + y)[0] == x[0]);
        lemma_atoms_concat(x.drop_first(), y, seat_v(x[0]));
        if x.len() > 1 {
            assert(x.drop_first().last() == x.last());
        }
    } else {
        assert(x + y =~= y);
    }
}

proof fn lemma_atoms_nonneg(name: Seq<char>, prev: Option<char>)
    ensures
        atoms(name, prev) >= 0,
    decreases name.len(),
{
    if name.len() > 0 {
        lemma_atoms_nonneg(name.drop_first(), seat_v(name[0]));
    }
}

proof fn lemma_atoms_fresh(name: Seq<char>)
    requires
        exists|i: int| 0 <= i < name.len() && name[i] != '_',
    ensures
        atoms(name, None) >= 1,
    decreases name.len(),
{
    if name[0] == '_' {
        let i = choose|i: int| 0 <= i < name.len() && name[i] != '_';
        assert(name.drop_first()[i - 1] == name[i]);
        lemma_atoms_fresh(name.drop_first());
    } else {
        lemma_atoms_nonneg(name.drop_first(), seat_v(name[0]));
    }
}

/// snake_case is compound: a name with an underscore that has a glyph other than an
/// underscore on each side of it is more than one atom.
pub proof fn law_snake_compound(a: Seq<char>, b: Seq<char>)
    requires
        exists|i: int| 0 <= i < a.len() && a[i] != '_',
        exists|i: int| 0 <= i < b.len() && b[i] != '_',
    ensures
        compound_v(a + seq!['_'] + b),
{
    lemma_atoms_concat(a, seq!['_'] + b, None);
    assert(a + seq!['_'] + b =~= a + (seq!['_'] + b));
    lemma_atoms_fresh(a);
    let tail = seq!['_'] + b;
    assert(tail[0] == '_');
    assert(tail.drop_first() =~= b);
    lemma_atoms_fresh(b);
}

/// Atoms add across an underscore: a name joined from two parts by `_` has the atoms of the
/// first part plus those of the second.
pub proof fn law_atoms_join(a: Seq<char>, b: Seq<char>)
    ensures
        atoms(a + seq!['_'] + b, None) == atoms(a, None) + atoms(b, None),
{
    assert(a + seq!['_'] + b =~= a + (seq!['_'] + b));
    lemma_atoms_concat(a, seq!['_'] + b, None);
    let tail = seq!['_'] + b;
    assert(tail.drop_first() =~= b);
}

proof fn lemma_atoms_blank(name: Seq<char>, prev: Option<char>)
    requires
        forall|i: int| 0 <= i < name.len() ==> name[i] == '_',
    ensures
        atoms(name, prev) == 0,
    decreases name.len(),
{
    if name.len() > 0 {
        assert forall|i: int| 0 <= i < name.drop_first().len() implies name.drop_first()[i] == '_' by {
            assert(name.drop_first()[i] == name[i + 1]);
        }
        lemma_atoms_blank(name.drop_first(), seat_v(name[0]));
    }
}

/// A name has no atom exactly when it is made of underscores only.
pub proof fn law_atoms_none(name: Seq<char>)
    ensures
        atoms(name, None) == 0 <==> forall|i: int| 0 <= i < name.len() ==> name[i] == '_',
{
    if forall|i: int| 0 <= i < name.len() ==> name[i] == '_' {
        lemma_atoms_blank(name, None);
    } else {
        lemma_atoms_fresh(name);
    }
}

/// camelCase is compound: a name in which an upper-case glyph (not an underscore) follows a
/// glyph that is not upper-case, after some glyph other than an underscore, is more than one
/// atom.
pub proof fn law_camel_compound(a: Seq<char>, b: Seq<char>)
    requires
        exists|i: int| 0 <= i < a.len() && a[i] != '_',
        b.len() > 0,
        b[0] != '_',
        uppercase(b[0]),
        !uppercase(a.last()),
    ensures
        compound_v(a + b),
{
    lemma_atoms_concat(a, b, None);
    lemma_atoms_fresh(a);
    lemma_atoms_nonneg(b.drop_first(), seat_v(b[0]));
}

/// Tokens are laid out in order: each is non-empty and lies within the text, and each ends
/// no later than the next begins.
pub proof fn law_tokens_ordered(rules: Seq<RuleV>, s: Seq<u8>, at: int)
    requires
        0 <= at,
        s.len() <= usize::MAX,
    ensures
        forall|k: int| 0 <= k < spec_lex(rules, s, at).len() ==> at <= #[trigger] spec_lex(rules, s, at)[k].start
            && spec_lex(rules, s, at)[k].start < spec_lex(rules, s, at)[k].end && spec_lex(rules, s, at)[k].end <= s.len(),
        forall|k: int| 0 <= k < spec_lex(rules, s, at).len() - 1 ==> #[trigger] spec_lex(rules, s, at)[k].end
            <= spec_lex(rules, s, at)[k + 1].start,
    decreases s.len() - at,
{
    crate::grammar::lemma_lex_bounds(rules, s, at);
    if at < s.len() {
        match spec_longest(rules, s, at, rules.len()) {
            Some((i, end)) => {
                if at < end <= s.len() {
                    law_tokens_ordered(rules, s, end);
                    crate::grammar::lemma_lex_bounds(rules, s, end);
                    let e = emitted(rules[i], at, end);
                    let r = spec_lex(rules, s, end);
                    assert(spec_lex(rules, s, at) == e + r);
                    assert forall|k: int| 0 <= k < (e + r).len() - 1 implies #[trigger] (e + r)[k].end <= (e + r)[k + 1].start by {
                        if k + 1 < e.len() {
                        } else if k < e.len() {
                            assert((e + r)[k] == e[k]);
                            assert((e + r)[k + 1] == r[0]);
                        } else {
                            assert((e + r)[k] == r[k - e.len()]);
                            assert((e + r)[k + 1] == r[k + 1 - e.len()]);
                        }
                    }
                }
            },
            None => {
                law_tokens_ordered(rules, s, at + 1);
            },
        }
    }
}

/// Longest match, earliest rule on ties: the match chosen among the first `n` rules makes
/// progress, is the chosen rule's match, and no rule matches further; an earlier rule matches
/// strictly less far.
pub proof fn law_longest_match(rules: Seq<RuleV>, s: Seq<u8>, at: int, n: nat)
    requires
        n <= rules.len(),
    ensures
        spec_longest(rules, s, at, n) matches Some((i, end)) ==> {
            &&& 0 <= i < n
            &&& at < end
            &&& spec_match(rules[i].pat, s, at) == Some(end)
            &&& forall|j: int| 0 <= j < n ==> (#[trigger] spec_match(rules[j].pat, s, at) matches Some(e)
                ==> (e > at ==> e <= end && (j < i ==> e < end)))
        },
        spec_longest(rules, s, at, n) is None ==> forall|j: int| 0 <= j < n ==> (#[trigger] spec_match(
            rules[j].pat,
            s,
            at,
        ) matches Some(e) ==> e <= at),
    decreases n,
{
    if n > 0 {
        law_longest_match(rules, s, at, (n - 1) as nat);
    }
}

proof fn lemma_lex_total(a: Seq<char>, b: Seq<char>)
    requires
        a != b,
    ensures
        lex_lt(a, b) || lex_lt(b, a),
    decreases a.len(),
{
    if a.len() == 0 && b.len() == 0 {
        assert(a =~= b);
    }
    if a.len() > 0 && b.len() > 0 && (a[0] as u32) == (b[0] as u32) {
        vstd::utf8::char_u32_cast(a[0], a[0] as u32);
        vstd::utf8::char_u32_cast(b[0], b[0] as u32);
        assert(a[0] == b[0]);
        if a.drop_first() == b.drop_first() {
            assert(a =~= seq![a[0]] + a.drop_first());
            assert(b =~= seq![b[0]] + b.drop_first());
        }
        lemma_lex_total(a.drop_first(), b.drop_first());
    }
}

proof fn lemma_not_after_total(a: FindingV, b: FindingV)
    ensures
        not_after(a, b) || not_after(b, a),
{
    if a.path != b.path {
        lemma_lex_total(a.path, b.path);
    }
}

/// Whether each finding comes no later than the next.
pub open spec fn in_order(fs: Seq<FindingV>) -> bool {
    forall|i: int| 0 <= i < fs.len() - 1 ==> not_after(#[trigger] fs[i], fs[i + 1])
}

proof fn lemma_insert_ordered(sorted: Seq<FindingV>, x: FindingV)
    requires
        in_order(sorted),
    ensures
        in_order(insert_v(sorted, x)),
        insert_v(sorted, x).to_multiset() == sorted.to_multiset().insert(x),
        insert_v(sorted, x).len() == sorted.len() + 1,
        insert_v(sorted, x).last() == x || (sorted.len() > 0 && insert_v(sorted, x).last() == sorted.last()),
    decreases sorted.len(),
{
    broadcast use vstd::seq_lib::group_to_multiset_ensures;
    if sorted.len() == 0 {
        assert(seq![x] =~= Seq::<FindingV>::empty().push(x));
    } else if not_after(sorted.last(), x) {
        let r = sorted.push(x);
        assert forall|i: int| 0 <= i < r.len() - 1 implies not_after(#[trigger] r[i], r[i + 1]) by {
            if i + 1 < sorted.len() {
                assert(not_after(sorted[i], sorted[i + 1]));
            }
        }
    } else {
        let rest = sorted.drop_last();
        assert forall|i: int| 0 <= i < rest.len() - 1 implies not_after(#[trigger] rest[i], rest[i + 1]) by {
            assert(not_after(sorted[i], sorted[i + 1]));
        }
        lemma_insert_ordered(rest, x);
        let r = insert_v(rest, x);
        lemma_not_after_total(sorted.last(), x);
        if r.last() != x {
            assert(not_after(sorted[sorted.len() - 2], sorted[sorted.len() - 1]));
        }
        let out = r.push(sorted.last());
        assert forall|i: int| 0 <= i < out.len() - 1 implies not_after(#[trigger] out[i], out[i + 1]) by {
            if i + 1 < r.len() {
                assert(not_after(r[i], r[i + 1]));
            }
        }
        assert(sorted =~= rest.push(sorted.last()));
    }
}

/// The report lists findings in order of place: the ordered findings are those it was given,
/// each as often, and each comes no later than the next by path, then line, then column.
pub proof fn law_report_ordered(fs: Seq<FindingV>)
    ensures
        ordered_v(fs).to_multiset() == fs.to_multiset(),
        in_order(ordered_v(fs)),
    decreases fs.len(),
{
    broadcast use vstd::seq_lib::group_to_multiset_ensures;
    if fs.len() == 0 {
        assert(ordered_v(fs) =~= fs);
    } else {
        law_report_ordered(fs.drop_last());
        lemma_insert_ordered(ordered_v(fs.drop_last()), fs.last());
        assert(fs =~= fs.drop_last().push(fs.last()));
    }
}

proof fn lemma_tally_insert(sorted: Seq<FindingV>, x: FindingV, class: Class)
    ensures
        tally(insert_v(sorted, x), class) == tally(sorted, class) + if x.class == class { 1int } else { 0int },
    decreases sorted.len(),
{
    if sorted.len() == 0 {
        assert(seq![x].drop_last() =~= sorted);
    } else if not_after(sorted.last(), x) {
        assert(sorted.push(x).drop_last() =~= sorted);
    } else {
        lemma_tally_insert(sorted.drop_last(), x, class);
        let r = insert_v(sorted.drop_last(), x);
        assert(r.push(sorted.last()).drop_last() =~= r);
    }
}

proof fn lemma_tally_ordered(fs: Seq<FindingV>, class: Class)
    ensures
        tally(ordered_v(fs), class) == tally(fs, class),
    decreases fs.len(),
{
    if fs.len() > 0 {
        lemma_tally_ordered(fs.drop_last(), class);
        lemma_tally_insert(ordered_v(fs.drop_last()), fs.last(), class);
    }
}

proof fn lemma_tally_some(fs: Seq<FindingV>, class: Class)
    ensures
        tally(fs, class) > 0 <==> exists|i: int| 0 <= i < fs.len() && (#[trigger] fs[i]).class == class,
    decreases fs.len(),
{
    if fs.len() > 0 {
        let rest = fs.drop_last();
        lemma_tally_some(rest, class);
        if exists|i: int| 0 <= i < rest.len() && (#[trigger] rest[i]).class == class {
            let i = choose|i: int| 0 <= i < rest.len() && (#[trigger] rest[i]).class == class;
            assert(fs[i] == rest[i]);
        }
        if exists|i: int| 0 <= i < fs.len() && (#[trigger] fs[i]).class == class {
            let i = choose|i: int| 0 <= i < fs.len() && (#[trigger] fs[i]).class == class;
            if i < fs.len() - 1 {
                assert(rest[i] == fs[i]);
            }
        }
    }
}

/// A run fails exactly when some finding is a fault, or, when strict, a blind spot; debt never
/// fails it, and whether debt is listed does not change the outcome.
pub proof fn law_report_fails(fs: Seq<FindingV>, strict: bool, listed: bool)
    ensures
        report_v(fs, strict, listed).1 <==> (exists|i: int| 0 <= i < fs.len() && (#[trigger] fs[i]).class == Class::Fault)
            || (strict && exists|i: int| 0 <= i < fs.len() && (#[trigger] fs[i]).class == Class::Blind),
{
    lemma_tally_ordered(fs, Class::Fault);
    lemma_tally_ordered(fs, Class::Blind);
    lemma_tally_some(fs, Class::Fault);
    lemma_tally_some(fs, Class::Blind);
}

/// The number of findings of `law`.
pub open spec fn count(fs: Seq<FindingV>, law: Seq<char>) -> nat
    decreases fs.len(),
{
    if fs.len() == 0 {
        0
    } else {
        count(fs.drop_last(), law) + if fs.last().law == law { 1nat } else { 0nat }
    }
}

/// The number of nodes of the tree (the root included) of which `p` holds.
pub open spec fn nodes_where(n: NodeV, p: spec_fn(NodeV) -> bool) -> nat
    decreases n, 1int,
{
    (if p(n) { 1nat } else { 0nat }) + kids_where(n.kids, p)
}

/// The number of nodes of the trees of which `p` holds.
pub open spec fn kids_where(kids: Seq<NodeV>, p: spec_fn(NodeV) -> bool) -> nat
    decreases kids, 0int,
{
    if kids.len() == 0 {
        0
    } else {
        kids_where(kids.drop_last(), p) + nodes_where(kids.last(), p)
    }
}

/// A scope too deep for the limit, where the block law is not waived.
pub open spec fn too_deep(source: Source, config: Config, m: NodeV) -> bool {
    m.kind == Kind::Scope && m.depth > config.file.limit.block && !exempt_v(config, source.path@, "block"@)
}

/// A comment, where comments are neither allowed nor waived.
pub open spec fn denied(source: Source, config: Config, m: NodeV) -> bool {
    m.kind == Kind::Comment && !config.file.comment.allow && !exempt_v(config, source.path@, "comment"@)
}

/// A region the grammar could not read.
pub open spec fn unread(m: NodeV) -> bool {
    m.kind == Kind::Loose
}

/// A declared name of more than one atom that is not registered, where the single-word law is on
/// and not waived.
pub open spec fn unregistered(source: Source, config: Config, m: NodeV) -> bool {
    let name = word_v(text_bytes(source.text), m.start, m.end);
    m.kind == Kind::Word && config.file.word.single && compound_v(name) && !registered_v(name, config.vocab@)
        && !exempt_v(config, source.path@, "word"@)
}

proof fn lemma_count_concat(a: Seq<FindingV>, b: Seq<FindingV>, law: Seq<char>)
    ensures
        count(a + b, law) == count(a, law) + count(b, law),
    decreases b.len(),
{
    if b.len() == 0 {
        assert(a + b =~= a);
    } else {
        lemma_count_concat(a, b.drop_last(), law);
        assert((a + b).drop_last() =~= a + b.drop_last());
    }
}

proof fn lemma_count_one(f: FindingV, law: Seq<char>)
    ensures
        count(seq![f], law) == if f.law == law { 1nat } else { 0nat },
{
    assert(seq![f].drop_last() =~= Seq::<FindingV>::empty());
    assert(count(Seq::<FindingV>::empty(), law) == 0);
    assert(seq![f].last() == f);
}

proof fn lemma_here_count(source: Source, m: NodeV, config: Config)
    ensures
        count(here_v(source, m, config), "block"@) == if too_deep(source, config, m) { 1nat } else { 0nat },
        count(here_v(source, m, config), "comment"@) == if denied(source, config, m) { 1nat } else { 0nat },
        count(here_v(source, m, config), "coverage"@) == if unread(m) { 1nat } else { 0nat },
        count(here_v(source, m, config), "word"@) == if unregistered(source, config, m) { 1nat } else { 0nat },
        forall|i: int| 0 <= i < here_v(source, m, config).len() ==> {
            let l = (#[trigger] here_v(source, m, config)[i]).law;
            l == "block"@ || l == "comment"@ || l == "coverage"@ || l == "word"@
        },
{
    lemma_laws_differ();
    let b = block_v(source, m, config);
    let c = comment_v(source, m, config);
    let v = coverage_v(source, m);
    let w = single_v(source, m, config);
    let laws = seq!["block"@, "comment"@, "coverage"@, "word"@];
    assert forall|k: int| 0 <= k < 4 implies {
        &&& count(b, #[trigger] laws[k]) == if laws[k] == "block"@ && too_deep(source, config, m) { 1nat } else { 0nat }
        &&& count(c, laws[k]) == if laws[k] == "comment"@ && denied(source, config, m) { 1nat } else { 0nat }
        &&& count(v, laws[k]) == if laws[k] == "coverage"@ && unread(m) { 1nat } else { 0nat }
        &&& count(w, laws[k]) == if laws[k] == "word"@ && unregistered(source, config, m) { 1nat } else { 0nat }
    } by {
        if b.len() > 0 {
            lemma_count_one(b[0], laws[k]);
            assert(b == seq![b[0]]);
        }
        if c.len() > 0 {
            lemma_count_one(c[0], laws[k]);
            assert(c == seq![c[0]]);
        }
        if v.len() > 0 {
            lemma_count_one(v[0], laws[k]);
            assert(v == seq![v[0]]);
        }
        if w.len() > 0 {
            lemma_count_one(w[0], laws[k]);
            assert(w == seq![w[0]]);
        }
        lemma_count_concat(b, c, laws[k]);
        lemma_count_concat(b + c, v, laws[k]);
        lemma_count_concat(b + c + v, w, laws[k]);
    }
    assert(laws[0] == "block"@);
    assert(laws[1] == "comment"@);
    assert(laws[2] == "coverage"@);
    assert(laws[3] == "word"@);
    let fs = here_v(source, m, config);
    assert forall|i: int| 0 <= i < fs.len() implies {
        let l = (#[trigger] fs[i]).law;
        l == "block"@ || l == "comment"@ || l == "coverage"@ || l == "word"@
    } by {
        assert(fs == b + c + v + w);
        if i < b.len() {
            assert(fs[i] == b[i]);
        } else if i < b.len() + c.len() {
            assert(fs[i] == c[i - b.len()]);
        } else if i < b.len() + c.len() + v.len() {
            assert(fs[i] == v[i - b.len() - c.len()]);
        } else {
            assert(fs[i] == w[i - b.len() - c.len() - v.len()]);
        }
    }
}

proof fn lemma_check_count(source: Source, n: NodeV, config: Config, law: Seq<char>, p: spec_fn(NodeV) -> bool)
    requires
        forall|m: NodeV| count(#[trigger] here_v(source, m, config), law) == if p(m) { 1nat } else { 0nat },
    ensures
        count(check_v(source, n, config), law) == nodes_where(n, p),
    decreases n, 1int,
{
    lemma_checks_count(source, n.kids, config, law, p);
    lemma_count_concat(here_v(source, n, config), checks_v(source, n.kids, config), law);
}

proof fn lemma_checks_count(source: Source, kids: Seq<NodeV>, config: Config, law: Seq<char>, p: spec_fn(NodeV) -> bool)
    requires
        forall|m: NodeV| count(#[trigger] here_v(source, m, config), law) == if p(m) { 1nat } else { 0nat },
    ensures
        count(checks_v(source, kids, config), law) == kids_where(kids, p),
    decreases kids, 0int,
{
    if kids.len() > 0 {
        lemma_checks_count(source, kids.drop_last(), config, law, p);
        lemma_check_count(source, kids.last(), config, law, p);
        lemma_count_concat(checks_v(source, kids.drop_last(), config), check_v(source, kids.last(), config), law);
    }
}

/// Each law is reported once per node it applies to: checking a tree reports the block law once
/// for each scope deeper than the limit, the comment law once for each denied comment, the
/// coverage law once for each loose region, and the word law once for each unregistered
/// compound name (each where not waived), and no other law.
pub proof fn law_check_counts(source: Source, n: NodeV, config: Config)
    ensures
        count(check_v(source, n, config), "block"@) == nodes_where(n, |m: NodeV| too_deep(source, config, m)),
        count(check_v(source, n, config), "comment"@) == nodes_where(n, |m: NodeV| denied(source, config, m)),
        count(check_v(source, n, config), "coverage"@) == nodes_where(n, |m: NodeV| unread(m)),
        count(check_v(source, n, config), "word"@) == nodes_where(n, |m: NodeV| unregistered(source, config, m)),
        count(check_v(source, n, config), "block"@) + count(check_v(source, n, config), "comment"@)
            + count(check_v(source, n, config), "coverage"@) + count(check_v(source, n, config), "word"@)
            == check_v(source, n, config).len(),
{
    assert forall|m: NodeV| count(#[trigger] here_v(source, m, config), "block"@) == if (|m: NodeV| too_deep(source, config, m))(m) { 1nat } else { 0nat } by {
        lemma_here_count(source, m, config);
    }
    lemma_check_count(source, n, config, "block"@, |m: NodeV| too_deep(source, config, m));
    assert forall|m: NodeV| count(#[trigger] here_v(source, m, config), "comment"@) == if (|m: NodeV| denied(source, config, m))(m) { 1nat } else { 0nat } by {
        lemma_here_count(source, m, config);
    }
    lemma_check_count(source, n, config, "comment"@, |m: NodeV| denied(source, config, m));
    assert forall|m: NodeV| count(#[trigger] here_v(source, m, config), "coverage"@) == if (|m: NodeV| unread(m))(m) { 1nat } else { 0nat } by {
        lemma_here_count(source, m, config);
    }
    lemma_check_count(source, n, config, "coverage"@, |m: NodeV| unread(m));
    assert forall|m: NodeV| count(#[trigger] here_v(source, m, config), "word"@) == if (|m: NodeV| unregistered(source, config, m))(m) { 1nat } else { 0nat } by {
        lemma_here_count(source, m, config);
    }
    lemma_check_count(source, n, config, "word"@, |m: NodeV| unregistered(source, config, m));
    lemma_four_laws(source, n, config);
}

/// Whether every finding has one of the four laws.
pub open spec fn four(fs: Seq<FindingV>) -> bool {
    forall|i: int| 0 <= i < fs.len() ==> {
        let l = (#[trigger] fs[i]).law;
        l == "block"@ || l == "comment"@ || l == "coverage"@ || l == "word"@
    }
}

proof fn lemma_four_count(fs: Seq<FindingV>)
    requires
        four(fs),
    ensures
        count(fs, "block"@) + count(fs, "comment"@) + count(fs, "coverage"@) + count(fs, "word"@) == fs.len(),
    decreases fs.len(),
{
    lemma_laws_differ();
    if fs.len() > 0 {
        assert(four(fs.drop_last())) by {
            assert forall|i: int| 0 <= i < fs.drop_last().len() implies {
                let l = (#[trigger] fs.drop_last()[i]).law;
                l == "block"@ || l == "comment"@ || l == "coverage"@ || l == "word"@
            } by {
                assert(fs.drop_last()[i] == fs[i]);
            }
        }
        lemma_four_count(fs.drop_last());
        assert(fs.last() == fs[fs.len() - 1]);
    }
}

proof fn lemma_four_concat(a: Seq<FindingV>, b: Seq<FindingV>)
    requires
        four(a),
        four(b),
    ensures
        four(a + b),
{
    assert forall|i: int| 0 <= i < (a + b).len() implies {
        let l = (#[trigger] (a + b)[i]).law;
        l == "block"@ || l == "comment"@ || l == "coverage"@ || l == "word"@
    } by {
        if i < a.len() {
            assert((a + b)[i] == a[i]);
        } else {
            assert((a + b)[i] == b[i - a.len()]);
        }
    }
}

proof fn lemma_four_check(source: Source, n: NodeV, config: Config)
    ensures
        four(check_v(source, n, config)),
    decreases n, 1int,
{
    lemma_here_count(source, n, config);
    lemma_four_checks(source, n.kids, config);
    lemma_four_concat(here_v(source, n, config), checks_v(source, n.kids, config));
}

proof fn lemma_four_checks(source: Source, kids: Seq<NodeV>, config: Config)
    ensures
        four(checks_v(source, kids, config)),
    decreases kids, 0int,
{
    if kids.len() > 0 {
        lemma_four_checks(source, kids.drop_last(), config);
        lemma_four_check(source, kids.last(), config);
        lemma_four_concat(checks_v(source, kids.drop_last(), config), check_v(source, kids.last(), config));
    }
}

proof fn lemma_four_laws(source: Source, n: NodeV, config: Config)
    ensures
        count(check_v(source, n, config), "block"@) + count(check_v(source, n, config), "comment"@)
            + count(check_v(source, n, config), "coverage"@) + count(check_v(source, n, config), "word"@)
            == check_v(source, n, config).len(),
{
    lemma_four_check(source, n, config);
    lemma_four_count(check_v(source, n, config));
}

/// Whether `p` is a path of child indices from the root of `t` to one of its nodes.
pub open spec fn is_path(t: Tree, p: Seq<int>) -> bool
    decreases p.len(),
{
    p.len() == 0 || (0 <= p[0] < t.kids.len() && is_path(t.kids[p[0]], p.drop_first()))
}

/// The node of `t` at the end of path `p`.
pub open spec fn tree_at(t: Tree, p: Seq<int>) -> Tree
    decreases p.len(),
{
    if p.len() == 0 || !(0 <= p[0] < t.kids.len()) {
        t
    } else {
        tree_at(t.kids[p[0]], p.drop_first())
    }
}

/// The structure node at the end of path `p`.
pub open spec fn node_at(n: NodeV, p: Seq<int>) -> NodeV
    decreases p.len(),
{
    if p.len() == 0 || !(0 <= p[0] < n.kids.len()) {
        n
    } else {
        node_at(n.kids[p[0]], p.drop_first())
    }
}

/// The number of scopes on path `p` of `t`, its first and last node included.
pub open spec fn scopes_on(t: Tree, p: Seq<int>) -> int
    decreases p.len(),
{
    scoped_v(t.kind) + if p.len() == 0 || !(0 <= p[0] < t.kids.len()) {
        0
    } else {
        scopes_on(t.kids[p[0]], p.drop_first())
    }
}

proof fn lemma_depth_path(t: Tree, depth: int, p: Seq<int>)
    requires
        0 <= depth,
        depth_fits(t, depth),
        is_path(t, p),
    ensures
        node_at(lift_v(t, depth), p).depth == depth + scopes_on(t, p),
        node_at(lift_v(t, depth), p).kind == tree_at(t, p).kind,
        node_at(lift_v(t, depth), p).start == tree_at(t, p).start,
        node_at(lift_v(t, depth), p).end == tree_at(t, p).end,
        node_at(lift_v(t, depth), p).kids.len() == tree_at(t, p).kids.len(),
    decreases p.len(),
{
    if p.len() > 0 {
        let here = depth + scoped_v(t.kind);
        let k = p[0];
        assert(lift_v(t, depth).kids[k] == lift_v(t.kids[k], here));
        assert(depth_fits(t.kids[k], here));
        lemma_depth_path(t.kids[k], here, p.drop_first());
    }
}

/// Only scopes count toward block depth: every node of the structure tree of a source keeps the
/// kind, span and number of children of the concrete node at the same place, and its depth is
/// the number of scopes on the path from the root to it, itself included.
pub proof fn law_depth_counts_scopes(path: Seq<char>, text: Seq<u8>, p: Seq<int>)
    requires
        text.len() < usize::MAX,
        is_path(spec_parse(path, text), p),
    ensures
        node_at(lift_v(spec_parse(path, text), 0), p).depth == scopes_on(spec_parse(path, text), p),
        node_at(lift_v(spec_parse(path, text), 0), p).kind == tree_at(spec_parse(path, text), p).kind,
        node_at(lift_v(spec_parse(path, text), 0), p).start == tree_at(spec_parse(path, text), p).start,
        node_at(lift_v(spec_parse(path, text), 0), p).end == tree_at(spec_parse(path, text), p).end,
        node_at(lift_v(spec_parse(path, text), 0), p).kids.len() == tree_at(spec_parse(path, text), p).kids.len(),
{
    lemma_parse_height(path, text);
    let h = if ends_with(path, ".md"@) { text.len() + 1int } else { DEPTH + 2int };
    crate::kernel::lemma_fits(spec_parse(path, text), 0, h);
    lemma_depth_path(spec_parse(path, text), 0, p);
}

/// The shape of every concrete tree: a root spanning the whole text, whose children are loose
/// regions without children or nodes that, with all their descendants, are neither roots, loose
/// regions nor patterns (the pattern kind is reserved and never emitted); every span lies
/// within the text.
pub proof fn law_tree_shape(path: Seq<char>, text: Seq<u8>)
    requires
        text.len() <= usize::MAX,
    ensures
        spec_parse(path, text).kind == Kind::Root,
        spec_parse(path, text).start == 0,
        spec_parse(path, text).end == text.len(),
        all_top(spec_parse(path, text).kids, text.len() as int, true),
{
    let len = text.len() as int;
    if ends_with(path, ".md"@) {
        crate::grammar::lemma_heads_inner(text);
        let kids = spec_parse(path, text).kids;
        assert forall|i: int| 0 <= i < kids.len() implies top(#[trigger] kids[i], len, true) by {
            assert(inner(kids[i], len, true));
        }
    } else if ends_with(path, ".rs"@) || ends_with(path, ".ts"@) {
        let toks = crate::lex::spec_lex(pick(crate::rust::rust_grammar(), true), text, 0);
        crate::grammar::lemma_lex_bounds(pick(crate::rust::rust_grammar(), true), text, 0);
        assert forall|k: int| 0 <= k < toks.len() implies (#[trigger] toks[k]).start <= toks[k].end && toks[k].end <= len by {
            assert(toks[k].start < toks[k].end);
        }
        crate::grammar::lemma_sig_within(toks, len);
        let c = Ctx { rules: pick(crate::rust::rust_grammar(), false), toks: sig_of(toks), src: text };
        crate::rust::lemma_no_pattern();
        crate::grammar::lemma_pick_untagged(crate::rust::rust_grammar(), false, "pattern"@);
        crate::parse::lemma_start_top(c, true);
        crate::grammar::lemma_notes_inner(toks, len);
        let notes = notes_of(toks);
        assert forall|i: int| 0 <= i < notes.len() implies top(#[trigger] notes[i], len, true) by {
            assert(inner(notes[i], len, true));
        }
        crate::grammar::lemma_top_concat(p_start(c), notes, len, true);
    }
}

/// Markdown is read by headings, one section per heading line: read in pre-order, the nodes
/// below the root start exactly at the heading lines (a line that opens with `#`s and a space),
/// in source order. Each is a scope running from its heading to the next heading of the same or
/// a shallower level, or to the end of the text; its children are sections of deeper headings
/// that lie inside it, one after another without overlapping, and so are the root's children
/// within the text. Each section's parent is the innermost other section around its start: a
/// section whose start lies inside another one has a parent, and that other one holds it; a
/// section of the root has no other section around its start.
pub proof fn law_markdown_heads(path: Seq<char>, text: Seq<u8>)
    requires
        ends_with(path, ".md"@),
        text.len() <= usize::MAX,
    ensures
        preorder(spec_parse(path, text).kids) == heads_before(text, text.len() as int),
        forall|i: int| 0 <= i < spec_parse(path, text).kids.len() ==> exact(#[trigger] spec_parse(path, text).kids[i], text),
        nested(spec_parse(path, text).kids, text, -1, text.len() as int, 0),
        forall|p: Seq<int>, q: Seq<int>|
            #![trigger in_forest(spec_parse(path, text).kids, p), in_forest(spec_parse(path, text).kids, q)]
            in_forest(spec_parse(path, text).kids, p) && in_forest(spec_parse(path, text).kids, q) && p != q
                && forest_at(spec_parse(path, text).kids, q).start <= forest_at(spec_parse(path, text).kids, p).start
                < forest_at(spec_parse(path, text).kids, q).end ==> {
                &&& p.len() >= 2
                &&& forest_at(spec_parse(path, text).kids, q).start <= forest_at(
                    spec_parse(path, text).kids,
                    p.drop_last(),
                ).start
                &&& forest_at(spec_parse(path, text).kids, p.drop_last()).end <= forest_at(
                    spec_parse(path, text).kids,
                    q,
                ).end
            },
{
    crate::sections::lemma_heads_exact(text);
    let kids = spec_parse(path, text).kids;
    assert forall|p: Seq<int>, q: Seq<int>|
        #![trigger in_forest(kids, p), in_forest(kids, q)]
        in_forest(kids, p) && in_forest(kids, q) && p != q && forest_at(kids, q).start <= forest_at(kids, p).start
            < forest_at(kids, q).end implies {
            &&& p.len() >= 2
            &&& forest_at(kids, q).start <= forest_at(kids, p.drop_last()).start
            &&& forest_at(kids, p.drop_last()).end <= forest_at(kids, q).end
        } by {
        crate::sections::lemma_parent(kids, text, -1, text.len() as int, 0, p, q);
    }
}

/// Whatever the grammar, a parse is a root over `[0, end)` whose children are loose regions
/// without children or nodes that, with all their descendants, are neither roots nor loose
/// regions: unread tokens are only ever loose children of the root. Every span lies within the
/// source.
pub proof fn law_parse_shape(rules: Seq<RuleV>, toks: Seq<TokenV>, src: Seq<u8>, end: usize)
    requires
        fits(toks, src.len() as int),
    ensures
        spec_run(rules, toks, src, end).kind == Kind::Root,
        spec_run(rules, toks, src, end).start == 0,
        spec_run(rules, toks, src, end).end == end,
        all_top(spec_run(rules, toks, src, end).kids, src.len() as int, false),
{
    crate::parse::lemma_start_top(Ctx { rules, toks, src }, false);
}

/// Whether two findings stand at the same place: path, line and column.
pub open spec fn same_place(a: FindingV, b: FindingV) -> bool {
    a.path == b.path && a.line == b.line && a.col == b.col
}

/// The findings at the place of `x`, in their order.
pub open spec fn at_place(fs: Seq<FindingV>, x: FindingV) -> Seq<FindingV>
    decreases fs.len(),
{
    if fs.len() == 0 {
        seq![]
    } else {
        let rest = at_place(fs.drop_last(), x);
        if same_place(fs.last(), x) {
            rest.push(fs.last())
        } else {
            rest
        }
    }
}

proof fn lemma_insert_stable(sorted: Seq<FindingV>, y: FindingV, x: FindingV)
    ensures
        at_place(insert_v(sorted, y), x) == if same_place(y, x) {
            at_place(sorted, x).push(y)
        } else {
            at_place(sorted, x)
        },
    decreases sorted.len(),
{
    if sorted.len() == 0 {
        assert(seq![y].drop_last() =~= sorted);
        assert(seq![y].last() == y);
    } else if not_after(sorted.last(), y) {
        assert(sorted.push(y).drop_last() =~= sorted);
    } else {
        let dl = sorted.drop_last();
        lemma_insert_stable(dl, y, x);
        let r = insert_v(dl, y);
        assert(r.push(sorted.last()).drop_last() =~= r);
    }
}

/// The report's order is stable: the findings at any one place come out in the order in which
/// they were given.
pub proof fn law_report_stable(fs: Seq<FindingV>, x: FindingV)
    ensures
        at_place(ordered_v(fs), x) == at_place(fs, x),
    decreases fs.len(),
{
    if fs.len() > 0 {
        law_report_stable(fs.drop_last(), x);
        lemma_insert_stable(ordered_v(fs.drop_last()), fs.last(), x);
    }
}

/// Whether every finding satisfies `p`.
pub open spec fn all_findings(fs: Seq<FindingV>, p: spec_fn(FindingV) -> bool) -> bool {
    forall|i: int| 0 <= i < fs.len() ==> p(#[trigger] fs[i])
}

proof fn lemma_all_concat(a: Seq<FindingV>, b: Seq<FindingV>, p: spec_fn(FindingV) -> bool)
    requires
        all_findings(a, p),
        all_findings(b, p),
    ensures
        all_findings(a + b, p),
{
    assert forall|i: int| 0 <= i < (a + b).len() implies p(#[trigger] (a + b)[i]) by {
        if i < a.len() {
            assert((a + b)[i] == a[i]);
        } else {
            assert((a + b)[i] == b[i - a.len()]);
        }
    }
}

proof fn lemma_check_all(source: Source, n: NodeV, config: Config, p: spec_fn(FindingV) -> bool)
    requires
        forall|m: NodeV| all_findings(#[trigger] here_v(source, m, config), p),
    ensures
        all_findings(check_v(source, n, config), p),
    decreases n, 1int,
{
    lemma_checks_all(source, n.kids, config, p);
    lemma_all_concat(here_v(source, n, config), checks_v(source, n.kids, config), p);
}

proof fn lemma_checks_all(source: Source, kids: Seq<NodeV>, config: Config, p: spec_fn(FindingV) -> bool)
    requires
        forall|m: NodeV| all_findings(#[trigger] here_v(source, m, config), p),
    ensures
        all_findings(checks_v(source, kids, config), p),
    decreases kids, 0int,
{
    if kids.len() > 0 {
        lemma_checks_all(source, kids.drop_last(), config, p);
        lemma_check_all(source, kids.last(), config, p);
        lemma_all_concat(checks_v(source, kids.drop_last(), config), check_v(source, kids.last(), config), p);
    }
}

/// What the block law reports: a fault, "depth over limit", at the start of the scope.
pub open spec fn block_fault(f: FindingV) -> bool {
    f.law == "block"@ ==> f.class == Class::Fault && f.note == "depth over limit"@
}

/// Every finding of the block law is a fault, noted "depth over limit": deep nesting fails a
/// run; it is never mere debt.
pub proof fn law_block_is_fault(source: Source, n: NodeV, config: Config)
    ensures
        forall|i: int| 0 <= i < check_v(source, n, config).len() && (#[trigger] check_v(source, n, config)[i]).law == "block"@
            ==> check_v(source, n, config)[i].class == Class::Fault && check_v(source, n, config)[i].note
            == "depth over limit"@,
{
    lemma_laws_differ();
    let p = |f: FindingV| block_fault(f);
    assert forall|m: NodeV| all_findings(#[trigger] here_v(source, m, config), p) by {
        let fs = here_v(source, m, config);
        assert forall|i: int| 0 <= i < fs.len() implies p(#[trigger] fs[i]) by {
            let b = block_v(source, m, config);
            let c = comment_v(source, m, config);
            let v = coverage_v(source, m);
            let w = single_v(source, m, config);
            assert(fs == b + c + v + w);
            if i < b.len() {
                assert(fs[i] == b[i]);
            } else if i < b.len() + c.len() {
                assert(fs[i] == c[i - b.len()]);
            } else if i < b.len() + c.len() + v.len() {
                assert(fs[i] == v[i - b.len() - c.len()]);
            } else {
                assert(fs[i] == w[i - b.len() - c.len() - v.len()]);
            }
        }
    }
    lemma_check_all(source, n, config, p);
    let fs = check_v(source, n, config);
    assert forall|i: int| 0 <= i < fs.len() && (#[trigger] fs[i]).law == "block"@ implies fs[i].class == Class::Fault
        && fs[i].note == "depth over limit"@ by {
        assert(p(fs[i]));
    }
}

proof fn lemma_count_some(fs: Seq<FindingV>, law: Seq<char>)
    requires
        count(fs, law) > 0,
    ensures
        exists|i: int| 0 <= i < fs.len() && (#[trigger] fs[i]).law == law,
    decreases fs.len(),
{
    if fs.last().law == law {
        assert(fs[fs.len() - 1] == fs.last());
    } else {
        lemma_count_some(fs.drop_last(), law);
        let i = choose|i: int| 0 <= i < fs.drop_last().len() && (#[trigger] fs.drop_last()[i]).law == law;
        assert(fs[i] == fs.drop_last()[i]);
    }
}

/// A scope deeper than the block limit, where no boundary waives the block law, fails the run,
/// strict or not.
pub proof fn law_deep_scope_fails(source: Source, n: NodeV, config: Config, strict: bool, listed: bool)
    requires
        nodes_where(n, |m: NodeV| too_deep(source, config, m)) > 0,
    ensures
        report_v(check_v(source, n, config), strict, listed).1,
{
    law_check_counts(source, n, config);
    let fs = check_v(source, n, config);
    lemma_count_some(fs, "block"@);
    law_block_is_fault(source, n, config);
    let i = choose|i: int| 0 <= i < fs.len() && (#[trigger] fs[i]).law == "block"@;
    assert(fs[i].class == Class::Fault);
    law_report_fails(fs, strict, listed);
}

/// A boundary waives an allowed law for a path under any one of its globs: when some boundary
/// allows the law, and any of its globs has a head (the glob without its trailing `*`s, then
/// without its trailing `/`s) that is empty or a prefix of the path, the path is exempt.
pub proof fn law_any_glob(config: Config, path: Seq<char>, law: Seq<char>, k: int, j: int)
    requires
        0 <= k < config.file.boundary@.len(),
        exists|i: int| 0 <= i < config.file.boundary@[k].allow@.len() && #[trigger] config.file.boundary@[k].allow@[i]@ == law,
        0 <= j < config.file.boundary@[k].paths@.len(),
        ({
            let head = crate::config::glob_head(config.file.boundary@[k].paths@[j]@);
            head.len() == 0 || (head.len() <= path.len() && path.take(head.len() as int) == head)
        }),
    ensures
        exempt_v(config, path, law),
{
    let head = crate::config::glob_head(config.file.boundary@[k].paths@[j]@);
    if head.len() > 0 {
        assert(path.subrange(0, head.len() as int) == path.take(head.len() as int));
    }
    assert(crate::config::under(config.file.boundary@[k].paths@[j]@, path));
    assert(crate::config::covers_v(config.file.boundary@[k], path, law));
}

/// The number that a run of decimal digits denotes, most significant digit first.
pub open spec fn number(s: Seq<u8>) -> int
    decreases s.len(),
{
    if s.len() == 0 {
        0
    } else {
        number(s.drop_last()) * 10 + (s.last() - 48)
    }
}

/// Printed numbers read back: the decimal of `n` is a non-empty run of the digits `0` to `9`,
/// most significant first, that denotes `n`, with no leading zero unless `n` is zero.
pub proof fn law_decimal_reads_back(n: nat)
    ensures
        decimal(n).len() >= 1,
        forall|i: int| 0 <= i < decimal(n).len() ==> 48 <= #[trigger] decimal(n)[i] <= 57,
        number(decimal(n)) == n,
        decimal(n)[0] == 48 ==> n == 0,
    decreases n,
{
    if n < 10 {
        assert(decimal(n).drop_last() =~= Seq::<u8>::empty());
        assert(number(Seq::<u8>::empty()) == 0);
        assert(decimal(n).last() == (48 + n) as u8);
        assert(number(decimal(n)) == 0 * 10 + (decimal(n).last() - 48));
    } else {
        law_decimal_reads_back(n / 10);
        let d = decimal(n);
        assert(d.drop_last() =~= decimal(n / 10));
        assert forall|i: int| 0 <= i < d.len() implies 48 <= #[trigger] d[i] <= 57 by {
            if i < d.len() - 1 {
                assert(d[i] == decimal(n / 10)[i]);
            }
        }
        vstd::arithmetic::div_mod::lemma_fundamental_div_mod(n as int, 10);
        assert(d[0] == decimal(n / 10)[0]);
        assert(d.last() == (48 + n % 10) as u8);
        assert(d.last() - 48 == n % 10);
        let q = (n / 10) as int;
        assert(q * 10 == 10 * q) by (nonlinear_arith);
        assert(number(d) == number(decimal(n / 10)) * 10 + (d.last() - 48));
        assert(number(decimal(n / 10)) == q);
    }
}

/// The JSON of the nodes, separated by commas: `parts` joined with one comma between each two.
pub open spec fn joined(parts: Seq<Seq<u8>>) -> Seq<u8>
    decreases parts.len(),
{
    if parts.len() == 0 {
        seq![]
    } else if parts.len() == 1 {
        parts[0]
    } else {
        parts[0] + ",".spec_bytes() + joined(parts.drop_first())
    }
}

proof fn lemma_joined_push(parts: Seq<Seq<u8>>, x: Seq<u8>)
    ensures
        joined(parts.push(x)) == joined(parts) + (if parts.len() > 0 { ",".spec_bytes() } else { seq![] }) + x,
    decreases parts.len(),
{
    if parts.len() == 0 {
        assert(joined(parts.push(x)) == x);
        assert(seq![] + Seq::<u8>::empty() + x =~= x);
    } else if parts.len() == 1 {
        assert(parts.push(x).drop_first() =~= seq![x]);
        assert(joined(seq![x]) == x);
    } else {
        lemma_joined_push(parts.drop_first(), x);
        assert(parts.push(x).drop_first() =~= parts.drop_first().push(x));
        assert(parts.push(x)[0] == parts[0]);
        assert(joined(parts.push(x)) =~= joined(parts) + ",".spec_bytes() + x);
    }
}

/// A node's children are rendered as a JSON array: the JSON of each child, in order, with
/// exactly one comma between each two.
pub proof fn law_json_kids(kids: Seq<NodeV>)
    ensures
        kids_json(kids) == joined(Seq::new(kids.len(), |i: int| json_v(kids[i]))),
    decreases kids.len(),
{
    let parts = Seq::new(kids.len(), |i: int| json_v(kids[i]));
    if kids.len() == 0 {
        assert(parts =~= Seq::<Seq<u8>>::empty());
    } else {
        let rest = kids.drop_last();
        law_json_kids(rest);
        let front = Seq::new(rest.len(), |i: int| json_v(rest[i]));
        assert(parts =~= front.push(json_v(kids.last())));
        lemma_joined_push(front, json_v(kids.last()));
        assert(kids_json(kids) =~= joined(parts));
    }
}

/// Both kinds of comment of the brace grammar are kept: wherever the lexer's longest match at a
/// position is the block comment rule `BLOCK` or the line comment rule `LINE`, the tokens from
/// there on begin with one comment token over exactly that match.
pub proof fn law_comments_lexed(s: Seq<u8>, at: int)
    requires
        0 <= at < s.len(),
        s.len() <= usize::MAX,
    ensures
        (match spec_longest(pick(crate::rust::rust_grammar(), true), s, at, pick(crate::rust::rust_grammar(), true).len()) {
            Some((i, end)) => (pick(crate::rust::rust_grammar(), true)[i].name == "BLOCK"@ || pick(
                crate::rust::rust_grammar(),
                true,
            )[i].name == "LINE"@) ==> at < end <= s.len() && spec_lex(pick(crate::rust::rust_grammar(), true), s, at)
                == seq![
                TokenV {
                    name: pick(crate::rust::rust_grammar(), true)[i].name,
                    kind: Slot::Comment,
                    start: at as usize,
                    end: end as usize,
                },
            ] + spec_lex(pick(crate::rust::rust_grammar(), true), s, end),
            None => true,
        }),
{
    let rules = pick(crate::rust::rust_grammar(), true);
    crate::rust::lemma_comment_rules();
    crate::grammar::lemma_pick_every(crate::rust::rust_grammar(), true, |r: RuleV| crate::rust::commented(r));
    law_longest_match(rules, s, at, rules.len());
    if let Some((i, end)) = spec_longest(rules, s, at, rules.len()) {
        if rules[i].name == "BLOCK"@ || rules[i].name == "LINE"@ {
            assert(crate::rust::commented(rules[i]));
            crate::peg::lemma_match_bounds(rules[i].pat, s, at);
            reveal_strlit("comment");
            reveal_strlit("skip");
            assert("comment"@[0] != "skip"@[0]);
        }
    }
}

proof fn lemma_notes_kept(ts: Seq<TokenV>, k: int)
    requires
        0 <= k < ts.len(),
        ts[k].kind == Slot::Comment,
    ensures
        exists|j: int| 0 <= j < notes_of(ts).len() && #[trigger] notes_of(ts)[j] == (Tree {
            kind: Kind::Comment,
            start: ts[k].start,
            end: ts[k].end,
            kids: seq![],
        }),
    decreases ts.len(),
{
    let t = Tree { kind: Kind::Comment, start: ts[k].start, end: ts[k].end, kids: seq![] };
    let rest = notes_of(ts.drop_last());
    if k == ts.len() - 1 {
        assert(ts.last() == ts[k]);
        assert(notes_of(ts) == rest.push(t));
        assert(notes_of(ts)[rest.len() as int] == t);
    } else {
        assert(ts.drop_last()[k] == ts[k]);
        lemma_notes_kept(ts.drop_last(), k);
        let j = choose|j: int| 0 <= j < rest.len() && #[trigger] rest[j] == t;
        if ts.last().kind == Slot::Comment {
            let last = Tree { kind: Kind::Comment, start: ts.last().start, end: ts.last().end, kids: seq![] };
            assert(notes_of(ts) == rest.push(last));
            assert(notes_of(ts)[j] == rest[j]);
        } else {
            assert(notes_of(ts) == rest);
        }
    }
}

/// Every comment token of a Rust or TypeScript text becomes a comment node, over its span, among
/// the children of the root.
pub proof fn law_comment_nodes(path: Seq<char>, text: Seq<u8>, k: int)
    requires
        ends_with(path, ".rs"@) || ends_with(path, ".ts"@),
        0 <= k < spec_lex(pick(crate::rust::rust_grammar(), true), text, 0).len(),
        spec_lex(pick(crate::rust::rust_grammar(), true), text, 0)[k].kind == Slot::Comment,
    ensures
        exists|j: int| 0 <= j < spec_parse(path, text).kids.len() && #[trigger] spec_parse(path, text).kids[j] == (Tree {
            kind: Kind::Comment,
            start: spec_lex(pick(crate::rust::rust_grammar(), true), text, 0)[k].start,
            end: spec_lex(pick(crate::rust::rust_grammar(), true), text, 0)[k].end,
            kids: seq![],
        }),
{
    reveal_strlit(".md");
    reveal_strlit(".rs");
    reveal_strlit(".ts");
    assert(!ends_with(path, ".md"@)) by {
        if ends_with(path, ".md"@) {
            let n = path.len();
            assert(path[n - 1] == path.subrange(n - 3, n as int)[2]);
            assert(".md"@[2] == 'd');
            if ends_with(path, ".rs"@) {
                assert(path.subrange(n - 3, n as int)[2] == ".rs"@[2]);
            } else {
                assert(path.subrange(n - 3, n as int)[2] == ".ts"@[2]);
            }
        }
    }
    let toks = spec_lex(pick(crate::rust::rust_grammar(), true), text, 0);
    lemma_notes_kept(toks, k);
    let c = Ctx { rules: pick(crate::rust::rust_grammar(), false), toks: sig_of(toks), src: text };
    let kids = p_start(c) + notes_of(toks);
    assert(spec_parse(path, text).kids == kids);
    let t = Tree { kind: Kind::Comment, start: toks[k].start, end: toks[k].end, kids: seq![] };
    let j = choose|j: int| 0 <= j < notes_of(toks).len() && #[trigger] notes_of(toks)[j] == t;
    assert(kids[p_start(c).len() + j] == t);
}

} // verus!
