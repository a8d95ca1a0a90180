use vstd::prelude::*;
use vstd::string::StringSliceAdditionalSpecFns;
use vstd::utf8::encode_utf8;
use crate::grammar::{Kind, Source, spec_parse, text_bytes};
use crate::kernel::{Node, NodeV, lemma_node_kids, lift_v, nodes_of, structure};
use crate::report::{decimal, digits, put};

verus! {

/// The name of a kind in the structure JSON.
pub open spec fn kind_name(kind: Kind) -> Seq<u8> {
    match kind {
        Kind::Root => "root".spec_bytes(),
        Kind::Scope => "scope".spec_bytes(),
        Kind::Item => "item".spec_bytes(),
        Kind::Literal => "literal".spec_bytes(),
        Kind::Pattern => "pattern".spec_bytes(),
        Kind::Comment => "comment".spec_bytes(),
        Kind::Loose => "loose".spec_bytes(),
        Kind::Word => "word".spec_bytes(),
    }
}

/// The name of a kind.
pub fn name(kind: Kind) -> (res: &'static str)
    ensures
        res.spec_bytes() == kind_name(kind),
{
    match kind {
        Kind::Root => "root",
        Kind::Scope => "scope",
        Kind::Item => "item",
        Kind::Literal => "literal",
        Kind::Pattern => "pattern",
        Kind::Comment => "comment",
        Kind::Loose => "loose",
        Kind::Word => "word",
    }
}

/// The JSON of a structure node: kind, depth, span and children.
pub open spec fn json_v(n: NodeV) -> Seq<u8>
    decreases n, 1int,
{
    "{\"kind\":\"".spec_bytes() + kind_name(n.kind) + "\",\"depth\":".spec_bytes() + decimal(n.depth as nat)
        + ",\"start\":".spec_bytes() + decimal(n.start as nat) + ",\"end\":".spec_bytes() + decimal(n.end as nat)
        + ",\"kids\":[".spec_bytes() + kids_json(n.kids) + "]}".spec_bytes()
}

/// The JSON of the nodes, separated by commas.
pub open spec fn kids_json(kids: Seq<NodeV>) -> Seq<u8>
    decreases kids, 0int,
{
    if kids.len() == 0 {
        seq![]
    } else {
        kids_json(kids.drop_last()) + (if kids.len() > 1 { ",".spec_bytes() } else { seq![] }) + json_v(kids.last())
    }
}

/// Appends the JSON of a node.
pub fn tree(node: &Node, out: &mut Vec<u8>)
    ensures
        final(out)@ == old(out)@ + json_v(node@),
    decreases node,
{
    put(out, "{\"kind\":\"");
    put(out, name(node.kind));
    put(out, "\",\"depth\":");
    digits(out, node.depth);
    put(out, ",\"start\":");
    digits(out, node.span.start);
    put(out, ",\"end\":");
    digits(out, node.span.end);
    put(out, ",\"kids\":[");
    let ghost head = out@;
    proof {
        lemma_node_kids(*node);
    }
    let mut index: usize = 0;
    assert(out@ =~= head + kids_json(node@.kids.take(0)));
    while index < node.kids.len()
        invariant
            node@.kids == nodes_of(node.kids@),
            index <= node.kids@.len(),
            out@ == head + kids_json(node@.kids.take(index as int)),
        decreases node.kids@.len() - index,
    {
        comma(out, index);
        assert(node@.kids[index as int] == node.kids@[index as int]@);
        tree(&node.kids[index], out);
        proof {
            assert(node@.kids.take(index + 1).drop_last() =~= node@.kids.take(index as int));
            assert(node@.kids.take(index + 1).last() == node@.kids[index as int]);
            assert(out@ =~= head + kids_json(node@.kids.take(index + 1)));
        }
        index += 1;
    }
    assert(node@.kids.take(index as int) =~= node@.kids);
    put(out, "]}");
    assert(final(out)@ =~= old(out)@ + json_v(node@));
}

/// Appends a comma before every child but the first.
fn comma(out: &mut Vec<u8>, index: usize)
    ensures
        final(out)@ == old(out)@ + if index > 0 { ",".spec_bytes() } else { seq![] },
{
    if index > 0 {
        put(out, ",");
    } else {
        assert(final(out)@ =~= old(out)@ + seq![]);
    }
}

/// `s` with each backslash and double quote escaped by a backslash.
pub open spec fn escape_v(s: Seq<u8>) -> Seq<u8>
    decreases s.len(),
{
    if s.len() == 0 {
        seq![]
    } else {
        escape_v(s.drop_last()) + if s.last() == 92u8 || s.last() == 34u8 {
            seq![92u8, s.last()]
        } else {
            seq![s.last()]
        }
    }
}

/// The text with each backslash and double quote escaped.
pub fn escape(text: &str) -> (out: Vec<u8>)
    ensures
        out@ == escape_v(text.spec_bytes()),
{
    let bytes = text.as_bytes();
    let mut out: Vec<u8> = Vec::new();
    let mut i: usize = 0;
    assert(out@ =~= escape_v(bytes@.take(0)));
    while i < bytes.len()
        invariant
            i <= bytes@.len(),
            out@ == escape_v(bytes@.take(i as int)),
        decreases bytes@.len() - i,
    {
        let b = bytes[i];
        if b == 92u8 || b == 34u8 {
            out.push(92u8);
        }
        out.push(b);
        proof {
            assert(bytes@.take(i + 1).drop_last() =~= bytes@.take(i as int));
            assert(bytes@.take(i + 1).last() == b);
            assert(out@ =~= escape_v(bytes@.take(i + 1)));
        }
        i += 1;
    }
    assert(bytes@.take(i as int) =~= bytes@);
    out
}

/// The JSON line of a source: its path and its structure tree.
pub open spec fn draw_v(source: Source) -> Seq<u8> {
    "{\"path\":\"".spec_bytes() + escape_v(encode_utf8(source.path@)) + "\",\"tree\":".spec_bytes()
        + json_v(lift_v(spec_parse(source.path@, text_bytes(source.text)), 0)) + "}".spec_bytes()
}

/// The JSON line of a source.
pub fn draw(source: &Source) -> (out: Vec<u8>)
    requires
        text_bytes(source.text).len() < usize::MAX,
    ensures
        out@ == draw_v(*source),
{
    let node = structure(source);
    let mut out: Vec<u8> = Vec::new();
    put(&mut out, "{\"path\":\"");
    let escaped = escape(source.path.as_str());
    let mut i: usize = 0;
    let ghost head = out@;
    while i < escaped.len()
        invariant
            i <= escaped@.len(),
            out@ == head + escaped@.take(i as int),
        decreases escaped@.len() - i,
    {
        out.push(escaped[i]);
        i += 1;
        assert(out@ =~= head + escaped@.take(i as int));
    }
    assert(escaped@.take(i as int) =~= escaped@);
    put(&mut out, "\",\"tree\":");
    tree(&node, &mut out);
    put(&mut out, "}");
    assert(out@ =~= draw_v(*source));
    out
}

} // verus!
