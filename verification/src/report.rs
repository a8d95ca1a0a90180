use vstd::prelude::*;
use vstd::string::StringSliceAdditionalSpecFns;
use vstd::string::StrSliceExecFns;
use vstd::utf8::encode_utf8;
use crate::kernel::{Class, Finding, FindingV, findings_of};
use crate::text::ends;

verus! {

/// Appends the bytes of `s`.
pub fn put(out: &mut Vec<u8>, s: &str)
    ensures
        final(out)@ == old(out)@ + s.spec_bytes(),
{
    let bytes = s.as_bytes();
    let mut i: usize = 0;
    while i < bytes.len()
        invariant
            i <= bytes@.len(),
            out@ == old(out)@ + bytes@.take(i as int),
        decreases bytes@.len() - i,
    {
        out.push(bytes[i]);
        i += 1;
        assert(out@ =~= old(out)@ + bytes@.take(i as int));
    }
    assert(bytes@.take(bytes@.len() as int) =~= bytes@);
}

/// The decimal digits of `n`.
pub open spec fn decimal(n: nat) -> Seq<u8>
    decreases n,
{
    if n < 10 {
        seq![(48 + n) as u8]
    } else {
        decimal(n / 10).push((48 + n % 10) as u8)
    }
}

/// Appends the decimal digits of `n`.
pub fn digits(out: &mut Vec<u8>, n: usize)
    ensures
        final(out)@ == old(out)@ + decimal(n as nat),
    decreases n,
{
    if n < 10 {
        out.push(48u8 + n as u8);
        assert(final(out)@ =~= old(out)@ + decimal(n as nat));
    } else {
        digits(out, n / 10);
        out.push(48u8 + (n % 10) as u8);
        assert(final(out)@ =~= old(out)@ + decimal(n as nat));
    }
}

/// Whether `a` comes strictly before `b` in lexicographic order of characters (which is the
/// byte order of their UTF-8 encodings).
pub open spec fn lex_lt(a: Seq<char>, b: Seq<char>) -> bool
    decreases a.len(),
{
    if b.len() == 0 {
        false
    } else if a.len() == 0 {
        true
    } else if (a[0] as u32) < (b[0] as u32) {
        true
    } else if (a[0] as u32) > (b[0] as u32) {
        false
    } else {
        lex_lt(a.drop_first(), b.drop_first())
    }
}

/// Whether finding `a` may come before finding `b`: by path, then line, then column.
pub open spec fn not_after(a: FindingV, b: FindingV) -> bool {
    lex_lt(a.path, b.path) || (a.path == b.path && (a.line < b.line || (a.line == b.line && a.col <= b.col)))
}

/// Inserts `x` into the ordered `sorted` after every finding that does not come after it.
pub open spec fn insert_v(sorted: Seq<FindingV>, x: FindingV) -> Seq<FindingV>
    decreases sorted.len(),
{
    if sorted.len() == 0 {
        seq![x]
    } else if not_after(sorted.last(), x) {
        sorted.push(x)
    } else {
        insert_v(sorted.drop_last(), x).push(sorted.last())
    }
}

/// The findings in order of path, line and column; findings at the same place keep their order.
pub open spec fn ordered_v(fs: Seq<FindingV>) -> Seq<FindingV>
    decreases fs.len(),
{
    if fs.len() == 0 {
        seq![]
    } else {
        insert_v(ordered_v(fs.drop_last()), fs.last())
    }
}

/// Whether `a` comes strictly before `b`.
fn precedes(a: &str, b: &str) -> (res: bool)
    ensures
        res == lex_lt(a@, b@),
{
    let n = a.unicode_len();
    let m = b.unicode_len();
    let mut i: usize = 0;
    assert(a@.skip(0) =~= a@);
    assert(b@.skip(0) =~= b@);
    while i < n && i < m
        invariant
            n == a@.len(),
            m == b@.len(),
            i <= n,
            i <= m,
            lex_lt(a@, b@) == lex_lt(a@.skip(i as int), b@.skip(i as int)),
        decreases n - i,
    {
        let x = a.get_char(i);
        let y = b.get_char(i);
        assert(a@.skip(i as int).drop_first() =~= a@.skip(i + 1));
        assert(b@.skip(i as int).drop_first() =~= b@.skip(i + 1));
        if (x as u32) < (y as u32) {
            return true;
        }
        if (x as u32) > (y as u32) {
            return false;
        }
        i += 1;
    }
    i == n && i < m
}

/// Whether finding `a` may come before finding `b`.
fn order(a: &Finding, b: &Finding) -> (res: bool)
    ensures
        res == not_after(a@, b@),
{
    if precedes(a.path.as_str(), b.path.as_str()) {
        return true;
    }
    if !crate::text::same(a.path.as_str(), b.path.as_str()) {
        return false;
    }
    a.line < b.line || (a.line == b.line && a.col <= b.col)
}

/// The findings that the indices pick, in index order.
pub open spec fn picked(fs: Seq<FindingV>, idx: Seq<usize>) -> Seq<FindingV> {
    Seq::new(idx.len(), |i: int| fs[idx[i] as int])
}

proof fn lemma_insert_at(sorted: Seq<FindingV>, x: FindingV, p: int)
    requires
        0 <= p <= sorted.len(),
        forall|j: int| p <= j < sorted.len() ==> !not_after(#[trigger] sorted[j], x),
        p == 0 || not_after(sorted[p - 1], x),
    ensures
        insert_v(sorted, x) == sorted.take(p).push(x) + sorted.skip(p),
    decreases sorted.len() - p,
{
    if sorted.len() == 0 {
        assert(sorted.take(p).push(x) + sorted.skip(p) =~= seq![x]);
    } else if p == sorted.len() {
        assert(not_after(sorted.last(), x));
        assert(sorted.take(p).push(x) + sorted.skip(p) =~= sorted.push(x));
    } else {
        let init = sorted.drop_last();
        assert(!not_after(sorted[sorted.len() - 1], x));
        assert forall|j: int| p <= j < init.len() implies !not_after(#[trigger] init[j], x) by {
            assert(init[j] == sorted[j]);
        }
        if p > 0 {
            assert(init[p - 1] == sorted[p - 1]);
        }
        lemma_insert_at(init, x, p);
        assert(insert_v(sorted, x) == insert_v(init, x).push(sorted.last()));
        assert(init.take(p).push(x) + init.skip(p) + seq![sorted.last()] =~= sorted.take(p).push(x) + sorted.skip(p));
        assert((init.take(p).push(x) + init.skip(p)).push(sorted.last()) =~= sorted.take(p).push(x) + sorted.skip(p));
    }
}

/// The indices of the findings in order of path, line and column, stably.
fn sorted(findings: &[Finding]) -> (idx: Vec<usize>)
    ensures
        forall|i: int| 0 <= i < idx@.len() ==> #[trigger] idx@[i] < findings@.len(),
        picked(findings_of(findings@), idx@) == ordered_v(findings_of(findings@)),
{
    let ghost fs = findings_of(findings@);
    let mut idx: Vec<usize> = Vec::new();
    let mut k: usize = 0;
    assert(picked(fs, idx@) =~= ordered_v(fs.take(0)));
    while k < findings.len()
        invariant
            fs == findings_of(findings@),
            k <= findings@.len(),
            forall|i: int| 0 <= i < idx@.len() ==> #[trigger] idx@[i] < k,
            picked(fs, idx@) == ordered_v(fs.take(k as int)),
        decreases findings@.len() - k,
    {
        let ghost before = picked(fs, idx@);
        let mut p = idx.len();
        while p > 0 && !order(&findings[idx[p - 1]], &findings[k])
            invariant
                fs == findings_of(findings@),
                k < findings@.len(),
                p <= idx@.len(),
                forall|i: int| 0 <= i < idx@.len() ==> #[trigger] idx@[i] < k,
                before == picked(fs, idx@),
                forall|j: int| p <= j < before.len() ==> !not_after(#[trigger] before[j], fs[k as int]),
            decreases p,
        {
            assert(before[p - 1] == findings@[idx@[p - 1] as int]@);
            p -= 1;
        }
        proof {
            if p > 0 {
                assert(before[p - 1] == findings@[idx@[p - 1] as int]@);
            }
            lemma_insert_at(before, fs[k as int], p as int);
            assert(fs.take(k + 1).drop_last() =~= fs.take(k as int));
            assert(fs.take(k + 1).last() == fs[k as int]);
        }
        idx.insert(p, k);
        proof {
            assert(picked(fs, idx@) =~= before.take(p as int).push(fs[k as int]) + before.skip(p as int));
        }
        k += 1;
    }
    assert(fs.take(k as int) =~= fs);
    idx
}

/// The place of a finding: its path, with line and column when it has them.
pub open spec fn spot_v(f: FindingV) -> Seq<u8> {
    if f.line == 0 {
        encode_utf8(f.path)
    } else {
        encode_utf8(f.path) + ":".spec_bytes() + decimal(f.line as nat) + ":".spec_bytes() + decimal(f.col as nat)
    }
}

/// The label of a finding of `class`: its law for a fault.
pub open spec fn label_v(class: Class, f: FindingV) -> Seq<u8> {
    match class {
        Class::Blind => "blindspot".spec_bytes(),
        Class::Debt => "debt".spec_bytes(),
        Class::Fault => encode_utf8(f.law),
    }
}

/// The printed line of a finding.
pub open spec fn line_v(f: FindingV, class: Class) -> Seq<u8> {
    spot_v(f) + " ".spec_bytes() + label_v(class, f) + " ".spec_bytes() + encode_utf8(f.note)
}

/// The number of findings of `class`.
pub open spec fn tally(fs: Seq<FindingV>, class: Class) -> nat
    decreases fs.len(),
{
    if fs.len() == 0 {
        0
    } else {
        tally(fs.drop_last(), class) + if fs.last().class == class { 1nat } else { 0nat }
    }
}

/// The lines of the findings of `class`, in order, when they are listed.
pub open spec fn lines_v(fs: Seq<FindingV>, class: Class, listed: bool) -> Seq<Seq<u8>>
    decreases fs.len(),
{
    if fs.len() == 0 {
        seq![]
    } else {
        let rest = lines_v(fs.drop_last(), class, listed);
        if fs.last().class == class && listed {
            rest.push(line_v(fs.last(), class))
        } else {
            rest
        }
    }
}

/// The closing line: `clean`, or the counts.
pub open spec fn summary_v(faults: nat, blind: nat, debt: nat) -> Seq<u8> {
    if faults + blind + debt == 0 {
        "clean".spec_bytes()
    } else {
        decimal(faults) + " faults, ".spec_bytes() + decimal(blind) + " blindspots, ".spec_bytes() + decimal(debt)
            + " debt".spec_bytes()
    }
}

/// What a run prints for its findings, and whether it fails: the findings are ordered by place;
/// faults are printed, then blind spots, then (when listed) debt, then the summary. A run fails
/// on any fault, or on a blind spot when strict.
pub open spec fn report_v(fs: Seq<FindingV>, strict: bool, listed: bool) -> (Seq<Seq<u8>>, bool) {
    let ordered = ordered_v(fs);
    let faults = tally(ordered, Class::Fault);
    let blind = tally(ordered, Class::Blind);
    let debt = tally(ordered, Class::Debt);
    (
        lines_v(ordered, Class::Fault, true) + lines_v(ordered, Class::Blind, true) + lines_v(ordered, Class::Debt, listed)
            + seq![summary_v(faults, blind, debt)],
        faults > 0 || (strict && blind > 0),
    )
}

/// The view of each printed line.
pub open spec fn lines_of(ls: Seq<Vec<u8>>) -> Seq<Seq<u8>> {
    Seq::new(ls.len(), |i: int| ls[i]@)
}

pub proof fn lemma_tally_bound(fs: Seq<FindingV>)
    ensures
        tally(fs, Class::Fault) + tally(fs, Class::Blind) + tally(fs, Class::Debt) == fs.len(),
    decreases fs.len(),
{
    if fs.len() > 0 {
        lemma_tally_bound(fs.drop_last());
    }
}

pub proof fn lemma_ordered_len(fs: Seq<FindingV>)
    ensures
        ordered_v(fs).len() == fs.len(),
    decreases fs.len(),
{
    if fs.len() > 0 {
        lemma_ordered_len(fs.drop_last());
        lemma_insert_len(ordered_v(fs.drop_last()), fs.last());
    }
}

pub proof fn lemma_insert_len(sorted: Seq<FindingV>, x: FindingV)
    ensures
        insert_v(sorted, x).len() == sorted.len() + 1,
    decreases sorted.len(),
{
    if sorted.len() > 0 && !not_after(sorted.last(), x) {
        lemma_insert_len(sorted.drop_last(), x);
    }
}

/// The printed lines of a run over the findings, and whether the run fails.
pub fn report(findings: &[Finding], strict: bool, listed: bool) -> (res: (Vec<Vec<u8>>, bool))
    ensures
        (lines_of(res.0@), res.1) == report_v(findings_of(findings@), strict, listed),
{
    let ghost fs = findings_of(findings@);
    let idx = sorted(findings);
    let ghost ordered = picked(fs, idx@);
    let mut lines: Vec<Vec<u8>> = Vec::new();
    assert(lines_of(lines@) =~= Seq::<Seq<u8>>::empty());
    proof {
        lemma_ordered_len(fs);
    }
    let faults = emit(findings, &idx, Class::Fault, true, &mut lines);
    let blind = emit(findings, &idx, Class::Blind, true, &mut lines);
    let debt = emit(findings, &idx, Class::Debt, listed, &mut lines);
    proof {
        lemma_ordered_len(fs);
        lemma_tally_bound(ordered);
    }
    let n = findings.len();
    assert(faults + blind + debt == n);
    let ghost before = lines_of(lines@);
    lines.push(summary(faults, blind, debt));
    assert(lines_of(lines@) =~= before.push(summary_v(faults as nat, blind as nat, debt as nat)));
    (lines, faults > 0 || (strict && blind > 0))
}

/// Appends the lines of the findings of `class` (when listed) in the given order; returns how
/// many findings have that class.
fn emit(findings: &[Finding], idx: &Vec<usize>, class: Class, listed: bool, lines: &mut Vec<Vec<u8>>) -> (count: usize)
    requires
        forall|i: int| 0 <= i < idx@.len() ==> #[trigger] idx@[i] < findings@.len(),
        idx@.len() == findings@.len(),
    ensures
        count == tally(picked(findings_of(findings@), idx@), class),
        lines_of(final(lines)@) == lines_of(old(lines)@) + lines_v(picked(findings_of(findings@), idx@), class, listed),
{
    let ghost ordered = picked(findings_of(findings@), idx@);
    let mut count: usize = 0;
    let mut i: usize = 0;
    assert(lines_of(lines@) =~= lines_of(old(lines)@) + lines_v(ordered.take(0), class, listed));
    while i < idx.len()
        invariant
            forall|j: int| 0 <= j < idx@.len() ==> #[trigger] idx@[j] < findings@.len(),
            idx@.len() == findings@.len(),
            ordered == picked(findings_of(findings@), idx@),
            i <= idx@.len(),
            count <= i,
            count == tally(ordered.take(i as int), class),
            lines_of(lines@) == lines_of(old(lines)@) + lines_v(ordered.take(i as int), class, listed),
        decreases idx@.len() - i,
    {
        let finding = &findings[idx[i]];
        proof {
            assert(ordered.take(i + 1).drop_last() =~= ordered.take(i as int));
            assert(ordered.take(i + 1).last() == ordered[i as int]);
            assert(ordered[i as int] == finding@);
        }
        let ghost before = lines_of(lines@);
        count += line(finding, class, listed, lines);
        proof {
            assert(lines_of(lines@) =~= lines_of(old(lines)@) + lines_v(ordered.take(i + 1), class, listed));
        }
        i += 1;
    }
    assert(ordered.take(i as int) =~= ordered);
    count
}

/// Appends the line of one finding when it has `class` and is listed; returns one when it has
/// that class.
fn line(finding: &Finding, class: Class, listed: bool, lines: &mut Vec<Vec<u8>>) -> (n: usize)
    ensures
        n == if finding.class == class { 1usize } else { 0usize },
        lines_of(final(lines)@) == if finding.class == class && listed {
            lines_of(old(lines)@).push(line_v(finding@, class))
        } else {
            lines_of(old(lines)@)
        },
{
    if finding.class != class {
        return 0;
    }
    if listed {
        let mut out: Vec<u8> = Vec::new();
        spot(finding, &mut out);
        put(&mut out, " ");
        label(class, finding, &mut out);
        put(&mut out, " ");
        put(&mut out, finding.note.as_str());
        proof {
            assert(out@ =~= line_v(finding@, class));
        }
        let ghost before = lines_of(lines@);
        lines.push(out);
        assert(lines_of(lines@) =~= before.push(line_v(finding@, class)));
    }
    1
}

/// Appends the place of a finding.
fn spot(finding: &Finding, out: &mut Vec<u8>)
    ensures
        final(out)@ == old(out)@ + spot_v(finding@),
{
    if finding.line == 0 {
        put(out, finding.path.as_str());
        return;
    }
    put(out, finding.path.as_str());
    put(out, ":");
    digits(out, finding.line);
    put(out, ":");
    digits(out, finding.col);
    assert(final(out)@ =~= old(out)@ + spot_v(finding@));
}

/// Appends the label of a finding of `class`.
fn label(class: Class, finding: &Finding, out: &mut Vec<u8>)
    ensures
        final(out)@ == old(out)@ + label_v(class, finding@),
{
    match class {
        Class::Blind => put(out, "blindspot"),
        Class::Debt => put(out, "debt"),
        Class::Fault => put(out, finding.law.as_str()),
    }
}

/// The closing line.
fn summary(faults: usize, blind: usize, debt: usize) -> (out: Vec<u8>)
    requires
        faults + blind + debt <= usize::MAX,
    ensures
        out@ == summary_v(faults as nat, blind as nat, debt as nat),
{
    let mut out: Vec<u8> = Vec::new();
    if faults + blind + debt == 0 {
        put(&mut out, "clean");
        assert(out@ =~= summary_v(faults as nat, blind as nat, debt as nat));
        return out;
    }
    digits(&mut out, faults);
    put(&mut out, " faults, ");
    digits(&mut out, blind);
    put(&mut out, " blindspots, ");
    digits(&mut out, debt);
    put(&mut out, " debt");
    assert(out@ =~= summary_v(faults as nat, blind as nat, debt as nat));
    out
}

} // verus!
