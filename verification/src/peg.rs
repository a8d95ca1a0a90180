use vstd::prelude::*;

verus! {

/// How often a repeated pattern may match.
pub enum Quant {
    Opt,
    Star,
    Plus,
}

/// A parsing expression, read over bytes by the lexer and over tokens by the parser.
pub enum Pat {
    Lit(Vec<u8>),
    Name(String),
    Any,
    Cat(Vec<Pat>),
    Alt(Vec<Pat>),
    Rep(Box<Pat>, Quant),
    Not(Box<Pat>),
    Class(Vec<(u8, u8)>, bool),
}

/// A named rule of a grammar. Rules whose name starts with an upper-case letter
/// read bytes (lexer rules); the others read tokens (parser rules).
pub struct Rule {
    pub name: String,
    pub tag: Option<String>,
    pub pat: Pat,
}

/// The mathematical form of a pattern.
pub enum PatV {
    Lit(Seq<u8>),
    Name(Seq<char>),
    Any,
    Cat(Seq<PatV>),
    Alt(Seq<PatV>),
    Rep(Box<PatV>, Quant),
    Not(Box<PatV>),
    Class(Seq<(u8, u8)>, bool),
}

/// The mathematical form of a rule.
pub struct RuleV {
    pub name: Seq<char>,
    pub tag: Option<Seq<char>>,
    pub pat: PatV,
}

pub open spec fn pat_view(p: Pat) -> PatV
    decreases p,
{
    match p {
        Pat::Lit(w) => PatV::Lit(w@),
        Pat::Name(n) => PatV::Name(n@),
        Pat::Any => PatV::Any,
        Pat::Cat(ps) => PatV::Cat(
            Seq::new(ps@.len(), |i: int| if 0 <= i < ps@.len() { pat_view(ps@[i]) } else { PatV::Any }),
        ),
        Pat::Alt(ps) => PatV::Alt(
            Seq::new(ps@.len(), |i: int| if 0 <= i < ps@.len() { pat_view(ps@[i]) } else { PatV::Any }),
        ),
        Pat::Rep(inner, quant) => PatV::Rep(Box::new(pat_view(*inner)), quant),
        Pat::Not(inner) => PatV::Not(Box::new(pat_view(*inner))),
        Pat::Class(ranges, negated) => PatV::Class(ranges@, negated),
    }
}

/// The view of each pattern.
pub open spec fn pats_view(ps: Seq<Pat>) -> Seq<PatV> {
    Seq::new(ps.len(), |i: int| pat_view(ps[i]))
}

/// The view of a sequence pattern's parts is the view of each part.
pub proof fn lemma_pat_view(p: Pat)
    ensures
        p matches Pat::Cat(ps) ==> pat_view(p) == PatV::Cat(pats_view(ps@)),
        p matches Pat::Alt(ps) ==> pat_view(p) == PatV::Alt(pats_view(ps@)),
{
    match p {
        Pat::Cat(ps) => {
            assert(pat_view(p)->Cat_0 =~= pats_view(ps@));
        },
        Pat::Alt(ps) => {
            assert(pat_view(p)->Alt_0 =~= pats_view(ps@));
        },
        _ => {},
    }
}

impl View for Pat {
    type V = PatV;

    open spec fn view(&self) -> PatV {
        pat_view(*self)
    }
}

impl View for Rule {
    type V = RuleV;

    open spec fn view(&self) -> RuleV {
        RuleV {
            name: self.name@,
            tag: match self.tag {
                Some(t) => Some(t@),
                None => None,
            },
            pat: self.pat@,
        }
    }
}

/// The view of each rule.
pub open spec fn rules_view(rs: Seq<Rule>) -> Seq<RuleV> {
    Seq::new(rs.len(), |i: int| rs[i]@)
}

/// Whether a byte falls in one of the inclusive ranges.
pub open spec fn in_class(ranges: Seq<(u8, u8)>, b: u8) -> bool {
    exists|i: int| 0 <= i < ranges.len() && ranges[i].0 <= b && b <= ranges[i].1
}

/// Where a match of `pat` starting at byte `at` of `s` ends, if it matches.
pub open spec fn spec_match(pat: PatV, s: Seq<u8>, at: int) -> Option<int>
    decreases pat, 0int,
{
    match pat {
        PatV::Lit(want) => {
            if 0 <= at && at + want.len() <= s.len() && s.subrange(at, at + want.len()) == want {
                Some(at + want.len())
            } else {
                None
            }
        },
        PatV::Name(_) => None,
        PatV::Any => if 0 <= at < s.len() { Some(at + 1) } else { None },
        PatV::Cat(parts) => spec_seq(parts, s, at),
        PatV::Alt(parts) => spec_alt(parts, s, at),
        PatV::Rep(inner, quant) => match quant {
            Quant::Opt => match spec_match(*inner, s, at) {
                Some(n) => Some(n),
                None => Some(at),
            },
            Quant::Star => Some(spec_star(*inner, s, at)),
            Quant::Plus => {
                let end = spec_star(*inner, s, at);
                if end > at { Some(end) } else { None }
            },
        },
        PatV::Not(inner) => if spec_match(*inner, s, at) is Some { None } else { Some(at) },
        PatV::Class(ranges, negated) => {
            if 0 <= at < s.len() && in_class(ranges, s[at]) != negated {
                Some(at + 1)
            } else {
                None
            }
        },
    }
}

pub open spec fn spec_seq(parts: Seq<PatV>, s: Seq<u8>, at: int) -> Option<int>
    decreases parts, 0int,
{
    if parts.len() == 0 {
        Some(at)
    } else {
        match spec_match(parts[0], s, at) {
            Some(next) => spec_seq(parts.drop_first(), s, next),
            None => None,
        }
    }
}

pub open spec fn spec_alt(parts: Seq<PatV>, s: Seq<u8>, at: int) -> Option<int>
    decreases parts, 0int,
{
    if parts.len() == 0 {
        None
    } else {
        match spec_match(parts[0], s, at) {
            Some(next) => Some(next),
            None => spec_alt(parts.drop_first(), s, at),
        }
    }
}

pub open spec fn spec_star(inner: PatV, s: Seq<u8>, at: int) -> int
    decreases inner, s.len() - at + 1,
{
    if 0 <= at <= s.len() {
        match spec_match(inner, s, at) {
            Some(next) => if at < next <= s.len() { spec_star(inner, s, next) } else { at },
            None => at,
        }
    } else {
        at
    }
}


/// A match starting within the text ends no earlier than it starts and no later than the end.
pub proof fn lemma_match_bounds(pat: PatV, s: Seq<u8>, at: int)
    requires
        0 <= at <= s.len(),
    ensures
        spec_match(pat, s, at) matches Some(e) ==> at <= e <= s.len(),
    decreases pat, 0int,
{
    match pat {
        PatV::Cat(parts) => lemma_seq_bounds(parts, s, at),
        PatV::Alt(parts) => lemma_alt_bounds(parts, s, at),
        PatV::Rep(inner, quant) => {
            lemma_match_bounds(*inner, s, at);
            lemma_star_bounds(*inner, s, at);
        },
        PatV::Not(inner) => {},
        _ => {},
    }
}

pub proof fn lemma_seq_bounds(parts: Seq<PatV>, s: Seq<u8>, at: int)
    requires
        0 <= at <= s.len(),
    ensures
        spec_seq(parts, s, at) matches Some(e) ==> at <= e <= s.len(),
    decreases parts, 0int,
{
    if parts.len() > 0 {
        lemma_match_bounds(parts[0], s, at);
        if let Some(next) = spec_match(parts[0], s, at) {
            lemma_seq_bounds(parts.drop_first(), s, next);
        }
    }
}

pub proof fn lemma_alt_bounds(parts: Seq<PatV>, s: Seq<u8>, at: int)
    requires
        0 <= at <= s.len(),
    ensures
        spec_alt(parts, s, at) matches Some(e) ==> at <= e <= s.len(),
    decreases parts, 0int,
{
    if parts.len() > 0 {
        lemma_match_bounds(parts[0], s, at);
        lemma_alt_bounds(parts.drop_first(), s, at);
    }
}

pub proof fn lemma_star_bounds(inner: PatV, s: Seq<u8>, at: int)
    requires
        0 <= at <= s.len(),
    ensures
        at <= spec_star(inner, s, at) <= s.len(),
    decreases inner, s.len() - at + 1,
{
    lemma_match_bounds(inner, s, at);
    if let Some(next) = spec_match(inner, s, at) {
        if at < next <= s.len() {
            lemma_star_bounds(inner, s, next);
        }
    }
}

/// A position result as an integer, for stating contracts.
pub open spec fn at_int(r: Option<usize>) -> Option<int> {
    match r {
        Some(n) => Some(n as int),
        None => None,
    }
}

/// Whether the byte at `at` lies in the ranges.
fn within(ranges: &Vec<(u8, u8)>, b: u8) -> (res: bool)
    ensures
        res == in_class(ranges@, b),
{
    let mut i: usize = 0;
    while i < ranges.len()
        invariant
            i <= ranges@.len(),
            forall|j: int| 0 <= j < i ==> !(ranges@[j].0 <= b && b <= ranges@[j].1),
        decreases ranges@.len() - i,
    {
        if ranges[i].0 <= b && b <= ranges[i].1 {
            return true;
        }
        i += 1;
    }
    false
}

/// Matches `pat` against `bytes` from `at`; returns where the match ends.
pub fn matches(pat: &Pat, bytes: &[u8], at: usize) -> (res: Option<usize>)
    requires
        at <= bytes@.len(),
    ensures
        at_int(res) == spec_match(pat@, bytes@, at as int),
        res matches Some(n) ==> at <= n <= bytes@.len(),
    decreases pat, 0int,
{
    proof {
        lemma_pat_view(*pat);
    }
    match pat {
        Pat::Lit(want) => word(want, bytes, at),
        Pat::Name(_) => None,
        Pat::Any => if at < bytes.len() { Some(at + 1) } else { None },
        Pat::Cat(parts) => chain(parts, bytes, at),
        Pat::Alt(parts) => first(parts, bytes, at),
        Pat::Rep(inner, quant) => match quant {
            Quant::Opt => match matches(inner, bytes, at) {
                Some(n) => Some(n),
                None => Some(at),
            },
            Quant::Star => Some(many(inner, bytes, at)),
            Quant::Plus => {
                let end = many(inner, bytes, at);
                if end > at { Some(end) } else { None }
            },
        },
        Pat::Not(inner) => match matches(inner, bytes, at) {
            Some(_) => None,
            None => Some(at),
        },
        Pat::Class(ranges, negated) => {
            if at < bytes.len() && within(ranges, bytes[at]) != *negated {
                Some(at + 1)
            } else {
                None
            }
        },
    }
}

/// Matches the literal bytes `want` at `at`.
fn word(want: &Vec<u8>, bytes: &[u8], at: usize) -> (res: Option<usize>)
    requires
        at <= bytes@.len(),
    ensures
        at_int(res) == spec_match(PatV::Lit(want@), bytes@, at as int),
        res matches Some(n) ==> at <= n <= bytes@.len(),
{
    if want.len() > bytes.len() - at {
        return None;
    }
    let mut i: usize = 0;
    while i < want.len()
        invariant
            at + want@.len() <= bytes@.len(),
            bytes@.len() == bytes.len(),
            i <= want@.len(),
            forall|j: int| 0 <= j < i ==> bytes@[at + j] == want@[j],
        decreases want@.len() - i,
    {
        if bytes[at + i] != want[i] {
            assert(bytes@.subrange(at as int, at + want@.len())[i as int] != want@[i as int]);
            return None;
        }
        i += 1;
    }
    assert(bytes@.subrange(at as int, at + want@.len()) =~= want@);
    Some(at + want.len())
}

/// Matches each part in turn.
fn chain(parts: &Vec<Pat>, bytes: &[u8], at: usize) -> (res: Option<usize>)
    requires
        at <= bytes@.len(),
    ensures
        at_int(res) == spec_seq(pats_view(parts@), bytes@, at as int),
        res matches Some(n) ==> at <= n <= bytes@.len(),
    decreases parts, 0int,
{
    let mut pos = at;
    let mut i: usize = 0;
    assert(pats_view(parts@).skip(0) =~= pats_view(parts@));
    while i < parts.len()
        invariant
            at <= pos <= bytes@.len(),
            i <= parts@.len(),
            spec_seq(pats_view(parts@), bytes@, at as int) == spec_seq(pats_view(parts@).skip(i as int), bytes@, pos as int),
        decreases parts@.len() - i,
    {
        assert(pats_view(parts@).skip(i as int).drop_first() =~= pats_view(parts@).skip(i + 1));
        match matches(&parts[i], bytes, pos) {
            Some(next) => {
                pos = next;
            },
            None => {
                return None;
            },
        }
        i += 1;
    }
    Some(pos)
}

/// Matches the first part that matches.
fn first(parts: &Vec<Pat>, bytes: &[u8], at: usize) -> (res: Option<usize>)
    requires
        at <= bytes@.len(),
    ensures
        at_int(res) == spec_alt(pats_view(parts@), bytes@, at as int),
        res matches Some(n) ==> at <= n <= bytes@.len(),
    decreases parts, 0int,
{
    let mut i: usize = 0;
    assert(pats_view(parts@).skip(0) =~= pats_view(parts@));
    while i < parts.len()
        invariant
            at <= bytes@.len(),
            i <= parts@.len(),
            spec_alt(pats_view(parts@), bytes@, at as int) == spec_alt(pats_view(parts@).skip(i as int), bytes@, at as int),
        decreases parts@.len() - i,
    {
        assert(pats_view(parts@).skip(i as int).drop_first() =~= pats_view(parts@).skip(i + 1));
        if let Some(next) = matches(&parts[i], bytes, at) {
            return Some(next);
        }
        i += 1;
    }
    None
}

/// Matches `inner` as often as it makes progress.
fn many(inner: &Pat, bytes: &[u8], at: usize) -> (end: usize)
    requires
        at <= bytes@.len(),
    ensures
        end as int == spec_star(inner@, bytes@, at as int),
        at <= end <= bytes@.len(),
    decreases inner, bytes@.len() - at + 1,
{
    let mut pos = at;
    loop
        invariant
            at <= pos <= bytes@.len(),
            spec_star(inner@, bytes@, at as int) == spec_star(inner@, bytes@, pos as int),
        decreases bytes@.len() - pos,
    {
        match matches(inner, bytes, pos) {
            Some(next) => {
                if next == pos {
                    return pos;
                }
                pos = next;
            },
            None => {
                return pos;
            },
        }
    }
}

} // verus!
