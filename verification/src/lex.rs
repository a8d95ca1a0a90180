use vstd::prelude::*;
use crate::peg::{Rule, RuleV, rules_view, spec_match};
use crate::text::same;

verus! {

/// A lexed token: the rule that produced it and its byte range.
pub struct Token {
    pub name: String,
    pub kind: Slot,
    pub start: usize,
    pub end: usize,
}

/// Whether a token is kept for the parser or set aside as a comment.
pub enum Slot {
    Emit,
    Comment,
}

/// The mathematical form of a token.
pub struct TokenV {
    pub name: Seq<char>,
    pub kind: Slot,
    pub start: usize,
    pub end: usize,
}

impl View for Token {
    type V = TokenV;

    open spec fn view(&self) -> TokenV {
        TokenV { name: self.name@, kind: self.kind, start: self.start, end: self.end }
    }
}

/// The view of each token.
pub open spec fn toks_view(ts: Seq<Token>) -> Seq<TokenV> {
    Seq::new(ts.len(), |i: int| ts[i]@)
}

/// Whether the rule carries the tag `name`.
pub open spec fn has_tag(rule: RuleV, name: Seq<char>) -> bool {
    rule.tag == Some(name)
}

/// The slot of the tokens a rule produces.
pub open spec fn slot_of(rule: RuleV) -> Slot {
    if has_tag(rule, "comment"@) {
        Slot::Comment
    } else {
        Slot::Emit
    }
}

/// The token a rule produces over `[at, end)`.
pub open spec fn token_of(rule: RuleV, at: int, end: int) -> TokenV {
    TokenV { name: rule.name, kind: slot_of(rule), start: at as usize, end: end as usize }
}

/// The tokens emitted for a match of `rule` over `[at, end)`: none for skipped rules.
pub open spec fn emitted(rule: RuleV, at: int, end: int) -> Seq<TokenV> {
    if has_tag(rule, "skip"@) {
        seq![]
    } else {
        seq![token_of(rule, at, end)]
    }
}

/// Keeps the best candidate so far: a match that makes progress replaces it only if it is
/// strictly longer.
pub open spec fn spec_better(best: Option<(int, int)>, i: int, got: Option<int>, at: int) -> Option<(int, int)> {
    match got {
        Some(end) => {
            if end > at {
                match best {
                    Some((_, prior)) => if prior >= end { best } else { Some((i, end)) },
                    None => Some((i, end)),
                }
            } else {
                best
            }
        },
        None => best,
    }
}

/// The index and end of the longest match at `at` among the first `n` rules, the earliest
/// rule winning ties.
pub open spec fn spec_longest(rules: Seq<RuleV>, s: Seq<u8>, at: int, n: nat) -> Option<(int, int)>
    decreases n,
{
    if n == 0 {
        None
    } else {
        spec_better(
            spec_longest(rules, s, at, (n - 1) as nat),
            n - 1,
            spec_match(rules[n - 1].pat, s, at),
            at,
        )
    }
}

/// The tokens of `s` from byte `at` on: at each position the longest match is taken, and
/// a byte that no rule matches is passed over.
pub open spec fn spec_lex(rules: Seq<RuleV>, s: Seq<u8>, at: int) -> Seq<TokenV>
    decreases s.len() - at,
{
    if at < 0 || at >= s.len() {
        seq![]
    } else {
        match spec_longest(rules, s, at, rules.len()) {
            Some((i, end)) => {
                if at < end <= s.len() {
                    emitted(rules[i], at, end) + spec_lex(rules, s, end)
                } else {
                    seq![]
                }
            },
            None => spec_lex(rules, s, at + 1),
        }
    }
}

/// Splits `bytes` into tokens with the lexer rules.
pub fn lex(rules: &[Rule], bytes: &[u8]) -> (tokens: Vec<Token>)
    ensures
        toks_view(tokens@) == spec_lex(rules_view(rules@), bytes@, 0),
{
    let mut tokens = Vec::new();
    let mut at: usize = 0;
    while at < bytes.len()
        invariant
            at <= bytes@.len(),
            toks_view(tokens@) + spec_lex(rules_view(rules@), bytes@, at as int) == spec_lex(rules_view(rules@), bytes@, 0),
        decreases bytes@.len() - at,
    {
        at = once(rules, bytes, at, &mut tokens);
    }
    assert(toks_view(tokens@) + spec_lex(rules_view(rules@), bytes@, at as int) =~= toks_view(tokens@));
    tokens
}

/// Takes one step of the lexer at `at` and returns where the next step starts.
fn once(rules: &[Rule], bytes: &[u8], at: usize, tokens: &mut Vec<Token>) -> (next: usize)
    requires
        at < bytes.len(),
    ensures
        at < next <= bytes@.len(),
        toks_view(final(tokens)@) + spec_lex(rules_view(rules@), bytes@, next as int) == toks_view(old(tokens)@) + spec_lex(rules_view(rules@), bytes@, at as int),
{
    match longest(rules, bytes, at) {
        Some((i, end)) => {
            let next = step(&rules[i], at, end, tokens);
            assert(toks_view(old(tokens)@) + spec_lex(rules_view(rules@), bytes@, at as int) =~= toks_view(final(tokens)@) + spec_lex(rules_view(rules@), bytes@, next as int));
            next
        },
        None => at + 1,
    }
}

/// The longest match at `at` over all rules.
fn longest(rules: &[Rule], bytes: &[u8], at: usize) -> (best: Option<(usize, usize)>)
    requires
        at < bytes@.len(),
    ensures
        best matches Some((i, end)) ==> spec_longest(rules_view(rules@), bytes@, at as int, rules_view(rules@).len()) == Some((i as int, end as int))
            && i < rules_view(rules@).len() && at < end <= bytes@.len(),
        best is None ==> spec_longest(rules_view(rules@), bytes@, at as int, rules_view(rules@).len()) is None,
{
    let mut best: Option<(usize, usize)> = None;
    let mut i: usize = 0;
    while i < rules.len()
        invariant
            at < bytes@.len(),
            i <= rules_view(rules@).len(),
            best matches Some((k, end)) ==> spec_longest(rules_view(rules@), bytes@, at as int, i as nat) == Some((k as int, end as int))
                && k < i && at < end <= bytes@.len(),
            best is None ==> spec_longest(rules_view(rules@), bytes@, at as int, i as nat) is None,
        decreases rules_view(rules@).len() - i,
    {
        best = better(best, i, crate::peg::matches(&rules[i].pat, bytes, at), at);
        i += 1;
    }
    best
}

/// Keeps `best` unless `got` makes progress and is strictly longer.
fn better(best: Option<(usize, usize)>, i: usize, got: Option<usize>, at: usize) -> (res: Option<(usize, usize)>)
    ensures
        ({
            let b = match best { Some((k, e)) => Some((k as int, e as int)), None => None };
            let g = match got { Some(e) => Some(e as int), None => None };
            let r = match res { Some((k, e)) => Some((k as int, e as int)), None => None };
            r == spec_better(b, i as int, g, at as int)
        }),
        res == best || (res == Some((i, got->0)) && got->0 > at),
{
    let end = match got {
        Some(end) => {
            if end > at {
                end
            } else {
                return best;
            }
        },
        None => return best,
    };
    match best {
        Some((_, prior)) => if prior >= end { best } else { Some((i, end)) },
        None => Some((i, end)),
    }
}

/// Records the token of a match unless its rule is skipped.
fn step(rule: &Rule, at: usize, end: usize, tokens: &mut Vec<Token>) -> (next: usize)
    ensures
        next == end,
        toks_view(final(tokens)@) == toks_view(old(tokens)@) + emitted(rule@, at as int, end as int),
{
    if !tagged(rule, "skip") {
        tokens.push(make(rule, at, end));
    }
    assert(toks_view(final(tokens)@) =~= toks_view(old(tokens)@) + emitted(rule@, at as int, end as int));
    end
}

/// The token of a match.
fn make(rule: &Rule, at: usize, end: usize) -> (token: Token)
    ensures
        token@ == token_of(rule@, at as int, end as int),
{
    Token { name: rule.name.clone(), kind: slot(rule), start: at, end }
}

/// The slot of a rule's tokens.
fn slot(rule: &Rule) -> (res: Slot)
    ensures
        res == slot_of(rule@),
{
    if tagged(rule, "comment") {
        Slot::Comment
    } else {
        Slot::Emit
    }
}

/// Whether the rule carries the tag `name`.
pub fn tagged(rule: &Rule, name: &str) -> (res: bool)
    ensures
        res == has_tag(rule@, name@),
{
    match &rule.tag {
        Some(tag) => same(tag.as_str(), name),
        None => false,
    }
}

} // verus!
