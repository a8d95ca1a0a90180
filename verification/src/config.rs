use vstd::prelude::*;
use vstd::string::StrSliceExecFns;
use crate::text::listed;

verus! {

/// The configuration: the law file and the registered vocabulary.
pub struct Config {
    pub file: File,
    pub vocab: Vec<String>,
}

/// The law file, `negentropy.toml`.
pub struct File {
    pub limit: Limit,
    pub comment: Comment,
    pub word: Word,
    pub boundary: Vec<Boundary>,
}

/// The depth limits.
pub struct Limit {
    pub block: usize,
    pub path: usize,
}

/// The comment law.
pub struct Comment {
    pub allow: bool,
}

/// The single-word law.
pub struct Word {
    pub single: bool,
}

/// A boundary: the laws waived under some paths.
pub struct Boundary {
    pub paths: Vec<String>,
    pub allow: Vec<String>,
}

impl Default for Limit {
    fn default() -> (limit: Self)
        ensures
            limit.block == 3,
            limit.path == 3,
    {
        Self { block: 3, path: 3 }
    }
}

impl Default for Comment {
    fn default() -> (comment: Self)
        ensures
            !comment.allow,
    {
        Self { allow: false }
    }
}

impl Default for Word {
    fn default() -> (word: Self)
        ensures
            word.single,
    {
        Self { single: true }
    }
}

impl Default for Boundary {
    fn default() -> (edge: Self)
        ensures
            edge.paths@.len() == 0,
            edge.allow@.len() == 0,
    {
        Self { paths: Vec::new(), allow: Vec::new() }
    }
}

impl Default for File {
    fn default() -> (file: Self)
        ensures
            file.limit.block == 3,
            file.limit.path == 3,
            !file.comment.allow,
            file.word.single,
            file.boundary@.len() == 0,
    {
        Self { limit: Limit::default(), comment: Comment::default(), word: Word::default(), boundary: Vec::new() }
    }
}

/// `s` without the trailing run of `c`.
pub open spec fn trim_end(s: Seq<char>, c: char) -> Seq<char>
    decreases s.len(),
{
    if s.len() > 0 && s.last() == c {
        trim_end(s.drop_last(), c)
    } else {
        s
    }
}

/// The directory a glob names: the glob without trailing `*`, then without trailing `/`.
pub open spec fn glob_head(glob: Seq<char>) -> Seq<char> {
    trim_end(trim_end(glob, '*'), '/')
}

/// Whether `path` lies under the glob: its head is empty or a prefix of the path.
pub open spec fn under(glob: Seq<char>, path: Seq<char>) -> bool {
    let head = glob_head(glob);
    head.len() == 0 || (head.len() <= path.len() && path.subrange(0, head.len() as int) == head)
}

/// Whether the boundary waives `law` for `path`.
pub open spec fn covers_v(edge: Boundary, path: Seq<char>, law: Seq<char>) -> bool {
    (exists|i: int| 0 <= i < edge.allow@.len() && #[trigger] edge.allow@[i]@ == law)
        && (exists|j: int| 0 <= j < edge.paths@.len() && under(#[trigger] edge.paths@[j]@, path))
}

/// Whether some boundary of the configuration waives `law` for `path`.
pub open spec fn exempt_v(config: Config, path: Seq<char>, law: Seq<char>) -> bool {
    exists|k: int| 0 <= k < config.file.boundary@.len() && covers_v(#[trigger] config.file.boundary@[k], path, law)
}

impl Config {
    /// Whether a declared boundary waives `law` for `path`.
    pub fn exempt(&self, path: &str, law: &str) -> (res: bool)
        ensures
            res == exempt_v(*self, path@, law@),
    {
        let mut k: usize = 0;
        while k < self.file.boundary.len()
            invariant
                k <= self.file.boundary@.len(),
                forall|j: int| 0 <= j < k ==> !covers_v(#[trigger] self.file.boundary@[j], path@, law@),
            decreases self.file.boundary@.len() - k,
        {
            if covers(&self.file.boundary[k], path, law) {
                return true;
            }
            k += 1;
        }
        false
    }
}

/// Whether the boundary waives `law` for `path`.
fn covers(edge: &Boundary, path: &str, law: &str) -> (res: bool)
    ensures
        res == covers_v(*edge, path@, law@),
{
    if !listed(&edge.allow, law) {
        return false;
    }
    let mut j: usize = 0;
    while j < edge.paths.len()
        invariant
            j <= edge.paths@.len(),
            exists|i: int| 0 <= i < edge.allow@.len() && #[trigger] edge.allow@[i]@ == law@,
            forall|m: int| 0 <= m < j ==> !under(#[trigger] edge.paths@[m]@, path@),
        decreases edge.paths@.len() - j,
    {
        if prefix(edge.paths[j].as_str(), path) {
            return true;
        }
        j += 1;
    }
    false
}

/// The length of `s@.take(n)` once the trailing run of `c` is removed.
fn trimmed(s: &str, n: usize, c: char) -> (k: usize)
    requires
        n <= s@.len(),
    ensures
        k <= n,
        s@.take(k as int) == trim_end(s@.take(n as int), c),
{
    let mut k = n;
    while k > 0 && s.get_char(k - 1) == c
        invariant
            k <= n <= s@.len(),
            trim_end(s@.take(k as int), c) == trim_end(s@.take(n as int), c),
        decreases k,
    {
        assert(s@.take(k as int).drop_last() =~= s@.take(k - 1));
        k -= 1;
    }
    k
}

/// Whether `path` lies under the glob.
fn prefix(glob: &str, path: &str) -> (res: bool)
    ensures
        res == under(glob@, path@),
{
    let n = glob.unicode_len();
    let star = trimmed(glob, n, '*');
    let head = trimmed(glob, star, '/');
    proof {
        assert(glob@.take(n as int) =~= glob@);
        assert(glob@.take(star as int).take(head as int) =~= glob@.take(head as int));
    }
    let ghost h = glob@.take(head as int);
    assert(h == glob_head(glob@));
    if head == 0 {
        return true;
    }
    let m = path.unicode_len();
    if head > m {
        return false;
    }
    let mut i: usize = 0;
    while i < head
        invariant
            head <= m,
            m == path@.len(),
            head <= glob@.len(),
            h == glob@.take(head as int),
            h == glob_head(glob@),
            head > 0,
            i <= head,
            forall|j: int| 0 <= j < i ==> path@[j] == h[j],
        decreases head - i,
    {
        if path.get_char(i) != glob.get_char(i) {
            assert(path@.subrange(0, head as int)[i as int] != h[i as int]);
            return false;
        }
        i += 1;
    }
    assert(path@.subrange(0, head as int) =~= h);
    true
}

/// Whether a character is white space, as `char::is_whitespace` reports it: the Unicode
/// `White_Space` property, which holds of exactly these 25 code points.
pub open spec fn white(c: char) -> bool {
    let u = c as u32;
    ||| 0x09 <= u <= 0x0d
    ||| u == 0x20
    ||| u == 0x85
    ||| u == 0xa0
    ||| u == 0x1680
    ||| 0x2000 <= u <= 0x200a
    ||| u == 0x2028
    ||| u == 0x2029
    ||| u == 0x202f
    ||| u == 0x205f
    ||| u == 0x3000
}

/// Whether a character is white space.
fn space(c: char) -> (res: bool)
    ensures
        res == white(c),
{
    let u = c as u32;
    (0x09 <= u && u <= 0x0d) || u == 0x20 || u == 0x85 || u == 0xa0 || u == 0x1680 || (0x2000 <= u && u <= 0x200a)
        || u == 0x2028 || u == 0x2029 || u == 0x202f || u == 0x205f || u == 0x3000
}

/// Whether a text is empty once trimmed: every character is white space.
pub open spec fn blank_v(s: Seq<char>) -> bool {
    forall|i: int| 0 <= i < s.len() ==> white(#[trigger] s[i])
}

/// The registered compounds: the names of the entries that give a reason, in order.
pub open spec fn kept(entries: Seq<(String, String)>) -> Seq<Seq<char>>
    decreases entries.len(),
{
    if entries.len() == 0 {
        seq![]
    } else {
        let rest = kept(entries.drop_last());
        if blank_v(entries.last().1@) {
            rest
        } else {
            rest.push(entries.last().0@)
        }
    }
}

/// The view of each string.
pub open spec fn strings_of(list: Seq<String>) -> Seq<Seq<char>> {
    Seq::new(list.len(), |i: int| list[i]@)
}

/// Builds the configuration from the law file and the vocabulary's compound entries (name and
/// reason): a compound is registered only with a reason.
pub fn load(file: File, compound: Vec<(String, String)>) -> (config: Config)
    ensures
        config.file == file,
        strings_of(config.vocab@) == kept(compound@),
{
    Config { file, vocab: vocab(compound) }
}

/// The names of the entries whose reason is not blank, in order.
fn vocab(compound: Vec<(String, String)>) -> (names: Vec<String>)
    ensures
        strings_of(names@) == kept(compound@),
{
    let mut names: Vec<String> = Vec::new();
    let mut i: usize = 0;
    assert(strings_of(names@) =~= kept(compound@.take(0)));
    while i < compound.len()
        invariant
            i <= compound@.len(),
            strings_of(names@) == kept(compound@.take(i as int)),
        decreases compound@.len() - i,
    {
        assert(compound@.take(i + 1).drop_last() =~= compound@.take(i as int));
        assert(compound@.take(i + 1).last() == compound@[i as int]);
        if !blank(compound[i].1.as_str()) {
            let ghost before = names@;
            names.push(compound[i].0.clone());
            assert(strings_of(names@) =~= strings_of(before).push(compound@[i as int].0@));
        }
        i += 1;
    }
    assert(compound@.take(i as int) =~= compound@);
    names
}

/// Whether every character of the text is white space.
fn blank(s: &str) -> (res: bool)
    ensures
        res == blank_v(s@),
{
    let n = s.unicode_len();
    let mut i: usize = 0;
    while i < n
        invariant
            n == s@.len(),
            i <= n,
            forall|j: int| 0 <= j < i ==> white(#[trigger] s@[j]),
        decreases n - i,
    {
        if !space(s.get_char(i)) {
            return false;
        }
        i += 1;
    }
    true
}

} // verus!
