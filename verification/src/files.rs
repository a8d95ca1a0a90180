use vstd::prelude::*;
use vstd::string::StringSliceAdditionalSpecFns;
use vstd::string::StrSliceExecFns;
use vstd::utf8::{encode_utf8, is_char_boundary};
use crate::text::{ends, ends_with, same};

verus! {

/// Whether a directory entry of this name is passed over: build output, version control and
/// tool state.
pub open spec fn skipped(name: Seq<char>) -> bool {
    name == "target"@ || name == ".git"@ || name == ".task"@ || name == ".runseal"@ || name == ".github"@
        || name == "node_modules"@ || name == ".local"@
}

/// Whether a directory entry of this name is passed over.
pub fn skip(name: &str) -> (res: bool)
    ensures
        res == skipped(name@),
{
    same(name, "target") || same(name, ".git") || same(name, ".task") || same(name, ".runseal") || same(name, ".github")
        || same(name, "node_modules") || same(name, ".local")
}

/// Whether a file is read: Rust, TypeScript or markdown.
pub open spec fn wanted_v(path: Seq<char>) -> bool {
    ends_with(path, ".rs"@) || ends_with(path, ".ts"@) || ends_with(path, ".md"@)
}

/// Whether a file is read.
pub fn wanted(path: &str) -> (res: bool)
    ensures
        res == wanted_v(path@),
{
    ends(path, ".rs") || ends(path, ".ts") || ends(path, ".md")
}

/// What `Path::strip_prefix` leaves of `path` once the components of `base` are stripped from
/// its front: nothing when `base` is not a prefix of it by components; else the rest, as text
/// when it has a text form.
pub uninterp spec fn stripped(path: Seq<char>, base: Seq<char>) -> Option<Option<Seq<char>>>;

/// The view of what `strip` returns.
pub open spec fn strip_view(res: Option<Option<String>>) -> Option<Option<Seq<char>>> {
    match res {
        Some(Some(rest)) => Some(Some(rest@)),
        Some(None) => Some(None),
        None => None,
    }
}

/// Calls `Path::strip_prefix` on `path` with `base`, and `Path::to_str` on what is left. Its
/// contract claims that the result depends on the two texts alone, named `stripped`; how path
/// components are compared is left to `std::path`.
#[verifier::external_body]
fn strip(path: &str, base: &str) -> (res: Option<Option<String>>)
    ensures
        strip_view(res) == stripped(path@, base@),
{
    match std::path::Path::new(path).strip_prefix(base) {
        Ok(rest) => Some(rest.to_str().map(str::to_owned)),
        Err(_) => None,
    }
}

/// `s` without its leading run of `./`.
pub open spec fn undotted(s: Seq<char>) -> Seq<char>
    decreases s.len(),
{
    if s.len() >= 2 && s[0] == '.' && s[1] == '/' {
        undotted(s.skip(2))
    } else {
        s
    }
}

/// The path of a file relative to the root it was found under: what is left once the root's
/// components are stripped (or the whole path when the rest has no text form), without a
/// leading run of `./`; the whole path when the root is not a prefix of it.
pub open spec fn relative_v(base: Seq<char>, path: Seq<char>) -> Seq<char> {
    match stripped(path, base) {
        Some(Some(rest)) => undotted(rest),
        Some(None) => undotted(path),
        None => path,
    }
}

/// The path of a file relative to the root it was found under.
pub fn relative(base: &str, path: &str) -> (res: String)
    ensures
        res@ == relative_v(base@, path@),
{
    match strip(path, base) {
        Some(Some(rest)) => undot(rest.as_str()),
        Some(None) => undot(path),
        None => path.to_owned(),
    }
}

proof fn lemma_dots(c: Seq<char>, k: int)
    requires
        0 <= k <= c.len(),
        forall|i: int| 0 <= i < k ==> c[i] == '.' || c[i] == '/',
    ensures
        is_char_boundary(encode_utf8(c), k),
        k <= encode_utf8(c).len(),
        encode_utf8(c).subrange(k, encode_utf8(c).len() as int) == encode_utf8(c.skip(k)),
    decreases k,
{
    vstd::utf8::encode_utf8_valid_utf8(c);
    if k == 0 {
        assert(c.skip(0) =~= c);
        assert(encode_utf8(c).subrange(0, encode_utf8(c).len() as int) =~= encode_utf8(c));
    } else {
        let bytes = encode_utf8(c);
        vstd::utf8::encode_utf8_first_scalar(c);
        assert(c[0] == '.' || c[0] == '/');
        assert(c[0] as u32 <= 0x7f);
        assert(vstd::utf8::encode_scalar(c[0] as u32).len() == 1);
        assert(vstd::utf8::pop_first_scalar(bytes) =~= encode_utf8(c.drop_first()));
        let d = c.drop_first();
        assert forall|i: int| 0 <= i < k - 1 implies d[i] == '.' || d[i] == '/' by {
            assert(d[i] == c[i + 1]);
        }
        lemma_dots(d, k - 1);
        assert(d.skip(k - 1) =~= c.skip(k));
        assert(bytes.subrange(k, bytes.len() as int) =~= encode_utf8(d).subrange(k - 1, encode_utf8(d).len() as int));
    }
}

/// The text without its leading run of `./`.
fn undot(s: &str) -> (res: String)
    ensures
        res@ == undotted(s@),
{
    let n = s.unicode_len();
    let mut k: usize = 0;
    assert(s@.skip(0) =~= s@);
    while n - k >= 2 && s.get_char(k) == '.' && s.get_char(k + 1) == '/'
        invariant
            n == s@.len(),
            k <= n,
            undotted(s@) == undotted(s@.skip(k as int)),
            forall|i: int| 0 <= i < k ==> s@[i] == '.' || s@[i] == '/',
        decreases n - k,
    {
        assert(s@.skip(k as int).skip(2) =~= s@.skip(k + 2));
        k += 2;
    }
    proof {
        let r = s@.skip(k as int);
        if r.len() >= 2 {
            assert(r[0] == s@[k as int] && r[1] == s@[k + 1]);
        }
        lemma_dots(s@, k as int);
    }
    let (_, rest) = s.split_at(k);
    proof {
        assert(rest.spec_bytes() == encode_utf8(s@.skip(k as int)));
        vstd::utf8::encode_utf8_decode_utf8(rest@);
        vstd::utf8::encode_utf8_decode_utf8(s@.skip(k as int));
    }
    rest.to_owned()
}

} // verus!
