//! Navigation rules of the site configuration, over paths held as text.
use vstd::prelude::*;
use crate::text::{has_prefix, push_char, push_str, str_eq};

verus! {

/// What a directory entry of the navigation includes.
#[derive(Debug, PartialEq)]
pub enum DirIncludeRule {
    /// Every document in the directory.
    WildCard,
    /// The listed entries, in order.
    Explicit(Vec<NavRule>),
}

/// One entry of the navigation: a file, or a directory with what it includes.
#[derive(Debug, PartialEq)]
pub enum NavRule {
    File(String),
    Dir(String, Option<DirIncludeRule>),
}

/// The mode a site is built in.
#[derive(Debug, Clone, Copy, PartialEq, Eq, Structural)]
pub enum BuildMode {
    Dev,
    Release,
}

impl BuildMode {
    pub open spec fn spec_name(self) -> Seq<char> {
        match self {
            BuildMode::Dev => "dev"@,
            BuildMode::Release => "release"@,
        }
    }

    /// The mode's name: `dev` or `release`.
    pub fn name(&self) -> (r: &'static str)
        ensures
            r@ == self.spec_name(),
    {
        match self {
            BuildMode::Dev => "dev",
            BuildMode::Release => "release",
        }
    }
}

/// `p` appended to `base` as a path: an absolute `p` replaces `base`.
pub open spec fn path_join(base: Seq<char>, p: Seq<char>) -> Seq<char> {
    if has_prefix(p, "/"@) || base.len() == 0 {
        p
    } else if base.last() == '/' {
        base + p
    } else {
        base + "/"@ + p
    }
}

/// The components of a path after `cur` was begun: the segments between
/// slashes, without empty ones and without `.` except as the first segment.
pub open spec fn components_from(s: Seq<char>, cur: Seq<char>, first: bool) -> Seq<Seq<char>>
    decreases s.len(),
{
    let done = if cur.len() > 0 && (cur != seq!['.'] || first) {
        seq![cur]
    } else {
        seq![]
    };
    if s.len() == 0 {
        done
    } else if s[0] == '/' {
        done + components_from(s.drop_first(), seq![], false)
    } else {
        components_from(s.drop_first(), cur.push(s[0]), first)
    }
}

/// Two paths are the same path when both or neither are absolute and their
/// components agree.
pub open spec fn same_path(a: Seq<char>, b: Seq<char>) -> bool {
    has_prefix(a, "/"@) == has_prefix(b, "/"@) && components_from(a, seq![], true)
        == components_from(b, seq![], true)
}

pub open spec fn strings_of(v: Seq<String>) -> Seq<Seq<char>> {
    v.map_values(|s: String| s@)
}

/// The components of `s`.
fn components(s: &str) -> (r: Vec<String>)
    ensures
        strings_of(r@) == components_from(s@, seq![], true),
{
    let n = s.unicode_len();
    let mut out: Vec<String> = Vec::new();
    let mut cur = String::new();
    let mut first = true;
    let mut i: usize = 0;
    assert(s@.subrange(0, n as int) =~= s@);
    assert(strings_of(out@) =~= Seq::<Seq<char>>::empty());
    assert(cur@ =~= Seq::<char>::empty());
    while i < n
        invariant
            n == s@.len(),
            i <= n,
            components_from(s@, seq![], true) == strings_of(out@) + components_from(
                s@.subrange(i as int, n as int),
                cur@,
                first,
            ),
        decreases n - i,
    {
        let c = s.get_char(i);
        let ghost rest = s@.subrange(i as int, n as int);
        assert(rest.drop_first() =~= s@.subrange(i + 1, n as int));
        if c == '/' {
            let keep = cur.unicode_len() > 0 && (!str_eq(cur.as_str(), ".") || first);
            proof {
                reveal_strlit(".");
                assert(".".view() =~= seq!['.']);
            }
            let ghost old_out = out@;
            if keep {
                out.push(cur);
                assert(strings_of(out@) =~= strings_of(old_out) + seq![cur@]);
            } else {
                assert(strings_of(out@) =~= strings_of(old_out) + seq![]);
            }
            cur = String::new();
            first = false;
            assert(cur@ =~= Seq::<char>::empty());
        } else {
            push_char(&mut cur, c);
        }
        i = i + 1;
    }
    let keep = cur.unicode_len() > 0 && (!str_eq(cur.as_str(), ".") || first);
    proof {
        reveal_strlit(".");
        assert(".".view() =~= seq!['.']);
    }
    let ghost old_out = out@;
    if keep {
        out.push(cur);
        assert(strings_of(out@) =~= strings_of(old_out) + seq![cur@]);
    } else {
        assert(strings_of(out@) =~= strings_of(old_out) + seq![]);
    }
    out
}

fn join(base: &str, p: &str) -> (r: String)
    ensures
        r@ == path_join(base@, p@),
{
    if crate::text::starts_with(p, "/") || base.unicode_len() == 0 {
        p.to_string()
    } else {
        let mut r = base.to_string();
        if base.get_char(base.unicode_len() - 1) != '/' {
            push_str(&mut r, "/");
        }
        push_str(&mut r, p);
        r
    }
}

fn same(a: &str, b: &str) -> (r: bool)
    ensures
        r == same_path(a@, b@),
{
    if crate::text::starts_with(a, "/") != crate::text::starts_with(b, "/") {
        return false;
    }
    let ca = components(a);
    let cb = components(b);
    if ca.len() != cb.len() {
        assert(strings_of(ca@).len() != strings_of(cb@).len());
        return false;
    }
    let mut i: usize = 0;
    while i < ca.len()
        invariant
            strings_of(ca@) == components_from(a@, seq![], true),
            strings_of(cb@) == components_from(b@, seq![], true),
            ca@.len() == cb@.len(),
            i <= ca@.len(),
            forall|k: int| 0 <= k < i ==> ca@[k]@ == cb@[k]@,
        decreases ca@.len() - i,
    {
        if !str_eq(ca[i].as_str(), cb[i].as_str()) {
            assert(strings_of(ca@)[i as int] == ca@[i as int]@);
            assert(strings_of(cb@)[i as int] == cb@[i as int]@);
            assert(strings_of(ca@)[i as int] != strings_of(cb@)[i as int]);
            return false;
        }
        i = i + 1;
    }
    assert(strings_of(ca@) =~= strings_of(cb@));
    true
}

impl NavRule {
    /// Whether this rule is the file `README.md` at the root of the docs:
    /// a file rule whose path, under `root_dir`, is `docs_dir/README.md`.
    pub fn is_default_readme_rule(&self, root_dir: &str, docs_dir: &str) -> (r: bool)
        ensures
            r == match self {
                NavRule::File(p) => same_path(
                    path_join(root_dir@, p@),
                    path_join(docs_dir@, "README.md"@),
                ),
                NavRule::Dir(..) => false,
            },
    {
        match self {
            NavRule::File(p) => {
                let mine = join(root_dir, p.as_str());
                let readme = join(docs_dir, "README.md");
                same(mine.as_str(), readme.as_str())
            },
            NavRule::Dir(..) => false,
        }
    }
}

} // verus!
