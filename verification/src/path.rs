//! Borrowed and owned paths, and the iteration over their components.
use vstd::prelude::*;
use vstd::string::StrSliceExecFns;
use crate::components::{first_index_of, lemma_first_index_of, lemma_first_index_of_unique, split_components, path_components};

verus! {

/// The path separator as a character.
pub open spec fn slash_char() -> char {
    '/'
}

/// Whether two strings hold the same characters.
pub fn str_equals(a: &str, b: &str) -> (r: bool)
    ensures
        r == (a@ == b@),
{
    let n = a.unicode_len();
    if n != b.unicode_len() {
        return false;
    }
    let mut i: usize = 0;
    while i < n
        invariant
            n == a@.len(),
            n == b@.len(),
            0 <= i <= n,
            forall|k: int| 0 <= k < i ==> a@[k] == b@[k],
        decreases n - i,
    {
        if a.get_char(i) != b.get_char(i) {
            return false;
        }
        i += 1;
    }
    proof {
        assert(a@ =~= b@);
    }
    true
}

/// The index of the last `c` in `s`, or -1 where there is none.
pub open spec fn last_index_of(s: Seq<char>, c: char) -> int
    decreases s.len(),
{
    if s.len() == 0 {
        -1
    } else if s.last() == c {
        s.len() - 1
    } else {
        last_index_of(s.drop_last(), c)
    }
}

/// The directory that holds what `p` names, and the last component of `p`:
/// nothing for the root; the path before the last `/` (the root where that
/// `/` is the first character) and what follows it; `.` and the whole path
/// where there is no `/`.
pub open spec fn spec_parent_and_basename(p: Seq<char>) -> Option<(Seq<char>, Seq<char>)> {
    let i = last_index_of(p, slash_char());
    if p == seq![slash_char()] {
        None
    } else if i < 0 {
        Some((seq!['.'], p))
    } else if i == 0 {
        Some((seq![slash_char()], p.skip(1)))
    } else {
        Some((p.take(i), p.skip(i + 1)))
    }
}

/// A borrowed path.
#[derive(Clone, Copy)]
pub struct Path<'a> {
    path: &'a str,
}

impl<'a> Path<'a> {
    /// The characters of the path.
    pub closed spec fn view(self) -> Seq<char> {
        self.path@
    }

    pub fn new(path: &'a str) -> (r: Path<'a>)
        ensures
            r@ == path@,
    {
        Path { path }
    }

    pub fn as_str(&self) -> (r: &'a str)
        ensures
            r@ == self@,
    {
        self.path
    }

    /// Whether the path starts with `/`.
    pub fn is_absolute(&self) -> (r: bool)
        ensures
            r == (self@.len() > 0 && self@[0] == slash_char()),
    {
        !self.path.is_empty() && self.path.get_char(0) == '/'
    }

    /// The directory that holds what the path names, and the last
    /// component; `None` for the root.
    pub fn parent_and_basename(&self) -> (r: Option<(Path<'a>, &'a str)>)
        ensures
            r is Some == spec_parent_and_basename(self@) is Some,
            r matches Some((d, b)) ==> spec_parent_and_basename(self@) == Some((d@, b@)),
    {
        proof {
            reveal_strlit("/");
            reveal_strlit(".");
            assert("/"@ =~= seq![slash_char()]);
            assert("."@ =~= seq!['.']);
        }
        if str_equals(self.path, "/") {
            return None;
        }
        let ghost s = self.path@;
        let len = self.path.unicode_len();
        let mut i: usize = len;
        proof {
            assert(s.take(len as int) =~= s);
        }
        while i > 0 && self.path.get_char(i - 1) != '/'
            invariant
                s == self.path@,
                len == s.len(),
                0 <= i <= len,
                last_index_of(s, slash_char()) == last_index_of(s.take(i as int), slash_char()),
            decreases i,
        {
            proof {
                assert(s.take(i as int).drop_last() =~= s.take(i - 1));
            }
            i -= 1;
        }
        proof {
            assert(s.take(len as int) =~= s);
        }
        if i == 0 {
            Some((Path::new("."), self.path))
        } else {
            let slash = i - 1;
            let base = self.path.substring_char(slash + 1, len);
            proof {
                assert(base@ =~= s.skip(slash + 1));
            }
            if slash == 0 {
                Some((Path::new("/"), base))
            } else {
                let dir = self.path.substring_char(0, slash);
                proof {
                    assert(dir@ =~= s.take(slash as int));
                }
                Some((Path::new(dir), base))
            }
        }
    }

    /// The components of the path: one leading `/` is skipped.
    pub fn components(&self) -> (r: Components<'a>)
        ensures
            r@ == (if self@.len() > 0 && self@[0] == slash_char() {
                self@.skip(1)
            } else {
                self@
            }),
            split_components(r@, slash_char()) == path_components(self@, slash_char()),
    {
        if self.is_absolute() {
            let len = self.path.unicode_len();
            let rest = self.path.substring_char(1, len);
            proof {
                assert(rest@ =~= self@.skip(1));
            }
            Components { path: rest }
        } else {
            proof {
                assert(self@.subrange(0, self@.len() as int) =~= self@);
            }
            Components { path: self.path }
        }
    }
}

/// The components of a path that are yet to be visited.
pub struct Components<'a> {
    path: &'a str,
}

impl<'a> Components<'a> {
    /// The characters that are yet to be split.
    pub closed spec fn view(self) -> Seq<char> {
        self.path@
    }

    /// Whether nothing is left.
    pub fn is_empty(&self) -> (r: bool)
        ensures
            r == (self@.len() == 0),
    {
        self.path.is_empty()
    }

    /// What is left, as a path.
    pub fn as_path(&self) -> (r: Path<'a>)
        ensures
            r@ == self@,
    {
        Path::new(self.path)
    }

    /// Yields the next component: the characters up to the next `/`, which
    /// is then skipped. `None` once nothing is left.
    pub fn next_component(&mut self) -> (r: Option<&'a str>)
        ensures
            old(self)@.len() == 0 ==> r is None && final(self)@ == old(self)@,
            old(self)@.len() > 0 ==> r is Some && ({
                let i = first_index_of(old(self)@, slash_char());
                &&& r->0@ == old(self)@.take(i)
                &&& final(self)@ == (if i < old(self)@.len() {
                    old(self)@.skip(i + 1)
                } else {
                    Seq::<char>::empty()
                })
            }),
            old(self)@.len() > 0 ==> split_components(old(self)@, slash_char())
                == seq![r->0@] + split_components(final(self)@, slash_char()),
    {
        let len = self.path.unicode_len();
        if len == 0 {
            return None;
        }
        let ghost s = self.path@;
        let mut i: usize = 0;
        while i < len && self.path.get_char(i) != '/'
            invariant
                s == self.path@,
                len == s.len(),
                0 <= i <= len,
                forall|k: int| 0 <= k < i ==> s[k] != slash_char(),
            decreases len - i,
        {
            i += 1;
        }
        proof {
            lemma_first_index_of_unique(s, slash_char(), i as int);
            lemma_first_index_of(s, slash_char());
        }
        let piece = self.path.substring_char(0, i);
        if i < len {
            self.path = self.path.substring_char(i + 1, len);
            proof {
                assert(s.subrange(i + 1, len as int) =~= s.skip(i + 1));
                assert(s.subrange(0, i as int) =~= s.take(i as int));
            }
        } else {
            self.path = self.path.substring_char(len, len);
            proof {
                assert(s.subrange(len as int, len as int) =~= Seq::<char>::empty());
                assert(s.subrange(0, i as int) =~= s.take(i as int));
                assert(s.take(i as int) =~= s);
                assert(split_components(Seq::<char>::empty(), slash_char()) =~= Seq::<Seq<char>>::empty());
                assert(seq![s] + Seq::<Seq<char>>::empty() =~= seq![s]);
            }
        }
        Some(piece)
    }
}

/// An owned path.
pub struct PathBuf {
    path: String,
}

impl PathBuf {
    /// The characters of the path.
    pub closed spec fn view(&self) -> Seq<char> {
        self.path@
    }

    pub fn new() -> (r: PathBuf)
        ensures
            r@ == Seq::<char>::empty(),
    {
        PathBuf { path: String::new() }
    }

    /// An owned copy of `path`.
    pub fn from_str(path: &str) -> (r: PathBuf)
        ensures
            r@ == path@,
    {
        PathBuf { path: path.to_owned() }
    }

    /// Takes `path` as it is.
    pub fn from_string(path: String) -> (r: PathBuf)
        ensures
            r@ == path@,
    {
        PathBuf { path }
    }

    /// An owned copy of a borrowed path.
    pub fn from_path(path: Path) -> (r: PathBuf)
        ensures
            r@ == path@,
    {
        PathBuf { path: path.as_str().to_owned() }
    }

    pub fn as_path(&self) -> (r: Path<'_>)
        ensures
            r@ == self@,
    {
        Path::new(self.path.as_str())
    }
}

} // verus!
