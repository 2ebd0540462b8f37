//! Relative paths inside an installation, modeled as sequences of name
//! segments. A segment is safe when it cannot move outside the directory it
//! is joined to: non-empty, free of separators and NUL, and not a relative
//! name.

use vstd::prelude::*;
use vstd::string::StrSliceExecFns;

verus! {

/// A path as a sequence of name segments.
pub type SpecPath = Seq<Seq<char>>;

/// A single entry name that stays inside its directory: non-empty, without
/// path separators or NUL, and not one of the relative names "." and "..".
pub open spec fn valid_segment(s: Seq<char>) -> bool {
    &&& s.len() > 0
    &&& (forall|i: int| 0 <= i < s.len() ==> s[i] != '/' && s[i] != '\\' && s[i] != '\0')
    &&& s != "."@
    &&& s != ".."@
}

/// A non-empty path made only of valid segments.
pub open spec fn valid_path(p: SpecPath) -> bool {
    p.len() > 0 && (forall|i: int| 0 <= i < p.len() ==> valid_segment(#[trigger] p[i]))
}

/// Splitting a character sequence on '/': one segment per run between
/// separators, with empty segments where separators touch either end or each
/// other.
pub open spec fn spec_split_slash(s: Seq<char>) -> Seq<Seq<char>>
    decreases s.len(),
{
    if s.len() == 0 {
        seq![Seq::<char>::empty()]
    } else if s.last() == '/' {
        spec_split_slash(s.drop_last()).push(Seq::<char>::empty())
    } else {
        let rest = spec_split_slash(s.drop_last());
        rest.drop_last().push(rest.last().push(s.last()))
    }
}

pub proof fn lemma_split_slash_len(s: Seq<char>)
    ensures
        spec_split_slash(s).len() >= 1,
    decreases s.len(),
{
    if s.len() > 0 {
        lemma_split_slash_len(s.drop_last());
    }
}

/// Character-wise string equality.
pub fn str_eq(a: &str, b: &str) -> (r: bool)
    ensures
        r == (a@ == b@),
{
    let la = a.unicode_len();
    let lb = b.unicode_len();
    if la != lb {
        return false;
    }
    let mut i: usize = 0;
    while i < la
        invariant
            la == a@.len(),
            la == b@.len(),
            0 <= i <= la,
            forall|j: int| 0 <= j < i ==> a@[j] == b@[j],
        decreases la - i,
    {
        if a.get_char(i) != b.get_char(i) {
            return false;
        }
        i += 1;
    }
    proof {
        assert(a@ =~= b@);
    }
    true
}

/// Whether a string names a safe directory entry.
pub fn is_valid_segment(s: &str) -> (r: bool)
    ensures
        r == valid_segment(s@),
{
    let len = s.unicode_len();
    if len == 0 {
        return false;
    }
    let mut i: usize = 0;
    while i < len
        invariant
            len == s@.len(),
            0 <= i <= len,
            forall|j: int| 0 <= j < i ==> s@[j] != '/' && s@[j] != '\\' && s@[j] != '\0',
        decreases len - i,
    {
        let c = s.get_char(i);
        if c == '/' || c == '\\' || c == '\0' {
            return false;
        }
        i += 1;
    }
    if str_eq(s, ".") {
        return false;
    }
    if str_eq(s, "..") {
        return false;
    }
    true
}

/// Whether every segment of a path is safe and the path is non-empty.
pub fn is_valid_path(p: &Vec<String>) -> (r: bool)
    ensures
        r == valid_path(p.deep_view()),
{
    if p.len() == 0 {
        return false;
    }
    let mut i: usize = 0;
    while i < p.len()
        invariant
            0 <= i <= p.deep_view().len(),
            p.deep_view().len() == p@.len(),
            forall|j: int| 0 <= j < i ==> valid_segment(#[trigger] p.deep_view()[j]),
        decreases p@.len() - i,
    {
        if !is_valid_segment(p[i].as_str()) {
            proof {
                assert(p.deep_view()[i as int] == p@[i as int]@);
            }
            return false;
        }
        proof {
            assert(p.deep_view()[i as int] == p@[i as int]@);
        }
        i += 1;
    }
    true
}

/// Split a string on '/' into its segments.
pub fn split_slash(s: &str) -> (r: Vec<String>)
    ensures
        r.deep_view() == spec_split_slash(s@),
{
    let len = s.unicode_len();
    let mut r: Vec<String> = Vec::new();
    let mut seg_start: usize = 0;
    let mut i: usize = 0;
    proof {
        assert(s@.take(0) =~= Seq::<char>::empty());
        assert(s@.subrange(0, 0) =~= Seq::<char>::empty());
        assert(r.deep_view() =~= Seq::<Seq<char>>::empty());
        assert(r.deep_view().push(Seq::<char>::empty()) =~= seq![Seq::<char>::empty()]);
    }
    while i < len
        invariant
            len == s@.len(),
            0 <= seg_start <= i <= len,
            spec_split_slash(s@.take(i as int)) == r.deep_view().push(
                s@.subrange(seg_start as int, i as int),
            ),
        decreases len - i,
    {
        let ghost prev = s@.take(i as int);
        let c = s.get_char(i);
        proof {
            assert(s@.take(i + 1).drop_last() =~= prev);
            assert(s@.take(i + 1).last() == s@[i as int]);
        }
        if c == '/' {
            let seg = s.substring_char(seg_start, i).to_owned();
            let ghost old_r = r.deep_view();
            r.push(seg);
            proof {
                assert(r.deep_view() =~= old_r.push(s@.subrange(seg_start as int, i as int)));
                assert(spec_split_slash(s@.take(i + 1)) == spec_split_slash(prev).push(
                    Seq::<char>::empty(),
                ));
                assert(s@.subrange(i + 1, i + 1) =~= Seq::<char>::empty());
            }
            seg_start = i + 1;
        } else {
            proof {
                let rest = spec_split_slash(prev);
                assert(rest == r.deep_view().push(s@.subrange(seg_start as int, i as int)));
                assert(rest.drop_last() =~= r.deep_view());
                assert(rest.last() == s@.subrange(seg_start as int, i as int));
                assert(s@.subrange(seg_start as int, i as int).push(s@[i as int]) =~= s@.subrange(
                    seg_start as int,
                    i + 1,
                ));
                assert(spec_split_slash(s@.take(i + 1)) == rest.drop_last().push(
                    rest.last().push(s@[i as int]),
                ));
            }
        }
        i += 1;
    }
    let last = s.substring_char(seg_start, len).to_owned();
    let ghost old_r = r.deep_view();
    r.push(last);
    proof {
        assert(s@.take(len as int) =~= s@);
        assert(r.deep_view() =~= old_r.push(s@.subrange(seg_start as int, len as int)));
    }
    r
}

/// Segment-wise path equality.
pub fn path_eq(a: &Vec<String>, b: &Vec<String>) -> (r: bool)
    ensures
        r == (a.deep_view() == b.deep_view()),
{
    if a.len() != b.len() {
        proof {
            assert(a.deep_view().len() == a@.len());
            assert(b.deep_view().len() == b@.len());
        }
        return false;
    }
    let mut i: usize = 0;
    while i < a.len()
        invariant
            a@.len() == b@.len(),
            0 <= i <= a@.len(),
            forall|j: int| 0 <= j < i ==> a.deep_view()[j] == b.deep_view()[j],
        decreases a@.len() - i,
    {
        if !str_eq(a[i].as_str(), b[i].as_str()) {
            proof {
                assert(a.deep_view()[i as int] == a@[i as int]@);
                assert(b.deep_view()[i as int] == b@[i as int]@);
            }
            return false;
        }
        proof {
            assert(a.deep_view()[i as int] == a@[i as int]@);
            assert(b.deep_view()[i as int] == b@[i as int]@);
        }
        i += 1;
    }
    proof {
        assert(a.deep_view() =~= b.deep_view());
    }
    true
}

/// Whether a directory on the path — a segment before the last — equals the
/// given name. The final segment names the file itself, not a directory, so
/// a plain file called like the directory does not match.
pub open spec fn path_contains_dir_segment(p: SpecPath, seg: Seq<char>) -> bool {
    exists|i: int| 0 <= i < p.len() - 1 && p[i] == seg
}

pub fn path_has_dir_segment(p: &Vec<String>, seg: &str) -> (r: bool)
    ensures
        r == path_contains_dir_segment(p.deep_view(), seg@),
{
    let n = p.len();
    if n == 0 {
        return false;
    }
    let mut i: usize = 0;
    while i < n - 1
        invariant
            n == p@.len(),
            1 <= n,
            0 <= i <= n - 1,
            forall|j: int| 0 <= j < i ==> p.deep_view()[j] != seg@,
        decreases n - i,
    {
        if str_eq(p[i].as_str(), seg) {
            proof {
                assert(p.deep_view()[i as int] == p@[i as int]@);
            }
            return true;
        }
        proof {
            assert(p.deep_view()[i as int] == p@[i as int]@);
        }
        i += 1;
    }
    false
}

/// Whether `p` begins with all segments of `prefix`.
pub open spec fn path_starts_with(p: SpecPath, prefix: SpecPath) -> bool {
    p.len() >= prefix.len() && p.take(prefix.len() as int) == prefix
}

pub fn path_has_prefix(p: &Vec<String>, prefix: &Vec<String>) -> (r: bool)
    ensures
        r == path_starts_with(p.deep_view(), prefix.deep_view()),
{
    if p.len() < prefix.len() {
        proof {
            assert(p.deep_view().len() == p@.len());
            assert(prefix.deep_view().len() == prefix@.len());
        }
        return false;
    }
    let mut i: usize = 0;
    while i < prefix.len()
        invariant
            p@.len() >= prefix@.len(),
            0 <= i <= prefix@.len(),
            forall|j: int| 0 <= j < i ==> p.deep_view()[j] == prefix.deep_view()[j],
        decreases prefix@.len() - i,
    {
        if !str_eq(p[i].as_str(), prefix[i].as_str()) {
            proof {
                assert(p.deep_view()[i as int] == p@[i as int]@);
                assert(prefix.deep_view()[i as int] == prefix@[i as int]@);
            }
            return false;
        }
        proof {
            assert(p.deep_view()[i as int] == p@[i as int]@);
            assert(prefix.deep_view()[i as int] == prefix@[i as int]@);
        }
        i += 1;
    }
    proof {
        assert(p.deep_view().take(prefix.deep_view().len() as int) =~= prefix.deep_view());
    }
    true
}

} // verus!
