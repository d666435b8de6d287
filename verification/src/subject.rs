//! Mapping of an HTTP method and path to a bus subject.

use crate::text::{chars_of, lower, lower_all, to_lower};
use vstd::prelude::*;

verus! {

/// Number of `/` characters that `p` starts with.
pub open spec fn leading_slashes(p: Seq<char>) -> nat
    decreases p.len(),
{
    if p.len() > 0 && p[0] == '/' {
        1 + leading_slashes(p.drop_first())
    } else {
        0
    }
}

/// Number of `/` characters that `p` ends with.
pub open spec fn trailing_slashes(p: Seq<char>) -> nat
    decreases p.len(),
{
    if p.len() > 0 && p.last() == '/' {
        1 + trailing_slashes(p.drop_last())
    } else {
        0
    }
}

/// `p` without the slashes it starts and ends with.
pub open spec fn trimmed(p: Seq<char>) -> Seq<char> {
    if leading_slashes(p) >= p.len() {
        Seq::empty()
    } else {
        p.subrange(leading_slashes(p) as int, p.len() - trailing_slashes(p))
    }
}

/// `p` with every `/` replaced by `.`.
pub open spec fn dotted(p: Seq<char>) -> Seq<char> {
    Seq::new(p.len(), |i: int| if p[i] == '/' { '.' } else { p[i] })
}

/// The subject of a request: the lower-cased method, followed, unless the path
/// has no segment, by a dot and the path's segments joined by dots.
pub open spec fn subject_of(method: Seq<char>, path: Seq<char>) -> Seq<char> {
    if trimmed(path).len() == 0 {
        lower_all(method)
    } else {
        lower_all(method) + seq!['.'] + dotted(trimmed(path))
    }
}

/// If exactly the first `k` characters of `p` are slashes, `p` starts with `k` slashes.
pub proof fn lemma_leading_slashes(p: Seq<char>, k: int)
    requires
        0 <= k <= p.len(),
        forall|j: int| 0 <= j < k ==> p[j] == '/',
        k == p.len() || p[k] != '/',
    ensures
        leading_slashes(p) == k,
    decreases k,
{
    if k > 0 {
        let rest = p.drop_first();
        assert forall|j: int| 0 <= j < k - 1 implies rest[j] == '/' by {
            assert(rest[j] == p[j + 1]);
        }
        lemma_leading_slashes(rest, k - 1);
    }
}

/// If exactly the last `k` characters of `p` are slashes, `p` ends with `k` slashes.
pub proof fn lemma_trailing_slashes(p: Seq<char>, k: int)
    requires
        0 <= k <= p.len(),
        forall|j: int| p.len() - k <= j < p.len() ==> p[j] == '/',
        k == p.len() || p[p.len() - k - 1] != '/',
    ensures
        trailing_slashes(p) == k,
    decreases k,
{
    if k > 0 {
        let rest = p.drop_last();
        assert forall|j: int| rest.len() - (k - 1) <= j < rest.len() implies rest[j] == '/' by {
            assert(rest[j] == p[j]);
        }
        lemma_trailing_slashes(rest, k - 1);
    }
}

/// The bus subject of a request with this method and path.
///
/// The method is lower-cased letter by letter (method tokens are ASCII, and a
/// character outside `A`..`Z` is kept as it is). Slashes at either end of the path
/// are dropped and every slash in between becomes a dot, so `/a/b` and `a/b/` give
/// the same subject. A path without a segment gives the method alone: this is the
/// subject of the root route.
pub fn create_subject(method: &str, path: &str) -> (subject: String)
    ensures
        subject@ == subject_of(method@, path@),
{
    let p = chars_of(path);
    let mut subject = to_lower(method);
    let n = p.len();
    let mut start: usize = 0;
    while start < n && p[start] == '/'
        invariant
            start <= n,
            n == p.len(),
            forall|j: int| 0 <= j < start ==> p@[j] == '/',
        decreases n - start,
    {
        start = start + 1;
    }
    proof {
        lemma_leading_slashes(p@, start as int);
    }
    if start == n {
        return subject;
    }
    let mut end: usize = n;
    while p[end - 1] == '/'
        invariant
            start < end <= n,
            n == p.len(),
            p@[start as int] != '/',
            forall|j: int| end <= j < n ==> p@[j] == '/',
        decreases end,
    {
        end = end - 1;
    }
    proof {
        lemma_trailing_slashes(p@, n - end);
    }
    subject.push('.');
    let ghost head = subject@;
    let mut j: usize = start;
    while j < end
        invariant
            start <= j <= end <= p.len(),
            subject@ == head + dotted(p@.subrange(start as int, j as int)),
        decreases end - j,
    {
        let c = p[j];
        subject.push(if c == '/' { '.' } else { c });
        j = j + 1;
        assert(subject@ =~= head + dotted(p@.subrange(start as int, j as int)));
    }
    subject
}

/// Two texts that differ at most in the case of their ASCII letters.
pub open spec fn same_ignoring_case(a: Seq<char>, b: Seq<char>) -> bool {
    &&& a.len() == b.len()
    &&& forall|i: int| 0 <= i < a.len() ==> lower(a[i]) == lower(b[i])
}

/// The subject does not depend on the case in which the method is written:
/// methods that differ only in the case of their letters give one subject.
pub proof fn law_method_case_is_ignored(method_a: Seq<char>, method_b: Seq<char>, path: Seq<char>)
    requires
        same_ignoring_case(method_a, method_b),
    ensures
        subject_of(method_a, path) == subject_of(method_b, path),
{
    assert(lower_all(method_a) =~= lower_all(method_b));
}

/// A method that is already in lower case is mapped as its lower-cased form is:
/// lower-casing twice changes nothing.
pub proof fn law_lower_case_is_stable(method: Seq<char>, path: Seq<char>)
    ensures
        same_ignoring_case(lower_all(method), method),
        subject_of(lower_all(method), path) == subject_of(method, path),
{
    assert forall|i: int| 0 <= i < method.len() implies lower(lower_all(method)[i]) == lower(
        method[i],
    ) by {
        let c = method[i];
        if 'A' <= c && c <= 'Z' {
            assert(lower(c) == ((c as u8) + 32) as char);
        }
    }
    law_method_case_is_ignored(lower_all(method), method, path);
}

/// The slashes that `leading_slashes` counts are the longest run of slashes in front.
pub proof fn lemma_leading_run(p: Seq<char>)
    ensures
        leading_slashes(p) <= p.len(),
        forall|j: int| 0 <= j < leading_slashes(p) ==> p[j] == '/',
        leading_slashes(p) == p.len() || p[leading_slashes(p) as int] != '/',
    decreases p.len(),
{
    if p.len() > 0 && p[0] == '/' {
        let rest = p.drop_first();
        lemma_leading_run(rest);
        assert forall|j: int| 0 <= j < leading_slashes(p) implies p[j] == '/' by {
            if j > 0 {
                assert(p[j] == rest[j - 1]);
            }
        }
    }
}

/// The slashes that `trailing_slashes` counts are the longest run of slashes at the end.
pub proof fn lemma_trailing_run(p: Seq<char>)
    ensures
        trailing_slashes(p) <= p.len(),
        forall|j: int| p.len() - trailing_slashes(p) <= j < p.len() ==> p[j] == '/',
        trailing_slashes(p) == p.len() || p[p.len() - trailing_slashes(p) - 1] != '/',
    decreases p.len(),
{
    if p.len() > 0 && p.last() == '/' {
        let rest = p.drop_last();
        lemma_trailing_run(rest);
        assert forall|j: int| p.len() - trailing_slashes(p) <= j < p.len() implies p[j]
            == '/' by {
            if j < p.len() - 1 {
                assert(p[j] == rest[j]);
            }
        }
    }
}

/// A slash in front of the path does not change the subject.
pub proof fn law_leading_slash_is_dropped(method: Seq<char>, path: Seq<char>)
    ensures
        subject_of(method, seq!['/'] + path) == subject_of(method, path),
{
    let q = seq!['/'] + path;
    let k = leading_slashes(path) as int;
    let t = trailing_slashes(path) as int;
    lemma_leading_run(path);
    lemma_trailing_run(path);
    assert forall|j: int| 0 <= j < k + 1 implies q[j] == '/' by {
        if j > 0 {
            assert(q[j] == path[j - 1]);
        }
    }
    lemma_leading_slashes(q, k + 1);
    if k < path.len() {
        assert(t < path.len()) by {
            if t == path.len() {
                assert(path[k] == '/');
            }
        }
        assert forall|j: int| q.len() - t <= j < q.len() implies q[j] == '/' by {
            assert(q[j] == path[j - 1]);
        }
        assert(q[q.len() - t - 1] == path[path.len() - t - 1]);
        lemma_trailing_slashes(q, t);
        assert(trimmed(q) =~= trimmed(path));
    }
}

/// A slash behind the path does not change the subject.
pub proof fn law_trailing_slash_is_dropped(method: Seq<char>, path: Seq<char>)
    ensures
        subject_of(method, path.push('/')) == subject_of(method, path),
{
    let q = path.push('/');
    let k = leading_slashes(path) as int;
    let t = trailing_slashes(path) as int;
    lemma_leading_run(path);
    lemma_trailing_run(path);
    if k < path.len() {
        assert(t < path.len()) by {
            if t == path.len() {
                assert(path[k] == '/');
            }
        }
        assert forall|j: int| 0 <= j < k implies q[j] == '/' by {
            assert(q[j] == path[j]);
        }
        assert(q[k] == path[k]);
        lemma_leading_slashes(q, k);
        assert forall|j: int| q.len() - (t + 1) <= j < q.len() implies q[j] == '/' by {
            if j < path.len() {
                assert(q[j] == path[j]);
            }
        }
        assert(q[q.len() - (t + 1) - 1] == path[path.len() - t - 1]);
        lemma_trailing_slashes(q, t + 1);
        assert(trimmed(q) =~= trimmed(path));
    } else {
        assert forall|j: int| 0 <= j < q.len() implies q[j] == '/' by {
            if j < path.len() {
                assert(q[j] == path[j]);
            }
        }
        lemma_leading_slashes(q, q.len() as int);
    }
}

/// Whether a text holds no dot.
pub open spec fn dotless(s: Seq<char>) -> bool {
    forall|i: int| 0 <= i < s.len() ==> s[i] != '.'
}

/// Subjects do not collide: where neither the methods nor the paths hold a
/// dot of their own, two requests that are mapped to one subject have the
/// same method, but for the case of its letters, and the same path, but for
/// the slashes at its ends.
pub proof fn law_subjects_do_not_collide(
    method_a: Seq<char>,
    path_a: Seq<char>,
    method_b: Seq<char>,
    path_b: Seq<char>,
)
    requires
        dotless(method_a),
        dotless(method_b),
        dotless(trimmed(path_a)),
        dotless(trimmed(path_b)),
        subject_of(method_a, path_a) == subject_of(method_b, path_b),
    ensures
        lower_all(method_a) == lower_all(method_b),
        trimmed(path_a) == trimmed(path_b),
{
    let a = lower_all(method_a);
    let b = lower_all(method_b);
    let trim_a = trimmed(path_a);
    let trim_b = trimmed(path_b);
    let subject_a = subject_of(method_a, path_a);
    let subject_b = subject_of(method_b, path_b);
    assert forall|i: int| 0 <= i < a.len() implies a[i] != '.' by {
        assert(method_a[i] != '.');
    }
    assert forall|i: int| 0 <= i < b.len() implies b[i] != '.' by {
        assert(method_b[i] != '.');
    }
    if trim_a.len() == 0 && trim_b.len() == 0 {
        assert(trim_a =~= trim_b);
    } else if trim_a.len() == 0 {
        assert(subject_b[b.len() as int] == '.');
        assert(subject_a[b.len() as int] == a[b.len() as int]);
    } else if trim_b.len() == 0 {
        assert(subject_a[a.len() as int] == '.');
        assert(subject_b[a.len() as int] == b[a.len() as int]);
    } else {
        assert(subject_a[a.len() as int] == '.');
        assert(subject_b[b.len() as int] == '.');
        if a.len() < b.len() {
            assert(subject_b[a.len() as int] == b[a.len() as int]);
        } else if b.len() < a.len() {
            assert(subject_a[b.len() as int] == a[b.len() as int]);
        }
        assert(a.len() == b.len());
        assert forall|i: int| 0 <= i < a.len() implies a[i] == b[i] by {
            assert(subject_a[i] == a[i]);
            assert(subject_b[i] == b[i]);
        }
        assert(a =~= b);
        assert(trim_a.len() == trim_b.len()) by {
            assert(subject_a.len() == a.len() + 1 + trim_a.len());
            assert(subject_b.len() == b.len() + 1 + trim_b.len());
        }
        assert forall|i: int| 0 <= i < trim_a.len() implies trim_a[i] == trim_b[i] by {
            assert(subject_a[a.len() + 1 + i] == dotted(trim_a)[i]);
            assert(subject_b[b.len() + 1 + i] == dotted(trim_b)[i]);
            assert(trim_a[i] != '.');
            assert(trim_b[i] != '.');
        }
        assert(trim_a =~= trim_b);
    }
}

} // verus!
