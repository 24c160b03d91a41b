//! Path algebra: pure, deterministic functions that translate between the
//! remote object namespace and the local directory namespace. Every traversal
//! derives child and mirror locations through these functions, so each one
//! carries an exact contract over its character-sequence view.

use vstd::prelude::*;
use vstd::string::StrSliceExecFns;
use vstd::string::StringExecFns;

verus! {

/// A path with one leading separator removed, if it has one.
pub open spec fn spec_normalize(s: Seq<char>) -> Seq<char> {
    if s.len() > 0 && s[0] == '/' {
        s.subrange(1, s.len() as int)
    } else {
        s
    }
}

/// All leading separators removed.
pub open spec fn spec_trim_leading_slashes(s: Seq<char>) -> Seq<char>
    decreases s.len(),
{
    if s.len() > 0 && s[0] == '/' {
        spec_trim_leading_slashes(s.subrange(1, s.len() as int))
    } else {
        s
    }
}

/// All trailing separators removed.
pub open spec fn spec_trim_trailing_slashes(s: Seq<char>) -> Seq<char>
    decreases s.len(),
{
    if s.len() > 0 && s[s.len() - 1] == '/' {
        spec_trim_trailing_slashes(s.drop_last())
    } else {
        s
    }
}

/// The suffix after the last separator; the whole sequence when it has none.
pub open spec fn spec_after_last_slash(s: Seq<char>) -> Seq<char>
    decreases s.len(),
{
    if s.len() == 0 {
        s
    } else if s[s.len() - 1] == '/' {
        Seq::<char>::empty()
    } else {
        spec_after_last_slash(s.drop_last()).push(s[s.len() - 1])
    }
}

/// The final path segment: trailing separators are ignored, so `a/b` and
/// `a/b/` both end in `b`; a path of separators alone has the empty segment.
pub open spec fn spec_file_name(s: Seq<char>) -> Seq<char> {
    spec_after_last_slash(spec_trim_trailing_slashes(s))
}

/// Whether `pre` is a prefix of `s`.
pub open spec fn spec_is_prefix(pre: Seq<char>, s: Seq<char>) -> bool {
    pre.len() <= s.len() && s.subrange(0, pre.len() as int) == pre
}

/// Filesystem-style join: an absolute `name` stands alone; otherwise the two
/// are concatenated with exactly one separator added when `base` does not
/// already end in one.
pub open spec fn spec_join(base: Seq<char>, name: Seq<char>) -> Seq<char> {
    if name.len() > 0 && name[0] == '/' {
        name
    } else if base.len() == 0 {
        name
    } else if base[base.len() - 1] == '/' {
        base + name
    } else {
        base.push('/') + name
    }
}

/// The relative path of `full` under `base`: the final segment when the two
/// are equal, the suffix with leading separators removed when `base` is a
/// prefix, and `full` unchanged otherwise.
pub open spec fn spec_relative(full: Seq<char>, base: Seq<char>) -> Seq<char> {
    if full == base {
        spec_file_name(full)
    } else if spec_is_prefix(base, full) {
        spec_trim_leading_slashes(full.subrange(base.len() as int, full.len() as int))
    } else {
        full
    }
}

/// As `spec_relative`, after one leading separator is removed from each input;
/// a prefix mismatch degrades to the final segment instead of the full path.
pub open spec fn spec_root_relative(full: Seq<char>, base: Seq<char>) -> Seq<char> {
    let f = spec_normalize(full);
    let b = spec_normalize(base);
    if f == b {
        spec_file_name(f)
    } else if spec_is_prefix(b, f) {
        spec_trim_leading_slashes(f.subrange(b.len() as int, f.len() as int))
    } else {
        spec_file_name(f)
    }
}

/// Character-wise string equality, decided without assuming ASCII content.
pub fn str_eq(a: &str, b: &str) -> (r: bool)
    ensures
        r == (a@ == b@),
{
    let alen = a.unicode_len();
    let blen = b.unicode_len();
    if alen != blen {
        proof {
            assert(a@ != b@) by {
                if a@ == b@ {
                    assert(a@.len() == b@.len());
                }
            }
        }
        return false;
    }
    let mut i: usize = 0;
    while i < alen
        invariant
            i <= alen,
            alen == a@.len(),
            alen == b@.len(),
            forall|k: int| 0 <= k < i ==> a@[k] == b@[k],
        decreases alen - i,
    {
        if a.get_char(i) != b.get_char(i) {
            return false;
        }
        i = i + 1;
    }
    proof {
        assert(a@ =~= b@);
    }
    true
}

/// Whether `s` begins with the characters of `pre`.
pub fn str_starts_with(s: &str, pre: &str) -> (r: bool)
    ensures
        r == spec_is_prefix(pre@, s@),
{
    let slen = s.unicode_len();
    let plen = pre.unicode_len();
    if plen > slen {
        return false;
    }
    let mut i: usize = 0;
    while i < plen
        invariant
            i <= plen,
            plen == pre@.len(),
            slen == s@.len(),
            plen <= slen,
            forall|k: int| 0 <= k < i ==> s@[k] == pre@[k],
        decreases plen - i,
    {
        if s.get_char(i) != pre.get_char(i) {
            proof {
                assert(!spec_is_prefix(pre@, s@)) by {
                    if spec_is_prefix(pre@, s@) {
                        assert(s@.subrange(0, pre@.len() as int)[i as int] == pre@[i as int]);
                    }
                }
            }
            return false;
        }
        i = i + 1;
    }
    proof {
        assert(s@.subrange(0, pre@.len() as int) =~= pre@);
    }
    true
}

proof fn lemma_trim_trailing_prefix(s: Seq<char>, i: int)
    requires
        0 < i <= s.len(),
        s[i - 1] == '/',
    ensures
        spec_trim_trailing_slashes(s.subrange(0, i)) == spec_trim_trailing_slashes(
            s.subrange(0, i - 1),
        ),
{
    let t = s.subrange(0, i);
    assert(t[t.len() - 1] == '/');
    assert(t.drop_last() =~= s.subrange(0, i - 1));
}

proof fn lemma_after_last_step(s: Seq<char>, j: int)
    requires
        0 < j <= s.len(),
        s[j - 1] != '/',
    ensures
        spec_after_last_slash(s.subrange(0, j)) == spec_after_last_slash(
            s.subrange(0, j - 1),
        ).push(s[j - 1]),
{
    let t = s.subrange(0, j);
    assert(t[t.len() - 1] != '/');
    assert(t.drop_last() =~= s.subrange(0, j - 1));
}

/// The final path segment of `path`, as `spec_file_name` gives it.
pub fn file_name_of(path: &str) -> (r: String)
    ensures
        r@ == spec_file_name(path@),
{
    let len = path.unicode_len();
    let mut end: usize = len;
    proof {
        assert(path@.subrange(0, len as int) =~= path@);
    }
    while end > 0 && path.get_char(end - 1) == '/'
        invariant
            end <= len,
            len == path@.len(),
            spec_trim_trailing_slashes(path@) == spec_trim_trailing_slashes(
                path@.subrange(0, end as int),
            ),
        decreases end,
    {
        proof {
            lemma_trim_trailing_prefix(path@, end as int);
        }
        end = end - 1;
    }
    proof {
        assert(spec_trim_trailing_slashes(path@.subrange(0, end as int)) == path@.subrange(
            0,
            end as int,
        ));
    }
    let ghost t = path@.subrange(0, end as int);
    proof {
        assert(t.subrange(0, end as int) =~= t);
        assert(t.subrange(end as int, end as int) =~= Seq::<char>::empty());
        assert(spec_after_last_slash(t) + Seq::<char>::empty() =~= spec_after_last_slash(t));
    }
    let mut start: usize = end;
    while start > 0 && path.get_char(start - 1) != '/'
        invariant
            start <= end,
            end <= len,
            len == path@.len(),
            t == path@.subrange(0, end as int),
            spec_after_last_slash(t) == spec_after_last_slash(t.subrange(0, start as int)) + t.subrange(
                start as int,
                end as int,
            ),
        decreases start,
    {
        proof {
            assert(t.subrange(0, start as int)[start - 1] == path@[start - 1]);
            lemma_after_last_step(t.subrange(0, start as int), start as int);
            assert(t.subrange(0, start as int).subrange(0, start - 1) =~= t.subrange(
                0,
                start - 1,
            ));
            assert(t.subrange(0, start as int).subrange(0, start as int) =~= t.subrange(
                0,
                start as int,
            ));
            assert(spec_after_last_slash(t.subrange(0, start - 1)).push(t[start - 1]) + t.subrange(
                start as int,
                end as int,
            ) =~= spec_after_last_slash(t.subrange(0, start - 1)) + t.subrange(
                start - 1,
                end as int,
            ));
        }
        start = start - 1;
    }
    proof {
        if start == 0 {
            assert(t.subrange(0, 0) =~= Seq::<char>::empty());
            assert(spec_after_last_slash(Seq::<char>::empty()) + t.subrange(0, end as int)
                =~= t.subrange(0, end as int));
        } else {
            assert(t.subrange(0, start as int)[start - 1] == '/');
            assert(spec_after_last_slash(t.subrange(0, start as int)) =~= Seq::<char>::empty());
            assert(Seq::<char>::empty() + t.subrange(start as int, end as int) =~= t.subrange(
                start as int,
                end as int,
            ));
        }
        assert(t.subrange(start as int, end as int) =~= path@.subrange(
            start as int,
            end as int,
        ));
    }
    let seg = path.substring_char(start, end);
    String::from_str(seg)
}

/// Runs of consecutive separators collapsed to a single one.
pub open spec fn spec_collapse_runs(s: Seq<char>) -> Seq<char>
    decreases s.len(),
{
    if s.len() == 0 {
        s
    } else if s.len() >= 2 && s[s.len() - 1] == '/' && s[s.len() - 2] == '/' {
        spec_collapse_runs(s.drop_last())
    } else {
        spec_collapse_runs(s.drop_last()).push(s[s.len() - 1])
    }
}

/// A path in the backend's normalized form: every leading separator removed,
/// runs of separators collapsed to one, and the empty path written as the
/// root `/`. Backends report listed entries under this form, so every
/// traversal normalizes its path before the first backend call.
pub open spec fn spec_backend_path(s: Seq<char>) -> Seq<char> {
    let t = spec_trim_leading_slashes(s);
    if t.len() == 0 {
        seq!['/']
    } else {
        spec_collapse_runs(t)
    }
}

/// Normalize a path for the backend, exactly as `spec_backend_path` states.
pub fn backend_path(path: &str) -> (r: String)
    ensures
        r@ == spec_backend_path(path@),
{
    let len = path.unicode_len();
    let mut start: usize = 0;
    proof {
        assert(path@.subrange(0, len as int) =~= path@);
    }
    while start < len && path.get_char(start) == '/'
        invariant
            start <= len,
            len == path@.len(),
            spec_trim_leading_slashes(path@) == spec_trim_leading_slashes(
                path@.subrange(start as int, len as int),
            ),
        decreases len - start,
    {
        proof {
            let cur = path@.subrange(start as int, len as int);
            assert(cur[0] == '/');
            assert(cur.subrange(1, cur.len() as int) =~= path@.subrange(start + 1, len as int));
        }
        start = start + 1;
    }
    let ghost t = path@.subrange(start as int, len as int);
    proof {
        assert(spec_trim_leading_slashes(t) == t);
        assert(spec_trim_leading_slashes(path@) == t);
    }
    if start == len {
        proof {
            reveal_strlit("/");
            assert("/"@ =~= seq!['/']);
            assert(t.len() == 0);
        }
        return String::from_str("/");
    }
    let mut out = String::new();
    let mut i: usize = start;
    proof {
        assert(t.subrange(0, 0) =~= Seq::<char>::empty());
    }
    while i < len
        invariant
            start <= i <= len,
            start < len,
            len == path@.len(),
            t == path@.subrange(start as int, len as int),
            out@ == spec_collapse_runs(t.subrange(0, i - start)),
        decreases len - i,
    {
        let c = path.get_char(i);
        let ghost cur = t.subrange(0, i + 1 - start);
        proof {
            assert(cur.drop_last() =~= t.subrange(0, i - start));
            assert(cur[cur.len() - 1] == path@[i as int]);
            if i > start {
                assert(cur[cur.len() - 2] == path@[i - 1]);
            }
        }
        if c == '/' && i > start && path.get_char(i - 1) == '/' {
        } else {
            let cs = path.substring_char(i, i + 1);
            proof {
                assert(cs@ =~= seq![c]);
            }
            out.append(cs);
            proof {
                assert(out@ =~= spec_collapse_runs(t.subrange(0, i - start)).push(c));
            }
        }
        i = i + 1;
    }
    proof {
        assert(t.subrange(0, len - start) =~= t);
    }
    out
}

/// The part of a path before its final segment: trailing separators are
/// ignored, the final segment and the separators before it are removed, so
/// `a/b/c.txt` has parent `a/b` and a single segment has the empty parent.
pub open spec fn spec_before_last_slash(s: Seq<char>) -> Seq<char>
    decreases s.len(),
{
    if s.len() == 0 {
        s
    } else if s[s.len() - 1] == '/' {
        s
    } else {
        spec_before_last_slash(s.drop_last())
    }
}

/// The parent of a path, as described above.
pub open spec fn spec_parent(s: Seq<char>) -> Seq<char> {
    spec_trim_trailing_slashes(spec_before_last_slash(spec_trim_trailing_slashes(s)))
}

proof fn lemma_before_last_step(s: Seq<char>, j: int)
    requires
        0 < j <= s.len(),
        s[j - 1] != '/',
    ensures
        spec_before_last_slash(s.subrange(0, j)) == spec_before_last_slash(s.subrange(0, j - 1)),
{
    let t = s.subrange(0, j);
    assert(t[t.len() - 1] != '/');
    assert(t.drop_last() =~= s.subrange(0, j - 1));
}

/// The parent directory of `path`, as `spec_parent` gives it.
pub fn parent_of(path: &str) -> (r: String)
    ensures
        r@ == spec_parent(path@),
{
    let len = path.unicode_len();
    let mut end: usize = len;
    proof {
        assert(path@.subrange(0, len as int) =~= path@);
    }
    while end > 0 && path.get_char(end - 1) == '/'
        invariant
            end <= len,
            len == path@.len(),
            spec_trim_trailing_slashes(path@) == spec_trim_trailing_slashes(
                path@.subrange(0, end as int),
            ),
        decreases end,
    {
        proof {
            lemma_trim_trailing_prefix(path@, end as int);
        }
        end = end - 1;
    }
    let ghost t = path@.subrange(0, end as int);
    proof {
        assert(spec_trim_trailing_slashes(t) == t);
        assert(spec_trim_trailing_slashes(path@) == t);
        assert(t.subrange(0, end as int) =~= t);
    }
    let mut cut: usize = end;
    while cut > 0 && path.get_char(cut - 1) != '/'
        invariant
            cut <= end,
            end <= len,
            len == path@.len(),
            t == path@.subrange(0, end as int),
            spec_before_last_slash(t) == spec_before_last_slash(t.subrange(0, cut as int)),
        decreases cut,
    {
        proof {
            assert(t.subrange(0, cut as int)[cut - 1] == path@[cut - 1]);
            lemma_before_last_step(t.subrange(0, cut as int), cut as int);
            assert(t.subrange(0, cut as int).subrange(0, cut - 1) =~= t.subrange(0, cut - 1));
        }
        cut = cut - 1;
    }
    proof {
        if cut == 0 {
            assert(t.subrange(0, 0) =~= Seq::<char>::empty());
            assert(spec_before_last_slash(t) =~= t.subrange(0, cut as int));
        } else {
            assert(t.subrange(0, cut as int)[cut - 1] == '/');
            assert(spec_before_last_slash(t.subrange(0, cut as int)) == t.subrange(0, cut as int));
        }
        assert(spec_before_last_slash(t) == t.subrange(0, cut as int));
    }
    let ghost b = t.subrange(0, cut as int);
    proof {
        assert(b =~= path@.subrange(0, cut as int));
        assert(b.subrange(0, cut as int) =~= b);
    }
    let mut p_end: usize = cut;
    while p_end > 0 && path.get_char(p_end - 1) == '/'
        invariant
            p_end <= cut,
            cut <= len,
            len == path@.len(),
            b == path@.subrange(0, cut as int),
            spec_trim_trailing_slashes(b) == spec_trim_trailing_slashes(
                b.subrange(0, p_end as int),
            ),
        decreases p_end,
    {
        proof {
            assert(b.subrange(0, p_end as int)[p_end - 1] == path@[p_end - 1]);
            lemma_trim_trailing_prefix(b, p_end as int);
        }
        p_end = p_end - 1;
    }
    proof {
        assert(spec_trim_trailing_slashes(b.subrange(0, p_end as int)) == b.subrange(
            0,
            p_end as int,
        ));
        assert(b.subrange(0, p_end as int) =~= path@.subrange(0, p_end as int));
    }
    let seg = path.substring_char(0, p_end);
    String::from_str(seg)
}

/// Normalize a path by removing one leading separator, if present.
pub fn normalize_path(path: &str) -> (r: &str)
    ensures
        r@ == spec_normalize(path@),
{
    let len = path.unicode_len();
    if len > 0 && path.get_char(0) == '/' {
        path.substring_char(1, len)
    } else {
        path
    }
}

/// Remove every leading separator of `path`, starting no earlier than `from`.
fn trim_leading_from(path: &str, from: usize) -> (r: String)
    requires
        from <= path@.len(),
    ensures
        r@ == spec_trim_leading_slashes(path@.subrange(from as int, path@.len() as int)),
{
    let len = path.unicode_len();
    let mut k: usize = from;
    while k < len && path.get_char(k) == '/'
        invariant
            from <= k <= len,
            len == path@.len(),
            spec_trim_leading_slashes(path@.subrange(from as int, len as int))
                == spec_trim_leading_slashes(path@.subrange(k as int, len as int)),
        decreases len - k,
    {
        proof {
            let cur = path@.subrange(k as int, len as int);
            assert(cur[0] == '/');
            assert(cur.subrange(1, cur.len() as int) =~= path@.subrange(k + 1, len as int));
        }
        k = k + 1;
    }
    proof {
        let cur = path@.subrange(k as int, len as int);
        assert(spec_trim_leading_slashes(cur) == cur);
    }
    let seg = path.substring_char(k, len);
    String::from_str(seg)
}

/// Join `base` and `file_name` filesystem-style, normalizing the separator
/// between them; an absolute `file_name` replaces `base` entirely.
pub fn build_remote_path(base: &str, file_name: &str) -> (r: String)
    ensures
        r@ == spec_join(base@, file_name@),
{
    let nlen = file_name.unicode_len();
    let blen = base.unicode_len();
    if nlen > 0 && file_name.get_char(0) == '/' {
        String::from_str(file_name)
    } else if blen == 0 {
        String::from_str(file_name)
    } else if base.get_char(blen - 1) == '/' {
        let joined = String::from_str(base).concat(file_name);
        joined
    } else {
        let mut joined = String::from_str(base);
        joined.append("/");
        joined.append(file_name);
        proof {
            reveal_strlit("/");
            assert(base@ + "/"@ + file_name@ =~= base@.push('/') + file_name@);
        }
        joined
    }
}

/// The relative path between `full_path` and `base_path`: the final segment
/// when they are equal, the suffix after the prefix `base_path` with leading
/// separators removed, or `full_path` unchanged when the prefix mismatches.
pub fn get_relative_path(full_path: &str, base_path: &str) -> (r: String)
    ensures
        r@ == spec_relative(full_path@, base_path@),
{
    if str_eq(full_path, base_path) {
        return file_name_of(full_path);
    }
    if str_starts_with(full_path, base_path) {
        trim_leading_from(full_path, base_path.unicode_len())
    } else {
        String::from_str(full_path)
    }
}

/// The relative path between `full_path` and `base_path` when the two may be
/// rooted differently: one leading separator is removed from each before
/// comparing, and a prefix mismatch degrades to the final segment.
pub fn get_root_relative_path(full_path: &str, base_path: &str) -> (r: String)
    ensures
        r@ == spec_root_relative(full_path@, base_path@),
{
    let full = normalize_path(full_path);
    let base = normalize_path(base_path);
    if str_eq(full, base) {
        return file_name_of(full);
    }
    if str_starts_with(full, base) {
        trim_leading_from(full, base.unicode_len())
    } else {
        file_name_of(full)
    }
}

proof fn lemma_trim_leading_no_slash(s: Seq<char>)
    requires
        s.len() == 0 || s[0] != '/',
    ensures
        spec_trim_leading_slashes(s) == s,
{
}

/// Law: mirroring a name under a base and asking for it back is the identity.
/// For a non-empty `base` with no trailing separator and a relative, non-empty
/// `name`, the relative path of `join(base, name)` under `base` is `name`
/// itself: uploading a child under a remote root and re-deriving its relative
/// location recovers exactly the child's path.
pub proof fn lemma_join_then_relative(base: Seq<char>, name: Seq<char>)
    requires
        base.len() > 0,
        base[base.len() - 1] != '/',
        name.len() > 0,
        name[0] != '/',
    ensures
        spec_relative(spec_join(base, name), base) == name,
{
    let joined = spec_join(base, name);
    assert(joined == base.push('/') + name);
    assert(joined.len() == base.len() + 1 + name.len());
    assert(joined != base);
    assert(joined.subrange(0, base.len() as int) =~= base);
    assert(spec_is_prefix(base, joined));
    let suffix = joined.subrange(base.len() as int, joined.len() as int);
    assert(suffix =~= seq!['/'] + name);
    assert(suffix[0] == '/');
    assert(suffix.subrange(1, suffix.len() as int) =~= name);
    lemma_trim_leading_no_slash(name);
}

} // verus!
