//! Paths are '/'-separated strings. Each helper has a spec function over the
//! characters and an executable counterpart proved against it.
use vstd::prelude::*;
use vstd::string::*;

verus! {

/// Number of characters up to and including the last `c` in `p` (0 if none).
pub open spec fn cut_after(p: Seq<char>, c: char) -> nat
    decreases p.len(),
{
    if p.len() == 0 {
        0
    } else if p.last() == c {
        p.len()
    } else {
        cut_after(p.drop_last(), c)
    }
}

/// Length of `p` once trailing separators are removed.
pub open spec fn trimmed_len(p: Seq<char>) -> nat
    decreases p.len(),
{
    if p.len() == 0 {
        0
    } else if p.last() == '/' {
        trimmed_len(p.drop_last())
    } else {
        p.len()
    }
}

/// Last component of a path, trailing separators ignored.
pub open spec fn file_name(p: Seq<char>) -> Seq<char> {
    let t = p.take(trimmed_len(p) as int);
    t.skip(cut_after(t, '/') as int)
}

/// Everything before the last component, separator included.
pub open spec fn parent_prefix(p: Seq<char>) -> Seq<char> {
    p.take(cut_after(p, '/') as int)
}

/// Position of the dot that starts the extension of a file name, if any.
/// A leading dot (hidden file) starts no extension.
pub open spec fn ext_dot(name: Seq<char>) -> int {
    cut_after(name, '.') as int - 1
}

pub open spec fn file_stem(p: Seq<char>) -> Seq<char> {
    let n = file_name(p);
    if ext_dot(n) > 0 { n.take(ext_dot(n)) } else { n }
}

pub open spec fn extension(p: Seq<char>) -> Seq<char> {
    let n = file_name(p);
    if ext_dot(n) > 0 { n.skip(ext_dot(n) + 1) } else { Seq::empty() }
}

/// Appends `b` to `a`: an absolute `b` replaces `a`, and a separator is put
/// between two non-empty parts when `a` does not end in one.
pub open spec fn join(a: Seq<char>, b: Seq<char>) -> Seq<char> {
    if b.len() > 0 && b[0] == '/' {
        b
    } else if a.len() == 0 || a.last() == '/' {
        a + b
    } else {
        a + seq!['/'] + b
    }
}

/// `src` relative to `root`, or `src` itself when `root` is not a prefix of it
/// ending on a component boundary.
pub open spec fn relative_to(src: Seq<char>, root: Seq<char>) -> Seq<char> {
    let n = root.len() as int;
    if n <= src.len() && src.take(n) == root {
        if n == src.len() {
            Seq::empty()
        } else if src[n] == '/' {
            src.skip(n + 1)
        } else if n > 0 && root.last() == '/' {
            src.skip(n)
        } else {
            src
        }
    } else {
        src
    }
}

pub open spec fn same_letter(c: char, lower: char) -> bool {
    c == lower || c as u32 + 32 == lower as u32
}

/// `e` spells the lower-case ASCII word `w`, ignoring case.
pub open spec fn ext_is(e: Seq<char>, w: Seq<char>) -> bool {
    e.len() == w.len() && forall|i: int| 0 <= i < e.len() ==> same_letter(#[trigger] e[i], w[i])
}

pub open spec fn is_png(p: Seq<char>) -> bool {
    ext_is(extension(p), seq!['p', 'n', 'g'])
}

pub open spec fn is_jpeg(p: Seq<char>) -> bool {
    ext_is(extension(p), seq!['j', 'p', 'g']) || ext_is(extension(p), seq!['j', 'p', 'e', 'g'])
}

pub open spec fn is_supported_spec(p: Seq<char>) -> bool {
    is_png(p) || is_jpeg(p)
}

pub open spec fn marker() -> Seq<char> {
    seq!['_', '_', 'o', 'p', 't', 'i', 'm', 'i', 'z', 'e', 'd']
}

pub open spec fn contains_at(p: Seq<char>, w: Seq<char>, i: int) -> bool {
    0 <= i && i + w.len() <= p.len() && p.subrange(i, i + w.len()) == w
}

/// The path names an output of an earlier run.
pub open spec fn is_marked(p: Seq<char>) -> bool {
    exists|i: int| contains_at(p, marker(), i)
}

/// `p` with every double quote removed.
pub open spec fn unquoted(p: Seq<char>) -> Seq<char>
    decreases p.len(),
{
    if p.len() == 0 {
        p
    } else if p.last() == '"' {
        unquoted(p.drop_last())
    } else {
        unquoted(p.drop_last()).push(p.last())
    }
}

/// Default destination beside the source: `{stem}__optimized.{ext}`.
pub open spec fn suffixed(src: Seq<char>) -> Seq<char> {
    parent_prefix(src) + file_stem(src) + marker() + seq!['.'] + extension(src)
}

/// `p` with its extension replaced by `ext` (added when it has none).
pub open spec fn with_extension(p: Seq<char>, ext: Seq<char>) -> Seq<char> {
    let n = file_name(p);
    let base = p.take(trimmed_len(p) as int);
    let keep = if ext_dot(n) > 0 { base.len() - n.len() + ext_dot(n) } else { base.len() as int };
    base.take(keep) + seq!['.'] + ext
}

fn cut_after_exec(s: &str, n: usize, c: char) -> (r: usize)
    requires
        n <= s@.len(),
    ensures
        r == cut_after(s@.take(n as int), c),
        r <= n,
{
    let mut i = n;
    while i > 0 && s.get_char(i - 1) != c
        invariant
            i <= n <= s@.len(),
            cut_after(s@.take(n as int), c) == cut_after(s@.take(i as int), c),
        decreases i,
    {
        assert(s@.take(i as int).drop_last() =~= s@.take(i - 1));
        i = i - 1;
    }
    if i > 0 {
        assert(s@.take(i as int).last() == c);
    }
    proof {
        lemma_cut_le(s@.take(n as int), c);
    }
    i
}

proof fn lemma_cut_le(p: Seq<char>, c: char)
    ensures
        cut_after(p, c) <= p.len(),
    decreases p.len(),
{
    if p.len() > 0 {
        lemma_cut_le(p.drop_last(), c);
    }
}

proof fn lemma_trimmed_le(p: Seq<char>)
    ensures
        trimmed_len(p) <= p.len(),
    decreases p.len(),
{
    if p.len() > 0 {
        lemma_trimmed_le(p.drop_last());
    }
}

fn trimmed_len_exec(s: &str) -> (r: usize)
    ensures
        r == trimmed_len(s@),
        r <= s@.len(),
{
    let n = s.unicode_len();
    let mut i = n;
    assert(s@.take(n as int) =~= s@);
    while i > 0 && s.get_char(i - 1) == '/'
        invariant
            i <= n == s@.len(),
            trimmed_len(s@) == trimmed_len(s@.take(i as int)),
        decreases i,
    {
        assert(s@.take(i as int).drop_last() =~= s@.take(i - 1));
        i = i - 1;
    }
    proof {
        lemma_trimmed_le(s@);
    }
    i
}

/// Start and end of the file name within `s`.
fn file_name_range(s: &str) -> (r: (usize, usize))
    ensures
        r.0 <= r.1 <= s@.len(),
        file_name(s@) == s@.subrange(r.0 as int, r.1 as int),
        r.1 == trimmed_len(s@),
{
    let e = trimmed_len_exec(s);
    let b = cut_after_exec(s, e, '/');
    assert(s@.take(e as int).skip(b as int) =~= s@.subrange(b as int, e as int));
    (b, e)
}

/// Position of the extension dot of the file name `s[b..e]`, plus one (0 if none).
fn dot_cut(s: &str, b: usize, e: usize) -> (r: usize)
    requires
        b <= e <= s@.len(),
    ensures
        r as int == cut_after(s@.subrange(b as int, e as int), '.'),
        r <= e - b,
{
    let mut i = e;
    let ghost name = s@.subrange(b as int, e as int);
    assert(name.take(e - b) =~= name);
    while i > b && s.get_char(i - 1) != '.'
        invariant
            b <= i <= e <= s@.len(),
            name == s@.subrange(b as int, e as int),
            cut_after(name, '.') == cut_after(name.take(i - b), '.'),
        decreases i,
    {
        assert(name.take(i - b).drop_last() =~= name.take(i - 1 - b));
        i = i - 1;
    }
    if i > b {
        assert(name.take(i - b).last() == '.');
    }
    proof {
        lemma_cut_le(name, '.');
    }
    i - b
}

/// Range of the extension within `s` (empty when there is none).
fn extension_range(s: &str) -> (r: (usize, usize))
    ensures
        r.0 <= r.1 <= s@.len(),
        extension(s@) == s@.subrange(r.0 as int, r.1 as int),
{
    let (b, e) = file_name_range(s);
    let d = dot_cut(s, b, e);
    if d > 1 {
        assert(s@.subrange(b as int, e as int).skip(d as int) =~= s@.subrange(b + d, e as int));
        (b + d, e)
    } else {
        (e, e)
    }
}

fn letter_matches(s: &str, b: usize, e: usize, w: &str) -> (r: bool)
    requires
        b <= e <= s@.len(),
    ensures
        r == ext_is(s@.subrange(b as int, e as int), w@),
{
    let n = w.unicode_len();
    if e - b != n {
        return false;
    }
    let mut i: usize = 0;
    while i < n
        invariant
            e - b == n == w@.len(),
            b <= e <= s@.len(),
            i <= n,
            forall|k: int| 0 <= k < i ==> same_letter(#[trigger] s@.subrange(b as int, e as int)[k], w@[k]),
        decreases n - i,
    {
        let c = s.get_char(b + i);
        let l = w.get_char(i);
        if !(c == l || (c as u32) + 32 == l as u32) {
            assert(!same_letter(s@.subrange(b as int, e as int)[i as int], w@[i as int]));
            return false;
        }
        i = i + 1;
    }
    true
}

/// True for a path whose extension is png, jpg or jpeg, in any case.
pub fn is_supported(p: &str) -> (r: bool)
    ensures
        r == is_supported_spec(p@),
{
    is_png_exec(p) || is_jpeg_exec(p)
}

pub fn is_png_exec(p: &str) -> (r: bool)
    ensures
        r == is_png(p@),
{
    let (b, e) = extension_range(p);
    proof {
        reveal_strlit("png");
    }
    letter_matches(p, b, e, "png")
}

pub fn is_jpeg_exec(p: &str) -> (r: bool)
    ensures
        r == is_jpeg(p@),
{
    let (b, e) = extension_range(p);
    proof {
        reveal_strlit("jpg");
        reveal_strlit("jpeg");
    }
    letter_matches(p, b, e, "jpg") || letter_matches(p, b, e, "jpeg")
}

/// Where the output of `src` goes, found under `root`.
pub open spec fn resolve_spec(
    src: Seq<char>,
    root: Seq<char>,
    root_is_dir: bool,
    out_dir: Option<Seq<char>>,
    replace: bool,
) -> Seq<char> {
    match out_dir {
        Some(o) => if root_is_dir {
            join(join(o, file_name(root)), relative_to(src, root))
        } else {
            join(o, file_name(src))
        },
        None => if replace {
            src
        } else {
            suffixed(src)
        },
    }
}

pub open spec fn opt_view(o: Option<String>) -> Option<Seq<char>> {
    match o {
        Some(s) => Some(s@),
        None => None,
    }
}

fn piece(s: &str, b: usize, e: usize) -> (r: &str)
    requires
        b <= e <= s@.len(),
    ensures
        r@ == s@.subrange(b as int, e as int),
{
    s.substring_char(b, e)
}

/// The path with every double quote removed.
pub fn clean_task_path(p: &str) -> (r: String)
    ensures
        r@ == unquoted(p@),
{
    let n = p.unicode_len();
    let mut r = String::new();
    let mut i: usize = 0;
    assert(p@.take(0) =~= Seq::<char>::empty());
    while i < n
        invariant
            i <= n == p@.len(),
            r@ == unquoted(p@.take(i as int)),
        decreases n - i,
    {
        let c = p.get_char(i);
        assert(p@.take(i + 1).drop_last() =~= p@.take(i as int));
        if c != '"' {
            r.append(piece(p, i, i + 1));
        }
        i = i + 1;
    }
    assert(p@.take(n as int) =~= p@);
    r
}

/// True when the path holds the marker of an earlier run's output.
pub fn is_marked_processed(p: &str) -> (r: bool)
    ensures
        r == is_marked(p@),
{
    let m = "__optimized";
    proof {
        reveal_strlit("__optimized");
        assert(m@ =~= marker());
    }
    let n = p.unicode_len();
    let k = m.unicode_len();
    if n < k {
        return false;
    }
    let mut i: usize = 0;
    while i <= n - k
        invariant
            n == p@.len(),
            k == m@.len() == marker().len(),
            m@ == marker(),
            k <= n,
            i <= n - k + 1,
            forall|j: int| 0 <= j < i ==> !contains_at(p@, marker(), j),
        decreases n - k + 1 - i,
    {
        let mut j: usize = 0;
        while j < k && p.get_char(i + j) == m.get_char(j)
            invariant
                n == p@.len(),
                k == m@.len(),
                k <= n,
                i <= n - k,
                j <= k,
                forall|t: int| 0 <= t < j ==> p@[i + t] == m@[t],
            decreases k - j,
        {
            j = j + 1;
        }
        if j == k {
            assert(p@.subrange(i as int, i + k) =~= marker());
            assert(contains_at(p@, marker(), i as int));
            return true;
        }
        assert(p@.subrange(i as int, i + k)[j as int] != marker()[j as int]);
        i = i + 1;
    }
    assert forall|j: int| !contains_at(p@, marker(), j) by {
        if 0 <= j && j + k <= n {
            assert(j < i);
        }
    }
    false
}

fn join_exec(a: String, b: &str) -> (r: String)
    ensures
        r@ == join(a@, b@),
{
    let nb = b.unicode_len();
    if nb > 0 && b.get_char(0) == '/' {
        return String::from_str(b);
    }
    let na = a.as_str().unicode_len();
    let mut r = a;
    if na == 0 || r.as_str().get_char(na - 1) == '/' {
        r.append(b);
    } else {
        proof {
            reveal_strlit("/");
        }
        r.append("/");
        r.append(b);
        assert(r@ =~= a@ + seq!['/'] + b@);
    }
    r
}

/// Range of `relative_to(src, root)` within `src`.
fn relative_range(src: &str, root: &str) -> (r: (usize, usize))
    ensures
        r.0 <= r.1 <= src@.len(),
        relative_to(src@, root@) == src@.subrange(r.0 as int, r.1 as int),
{
    let ns = src.unicode_len();
    let n = root.unicode_len();
    assert(src@.subrange(0, ns as int) =~= src@);
    if n > ns {
        return (0, ns);
    }
    let mut j: usize = 0;
    while j < n && src.get_char(j) == root.get_char(j)
        invariant
            n == root@.len(),
            n <= ns == src@.len(),
            j <= n,
            forall|t: int| 0 <= t < j ==> src@[t] == root@[t],
        decreases n - j,
    {
        j = j + 1;
    }
    if j < n {
        assert(src@.take(n as int)[j as int] != root@[j as int]);
        return (0, ns);
    }
    assert(src@.take(n as int) =~= root@);
    if n == ns {
        (ns, ns)
    } else if src.get_char(n) == '/' {
        assert(src@.skip(n + 1) =~= src@.subrange(n + 1, ns as int));
        (n + 1, ns)
    } else if n > 0 && root.get_char(n - 1) == '/' {
        assert(src@.skip(n as int) =~= src@.subrange(n as int, ns as int));
        (n, ns)
    } else {
        (0, ns)
    }
}

fn suffixed_exec(src: &str) -> (r: String)
    ensures
        r@ == suffixed(src@),
{
    let ns = src.unicode_len();
    let cut = cut_after_exec(src, ns, '/');
    assert(src@.take(ns as int) =~= src@);
    let (b, e) = file_name_range(src);
    let d = dot_cut(src, b, e);
    let ghost name = src@.subrange(b as int, e as int);
    let mut r = String::from_str(piece(src, 0, cut));
    assert(src@.subrange(0, cut as int) =~= parent_prefix(src@));
    if d > 1 {
        r.append(piece(src, b, b + d - 1));
        assert(name.take(d - 1) =~= src@.subrange(b as int, b + d - 1));
    } else {
        r.append(piece(src, b, e));
    }
    proof {
        reveal_strlit("__optimized.");
        assert("__optimized."@ =~= marker() + seq!['.']);
    }
    r.append("__optimized.");
    let (xb, xe) = extension_range(src);
    r.append(piece(src, xb, xe));
    assert(r@ =~= parent_prefix(src@) + file_stem(src@) + marker() + seq!['.'] + extension(src@));
    r
}

/// Where the output of `src`, found under `root`, is written.
pub fn resolve_output_path(src: &str, root: &str, root_is_dir: bool, output_dir: &Option<String>, replace: bool) -> (r: String)
    ensures
        r@ == resolve_spec(src@, root@, root_is_dir, opt_view(*output_dir), replace),
{
    match output_dir {
        Some(o) => {
            if root_is_dir {
                let (b, e) = file_name_range(root);
                let base = join_exec(o.clone(), piece(root, b, e));
                let (rb, re) = relative_range(src, root);
                join_exec(base, piece(src, rb, re))
            } else {
                let (b, e) = file_name_range(src);
                join_exec(o.clone(), piece(src, b, e))
            }
        },
        None => {
            if replace {
                String::from_str(src)
            } else {
                suffixed_exec(src)
            }
        },
    }
}

/// `p` with its extension replaced by `ext`: the sibling file of a derived format.
pub fn sibling_path(p: &str, ext: &str) -> (r: String)
    ensures
        r@ == with_extension(p@, ext@),
{
    let (b, e) = file_name_range(p);
    let d = dot_cut(p, b, e);
    let keep = if d > 1 { b + d - 1 } else { e };
    let mut r = String::from_str(piece(p, 0, keep));
    assert(p@.take(e as int).take(keep as int) =~= p@.subrange(0, keep as int));
    proof {
        reveal_strlit(".");
    }
    r.append(".");
    r.append(ext);
    r
}

} // verus!
