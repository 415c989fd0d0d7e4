//! A model of Unix paths as `/`-separated text, matching `std::path::Path`:
//! trailing separators and `.` components are ignored when looking for the
//! last component, `..` has no file name, a leading-dot name has no
//! extension, and `parent`/`with_file_name`/`join` behave as their `Path`
//! namesakes.

use vstd::prelude::*;
use crate::text::{chars_of, string_of, sub_chars, push_all};

verus! {

// ---------------------------------------------------------------------------
// Specifications
// ---------------------------------------------------------------------------

/// `s` with trailing separators and trailing `/.` components removed (a
/// lone `/` or `.` stays).
pub open spec fn strip_tail(s: Seq<char>) -> Seq<char>
    decreases s.len(),
{
    if s.len() > 1 && s.last() == '/' {
        strip_tail(s.drop_last())
    } else if s.len() >= 2 && s.last() == '.' && s[s.len() - 2] == '/' {
        strip_tail(s.drop_last())
    } else {
        s
    }
}

/// Index of the last `c` in `s`.
pub open spec fn last_index_of(s: Seq<char>, c: char) -> Option<int>
    decreases s.len(),
{
    if s.len() == 0 {
        None
    } else if s.last() == c {
        Some(s.len() - 1)
    } else {
        last_index_of(s.drop_last(), c)
    }
}

/// Text of the last component (possibly empty, `.` or `..`).
pub open spec fn last_component(s: Seq<char>) -> Seq<char> {
    let t = strip_tail(s);
    match last_index_of(t, '/') {
        None => t,
        Some(i) => t.skip(i + 1),
    }
}

pub open spec fn dot() -> Seq<char> {
    seq!['.']
}

pub open spec fn dot_dot() -> Seq<char> {
    seq!['.', '.']
}

/// `Path::file_name`.
pub open spec fn file_name_of(s: Seq<char>) -> Option<Seq<char>> {
    let n = last_component(s);
    if n.len() == 0 || n == dot() || n == dot_dot() {
        None
    } else {
        Some(n)
    }
}

/// `Path::parent`.
pub open spec fn parent_of(s: Seq<char>) -> Option<Seq<char>> {
    let t = strip_tail(s);
    if t.len() == 0 || t == seq!['/'] {
        None
    } else {
        match last_index_of(t, '/') {
            None => Some(Seq::<char>::empty()),
            Some(i) => Some(strip_tail(t.take(i + 1))),
        }
    }
}

/// Split of a file name into stem and extension at its last `.`; a name
/// whose only `.` is its first character has no extension.
pub open spec fn stem_ext(n: Seq<char>) -> (Seq<char>, Option<Seq<char>>) {
    match last_index_of(n, '.') {
        None => (n, None),
        Some(j) => if j == 0 {
            (n, None)
        } else {
            (n.take(j), Some(n.skip(j + 1)))
        },
    }
}

/// `Path::file_stem`.
pub open spec fn file_stem_of(s: Seq<char>) -> Option<Seq<char>> {
    match file_name_of(s) {
        None => None,
        Some(n) => Some(stem_ext(n).0),
    }
}

/// `Path::extension`.
pub open spec fn extension_of(s: Seq<char>) -> Option<Seq<char>> {
    match file_name_of(s) {
        None => None,
        Some(n) => stem_ext(n).1,
    }
}

/// `PathBuf::push` / `Path::join`: an absolute `name` replaces `base`;
/// otherwise a separator is inserted when `base` is non-empty and does not
/// already end with one.
pub open spec fn join_of(base: Seq<char>, name: Seq<char>) -> Seq<char> {
    if name.len() > 0 && name[0] == '/' {
        name
    } else if base.len() == 0 || base.last() == '/' {
        base + name
    } else {
        base + seq!['/'] + name
    }
}

/// `Path::with_file_name`: the last component replaced by `name` (or
/// `name` appended when the path has no file name).
pub open spec fn with_file_name_of(s: Seq<char>, name: Seq<char>) -> Seq<char> {
    match file_name_of(s) {
        Some(_) => join_of(parent_of(s).unwrap(), name),
        None => join_of(s, name),
    }
}

/// `{stem}{suffix}` followed by `.{ext}` when the path has an extension
/// (an absent stem counts as empty).
pub open spec fn suffixed_name(s: Seq<char>, suffix: Seq<char>) -> Seq<char> {
    let stem = match file_stem_of(s) {
        Some(t) => t,
        None => Seq::<char>::empty(),
    };
    match extension_of(s) {
        Some(e) => stem + suffix + seq!['.'] + e,
        None => stem + suffix,
    }
}

/// `head` with one more part: empty parts and `.` parts add nothing.
pub open spec fn add_part(head: Seq<char>, part: Seq<char>) -> Seq<char> {
    if part.len() == 0 || part == dot() {
        head
    } else if head.len() == 0 {
        part
    } else {
        head + seq!['/'] + part
    }
}

/// The non-empty, non-`.` parts of `s` between separators, joined by
/// single separators.
pub open spec fn parts_key(s: Seq<char>) -> Seq<char>
    decreases s.len(),
{
    match last_index_of(s, '/') {
        None => add_part(Seq::<char>::empty(), s),
        Some(i) => if 0 <= i < s.len() {
            add_part(parts_key(s.take(i)), s.skip(i + 1))
        } else {
            Seq::<char>::empty()
        },
    }
}

/// `s` begins with a `.` component (and is relative).
pub open spec fn starts_cur_dir(s: Seq<char>) -> bool {
    s == dot() || (s.len() >= 2 && s[0] == '.' && s[1] == '/')
}

/// The components of `s` as `Path::components` yields them, rejoined: a
/// leading `/` for the root, a leading `.` for a relative path that
/// starts with one, then the other components without empty or `.`
/// ones. Two paths are equal as `Path`s exactly when their keys are equal.
pub open spec fn path_key(s: Seq<char>) -> Seq<char> {
    let body = parts_key(s);
    if s.len() > 0 && s[0] == '/' {
        seq!['/'] + body
    } else if starts_cur_dir(s) {
        if body.len() == 0 {
            dot()
        } else {
            dot() + seq!['/'] + body
        }
    } else {
        body
    }
}

/// `path.parent().map(|p| p.join(name)).unwrap_or(name)`: `name` placed
/// next to `path`.
pub open spec fn sibling_of(s: Seq<char>, name: Seq<char>) -> Seq<char> {
    match parent_of(s) {
        Some(p) => join_of(p, name),
        None => name,
    }
}

// ---------------------------------------------------------------------------
// Executable operations on characters
// ---------------------------------------------------------------------------

/// Length of `strip_tail(v)` (it is always a prefix of `v`).
fn strip_tail_len(v: &[char], n: usize) -> (m: usize)
    requires
        n <= v@.len(),
    ensures
        m <= n,
        v@.take(m as int) == strip_tail(v@.take(n as int)),
{
    let mut m = n;
    while (m > 1 && v[m - 1] == '/') || (m >= 2 && v[m - 1] == '.' && v[m - 2] == '/')
        invariant
            m <= n <= v@.len(),
            strip_tail(v@.take(m as int)) == strip_tail(v@.take(n as int)),
        decreases m,
    {
        assert(v@.take(m as int).drop_last() =~= v@.take(m - 1));
        m -= 1;
    }
    m
}

/// Index of the last `c` in `v[..n]`.
fn last_index_exec(v: &[char], n: usize, c: char) -> (r: Option<usize>)
    requires
        n <= v@.len(),
    ensures
        r matches Some(i) ==> last_index_of(v@.take(n as int), c) == Some(i as int) && i < n
            && v@[i as int] == c,
        r is None ==> last_index_of(v@.take(n as int), c) is None,
{
    let mut m = n;
    while m > 0
        invariant
            m <= n <= v@.len(),
            last_index_of(v@.take(n as int), c) == last_index_of(v@.take(m as int), c),
        decreases m,
    {
        assert(v@.take(m as int).drop_last() =~= v@.take(m - 1));
        if v[m - 1] == c {
            return Some(m - 1);
        }
        m -= 1;
    }
    None
}

/// `(t, name_start)`: `t` is the length of `strip_tail(v)` and the last
/// component is `v[name_start..t]`.
fn last_component_bounds(v: &[char]) -> (r: (usize, usize))
    ensures
        r.1 <= r.0 <= v@.len(),
        v@.take(r.0 as int) == strip_tail(v@),
        v@.subrange(r.1 as int, r.0 as int) == last_component(v@),
        r.1 > 0 ==> last_index_of(strip_tail(v@), '/') == Some(r.1 - 1),
        r.1 == 0 ==> last_index_of(strip_tail(v@), '/') is None,
{
    assert(v@.take(v@.len() as int) =~= v@);
    let t = strip_tail_len(v, v.len());
    let ghost ts = v@.take(t as int);
    match last_index_exec(v, t, '/') {
        None => {
            assert(v@.subrange(0, t as int) =~= ts);
            (t, 0)
        },
        Some(i) => {
            assert(v@.subrange(i + 1, t as int) =~= ts.skip(i + 1));
            (t, i + 1)
        },
    }
}

fn is_dot_or_dot_dot(v: &[char], a: usize, b: usize) -> (r: bool)
    requires
        a <= b <= v@.len(),
    ensures
        r == (v@.subrange(a as int, b as int) == dot() || v@.subrange(a as int, b as int)
            == dot_dot()),
{
    let ghost s = v@.subrange(a as int, b as int);
    if b - a == 1 {
        let r = v[a] == '.';
        assert(r ==> s =~= dot());
        assert(s.len() != dot_dot().len());
        assert(s == dot() ==> s[0] == '.');
        r
    } else if b - a == 2 {
        let r = v[a] == '.' && v[a + 1] == '.';
        assert(r ==> s =~= dot_dot());
        assert(s == dot_dot() ==> s[0] == '.' && s[1] == '.');
        r
    } else {
        assert(s.len() != dot().len() && s.len() != dot_dot().len());
        false
    }
}

/// `add_part` on characters.
fn add_part_chars(head: &mut Vec<char>, v: &[char], from: usize, to: usize)
    requires
        from <= to <= v@.len(),
    ensures
        final(head)@ == add_part(old(head)@, v@.subrange(from as int, to as int)),
{
    let ghost part = v@.subrange(from as int, to as int);
    if to == from {
        return;
    }
    if to - from == 1 && v[from] == '.' {
        assert(part =~= dot());
        return;
    }
    assert(part != dot()) by {
        if part == dot() {
            assert(part.len() == 1 && part[0] == '.');
        }
    }
    if head.len() > 0 {
        head.push('/');
    }
    let p = sub_chars(v, from, to);
    push_all(head, &p);
}

proof fn lemma_parts_key_step(v: Seq<char>, start: int, i: int)
    requires
        0 <= start <= i <= v.len(),
        start > 0 ==> v[start - 1] == '/',
        forall|k: int| start <= k < i ==> v[k] != '/',
    ensures
        parts_key(v.take(i)) == add_part(
            if start == 0 { Seq::<char>::empty() } else { parts_key(v.take(start - 1)) },
            v.subrange(start, i),
        ),
{
    let a = v.take(start);
    let b = v.subrange(start, i);
    assert(v.take(i) =~= a + b);
    assert(!b.contains('/')) by {
        if b.contains('/') {
            let k = choose|k: int| 0 <= k < b.len() && b[k] == '/';
            assert(v[start + k] == '/');
        }
    }
    lemma_last_index_skips_free_tail(a, b, '/');
    if start == 0 {
        assert(a.len() == 0);
        assert(v.take(i) =~= b);
    } else {
        assert(a =~= a.drop_last().push('/'));
        assert(last_index_of(a, '/') == Some(start - 1));
        assert(v.take(i).take(start - 1) =~= v.take(start - 1));
        assert(v.take(i).skip(start) =~= b);
    }
}

/// `parts_key(v)` as characters.
fn parts_key_chars(v: &[char]) -> (r: Vec<char>)
    ensures
        r@ == parts_key(v@),
{
    let mut out: Vec<char> = Vec::new();
    let mut start: usize = 0;
    let mut i: usize = 0;
    while i < v.len()
        invariant
            start <= i <= v@.len(),
            start > 0 ==> v@[start - 1] == '/',
            forall|k: int| start <= k < i ==> v@[k] != '/',
            out@ == (if start == 0 { Seq::<char>::empty() } else { parts_key(v@.take(start - 1)) }),
        decreases v.len() - i,
    {
        if v[i] == '/' {
            proof {
                lemma_parts_key_step(v@, start as int, i as int);
            }
            add_part_chars(&mut out, v, start, i);
            start = i + 1;
        }
        i += 1;
    }
    proof {
        lemma_parts_key_step(v@, start as int, v@.len() as int);
    }
    assert(v@.take(v@.len() as int) =~= v@);
    add_part_chars(&mut out, v, start, v.len());
    out
}

/// `path_key(v)` as characters.
pub fn path_key_chars(v: &[char]) -> (r: Vec<char>)
    ensures
        r@ == path_key(v@),
{
    let body = parts_key_chars(v);
    if v.len() > 0 && v[0] == '/' {
        let mut out: Vec<char> = Vec::new();
        out.push('/');
        push_all(&mut out, &body);
        assert(out@ =~= seq!['/'] + body@);
        out
    } else if (v.len() == 1 && v[0] == '.') || (v.len() >= 2 && v[0] == '.' && v[1] == '/') {
        assert(starts_cur_dir(v@)) by {
            if v.len() == 1 {
                assert(v@ =~= dot());
            }
        }
        let mut out: Vec<char> = Vec::new();
        out.push('.');
        if body.len() > 0 {
            out.push('/');
            push_all(&mut out, &body);
            assert(out@ =~= dot() + seq!['/'] + body@);
        } else {
            assert(out@ =~= dot());
        }
        out
    } else {
        assert(!starts_cur_dir(v@)) by {
            if v@ == dot() {
                assert(v@.len() == 1 && v@[0] == '.');
            }
        }
        body
    }
}

/// `file_name_of(v)` as characters.
pub fn file_name_chars(v: &[char]) -> (r: Option<Vec<char>>)
    ensures
        match file_name_of(v@) {
            Some(n) => r matches Some(x) && x@ == n,
            None => r is None,
        },
{
    let (t, a) = last_component_bounds(v);
    if a == t || is_dot_or_dot_dot(v, a, t) {
        return None;
    }
    Some(sub_chars(v, a, t))
}

/// `parent_of(v)` as characters.
pub fn parent_chars(v: &[char]) -> (r: Option<Vec<char>>)
    ensures
        match parent_of(v@) {
            Some(p) => r matches Some(x) && x@ == p,
            None => r is None,
        },
{
    let (t, a) = last_component_bounds(v);
    let ghost ts = strip_tail(v@);
    if t == 0 {
        return None;
    }
    if t == 1 && v[0] == '/' {
        assert(ts =~= seq!['/']);
        return None;
    }
    assert(ts != seq!['/']) by {
        if ts == seq!['/'] {
            assert(ts.len() == 1 && ts[0] == '/');
        }
    }
    if a == 0 {
        return Some(Vec::new());
    }
    let m = strip_tail_len(v, a);
    assert(ts.take(a as int) =~= v@.take(a as int));
    Some(sub_chars(v, 0, m))
}

/// Stem and extension of a file name.
pub fn stem_ext_chars(n: &[char]) -> (r: (Vec<char>, Option<Vec<char>>))
    ensures
        r.0@ == stem_ext(n@).0,
        match stem_ext(n@).1 {
            Some(e) => r.1 matches Some(x) && x@ == e,
            None => r.1 is None,
        },
{
    assert(n@.take(n@.len() as int) =~= n@);
    match last_index_exec(n, n.len(), '.') {
        None => (sub_chars(n, 0, n.len()), None),
        Some(j) => {
            if j == 0 {
                (sub_chars(n, 0, n.len()), None)
            } else {
                assert(n@.skip(j + 1) =~= n@.subrange(j + 1, n@.len() as int));
                assert(n@.take(j as int) =~= n@.subrange(0, j as int));
                (sub_chars(n, 0, j), Some(sub_chars(n, j + 1, n.len())))
            }
        },
    }
}

/// `join_of(base, name)` as characters.
pub fn join_chars(base: &[char], name: &[char]) -> (r: Vec<char>)
    ensures
        r@ == join_of(base@, name@),
{
    let mut out: Vec<char> = Vec::new();
    if name.len() > 0 && name[0] == '/' {
        push_all(&mut out, name);
        return out;
    }
    push_all(&mut out, base);
    if base.len() > 0 && base[base.len() - 1] != '/' {
        out.push('/');
    }
    push_all(&mut out, name);
    out
}

// ---------------------------------------------------------------------------
// `str` entry points
// ---------------------------------------------------------------------------

/// `Path::file_name`.
pub fn file_name(path: &str) -> (r: Option<String>)
    ensures
        match file_name_of(path@) {
            Some(n) => r matches Some(x) && x@ == n,
            None => r is None,
        },
{
    let v = chars_of(path);
    match file_name_chars(&v) {
        Some(n) => Some(string_of(n)),
        None => None,
    }
}

/// `Path::parent`.
pub fn parent(path: &str) -> (r: Option<String>)
    ensures
        match parent_of(path@) {
            Some(p) => r matches Some(x) && x@ == p,
            None => r is None,
        },
{
    let v = chars_of(path);
    match parent_chars(&v) {
        Some(p) => Some(string_of(p)),
        None => None,
    }
}

/// `Path::file_stem`.
pub fn file_stem(path: &str) -> (r: Option<String>)
    ensures
        match file_stem_of(path@) {
            Some(n) => r matches Some(x) && x@ == n,
            None => r is None,
        },
{
    let v = chars_of(path);
    match file_name_chars(&v) {
        Some(n) => {
            let (stem, _) = stem_ext_chars(&n);
            Some(string_of(stem))
        },
        None => None,
    }
}

/// `Path::extension`.
pub fn extension(path: &str) -> (r: Option<String>)
    ensures
        match extension_of(path@) {
            Some(n) => r matches Some(x) && x@ == n,
            None => r is None,
        },
{
    let v = chars_of(path);
    match file_name_chars(&v) {
        Some(n) => {
            let (_, ext) = stem_ext_chars(&n);
            match ext {
                Some(e) => Some(string_of(e)),
                None => None,
            }
        },
        None => None,
    }
}

/// `Path::join`.
pub fn join(base: &str, name: &str) -> (r: String)
    ensures
        r@ == join_of(base@, name@),
{
    let b = chars_of(base);
    let n = chars_of(name);
    string_of(join_chars(&b, &n))
}

/// `with_file_name_of` on characters.
pub fn with_file_name_chars(v: &[char], name: &[char]) -> (r: Vec<char>)
    ensures
        r@ == with_file_name_of(v@, name@),
{
    match file_name_chars(v) {
        Some(_) => {
            let p = parent_chars(v);
            proof {
                lemma_file_name_has_parent(v@);
            }
            match p {
                Some(p) => join_chars(&p, name),
                None => {
                    assert(false);
                    Vec::new()
                },
            }
        },
        None => join_chars(v, name),
    }
}

/// `Path::with_file_name`.
pub fn with_file_name(path: &str, name: &str) -> (r: String)
    ensures
        r@ == with_file_name_of(path@, name@),
{
    let v = chars_of(path);
    let n = chars_of(name);
    string_of(with_file_name_chars(&v, &n))
}

/// `sibling_of` on characters.
pub fn sibling_chars(v: &[char], name: &[char]) -> (r: Vec<char>)
    ensures
        r@ == sibling_of(v@, name@),
{
    match parent_chars(v) {
        Some(p) => join_chars(&p, name),
        None => sub_chars(name, 0, name.len()),
    }
}

/// `suffixed_name` on characters.
pub fn suffixed_name_chars(v: &[char], suffix: &str) -> (r: Vec<char>)
    ensures
        r@ == suffixed_name(v@, suffix@),
{
    match file_name_chars(v) {
        Some(n) => {
            let (stem, ext) = stem_ext_chars(&n);
            let mut out = stem;
            let sfx = chars_of(suffix);
            push_all(&mut out, &sfx);
            match ext {
                Some(e) => {
                    out.push('.');
                    push_all(&mut out, &e);
                    assert(out@ =~= stem_ext(n@).0 + suffix@ + seq!['.'] + e@);
                },
                None => {},
            }
            out
        },
        None => {
            let out = chars_of(suffix);
            assert(out@ =~= Seq::<char>::empty() + suffix@);
            out
        },
    }
}

/// A plain path component: non-empty, without a separator, and neither
/// `.` nor `..`.
pub open spec fn is_plain(name: Seq<char>) -> bool {
    name.len() > 0 && !name.contains('/') && name != dot() && name != dot_dot()
}

/// `s`'s stem (when it has a file name), else `dflt`.
pub open spec fn stem_or(s: Seq<char>, dflt: Seq<char>) -> Seq<char> {
    match file_stem_of(s) {
        Some(t) => t,
        None => dflt,
    }
}

proof fn lemma_last_index_found(t: Seq<char>, c: char)
    ensures
        last_index_of(t, c) matches Some(i) ==> 0 <= i < t.len() && t[i] == c && forall|k: int|
            i < k < t.len() ==> t[k] != c,
        last_index_of(t, c) is None ==> !t.contains(c),
    decreases t.len(),
{
    if t.len() > 0 {
        lemma_last_index_found(t.drop_last(), c);
        if t.last() != c {
            if last_index_of(t.drop_last(), c) is None {
                assert forall|k: int| 0 <= k < t.len() implies t[k] != c by {
                    if k < t.len() - 1 {
                        assert(t[k] == t.drop_last()[k]);
                    }
                }
            } else {
                let i = last_index_of(t.drop_last(), c)->Some_0;
                assert forall|k: int| i < k < t.len() implies t[k] != c by {
                    if k < t.len() - 1 {
                        assert(t[k] == t.drop_last()[k]);
                    }
                }
            }
        }
    }
}

proof fn lemma_last_index_skips_free_tail(a: Seq<char>, b: Seq<char>, c: char)
    requires
        !b.contains(c),
    ensures
        last_index_of(a + b, c) == last_index_of(a, c),
    decreases b.len(),
{
    if b.len() == 0 {
        assert(a + b =~= a);
    } else {
        assert((a + b).drop_last() =~= a + b.drop_last());
        assert((a + b).last() == b.last());
        assert(!b.drop_last().contains(c)) by {
            if b.drop_last().contains(c) {
                let k = choose|k: int| 0 <= k < b.drop_last().len() && b.drop_last()[k] == c;
                assert(b[k] == c);
            }
        }
        lemma_last_index_skips_free_tail(a, b.drop_last(), c);
    }
}

/// A file name never contains a separator.
pub proof fn lemma_file_name_is_plain(s: Seq<char>)
    ensures
        file_name_of(s) matches Some(n) ==> is_plain(n),
{
    let t = strip_tail(s);
    lemma_last_index_found(t, '/');
    if file_name_of(s) is Some {
        let n = last_component(s);
        match last_index_of(t, '/') {
            None => {},
            Some(i) => {
                assert forall|k: int| 0 <= k < n.len() implies n[k] != '/' by {
                    assert(n[k] == t[i + 1 + k]);
                }
            },
        }
    }
}

/// `q + name`, with `q` empty or ending in a separator, has `name` as its
/// last component when `name` is plain.
proof fn lemma_plain_tail(q: Seq<char>, name: Seq<char>)
    requires
        is_plain(name),
        q.len() == 0 || q.last() == '/',
    ensures
        strip_tail(q + name) == q + name,
        file_name_of(q + name) == Some(name),
        q.len() > 0 ==> parent_of(q + name) == Some(strip_tail(q)),
{
    let t = q + name;
    assert(t.last() == name.last());
    assert(name.last() != '/') by {
        assert(name[name.len() - 1] == name.last());
    }
    if t.len() >= 2 && t.last() == '.' && t[t.len() - 2] == '/' {
        if name.len() >= 2 {
            assert(t[t.len() - 2] == name[name.len() - 2]);
        } else {
            assert(name =~= dot());
        }
    }
    assert(strip_tail(t) == t);
    lemma_last_index_skips_free_tail(q, name, '/');
    if q.len() == 0 {
        assert(t =~= name);
        assert(last_index_of(q, '/') is None);
    } else {
        assert(q =~= q.drop_last().push('/'));
        assert(last_index_of(q, '/') == Some(q.len() - 1));
        assert(t.skip(q.len() as int) =~= name);
        assert(t.take(q.len() as int) =~= q);
        assert(t != seq!['/']) by {
            assert(t.len() >= 2);
        }
    }
}

/// Trailing separators and trailing `/.` components do not change a
/// path's components.
pub proof fn lemma_path_key_strip_tail(s: Seq<char>)
    ensures
        path_key(strip_tail(s)) == path_key(s),
    decreases s.len(),
{
    if s.len() > 1 && s.last() == '/' {
        let t = s.drop_last();
        assert(last_index_of(s, '/') == Some(s.len() - 1));
        assert(s.take(s.len() - 1) =~= t);
        assert(s.skip(s.len() as int) =~= Seq::<char>::empty());
        assert(parts_key(s) == parts_key(t));
        assert(t[0] == s[0]);
        if t.len() >= 2 {
            assert(t[1] == s[1]);
        }
        if t.len() == 1 && t[0] == '.' {
            assert(t =~= dot());
        }
        if t == dot() {
            assert(s[0] == '.' && s[1] == '/');
        }
        lemma_path_key_strip_tail(t);
    } else if s.len() >= 2 && s.last() == '.' && s[s.len() - 2] == '/' {
        let t = s.drop_last();
        let u = s.take(s.len() - 2);
        assert(last_index_of(s, '/') == Some(s.len() - 2)) by {
            assert(s =~= s.drop_last().push('.'));
            assert(s.drop_last() =~= s.drop_last().drop_last().push('/'));
        }
        assert(s.take(s.len() - 2) =~= u);
        assert(s.skip(s.len() - 1) =~= dot());
        assert(last_index_of(t, '/') == Some(t.len() - 1));
        assert(t.take(t.len() - 1) =~= u);
        assert(t.skip(t.len() as int) =~= Seq::<char>::empty());
        assert(parts_key(s) == parts_key(t));
        assert(t[0] == s[0]);
        if t.len() >= 2 {
            assert(t[1] == s[1]);
        }
        assert(s != dot());
        assert(t != dot());
        lemma_path_key_strip_tail(t);
    }
}

/// Stripping the tail twice is stripping it once.
pub proof fn lemma_strip_tail_idempotent(s: Seq<char>)
    ensures
        strip_tail(strip_tail(s)) == strip_tail(s),
    decreases s.len(),
{
    if s.len() > 1 && s.last() == '/' {
        lemma_strip_tail_idempotent(s.drop_last());
    } else if s.len() >= 2 && s.last() == '.' && s[s.len() - 2] == '/' {
        lemma_strip_tail_idempotent(s.drop_last());
    }
}

/// Joining a plain name makes it the file name; the parent of the result
/// is the base without its trailing separators and `/.` components.
pub proof fn lemma_join_sets_file_name(base: Seq<char>, name: Seq<char>)
    requires
        is_plain(name),
    ensures
        file_name_of(join_of(base, name)) == Some(name),
        parent_of(join_of(base, name)) == Some(strip_tail(base)),
        base.len() > 0 && strip_tail(base) == base && base != seq!['/'] ==> parent_of(
            join_of(base, name),
        ) == Some(base),
{
    assert(name[0] != '/');
    if base.len() == 0 {
        lemma_plain_tail(base, name);
        lemma_file_name_is_plain(name);
        assert(base + name =~= name);
        assert(name.len() > 0);
        lemma_last_index_found(name, '/');
        assert(strip_tail(name) != seq!['/']) by {
            if strip_tail(name) == seq!['/'] {
                assert(name[0] == '/');
            }
        }
    } else if base.last() == '/' {
        lemma_plain_tail(base, name);
    } else {
        let q = base + seq!['/'];
        assert(join_of(base, name) =~= q + name);
        lemma_plain_tail(q, name);
        assert(q.drop_last() =~= base);
    }
}

/// `with_file_name` and `sibling` with a plain name have that file name.
pub proof fn lemma_renamed_file_name(s: Seq<char>, name: Seq<char>)
    requires
        is_plain(name),
    ensures
        file_name_of(with_file_name_of(s, name)) == Some(name),
        file_name_of(sibling_of(s, name)) == Some(name),
{
    match file_name_of(s) {
        Some(_) => {
            lemma_file_name_has_parent(s);
            lemma_join_sets_file_name(parent_of(s)->Some_0, name);
        },
        None => lemma_join_sets_file_name(s, name),
    }
    match parent_of(s) {
        Some(p) => lemma_join_sets_file_name(p, name),
        None => {
            lemma_plain_tail(Seq::<char>::empty(), name);
            assert(Seq::<char>::empty() + name =~= name);
        },
    }
}

/// Renaming a path to a plain name other than its own file name yields a
/// different path.
pub proof fn lemma_rename_differs(s: Seq<char>, name: Seq<char>)
    requires
        is_plain(name),
        file_name_of(s) != Some(name),
    ensures
        with_file_name_of(s, name) != s,
        sibling_of(s, name) != s,
{
    lemma_renamed_file_name(s, name);
}

/// A name made of the path's stem (or a fallback) followed by text that
/// does not start with a dot is plain and differs from the path's own file
/// name: that text takes the place of the extension's dot, or lengthens a
/// name without one.
pub proof fn lemma_stem_rename_differs(s: Seq<char>, dflt: Seq<char>, w: Seq<char>)
    requires
        w.len() > 0,
        w[0] != '.',
        !w.contains('/'),
        !dflt.contains('/'),
    ensures
        is_plain(stem_or(s, dflt) + w),
        file_name_of(s) != Some(stem_or(s, dflt) + w),
{
    let name = stem_or(s, dflt) + w;
    lemma_file_name_is_plain(s);
    let stem = stem_or(s, dflt);
    assert(!stem.contains('/')) by {
        if let Some(n) = file_name_of(s) {
            let st = stem_ext(n).0;
            match last_index_of(n, '.') {
                None => {},
                Some(j) => {
                    if j != 0 {
                        lemma_last_index_found(n, '.');
                        assert forall|k: int| 0 <= k < st.len() implies st[k] != '/' by {
                            assert(st[k] == n[k]);
                        }
                    }
                },
            }
        }
    }
    assert(!name.contains('/')) by {
        if name.contains('/') {
            let k = choose|k: int| 0 <= k < name.len() && name[k] == '/';
            if k < stem.len() {
                assert(name[k] == stem[k]);
            } else {
                assert(name[k] == w[k - stem.len()]);
            }
        }
    }
    assert(name[stem.len() as int] == w[0]);
    assert(name != dot() && name != dot_dot()) by {
        if name.len() <= 2 {
            if stem.len() == 0 {
                assert(name[0] == w[0]);
            } else {
                assert(name[stem.len() as int] == w[0]);
            }
        }
    }
    if let Some(n) = file_name_of(s) {
        let (st, ext) = stem_ext(n);
        match last_index_of(n, '.') {
            None => {
                assert(st == n);
                assert(name.len() > n.len());
            },
            Some(j) => {
                lemma_last_index_found(n, '.');
                if j == 0 {
                    assert(st == n);
                    assert(name.len() > n.len());
                } else {
                    assert(st == n.take(j));
                    assert(n[j] == '.');
                    assert(name[j] == w[0]);
                }
            },
        }
    }
}

/// An extension never contains a separator.
pub proof fn lemma_extension_has_no_separator(s: Seq<char>)
    ensures
        extension_of(s) matches Some(e) ==> !e.contains('/'),
{
    lemma_file_name_is_plain(s);
    if let Some(e) = extension_of(s) {
        let n = file_name_of(s)->Some_0;
        let j = last_index_of(n, '.')->Some_0;
        lemma_last_index_found(n, '.');
        if e.contains('/') {
            let k = choose|k: int| 0 <= k < e.len() && e[k] == '/';
            assert(e[k] == n[j + 1 + k]);
        }
    }
}

/// `suffixed_name` with a suffix that starts with `_` is plain and is not
/// the path's own file name.
pub proof fn lemma_suffixed_differs(s: Seq<char>, suffix: Seq<char>)
    requires
        suffix.len() > 0,
        suffix[0] == '_',
        !suffix.contains('/'),
    ensures
        is_plain(suffixed_name(s, suffix)),
        file_name_of(s) != Some(suffixed_name(s, suffix)),
{
    lemma_file_name_is_plain(s);
    let w = match extension_of(s) {
        Some(e) => suffix + seq!['.'] + e,
        None => suffix,
    };
    if let Some(e) = extension_of(s) {
        let n = file_name_of(s)->Some_0;
        let j = last_index_of(n, '.')->Some_0;
        lemma_last_index_found(n, '.');
        assert(!e.contains('/')) by {
            if e.contains('/') {
                let k = choose|k: int| 0 <= k < e.len() && e[k] == '/';
                assert(e[k] == n[j + 1 + k]);
            }
        }
        assert(!w.contains('/')) by {
            if w.contains('/') {
                let k = choose|k: int| 0 <= k < w.len() && w[k] == '/';
                if k < suffix.len() {
                    assert(w[k] == suffix[k]);
                } else if k == suffix.len() {
                    assert(w[k] == '.');
                } else {
                    assert(w[k] == e[k - suffix.len() - 1]);
                }
            }
        }
        assert(w[0] == suffix[0]);
    }
    lemma_stem_rename_differs(s, Seq::<char>::empty(), w);
    assert(suffixed_name(s, suffix) =~= stem_or(s, Seq::<char>::empty()) + w);
}

/// A path with a file name has a parent.
pub proof fn lemma_file_name_has_parent(s: Seq<char>)
    ensures
        file_name_of(s) is Some ==> parent_of(s) is Some,
{
    let t = strip_tail(s);
    if file_name_of(s) is Some && t == seq!['/'] {
        assert(last_index_of(t, '/') == Some(0int));
        assert(t.skip(1).len() == 0);
    }
}

} // verus!
