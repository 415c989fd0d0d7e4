//! The duplicate-name policy: never overwrite. A taken `foo.txt` becomes
//! `foo (1).txt`, then `foo (2).txt`, …; a name without an extension gets
//! the suffix at its end (`Makefile (1)`, `report_pages (1)`); the suffix
//! goes before the last extension only (`archive.tar (1).gz`).
//!
//! Whether a name is taken is a question for the file system, so the
//! search is a state machine: it names a path to check, is told whether it
//! exists, and either settles on it or names the next candidate.

use vstd::prelude::*;
use crate::paths::{extension_of, file_name_chars, file_name_of, file_stem_of, is_plain, lemma_extension_has_no_separator, lemma_file_name_is_plain, lemma_rename_differs, lemma_renamed_file_name, lemma_stem_rename_differs, sibling_chars, sibling_of, stem_ext, stem_ext_chars, stem_or};
use crate::text::{chars_of, dec_chars, dec_string, lemma_dec_string_digits, lemma_dec_string_injective, owned, push_all, push_str, string_of};

verus! {

/// The text the counter is appended to: the stem when the path has an
/// extension, else the whole file name (empty when there is none).
pub open spec fn counter_base(target: Seq<char>) -> Seq<char> {
    if extension_of(target) is Some {
        file_stem_of(target)->Some_0
    } else {
        match file_name_of(target) {
            Some(n) => n,
            None => Seq::<char>::empty(),
        }
    }
}

/// The `n`-th alternative to `target` (`n ≥ 1`): `{base} (n)[.ext]` next to it.
pub open spec fn candidate_of(target: Seq<char>, n: nat) -> Seq<char> {
    let name = counter_base(target) + " ("@ + dec_string(n) + ")"@;
    let full = match extension_of(target) {
        Some(e) => name + "."@ + e,
        None => name,
    };
    sibling_of(target, full)
}

/// The path checked at position `k` of the search: the target itself, then
/// its alternatives `1, 2, …`.
pub open spec fn probe_of(target: Seq<char>, k: nat) -> Seq<char> {
    if k == 0 {
        target
    } else {
        candidate_of(target, k)
    }
}

/// The `n`-th alternative name for `target` (n ≥ 1).
pub fn candidate_path(target: &str, n: u32) -> (r: String)
    ensures
        r@ == candidate_of(target@, n as nat),
{
    let v = chars_of(target);
    let (mut name, ext) = match file_name_chars(&v) {
        Some(fname) => {
            let (stem, ext) = stem_ext_chars(&fname);
            match ext {
                Some(e) => (stem, Some(e)),
                None => (fname, None),
            }
        },
        None => (Vec::new(), None),
    };
    assert(name@ == counter_base(target@));
    push_str(&mut name, " (");
    push_all(&mut name, &dec_chars(n as u64));
    push_str(&mut name, ")");
    match ext {
        Some(e) => {
            push_str(&mut name, ".");
            push_all(&mut name, &e);
        },
        None => {},
    }
    string_of(sibling_chars(&v, &name))
}

/// What the search wants next.
#[derive(Clone, Debug, PartialEq, Eq)]
pub enum Probe {
    /// Tell the search whether this path exists.
    Check { path: String },
    /// This path is free; use it.
    Found { path: String },
    /// Every counter value is taken.
    Exhausted,
}

/// A search for a free name derived from a target path.
pub struct UniqueSearch {
    target: String,
    /// Position of the path being checked (0 is the target itself).
    at: u32,
}

impl UniqueSearch {
    pub closed spec fn spec_target(&self) -> Seq<char> {
        self.target@
    }

    pub closed spec fn spec_at(&self) -> u32 {
        self.at
    }

    /// Start a search; the first path to check is the target itself.
    pub fn start(target: &str) -> (r: (UniqueSearch, Probe))
        ensures
            r.0.spec_target() == target@,
            r.0.spec_at() == 0,
            r.1 matches Probe::Check { path } && path@ == target@,
    {
        (UniqueSearch { target: owned(target), at: 0 }, Probe::Check { path: owned(target) })
    }

    /// The path being checked.
    pub fn current(&self) -> (r: String)
        ensures
            r@ == probe_of(self.spec_target(), self.spec_at() as nat),
    {
        if self.at == 0 {
            owned(self.target.as_str())
        } else {
            candidate_path(self.target.as_str(), self.at)
        }
    }

    /// Answer whether the path being checked exists: a free path is the
    /// result; a taken one moves on to the next counter value, until the
    /// counter runs out.
    pub fn answer(&mut self, exists: bool) -> (p: Probe)
        ensures
            final(self).spec_target() == old(self).spec_target(),
            !exists ==> (p matches Probe::Found { path } && path@ == probe_of(
                old(self).spec_target(),
                old(self).spec_at() as nat,
            ) && final(self).spec_at() == old(self).spec_at()),
            exists && old(self).spec_at() == u32::MAX ==> (p == Probe::Exhausted
                && final(self).spec_at() == old(self).spec_at()),
            exists && old(self).spec_at() < u32::MAX ==> (p matches Probe::Check { path } && path@
                == probe_of(old(self).spec_target(), (old(self).spec_at() + 1) as nat)
                && final(self).spec_at() == old(self).spec_at() + 1),
    {
        if !exists {
            return Probe::Found { path: self.current() };
        }
        if self.at == u32::MAX {
            return Probe::Exhausted;
        }
        self.at = self.at + 1;
        Probe::Check { path: self.current() }
    }
}


/// What a search at position `at` settles on when the file system answers
/// `taken` (one answer per probed path, in order): the first free probe,
/// or `None` when the answers run out or the counter is exhausted first.
pub open spec fn search_result(target: Seq<char>, at: nat, taken: Seq<bool>) -> Option<Seq<char>>
    decreases taken.len(),
{
    if taken.len() == 0 {
        None
    } else if !taken[0] {
        Some(probe_of(target, at))
    } else if at >= u32::MAX {
        None
    } else {
        search_result(target, at + 1, taken.drop_first())
    }
}

/// A search that finds the first `k` probes taken and the next one free
/// settles on that one: `target` itself when it is free, else its `k`-th
/// alternative.
pub proof fn lemma_search_finds_first_free(target: Seq<char>, at: nat, taken: Seq<bool>, k: nat)
    requires
        k < taken.len(),
        at + k <= u32::MAX,
        forall|i: int| 0 <= i < k ==> taken[i],
        !taken[k as int],
    ensures
        search_result(target, at, taken) == Some(probe_of(target, at + k)),
    decreases k,
{
    if k > 0 {
        lemma_search_finds_first_free(target, at + 1, taken.drop_first(), (k - 1) as nat);
    }
}


/// Counter text of the `n`-th alternative: ` (n)` followed by the
/// extension, if any.
pub open spec fn counter_tail(target: Seq<char>, n: nat) -> Seq<char> {
    match extension_of(target) {
        Some(e) => " ("@ + dec_string(n) + ")"@ + "."@ + e,
        None => " ("@ + dec_string(n) + ")"@,
    }
}

proof fn lemma_candidate_shape(target: Seq<char>, n: nat)
    ensures
        candidate_of(target, n) == sibling_of(target, stem_or(target, Seq::<char>::empty()) + counter_tail(target, n)),
        is_plain(stem_or(target, Seq::<char>::empty()) + counter_tail(target, n)),
        file_name_of(target) != Some(stem_or(target, Seq::<char>::empty()) + counter_tail(target, n)),
{
    reveal_strlit(" (");
    reveal_strlit(")");
    reveal_strlit(".");
    lemma_dec_string_digits(n);
    lemma_file_name_is_plain(target);
    lemma_extension_has_no_separator(target);
    let base = counter_base(target);
    assert(base == stem_or(target, Seq::<char>::empty())) by {
        if let Some(fname) = file_name_of(target) {
            if extension_of(target) is None {
                assert(stem_ext(fname).0 == fname);
            }
        }
    }
    let w = counter_tail(target, n);
    let d = dec_string(n);
    assert(!w.contains('/')) by {
        if w.contains('/') {
            let k = choose|k: int| 0 <= k < w.len() && w[k] == '/';
            if 2 <= k < 2 + d.len() {
                assert(w[k] == d[k - 2]);
            }
            if let Some(e) = extension_of(target) {
                if k >= 4 + d.len() {
                    assert(w[k] == e[k - 4 - d.len()]);
                }
            }
        }
    }
    assert(w[0] == ' ');
    lemma_stem_rename_differs(target, Seq::<char>::empty(), w);
    let name = counter_base(target) + " ("@ + dec_string(n) + ")"@;
    assert(match extension_of(target) {
        Some(e) => name + "."@ + e,
        None => name,
    } =~= base + w);
}

/// No alternative name is the target itself, so a search never settles
/// on a taken target by renaming it to itself.
pub proof fn lemma_candidate_differs_from_target(target: Seq<char>, n: nat)
    ensures
        candidate_of(target, n) != target,
{
    lemma_candidate_shape(target, n);
    lemma_rename_differs(target, stem_or(target, Seq::<char>::empty()) + counter_tail(target, n));
}

/// Different counter values give different alternatives.
pub proof fn lemma_candidates_distinct(target: Seq<char>, a: nat, b: nat)
    requires
        a != b,
    ensures
        candidate_of(target, a) != candidate_of(target, b),
{
    reveal_strlit(" (");
    reveal_strlit(")");
    reveal_strlit(".");
    lemma_candidate_shape(target, a);
    lemma_candidate_shape(target, b);
    let base = stem_or(target, Seq::<char>::empty());
    let na = base + counter_tail(target, a);
    let nb = base + counter_tail(target, b);
    lemma_renamed_file_name(target, na);
    lemma_renamed_file_name(target, nb);
    if na == nb {
        let da = dec_string(a);
        let db = dec_string(b);
        let tl: int = match extension_of(target) {
            Some(e) => 2 + e.len() as int,
            None => 1,
        };
        assert(na.subrange(base.len() + 2int, na.len() - tl) =~= da);
        assert(nb.subrange(base.len() + 2int, nb.len() - tl) =~= db);
        lemma_dec_string_injective(a, b);
    }
}

} // verus!
