//! What the library knows of ffmpeg's text output: the `-progress pipe:1`
//! key/value lines and the `ffmpeg -i <path>` banner (`Stream #...: Video:`
//! / `Stream #...: Audio:` / `Duration:` lines).
//!
//! Each parser is stated against a specification over the banner's
//! characters: the banner is split into lines at `\n`, every line is
//! trimmed (which also drops a Windows `\r`), and the first qualifying line
//! decides the answer.

use vstd::prelude::*;
use crate::text::{
    chars_of, contains, dec_string, ends_with, find_exec, first_word,
    first_word_bounds, has_prefix, has_suffix, index_of_exec, lower, lower_chars, parse_uint, parse_uint_exec, second_piece, split_chars, split_on,
    split_once, starts_with, string_of, sub_chars, trim, trim_bounds, trimmed, before_first,
    all_digits, is_digit, lemma_dec_string_digits, lemma_dec_value_of_dec_string, lemma_find_char,
    lemma_trim_unchanged, join_with, lemma_join_extend_last, lemma_join_new_piece, is_ws,
    lemma_lead_ws, lemma_trail_ws, lemma_split_on_no_sep,
};

verus! {

// ---------------------------------------------------------------------------
// Literals
// ---------------------------------------------------------------------------

pub open spec fn stream_prefix() -> Seq<char> {
    seq!['S', 't', 'r', 'e', 'a', 'm', ' ', '#']
}

pub open spec fn video_marker() -> Seq<char> {
    seq![':', ' ', 'V', 'i', 'd', 'e', 'o', ':']
}

pub open spec fn audio_marker() -> Seq<char> {
    seq![':', ' ', 'A', 'u', 'd', 'i', 'o', ':']
}

pub open spec fn out_time_key() -> Seq<char> {
    seq!['o', 'u', 't', '_', 't', 'i', 'm', 'e', '_', 'u', 's']
}

pub open spec fn hz_suffix() -> Seq<char> {
    seq!['H', 'z']
}

pub open spec fn duration_prefix() -> Seq<char> {
    seq!['D', 'u', 'r', 'a', 't', 'i', 'o', 'n', ':']
}

pub open spec fn not_available() -> Seq<char> {
    seq!['N', '/', 'A']
}

fn stream_prefix_chars() -> (v: Vec<char>)
    ensures
        v@ == stream_prefix(),
{
    let v = chars_of("Stream #");
    proof {
        reveal_strlit("Stream #");
        assert(v@ =~= stream_prefix());
    }
    v
}

fn video_marker_chars() -> (v: Vec<char>)
    ensures
        v@ == video_marker(),
{
    let v = chars_of(": Video:");
    proof {
        reveal_strlit(": Video:");
        assert(v@ =~= video_marker());
    }
    v
}

fn audio_marker_chars() -> (v: Vec<char>)
    ensures
        v@ == audio_marker(),
{
    let v = chars_of(": Audio:");
    proof {
        reveal_strlit(": Audio:");
        assert(v@ =~= audio_marker());
    }
    v
}

fn out_time_key_chars() -> (v: Vec<char>)
    ensures
        v@ == out_time_key(),
{
    let v = chars_of("out_time_us");
    proof {
        reveal_strlit("out_time_us");
        assert(v@ =~= out_time_key());
    }
    v
}

fn hz_suffix_chars() -> (v: Vec<char>)
    ensures
        v@ == hz_suffix(),
{
    let v = chars_of("Hz");
    proof {
        reveal_strlit("Hz");
        assert(v@ =~= hz_suffix());
    }
    v
}

fn duration_prefix_chars() -> (v: Vec<char>)
    ensures
        v@ == duration_prefix(),
{
    let v = chars_of("Duration:");
    proof {
        reveal_strlit("Duration:");
        assert(v@ =~= duration_prefix());
    }
    v
}

fn not_available_chars() -> (v: Vec<char>)
    ensures
        v@ == not_available(),
{
    let v = chars_of("N/A");
    proof {
        reveal_strlit("N/A");
        assert(v@ =~= not_available());
    }
    v
}

// ---------------------------------------------------------------------------
// Value types
// ---------------------------------------------------------------------------

/// One progress sample from `-progress pipe:1`: the output media time
/// emitted so far, in microseconds.
#[derive(Clone, Copy, Debug, Default, PartialEq, Eq)]
pub struct FfmpegProgress {
    pub out_time_us: u64,
}

/// Parameters of the first video stream in a banner.
#[derive(Clone, Debug, PartialEq, Eq)]
pub struct VideoStreamParams {
    /// Lower-case codec name (`h264`, `hevc`, `vp9`, ...).
    pub codec: String,
    /// Pixel format (`yuv420p`, `yuv420p10le`, ...), without colour tags.
    pub pix_fmt: Option<String>,
    pub width: u32,
    pub height: u32,
}

/// Parameters of the first audio stream in a banner.
#[derive(Clone, Debug, PartialEq, Eq)]
pub struct AudioStreamParams {
    /// Lower-case codec name (`aac`, `opus`, `flac`, ...).
    pub codec: String,
    /// Sample rate in Hz when the banner reports a number.
    pub sample_rate: Option<u32>,
    /// Channel layout as printed (`mono`, `stereo`, `5.1`, ...).
    pub channels: Option<String>,
}

pub open spec fn opt_view(o: Option<String>) -> Option<Seq<char>> {
    match o {
        Some(s) => Some(s@),
        None => None,
    }
}

impl VideoStreamParams {
    pub open spec fn spec_tuple(self) -> (Seq<char>, Option<Seq<char>>, u32, u32) {
        (self.codec@, opt_view(self.pix_fmt), self.width, self.height)
    }
}

impl AudioStreamParams {
    pub open spec fn spec_tuple(self) -> (Seq<char>, Option<u32>, Option<Seq<char>>) {
        (self.codec@, self.sample_rate, opt_view(self.channels))
    }
}

// ---------------------------------------------------------------------------
// `-progress pipe:1` lines
// ---------------------------------------------------------------------------

/// The `out_time_us` value a progress line carries: the trimmed line is
/// split at its first `=`, the trimmed key must be `out_time_us` and the
/// trimmed value must parse as a `u64`.
pub open spec fn progress_value(line: Seq<char>) -> Option<u64> {
    match split_once(trim(line), '=') {
        Some((key, value)) => if trim(key) == out_time_key() {
            match parse_uint(trim(value), u64::MAX as int) {
                Some(n) => Some(n as u64),
                None => None,
            }
        } else {
            None
        },
        None => None,
    }
}

/// A progress line as ffmpeg writes it, `out_time_us=<n>`, is read back
/// as `n`.
pub proof fn lemma_progress_line_round_trip(n: u64)
    ensures
        progress_value(out_time_key() + seq!['='] + dec_string(n as nat)) == Some(n),
{
    let d = dec_string(n as nat);
    let line = out_time_key() + seq!['='] + d;
    lemma_dec_string_digits(n as nat);
    lemma_dec_value_of_dec_string(n as nat);
    assert(line[0] == 'o');
    assert(line.last() == d.last());
    assert(is_digit(d[d.len() - 1]));
    lemma_trim_unchanged(line);
    assert forall|k: int| 0 <= k < 11 implies line[k] != '=' by {
        assert(line[k] == out_time_key()[k]);
    }
    lemma_find_char(line, '=', 0, 11);
    assert(line.take(11) =~= out_time_key());
    assert(line.skip(12) =~= d);
    assert(trim(out_time_key()) == out_time_key()) by {
        lemma_trim_unchanged(out_time_key());
    }
    assert(d[0] != '+');
    assert(is_digit(d[0]));
    lemma_trim_unchanged(d);
    assert(all_digits(d));
}

/// Parse one `-progress pipe:1` line. Only `out_time_us=<n>` yields a
/// sample; every other key, and anything malformed, yields `None`.
pub fn parse_progress_line(line: &str) -> (res: Option<FfmpegProgress>)
    ensures
        match progress_value(line@) {
            Some(n) => res == Some(FfmpegProgress { out_time_us: n }),
            None => res is None,
        },
{
    let v = chars_of(line);
    let t = trimmed(&v);
    let eq = match index_of_exec(&t, '=') {
        Some(i) => i,
        None => return None,
    };
    let tl = t.len();
    let key = trimmed(&sub_chars(&t, 0, eq));
    let value = trimmed(&sub_chars(&t, eq + 1, t.len()));
    assert(t@.take(eq as int) =~= t@.subrange(0, eq as int));
    assert(t@.skip(eq + 1) =~= t@.subrange(eq + 1, t@.len() as int));
    let want = out_time_key_chars();
    if !(key.len() == want.len() && has_prefix(&key, &want)) {
        proof {
            if key@ == want@ {
                assert(key@.take(want@.len() as int) =~= key@);
            }
        }
        return None;
    }
    assert(key@ =~= want@) by {
        assert(key@.take(want@.len() as int) =~= key@);
    }
    match parse_uint_exec(&value, u64::MAX) {
        Some(n) => Some(FfmpegProgress { out_time_us: n }),
        None => None,
    }
}

// ---------------------------------------------------------------------------
// Top-level comma splitting
// ---------------------------------------------------------------------------

/// `i32::saturating_add(1)`.
pub open spec fn sat_inc(d: int) -> int {
    if d >= i32::MAX {
        d
    } else {
        d + 1
    }
}

/// `i32::saturating_sub(1)`.
pub open spec fn sat_dec(d: int) -> int {
    if d <= i32::MIN {
        d
    } else {
        d - 1
    }
}

/// Bracket depth after reading `s`: `(` and `[` open, `)` and `]` close,
/// saturating at the bounds of `i32`.
pub open spec fn depth_after(s: Seq<char>) -> int
    decreases s.len(),
{
    if s.len() == 0 {
        0
    } else {
        let d = depth_after(s.drop_last());
        let c = s.last();
        if c == '(' || c == '[' {
            sat_inc(d)
        } else if c == ')' || c == ']' {
            sat_dec(d)
        } else {
            d
        }
    }
}

/// Pieces of `s` between the commas read at depth 0.
pub open spec fn top_split(s: Seq<char>) -> Seq<Seq<char>>
    decreases s.len(),
{
    if s.len() == 0 {
        seq![Seq::<char>::empty()]
    } else {
        let p = top_split(s.drop_last());
        let c = s.last();
        if c == ',' && depth_after(s.drop_last()) == 0 {
            p.push(Seq::<char>::empty())
        } else {
            p.update(p.len() - 1, p.last().push(c))
        }
    }
}

/// The trimmed top-level fields of `s`.
pub open spec fn top_fields(s: Seq<char>) -> Seq<Seq<char>> {
    top_split(s).map_values(|f: Seq<char>| trim(f))
}

pub proof fn lemma_top_split_len(s: Seq<char>)
    ensures
        top_split(s).len() >= 1,
    decreases s.len(),
{
    if s.len() > 0 {
        lemma_top_split_len(s.drop_last());
    }
}

/// Splitting loses nothing: the untrimmed pieces joined with commas give
/// back the text.
pub proof fn lemma_top_split_rejoins(s: Seq<char>)
    ensures
        join_with(top_split(s), ',') == s,
    decreases s.len(),
{
    if s.len() == 0 {
        assert(join_with(top_split(s), ',') =~= s);
    } else {
        let pre = s.drop_last();
        lemma_top_split_rejoins(pre);
        lemma_top_split_len(pre);
        let p = top_split(pre);
        if s.last() == ',' && depth_after(pre) == 0 {
            lemma_join_new_piece(p, ',');
        } else {
            lemma_join_extend_last(p, ',', s.last());
        }
        assert(pre.push(s.last()) =~= s);
    }
}

/// Bounds of `trim(v[from..to])` inside `v`.
fn trim_range(v: &[char], from: usize, to: usize) -> (res: (usize, usize))
    requires
        from <= to <= v@.len(),
    ensures
        from <= res.0 <= res.1 <= to,
        v@.subrange(res.0 as int, res.1 as int) == trim(v@.subrange(from as int, to as int)),
{
    let piece = sub_chars(v, from, to);
    let (a, b) = trim_bounds(&piece);
    assert(v@.subrange(from + a, from + b) =~= piece@.subrange(a as int, b as int));
    (from + a, from + b)
}

/// Bounds, inside `v`, of each trimmed top-level field.
fn top_field_bounds(v: &[char]) -> (res: Vec<(usize, usize)>)
    ensures
        res@.len() == top_split(v@).len(),
        forall|k: int|
            0 <= k < res@.len() ==> {
                &&& (#[trigger] res@[k]).0 <= res@[k].1 <= v@.len()
                &&& v@.subrange(res@[k].0 as int, res@[k].1 as int) == trim(top_split(v@)[k])
            },
{
    let mut out: Vec<(usize, usize)> = Vec::new();
    let mut depth: i32 = 0;
    let mut start: usize = 0;
    let mut i: usize = 0;
    assert(v@.take(0) =~= Seq::<char>::empty());
    while i < v.len()
        invariant
            start <= i <= v@.len(),
            depth as int == depth_after(v@.take(i as int)),
            out@.len() + 1 == top_split(v@.take(i as int)).len(),
            forall|k: int|
                0 <= k < out@.len() ==> {
                    &&& (#[trigger] out@[k]).0 <= out@[k].1 <= v@.len()
                    &&& v@.subrange(out@[k].0 as int, out@[k].1 as int) == trim(
                        top_split(v@.take(i as int))[k],
                    )
                },
            v@.subrange(start as int, i as int) == top_split(v@.take(i as int)).last(),
        decreases v.len() - i,
    {
        let c = v[i];
        let ghost pre = v@.take(i as int);
        assert(v@.take(i + 1).drop_last() =~= pre);
        assert(v@.take(i + 1).last() == c);
        proof {
            lemma_top_split_len(pre);
        }
        if c == ',' && depth == 0 {
            let b = trim_range(v, start, i);
            out.push(b);
            start = i + 1;
            assert(v@.subrange(start as int, i + 1) =~= Seq::<char>::empty());
        } else {
            assert(v@.subrange(start as int, i + 1) =~= v@.subrange(start as int, i as int).push(
                c,
            ));
        }
        if c == '(' || c == '[' {
            if depth < i32::MAX {
                depth = depth + 1;
            }
        } else if c == ')' || c == ']' {
            if depth > i32::MIN {
                depth = depth - 1;
            }
        }
        i += 1;
    }
    assert(v@.take(v@.len() as int) =~= v@);
    let b = trim_range(v, start, v.len());
    out.push(b);
    out
}

/// Split `s` on commas at bracket depth 0 (both `(...)` and `[...]` nest),
/// trimming each field.
pub fn split_top_level_commas(s: &str) -> (res: Vec<&str>)
    ensures
        res@.len() == top_fields(s@).len(),
        forall|k: int| 0 <= k < res@.len() ==> (#[trigger] res@[k])@ == top_fields(s@)[k],
{
    let v = chars_of(s);
    let bounds = top_field_bounds(&v);
    let mut out: Vec<&str> = Vec::new();
    let mut k: usize = 0;
    while k < bounds.len()
        invariant
            k <= bounds@.len(),
            v@ == s@,
            bounds@.len() == top_split(v@).len(),
            forall|j: int|
                0 <= j < bounds@.len() ==> {
                    &&& (#[trigger] bounds@[j]).0 <= bounds@[j].1 <= v@.len()
                    &&& v@.subrange(bounds@[j].0 as int, bounds@[j].1 as int) == trim(
                        top_split(v@)[j],
                    )
                },
            out@.len() == k,
            forall|j: int| 0 <= j < k ==> (#[trigger] out@[j])@ == top_fields(s@)[j],
        decreases bounds.len() - k,
    {
        let (a, b) = bounds[k];
        let piece = s.substring_char(a, b);
        out.push(piece);
        k += 1;
    }
    out
}

/// The trimmed top-level fields of `v`, as character vectors.
fn top_fields_exec(v: &[char]) -> (res: Vec<Vec<char>>)
    ensures
        res@.len() == top_fields(v@).len(),
        res@.len() >= 1,
        forall|k: int| 0 <= k < res@.len() ==> (#[trigger] res@[k])@ == top_fields(v@)[k],
{
    proof {
        lemma_top_split_len(v@);
    }
    let bounds = top_field_bounds(v);
    let mut out: Vec<Vec<char>> = Vec::new();
    let mut k: usize = 0;
    while k < bounds.len()
        invariant
            k <= bounds@.len(),
            bounds@.len() == top_split(v@).len(),
            forall|j: int|
                0 <= j < bounds@.len() ==> {
                    &&& (#[trigger] bounds@[j]).0 <= bounds@[j].1 <= v@.len()
                    &&& v@.subrange(bounds@[j].0 as int, bounds@[j].1 as int) == trim(
                        top_split(v@)[j],
                    )
                },
            out@.len() == k,
            forall|j: int| 0 <= j < k ==> (#[trigger] out@[j])@ == top_fields(v@)[j],
        decreases bounds.len() - k,
    {
        let (a, b) = bounds[k];
        out.push(sub_chars(v, a, b));
        k += 1;
    }
    out
}

// ---------------------------------------------------------------------------
// Banner lines
// ---------------------------------------------------------------------------

/// A trimmed banner line that declares a stream of the kind `marker`
/// names.
pub open spec fn is_stream_line(t: Seq<char>, marker: Seq<char>) -> bool {
    starts_with(t, stream_prefix()) && contains(t, marker)
}

/// Number of lines in `ls` that declare an audio stream.
pub open spec fn audio_line_count(ls: Seq<Seq<char>>) -> nat
    decreases ls.len(),
{
    if ls.len() == 0 {
        0
    } else {
        audio_line_count(ls.drop_last()) + if is_stream_line(trim(ls.last()), audio_marker()) {
            1nat
        } else {
            0nat
        }
    }
}

/// The first trimmed line from index `k` on that declares a stream of the
/// kind `marker` names.
pub open spec fn first_stream_line(ls: Seq<Seq<char>>, marker: Seq<char>, k: int) -> Option<
    Seq<char>,
>
    decreases ls.len() - k,
{
    if k < 0 || k >= ls.len() {
        None
    } else if is_stream_line(trim(ls[k]), marker) {
        Some(trim(ls[k]))
    } else {
        first_stream_line(ls, marker, k + 1)
    }
}

/// The fields after the stream marker: the text between the first and
/// the second occurrence of `marker`, trimmed and split at top-level
/// commas.
pub open spec fn stream_fields(t: Seq<char>, marker: Seq<char>) -> Seq<Seq<char>> {
    top_fields(trim(second_piece(t, marker).unwrap()))
}

/// Count the `Stream #...: Audio:` lines of a banner (saturating at
/// `u32::MAX`).
pub fn parse_audio_stream_count(stderr: &str) -> (n: u32)
    ensures
        n as int == if audio_line_count(split_on(stderr@, '\n')) > u32::MAX {
            u32::MAX as int
        } else {
            audio_line_count(split_on(stderr@, '\n')) as int
        },
{
    let v = chars_of(stderr);
    let lines = split_chars(&v, '\n');
    let ghost ls = split_on(stderr@, '\n');
    let prefix = stream_prefix_chars();
    let marker = audio_marker_chars();
    let mut count: u32 = 0;
    let mut k: usize = 0;
    assert(ls.take(0) =~= Seq::<Seq<char>>::empty());
    while k < lines.len()
        invariant
            k <= lines@.len() == ls.len(),
            ls == split_on(stderr@, '\n'),
            forall|j: int| 0 <= j < lines@.len() ==> #[trigger] lines@[j]@ == ls[j],
            prefix@ == stream_prefix(),
            marker@ == audio_marker(),
            count as int == if audio_line_count(ls.take(k as int)) > u32::MAX {
                u32::MAX as int
            } else {
                audio_line_count(ls.take(k as int)) as int
            },
        decreases lines.len() - k,
    {
        let t = trimmed(&lines[k]);
        let hit = has_prefix(&t, &prefix) && find_exec(&t, &marker, 0).is_some();
        assert(ls.take(k + 1).drop_last() =~= ls.take(k as int));
        assert(ls.take(k + 1).last() == ls[k as int]);
        if hit {
            count = count.saturating_add(1);
        }
        k += 1;
    }
    assert(ls.take(ls.len() as int) =~= ls);
    count
}

/// The stream fields of the trimmed line `t`, which contains `marker`.
fn stream_fields_exec(t: &[char], marker: &[char]) -> (res: Vec<Vec<char>>)
    requires
        contains(t@, marker@),
    ensures
        res@.len() == stream_fields(t@, marker@).len(),
        res@.len() >= 1,
        forall|k: int| 0 <= k < res@.len() ==> (#[trigger] res@[k])@ == stream_fields(t@, marker@)[k],
{
    let i = match find_exec(t, marker, 0) {
        Some(i) => i,
        None => {
            assert(false);
            return Vec::new();
        },
    };
    let tl = t.len();
    let start = i + marker.len();
    let end = match find_exec(t, marker, start) {
        Some(j) => j,
        None => t.len(),
    };
    let rest = sub_chars(t, start, end);
    let rest_t = trimmed(&rest);
    top_fields_exec(&rest_t)
}

proof fn lemma_first_stream_line(ls: Seq<Seq<char>>, marker: Seq<char>, k: int)
    ensures
        first_stream_line(ls, marker, k) matches Some(t) ==> is_stream_line(t, marker),
    decreases ls.len() - k,
{
    if !(k < 0 || k >= ls.len()) && !is_stream_line(trim(ls[k]), marker) {
        lemma_first_stream_line(ls, marker, k + 1);
    }
}

/// The first trimmed line of `lines` (from `k` on) declaring a `marker`
/// stream, found by scanning.
fn find_stream_line(lines: &Vec<Vec<char>>, marker: &[char], ls: Ghost<Seq<Seq<char>>>) -> (res:
    Option<Vec<char>>)
    requires
        lines@.len() == ls@.len(),
        forall|j: int| 0 <= j < lines@.len() ==> #[trigger] lines@[j]@ == ls@[j],
    ensures
        match first_stream_line(ls@, marker@, 0) {
            Some(t) => res matches Some(r) && r@ == t,
            None => res is None,
        },
        res matches Some(r) ==> contains(r@, marker@),
{
    proof {
        lemma_first_stream_line(ls@, marker@, 0);
    }
    let prefix = stream_prefix_chars();
    let mut k: usize = 0;
    while k < lines.len()
        invariant
            k <= lines@.len() == ls@.len(),
            forall|j: int| 0 <= j < lines@.len() ==> #[trigger] lines@[j]@ == ls@[j],
            prefix@ == stream_prefix(),
            first_stream_line(ls@, marker@, 0) == first_stream_line(ls@, marker@, k as int),
        decreases lines.len() - k,
    {
        let t = trimmed(&lines[k]);
        if has_prefix(&t, &prefix) && find_exec(&t, marker, 0).is_some() {
            return Some(t);
        }
        k += 1;
    }
    None
}

// ---------------------------------------------------------------------------
// Video stream line
// ---------------------------------------------------------------------------

/// Pixel format slot: the second field up to its first `(`, trimmed;
/// `None` when absent or empty.
pub open spec fn pix_fmt_of(fields: Seq<Seq<char>>) -> Option<Seq<char>> {
    if fields.len() > 1 {
        let head = trim(before_first(trim(fields[1]), '('));
        if head.len() == 0 {
            None
        } else {
            Some(head)
        }
    } else {
        None
    }
}

/// A `WxH` field: split at the first `x`, both sides trimmed and parsed
/// as `u32`.
pub open spec fn dims_of(f: Seq<char>) -> Option<(u32, u32)> {
    match split_once(trim(f), 'x') {
        None => None,
        Some((w, h)) => match (parse_uint(trim(w), u32::MAX as int), parse_uint(trim(h), u32::MAX as int)) {
            (Some(a), Some(b)) => Some((a as u32, b as u32)),
            _ => None,
        },
    }
}

/// First field from index `k` on that reads as `WxH`.
pub open spec fn first_dims(fields: Seq<Seq<char>>, k: int) -> Option<(u32, u32)>
    decreases fields.len() - k,
{
    if k < 0 || k >= fields.len() {
        None
    } else {
        match dims_of(fields[k]) {
            Some(d) => Some(d),
            None => first_dims(fields, k + 1),
        }
    }
}

/// Video parameters read off one stream line: lower-cased first word of
/// the first field, the pixel-format slot, and the first `WxH` field from
/// the third field on. `None` when the codec or the dimensions are
/// missing.
pub open spec fn video_params_of(t: Seq<char>) -> Option<(Seq<char>, Option<Seq<char>>, u32, u32)> {
    let fields = stream_fields(t, video_marker());
    match first_word(fields[0]) {
        None => None,
        Some(w) => match first_dims(fields, 2) {
            None => None,
            Some((width, height)) => Some((lower(w), pix_fmt_of(fields), width, height)),
        },
    }
}

/// What `parse_video_stream_line` returns for a banner.
pub open spec fn video_stream_spec(stderr: Seq<char>) -> Option<
    (Seq<char>, Option<Seq<char>>, u32, u32),
> {
    match first_stream_line(split_on(stderr, '\n'), video_marker(), 0) {
        None => None,
        Some(t) => video_params_of(t),
    }
}

fn dims_exec(f: &[char]) -> (res: Option<(u32, u32)>)
    ensures
        res == dims_of(f@),
{
    let t = trimmed(f);
    let x = match index_of_exec(&t, 'x') {
        Some(i) => i,
        None => return None,
    };
    let tl = t.len();
    let w = trimmed(&sub_chars(&t, 0, x));
    let h = trimmed(&sub_chars(&t, x + 1, t.len()));
    assert(t@.take(x as int) =~= t@.subrange(0, x as int));
    assert(t@.skip(x + 1) =~= t@.subrange(x + 1, t@.len() as int));
    let a = parse_uint_exec(&w, u32::MAX as u64);
    let b = parse_uint_exec(&h, u32::MAX as u64);
    match (a, b) {
        (Some(a), Some(b)) => Some((a as u32, b as u32)),
        _ => None,
    }
}

fn first_dims_exec(fields: &Vec<Vec<char>>, fs: Ghost<Seq<Seq<char>>>) -> (res: Option<(u32, u32)>)
    requires
        fields@.len() == fs@.len(),
        forall|j: int| 0 <= j < fields@.len() ==> (#[trigger] fields@[j])@ == fs@[j],
    ensures
        res == first_dims(fs@, 2),
{
    if fields.len() <= 2 {
        return None;
    }
    let mut k: usize = 2;
    while k < fields.len()
        invariant
            2 <= k <= fields@.len(),
            fields@.len() == fs@.len(),
            forall|j: int| 0 <= j < fields@.len() ==> (#[trigger] fields@[j])@ == fs@[j],
            first_dims(fs@, 2) == first_dims(fs@, k as int),
        decreases fields.len() - k,
    {
        let d = dims_exec(&fields[k]);
        if d.is_some() {
            return d;
        }
        k += 1;
    }
    None
}

fn pix_fmt_exec(fields: &Vec<Vec<char>>) -> (res: Option<String>)
    ensures
        opt_view(res) == pix_fmt_of(fields@.map_values(|f: Vec<char>| f@)),
{
    let ghost fs = fields@.map_values(|f: Vec<char>| f@);
    if fields.len() <= 1 {
        return None;
    }
    let raw = trimmed(&fields[1]);
    let head_end = match index_of_exec(&raw, '(') {
        Some(i) => i,
        None => raw.len(),
    };
    assert(before_first(raw@, '(') =~= raw@.subrange(0, head_end as int));
    let head = trimmed(&sub_chars(&raw, 0, head_end));
    if head.len() == 0 {
        None
    } else {
        Some(string_of(head))
    }
}

/// Parse the first `Stream #...: Video:` line of a banner.
pub fn parse_video_stream_line(stderr: &str) -> (res: Option<VideoStreamParams>)
    ensures
        match video_stream_spec(stderr@) {
            Some(p) => res matches Some(r) && r.spec_tuple() == p,
            None => res is None,
        },
{
    let v = chars_of(stderr);
    let lines = split_chars(&v, '\n');
    let marker = video_marker_chars();
    let line = match find_stream_line(&lines, &marker, Ghost(split_on(stderr@, '\n'))) {
        Some(t) => t,
        None => return None,
    };
    let fields = stream_fields_exec(&line, &marker);
    let ghost fs = stream_fields(line@, video_marker());
    assert(fields@.map_values(|f: Vec<char>| f@) =~= fs);
    let (a, b) = match first_word_bounds(&fields[0]) {
        Some(ab) => ab,
        None => return None,
    };
    let (width, height) = match first_dims_exec(&fields, Ghost(fs)) {
        Some(d) => d,
        None => return None,
    };
    let codec = string_of(lower_chars(&sub_chars(&fields[0], a, b)));
    let pix_fmt = pix_fmt_exec(&fields);
    Some(VideoStreamParams { codec, pix_fmt, width, height })
}

// ---------------------------------------------------------------------------
// Audio stream line
// ---------------------------------------------------------------------------

/// Sample-rate slot: the second field, trimmed, a trailing `Hz` dropped,
/// trimmed again and parsed as `u32`.
pub open spec fn sample_rate_of(fields: Seq<Seq<char>>) -> Option<u32> {
    if fields.len() > 1 {
        let raw = trim(fields[1]);
        let num = trim(
            if ends_with(raw, hz_suffix()) {
                raw.take(raw.len() - 2)
            } else {
                raw
            },
        );
        match parse_uint(num, u32::MAX as int) {
            Some(n) => Some(n as u32),
            None => None,
        }
    } else {
        None
    }
}

/// Channel-layout slot: the third field, trimmed.
pub open spec fn channels_of(fields: Seq<Seq<char>>) -> Option<Seq<char>> {
    if fields.len() > 2 {
        Some(trim(fields[2]))
    } else {
        None
    }
}

/// Audio parameters read off one stream line; `None` when the first field
/// has no word.
pub open spec fn audio_params_of(t: Seq<char>) -> Option<(Seq<char>, Option<u32>, Option<Seq<char>>)> {
    let fields = stream_fields(t, audio_marker());
    match first_word(fields[0]) {
        None => None,
        Some(w) => Some((lower(w), sample_rate_of(fields), channels_of(fields))),
    }
}

/// What `parse_audio_stream_line` returns for a banner.
pub open spec fn audio_stream_spec(stderr: Seq<char>) -> Option<
    (Seq<char>, Option<u32>, Option<Seq<char>>),
> {
    match first_stream_line(split_on(stderr, '\n'), audio_marker(), 0) {
        None => None,
        Some(t) => audio_params_of(t),
    }
}

/// Parse the first `Stream #...: Audio:` line of a banner.
pub fn parse_audio_stream_line(stderr: &str) -> (res: Option<AudioStreamParams>)
    ensures
        match audio_stream_spec(stderr@) {
            Some(p) => res matches Some(r) && r.spec_tuple() == p,
            None => res is None,
        },
{
    let v = chars_of(stderr);
    let lines = split_chars(&v, '\n');
    let marker = audio_marker_chars();
    let line = match find_stream_line(&lines, &marker, Ghost(split_on(stderr@, '\n'))) {
        Some(t) => t,
        None => return None,
    };
    let fields = stream_fields_exec(&line, &marker);
    let ghost fs = stream_fields(line@, audio_marker());
    let (a, b) = match first_word_bounds(&fields[0]) {
        Some(ab) => ab,
        None => return None,
    };
    let codec = string_of(lower_chars(&sub_chars(&fields[0], a, b)));
    let sample_rate = if fields.len() > 1 {
        let raw = trimmed(&fields[1]);
        let hz = hz_suffix_chars();
        let num = if has_suffix(&raw, &hz) {
            trimmed(&sub_chars(&raw, 0, raw.len() - 2))
        } else {
            trimmed(&raw)
        };
        assert(raw@.len() >= 2 ==> raw@.take(raw@.len() - 2) =~= raw@.subrange(
            0,
            raw@.len() - 2,
        ));
        assert(raw@.subrange(0, raw@.len() as int) =~= raw@);
        match parse_uint_exec(&num, u32::MAX as u64) {
            Some(n) => Some(n as u32),
            None => None,
        }
    } else {
        None
    };
    let channels = if fields.len() > 2 {
        Some(string_of(trimmed(&fields[2])))
    } else {
        None
    };
    Some(AudioStreamParams { codec, sample_rate, channels })
}

// ---------------------------------------------------------------------------
// Duration line
// ---------------------------------------------------------------------------

/// The `HH`, `MM`, `SS.cc` texts of the first `Duration:` line: the text
/// after the prefix, up to the first `,`, trimmed, split at `:`. `None`
/// when no trimmed line starts with `Duration:`, when that value is `N/A`
/// or when it has fewer than three `:`-separated parts.
pub open spec fn duration_fields_of(ls: Seq<Seq<char>>, k: int) -> Option<
    (Seq<char>, Seq<char>, Seq<char>),
>
    decreases ls.len() - k,
{
    if k < 0 || k >= ls.len() {
        None
    } else if starts_with(trim(ls[k]), duration_prefix()) {
        let rest = trim(ls[k]).skip(duration_prefix().len() as int);
        let dur = trim(before_first(trim(rest), ','));
        if dur == not_available() {
            None
        } else {
            let parts = split_on(dur, ':');
            if parts.len() >= 3 {
                Some((parts[0], parts[1], parts[2]))
            } else {
                None
            }
        }
    } else {
        duration_fields_of(ls, k + 1)
    }
}

/// Locate the `Duration:` line of a banner and split its value into the
/// hour, minute and second texts (the numbers themselves are read as
/// floating point by the caller).
pub fn duration_fields(stderr: &str) -> (res: Option<(String, String, String)>)
    ensures
        match duration_fields_of(split_on(stderr@, '\n'), 0) {
            Some((h, m, s)) => res matches Some(r) && r.0@ == h && r.1@ == m && r.2@ == s,
            None => res is None,
        },
{
    let v = chars_of(stderr);
    let lines = split_chars(&v, '\n');
    let ghost ls = split_on(stderr@, '\n');
    let prefix = duration_prefix_chars();
    let na = not_available_chars();
    let mut k: usize = 0;
    while k < lines.len()
        invariant
            k <= lines@.len() == ls.len(),
            ls == split_on(stderr@, '\n'),
            forall|j: int| 0 <= j < lines@.len() ==> #[trigger] lines@[j]@ == ls[j],
            prefix@ == duration_prefix(),
            na@ == not_available(),
            duration_fields_of(ls, 0) == duration_fields_of(ls, k as int),
        decreases lines.len() - k,
    {
        let t = trimmed(&lines[k]);
        if has_prefix(&t, &prefix) {
            let rest = trimmed(&sub_chars(&t, prefix.len(), t.len()));
            assert(t@.skip(duration_prefix().len() as int) =~= t@.subrange(
                prefix@.len() as int,
                t@.len() as int,
            ));
            let cut = match index_of_exec(&rest, ',') {
                Some(i) => i,
                None => rest.len(),
            };
            assert(before_first(rest@, ',') =~= rest@.subrange(0, cut as int));
            let dur = trimmed(&sub_chars(&rest, 0, cut));
            if dur.len() == na.len() && has_prefix(&dur, &na) {
                assert(dur@ =~= na@) by {
                    assert(dur@.take(na@.len() as int) =~= dur@);
                }
                return None;
            }
            proof {
                if dur@ == na@ {
                    assert(dur@.take(na@.len() as int) =~= dur@);
                }
            }
            let parts = split_chars(&dur, ':');
            if parts.len() >= 3 {
                let h = string_of(sub_chars(&parts[0], 0, parts[0].len()));
                let m = string_of(sub_chars(&parts[1], 0, parts[1].len()));
                let s = string_of(sub_chars(&parts[2], 0, parts[2].len()));
                assert(parts@[0]@.subrange(0, parts@[0]@.len() as int) =~= parts@[0]@);
                assert(parts@[1]@.subrange(0, parts@[1]@.len() as int) =~= parts@[1]@);
                assert(parts@[2]@.subrange(0, parts@[2]@.len() as int) =~= parts@[2]@);
                return Some((h, m, s));
            }
            return None;
        }
        k += 1;
    }
    None
}

/// Text made of two texts without `c` has no `c`.
proof fn lemma_concat_free(a: Seq<char>, b: Seq<char>, c: char)
    requires
        !a.contains(c),
        !b.contains(c),
    ensures
        !(a + b).contains(c),
{
    if (a + b).contains(c) {
        let k = choose|k: int| 0 <= k < (a + b).len() && (a + b)[k] == c;
        if k < a.len() {
            assert(a[k] == c);
        } else {
            assert(b[k - a.len()] == c);
        }
    }
}

/// Trimming `{ws}{v}` with `v` starting and ending with non-whitespace
/// leaves `v`.
proof fn lemma_trim_after_ws(w: Seq<char>, v: Seq<char>)
    requires
        forall|i: int| 0 <= i < w.len() ==> is_ws(#[trigger] w[i]),
        v.len() > 0,
        !is_ws(v[0]),
        !is_ws(v.last()),
    ensures
        trim(w + v) == v,
{
    let x = w + v;
    assert(x[w.len() as int] == v[0]);
    assert forall|k: int| 0 <= k < w.len() implies is_ws(#[trigger] x[k]) by {
        assert(x[k] == w[k]);
    }
    lemma_lead_ws(x, w.len() as int);
    assert(x.last() == v.last());
    lemma_trail_ws(x, 0);
    assert(x.skip(w.len() as int) =~= v);
    assert(x.take(x.len() - 0) =~= x);
}

/// A banner line `Duration: H:M:S, …` (indented by spaces) gives back its
/// three texts in order: the hours `H`, then the minutes `M`, then the
/// seconds `S`, whatever follows the comma. `H`, `M` and `S` are any
/// non-empty texts without `:`, `,`, or whitespace.
pub proof fn lemma_duration_fields_in_order(
    pad: Seq<char>,
    h: Seq<char>,
    m: Seq<char>,
    s: Seq<char>,
    tail: Seq<char>,
)
    requires
        forall|i: int| 0 <= i < pad.len() ==> pad[i] == ' ',
        h.len() > 0,
        m.len() > 0,
        s.len() > 0,
        forall|i: int| 0 <= i < h.len() ==> h[i] != ':' && h[i] != ',' && !is_ws(#[trigger] h[i]),
        forall|i: int| 0 <= i < m.len() ==> m[i] != ':' && m[i] != ',' && !is_ws(#[trigger] m[i]),
        forall|i: int| 0 <= i < s.len() ==> s[i] != ':' && s[i] != ',' && !is_ws(#[trigger] s[i]),
        !tail.contains('\n'),
        tail.len() == 0 || !is_ws(tail.last()),
    ensures
        duration_fields_of(
            split_on(
                pad + duration_prefix() + seq![' '] + h + seq![':'] + m + seq![':'] + s + seq![',']
                    + tail,
                '\n',
            ),
            0,
        ) == Some((h, m, s)),
        !(pad + duration_prefix() + seq![' '] + h + seq![':'] + m + seq![':'] + s + seq![','] + tail).contains(
            '\n',
        ),
        starts_with(
            trim(pad + duration_prefix() + seq![' '] + h + seq![':'] + m + seq![':'] + s + seq![',']
                + tail),
            duration_prefix(),
        ),
{
    let d = h + seq![':'] + m + seq![':'] + s;
    let body = d + seq![','] + tail;
    let t = duration_prefix() + seq![' '] + body;
    let line = pad + t;
    assert(line =~= pad + duration_prefix() + seq![' '] + h + seq![':'] + m + seq![':'] + s + seq![
        ',',
    ] + tail);
    assert(!h.contains('\n') && !m.contains('\n') && !s.contains('\n') && !pad.contains('\n')
        && !duration_prefix().contains('\n') && !seq![' '].contains('\n') && !seq![':'].contains('\n')
        && !seq![','].contains('\n')) by {
        assert(is_ws('\n'));
    }
    assert(!h.contains(':') && !m.contains(':') && !s.contains(':') && !h.contains(',')
        && !m.contains(',') && !s.contains(',') && !seq![':'].contains(','));
    lemma_concat_free(h, seq![':'], '\n');
    lemma_concat_free(h + seq![':'], m, '\n');
    lemma_concat_free(h + seq![':'] + m, seq![':'], '\n');
    lemma_concat_free(h + seq![':'] + m + seq![':'], s, '\n');
    lemma_concat_free(d, seq![','], '\n');
    lemma_concat_free(d + seq![','], tail, '\n');
    lemma_concat_free(duration_prefix(), seq![' '], '\n');
    lemma_concat_free(duration_prefix() + seq![' '], body, '\n');
    lemma_concat_free(pad, t, '\n');
    lemma_split_on_no_sep(line, '\n');
    assert(split_on(line, '\n')[0] == line);
    // The line trimmed: the indentation goes, nothing else.
    assert(trim(line) == t) by {
        assert(t[0] == 'D');
        if tail.len() > 0 {
            assert(t.last() == tail.last());
        } else {
            assert(t.last() == ',');
        }
        lemma_trim_after_ws(pad, t);
    }
    assert(t.take(duration_prefix().len() as int) =~= duration_prefix());
    assert(starts_with(trim(line), duration_prefix()));
    let rest = t.skip(duration_prefix().len() as int);
    assert(rest =~= seq![' '] + body);
    // The value trimmed: the space after the prefix goes.
    assert(trim(rest) == body) by {
        assert(body[0] == h[0]);
        if tail.len() > 0 {
            assert(body.last() == tail.last());
        } else {
            assert(body.last() == ',');
        }
        lemma_trim_after_ws(seq![' '], body);
    }
    // Up to the first comma.
    assert(before_first(body, ',') == d) by {
        lemma_concat_free(h, seq![':'], ',');
        lemma_concat_free(h + seq![':'], m, ',');
        lemma_concat_free(h + seq![':'] + m, seq![':'], ',');
        lemma_concat_free(h + seq![':'] + m + seq![':'], s, ',');
        assert forall|k: int| 0 <= k < d.len() implies body[k] != ',' by {
            assert(body[k] == d[k]);
        }
        assert(body[d.len() as int] == ',');
        lemma_find_char(body, ',', 0, d.len() as int);
        assert(body.take(d.len() as int) =~= d);
    }
    assert(trim(d) == d) by {
        assert(d[0] == h[0]);
        assert(d.last() == s.last()) by {
            assert(d[d.len() - 1] == s[s.len() - 1]);
        }
        lemma_trim_unchanged(d);
    }
    // Not `N/A`: the value has a colon.
    assert(d != not_available()) by {
        assert(d[h.len() as int] == ':');
        if d == not_available() {
            assert(not_available()[h.len() as int] != ':');
        }
    }
    // Split at the colons.
    assert(split_on(d, ':') == seq![h, m, s]) by {
        lemma_split_on_no_sep(h, ':');
        crate::text::lemma_split_on_append_piece(h, m, ':');
        crate::text::lemma_split_on_append_piece(h + seq![':'] + m, s, ':');
        assert(seq![h].push(m).push(s) =~= seq![h, m, s]);
    }
}

proof fn lemma_duration_skips_lines(ls: Seq<Seq<char>>, k: int, j: int)
    requires
        0 <= k <= j <= ls.len(),
        forall|i: int| k <= i < j ==> !starts_with(trim(#[trigger] ls[i]), duration_prefix()),
    ensures
        duration_fields_of(ls, k) == duration_fields_of(ls, j),
    decreases j - k,
{
    if k < j {
        lemma_duration_skips_lines(ls, k + 1, j);
    }
}

proof fn lemma_duration_shift(a: Seq<Seq<char>>, b: Seq<Seq<char>>, i: int)
    requires
        0 <= i <= b.len(),
    ensures
        duration_fields_of(a + b, a.len() + i) == duration_fields_of(b, i),
    decreases b.len() - i,
{
    if i < b.len() {
        assert((a + b)[a.len() + i] == b[i]);
        lemma_duration_shift(a, b, i + 1);
    }
}

/// In a whole banner, the first `Duration: H:M:S, …` line decides: lines
/// before it that do not start with `Duration:` are passed over, lines
/// after it are ignored, and its texts come back in order: hours `H`,
/// minutes `M`, seconds `S`.
pub proof fn lemma_banner_duration_fields(
    before: Seq<char>,
    pad: Seq<char>,
    h: Seq<char>,
    m: Seq<char>,
    s: Seq<char>,
    tail: Seq<char>,
    after: Seq<char>,
)
    requires
        forall|i: int|
            0 <= i < split_on(before, '\n').len() ==> !starts_with(
                trim(#[trigger] split_on(before, '\n')[i]),
                duration_prefix(),
            ),
        forall|i: int| 0 <= i < pad.len() ==> pad[i] == ' ',
        h.len() > 0,
        m.len() > 0,
        s.len() > 0,
        forall|i: int| 0 <= i < h.len() ==> h[i] != ':' && h[i] != ',' && !is_ws(#[trigger] h[i]),
        forall|i: int| 0 <= i < m.len() ==> m[i] != ':' && m[i] != ',' && !is_ws(#[trigger] m[i]),
        forall|i: int| 0 <= i < s.len() ==> s[i] != ':' && s[i] != ',' && !is_ws(#[trigger] s[i]),
        !tail.contains('\n'),
        tail.len() == 0 || !is_ws(tail.last()),
    ensures
        duration_fields_of(
            split_on(
                before + seq!['\n'] + pad + duration_prefix() + seq![' '] + h + seq![':'] + m + seq![
                    ':',
                ] + s + seq![','] + tail + seq!['\n'] + after,
                '\n',
            ),
            0,
        ) == Some((h, m, s)),
{
    let line = pad + duration_prefix() + seq![' '] + h + seq![':'] + m + seq![':'] + s + seq![','] + tail;
    let whole = before + seq!['\n'] + (line + seq!['\n'] + after);
    assert(whole =~= before + seq!['\n'] + pad + duration_prefix() + seq![' '] + h + seq![':'] + m
        + seq![':'] + s + seq![','] + tail + seq!['\n'] + after);
    lemma_duration_fields_in_order(pad, h, m, s, tail);
    // `line` has no newline (it is the single piece of its own split).
    crate::text::lemma_split_on_len(line, '\n');
    crate::text::lemma_split_on_concat(before, line + seq!['\n'] + after, '\n');
    crate::text::lemma_split_on_concat(line, after, '\n');
    let pb = split_on(before, '\n');
    let rest = split_on(line, '\n') + split_on(after, '\n');
    let ls = pb + rest;
    assert(split_on(whole, '\n') == ls);
    assert forall|i: int| 0 <= i < pb.len() implies !starts_with(
        trim(#[trigger] ls[i]),
        duration_prefix(),
    ) by {
        assert(ls[i] == pb[i]);
    }
    lemma_duration_skips_lines(ls, 0, pb.len() as int);
    lemma_duration_shift(pb, rest, 0);
    assert(pb.len() + 0 == pb.len());
    // The value is read off `line` alone.
    lemma_split_on_no_sep(line, '\n');
    let one = split_on(line, '\n');
    assert(one[0] == line);
    assert(rest[0] == line);
    assert(starts_with(trim(line), duration_prefix()));
}

/// A banner that opens with its `Duration: H:M:S, …` line gives back that
/// line's texts in order (hours, minutes, seconds), whatever lines follow.
pub proof fn lemma_leading_duration_line(
    pad: Seq<char>,
    h: Seq<char>,
    m: Seq<char>,
    s: Seq<char>,
    tail: Seq<char>,
    after: Seq<char>,
)
    requires
        forall|i: int| 0 <= i < pad.len() ==> pad[i] == ' ',
        h.len() > 0,
        m.len() > 0,
        s.len() > 0,
        forall|i: int| 0 <= i < h.len() ==> h[i] != ':' && h[i] != ',' && !is_ws(#[trigger] h[i]),
        forall|i: int| 0 <= i < m.len() ==> m[i] != ':' && m[i] != ',' && !is_ws(#[trigger] m[i]),
        forall|i: int| 0 <= i < s.len() ==> s[i] != ':' && s[i] != ',' && !is_ws(#[trigger] s[i]),
        !tail.contains('\n'),
        tail.len() == 0 || !is_ws(tail.last()),
    ensures
        duration_fields_of(
            split_on(
                pad + duration_prefix() + seq![' '] + h + seq![':'] + m + seq![':'] + s + seq![',']
                    + tail + seq!['\n'] + after,
                '\n',
            ),
            0,
        ) == Some((h, m, s)),
{
    let line = pad + duration_prefix() + seq![' '] + h + seq![':'] + m + seq![':'] + s + seq![','] + tail;
    lemma_duration_fields_in_order(pad, h, m, s, tail);
    lemma_split_on_no_sep(line, '\n');
    crate::text::lemma_split_on_concat(line, after, '\n');
    let ls = split_on(line, '\n') + split_on(after, '\n');
    assert(split_on(line + seq!['\n'] + after, '\n') == ls);
    assert(ls[0] == line);
    assert(split_on(line, '\n')[0] == line);
}

} // verus!
