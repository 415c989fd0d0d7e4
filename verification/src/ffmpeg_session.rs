//! The decisions around one ffmpeg run, apart from the process itself:
//! the fixed argument prefixes, the bounded tail of stderr kept for a
//! failure message, the throttle on progress callbacks, and the errors a
//! banner probe reports when a line is missing.

use vstd::prelude::*;
use std::collections::VecDeque;
use crate::error::AppError;
use crate::ffmpeg::{
    parse_progress_line, parse_video_stream_line, progress_value,
    video_stream_spec, FfmpegProgress, VideoStreamParams,
};
use crate::text::{chars_of, owned, push_str, string_of, views};

verus! {

/// Least gap, in milliseconds, between two progress callbacks.
pub const PROGRESS_THROTTLE_MS: u64 = 250;

/// Number of stderr lines kept for a failure message.
pub const STDERR_RING_CAPACITY: usize = 64;

/// The last `n` elements of `s` (all of them when there are fewer).
pub open spec fn keep_last<T>(s: Seq<T>, n: nat) -> Seq<T> {
    if s.len() > n {
        s.skip(s.len() - n)
    } else {
        s
    }
}

/// Lines joined with `\n` between them.
pub open spec fn join_lines(ls: Seq<Seq<char>>) -> Seq<char>
    decreases ls.len(),
{
    if ls.len() == 0 {
        Seq::<char>::empty()
    } else if ls.len() == 1 {
        ls[0]
    } else {
        join_lines(ls.drop_last()) + seq!['\n'] + ls.last()
    }
}

pub open spec fn run_prefix() -> Seq<Seq<char>> {
    seq!["-progress"@, "pipe:1"@, "-nostats"@, "-hide_banner"@, "-loglevel"@, "error"@]
}

pub open spec fn exit_detail(status: Seq<char>, tail: Seq<Seq<char>>) -> Seq<char> {
    "ffmpeg exited with "@ + status + ": "@ + join_lines(tail)
}

pub open spec fn missing_video_detail(path: Seq<char>) -> Seq<char> {
    "ffmpeg -i "@ + path + " did not report a Video stream line"@
}

pub open spec fn missing_duration_detail(path: Seq<char>) -> Seq<char> {
    "ffmpeg -i "@ + path + " did not report a Duration line"@
}

/// The full argument list of a run: the progress/quiet prefix, then the
/// caller's arguments.
pub fn run_args(args: &[String]) -> (r: Vec<String>)
    ensures
        views(r@) == run_prefix() + views(args@),
{
    let mut r: Vec<String> = Vec::new();
    let prefix: &[&str] = &["-progress", "pipe:1", "-nostats", "-hide_banner", "-loglevel", "error"];
    let mut i: usize = 0;
    while i < prefix.len()
        invariant
            i <= prefix@.len(),
            views(r@) == run_prefix().take(i as int),
            prefix@.len() == 6,
            forall|k: int| 0 <= k < 6 ==> #[trigger] prefix@[k]@ == run_prefix()[k],
        decreases prefix.len() - i,
    {
        let ghost before = r@;
        r.push(owned(prefix[i]));
        assert(views(r@) =~= views(before).push(prefix@[i as int]@));
        assert(run_prefix().take(i + 1) =~= run_prefix().take(i as int).push(run_prefix()[i as int]));
        i += 1;
    }
    let mut j: usize = 0;
    while j < args.len()
        invariant
            j <= args@.len(),
            views(r@) == run_prefix() + views(args@).take(j as int),
        decreases args.len() - j,
    {
        let ghost before = r@;
        r.push(owned(args[j].as_str()));
        assert(views(r@) =~= views(before).push(args@[j as int]@));
        assert(views(args@).take(j + 1) =~= views(args@).take(j as int).push(args@[j as int]@));
        j += 1;
    }
    assert(views(args@).take(args@.len() as int) =~= views(args@));
    r
}

/// Arguments of a banner probe of `path`.
pub fn probe_args(path: &str) -> (r: Vec<String>)
    ensures
        views(r@) == seq!["-hide_banner"@, "-i"@, path@],
{
    let mut r: Vec<String> = Vec::new();
    r.push(owned("-hide_banner"));
    r.push(owned("-i"));
    r.push(owned(path));
    assert(views(r@) =~= seq!["-hide_banner"@, "-i"@, path@]);
    r
}

/// The most recent stderr lines of a run, at most [`STDERR_RING_CAPACITY`].
pub struct StderrTail {
    lines: VecDeque<String>,
}

impl StderrTail {
    #[verifier::type_invariant]
    spec fn bounded(&self) -> bool {
        self.lines@.len() <= 64
    }

    pub closed spec fn spec_lines(&self) -> Seq<Seq<char>> {
        views(self.lines@)
    }

    /// An empty tail.
    pub fn new() -> (t: StderrTail)
        ensures
            t.spec_lines() == Seq::<Seq<char>>::empty(),
    {
        let t = StderrTail { lines: VecDeque::new() };
        assert(t.spec_lines() =~= Seq::<Seq<char>>::empty());
        t
    }

    /// Keep `line`, dropping the oldest line when the tail is full.
    pub fn push(&mut self, line: String)
        ensures
            final(self).spec_lines() == keep_last(old(self).spec_lines().push(line@), 64),
            final(self).spec_lines().len() <= 64,
    {
        proof {
            broadcast use vstd::std_specs::vecdeque::group_vec_dequeue_axioms;
            use_type_invariant(&*self);
        }
        let mut lines: VecDeque<String> = VecDeque::new();
        std::mem::swap(&mut lines, &mut self.lines);
        let ghost before = lines@;
        let ghost lv = line@;
        if lines.len() == STDERR_RING_CAPACITY {
            let _ = lines.pop_front();
        }
        lines.push_back(line);
        proof {
            let s = views(before).push(lv);
            if before.len() == 64 {
                assert(lines@ =~= before.subrange(1, 64).push(lines@.last()));
                assert(views(lines@) =~= s.skip(s.len() - 64));
            } else {
                assert(views(lines@) =~= s);
            }
        }
        self.lines = lines;
    }

    /// The kept lines, oldest first.
    pub fn lines(&self) -> (r: Vec<String>)
        ensures
            views(r@) == self.spec_lines(),
    {
        proof {
            broadcast use vstd::std_specs::vecdeque::group_vec_dequeue_axioms;
        }
        let mut r: Vec<String> = Vec::new();
        let mut i: usize = 0;
        while i < self.lines.len()
            invariant
                i <= self.lines@.len(),
                views(r@) == views(self.lines@).take(i as int),
            decreases self.lines@.len() - i,
        {
            let ghost before = r@;
            r.push(owned(self.lines[i].as_str()));
            assert(views(r@) =~= views(before).push(self.lines@[i as int]@));
            assert(views(self.lines@).take(i + 1) =~= views(self.lines@).take(i as int).push(
                self.lines@[i as int]@,
            ));
            i += 1;
        }
        assert(views(self.lines@).take(self.lines@.len() as int) =~= views(self.lines@));
        r
    }
}

/// Pushing lines one by one keeps exactly the last 64 of them.
pub proof fn lemma_tail_keeps_last(s: Seq<Seq<char>>, x: Seq<char>)
    ensures
        keep_last(keep_last(s, 64).push(x), 64) == keep_last(s.push(x), 64),
{
    let a = keep_last(s, 64).push(x);
    let b = s.push(x);
    assert(keep_last(a, 64) =~= keep_last(b, 64));
}

/// Lines joined with `\n`.
fn join_with_newlines(ls: &Vec<String>) -> (r: Vec<char>)
    ensures
        r@ == join_lines(views(ls@)),
{
    let mut out: Vec<char> = Vec::new();
    let mut i: usize = 0;
    while i < ls.len()
        invariant
            i <= ls@.len(),
            out@ == join_lines(views(ls@).take(i as int)),
        decreases ls.len() - i,
    {
        let ghost pre = views(ls@).take(i as int);
        assert(views(ls@).take(i + 1).drop_last() =~= pre);
        if i > 0 {
            out.push('\n');
        }
        let cs = chars_of(ls[i].as_str());
        crate::text::push_all(&mut out, &cs);
        assert(out@ =~= join_lines(views(ls@).take(i + 1)));
        i += 1;
    }
    assert(views(ls@).take(ls@.len() as int) =~= views(ls@));
    out
}

/// The error of a run that exited unsuccessfully: the exit status text and
/// the kept stderr tail, one line per line.
pub fn exit_failure(status: &str, tail: &StderrTail) -> (e: AppError)
    ensures
        e matches AppError::ProcessingFailed { detail } && detail@ == exit_detail(
            status@,
            tail.spec_lines(),
        ),
{
    let lines = tail.lines();
    let mut d = chars_of("ffmpeg exited with ");
    push_str(&mut d, status);
    push_str(&mut d, ": ");
    let joined = join_with_newlines(&lines);
    crate::text::push_all(&mut d, &joined);
    assert(d@ =~= exit_detail(status@, tail.spec_lines()));
    AppError::ProcessingFailed { detail: string_of(d) }
}

/// What the run loop does after a line of progress output: kill the
/// process (cancelled), pass a sample to the progress callback, or read on.
#[derive(Clone, Copy, Debug, PartialEq, Eq)]
pub enum LineAction {
    Kill,
    Report(FfmpegProgress),
    Read,
}

/// The outcome of a run once ffmpeg has exited (or was killed): a run
/// whose cancellation was requested before the process exited is
/// `Cancelled`, whatever the exit; otherwise a successful exit is `Ok`, any
/// other is the exit failure with the kept stderr tail.
pub fn exit_outcome(cancel_requested: bool, exit_ok: bool, status: &str, tail: &StderrTail) -> (r: Result<(), AppError>)
    ensures
        cancel_requested ==> r == Err::<(), AppError>(AppError::Cancelled),
        !cancel_requested && exit_ok ==> r is Ok,
        !cancel_requested && !exit_ok ==> (r matches Err(AppError::ProcessingFailed { detail })
            && detail@ == exit_detail(status@, tail.spec_lines())),
{
    if cancel_requested {
        Err(AppError::Cancelled)
    } else if exit_ok {
        Ok(())
    } else {
        Err(exit_failure(status, tail))
    }
}

/// Progress callbacks of a run: each parsed sample is remembered, passed on
/// when at least [`PROGRESS_THROTTLE_MS`] passed since the last callback,
/// and the latest one is passed on once more at the end.
pub struct ProgressGate {
    latest: Option<FfmpegProgress>,
}

impl ProgressGate {
    pub closed spec fn spec_latest(&self) -> Option<FfmpegProgress> {
        self.latest
    }

    pub fn new() -> (g: ProgressGate)
        ensures
            g.spec_latest() is None,
    {
        ProgressGate { latest: None }
    }

    /// Feed one stdout line, `ms_since_emit` after the last callback.
    /// Returns the sample to pass on now, if any.
    pub fn on_line(&mut self, line: &str, ms_since_emit: u64) -> (r: Option<FfmpegProgress>)
        ensures
            match progress_value(line@) {
                Some(n) => final(self).spec_latest() == Some(FfmpegProgress { out_time_us: n }) && (
                ms_since_emit >= 250 ==> r == Some(FfmpegProgress { out_time_us: n })) && (
                ms_since_emit < 250 ==> r is None),
                None => final(self).spec_latest() == old(self).spec_latest() && r is None,
            },
    {
        match parse_progress_line(line) {
            Some(p) => {
                self.latest = Some(p);
                if ms_since_emit >= PROGRESS_THROTTLE_MS {
                    Some(p)
                } else {
                    None
                }
            },
            None => None,
        }
    }

    /// One step of the run loop over ffmpeg's progress output. A cancel
    /// request seen when a line arrives stops the run (the process is to
    /// be killed and the line is dropped); otherwise the line goes through
    /// [`ProgressGate::on_line`].
    pub fn step(&mut self, line: &str, cancel_requested: bool, ms_since_emit: u64) -> (r: LineAction)
        ensures
            cancel_requested ==> r is Kill && final(self).spec_latest() == old(self).spec_latest(),
            !cancel_requested ==> match progress_value(line@) {
                Some(n) => final(self).spec_latest() == Some(FfmpegProgress { out_time_us: n }) && (
                ms_since_emit >= 250 ==> r == LineAction::Report(FfmpegProgress { out_time_us: n }))
                    && (ms_since_emit < 250 ==> r is Read),
                None => final(self).spec_latest() == old(self).spec_latest() && r is Read,
            },
    {
        if cancel_requested {
            return LineAction::Kill;
        }
        match self.on_line(line, ms_since_emit) {
            Some(p) => LineAction::Report(p),
            None => LineAction::Read,
        }
    }

    /// The callback due when ffmpeg's output has ended: the latest sample,
    /// unless cancellation was requested (a cancelled run reports nothing
    /// more).
    pub fn on_end(&self, cancel_requested: bool) -> (r: Option<FfmpegProgress>)
        ensures
            cancel_requested ==> r is None,
            !cancel_requested ==> r == self.spec_latest(),
    {
        if cancel_requested {
            None
        } else {
            self.latest
        }
    }

    /// The final callback of a finished run: the latest sample, if any.
    pub fn finish(&self) -> (r: Option<FfmpegProgress>)
        ensures
            r == self.spec_latest(),
    {
        self.latest
    }
}

/// The first video stream of a probe banner, or the error naming `path`.
pub fn video_params_or_error(stderr: &str, path: &str) -> (r: Result<VideoStreamParams, AppError>)
    ensures
        match video_stream_spec(stderr@) {
            Some(t) => r matches Ok(p) && p.spec_tuple() == t,
            None => r matches Err(AppError::ProcessingFailed { detail }) && detail@
                == missing_video_detail(path@),
        },
{
    match parse_video_stream_line(stderr) {
        Some(p) => Ok(p),
        None => {
            let mut d = chars_of("ffmpeg -i ");
            push_str(&mut d, path);
            push_str(&mut d, " did not report a Video stream line");
            assert(d@ =~= missing_video_detail(path@));
            Err(AppError::ProcessingFailed { detail: string_of(d) })
        },
    }
}

/// The error of a probe banner without a `Duration:` line.
pub fn duration_missing(path: &str) -> (e: AppError)
    ensures
        e matches AppError::ProcessingFailed { detail } && detail@ == missing_duration_detail(path@),
{
    let mut d = chars_of("ffmpeg -i ");
    push_str(&mut d, path);
    push_str(&mut d, " did not report a Duration line");
    assert(d@ =~= missing_duration_detail(path@));
    AppError::ProcessingFailed { detail: string_of(d) }
}

/// The error of an ffmpeg binary that could not be started.
pub fn spawn_failure(bin: &str, reason: &str) -> (e: AppError)
    ensures
        e matches AppError::ProcessingFailed { detail } && detail@ == "failed to spawn ffmpeg at "@
            + bin@ + ": "@ + reason@,
{
    let mut d = chars_of("failed to spawn ffmpeg at ");
    push_str(&mut d, bin);
    push_str(&mut d, ": ");
    push_str(&mut d, reason);
    AppError::ProcessingFailed { detail: string_of(d) }
}

/// Every run sends ffmpeg's progress report to its standard output, the
/// stream the runner reads progress lines from: whatever the caller's
/// arguments, the run's argument list starts with `-progress pipe:1`, and
/// nothing else in the fixed prefix names another progress target. A
/// progress line `out_time_us=N` read from there gives the sample `N`.
pub proof fn lemma_run_reports_progress_on_stdout(args: Seq<Seq<char>>, n: u64)
    ensures
        (run_prefix() + args)[0] == "-progress"@,
        (run_prefix() + args)[1] == "pipe:1"@,
        forall|k: int| 2 <= k < run_prefix().len() ==> #[trigger] run_prefix()[k] != "-progress"@,
        crate::ffmpeg::progress_value(crate::ffmpeg::out_time_key() + seq!['='] + crate::text::dec_string(n as nat))
            == Some(n),
{
    reveal_strlit("-progress");
    reveal_strlit("pipe:1");
    reveal_strlit("-nostats");
    reveal_strlit("-hide_banner");
    reveal_strlit("-loglevel");
    reveal_strlit("error");
    assert forall|k: int| 2 <= k < run_prefix().len() implies #[trigger] run_prefix()[k] != "-progress"@ by {
        let w = run_prefix()[k];
        assert(w.len() != 9 || w[1] != 'p');
    }
    crate::ffmpeg::lemma_progress_line_round_trip(n);
}

} // verus!
