//! Result aggregation.
//!
//! Once the supervisory loop has ended and the child has been reaped, the
//! buffered output lines of each channel are newline-joined, and the exit
//! code, peak metrics, elapsed time and timeout flag are assembled into the
//! final record. Assembly is synchronous and cannot fail.

use vstd::prelude::*;

verus! {

/// The terminal record of one run: concatenated stdout and stderr lines
/// (newline-joined, order preserved per channel), the exit code (-1 when the
/// run timed out or no code could be determined), the peak metrics, the
/// elapsed wall-clock time, and whether the run was cut off by its deadline.
///
/// CPU usage is held in hundredths of a percent so that peak tracking is
/// exact integer arithmetic; memory is whole megabytes.
#[derive(Debug, Clone)]
pub struct CommandResult {
    pub stdout: String,
    pub stderr: String,
    pub exit_code: i32,
    pub max_cpu: u64,
    pub max_memory_mb: u64,
    pub duration_ms: u64,
    pub timed_out: bool,
}

/// The lines of one channel joined with single newlines, in order: no
/// trailing newline, and the empty string for an empty buffer.
pub open spec fn join_lines(lines: Seq<Seq<char>>) -> Seq<char>
    decreases lines.len(),
{
    if lines.len() == 0 {
        Seq::empty()
    } else if lines.len() == 1 {
        lines[0]
    } else {
        lines[0] + seq!['\n'] + join_lines(lines.drop_first())
    }
}

/// The joined text cut back into lines: one part per stretch between
/// newlines, so n newlines give n + 1 parts.
pub open spec fn split_lines(s: Seq<char>) -> Seq<Seq<char>>
    decreases s.len(),
{
    if s.len() == 0 {
        seq![Seq::<char>::empty()]
    } else if s[0] == '\n' {
        seq![Seq::<char>::empty()] + split_lines(s.drop_first())
    } else {
        let rest = split_lines(s.drop_first());
        seq![seq![s[0]] + rest[0]] + rest.drop_first()
    }
}

proof fn lemma_split_lines_len(s: Seq<char>)
    ensures
        split_lines(s).len() >= 1,
    decreases s.len(),
{
    if s.len() == 0 {
    } else {
        lemma_split_lines_len(s.drop_first());
    }
}

proof fn lemma_split_single_line(s: Seq<char>)
    requires
        !s.contains('\n'),
    ensures
        split_lines(s) == seq![s],
    decreases s.len(),
{
    if s.len() == 0 {
        assert(s =~= Seq::<char>::empty());
        assert(seq![Seq::<char>::empty()] =~= seq![s]);
    } else {
        assert(s[0] != '\n');
        let tail = s.drop_first();
        assert(!tail.contains('\n')) by {
            if tail.contains('\n') {
                let i = choose|i: int| 0 <= i < tail.len() && tail[i] == '\n';
                assert(s[i + 1] == '\n');
            }
        }
        lemma_split_single_line(tail);
        assert(seq![tail].drop_first() =~= Seq::<Seq<char>>::empty());
        assert(seq![seq![s[0]] + tail] + Seq::<Seq<char>>::empty() =~= seq![seq![s[0]] + tail]);
        assert(seq![s[0]] + tail =~= s);
        assert(split_lines(s) =~= seq![s]);
    }
}

proof fn lemma_split_at_first_newline(a: Seq<char>, b: Seq<char>)
    requires
        !a.contains('\n'),
    ensures
        split_lines(a + seq!['\n'] + b) == seq![a] + split_lines(b),
    decreases a.len(),
{
    let s = a + seq!['\n'] + b;
    if a.len() == 0 {
        assert(s[0] == '\n');
        assert(s.drop_first() =~= b);
        assert(a =~= Seq::<char>::empty());
        assert(seq![Seq::<char>::empty()] + split_lines(b) =~= seq![a] + split_lines(b));
    } else {
        assert(s[0] == a[0]);
        assert(a[0] != '\n');
        let at = a.drop_first();
        assert(!at.contains('\n')) by {
            if at.contains('\n') {
                let i = choose|i: int| 0 <= i < at.len() && at[i] == '\n';
                assert(a[i + 1] == '\n');
            }
        }
        assert(s.drop_first() =~= at + seq!['\n'] + b);
        lemma_split_at_first_newline(at, b);
        let rest = split_lines(s.drop_first());
        lemma_split_lines_len(b);
        assert(rest == seq![at] + split_lines(b));
        assert(rest[0] == at);
        assert(rest.drop_first() =~= split_lines(b));
        assert(seq![a[0]] + at =~= a);
        assert(split_lines(s) =~= seq![a] + split_lines(b));
    }
}

/// Joining any non-empty sequence of newline-free lines and splitting the
/// text again gives back exactly the same lines: as many as were joined, in
/// the same order, each unchanged. A channel that buffered n lines therefore
/// contributes exactly n newline-joined lines to the final text, whatever
/// the other channel did meanwhile.
pub proof fn lemma_join_then_split(lines: Seq<Seq<char>>)
    requires
        lines.len() > 0,
        forall|i: int| 0 <= i < lines.len() ==> !(#[trigger] lines[i]).contains('\n'),
    ensures
        split_lines(join_lines(lines)) == lines,
        split_lines(join_lines(lines)).len() == lines.len(),
    decreases lines.len(),
{
    if lines.len() == 1 {
        lemma_split_single_line(lines[0]);
        assert(seq![lines[0]] =~= lines);
    } else {
        let rest = lines.drop_first();
        lemma_join_then_split(rest);
        lemma_split_at_first_newline(lines[0], join_lines(rest));
        assert(seq![lines[0]] + rest =~= lines);
    }
}

proof fn lemma_join_lines_push(lines: Seq<Seq<char>>, l: Seq<char>)
    requires
        lines.len() > 0,
    ensures
        join_lines(lines.push(l)) == join_lines(lines) + seq!['\n'] + l,
    decreases lines.len(),
{
    if lines.len() == 1 {
        let p = lines.push(l);
        assert(p.len() == 2);
        assert(p[0] == lines[0]);
        assert(p.drop_first() =~= seq![l]);
        assert(join_lines(seq![l]) == l);
        assert(join_lines(p) == p[0] + seq!['\n'] + join_lines(p.drop_first()));
        assert(join_lines(p) == lines[0] + seq!['\n'] + l);
    } else {
        let p = lines.push(l);
        assert(p[0] == lines[0]);
        assert(p.drop_first() =~= lines.drop_first().push(l));
        lemma_join_lines_push(lines.drop_first(), l);
        assert(join_lines(p) == lines[0] + seq!['\n'] + (join_lines(lines.drop_first())
            + seq!['\n'] + l));
        assert(lines[0] + seq!['\n'] + (join_lines(lines.drop_first()) + seq!['\n'] + l) =~= (
        lines[0] + seq!['\n'] + join_lines(lines.drop_first())) + seq!['\n'] + l);
    }
}

/// Joins a channel's buffered lines with single newlines, keeping their
/// order.
pub fn join_line_buffer(lines: &Vec<String>) -> (r: String)
    ensures
        r@ == join_lines(lines.deep_view()),
{
    let mut out = String::new();
    let n = lines.len();
    let mut i: usize = 0;
    while i < n
        invariant
            n == lines@.len(),
            i <= n,
            out@ == join_lines(lines.deep_view().take(i as int)),
        decreases n - i,
    {
        proof {
            reveal_strlit("\n");
        }
        if i > 0 {
            out.append("\n");
        }
        out.append(lines[i].as_str());
        proof {
            let lv = lines.deep_view();
            assert("\n"@ =~= seq!['\n']);
            assert(lv.take(i as int).push(lv[i as int]) =~= lv.take(i + 1 as int));
            if i == 0 {
                assert(lv.take(1)[0] == lv[0]);
                assert(out@ =~= join_lines(lv.take(1)));
            } else {
                lemma_join_lines_push(lv.take(i as int), lv[i as int]);
                assert(out@ =~= join_lines(lv.take(i + 1 as int)));
            }
        }
        i = i + 1;
    }
    proof {
        assert(lines.deep_view().take(n as int) =~= lines.deep_view());
    }
    out
}

/// The private ordered buffer of one output channel's streamer. Each line
/// read from the stream is appended at the end; lines already buffered
/// never change, so the buffer always holds the channel's lines in source
/// order.
pub struct OutputBuffer {
    lines: Vec<String>,
}

impl OutputBuffer {
    /// What the buffer holds, line by line, in arrival order.
    pub closed spec fn lines_view(&self) -> Seq<Seq<char>> {
        self.lines.deep_view()
    }

    /// An empty buffer.
    pub fn new() -> (r: Self)
        ensures
            r.lines_view() == Seq::<Seq<char>>::empty(),
    {
        let buffer = OutputBuffer { lines: Vec::new() };
        proof {
            assert(buffer.lines.deep_view() =~= Seq::<Seq<char>>::empty());
        }
        buffer
    }

    /// Appends one line at the end and leaves the rest untouched.
    pub fn push_line(&mut self, line: String)
        ensures
            final(self).lines_view() == old(self).lines_view().push(line@),
    {
        let ghost before = self.lines.deep_view();
        let ghost line_view = line@;
        self.lines.push(line);
        proof {
            assert(self.lines.deep_view() =~= before.push(line_view));
        }
    }

    /// Hands the buffered lines over, in order.
    pub fn into_lines(self) -> (r: Vec<String>)
        ensures
            r.deep_view() == self.lines_view(),
    {
        self.lines
    }
}

/// The exit code of the final record: -1 when the run timed out, otherwise
/// the code the process reported, or -1 when it reported none.
pub open spec fn final_exit_code(timed_out: bool, status_code: Option<i32>) -> i32 {
    if timed_out {
        -1i32
    } else {
        match status_code {
            Some(c) => c,
            None => -1i32,
        }
    }
}

/// A timed-out run always carries the sentinel exit code, whatever status
/// the reaped child reported.
pub proof fn lemma_timeout_exit_code(status_code: Option<i32>)
    ensures
        final_exit_code(true, status_code) == -1,
{
}

/// Joins the buffered output of both channels and assembles the final
/// record: per-channel newline-joined text, the exit code (-1 on timeout or
/// an undeterminable status), the peak metrics, the elapsed time and the
/// timeout flag.
pub fn aggregate_result(
    stdout_lines: &Vec<String>,
    stderr_lines: &Vec<String>,
    status_code: Option<i32>,
    timed_out: bool,
    max_cpu: u64,
    max_memory_mb: u64,
    duration_ms: u64,
) -> (r: CommandResult)
    ensures
        r.stdout@ == join_lines(stdout_lines.deep_view()),
        r.stderr@ == join_lines(stderr_lines.deep_view()),
        r.exit_code == final_exit_code(timed_out, status_code),
        r.max_cpu == max_cpu,
        r.max_memory_mb == max_memory_mb,
        r.duration_ms == duration_ms,
        r.timed_out == timed_out,
{
    let exit_code: i32 = if timed_out {
        -1
    } else {
        match status_code {
            Some(c) => c,
            None => -1,
        }
    };
    CommandResult {
        stdout: join_line_buffer(stdout_lines),
        stderr: join_line_buffer(stderr_lines),
        exit_code,
        max_cpu,
        max_memory_mb,
        duration_ms,
        timed_out,
    }
}

} // verus!
