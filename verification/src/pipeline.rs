//! The pipeline builder: one input line is split on the pipe character
//! (string-level, not quote-aware), each segment is trimmed of surrounding
//! whitespace and parsed as a stage, and the stages are wired together by
//! abstract pipe endpoints, numbered from zero. A pipeline of N stages uses
//! pipes 0..N-1: stage i writes to pipe i and stage i+1 reads from pipe i.
//! The first stage reads from the terminal; the last writes to the terminal
//! unless redirected to a file. Stdout redirection is honored on the final
//! stage only: on earlier stages the downstream pipe takes precedence.
//! Stderr redirection is honored on every stage.
//!
//! The records built here carry endpoint numbers, not open handles; the
//! surrounding program allocates one real pipe per number and must close
//! each end as soon as it is handed to its stage.
use vstd::prelude::*;

use crate::redirect::Redirect;
use crate::redirect::parse_stage;
use crate::redirect::scanned;
use crate::redirect::stage_argv;
use crate::strutil::chars_to_string;
use crate::tokenize::tokens_of;

verus! {

/// Splitting the raw line on `|`, from position `i`, with the pending
/// segment `cur` and the segments `acc` already cut. Unlike tokens,
/// segments may be empty.
pub open spec fn split_from(s: Seq<char>, i: int, cur: Seq<char>, acc: Seq<Seq<char>>) -> Seq<
    Seq<char>,
>
    decreases s.len() - i,
{
    if !(0 <= i < s.len()) {
        acc.push(cur)
    } else if s[i] == '|' {
        split_from(s, i + 1, Seq::empty(), acc.push(cur))
    } else {
        split_from(s, i + 1, cur.push(s[i]), acc)
    }
}

/// The segments of a line: the pieces between pipe characters, in order.
/// A line with no pipe is one segment; N pipes give N+1 segments.
pub open spec fn split_pipes(s: Seq<char>) -> Seq<Seq<char>> {
    split_from(s, 0, Seq::empty(), Seq::empty())
}

proof fn lemma_split_from_len(s: Seq<char>, i: int, cur: Seq<char>, acc: Seq<Seq<char>>)
    ensures
        split_from(s, i, cur, acc).len() > acc.len(),
    decreases s.len() - i,
{
    if !(0 <= i < s.len()) {
    } else if s[i] == '|' {
        lemma_split_from_len(s, i + 1, Seq::empty(), acc.push(cur));
    } else {
        lemma_split_from_len(s, i + 1, cur.push(s[i]), acc);
    }
}

/// A line always has at least one segment.
pub proof fn lemma_split_pipes_nonempty(s: Seq<char>)
    ensures
        split_pipes(s).len() >= 1,
{
    lemma_split_from_len(s, 0, Seq::empty(), Seq::empty());
}

/// Splits a line on the pipe character. The split is not quote-aware: a
/// pipe inside quotes separates stages all the same.
pub fn split_on_pipes(line: &str) -> (segments: Vec<String>)
    ensures
        segments.deep_view() == split_pipes(line@),
        segments.len() >= 1,
{
    proof {
        lemma_split_pipes_nonempty(line@);
    }
    let n = line.unicode_len();
    let mut i: usize = 0;
    let mut cur: Vec<char> = Vec::new();
    let mut acc: Vec<String> = Vec::new();
    proof {
        assert(cur@ =~= Seq::<char>::empty());
        assert(acc.deep_view() =~= Seq::<Seq<char>>::empty());
    }
    while i < n
        invariant
            n == line@.len(),
            i <= n,
            split_from(line@, i as int, cur@, acc.deep_view()) == split_pipes(line@),
        decreases n - i,
    {
        let ghost prev_acc = acc.deep_view();
        let c = line.get_char(i);
        if c == '|' {
            let t = chars_to_string(&cur);
            acc.push(t);
            proof {
                assert(acc.deep_view() =~= prev_acc.push(cur@));
            }
            cur = Vec::new();
            proof {
                assert(cur@ =~= Seq::<char>::empty());
            }
        } else {
            cur.push(c);
        }
        i += 1;
    }
    let ghost prev_acc = acc.deep_view();
    let t = chars_to_string(&cur);
    acc.push(t);
    proof {
        assert(acc.deep_view() =~= prev_acc.push(cur@));
    }
    acc
}

/// The whitespace trimmed from a segment's ends: space, tab, newline,
/// carriage return.
pub open spec fn is_blank(c: char) -> bool {
    c == ' ' || c == '\t' || c == '\n' || c == '\r'
}

pub open spec fn trim_left(s: Seq<char>) -> Seq<char>
    decreases s.len(),
{
    if s.len() > 0 && is_blank(s[0]) {
        trim_left(s.drop_first())
    } else {
        s
    }
}

pub open spec fn trim_right(s: Seq<char>) -> Seq<char>
    decreases s.len(),
{
    if s.len() > 0 && is_blank(s.last()) {
        trim_right(s.drop_last())
    } else {
        s
    }
}

/// A segment with surrounding whitespace removed.
pub open spec fn trimmed(s: Seq<char>) -> Seq<char> {
    trim_right(trim_left(s))
}

proof fn lemma_trim_left_skip(s: Seq<char>, k: int)
    requires
        0 <= k <= s.len(),
        forall|j: int| 0 <= j < k ==> is_blank(s[j]),
        k == s.len() || !is_blank(s[k]),
    ensures
        trim_left(s) == s.skip(k),
    decreases k,
{
    if k == 0 {
        assert(s.skip(0) =~= s);
    } else {
        let s1 = s.drop_first();
        assert(s1 =~= s.skip(1));
        lemma_trim_left_skip(s1, k - 1);
        assert(s1.skip(k - 1) =~= s.skip(k));
    }
}

proof fn lemma_trim_right_take(s: Seq<char>, k: int)
    requires
        0 <= k <= s.len(),
        forall|j: int| k <= j < s.len() ==> is_blank(s[j]),
        k == 0 || !is_blank(s[k - 1]),
    ensures
        trim_right(s) == s.take(k),
    decreases s.len(),
{
    if k == s.len() {
        assert(s.take(k) =~= s);
    } else {
        assert(is_blank(s.last()));
        let s1 = s.drop_last();
        lemma_trim_right_take(s1, k);
        assert(s1.take(k) =~= s.take(k));
    }
}

fn blank_char(c: char) -> (r: bool)
    ensures
        r == is_blank(c),
{
    c == ' ' || c == '\t' || c == '\n' || c == '\r'
}

/// Removes leading and trailing whitespace from a segment.
pub fn trim(s: &str) -> (r: String)
    ensures
        r@ == trimmed(s@),
{
    let n = s.unicode_len();
    let mut a: usize = 0;
    while a < n && blank_char(s.get_char(a))
        invariant
            n == s@.len(),
            a <= n,
            forall|j: int| 0 <= j < a ==> is_blank(s@[j]),
        decreases n - a,
    {
        a += 1;
    }
    if a == n {
        proof {
            lemma_trim_left_skip(s@, n as int);
            assert(s@.skip(n as int) =~= Seq::<char>::empty());
        }
        return String::new();
    }
    let mut b: usize = n;
    while b > a + 1 && blank_char(s.get_char(b - 1))
        invariant
            n == s@.len(),
            a < b <= n,
            !is_blank(s@[a as int]),
            forall|j: int| b <= j < n ==> is_blank(s@[j]),
        decreases b,
    {
        b -= 1;
    }
    let sub = s.substring_char(a, b);
    let r = String::from_str(sub);
    proof {
        lemma_trim_left_skip(s@, a as int);
        if is_blank(s@[b - 1]) {
            assert(b == a + 1);
            assert(false);
        }
        lemma_trim_right_take(s@.skip(a as int), b - a);
        assert(s@.skip(a as int).take(b - a) =~= s@.subrange(a as int, b as int));
    }
    r
}

/// The trimmed segments of an input line: what each pipeline stage is
/// parsed from.
pub open spec fn segments_of(line: Seq<char>) -> Seq<Seq<char>> {
    split_pipes(line).map_values(|seg: Seq<char>| trimmed(seg))
}

/// Where a stage reads its standard input: the terminal, or the read end of
/// the numbered pipe.
#[derive(Debug, Clone, PartialEq, Eq)]
pub enum StdinSource {
    Inherit,
    Pipe(usize),
}

/// Where a stage writes its standard output: the terminal, a redirection
/// target, or the write end of the numbered pipe.
#[derive(Debug, Clone, PartialEq, Eq)]
pub enum StdoutSink {
    Inherit,
    File(Redirect),
    Pipe(usize),
}

/// Where a stage writes its standard error: the terminal or a redirection
/// target.
#[derive(Debug, Clone, PartialEq, Eq)]
pub enum StderrSink {
    Inherit,
    File(Redirect),
}

/// The mathematical model of a stdout sink.
pub enum StdoutSinkModel {
    Inherit,
    File(Seq<char>, bool),
    Pipe(int),
}

pub open spec fn stdout_model(s: StdoutSink) -> StdoutSinkModel {
    match s {
        StdoutSink::Inherit => StdoutSinkModel::Inherit,
        StdoutSink::File(r) => StdoutSinkModel::File(r.target@, r.append),
        StdoutSink::Pipe(k) => StdoutSinkModel::Pipe(k as int),
    }
}

/// The mathematical model of a stderr sink.
pub enum StderrSinkModel {
    Inherit,
    File(Seq<char>, bool),
}

pub open spec fn stderr_model(s: StderrSink) -> StderrSinkModel {
    match s {
        StderrSink::Inherit => StderrSinkModel::Inherit,
        StderrSink::File(r) => StderrSinkModel::File(r.target@, r.append),
    }
}

/// The stdout sink a redirection scan result calls for, when no pipe is
/// bound: the file if a redirection was given, the terminal otherwise.
pub open spec fn stdout_model_of_redirect(o: Option<(Seq<char>, bool)>) -> StdoutSinkModel {
    match o {
        Option::Some((t, a)) => StdoutSinkModel::File(t, a),
        Option::None => StdoutSinkModel::Inherit,
    }
}

pub open spec fn stderr_model_of_redirect(o: Option<(Seq<char>, bool)>) -> StderrSinkModel {
    match o {
        Option::Some((t, a)) => StderrSinkModel::File(t, a),
        Option::None => StderrSinkModel::Inherit,
    }
}

/// One pipeline stage, immutable after construction: its arguments after
/// redirection removal and the bindings of its three standard streams.
#[derive(Debug)]
pub struct CommandRecord {
    pub argv: Vec<String>,
    pub stdin_source: StdinSource,
    pub stdout_sink: StdoutSink,
    pub stderr_sink: StderrSink,
}

/// How the stages of a pipeline share its pipes: stage 0 reads from the
/// terminal and stage i > 0 from pipe i-1; every stage but the last writes
/// to its own pipe, and the last never writes to a pipe.
pub open spec fn pipes_wired(cmds: Seq<CommandRecord>) -> bool {
    &&& cmds.len() >= 1
    &&& forall|i: int|
        0 <= i < cmds.len() ==> cmds[i].stdin_source == (if i == 0 {
            StdinSource::Inherit
        } else {
            StdinSource::Pipe((i - 1) as usize)
        })
    &&& forall|i: int|
        0 <= i < cmds.len() - 1 ==> stdout_model(cmds[i].stdout_sink) == StdoutSinkModel::Pipe(i)
    &&& !(stdout_model(cmds[cmds.len() - 1].stdout_sink) is Pipe)
}

/// A pipeline of N stages uses exactly the pipes numbered 0..N-1, and every
/// endpoint is bound to exactly one stage: pipe k's write end to stage k
/// alone, its read end to stage k+1 alone. No stage holds a pipe number
/// outside that range, so nothing is left unbound.
pub proof fn lemma_pipe_endpoints(cmds: Seq<CommandRecord>)
    requires
        pipes_wired(cmds),
        cmds.len() <= usize::MAX,
    ensures
        forall|k: int|
            0 <= k < cmds.len() - 1 ==> stdout_model(cmds[k].stdout_sink) == StdoutSinkModel::Pipe(
                k,
            ) && cmds[k + 1].stdin_source == StdinSource::Pipe(k as usize),
        forall|i: int, k: int|
            0 <= i < cmds.len() && stdout_model(cmds[i].stdout_sink) == StdoutSinkModel::Pipe(k)
                ==> k == i && 0 <= k < cmds.len() - 1,
        forall|i: int, k: usize|
            0 <= i < cmds.len() && cmds[i].stdin_source == StdinSource::Pipe(k) ==> i == k + 1 && k
                < cmds.len() - 1,
{
    assert forall|i: int, k: int|
        0 <= i < cmds.len() && stdout_model(cmds[i].stdout_sink) == StdoutSinkModel::Pipe(k)
            implies k == i && 0 <= k < cmds.len() - 1 by {
        if i == cmds.len() - 1 {
            assert(!(stdout_model(cmds[i].stdout_sink) is Pipe));
        }
    }
    assert forall|i: int, k: usize|
        0 <= i < cmds.len() && cmds[i].stdin_source == StdinSource::Pipe(k) implies i == k + 1 && k
            < cmds.len() - 1 by {
        if i == 0 {
            assert(cmds[i].stdin_source == StdinSource::Inherit);
        } else {
            assert(cmds[i].stdin_source == StdinSource::Pipe((i - 1) as usize));
        }
    }
}

/// Builds the pipeline for one input line: N trimmed segments become N
/// command records wired by pipes 0..N-1, with redirections honored on the
/// final stage's stdout and on every stage's stderr.
pub fn build_pipeline(line: &str) -> (cmds: Vec<CommandRecord>)
    ensures
        cmds.len() == segments_of(line@).len(),
        cmds.len() >= 1,
        forall|i: int|
            0 <= i < cmds.len() ==> #[trigger] cmds[i].argv.deep_view() == stage_argv(
                tokens_of(segments_of(line@)[i]),
            ),
        pipes_wired(cmds@),
        stdout_model(cmds[cmds.len() - 1].stdout_sink) == stdout_model_of_redirect(
            scanned(tokens_of(segments_of(line@).last())).0,
        ),
        forall|i: int|
            0 <= i < cmds.len() ==> stderr_model(#[trigger] cmds[i].stderr_sink)
                == stderr_model_of_redirect(scanned(tokens_of(segments_of(line@)[i])).1),
{
    let segments = split_on_pipes(line);
    let n = segments.len();
    let ghost segs = segments_of(line@);
    proof {
        assert(segs.len() == n);
    }
    let mut cmds: Vec<CommandRecord> = Vec::new();
    let mut i: usize = 0;
    while i < n
        invariant
            n == segments.len(),
            segments.deep_view() == split_pipes(line@),
            segs == segments_of(line@),
            segs.len() == n,
            n >= 1,
            i <= n,
            cmds.len() == i,
            forall|j: int|
                0 <= j < i ==> #[trigger] cmds[j].argv.deep_view() == stage_argv(
                    tokens_of(segs[j]),
                ),
            forall|j: int|
                0 <= j < i ==> cmds[j].stdin_source == (if j == 0 {
                    StdinSource::Inherit
                } else {
                    StdinSource::Pipe((j - 1) as usize)
                }),
            forall|j: int|
                0 <= j < i && j < n - 1 ==> stdout_model(#[trigger] cmds[j].stdout_sink)
                    == StdoutSinkModel::Pipe(j),
            forall|j: int|
                0 <= j < i && j == n - 1 ==> stdout_model(#[trigger] cmds[j].stdout_sink)
                    == stdout_model_of_redirect(scanned(tokens_of(segs[j])).0),
            forall|j: int|
                0 <= j < i ==> stderr_model(#[trigger] cmds[j].stderr_sink)
                    == stderr_model_of_redirect(scanned(tokens_of(segs[j])).1),
        decreases n - i,
    {
        proof {
            assert(segments.deep_view()[i as int] == segments[i as int]@);
            assert(segs[i as int] == trimmed(split_pipes(line@)[i as int]));
        }
        let seg = trim(segments[i].as_str());
        let stage = parse_stage(seg.as_str());
        let stdin_source = if i == 0 {
            StdinSource::Inherit
        } else {
            StdinSource::Pipe(i - 1)
        };
        let stdout_sink = if i < n - 1 {
            StdoutSink::Pipe(i)
        } else {
            match stage.out {
                Some(r) => StdoutSink::File(r),
                None => StdoutSink::Inherit,
            }
        };
        let stderr_sink = match stage.err {
            Some(r) => StderrSink::File(r),
            None => StderrSink::Inherit,
        };
        cmds.push(
            CommandRecord { argv: stage.argv, stdin_source, stdout_sink, stderr_sink },
        );
        i += 1;
    }
    cmds
}

} // verus!
