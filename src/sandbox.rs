//! What one script run leaves behind: the output it printed, captured line by
//! line, and the value it ended with.

use crate::value::Value;
use vstd::prelude::*;

verus! {

/// The channel a script wrote a line to.
#[derive(Clone, Copy, Debug, PartialEq, Eq, Structural)]
pub enum OutputKind {
    Print,
    Debug,
}

/// The text one emitted line adds to the captured output: the line with a
/// line feed, debug lines behind a `DEBUG: ` marker.
pub open spec fn output_line(kind: OutputKind, line: Seq<char>) -> Seq<char> {
    match kind {
        OutputKind::Print => line + seq!['\n'],
        OutputKind::Debug => seq!['D', 'E', 'B', 'U', 'G', ':', ' '] + line + seq!['\n'],
    }
}

/// The captured output of a sequence of emitted lines, in emission order.
pub open spec fn render(lines: Seq<(OutputKind, Seq<char>)>) -> Seq<char>
    decreases lines.len(),
{
    if lines.len() == 0 {
        Seq::empty()
    } else {
        render(lines.drop_last()) + output_line(lines.last().0, lines.last().1)
    }
}

/// Collects the lines one run emits.
pub struct OutputSink {
    text: String,
    lines: Ghost<Seq<(OutputKind, Seq<char>)>>,
}

impl View for OutputSink {
    type V = Seq<(OutputKind, Seq<char>)>;

    /// The lines emitted so far.
    closed spec fn view(&self) -> Seq<(OutputKind, Seq<char>)> {
        self.lines@
    }
}

impl OutputSink {
    /// The collected text is the rendering of the lines emitted.
    pub closed spec fn wf(&self) -> bool {
        self.text@ == render(self.lines@)
    }

    /// A sink that holds nothing yet.
    pub fn new() -> (r: OutputSink)
        ensures
            r.wf(),
            r@ == Seq::<(OutputKind, Seq<char>)>::empty(),
    {
        OutputSink { text: String::new(), lines: Ghost(Seq::empty()) }
    }

    /// Records one line written to `kind`.
    pub fn emit(&mut self, kind: OutputKind, line: &str)
        requires
            old(self).wf(),
        ensures
            final(self).wf(),
            final(self)@ == old(self)@.push((kind, line@)),
    {
        let ghost before = self.text@;
        match kind {
            OutputKind::Print => {},
            OutputKind::Debug => {
                self.text.append("DEBUG: ");
            },
        }
        self.text.append(line);
        self.text.append("\n");
        self.lines = Ghost(self.lines@.push((kind, line@)));
        proof {
            reveal_strlit("DEBUG: ");
            reveal_strlit("\n");
            assert(self.lines@.drop_last() =~= old(self).lines@);
            assert(self.text@ =~= before + output_line(kind, line@));
        }
    }

    /// The captured output so far.
    pub fn text(&self) -> (r: &str)
        requires
            self.wf(),
        ensures
            r@ == render(self@),
    {
        self.text.as_str()
    }

    /// The captured output, the sink given up.
    pub fn into_text(self) -> (r: String)
        requires
            self.wf(),
        ensures
            r@ == render(self@),
    {
        self.text
    }
}

/// The value a run that failed with `cause` ends with: `Error: ` and the cause.
pub open spec fn error_text(cause: Seq<char>) -> Seq<char> {
    seq!['E', 'r', 'r', 'o', 'r', ':', ' '] + cause
}

/// The file that keeps the output of the last run of the example `id`.
pub open spec fn log_path_spec(id: Seq<char>) -> Seq<char> {
    seq!['l', 'o', 'g', 's', '/'] + id + seq!['.', 'l', 'o', 'g']
}

/// The outcome of one run.
pub struct RunResult {
    /// Everything the script printed, one line per emission.
    pub stdout: String,
    /// The value the script ended with, or the description of its failure.
    pub value: Value,
}

/// The value that stands for a run that failed with `cause`.
pub fn error_value(cause: &str) -> (r: Value)
    ensures
        r is Str,
        r->Str_0@ == error_text(cause@),
{
    let mut s = String::new();
    s.append("Error: ");
    s.append(cause);
    proof {
        reveal_strlit("Error: ");
        assert(s@ =~= error_text(cause@));
    }
    Value::Str(s)
}

impl RunResult {
    /// The result of a run that emitted the lines of `sink` and ended with
    /// `outcome`: its value, or the cause of its failure.
    pub fn finish(sink: OutputSink, outcome: Result<Value, String>) -> (r: RunResult)
        requires
            sink.wf(),
        ensures
            r.stdout@ == render(sink@),
            match outcome {
                Ok(v) => r.value == v,
                Err(cause) => r.value is Str && r.value->Str_0@ == error_text(cause@),
            },
    {
        let stdout = sink.into_text();
        let value = match outcome {
            Ok(v) => v,
            Err(cause) => error_value(cause.as_str()),
        };
        RunResult { stdout, value }
    }

    /// Where the output of this run of the example `id` is kept: nowhere when
    /// the run printed nothing.
    pub fn log_file(&self, id: &str) -> (r: Option<String>)
        ensures
            self.stdout@.len() == 0 ==> r is None,
            self.stdout@.len() > 0 ==> r is Some && r->Some_0@ == log_path_spec(id@),
    {
        if self.stdout.as_str().is_empty() {
            None
        } else {
            Some(log_path(id))
        }
    }
}

/// The file that keeps the output of the last run of the example `id`.
pub fn log_path(id: &str) -> (r: String)
    ensures
        r@ == log_path_spec(id@),
{
    let mut s = String::new();
    s.append("logs/");
    s.append(id);
    s.append(".log");
    proof {
        reveal_strlit("logs/");
        reveal_strlit(".log");
        assert(s@ =~= log_path_spec(id@));
    }
    s
}

/// The console text of a run: its output, then `=> ` and the value as shown.
pub fn console_text(stdout: &str, shown_value: &str) -> (r: String)
    ensures
        r@ == stdout@ + seq!['=', '>', ' '] + shown_value@,
{
    let mut s = String::new();
    s.append(stdout);
    s.append("=> ");
    s.append(shown_value);
    proof {
        reveal_strlit("=> ");
        assert(s@ =~= stdout@ + seq!['=', '>', ' '] + shown_value@);
    }
    s
}

} // verus!
