//! Redirects: what a command reads from or writes to in place of its streams.

use crate::run::{failed_on_word, refused, Finished, FinishedView};
use crate::state::ShellState;
use crate::syntax::{IoFile, Redirect, RedirectFd, RedirectOp, RedirectOpOutput, Word};
use crate::text::{decimal, join_text, same_text, size_text};
use crate::types::{
    changes_view, plain_result, EnvChange, EnvChangeView, ExecuteResult, ResultView,
};
use crate::words::{
    word_outcome, EvaluateWordTextError, WordErrorView, WordPartsResult, WordPartsView,
};
use vstd::prelude::*;

verus! {

/// How a file is opened.
#[derive(Debug, Clone, Copy, PartialEq, Eq, Structural)]
pub enum OpenMode {
    /// For reading.
    Read,
    /// For writing from the start; it is made where there is none, and emptied where there is one.
    Overwrite,
    /// For writing at the end; it is made where there is none.
    Append,
}

/// A file that is to be opened: `path`, seen from the directory `dir`.
#[derive(Debug)]
pub struct OpenRequest {
    pub dir: String,
    pub path: String,
    pub mode: OpenMode,
}

/// What an [`OpenRequest`] says.
#[verifier::ext_equal]
pub struct OpenRequestView {
    pub dir: Seq<char>,
    pub path: Seq<char>,
    pub mode: OpenMode,
}

impl View for OpenRequest {
    type V = OpenRequestView;

    open spec fn view(&self) -> OpenRequestView {
        OpenRequestView { dir: self.dir@, path: self.path@, mode: self.mode }
    }
}

/// What a redirect leads to.
#[derive(Debug, Clone, Copy, PartialEq, Eq, Structural)]
pub enum RedirectPipe {
    /// The output stream as it was before the redirect.
    Stdout,
    /// The error stream as it was before the redirect.
    Stderr,
    /// Nowhere: what is written is lost.
    Null,
    /// The file that was opened.
    File,
}

/// The streams that a redirect replaces.
#[derive(Debug, Clone, Copy, PartialEq, Eq, Structural)]
pub enum RedirectRoute {
    Stdin,
    Stdout,
    Stderr,
    StdoutAndStderr,
}

/// The streams that a redirect replaces, or the line that says why it cannot.
pub open spec fn redirect_route(op: RedirectOp, fd: Option<RedirectFd>) -> Result<
    RedirectRoute,
    Seq<char>,
> {
    match op {
        RedirectOp::Input(_) => match fd {
            Some(_) => Err("input redirects with file descriptors are not supported"@),
            None => Ok(RedirectRoute::Stdin),
        },
        RedirectOp::Output(_) => match fd {
            None => Ok(RedirectRoute::Stdout),
            Some(RedirectFd::StdoutStderr) => Ok(RedirectRoute::StdoutAndStderr),
            Some(RedirectFd::Fd(n)) => if n == 1 {
                Ok(RedirectRoute::Stdout)
            } else if n == 2 {
                Ok(RedirectRoute::Stderr)
            } else {
                Err("only redirecting to stdout (1) and stderr (2) is supported"@)
            },
        },
    }
}

/// What a redirect does next.
#[verifier::ext_equal]
pub enum RedirectStepView<H> {
    /// The word is evaluated.
    Evaluate(Word, RedirectOp, Option<RedirectFd>),
    /// The file is opened.
    Open(OpenRequestView, RedirectOp, Option<RedirectFd>, Seq<EnvChangeView>),
    /// The text is reported as an error, and the command ends with the result.
    Report(Seq<char>, ResultView<H>),
    Refused(FinishedView<H>),
    Ready(RedirectPipe, RedirectRoute, Seq<EnvChangeView>),
}

/// How a redirect goes on once it is known what it leads to.
pub open spec fn resolved<H>(
    pipe: RedirectPipe,
    op: RedirectOp,
    fd: Option<RedirectFd>,
    changes: Seq<EnvChangeView>,
) -> RedirectStepView<H> {
    match redirect_route(op, fd) {
        Ok(route) => RedirectStepView::Ready(pipe, route, changes),
        Err(line) => RedirectStepView::Refused(refused(line, 1)),
    }
}

/// How a redirect starts.
pub open spec fn redirect_start<H>(redirect: Redirect) -> RedirectStepView<H> {
    match redirect.io_file {
        IoFile::Word(word) => RedirectStepView::Evaluate(word, redirect.op, redirect.maybe_fd),
        IoFile::Fd(fd) => match redirect.op {
            RedirectOp::Input(_) => RedirectStepView::Refused(
                refused("shell: input redirecting file descriptors is not implemented"@, 1),
            ),
            RedirectOp::Output(_) => if fd == 1 {
                resolved(RedirectPipe::Stdout, redirect.op, redirect.maybe_fd, seq![])
            } else if fd == 2 {
                resolved(RedirectPipe::Stderr, redirect.op, redirect.maybe_fd, seq![])
            } else {
                RedirectStepView::Report(
                    "shell: output redirecting file descriptors beyond stdout and stderr is not implemented"@,
                    plain_result(1),
                )
            },
        },
    }
}

/// The line for a redirect whose word is not one word.
pub open spec fn word_count_line(words: Seq<Seq<char>>) -> Seq<char> {
    if words.len() == 0 {
        "redirect path must be 1 argument, but found 0"@
    } else {
        let joined = join_text(words, " "@);
        "redirect path must be 1 argument, but found "@ + decimal(words.len() as int) + " ("@
            + joined + "). Did you mean to quote it (ex. \""@ + joined + "\")?"@
    }
}

/// How a redirect goes on with the words of its word, in the directory `cwd`.
pub open spec fn redirect_words<H>(
    op: RedirectOp,
    fd: Option<RedirectFd>,
    outcome: Result<WordPartsView, WordErrorView>,
    cwd: Seq<char>,
) -> RedirectStepView<H> {
    match outcome {
        Err(e) => RedirectStepView::Refused(failed_on_word(e)),
        Ok(words) => if words.value.len() != 1 {
            RedirectStepView::Refused(refused(word_count_line(words.value), 1))
        } else {
            let path = words.value[0];
            match op {
                RedirectOp::Input(_) => RedirectStepView::Open(
                    OpenRequestView { dir: cwd, path, mode: OpenMode::Read },
                    op,
                    fd,
                    words.changes,
                ),
                RedirectOp::Output(output) => if path == "/dev/null"@ {
                    resolved(RedirectPipe::Null, op, fd, words.changes)
                } else {
                    RedirectStepView::Open(
                        OpenRequestView {
                            dir: cwd,
                            path,
                            mode: match output {
                                RedirectOpOutput::Append => OpenMode::Append,
                                RedirectOpOutput::Overwrite => OpenMode::Overwrite,
                            },
                        },
                        op,
                        fd,
                        words.changes,
                    )
                },
            }
        },
    }
}

/// The line for a file that cannot be opened.
pub open spec fn open_failure_line(path: Seq<char>, error: Seq<char>) -> Seq<char> {
    "error opening file for redirect ("@ + path + "). "@ + error
}

/// A redirect that waits for the words of its word.
#[derive(Debug)]
pub struct RedirectRun {
    op: RedirectOp,
    fd: Option<RedirectFd>,
}

impl View for RedirectRun {
    type V = (RedirectOp, Option<RedirectFd>);

    closed spec fn view(&self) -> (RedirectOp, Option<RedirectFd>) {
        (self.op, self.fd)
    }
}

/// A redirect that waits for its file.
#[derive(Debug)]
pub struct OpenRun {
    op: RedirectOp,
    fd: Option<RedirectFd>,
    changes: Vec<EnvChange>,
}

impl View for OpenRun {
    type V = (RedirectOp, Option<RedirectFd>, Seq<EnvChangeView>);

    closed spec fn view(&self) -> (RedirectOp, Option<RedirectFd>, Seq<EnvChangeView>) {
        (self.op, self.fd, changes_view(self.changes@))
    }
}

/// What a redirect needs next, or what it came to.
#[derive(Debug)]
pub enum RedirectStep<H> {
    /// The words that the word evaluates to, in a copy of the state.
    Evaluate(Word, RedirectRun),
    /// The file.
    Open(OpenRequest, OpenRun),
    /// The text is reported as an error, and the command ends with the result.
    Report(String, ExecuteResult<H>),
    /// The command does not run.
    Refused(Finished<H>),
    /// The command runs, after the changes, with the streams replaced.
    Ready(RedirectPipe, RedirectRoute, Vec<EnvChange>),
}

impl<H> View for RedirectStep<H> {
    type V = RedirectStepView<H>;

    open spec fn view(&self) -> RedirectStepView<H> {
        match self {
            RedirectStep::Evaluate(word, run) => RedirectStepView::Evaluate(
                *word,
                run@.0,
                run@.1,
            ),
            RedirectStep::Open(request, run) => RedirectStepView::Open(
                request@,
                run@.0,
                run@.1,
                run@.2,
            ),
            RedirectStep::Report(text, result) => RedirectStepView::Report(text@, result@),
            RedirectStep::Refused(finished) => RedirectStepView::Refused(finished@),
            RedirectStep::Ready(pipe, route, changes) => RedirectStepView::Ready(
                *pipe,
                *route,
                changes_view(changes@),
            ),
        }
    }
}

fn resolve<H>(
    pipe: RedirectPipe,
    op: RedirectOp,
    fd: Option<RedirectFd>,
    changes: Vec<EnvChange>,
) -> (r: RedirectStep<H>)
    ensures
        r@ == resolved::<H>(pipe, op, fd, changes_view(changes@)),
{
    match op {
        RedirectOp::Input(_) => match fd {
            Some(_) => RedirectStep::Refused(
                Finished::refusal(
                    "input redirects with file descriptors are not supported".to_owned(),
                    1,
                ),
            ),
            None => RedirectStep::Ready(pipe, RedirectRoute::Stdin, changes),
        },
        RedirectOp::Output(_) => match fd {
            None => RedirectStep::Ready(pipe, RedirectRoute::Stdout, changes),
            Some(RedirectFd::StdoutStderr) => RedirectStep::Ready(
                pipe,
                RedirectRoute::StdoutAndStderr,
                changes,
            ),
            Some(RedirectFd::Fd(n)) => if n == 1 {
                RedirectStep::Ready(pipe, RedirectRoute::Stdout, changes)
            } else if n == 2 {
                RedirectStep::Ready(pipe, RedirectRoute::Stderr, changes)
            } else {
                RedirectStep::Refused(
                    Finished::refusal(
                        "only redirecting to stdout (1) and stderr (2) is supported".to_owned(),
                        1,
                    ),
                )
            },
        },
    }
}

/// Starts a redirect.
pub fn resolve_redirect_pipe<H>(redirect: &Redirect) -> (r: RedirectStep<H>)
    ensures
        r@ == redirect_start::<H>(*redirect),
{
    match &redirect.io_file {
        IoFile::Word(word) => RedirectStep::Evaluate(
            word.share(),
            RedirectRun { op: redirect.op, fd: redirect.maybe_fd },
        ),
        IoFile::Fd(fd) => {
            let none: Vec<EnvChange> = Vec::new();
            assert(changes_view(none@) == Seq::<EnvChangeView>::empty());
            match redirect.op {
                RedirectOp::Input(_) => RedirectStep::Refused(
                    Finished::refusal(
                        "shell: input redirecting file descriptors is not implemented".to_owned(),
                        1,
                    ),
                ),
                RedirectOp::Output(_) => if *fd == 1 {
                    resolve(RedirectPipe::Stdout, redirect.op, redirect.maybe_fd, none)
                } else if *fd == 2 {
                    resolve(RedirectPipe::Stderr, redirect.op, redirect.maybe_fd, none)
                } else {
                    RedirectStep::Report(
                        "shell: output redirecting file descriptors beyond stdout and stderr is not implemented".to_owned(),
                        ExecuteResult::from_exit_code(1),
                    )
                },
            }
        },
    }
}

fn word_count_text(words: &WordPartsResult) -> (r: String)
    ensures
        r@ == word_count_line(words@.value),
{
    if words.value.len() == 0 {
        return "redirect path must be 1 argument, but found 0".to_owned();
    }
    let joined = words.join(" ");
    let count = size_text(words.value.len() as u64);
    let mut line = "redirect path must be 1 argument, but found ".to_owned();
    line.append(count.as_str());
    line.append(" (");
    line.append(joined.as_str());
    line.append("). Did you mean to quote it (ex. \"");
    line.append(joined.as_str());
    line.append("\")?");
    line
}

impl RedirectRun {
    /// Goes on with the words that the word evaluates to.
    pub fn resolve_redirect_word_pipe<H>(
        self,
        outcome: Result<WordPartsResult, EvaluateWordTextError>,
        state: &ShellState,
    ) -> (r: RedirectStep<H>)
        ensures
            r@ == redirect_words::<H>(self@.0, self@.1, word_outcome(outcome), state@.cwd),
    {
        let words = match outcome {
            Err(err) => return RedirectStep::Refused(Finished::word_failure(err)),
            Ok(words) => words,
        };
        if words.value.len() != 1 {
            return RedirectStep::Refused(Finished::refusal(word_count_text(&words), 1));
        }
        let mut value = words.value;
        let path = value.remove(0);
        assert(path@ == words@.value[0]);
        let mode = match self.op {
            RedirectOp::Input(_) => OpenMode::Read,
            RedirectOp::Output(output) => {
                if same_text(path.as_str(), "/dev/null") {
                    return resolve(RedirectPipe::Null, self.op, self.fd, words.changes);
                }
                match output {
                    RedirectOpOutput::Append => OpenMode::Append,
                    RedirectOpOutput::Overwrite => OpenMode::Overwrite,
                }
            },
        };
        RedirectStep::Open(
            OpenRequest { dir: state.cwd().to_owned(), path, mode },
            OpenRun { op: self.op, fd: self.fd, changes: words.changes },
        )
    }
}

impl OpenRun {
    /// Goes on with the file that was opened.
    pub fn on_opened<H>(self) -> (r: RedirectStep<H>)
        ensures
            r@ == resolved::<H>(RedirectPipe::File, self@.0, self@.1, self@.2),
    {
        resolve(RedirectPipe::File, self.op, self.fd, self.changes)
    }

    /// What comes of a redirect whose file could not be opened: `path` is the whole path, and
    /// `error` says why.
    pub fn on_open_failed<H>(self, path: &str, error: &str) -> (r: Finished<H>)
        ensures
            r@ == refused::<H>(open_failure_line(path@, error@), 1),
    {
        let mut line = "error opening file for redirect (".to_owned();
        line.append(path);
        line.append("). ");
        line.append(error);
        Finished::refusal(line, 1)
    }
}

// ---------------------------------------------------------------------------
// Laws

/// A command whose redirect is ready replaces its input exactly where the redirect is an input.
pub proof fn law_inputs_replace_stdin(op: RedirectOp, fd: Option<RedirectFd>)
    ensures
        match redirect_route(op, fd) {
            Ok(route) => (route == RedirectRoute::Stdin) == (op is Input),
            Err(_) => true,
        },
{
}

/// `/dev/null` never asks for a file to be written; every other path does, the one that was given
/// and in the directory of the shell.
pub proof fn law_output_path_decides<H>(
    output: RedirectOpOutput,
    fd: Option<RedirectFd>,
    words: WordPartsView,
    cwd: Seq<char>,
)
    requires
        words.value.len() == 1,
    ensures
        ({
            let step = redirect_words::<H>(RedirectOp::Output(output), fd, Ok(words), cwd);
            &&& (step is Open) == (words.value[0] != "/dev/null"@)
            &&& step matches RedirectStepView::Open(request, _, _, _) ==> request.path
                == words.value[0] && request.dir == cwd && (request.mode == OpenMode::Append) == (
            output == RedirectOpOutput::Append)
        }),
{
}

/// An output goes to the streams that its number names: `1` or none replaces the output stream, `2` the
/// error stream, and `&` both; an input without a number replaces the input stream. Every other
/// redirect is refused with exit code one, and keeps no change.
pub proof fn law_streams_by_number<H>(
    pipe: RedirectPipe,
    op: RedirectOp,
    fd: Option<RedirectFd>,
    changes: Seq<EnvChangeView>,
)
    ensures
        ({
            let step = resolved::<H>(pipe, op, fd, changes);
            let route = match (op, fd) {
                (RedirectOp::Input(_), None) => Some(RedirectRoute::Stdin),
                (RedirectOp::Output(_), None) => Some(RedirectRoute::Stdout),
                (RedirectOp::Output(_), Some(RedirectFd::StdoutStderr)) => Some(
                    RedirectRoute::StdoutAndStderr,
                ),
                (RedirectOp::Output(_), Some(RedirectFd::Fd(1))) => Some(RedirectRoute::Stdout),
                (RedirectOp::Output(_), Some(RedirectFd::Fd(2))) => Some(RedirectRoute::Stderr),
                _ => None,
            };
            match route {
                Some(route) => step == RedirectStepView::<H>::Ready(pipe, route, changes),
                None => step matches RedirectStepView::Refused(done) && done.result.code == 1
                    && !done.result.exits && done.result.changes.len() == 0
                    && done.result.handles.len() == 0 && done.error_line == Some(
                    if op is Input {
                        "input redirects with file descriptors are not supported"@
                    } else {
                        "only redirecting to stdout (1) and stderr (2) is supported"@
                    },
                ),
            }
        }),
{
}

/// A redirect to a word evaluates it. An output to the number `1` goes to the output stream as it is, to
/// `2` to the error stream, and to every other number it is reported and ends with exit code one; an
/// input from a number is refused with exit code one.
pub proof fn law_redirect_starts<H>(redirect: Redirect)
    ensures
        match (redirect.io_file, redirect.op) {
            (IoFile::Word(word), op) => redirect_start::<H>(redirect) == RedirectStepView::<
                H,
            >::Evaluate(word, op, redirect.maybe_fd),
            (IoFile::Fd(_), RedirectOp::Input(_)) => redirect_start::<H>(
                redirect,
            ) matches RedirectStepView::Refused(done) && done.result.code == 1
                && !done.result.exits && done.result.changes.len() == 0 && done.error_line == Some(
                "shell: input redirecting file descriptors is not implemented"@,
            ),
            (IoFile::Fd(fd), RedirectOp::Output(_)) => {
                let step = redirect_start::<H>(redirect);
                &&& fd == 1 ==> step == resolved::<H>(
                    RedirectPipe::Stdout,
                    redirect.op,
                    redirect.maybe_fd,
                    seq![],
                )
                &&& fd == 2 ==> step == resolved::<H>(
                    RedirectPipe::Stderr,
                    redirect.op,
                    redirect.maybe_fd,
                    seq![],
                )
                &&& fd != 1 && fd != 2 ==> (step matches RedirectStepView::Report(text, result)
                    && text
                    == "shell: output redirecting file descriptors beyond stdout and stderr is not implemented"@
                    && result.code == 1 && !result.exits && result.changes.len() == 0
                    && result.handles.len() == 0)
            },
        },
{
}

/// A redirect to one word opens that path, seen from the working directory: for reading where it is an
/// input, at the end for `>>`, and from the start for `>`. An output to `/dev/null` opens nothing and
/// is lost. A word that fails, or is not exactly one word, is refused with exit code one.
pub proof fn law_redirect_opens_its_path<H>(
    op: RedirectOp,
    fd: Option<RedirectFd>,
    words: WordPartsView,
    error: WordErrorView,
    cwd: Seq<char>,
)
    ensures
        words.value.len() == 1 ==> {
            let path = words.value[0];
            let mode = match op {
                RedirectOp::Input(_) => OpenMode::Read,
                RedirectOp::Output(RedirectOpOutput::Append) => OpenMode::Append,
                RedirectOp::Output(RedirectOpOutput::Overwrite) => OpenMode::Overwrite,
            };
            redirect_words::<H>(op, fd, Ok(words), cwd) == (if op is Output && path
                == seq!['/', 'd', 'e', 'v', '/', 'n', 'u', 'l', 'l'] {
                resolved::<H>(RedirectPipe::Null, op, fd, words.changes)
            } else {
                RedirectStepView::<H>::Open(
                    OpenRequestView { dir: cwd, path, mode },
                    op,
                    fd,
                    words.changes,
                )
            })
        },
        words.value.len() != 1 ==> (redirect_words::<H>(
            op,
            fd,
            Ok(words),
            cwd,
        ) matches RedirectStepView::Refused(done) && done.result.code == 1 && !done.result.exits
            && done.result.changes.len() == 0 && done.result.handles.len() == 0
            && done.error_line is Some),
        redirect_words::<H>(op, fd, Err(error), cwd) matches RedirectStepView::Refused(done)
            && done.result.code == 1 && !done.result.exits && done.result.changes.len() == 0
            && done.error_line is Some,
{
    reveal_strlit("/dev/null");
    assert("/dev/null"@ == seq!['/', 'd', 'e', 'v', '/', 'n', 'u', 'l', 'l']);
}

/// The refusal of a redirect to several words says how many there are and shows them, and the line for
/// a file that cannot be opened shows its path and why.
pub proof fn law_redirect_lines_show_the_words<H>(
    op: RedirectOp,
    fd: Option<RedirectFd>,
    words: WordPartsView,
    cwd: Seq<char>,
    path: Seq<char>,
    error: Seq<char>,
)
    requires
        words.value.len() != 1,
    ensures
        redirect_words::<H>(op, fd, Ok(words), cwd)->Refused_0.error_line == Some(
            if words.value.len() == 0 {
                "redirect path must be 1 argument, but found 0"@
            } else {
                let shown = join_text(words.value, " "@);
                "redirect path must be 1 argument, but found "@ + decimal(words.value.len() as int)
                    + " ("@ + shown + "). Did you mean to quote it (ex. \""@ + shown + "\")?"@
            },
        ),
        open_failure_line(path, error) == "error opening file for redirect ("@ + path + "). "@
            + error,
{
}

} // verus!
