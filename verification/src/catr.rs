//! Copying lines through, with or without line numbers.

use crate::decimal::{decimal, right_justified, right_justify, to_decimal};
use crate::error::Error;
use crate::source::{files_or_stdin, spec_files_or_stdin};
use vstd::prelude::*;

verus! {

/// The width of a line number.
pub const NUMBER_WIDTH: usize = 6;

/// Which inputs to copy and which lines to number.
#[derive(Debug, Clone)]
pub struct Config {
    pub files: Vec<String>,
    pub number_lines: bool,
    pub number_nonblank_lines: bool,
}

/// How far the numbering of one input has come. Each input starts anew.
#[derive(Debug, Clone, Copy, PartialEq, Eq, Structural)]
pub struct Numbering {
    /// The lines seen so far.
    pub line_num: usize,
    /// The number given to the last nonblank line that was numbered as
    /// such.
    pub last_num: usize,
}

/// A line with its number in front: the number right-justified in six
/// columns, a tab, and the line.
pub open spec fn numbered(n: nat, line: Seq<char>) -> Seq<char> {
    right_justified(decimal(n), NUMBER_WIDTH as nat) + seq!['\t'] + line
}

/// Every line with its position, counted from one, in front.
pub open spec fn number_all(lines: Seq<Seq<char>>) -> Seq<Seq<char>> {
    Seq::new(lines.len(), |i: int| numbered((i + 1) as nat, lines[i]))
}

/// The lines that are not empty, in their order.
pub open spec fn nonblank(lines: Seq<Seq<char>>) -> Seq<Seq<char>> {
    lines.filter(|line: Seq<char>| line.len() > 0)
}

impl Numbering {
    /// No more lines were numbered than seen.
    pub open spec fn wf(&self) -> bool {
        self.last_num <= self.line_num
    }

    /// The state before the first line of an input.
    pub fn new() -> (r: Numbering)
        ensures
            r.line_num == 0,
            r.last_num == 0,
            r.wf(),
    {
        Numbering { line_num: 0, last_num: 0 }
    }
}

impl Config {
    /// A configuration names at least one input.
    pub open spec fn wf(&self) -> bool {
        self.files@.len() > 0
    }

    /// Whether only the nonblank lines are numbered. Numbering every line
    /// takes precedence where both were asked for.
    pub open spec fn counts_nonblank(&self) -> bool {
        !self.number_lines && self.number_nonblank_lines
    }

    /// Makes the configuration from what the command line gave. The two
    /// flags are kept as they are. An empty list of files stands for
    /// standard input.
    pub fn get_args(files: Vec<String>, number_lines: bool, number_nonblank_lines: bool) -> (r:
        Result<Config, Error>)
        ensures
            r matches Ok(config) && {
                &&& config.wf()
                &&& config.files.deep_view() == spec_files_or_stdin(files.deep_view())
                &&& config.number_lines == number_lines
                &&& config.number_nonblank_lines == number_nonblank_lines
            },
    {
        let files = files_or_stdin(files);
        assert(files@.len() == files.deep_view().len());
        Ok(Config { files, number_lines, number_nonblank_lines })
    }

    /// What is written for one line, if anything.
    pub open spec fn spec_number_line(&self, state: Numbering, line: Seq<char>) -> Option<
        Seq<char>,
    > {
        if self.number_lines {
            Some(numbered((state.line_num + 1) as nat, line))
        } else if self.number_nonblank_lines {
            if line.len() > 0 {
                Some(numbered((state.last_num + 1) as nat, line))
            } else {
                None
            }
        } else {
            Some(line)
        }
    }

    /// Takes the next line of an input, without its line terminator, and
    /// gives what is to be written for it. Where every line is numbered, the
    /// line gets its position in the input. Where only nonblank lines are
    /// numbered, an empty line is dropped and any other gets the next
    /// number. Else the line is passed on unchanged.
    pub fn number_line(&self, state: &mut Numbering, line: &str) -> (r: Option<String>)
        requires
            old(state).wf(),
            old(state).line_num < usize::MAX,
        ensures
            final(state).wf(),
            final(state).line_num == old(state).line_num + 1,
            final(state).last_num == old(state).last_num + if self.counts_nonblank() && line@.len()
                > 0 {
                1int
            } else {
                0int
            },
            self.spec_number_line(*old(state), line@) == match r {
                Some(text) => Some(text@),
                None => None,
            },
    {
        state.line_num = state.line_num + 1;
        if self.number_lines {
            Some(with_number(state.line_num, line))
        } else if self.number_nonblank_lines {
            if line.unicode_len() > 0 {
                state.last_num = state.last_num + 1;
                Some(with_number(state.last_num, line))
            } else {
                None
            }
        } else {
            Some(String::from_str(line))
        }
    }

    /// What is written for a whole input, line by line.
    pub open spec fn spec_print_lines(&self, lines: Seq<Seq<char>>) -> Seq<Seq<char>> {
        if self.number_lines {
            number_all(lines)
        } else if self.number_nonblank_lines {
            number_all(nonblank(lines))
        } else {
            lines
        }
    }

    /// The number given to the last nonblank line among `lines`, where only
    /// nonblank lines are numbered; zero in the other modes.
    pub open spec fn spec_last_num(&self, lines: Seq<Seq<char>>) -> nat {
        if self.counts_nonblank() {
            nonblank(lines).len()
        } else {
            0
        }
    }

    /// Writing line by line gives the whole: after the first `i` lines of
    /// an input, what `number_line` gives for the next line is what that
    /// line adds to the output of `print_lines`.
    pub proof fn lemma_line_by_line(&self, lines: Seq<Seq<char>>, i: int, state: Numbering)
        requires
            0 <= i < lines.len(),
            state.line_num == i,
            state.last_num == self.spec_last_num(lines.take(i)),
        ensures
            self.spec_print_lines(lines.take(i + 1)) == match self.spec_number_line(
                state,
                lines[i],
            ) {
                Some(text) => self.spec_print_lines(lines.take(i)).push(text),
                None => self.spec_print_lines(lines.take(i)),
            },
            self.spec_last_num(lines.take(i + 1)) == self.spec_last_num(lines.take(i))
                + if self.counts_nonblank() && lines[i].len() > 0 {
                1nat
            } else {
                0nat
            },
    {
        reveal(Seq::filter);
        let seen = lines.take(i);
        let more = lines.take(i + 1);
        assert(more.drop_last() =~= seen);
        assert(more.last() == lines[i]);
        match self.spec_number_line(state, lines[i]) {
            Some(text) => {
                assert(self.spec_print_lines(more) =~= self.spec_print_lines(seen).push(text));
            },
            None => {},
        }
    }

    /// Gives the lines to write for the lines of one input, in their order.
    /// Neither takes nor gives line terminators. There is one line of output
    /// for each line of input, but for the empty lines where only nonblank
    /// lines are numbered.
    pub fn print_lines(&self, lines: &Vec<String>) -> (r: Vec<String>)
        ensures
            r.deep_view() == self.spec_print_lines(lines.deep_view()),
            r.len() == if self.counts_nonblank() {
                nonblank(lines.deep_view()).len()
            } else {
                lines.len() as nat
            },
            r.len() <= lines.len(),
    {
        let mut out: Vec<String> = Vec::new();
        let mut state = Numbering::new();
        let ghost all = lines.deep_view();
        proof {
            all.lemma_filter_len(|line: Seq<char>| line.len() > 0);
        }
        for i in 0..lines.len()
            invariant
                all == lines.deep_view(),
                state.wf(),
                state.line_num == i,
                state.last_num == self.spec_last_num(all.take(i as int)),
                out.deep_view() == self.spec_print_lines(all.take(i as int)),
        {
            let ghost before = out.deep_view();
            proof {
                self.lemma_line_by_line(all, i as int, state);
            }
            match self.number_line(&mut state, lines[i].as_str()) {
                Some(text) => {
                    out.push(text);
                    assert(out.deep_view() =~= before.push(text@));
                },
                None => {},
            }
        }
        assert(all.take(lines.len() as int) =~= all);
        assert(out.len() == out.deep_view().len());
        out
    }
}

/// Puts the number `n` in front of `line`.
fn with_number(n: usize, line: &str) -> (r: String)
    ensures
        r@ == numbered(n as nat, line@),
{
    proof {
        reveal_strlit("\t");
    }
    let mut out = right_justify(to_decimal(n).as_str(), NUMBER_WIDTH);
    let ghost number = out@;
    out.append("\t");
    assert(out@ =~= number + seq!['\t']);
    out.append(line);
    out
}

/// The line that tells of an input that could not be opened.
pub fn open_failure(path: &str, cause: &str) -> (r: String)
    ensures
        r@ == "Failed to open "@ + path@ + ": "@ + cause@,
{
    let mut out = String::from_str("Failed to open ");
    out.append(path);
    out.append(": ");
    out.append(cause);
    out
}

} // verus!
