//! Counting lines, words, bytes and characters, and laying the counts out.

use crate::decimal::{
    decimal, lemma_decimal_len, pow10, right_justified, right_justify, to_decimal,
};
use crate::error::Error;
use crate::source::{files_or_stdin, is_stdin, spec_files_or_stdin, stdin_token};
use crate::text::{
    is_whitespace, lemma_count_step, lemma_counts_bounded, lemma_encoded_len, line_count,
    word_count,
};
use vstd::prelude::*;
use vstd::utf8::*;

verus! {

/// The width of a count in the report.
pub const FIELD_WIDTH: usize = 8;

/// What was counted in one input.
#[derive(Debug, Clone, Copy, PartialEq, Eq, Structural)]
pub struct FileInfo {
    pub num_lines: usize,
    pub num_words: usize,
    pub num_bytes: usize,
    pub num_chars: usize,
}

/// Counts the lines, words, bytes and characters of `text`, which is what
/// was read of one input, line terminators included.
///
/// A line ends with its line feed, and a last line without one counts too.
/// A word is a longest run of characters that are not white space. Bytes are
/// those of the UTF-8 encoding and characters are Unicode scalar values, so
/// the two agree on ASCII text and on no other. An empty text gives four
/// zeros.
pub fn count(text: &str) -> (r: Result<FileInfo, Error>)
    ensures
        r matches Ok(info) && {
            &&& info.num_lines == line_count(text@)
            &&& info.num_words == word_count(text@)
            &&& info.num_bytes == encode_utf8(text@).len()
            &&& info.num_chars == text@.len()
            &&& info.num_chars <= info.num_bytes
            &&& info.num_chars == info.num_bytes <==> is_ascii_chars(text@)
            &&& text@.len() == 0 ==> info == (FileInfo {
                num_lines: 0,
                num_words: 0,
                num_bytes: 0,
                num_chars: 0,
            })
        },
{
    let num_bytes = text.as_bytes().len();
    let mut num_lines: usize = 0;
    let mut num_words: usize = 0;
    let mut num_chars: usize = 0;
    let mut after_space = true;
    let mut after_feed = true;
    proof {
        lemma_encoded_len(text@);
    }
    for c in it: text.chars()
        invariant
            it.seq() == text@,
            text@.len() <= usize::MAX,
            num_chars == it.index(),
            num_lines == line_count(text@.take(it.index())),
            num_words == word_count(text@.take(it.index())),
            after_space == (it.index() == 0 || is_whitespace(text@[it.index() - 1])),
            after_feed == (it.index() == 0 || text@[it.index() - 1] == '\n'),
    {
        proof {
            lemma_count_step(text@, it.index());
            lemma_counts_bounded(text@.take(it.index()));
        }
        let space = is_whitespace(c);
        if after_feed {
            num_lines += 1;
        }
        if after_space && !space {
            num_words += 1;
        }
        num_chars += 1;
        after_space = space;
        after_feed = c == '\n';
    }
    assert(text@.take(text@.len() as int) =~= text@);
    Ok(FileInfo { num_lines, num_words, num_bytes, num_chars })
}

/// One count as it stands in the report.
pub open spec fn spec_format_field(value: usize, show: bool) -> Seq<char> {
    if show {
        right_justified(decimal(value as nat), FIELD_WIDTH as nat)
    } else {
        Seq::<char>::empty()
    }
}

/// A count that is shown fills the eight columns of its field. It is wider
/// exactly when it has more than eight digits, that is from a hundred
/// million on, and then it is written without padding. A count that is not
/// shown takes no room.
pub proof fn lemma_format_field_width(value: usize)
    ensures
        spec_format_field(value, true).len() >= FIELD_WIDTH,
        spec_format_field(value, true).len() > FIELD_WIDTH <==> value >= 100_000_000,
        spec_format_field(value, true).len() > FIELD_WIDTH ==> spec_format_field(value, true)
            == decimal(value as nat),
        spec_format_field(value, false).len() == 0,
{
    lemma_decimal_len(value as nat, 8);
    assert(pow10(8) == 100_000_000) by {
        reveal_with_fuel(pow10, 9);
    }
}

/// Lays out one count: nothing at all where it is not to be shown, else its
/// decimal digits, right-justified in eight columns. A count of more than
/// eight digits is written in full, and only such a count is wider than the
/// field.
pub fn format_field(value: usize, show: bool) -> (r: String)
    ensures
        r@ == spec_format_field(value, show),
        !show ==> r@ == Seq::<char>::empty(),
        show ==> r@ == right_justified(decimal(value as nat), FIELD_WIDTH as nat),
        show ==> r@.len() >= FIELD_WIDTH,
        show ==> (r@.len() > FIELD_WIDTH <==> value >= 100_000_000),
        show && r@.len() > FIELD_WIDTH ==> r@ == decimal(value as nat),
{
    proof {
        lemma_format_field_width(value);
    }
    if show {
        right_justify(to_decimal(value).as_str(), FIELD_WIDTH)
    } else {
        String::new()
    }
}

/// Which inputs to count and which counts to show.
#[derive(Debug, Clone)]
pub struct Config {
    pub files: Vec<String>,
    pub lines: bool,
    pub words: bool,
    pub bytes: bool,
    pub chars: bool,
}

impl Config {
    /// A configuration names at least one input and shows at least one
    /// count.
    pub open spec fn wf(&self) -> bool {
        &&& self.files@.len() > 0
        &&& (self.lines || self.words || self.bytes || self.chars)
    }

    /// Makes the effective configuration from what the command line gave.
    /// Where no count was asked for, lines, words and bytes are shown; any
    /// other choice is kept. An empty list of files stands for standard
    /// input.
    pub fn get_args(files: Vec<String>, lines: bool, words: bool, bytes: bool, chars: bool) -> (r:
        Result<Config, Error>)
        ensures
            r matches Ok(config) && {
                &&& config.wf()
                &&& config.files.deep_view() == spec_files_or_stdin(files.deep_view())
                &&& config.chars == chars
                &&& if lines || words || bytes || chars {
                    config.lines == lines && config.words == words && config.bytes == bytes
                } else {
                    config.lines && config.words && config.bytes
                }
            },
    {
        let none = !lines && !words && !bytes && !chars;
        let files = files_or_stdin(files);
        assert(files@.len() == files.deep_view().len());
        Ok(Config { files, lines: lines || none, words: words || none, bytes: bytes || none, chars })
    }

    /// The report for one input.
    pub open spec fn spec_report(&self, info: FileInfo, filename: Seq<char>) -> Seq<char> {
        spec_format_field(info.num_lines, self.lines) + spec_format_field(
            info.num_words,
            self.words,
        ) + spec_format_field(info.num_bytes, self.bytes) + spec_format_field(
            info.num_chars,
            self.chars,
        ) + if filename == stdin_token() {
            Seq::<char>::empty()
        } else {
            seq![' '] + filename
        }
    }

    /// Lays out the report for one input: the counts of lines, words, bytes
    /// and characters, in this order, each one only if it is to be shown,
    /// then a space and the name of the input. Standard input is not named.
    pub fn report(&self, info: &FileInfo, filename: &str) -> (r: String)
        ensures
            r@ == self.spec_report(*info, filename@),
    {
        let mut out = format_field(info.num_lines, self.lines);
        out.append(format_field(info.num_words, self.words).as_str());
        out.append(format_field(info.num_bytes, self.bytes).as_str());
        out.append(format_field(info.num_chars, self.chars).as_str());
        let ghost counts = out@;
        if !is_stdin(filename) {
            proof {
                reveal_strlit(" ");
            }
            out.append(" ");
            out.append(filename);
            assert(out@ =~= counts + (seq![' '] + filename@));
        } else {
            assert(out@ =~= counts + Seq::<char>::empty());
        }
        out
    }
}

/// The line that tells of an input that could not be opened: its path, a
/// colon, a space and the cause.
pub fn open_failure(path: &str, cause: &str) -> (r: String)
    ensures
        r@ == path@ + ": "@ + cause@,
{
    let mut out = String::from_str(path);
    out.append(": ");
    out.append(cause);
    out
}

} // verus!
