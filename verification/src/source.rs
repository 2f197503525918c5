//! Naming the inputs: the list of file arguments and the token that stands
//! for standard input.

use vstd::prelude::*;

verus! {

/// The file argument that means standard input: a single hyphen.
pub open spec fn stdin_token() -> Seq<char> {
    seq!['-']
}

/// Tells whether a file argument names standard input.
pub fn is_stdin(token: &str) -> (r: bool)
    ensures
        r == (token@ == stdin_token()),
{
    let r = token.unicode_len() == 1 && token.get_char(0) == '-';
    assert(r == (token@ =~= stdin_token()));
    r
}

/// The inputs that a list of file arguments selects: the list itself, or
/// standard input alone where the list is empty.
pub open spec fn spec_files_or_stdin(files: Seq<Seq<char>>) -> Seq<Seq<char>> {
    if files.len() == 0 {
        seq![stdin_token()]
    } else {
        files
    }
}

/// Replaces an empty list of file arguments by standard input.
pub fn files_or_stdin(files: Vec<String>) -> (r: Vec<String>)
    ensures
        r.deep_view() == spec_files_or_stdin(files.deep_view()),
{
    if files.len() == 0 {
        proof {
            reveal_strlit("-");
        }
        let token = String::from_str("-");
        assert(token@ =~= stdin_token());
        let r = vec![token];
        assert(r.deep_view() =~= seq![stdin_token()]);
        r
    } else {
        files
    }
}

} // verus!
