//! What counts as whitespace, a word and a line in a text, stated over
//! sequences of characters.

use vstd::prelude::*;
use vstd::utf8::*;

verus! {

/// Whether `c` is one of the characters that Unicode marks as white space:
/// the five ASCII controls from tab to carriage return, the space, the next
/// line control, the no-break spaces, the Ogham space mark, the spaces of
/// fixed width, the line and paragraph separators, the medium mathematical
/// space and the ideographic space.
pub open spec fn spec_is_whitespace(c: char) -> bool {
    let u = c as u32;
    ||| 0x09 <= u <= 0x0D
    ||| u == 0x20
    ||| u == 0x85
    ||| u == 0xA0
    ||| u == 0x1680
    ||| 0x2000 <= u <= 0x200A
    ||| u == 0x2028
    ||| u == 0x2029
    ||| u == 0x202F
    ||| u == 0x205F
    ||| u == 0x3000
}

/// Tells whether `c` is white space.
#[verifier::when_used_as_spec(spec_is_whitespace)]
pub fn is_whitespace(c: char) -> (r: bool)
    ensures
        r == spec_is_whitespace(c),
{
    let u = c as u32;
    (0x09 <= u && u <= 0x0D) || u == 0x20 || u == 0x85 || u == 0xA0 || u == 0x1680 || (0x2000 <= u
        && u <= 0x200A) || u == 0x2028 || u == 0x2029 || u == 0x202F || u == 0x205F || u == 0x3000
}

/// Whether a word begins at position `i` of `s`: the character there is not
/// white space, and it stands first or after white space.
pub open spec fn word_starts_at(s: Seq<char>, i: int) -> bool {
    &&& 0 <= i < s.len()
    &&& !is_whitespace(s[i])
    &&& (i == 0 || is_whitespace(s[i - 1]))
}

/// The number of words in `s`, a word being a longest run of characters
/// that are not white space.
pub open spec fn word_count(s: Seq<char>) -> nat
    decreases s.len(),
{
    if s.len() == 0 {
        0
    } else {
        word_count(s.drop_last()) + if word_starts_at(s, s.len() - 1) {
            1nat
        } else {
            0nat
        }
    }
}

/// Whether a line begins at position `i` of `s`: at the very start, or
/// right after a line feed.
pub open spec fn line_starts_at(s: Seq<char>, i: int) -> bool {
    &&& 0 <= i < s.len()
    &&& (i == 0 || s[i - 1] == '\n')
}

/// The number of lines in `s`. A line ends with its line feed; what follows
/// the last line feed is a line of its own unless it is empty.
pub open spec fn line_count(s: Seq<char>) -> nat
    decreases s.len(),
{
    if s.len() == 0 {
        0
    } else {
        line_count(s.drop_last()) + if line_starts_at(s, s.len() - 1) {
            1nat
        } else {
            0nat
        }
    }
}

/// Looking at one more character adds a word exactly when a word starts
/// there, and a line exactly when a line starts there.
pub proof fn lemma_count_step(s: Seq<char>, i: int)
    requires
        0 <= i < s.len(),
    ensures
        word_count(s.take(i + 1)) == word_count(s.take(i)) + if word_starts_at(s, i) {
            1nat
        } else {
            0nat
        },
        line_count(s.take(i + 1)) == line_count(s.take(i)) + if line_starts_at(s, i) {
            1nat
        } else {
            0nat
        },
{
    assert(s.take(i + 1).drop_last() =~= s.take(i));
}

/// A text has no more words and no more lines than characters.
pub proof fn lemma_counts_bounded(s: Seq<char>)
    ensures
        word_count(s) <= s.len(),
        line_count(s) <= s.len(),
    decreases s.len(),
{
    if s.len() > 0 {
        lemma_counts_bounded(s.drop_last());
    }
}

/// A character is ASCII exactly when its scalar value is below 128.
proof fn lemma_ascii_scalar(c: char)
    ensures
        has_width_1_encoding(c as u32) <==> '\0' <= c <= '\u{7f}',
{
}

/// Every character takes between one and four bytes in UTF-8, and a text
/// takes as many bytes as it has characters exactly when it is ASCII.
pub proof fn lemma_encoded_len(s: Seq<char>)
    ensures
        s.len() <= encode_utf8(s).len() <= 4 * s.len(),
        encode_utf8(s).len() == s.len() <==> is_ascii_chars(s),
    decreases s.len(),
{
    if s.len() > 0 {
        let rest = s.drop_first();
        lemma_encoded_len(rest);
        lemma_ascii_scalar(s[0]);
        if is_ascii_chars(s) {
            assert forall|i: int| 0 <= i < rest.len() implies '\0' <= #[trigger] rest[i]
                <= '\u{7f}' by {
                assert(rest[i] == s[i + 1]);
            }
        }
        if encode_utf8(s).len() == s.len() {
            assert forall|i: int| 0 <= i < s.len() implies '\0' <= #[trigger] s[i]
                <= '\u{7f}' by {
                if i > 0 {
                    assert(s[i] == rest[i - 1]);
                }
            }
        }
    }
}

/// The encoding of two texts put together is their encodings put together.
pub proof fn lemma_encoded_concat(a: Seq<char>, b: Seq<char>)
    ensures
        encode_utf8(a + b) == encode_utf8(a) + encode_utf8(b),
    decreases a.len(),
{
    if a.len() == 0 {
        assert(a + b =~= b);
        assert(encode_utf8(a) + encode_utf8(b) =~= encode_utf8(b));
    } else {
        lemma_encoded_concat(a.drop_first(), b);
        assert((a + b).drop_first() =~= a.drop_first() + b);
        assert(encode_utf8(a + b) =~= encode_utf8(a) + encode_utf8(b));
    }
}

/// Counting is additive at a line boundary: where `a` is empty or ends with
/// a line feed, the lines, words, bytes and characters of `a` followed by `b`
/// are those of `a` plus those of `b`.
pub proof fn lemma_counts_concat(a: Seq<char>, b: Seq<char>)
    requires
        a.len() == 0 || a.last() == '\n',
    ensures
        line_count(a + b) == line_count(a) + line_count(b),
        word_count(a + b) == word_count(a) + word_count(b),
        encode_utf8(a + b).len() == encode_utf8(a).len() + encode_utf8(b).len(),
        (a + b).len() == a.len() + b.len(),
    decreases b.len(),
{
    lemma_encoded_concat(a, b);
    if b.len() == 0 {
        assert(a + b =~= a);
    } else {
        lemma_counts_concat(a, b.drop_last());
        assert((a + b).drop_last() =~= a + b.drop_last());
        let i = b.len() - 1;
        assert(word_starts_at(a + b, a.len() + i) == word_starts_at(b, i));
        assert(line_starts_at(a + b, a.len() + i) == line_starts_at(b, i));
    }
}

/// Whether `s` is what reading one line gives: it is not empty, and no line
/// feed stands in it but, possibly, at its very end.
pub open spec fn is_line(s: Seq<char>) -> bool {
    &&& s.len() > 0
    &&& forall|i: int| 0 <= i < s.len() - 1 ==> s[i] != '\n'
}

/// Whether `lines` is what reading a text line by line gives: each is a
/// line, and each but the last ends with its line feed.
pub open spec fn lines_as_read(lines: Seq<Seq<char>>) -> bool {
    forall|k: int|
        0 <= k < lines.len() ==> is_line(#[trigger] lines[k]) && (k < lines.len() - 1
            ==> lines[k].last() == '\n')
}

/// The words of all `lines` together.
pub open spec fn total_words(lines: Seq<Seq<char>>) -> nat
    decreases lines.len(),
{
    if lines.len() == 0 {
        0
    } else {
        total_words(lines.drop_last()) + word_count(lines.last())
    }
}

/// The bytes that all `lines` together take in UTF-8.
pub open spec fn total_bytes(lines: Seq<Seq<char>>) -> nat
    decreases lines.len(),
{
    if lines.len() == 0 {
        0
    } else {
        total_bytes(lines.drop_last()) + encode_utf8(lines.last()).len()
    }
}

/// The characters of all `lines` together.
pub open spec fn total_chars(lines: Seq<Seq<char>>) -> nat
    decreases lines.len(),
{
    if lines.len() == 0 {
        0
    } else {
        total_chars(lines.drop_last()) + lines.last().len()
    }
}

/// One line counts as one.
pub proof fn lemma_one_line(s: Seq<char>)
    requires
        is_line(s),
    ensures
        line_count(s) == 1,
    decreases s.len(),
{
    let front = s.drop_last();
    if s.len() > 1 {
        assert(is_line(front)) by {
            assert forall|i: int| 0 <= i < front.len() - 1 implies front[i] != '\n' by {
                assert(front[i] == s[i]);
            }
        }
        lemma_one_line(front);
        assert(s[s.len() - 2] != '\n');
    } else {
        assert(line_count(front) == 0);
    }
}

/// Counting a text as a whole gives what adding up line after line gives:
/// one for each line, and for each line its words, its bytes and its
/// characters, the line terminator included.
pub proof fn lemma_counts_by_line(lines: Seq<Seq<char>>)
    requires
        lines_as_read(lines),
    ensures
        line_count(lines.flatten()) == lines.len(),
        word_count(lines.flatten()) == total_words(lines),
        encode_utf8(lines.flatten()).len() == total_bytes(lines),
        lines.flatten().len() == total_chars(lines),
        lines.len() > 0 ==> lines.flatten().len() > 0 && lines.flatten().last()
            == lines.last().last(),
    decreases lines.len(),
{
    if lines.len() == 0 {
    } else {
        let front = lines.drop_last();
        let end = lines.last();
        assert(lines_as_read(front)) by {
            assert forall|k: int| 0 <= k < front.len() implies is_line(#[trigger] front[k]) && (k
                < front.len() - 1 ==> front[k].last() == '\n') by {
                assert(front[k] == lines[k]);
            }
        }
        lemma_counts_by_line(front);
        assert(lines =~= front.push(end));
        front.lemma_flatten_push(end);
        assert(lines.flatten() == front.flatten() + end);
        if front.len() > 0 {
            assert(front.last() == lines[lines.len() - 2]);
        }
        lemma_counts_concat(front.flatten(), end);
        lemma_one_line(end);
    }
}

} // verus!
