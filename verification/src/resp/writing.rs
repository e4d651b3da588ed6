//! How a client writes a request, and that the parser reads it back.

use vstd::prelude::*;
use vstd::utf8::encode_utf8;
use crate::resp::parser::{
    ParseError,
    arguments,
    has_length,
    is_bulk_header,
    lemma_first_break,
    lines,
    named_request,
    parse,
    parse_elements,
    trim_end,
    without_cr,
};
use crate::text::{
    decimal_text,
    is_digit,
    is_whitespace,
    lemma_decimal_text_denotes,
    parse_unsigned,
};

verus! {

/// The line terminator that clients write.
pub open spec fn line_end() -> Seq<char> {
    seq!['\r', '\n']
}

/// Whether `line` can stand on a line of its own: it holds no line feed
/// and does not end in a carriage return.
pub open spec fn fits_a_line(line: Seq<char>) -> bool {
    &&& forall|i: int| 0 <= i < line.len() ==> #[trigger] line[i] != '\n'
    &&& line.len() > 0 ==> line.last() != '\r'
}

/// The lines `ls`, each with the line terminator behind it.
pub open spec fn written(ls: Seq<Seq<char>>) -> Seq<char>
    decreases ls.len(),
{
    if ls.len() == 0 {
        Seq::empty()
    } else {
        ls[0] + line_end() + written(ls.skip(1))
    }
}

/// The lines of a request with the given elements, the command's name
/// first: the line that counts the elements, and for each element its header
/// and the element itself. A header declares the element's length in bytes.
pub open spec fn request_lines(elements: Seq<Seq<char>>) -> Seq<Seq<char>> {
    Seq::new(
        1 + 2 * elements.len(),
        |i: int|
            if i == 0 {
                seq!['*'] + decimal_text(elements.len())
            } else if i % 2 == 1 {
                seq!['$'] + decimal_text(encode_utf8(elements[(i - 1) / 2]).len())
            } else {
                elements[(i - 2) / 2]
            },
    )
}

/// The text of a request as a client writes it.
pub open spec fn request_text(elements: Seq<Seq<char>>) -> Seq<char> {
    written(request_lines(elements))
}

/// The lines `ls` with the line terminator between them.
spec fn joined(ls: Seq<Seq<char>>) -> Seq<char>
    decreases ls.len(),
{
    if ls.len() == 0 {
        Seq::empty()
    } else if ls.len() == 1 {
        ls[0]
    } else {
        ls[0] + line_end() + joined(ls.skip(1))
    }
}

/// Lines that are written are joined lines with one more line terminator
/// at the end.
proof fn lemma_written_is_joined(ls: Seq<Seq<char>>)
    requires
        ls.len() > 0,
    ensures
        written(ls) == joined(ls) + line_end(),
    decreases ls.len(),
{
    if ls.len() == 1 {
        assert(written(ls.skip(1)) == Seq::<char>::empty());
        assert(ls[0] + line_end() + Seq::<char>::empty() =~= ls[0] + line_end());
    } else {
        lemma_written_is_joined(ls.skip(1));
        assert(ls[0] + line_end() + (joined(ls.skip(1)) + line_end()) =~= ls[0] + line_end()
            + joined(ls.skip(1)) + line_end());
    }
}

/// Joined lines end in the last character of the last line.
proof fn lemma_joined_ends_like_its_last_line(ls: Seq<Seq<char>>)
    requires
        ls.len() > 0,
        ls.last().len() > 0,
    ensures
        joined(ls).len() > 0,
        joined(ls).last() == ls.last().last(),
    decreases ls.len(),
{
    if ls.len() > 1 {
        lemma_joined_ends_like_its_last_line(ls.skip(1));
        assert(ls.skip(1).last() == ls.last());
    }
}

/// Joining lines and splitting the text again gives the lines back.
proof fn lemma_lines_of_joined(ls: Seq<Seq<char>>)
    requires
        ls.len() > 0,
        ls.last().len() > 0,
        forall|k: int| 0 <= k < ls.len() ==> fits_a_line(#[trigger] ls[k]),
    ensures
        lines(joined(ls)) == ls,
    decreases ls.len(),
{
    let first = ls[0];
    assert(fits_a_line(first));
    if ls.len() == 1 {
        lemma_first_break(first, first.len() as int);
        assert(lines(first) =~= ls);
    } else {
        let rest = ls.skip(1);
        assert forall|k: int| 0 <= k < rest.len() implies fits_a_line(#[trigger] rest[k]) by {
            assert(rest[k] == ls[k + 1]);
        }
        assert(rest.last() == ls.last());
        lemma_lines_of_joined(rest);
        let tail = line_end() + joined(rest);
        let text = first + tail;
        assert(joined(ls) =~= text);
        let at: int = first.len() as int + 1;
        assert(tail[0] == '\r' && tail[1] == '\n');
        assert(text[at] == '\n');
        assert forall|j: int| 0 <= j < at implies text[j] != '\n' by {
            if j < at - 1 {
                assert(text[j] == first[j]);
            }
        }
        lemma_first_break(text, at);
        assert(text.take(at) =~= first.push('\r'));
        assert(without_cr(first.push('\r')) =~= first);
        assert(text.skip(at + 1) =~= joined(rest));
        assert(seq![first] + rest =~= ls);
    }
}

/// Trimming takes the last line terminator off and nothing more, where the
/// last line ends in a character that is no white space.
proof fn lemma_trim_end_of_written(ls: Seq<Seq<char>>)
    requires
        ls.len() > 0,
        ls.last().len() > 0,
        !is_whitespace(ls.last().last()),
    ensures
        trim_end(written(ls)) == joined(ls),
{
    lemma_written_is_joined(ls);
    lemma_joined_ends_like_its_last_line(ls);
    let body = joined(ls);
    let text = body + line_end();
    assert(text.last() == '\n');
    assert(text.drop_last() =~= body.push('\r'));
    assert(body.push('\r').drop_last() =~= body);
    assert(trim_end(text) == trim_end(body.push('\r')));
    assert(trim_end(body.push('\r')) == trim_end(body));
}

/// A mark and the numeral of a number make a line that declares a length.
proof fn lemma_numeral_fits_a_line(mark: char, n: nat)
    requires
        mark != '\n',
        n <= u64::MAX,
    ensures
        fits_a_line(seq![mark] + decimal_text(n)),
        has_length(seq![mark] + decimal_text(n)),
        (seq![mark] + decimal_text(n))[0] == mark,
{
    lemma_decimal_text_denotes(n);
    let line = seq![mark] + decimal_text(n);
    assert(line.skip(1) =~= decimal_text(n));
    assert(is_digit(decimal_text(n)[0]));
    assert(parse_unsigned(decimal_text(n)) == Some(n));
    assert forall|i: int| 0 <= i < line.len() implies #[trigger] line[i] != '\n' by {
        if i > 0 {
            assert(is_digit(decimal_text(n)[i - 1]));
        }
    }
    assert(is_digit(decimal_text(n).last()));
    assert(line.last() == decimal_text(n).last());
}

/// The lines behind the name hold the elements behind the name, pair by
/// pair.
proof fn lemma_arguments_of_request(elements: Seq<Seq<char>>, from: int)
    requires
        1 <= from <= elements.len(),
        forall|k: int|
            0 <= k < elements.len() ==> encode_utf8(#[trigger] elements[k]).len() <= u64::MAX,
    ensures
        arguments(request_lines(elements), 1 + 2 * from) == Ok::<_, ParseError>(
            elements.skip(from),
        ),
    decreases elements.len() - from,
{
    let ls = request_lines(elements);
    if from == elements.len() {
        assert(elements.skip(from) =~= Seq::<Seq<char>>::empty());
    } else {
        lemma_arguments_of_request(elements, from + 1);
        let header = ls[1 + 2 * from];
        assert(header == seq!['$'] + decimal_text(encode_utf8(elements[from]).len()));
        lemma_numeral_fits_a_line('$', encode_utf8(elements[from]).len());
        assert(is_bulk_header(header));
        assert(ls[2 + 2 * from] == elements[from]);
        assert(seq![elements[from]] + elements.skip(from + 1) =~= elements.skip(from));
    }
}

/// What a client writes is what the server reads: the text of a request,
/// written element by element, is read back as the command that its first
/// element names with the other elements as arguments.
///
/// The elements must be such that lines can carry them: none holds a line
/// feed or ends in a carriage return, and the last one ends in a character
/// that is no white space. Their number and their lengths must be numbers
/// that the server can read.
pub proof fn written_request_is_read_back(elements: Seq<Seq<char>>)
    requires
        1 <= elements.len() <= u64::MAX,
        forall|k: int| 0 <= k < elements.len() ==> fits_a_line(#[trigger] elements[k]),
        forall|k: int|
            0 <= k < elements.len() ==> encode_utf8(#[trigger] elements[k]).len() <= u64::MAX,
        elements.last().len() > 0,
        !is_whitespace(elements.last().last()),
    ensures
        parse(request_text(elements)) == named_request(elements[0], elements.skip(1)),
{
    let ls = request_lines(elements);
    assert(ls.last() == elements.last());
    lemma_numeral_fits_a_line('*', elements.len());
    assert forall|k: int| 0 <= k < ls.len() implies fits_a_line(#[trigger] ls[k]) by {
        if k == 0 {
        } else if k % 2 == 1 {
            lemma_numeral_fits_a_line('$', encode_utf8(elements[(k - 1) / 2]).len());
        } else {
            assert(fits_a_line(elements[(k - 2) / 2]));
        }
    }
    lemma_trim_end_of_written(ls);
    lemma_lines_of_joined(ls);
    let text = trim_end(request_text(elements));
    assert(lines(text) == ls);
    assert(text.len() > 0 && text[0] == '*') by {
        assert(joined(ls) == ls[0] + line_end() + joined(ls.skip(1)));
        assert(ls[0][0] == '*');
    }
    assert(has_length(ls[0]));
    lemma_numeral_fits_a_line('$', encode_utf8(elements[0]).len());
    assert(ls[1] == seq!['$'] + decimal_text(encode_utf8(elements[0]).len()));
    assert(has_length(ls[1]));
    assert(ls[2] == elements[0]);
    lemma_arguments_of_request(elements, 1);
    assert(parse_elements(ls) == named_request(elements[0], elements.skip(1)));
}

} // verus!
