//! The request parser: from the text of one request to a command.
//!
//! A request is an array of bulk strings, written on lines: the line `*N`,
//! where `N` counts the elements, and then for each element the line `$len`
//! and the line with the element itself. The first element names the
//! command and the others are its arguments. The parser goes by the lines,
//! not by the lengths that the request declares: a length has to be a
//! number and is not used otherwise.

use vstd::prelude::*;
use vstd::string::*;
use crate::resp::commands::command::CommandName;
use crate::resp::commands::request::{Request, RequestView};
use crate::text::{
    char_is_whitespace,
    chars_are_word,
    chars_of,
    is_whitespace,
    is_word,
    parse_u64,
    read_u64,
};

verus! {

/// Why a request could not be read.
#[derive(Clone, Copy, Debug, PartialEq, Eq)]
pub enum ParseError {
    /// Nothing but white space.
    EmptyInput,
    /// The request does not start with `*`.
    InvalidArray,
    /// Fewer than three lines: a request names at least a command.
    Malformed,
    /// The element count is no unsigned integer.
    InvalidCount,
    /// A line that should declare an element's length does not.
    InvalidBulkHeader,
    /// The name is that of no command.
    UnknownCommand,
}

impl ParseError {
    /// The text under which the error is reported to the client.
    pub open spec fn text(self) -> Seq<char> {
        match self {
            ParseError::EmptyInput => "Empty input"@,
            ParseError::InvalidArray => "Invalid RESP array"@,
            ParseError::Malformed => "Invalid input"@,
            ParseError::InvalidCount => "Invalid command count"@,
            ParseError::InvalidBulkHeader => "Invalid bulk string"@,
            ParseError::UnknownCommand => "Unknown command"@,
        }
    }

    /// The text under which the error is reported to the client.
    pub fn message(&self) -> (text: String)
        ensures
            text@ == self.text(),
    {
        match self {
            ParseError::EmptyInput => "Empty input".to_owned(),
            ParseError::InvalidArray => "Invalid RESP array".to_owned(),
            ParseError::Malformed => "Invalid input".to_owned(),
            ParseError::InvalidCount => "Invalid command count".to_owned(),
            ParseError::InvalidBulkHeader => "Invalid bulk string".to_owned(),
            ParseError::UnknownCommand => "Unknown command".to_owned(),
        }
    }
}

/// `s` without the white space at its end.
pub open spec fn trim_end(s: Seq<char>) -> Seq<char>
    decreases s.len(),
{
    if s.len() > 0 && is_whitespace(s.last()) {
        trim_end(s.drop_last())
    } else {
        s
    }
}

/// The place of the first line feed in `s`; the length of `s` where it has
/// none.
pub open spec fn first_break(s: Seq<char>) -> int
    decreases s.len(),
{
    if s.len() == 0 || s[0] == '\n' {
        0
    } else {
        1 + first_break(s.skip(1))
    }
}

/// A line without the carriage return at its end, if it has one.
pub open spec fn without_cr(line: Seq<char>) -> Seq<char> {
    if line.len() > 0 && line.last() == '\r' {
        line.drop_last()
    } else {
        line
    }
}

/// The lines of `s`. A line ends at a line feed; neither the line feed nor
/// a carriage return just before it belongs to the line. What follows the
/// last line feed is a line too, unless it is empty.
pub open spec fn lines(s: Seq<char>) -> Seq<Seq<char>>
    decreases s.len(),
{
    if s.len() == 0 {
        Seq::empty()
    } else {
        let at = first_break(s);
        if 0 <= at < s.len() {
            seq![without_cr(s.take(at))] + lines(s.skip(at + 1))
        } else {
            seq![s]
        }
    }
}

/// Whether a line declares a length: whatever its first character is, an
/// unsigned integer follows it.
pub open spec fn has_length(line: Seq<char>) -> bool {
    line.len() > 0 && parse_u64(line.skip(1)) is Some
}

/// Whether a line is the header of a bulk string: `$` and a length.
pub open spec fn is_bulk_header(line: Seq<char>) -> bool {
    has_length(line) && line[0] == '$'
}

/// The arguments that the lines from `from` on hold, as pairs of a header
/// and the argument itself. A last line without a partner is left out.
pub open spec fn arguments(ls: Seq<Seq<char>>, from: int) -> Result<Seq<Seq<char>>, ParseError>
    decreases ls.len() - from,
{
    if from < 0 || from + 1 >= ls.len() {
        Ok(Seq::empty())
    } else if !is_bulk_header(ls[from]) {
        Err(ParseError::InvalidBulkHeader)
    } else {
        match arguments(ls, from + 2) {
            Ok(rest) => Ok(seq![ls[from + 1]] + rest),
            Err(error) => Err(error),
        }
    }
}

/// The command that `name` names, in any letter case.
pub open spec fn command_named(name: Seq<char>) -> Option<CommandName> {
    if is_word(name, CommandName::Ping.text()) {
        Some(CommandName::Ping)
    } else if is_word(name, CommandName::Echo.text()) {
        Some(CommandName::Echo)
    } else if is_word(name, CommandName::Get.text()) {
        Some(CommandName::Get)
    } else if is_word(name, CommandName::SetValue.text()) {
        Some(CommandName::SetValue)
    } else if is_word(name, CommandName::Rpush.text()) {
        Some(CommandName::Rpush)
    } else if is_word(name, CommandName::Lpush.text()) {
        Some(CommandName::Lpush)
    } else if is_word(name, CommandName::Lrange.text()) {
        Some(CommandName::Lrange)
    } else if is_word(name, CommandName::Llen.text()) {
        Some(CommandName::Llen)
    } else if is_word(name, CommandName::Lpop.text()) {
        Some(CommandName::Lpop)
    } else if is_word(name, CommandName::Info.text()) {
        Some(CommandName::Info)
    } else {
        None
    }
}

/// The request for the command `name` with the arguments `args`. `PING`
/// and `INFO` take no arguments and drop what they are given.
pub open spec fn request_of(name: CommandName, args: Seq<Seq<char>>) -> RequestView {
    RequestView {
        name,
        args: if name == CommandName::Ping || name == CommandName::Info {
            Seq::empty()
        } else {
            args
        },
    }
}

/// The request that the command name `name` and the arguments `args` make.
pub open spec fn named_request(name: Seq<char>, args: Seq<Seq<char>>) -> Result<
    RequestView,
    ParseError,
> {
    match command_named(name) {
        Some(command) => Ok(request_of(command, args)),
        None => Err(ParseError::UnknownCommand),
    }
}

/// What the lines of a request hold, from the header of the first element
/// on: that header declares a length, the third line names the command, and
/// the arguments follow in pairs of lines.
pub open spec fn parse_elements(ls: Seq<Seq<char>>) -> Result<RequestView, ParseError> {
    if !has_length(ls[1]) {
        Err(ParseError::InvalidBulkHeader)
    } else {
        match arguments(ls, 3) {
            Ok(args) => named_request(ls[2], args),
            Err(error) => Err(error),
        }
    }
}

/// The request that `input` holds, or the first thing that is wrong with
/// it.
pub open spec fn parse(input: Seq<char>) -> Result<RequestView, ParseError> {
    let text = trim_end(input);
    let ls = lines(text);
    if text.len() == 0 {
        Err(ParseError::EmptyInput)
    } else if text[0] != '*' {
        Err(ParseError::InvalidArray)
    } else if ls.len() < 3 {
        Err(ParseError::Malformed)
    } else if !has_length(ls[0]) {
        Err(ParseError::InvalidCount)
    } else {
        parse_elements(ls)
    }
}

/// The value of what the parser returned.
pub open spec fn parsed_view(parsed: Result<Request, ParseError>) -> Result<
    RequestView,
    ParseError,
> {
    match parsed {
        Ok(request) => Ok(request@),
        Err(error) => Err(error),
    }
}

/// The first line feed of `s` is at `at` where none comes before and one
/// stands there, or `s` ends there.
pub proof fn lemma_first_break(s: Seq<char>, at: int)
    requires
        0 <= at <= s.len(),
        forall|j: int| 0 <= j < at ==> s[j] != '\n',
        at == s.len() || s[at] == '\n',
    ensures
        first_break(s) == at,
    decreases at,
{
    if at > 0 {
        let rest = s.skip(1);
        assert forall|j: int| 0 <= j < at - 1 implies rest[j] != '\n' by {
            assert(rest[j] == s[j + 1]);
        }
        lemma_first_break(rest, at - 1);
    }
}

/// The length of `chars` without the white space at its end.
fn trimmed_len(chars: &Vec<char>) -> (end: usize)
    ensures
        end <= chars@.len(),
        chars@.take(end as int) == trim_end(chars@),
{
    let mut end: usize = chars.len();
    assert(chars@.take(end as int) =~= chars@);
    while end > 0 && char_is_whitespace(chars[end - 1])
        invariant
            end <= chars@.len(),
            trim_end(chars@) == trim_end(chars@.take(end as int)),
        decreases end,
    {
        assert(chars@.take(end as int).drop_last() =~= chars@.take(end - 1));
        end -= 1;
    }
    end
}

/// The texts that `ranges` cut out of `chars`.
pub open spec fn texts(chars: Seq<char>, ranges: Seq<(usize, usize)>) -> Seq<Seq<char>> {
    Seq::new(ranges.len(), |k: int| chars.subrange(ranges[k].0 as int, ranges[k].1 as int))
}

/// Where the lines of `chars[..end]` begin and end.
fn split_lines(chars: &Vec<char>, end: usize) -> (ranges: Vec<(usize, usize)>)
    requires
        end <= chars@.len(),
    ensures
        texts(chars@, ranges@) == lines(chars@.take(end as int)),
        forall|k: int|
            0 <= k < ranges@.len() ==> (#[trigger] ranges@[k]).0 <= ranges@[k].1 <= end,
{
    let ghost text = chars@.take(end as int);
    let mut ranges: Vec<(usize, usize)> = Vec::new();
    let mut start: usize = 0;
    let mut i: usize = 0;
    assert(text.skip(0) =~= text);
    assert(texts(chars@, ranges@) + lines(text) =~= lines(text));
    while i < end
        invariant
            start <= i <= end <= chars@.len(),
            text == chars@.take(end as int),
            forall|j: int| start <= j < i ==> chars@[j] != '\n',
            forall|k: int|
                0 <= k < ranges@.len() ==> (#[trigger] ranges@[k]).0 <= ranges@[k].1 <= end,
            lines(text) == texts(chars@, ranges@) + lines(text.skip(start as int)),
        decreases end - i,
    {
        if chars[i] == '\n' {
            let stop: usize = if i > start && chars[i - 1] == '\r' {
                i - 1
            } else {
                i
            };
            proof {
                let rest = text.skip(start as int);
                lemma_first_break(rest, i - start);
                assert(rest.take(i - start) =~= chars@.subrange(start as int, i as int));
                assert(without_cr(chars@.subrange(start as int, i as int)) =~= chars@.subrange(
                    start as int,
                    stop as int,
                ));
                assert(rest.skip(i - start + 1) =~= text.skip(i + 1));
                assert(lines(rest) == seq![chars@.subrange(start as int, stop as int)] + lines(
                    text.skip(i + 1),
                ));
                assert(texts(chars@, ranges@.push((start, stop))) =~= texts(chars@, ranges@).push(
                    chars@.subrange(start as int, stop as int),
                ));
                assert(texts(chars@, ranges@) + lines(rest) =~= texts(
                    chars@,
                    ranges@.push((start, stop)),
                ) + lines(text.skip(i + 1)));
            }
            ranges.push((start, stop));
            start = i + 1;
        }
        i += 1;
    }
    proof {
        let rest = text.skip(start as int);
        if start < end {
            lemma_first_break(rest, end - start);
            assert(rest =~= chars@.subrange(start as int, end as int));
            assert(lines(rest) == seq![rest]);
            assert(texts(chars@, ranges@.push((start, end))) =~= texts(chars@, ranges@).push(rest));
            assert(texts(chars@, ranges@) + lines(rest) =~= texts(
                chars@,
                ranges@.push((start, end)),
            ));
        } else {
            assert(texts(chars@, ranges@) + lines(rest) =~= texts(chars@, ranges@));
        }
    }
    if start < end {
        ranges.push((start, end));
    }
    ranges
}

/// Tests `chars[from..to]` for a declared length.
fn declares_length(chars: &Vec<char>, from: usize, to: usize) -> (declared: bool)
    requires
        from <= to <= chars@.len(),
    ensures
        declared == has_length(chars@.subrange(from as int, to as int)),
{
    if from == to {
        return false;
    }
    assert(chars@.subrange(from as int, to as int).skip(1) =~= chars@.subrange(
        from + 1,
        to as int,
    ));
    read_u64(chars, from + 1, to).is_some()
}

/// The characters `chars[from..to]`.
fn slice_chars(chars: &Vec<char>, from: usize, to: usize) -> (part: Vec<char>)
    requires
        from <= to <= chars@.len(),
    ensures
        part@ == chars@.subrange(from as int, to as int),
{
    let mut part: Vec<char> = Vec::new();
    let mut i: usize = from;
    while i < to
        invariant
            from <= i <= to <= chars@.len(),
            part@ == chars@.subrange(from as int, i as int),
        decreases to - i,
    {
        part.push(chars[i]);
        assert(part@ =~= chars@.subrange(from as int, i + 1));
        i += 1;
    }
    part
}

/// Finds the command that `name` names.
pub fn find_command(name: &Vec<char>) -> (found: Option<CommandName>)
    ensures
        found == command_named(name@),
{
    if chars_are_word(name, CommandName::Ping.as_str()) {
        Some(CommandName::Ping)
    } else if chars_are_word(name, CommandName::Echo.as_str()) {
        Some(CommandName::Echo)
    } else if chars_are_word(name, CommandName::Get.as_str()) {
        Some(CommandName::Get)
    } else if chars_are_word(name, CommandName::SetValue.as_str()) {
        Some(CommandName::SetValue)
    } else if chars_are_word(name, CommandName::Rpush.as_str()) {
        Some(CommandName::Rpush)
    } else if chars_are_word(name, CommandName::Lpush.as_str()) {
        Some(CommandName::Lpush)
    } else if chars_are_word(name, CommandName::Lrange.as_str()) {
        Some(CommandName::Lrange)
    } else if chars_are_word(name, CommandName::Llen.as_str()) {
        Some(CommandName::Llen)
    } else if chars_are_word(name, CommandName::Lpop.as_str()) {
        Some(CommandName::Lpop)
    } else if chars_are_word(name, CommandName::Info.as_str()) {
        Some(CommandName::Info)
    } else {
        None
    }
}

/// Reads the arguments from the lines `ranges[3..]` of `input`.
fn read_arguments(input: &str, chars: &Vec<char>, ranges: &Vec<(usize, usize)>) -> (args: Result<
    Vec<String>,
    ParseError,
>)
    requires
        chars@ == input@,
        ranges@.len() >= 3,
        forall|k: int|
            0 <= k < ranges@.len() ==> (#[trigger] ranges@[k]).0 <= ranges@[k].1 <= chars@.len(),
    ensures
        match args {
            Ok(found) => arguments(texts(chars@, ranges@), 3) == Ok::<_, ParseError>(
                found.deep_view(),
            ),
            Err(error) => arguments(texts(chars@, ranges@), 3) == Err::<Seq<Seq<char>>, _>(error),
        },
{
    let ghost ls = texts(chars@, ranges@);
    let mut args: Vec<String> = Vec::new();
    let mut at: usize = 3;
    assert(args.deep_view() =~= Seq::<Seq<char>>::empty());
    proof {
        match arguments(ls, 3) {
            Ok(rest) => {
                assert(args.deep_view() + rest =~= rest);
            },
            Err(_) => {},
        }
    }
    while ranges.len() - at >= 2
        invariant
            3 <= at <= ranges@.len(),
            chars@ == input@,
            ls == texts(chars@, ranges@),
            forall|k: int|
                0 <= k < ranges@.len() ==> (#[trigger] ranges@[k]).0 <= ranges@[k].1
                    <= chars@.len(),
            arguments(ls, 3) == match arguments(ls, at as int) {
                Ok(rest) => Ok::<_, ParseError>(args.deep_view() + rest),
                Err(error) => Err(error),
            },
        decreases ranges@.len() - at,
    {
        let (from, to) = ranges[at];
        let (first, last) = ranges[at + 1];
        assert(ls[at as int] == chars@.subrange(from as int, to as int));
        assert(ls[at + 1] == chars@.subrange(first as int, last as int));
        if !(declares_length(chars, from, to) && chars[from] == '$') {
            return Err(ParseError::InvalidBulkHeader);
        }
        let ghost before = args.deep_view();
        let arg = input.substring_char(first, last).to_owned();
        args.push(arg);
        proof {
            assert(args.deep_view() =~= before.push(ls[at + 1]));
            match arguments(ls, at + 2) {
                Ok(rest) => {
                    assert(before + (seq![ls[at + 1]] + rest) =~= args.deep_view() + rest);
                },
                Err(_) => {},
            }
        }
        at += 2;
    }
    proof {
        assert(arguments(ls, at as int) == Ok::<_, ParseError>(Seq::<Seq<char>>::empty()));
        assert(args.deep_view() + Seq::<Seq<char>>::empty() =~= args.deep_view());
    }
    Ok(args)
}

/// Reads one request.
///
/// White space at the end of `input` is left out first. The request then
/// has to start with `*` and to have three lines at least. The first line
/// declares the number of elements and the second the length of the
/// command's name: each has to hold an unsigned integer behind its first
/// character. The third line is the name, in any letter case. Every
/// argument after it takes two lines, a header of `$` and a length, and the
/// argument; a last line without a partner is ignored.
pub fn parse_resp(input: &str) -> (parsed: Result<Request, ParseError>)
    ensures
        parsed_view(parsed) == parse(input@),
{
    let chars = chars_of(input);
    let end = trimmed_len(&chars);
    if end == 0 {
        return Err(ParseError::EmptyInput);
    }
    if chars[0] != '*' {
        return Err(ParseError::InvalidArray);
    }
    let ranges = split_lines(&chars, end);
    let ghost ls = lines(trim_end(input@));
    assert(ls == texts(chars@, ranges@));
    if ranges.len() < 3 {
        return Err(ParseError::Malformed);
    }
    let (count_from, count_to) = ranges[0];
    assert(ls[0] == chars@.subrange(count_from as int, count_to as int));
    if !declares_length(&chars, count_from, count_to) {
        return Err(ParseError::InvalidCount);
    }
    let (length_from, length_to) = ranges[1];
    assert(ls[1] == chars@.subrange(length_from as int, length_to as int));
    if !declares_length(&chars, length_from, length_to) {
        return Err(ParseError::InvalidBulkHeader);
    }
    let args = match read_arguments(input, &chars, &ranges) {
        Ok(args) => args,
        Err(error) => {
            return Err(error);
        },
    };
    let (name_from, name_to) = ranges[2];
    assert(ls[2] == chars@.subrange(name_from as int, name_to as int));
    let name = slice_chars(&chars, name_from, name_to);
    match find_command(&name) {
        Some(command) => Ok(Request::new(command, args)),
        None => Err(ParseError::UnknownCommand),
    }
}

} // verus!
