//! The list commands: `RPUSH`, `LPUSH`, `LRANGE`, `LLEN` and `LPOP`.
//!
//! A key that holds nothing at the time of the command stands for the empty
//! list; a key that holds a string makes every list command fail.

use vstd::prelude::*;
use vstd::string::*;
use vstd::utf8::encode_utf8;
use crate::config::Config;
use crate::mem::MemDB;
use crate::resp::commands::command::{
    Command,
    CommandName,
    Effect,
    ExecutionError,
    ValidationError,
    reply_view,
};
use crate::resp::commands::structs::{Data, DataView, StoreView, Value, ValueView, live};
use crate::resp::frame::{FrameView, RespFrame, lemma_array_view};
use crate::text::{count_as_i64, count_to_i64, parse_i64, parse_u64, str_to_i64, str_to_u64};

verus! {

/// The list under `key` at time `now`: the empty list where the key holds
/// nothing or its entry has expired, and an error where it holds a string.
pub open spec fn list_of(store: StoreView, key: Seq<char>, now: u64) -> Result<
    Seq<Seq<char>>,
    ExecutionError,
> {
    match live(store, key, now) {
        None => Ok(Seq::empty()),
        Some(entry) => match entry.value {
            ValueView::List(items) => Ok(items),
            ValueView::String(_) => Err(ExecutionError::WrongType),
        },
    }
}

/// Looks up the list under `key`: nothing where the key stands for the
/// empty list because it holds no live entry.
fn find_list<'a>(db: &'a MemDB<Data>, key: &str, now: u64) -> (found: Result<
    Option<&'a Data>,
    ExecutionError,
>)
    ensures
        match found {
            Err(error) => list_of(db.model(), key@, now) == Err::<Seq<Seq<char>>, _>(error),
            Ok(None) => live(db.model(), key@, now) is None,
            Ok(Some(entry)) => {
                &&& live(db.model(), key@, now) == Some(entry@)
                &&& entry.value is List
            },
        },
{
    match db.get(key) {
        None => Ok(None),
        Some(entry) => {
            if entry.expired(now) {
                Ok(None)
            } else {
                match &entry.value {
                    Value::List(_) => Ok(Some(entry)),
                    Value::String(_) => Err(ExecutionError::WrongType),
                }
            }
        },
    }
}

/// One list element as it is sent: a bulk string of its bytes.
pub open spec fn bulk(element: Seq<char>) -> FrameView {
    FrameView::BulkString(encode_utf8(element))
}

/// The elements of a list as they are sent, in order.
pub open spec fn bulks(elements: Seq<Seq<char>>) -> Seq<FrameView> {
    elements.map_values(|element: Seq<char>| bulk(element))
}

/// The elements `items[from..to]` as bulk strings.
fn bulk_frames(items: &Vec<String>, from: usize, to: usize) -> (frames: Vec<RespFrame>)
    requires
        from <= to <= items@.len(),
    ensures
        RespFrame::Array(frames)@ == FrameView::Array(
            bulks(items.deep_view().subrange(from as int, to as int)),
        ),
{
    let mut frames: Vec<RespFrame> = Vec::new();
    let mut i: usize = from;
    while i < to
        invariant
            from <= i <= to <= items@.len(),
            frames@.len() == i - from,
            forall|k: int| 0 <= k < i - from ==> (#[trigger] frames@[k])@ == bulk(items@[from + k]@),
        decreases to - i,
    {
        frames.push(RespFrame::BulkString(items[i].as_str().as_bytes_vec()));
        i += 1;
    }
    proof {
        lemma_array_view(frames);
        assert(RespFrame::Array(frames)@->Array_0 =~= bulks(
            items.deep_view().subrange(from as int, to as int),
        ));
    }
    frames
}

/// Appends copies of the elements `items[from..]` to `list`.
fn append_copies(list: &mut Vec<String>, items: &Vec<String>, from: usize)
    requires
        from <= items@.len(),
    ensures
        final(list).deep_view() == old(list).deep_view() + items.deep_view().skip(from as int),
{
    let ghost before = list.deep_view();
    let mut i: usize = from;
    while i < items.len()
        invariant
            from <= i <= items@.len(),
            list@.len() == before.len() + i - from,
            forall|k: int| 0 <= k < before.len() ==> (#[trigger] list@[k])@ == before[k],
            forall|k: int|
                before.len() <= k < list@.len() ==> (#[trigger] list@[k])@ == items@[from + k
                    - before.len()]@,
        decreases items.len() - i,
    {
        list.push(items[i].clone());
        i += 1;
    }
    assert(list.deep_view() =~= before + items.deep_view().skip(from as int));
}

/// Appends copies of the elements `items[from..]` to `list`, the last of
/// them first.
fn append_reversed(list: &mut Vec<String>, items: &Vec<String>, from: usize)
    requires
        from <= items@.len(),
    ensures
        final(list).deep_view() == old(list).deep_view() + items.deep_view().skip(
            from as int,
        ).reverse(),
{
    let ghost before = list.deep_view();
    let ghost turned = items.deep_view().skip(from as int).reverse();
    let mut i: usize = items.len();
    while i > from
        invariant
            from <= i <= items@.len(),
            turned == items.deep_view().skip(from as int).reverse(),
            list@.len() == before.len() + items@.len() - i,
            forall|k: int| 0 <= k < before.len() ==> (#[trigger] list@[k])@ == before[k],
            forall|k: int|
                before.len() <= k < list@.len() ==> (#[trigger] list@[k])@ == turned[k
                    - before.len()],
        decreases i,
    {
        i -= 1;
        list.push(items[i].clone());
    }
    assert(list.deep_view() =~= before + turned);
}

/// `RPUSH key element...` and `LPUSH key element...`.
#[derive(Clone, Debug, PartialEq, Eq)]
pub struct ListPushCommand {
    args: Vec<String>,
    reverse: bool,
}

impl View for ListPushCommand {
    type V = Seq<Seq<char>>;

    /// The arguments.
    closed spec fn view(&self) -> Seq<Seq<char>> {
        self.args.deep_view()
    }
}

/// The list `base` after `elements` were pushed: at its end and in their
/// order, or, with `reverse`, one by one at its front, so that the last of
/// them comes first.
pub open spec fn pushed(base: Seq<Seq<char>>, elements: Seq<Seq<char>>, reverse: bool) -> Seq<
    Seq<char>,
> {
    if reverse {
        elements.reverse() + base
    } else {
        base + elements
    }
}

/// Whether a push accepts `args`: a key and at least one element. `name`
/// is the command's name, for the error.
pub open spec fn push_check(args: Seq<Seq<char>>, name: CommandName) -> Result<
    (),
    ValidationError,
> {
    if args.len() < 2 {
        Err(ValidationError::WrongArgumentCount(name))
    } else {
        Ok(())
    }
}

/// What a push with arguments `args` comes to on `store` at time `now`:
/// the key holds its list with the elements pushed, and never expires; the
/// reply is the number of elements that the list has then. Where the key
/// holds a string, nothing changes.
pub open spec fn push_effect(args: Seq<Seq<char>>, reverse: bool, store: StoreView, now: u64)
    -> Effect {
    match list_of(store, args[0], now) {
        Err(error) => Effect { reply: Err(error), store },
        Ok(base) => {
            let list = pushed(base, args.skip(1), reverse);
            Effect {
                reply: Ok(FrameView::Integer(count_as_i64(list.len()))),
                store: store.insert(
                    args[0],
                    DataView { value: ValueView::List(list), expires_at: None },
                ),
            }
        },
    }
}

impl ListPushCommand {
    /// `RPUSH` with the given arguments, not yet validated.
    pub fn new(args: Vec<String>) -> (command: Self)
        ensures
            command@ == args.deep_view(),
            !command.reversed(),
    {
        Self { args, reverse: false }
    }

    /// `LPUSH` where `reverse` is set, and `RPUSH` where it is not, with the
    /// given arguments, not yet validated.
    pub fn with_direction(args: Vec<String>, reverse: bool) -> (command: Self)
        ensures
            command@ == args.deep_view(),
            command.reversed() == reverse,
    {
        Self { args, reverse }
    }

    /// Whether the command pushes at the front of the list.
    pub closed spec fn reversed(&self) -> bool {
        self.reverse
    }

    /// The name of the command: `LPUSH` where it pushes at the front.
    pub open spec fn name(&self) -> CommandName {
        if self.reversed() {
            CommandName::Lpush
        } else {
            CommandName::Rpush
        }
    }

    /// The list that the key holds after the command, given the entry that
    /// it holds before.
    fn extended(&self, found: Option<&Data>) -> (list: Vec<String>)
        requires
            self.check() is Ok,
            found matches Some(entry) ==> entry.value is List,
        ensures
            list.deep_view() == pushed(
                match found {
                    Some(entry) => entry@.value->List_0,
                    None => Seq::empty(),
                },
                self@.skip(1),
                self.reversed(),
            ),
    {
        let mut list: Vec<String> = Vec::new();
        assert(list.deep_view() =~= Seq::<Seq<char>>::empty());
        if self.reverse {
            append_reversed(&mut list, &self.args, 1);
        }
        match found {
            Some(entry) => match &entry.value {
                Value::List(items) => {
                    append_copies(&mut list, items, 0);
                    assert(items.deep_view().skip(0) =~= items.deep_view());
                },
                Value::String(_) => {},
            },
            None => {},
        }
        if !self.reverse {
            append_copies(&mut list, &self.args, 1);
        }
        assert(list.deep_view() =~= pushed(
            match found {
                Some(entry) => entry@.value->List_0,
                None => Seq::empty(),
            },
            self@.skip(1),
            self.reverse,
        ));
        list
    }
}

impl Command for ListPushCommand {
    open spec fn check(&self) -> Result<(), ValidationError> {
        push_check(self@, self.name())
    }

    open spec fn effect(&self, store: StoreView, report: Seq<char>, now: u64) -> Effect {
        push_effect(self@, self.reversed(), store, now)
    }

    fn validate(&self) -> (outcome: Result<(), ValidationError>) {
        if self.args.len() < 2 {
            if self.reverse {
                return Err(ValidationError::WrongArgumentCount(CommandName::Lpush));
            } else {
                return Err(ValidationError::WrongArgumentCount(CommandName::Rpush));
            }
        }
        Ok(())
    }

    fn execute(&self, db: &mut MemDB<Data>, config: &Config, now: u64) -> (reply: Result<
        RespFrame,
        ExecutionError,
    >) {
        let list = match find_list(db, self.args[0].as_str(), now) {
            Err(error) => {
                return Err(error);
            },
            Ok(found) => self.extended(found),
        };
        let count = count_to_i64(list.len());
        let entry = Data { value: Value::List(list), expires_at: None };
        db.set(self.args[0].clone(), entry);
        assert(db.model() =~= old(db).model().insert(self@[0], entry@));
        Ok(RespFrame::Integer(count))
    }
}

/// `LRANGE key start end`.
#[derive(Clone, Debug, PartialEq, Eq)]
pub struct ListGetCommand {
    args: Vec<String>,
}

impl View for ListGetCommand {
    type V = Seq<Seq<char>>;

    /// The arguments.
    closed spec fn view(&self) -> Seq<Seq<char>> {
        self.args.deep_view()
    }
}

/// An index into a list of `len` elements as a place counted from the
/// front: a negative index counts from the end, `-1` being the last element.
pub open spec fn from_front(index: int, len: int) -> int {
    if index < 0 {
        index + len
    } else {
        index
    }
}

/// The part of a list of `len` elements between the indices `start` and
/// `end`, both included, as the places `from..to`. A start before the list
/// counts as its first element and an end behind it as its last. `None`
/// where no element lies between them.
pub open spec fn range_bounds(len: int, start: int, end: int) -> Option<(int, int)> {
    let first = if from_front(start, len) < 0 {
        0
    } else {
        from_front(start, len)
    };
    let last = if from_front(end, len) >= len {
        len - 1
    } else {
        from_front(end, len)
    };
    if first > last || first >= len {
        None
    } else {
        Some((first, last + 1))
    }
}

/// What `LRANGE` replies for `list`: the elements between `start` and
/// `end` in order, and the empty array where there are none.
pub open spec fn range_reply(list: Seq<Seq<char>>, start: i64, end: i64) -> FrameView {
    match range_bounds(list.len() as int, start as int, end as int) {
        None => FrameView::EmptyArray,
        Some((from, to)) => FrameView::Array(bulks(list.subrange(from, to))),
    }
}

/// Computes [`range_bounds`].
fn compute_bounds(len: usize, start: i64, end: i64) -> (bounds: Option<(usize, usize)>)
    ensures
        match bounds {
            None => range_bounds(len as int, start as int, end as int) is None,
            Some((from, to)) => {
                &&& range_bounds(len as int, start as int, end as int) == Some(
                    (from as int, to as int),
                )
                &&& from < to <= len
            },
        },
{
    let n: i128 = len as i128;
    let s: i128 = if start < 0 {
        start as i128 + n
    } else {
        start as i128
    };
    let e: i128 = if end < 0 {
        end as i128 + n
    } else {
        end as i128
    };
    let first: i128 = if s < 0 {
        0
    } else {
        s
    };
    let last: i128 = if e >= n {
        n - 1
    } else {
        e
    };
    if first > last || first >= n {
        None
    } else {
        Some((first as usize, (last + 1) as usize))
    }
}

/// Whether `LRANGE` accepts `args`: a key and two indices, each a signed
/// 64-bit integer.
pub open spec fn range_check(args: Seq<Seq<char>>) -> Result<(), ValidationError> {
    if args.len() != 3 {
        Err(ValidationError::WrongArgumentCount(CommandName::Lrange))
    } else if parse_i64(args[1]) is None || parse_i64(args[2]) is None {
        Err(ValidationError::NotAnInteger)
    } else {
        Ok(())
    }
}

/// What `LRANGE` with arguments `args` replies on `store` at time `now`:
/// [`range_reply`] for the key's list.
pub open spec fn range_result(args: Seq<Seq<char>>, store: StoreView, now: u64) -> Result<
    FrameView,
    ExecutionError,
> {
    match list_of(store, args[0], now) {
        Err(error) => Err(error),
        Ok(list) => Ok(range_reply(list, parse_i64(args[1])->0, parse_i64(args[2])->0)),
    }
}

impl ListGetCommand {
    /// `LRANGE` with the given arguments, not yet validated.
    pub fn new(args: Vec<String>) -> (command: Self)
        ensures
            command@ == args.deep_view(),
    {
        Self { args }
    }

    /// Carries the command out on a store that is only read.
    pub fn read(&self, db: &MemDB<Data>, now: u64) -> (reply: Result<RespFrame, ExecutionError>)
        requires
            self.check() is Ok,
        ensures
            reply_view(reply) == range_result(self@, db.model(), now),
    {
        let start = match str_to_i64(self.args[1].as_str()) {
            Some(start) => start,
            None => 0,
        };
        let end = match str_to_i64(self.args[2].as_str()) {
            Some(end) => end,
            None => 0,
        };
        match find_list(db, self.args[0].as_str(), now) {
            Err(error) => Err(error),
            Ok(None) => Ok(RespFrame::EmptyArray),
            Ok(Some(entry)) => match &entry.value {
                Value::List(items) => match compute_bounds(items.len(), start, end) {
                    None => Ok(RespFrame::EmptyArray),
                    Some((from, to)) => Ok(RespFrame::Array(bulk_frames(items, from, to))),
                },
                Value::String(_) => Err(ExecutionError::WrongType),
            },
        }
    }
}

impl Command for ListGetCommand {
    open spec fn check(&self) -> Result<(), ValidationError> {
        range_check(self@)
    }

    /// The reply is [`range_result`]; the store is not touched.
    open spec fn effect(&self, store: StoreView, report: Seq<char>, now: u64) -> Effect {
        Effect { reply: range_result(self@, store, now), store }
    }

    fn validate(&self) -> (outcome: Result<(), ValidationError>) {
        if self.args.len() != 3 {
            return Err(ValidationError::WrongArgumentCount(CommandName::Lrange));
        }
        if str_to_i64(self.args[1].as_str()).is_none() {
            return Err(ValidationError::NotAnInteger);
        }
        if str_to_i64(self.args[2].as_str()).is_none() {
            return Err(ValidationError::NotAnInteger);
        }
        Ok(())
    }

    fn execute(&self, db: &mut MemDB<Data>, config: &Config, now: u64) -> (reply: Result<
        RespFrame,
        ExecutionError,
    >) {
        self.read(db, now)
    }
}

/// `LLEN key`.
#[derive(Clone, Debug, PartialEq, Eq)]
pub struct ListLenCommand {
    args: Vec<String>,
}

impl View for ListLenCommand {
    type V = Seq<Seq<char>>;

    /// The arguments.
    closed spec fn view(&self) -> Seq<Seq<char>> {
        self.args.deep_view()
    }
}

/// Whether `LLEN` accepts `args`: exactly one argument, the key.
pub open spec fn len_check(args: Seq<Seq<char>>) -> Result<(), ValidationError> {
    if args.len() != 1 {
        Err(ValidationError::WrongArgumentCount(CommandName::Llen))
    } else {
        Ok(())
    }
}

/// What `LLEN` with arguments `args` replies on `store` at time `now`: the
/// number of elements of the key's list.
pub open spec fn len_result(args: Seq<Seq<char>>, store: StoreView, now: u64) -> Result<
    FrameView,
    ExecutionError,
> {
    match list_of(store, args[0], now) {
        Err(error) => Err(error),
        Ok(list) => Ok(FrameView::Integer(count_as_i64(list.len()))),
    }
}

impl ListLenCommand {
    /// `LLEN` with the given arguments, not yet validated.
    pub fn new(args: Vec<String>) -> (command: Self)
        ensures
            command@ == args.deep_view(),
    {
        Self { args }
    }

    /// Carries the command out on a store that is only read.
    pub fn read(&self, db: &MemDB<Data>, now: u64) -> (reply: Result<RespFrame, ExecutionError>)
        requires
            self.check() is Ok,
        ensures
            reply_view(reply) == len_result(self@, db.model(), now),
    {
        match find_list(db, self.args[0].as_str(), now) {
            Err(error) => Err(error),
            Ok(None) => Ok(RespFrame::Integer(0)),
            Ok(Some(entry)) => match &entry.value {
                Value::List(items) => Ok(RespFrame::Integer(count_to_i64(items.len()))),
                Value::String(_) => Err(ExecutionError::WrongType),
            },
        }
    }
}

impl Command for ListLenCommand {
    open spec fn check(&self) -> Result<(), ValidationError> {
        len_check(self@)
    }

    /// The reply is [`len_result`]; the store is not touched.
    open spec fn effect(&self, store: StoreView, report: Seq<char>, now: u64) -> Effect {
        Effect { reply: len_result(self@, store, now), store }
    }

    fn validate(&self) -> (outcome: Result<(), ValidationError>) {
        if self.args.len() != 1 {
            return Err(ValidationError::WrongArgumentCount(CommandName::Llen));
        }
        Ok(())
    }

    fn execute(&self, db: &mut MemDB<Data>, config: &Config, now: u64) -> (reply: Result<
        RespFrame,
        ExecutionError,
    >) {
        self.read(db, now)
    }
}

/// `LPOP key` and `LPOP key count`.
#[derive(Clone, Debug, PartialEq, Eq)]
pub struct ListPopCommand {
    args: Vec<String>,
}

impl View for ListPopCommand {
    type V = Seq<Seq<char>>;

    /// The arguments.
    closed spec fn view(&self) -> Seq<Seq<char>> {
        self.args.deep_view()
    }
}

/// How many elements `LPOP` with arguments `args` takes from a list of
/// `len` elements: one where no count is given, else as many as the count
/// says, and in no case more than the list has.
pub open spec fn pop_count(args: Seq<Seq<char>>, len: nat) -> nat {
    let wanted: nat = if args.len() == 2 {
        parse_u64(args[1])->0 as nat
    } else {
        1
    };
    if wanted <= len {
        wanted
    } else {
        len
    }
}

/// What `LPOP` replies when it took the first `count` elements of `list`:
/// the null bulk string for none, the element itself for one, and an array
/// of them, in order, for more.
pub open spec fn pop_reply(list: Seq<Seq<char>>, count: nat) -> FrameView {
    if count == 0 {
        FrameView::NullBulkString
    } else if count == 1 {
        bulk(list[0])
    } else {
        FrameView::Array(bulks(list.take(count as int)))
    }
}

/// Whether `LPOP` accepts `args`: a key, or a key and a count that is an
/// unsigned 64-bit integer.
pub open spec fn pop_check(args: Seq<Seq<char>>) -> Result<(), ValidationError> {
    if args.len() != 1 && args.len() != 2 {
        Err(ValidationError::WrongArgumentCount(CommandName::Lpop))
    } else if args.len() == 2 && parse_u64(args[1]) is None {
        Err(ValidationError::NotAnInteger)
    } else {
        Ok(())
    }
}

/// What `LPOP` with arguments `args` comes to on `store` at time `now`: the
/// first [`pop_count`] elements leave the key's list and make the reply, as
/// [`pop_reply`] says; the entry keeps its expiry time. Where no element is
/// taken, nothing changes.
pub open spec fn pop_effect(args: Seq<Seq<char>>, store: StoreView, now: u64) -> Effect {
    match list_of(store, args[0], now) {
        Err(error) => Effect { reply: Err(error), store },
        Ok(list) => {
            let count = pop_count(args, list.len());
            Effect {
                reply: Ok(pop_reply(list, count)),
                store: if count == 0 {
                    store
                } else {
                    store.insert(
                        args[0],
                        DataView {
                            value: ValueView::List(list.skip(count as int)),
                            expires_at: store[args[0]].expires_at,
                        },
                    )
                },
            }
        },
    }
}

impl ListPopCommand {
    /// `LPOP` with the given arguments, not yet validated.
    pub fn new(args: Vec<String>) -> (command: Self)
        ensures
            command@ == args.deep_view(),
    {
        Self { args }
    }

    /// How many elements are asked for.
    fn wanted(&self) -> (wanted: u64)
        requires
            self.check() is Ok,
        ensures
            wanted == if self@.len() == 2 {
                parse_u64(self@[1])->0
            } else {
                1
            },
    {
        if self.args.len() == 2 {
            match str_to_u64(self.args[1].as_str()) {
                Some(count) => count,
                None => 0,
            }
        } else {
            1
        }
    }
}

impl Command for ListPopCommand {
    open spec fn check(&self) -> Result<(), ValidationError> {
        pop_check(self@)
    }

    open spec fn effect(&self, store: StoreView, report: Seq<char>, now: u64) -> Effect {
        pop_effect(self@, store, now)
    }

    fn validate(&self) -> (outcome: Result<(), ValidationError>) {
        if self.args.len() != 1 && self.args.len() != 2 {
            return Err(ValidationError::WrongArgumentCount(CommandName::Lpop));
        }
        if self.args.len() == 2 && str_to_u64(self.args[1].as_str()).is_none() {
            return Err(ValidationError::NotAnInteger);
        }
        Ok(())
    }

    fn execute(&self, db: &mut MemDB<Data>, config: &Config, now: u64) -> (reply: Result<
        RespFrame,
        ExecutionError,
    >) {
        let wanted = self.wanted();
        let (frame, entry) = match find_list(db, self.args[0].as_str(), now) {
            Err(error) => {
                return Err(error);
            },
            Ok(None) => {
                return Ok(RespFrame::NullBulkString);
            },
            Ok(Some(found)) => match &found.value {
                Value::List(items) => {
                    let count: usize = if wanted <= items.len() as u64 {
                        wanted as usize
                    } else {
                        items.len()
                    };
                    if count == 0 {
                        return Ok(RespFrame::NullBulkString);
                    }
                    let frame = if count == 1 {
                        RespFrame::BulkString(items[0].as_str().as_bytes_vec())
                    } else {
                        RespFrame::Array(bulk_frames(items, 0, count))
                    };
                    let mut rest: Vec<String> = Vec::new();
                    append_copies(&mut rest, items, count);
                    proof {
                        assert(rest.deep_view() =~= items.deep_view().skip(count as int));
                        assert(items.deep_view().take(count as int) =~= items.deep_view().subrange(
                            0,
                            count as int,
                        ));
                    }
                    (frame, Data { value: Value::List(rest), expires_at: found.expires_at })
                },
                Value::String(_) => {
                    return Err(ExecutionError::WrongType);
                },
            },
        };
        db.set(self.args[0].clone(), entry);
        assert(db.model() =~= old(db).model().insert(self@[0], entry@));
        Ok(frame)
    }
}

} // verus!
