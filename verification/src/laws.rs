//! What holds of the commands taken together: laws that follow from the
//! meaning of each command, stated over the values of stores, requests and
//! frames.

use vstd::prelude::*;
use vstd::seq_lib::*;
use vstd::utf8::encode_utf8;
use crate::resp::commands::command::{CommandName, ExecutionError};
use crate::resp::commands::kv::{expiry_scale, set_check, set_effect, set_expiry};
use crate::resp::commands::list::{
    bulk,
    bulks,
    list_of,
    pop_check,
    pop_count,
    pop_effect,
    push_effect,
    range_reply,
};
use crate::resp::commands::request::RequestView;
use crate::resp::commands::structs::StoreView;
use crate::resp::frame::{FrameView, RespFrame};
use crate::resp::parser::{ParseError, command_named, named_request, parse};
use crate::server::{answer_to, store_after};
use crate::text::parse_u64;

verus! {

/// A frame has one encoding: two frames of the same value are encoded to the
/// same bytes, however often and wherever they are encoded.
pub proof fn encoding_is_determined(one: RespFrame, other: RespFrame)
    requires
        one@ == other@,
    ensures
        one@.wire() == other@.wire(),
{
}

/// A command that only reads leaves every store exactly as it finds it.
pub proof fn reading_changes_nothing(
    request: RequestView,
    store: StoreView,
    report: Seq<char>,
    now: u64,
)
    requires
        request.read_only(),
    ensures
        request.effect(store, report, now).store == store,
{
}

/// A command either takes effect or fails: one that replies with an error
/// leaves the store exactly as it found it.
pub proof fn failure_changes_nothing(
    request: RequestView,
    store: StoreView,
    report: Seq<char>,
    now: u64,
)
    requires
        request.effect(store, report, now).reply is Err,
    ensures
        request.effect(store, report, now).store == store,
{
}

/// `GET` asked twice of a key that nobody wrote in between replies the same
/// twice, as long as the key's entry has not expired between the two.
pub proof fn get_twice_is_get_once(
    key: Seq<char>,
    store: StoreView,
    report: Seq<char>,
    first: u64,
    second: u64,
)
    requires
        store.contains_key(key) ==> store[key].expired(first) == store[key].expired(second),
    ensures
        ({
            let get = RequestView { name: CommandName::Get, args: seq![key] };
            let once = get.effect(store, report, first);
            let again = get.effect(once.store, report, second);
            &&& once.store == store
            &&& again.store == store
            &&& again.reply == once.reply
        }),
{
}

/// `LLEN` asked twice of a key that nobody wrote in between replies the
/// same count twice, as long as the key's entry has not expired between the
/// two.
pub proof fn llen_twice_is_llen_once(
    key: Seq<char>,
    store: StoreView,
    report: Seq<char>,
    first: u64,
    second: u64,
)
    requires
        store.contains_key(key) ==> store[key].expired(first) == store[key].expired(second),
    ensures
        ({
            let llen = RequestView { name: CommandName::Llen, args: seq![key] };
            let once = llen.effect(store, report, first);
            let again = llen.effect(once.store, report, second);
            &&& once.store == store
            &&& again.store == store
            &&& again.reply == once.reply
        }),
{
}

/// What `SET` writes, `GET` reads: until the entry's time has come, the
/// reply is the value that was set, as bytes.
pub proof fn get_reads_what_set_wrote(
    args: Seq<Seq<char>>,
    store: StoreView,
    report: Seq<char>,
    now: u64,
    later: u64,
)
    requires
        set_check(args) is Ok,
        set_expiry(args, now) matches Some(expiry) ==> later < expiry,
    ensures
        ({
            let written = set_effect(args, store, now).store;
            let get = RequestView { name: CommandName::Get, args: seq![args[0]] };
            get.effect(written, report, later).reply == Ok::<_, ExecutionError>(
                FrameView::BulkString(encode_utf8(args[1])),
            )
        }),
{
}

/// An entry whose time has come reads as absent: `GET` replies the null
/// bulk string and the list commands see the empty list, while the entry
/// itself stays in the store.
pub proof fn elapsed_entry_reads_as_absent(
    key: Seq<char>,
    store: StoreView,
    report: Seq<char>,
    now: u64,
)
    requires
        store.contains_key(key),
        store[key].expired(now),
    ensures
        ({
            let get = RequestView { name: CommandName::Get, args: seq![key] };
            &&& get.effect(store, report, now).reply == Ok::<_, ExecutionError>(
                FrameView::NullBulkString,
            )
            &&& get.effect(store, report, now).store.contains_key(key)
            &&& get.effect(store, report, now).store[key] == store[key]
            &&& list_of(store, key, now) == Ok::<_, ExecutionError>(Seq::<Seq<char>>::empty())
        }),
{
}

/// A key that is set with a time to live of zero is gone at once: from the
/// moment of the `SET` on, `GET` replies the null bulk string, and still the
/// entry stays in the store until the key is written again.
pub proof fn zero_time_to_live_expires_at_once(
    key: Seq<char>,
    value: Seq<char>,
    unit: Seq<char>,
    amount: Seq<char>,
    store: StoreView,
    report: Seq<char>,
    now: u64,
    later: u64,
)
    requires
        expiry_scale(unit) is Some,
        parse_u64(amount) == Some(0u64),
        now <= later,
    ensures
        ({
            let set = RequestView {
                name: CommandName::SetValue,
                args: seq![key, value, unit, amount],
            };
            let get = RequestView { name: CommandName::Get, args: seq![key] };
            let written = set.effect(store, report, now).store;
            &&& set.check() is Ok
            &&& written.contains_key(key)
            &&& get.effect(written, report, later).reply == Ok::<_, ExecutionError>(
                FrameView::NullBulkString,
            )
            &&& get.effect(written, report, later).store == written
        }),
{
    let args = seq![key, value, unit, amount];
    assert(args[2] == unit && args[3] == amount);
    assert(0u64 * expiry_scale(unit)->0 == 0) by (nonlinear_arith);
}

/// A push on a key that holds a string fails with `WrongType`, and the
/// string stays as it was. The string has to be there still: one that has
/// expired stands for nothing, and the push begins a new list.
pub proof fn push_on_a_string_fails(
    set_args: Seq<Seq<char>>,
    elements: Seq<Seq<char>>,
    reverse: bool,
    store: StoreView,
    report: Seq<char>,
    now: u64,
    later: u64,
)
    requires
        set_check(set_args) is Ok,
        elements.len() >= 1,
        !set_effect(set_args, store, now).store[set_args[0]].expired(later),
    ensures
        ({
            let written = set_effect(set_args, store, now).store;
            let push = RequestView {
                name: if reverse {
                    CommandName::Lpush
                } else {
                    CommandName::Rpush
                },
                args: seq![set_args[0]] + elements,
            };
            &&& push.check() is Ok
            &&& push.effect(written, report, later).reply == Err::<FrameView, _>(
                ExecutionError::WrongType,
            )
            &&& push.effect(written, report, later).store == written
        }),
{
    let args = seq![set_args[0]] + elements;
    assert(args[0] == set_args[0]);
}

/// `LRANGE` from a start at or before the first element up to `-1` replies
/// the whole list, in order.
pub proof fn range_from_the_front_to_the_last_is_the_list(list: Seq<Seq<char>>, start: i64)
    requires
        list.len() > 0,
        start <= 0,
        start == 0 || start + list.len() <= 0,
    ensures
        range_reply(list, start, -1i64) == FrameView::Array(bulks(list)),
{
    assert(list.subrange(0, list.len() as int) =~= list);
}

/// `LRANGE` with a start behind its end replies the empty array, where both
/// count from the same side of the list.
pub proof fn range_backwards_is_empty(list: Seq<Seq<char>>, start: i64, end: i64)
    requires
        end < start,
        (0 <= end) || (start < 0),
    ensures
        range_reply(list, start, end) == FrameView::EmptyArray,
{
}

/// What `LPOP` takes and what it leaves make up the list that was there:
/// the elements taken are its first ones, in order, the key holds the rest,
/// and the entry keeps its expiry time.
pub proof fn pop_takes_the_front(
    args: Seq<Seq<char>>,
    store: StoreView,
    report: Seq<char>,
    now: u64,
)
    requires
        pop_check(args) is Ok,
        list_of(store, args[0], now) is Ok,
        pop_count(args, list_of(store, args[0], now)->Ok_0.len()) > 0,
    ensures
        ({
            let list = list_of(store, args[0], now)->Ok_0;
            let count = pop_count(args, list.len()) as int;
            let after = pop_effect(args, store, now).store;
            &&& count <= list.len()
            &&& pop_effect(args, store, now).reply == Ok::<_, ExecutionError>(
                if count == 1 {
                    bulk(list[0])
                } else {
                    FrameView::Array(bulks(list.take(count)))
                },
            )
            &&& list_of(after, args[0], now) == Ok::<_, ExecutionError>(list.skip(count))
            &&& list.take(count) + list.skip(count) == list
            &&& after[args[0]].expires_at == store[args[0]].expires_at
        }),
{
    let list = list_of(store, args[0], now)->Ok_0;
    let count = pop_count(args, list.len()) as int;
    assert(list.take(count) + list.skip(count) =~= list);
}

/// `LPOP` with a count of zero replies the null bulk string and changes
/// nothing, whatever list the key holds.
pub proof fn pop_of_none_changes_nothing(
    key: Seq<char>,
    count: Seq<char>,
    store: StoreView,
    report: Seq<char>,
    now: u64,
)
    requires
        parse_u64(count) == Some(0u64),
        list_of(store, key, now) is Ok,
    ensures
        ({
            let pop = RequestView { name: CommandName::Lpop, args: seq![key, count] };
            &&& pop.check() is Ok
            &&& pop.effect(store, report, now).reply == Ok::<_, ExecutionError>(
                FrameView::NullBulkString,
            )
            &&& pop.effect(store, report, now).store == store
        }),
{
    let args = seq![key, count];
    assert(args[0] == key && args[1] == count);
}

/// The store after the elements of `elements` were appended to the list
/// under `key` one by one, each by an `RPUSH` of its own, the `i`-th at the
/// time `times[i]`.
pub open spec fn push_each(
    store: StoreView,
    key: Seq<char>,
    elements: Seq<Seq<char>>,
    times: Seq<u64>,
) -> StoreView
    decreases elements.len(),
{
    if elements.len() == 0 || times.len() != elements.len() {
        store
    } else {
        push_each(
            push_effect(seq![key, elements[0]], false, store, times[0]).store,
            key,
            elements.skip(1),
            times.skip(1),
        )
    }
}

/// No push is lost: after any number of single pushes on one key, one
/// after another, the key's list is the list from before with every pushed
/// element behind it, in the order in which the pushes took place.
pub proof fn pushes_lose_nothing(
    store: StoreView,
    key: Seq<char>,
    elements: Seq<Seq<char>>,
    times: Seq<u64>,
)
    requires
        elements.len() > 0,
        times.len() == elements.len(),
        list_of(store, key, times[0]) is Ok,
    ensures
        forall|now: u64| #[trigger]
            list_of(push_each(store, key, elements, times), key, now) == Ok::<_, ExecutionError>(
                list_of(store, key, times[0])->Ok_0 + elements,
            ),
    decreases elements.len(),
{
    let base = list_of(store, key, times[0])->Ok_0;
    let args = seq![key, elements[0]];
    assert(args[0] == key);
    assert(args.skip(1) =~= seq![elements[0]]);
    let next = push_effect(args, false, store, times[0]).store;
    let grown = base + seq![elements[0]];
    assert(forall|now: u64| #[trigger]
        list_of(next, key, now) == Ok::<_, ExecutionError>(grown));
    if elements.len() == 1 {
        assert(push_each(next, key, elements.skip(1), times.skip(1)) == next);
        assert(grown =~= base + elements);
    } else {
        pushes_lose_nothing(next, key, elements.skip(1), times.skip(1));
        assert(grown + elements.skip(1) =~= base + elements);
    }
}

/// Whatever the order in which single pushes reach the store, the key's
/// list holds the same elements afterwards: those from before and each
/// pushed element, as often as it was pushed. Only their places depend on
/// the order.
pub proof fn pushes_in_any_order(
    store: StoreView,
    key: Seq<char>,
    one_order: Seq<Seq<char>>,
    other_order: Seq<Seq<char>>,
    now: u64,
)
    requires
        one_order.len() > 0,
        one_order.to_multiset() == other_order.to_multiset(),
        list_of(store, key, now) is Ok,
    ensures
        ({
            let times = Seq::new(one_order.len(), |i: int| now);
            let one = list_of(push_each(store, key, one_order, times), key, now);
            let other = list_of(push_each(store, key, other_order, times), key, now);
            &&& one is Ok
            &&& other is Ok
            &&& one->Ok_0.to_multiset() == other->Ok_0.to_multiset()
            &&& one->Ok_0.len() == list_of(store, key, now)->Ok_0.len() + one_order.len()
            &&& other->Ok_0.len() == one->Ok_0.len()
        }),
{
    let times = Seq::new(one_order.len(), |i: int| now);
    let base = list_of(store, key, now)->Ok_0;
    one_order.to_multiset_ensures();
    other_order.to_multiset_ensures();
    assert(other_order.len() == one_order.len());
    pushes_lose_nothing(store, key, one_order, times);
    pushes_lose_nothing(store, key, other_order, times);
    lemma_multiset_commutative(base, one_order);
    lemma_multiset_commutative(base, other_order);
}

/// A name that is no command's makes the request fail with
/// `UnknownCommand`, whatever arguments come with it.
pub proof fn unknown_name_is_refused(name: Seq<char>, args: Seq<Seq<char>>)
    requires
        command_named(name) is None,
    ensures
        named_request(name, args) == Err::<RequestView, _>(ParseError::UnknownCommand),
{
}

/// A request that cannot be read is answered with an error frame that holds
/// the error's text, and the store stays as it was: the next request finds
/// the server as the last one left it.
pub proof fn unreadable_request_is_answered(
    input: Seq<char>,
    store: StoreView,
    report: Seq<char>,
    now: u64,
)
    requires
        parse(input) is Err,
    ensures
        answer_to(input, store, report, now) == FrameView::Error(parse(input)->Err_0.text()),
        store_after(input, store, report, now) == store,
{
}

/// Every request is answered with a frame, and an error of whatever kind
/// with an error frame: nothing that a client sends is left without one.
pub proof fn every_error_is_an_error_frame(
    input: Seq<char>,
    store: StoreView,
    report: Seq<char>,
    now: u64,
)
    ensures
        parse(input) is Err ==> answer_to(input, store, report, now) is Error,
        parse(input) matches Ok(request) && request.check() is Err ==> answer_to(
            input,
            store,
            report,
            now,
        ) is Error,
        parse(input) matches Ok(request) && request.check() is Ok && request.effect(
            store,
            report,
            now,
        ).reply is Err ==> answer_to(input, store, report, now) is Error,
{
}

} // verus!
