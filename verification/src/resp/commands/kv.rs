//! `GET` and `SET`: string values, with an optional time to live.

use vstd::prelude::*;
use vstd::slice::slice_to_vec;
use vstd::string::*;
use vstd::utf8::encode_utf8;
use crate::config::Config;
use crate::mem::MemDB;
use crate::resp::commands::command::{
    Command,
    CommandName,
    Effect,
    ExecutionError,
    ValidationError,
    reply_view,
};
use crate::resp::commands::structs::{Data, DataView, StoreView, Value, ValueView};
use crate::resp::frame::{FrameView, RespFrame};
use crate::text::{is_word, parse_u64, str_is_word, str_to_u64};

verus! {

/// `GET key`.
#[derive(Clone, Debug, PartialEq, Eq)]
pub struct GetCommand {
    args: Vec<String>,
}

impl View for GetCommand {
    type V = Seq<Seq<char>>;

    /// The arguments.
    closed spec fn view(&self) -> Seq<Seq<char>> {
        self.args.deep_view()
    }
}

/// Whether `GET` accepts `args`: exactly one argument, the key, and not the
/// empty string.
pub open spec fn get_check(args: Seq<Seq<char>>) -> Result<(), ValidationError> {
    if args.len() != 1 {
        Err(ValidationError::WrongArgumentCount(CommandName::Get))
    } else if args[0].len() == 0 {
        Err(ValidationError::EmptyKey)
    } else {
        Ok(())
    }
}

/// What `GET` replies for `key` on `store` at time `now`: the null frame
/// where the key was never written, the null bulk string where its entry has
/// expired, the value where it holds a string, and an error where it holds a
/// list.
pub open spec fn get_reply(store: StoreView, key: Seq<char>, now: u64) -> Result<
    FrameView,
    ExecutionError,
> {
    if !store.contains_key(key) {
        Ok(FrameView::Null)
    } else if store[key].expired(now) {
        Ok(FrameView::NullBulkString)
    } else {
        match store[key].value {
            ValueView::String(bytes) => Ok(FrameView::BulkString(bytes)),
            ValueView::List(_) => Err(ExecutionError::WrongType),
        }
    }
}

impl GetCommand {
    /// `GET` with the given arguments, not yet validated.
    pub fn new(args: Vec<String>) -> (command: Self)
        ensures
            command@ == args.deep_view(),
    {
        Self { args }
    }

    /// Carries the command out on a store that is only read.
    pub fn read(&self, db: &MemDB<Data>, now: u64) -> (reply: Result<RespFrame, ExecutionError>)
        requires
            self.check() is Ok,
        ensures
            reply_view(reply) == get_reply(db.model(), self@[0], now),
    {
        match db.get(self.args[0].as_str()) {
            None => Ok(RespFrame::Null),
            Some(entry) => {
                if entry.expired(now) {
                    Ok(RespFrame::NullBulkString)
                } else {
                    match &entry.value {
                        Value::String(bytes) => Ok(
                            RespFrame::BulkString(slice_to_vec(bytes.as_slice())),
                        ),
                        Value::List(_) => Err(ExecutionError::WrongType),
                    }
                }
            },
        }
    }
}

impl Command for GetCommand {
    open spec fn check(&self) -> Result<(), ValidationError> {
        get_check(self@)
    }

    /// The reply is [`get_reply`] for the key; the store is not touched.
    open spec fn effect(&self, store: StoreView, report: Seq<char>, now: u64) -> Effect {
        Effect { reply: get_reply(store, self@[0], now), store }
    }

    fn validate(&self) -> (outcome: Result<(), ValidationError>) {
        if self.args.len() != 1 {
            return Err(ValidationError::WrongArgumentCount(CommandName::Get));
        }
        if self.args[0].as_str().is_empty() {
            return Err(ValidationError::EmptyKey);
        }
        Ok(())
    }

    fn execute(&self, db: &mut MemDB<Data>, config: &Config, now: u64) -> (reply: Result<
        RespFrame,
        ExecutionError,
    >) {
        self.read(db, now)
    }
}

/// `SET key value`, or `SET key value PX milliseconds`, or
/// `SET key value EX seconds`.
#[derive(Clone, Debug, PartialEq, Eq)]
pub struct SetCommand {
    args: Vec<String>,
}

impl View for SetCommand {
    type V = Seq<Seq<char>>;

    /// The arguments.
    closed spec fn view(&self) -> Seq<Seq<char>> {
        self.args.deep_view()
    }
}

/// How many milliseconds one unit of a time to live lasts: one for `PX`, a
/// thousand for `EX`, in any letter case. `None` for any other word.
pub open spec fn expiry_scale(unit: Seq<char>) -> Option<nat> {
    if is_word(unit, "px"@) {
        Some(1)
    } else if is_word(unit, "ex"@) {
        Some(1000)
    } else {
        None
    }
}

/// The time `amount` units of `scale` milliseconds after `now`; the last
/// moment of the clock where that is beyond it.
pub open spec fn deadline(now: u64, amount: u64, scale: nat) -> u64 {
    if now + amount * scale <= u64::MAX {
        (now + amount * scale) as u64
    } else {
        u64::MAX
    }
}

/// The expiry time that `SET` with arguments `args` gives its entry at time
/// `now`. An entry expires only where a time to live follows the value, in a
/// unit that [`expiry_scale`] knows; a suffix in any other unit is ignored.
pub open spec fn set_expiry(args: Seq<Seq<char>>, now: u64) -> Option<u64> {
    if args.len() == 4 {
        match (expiry_scale(args[2]), parse_u64(args[3])) {
            (Some(scale), Some(amount)) => Some(deadline(now, amount, scale)),
            _ => None,
        }
    } else {
        None
    }
}

/// Whether `SET` accepts `args`: two arguments, or four; where a time to
/// live follows in a unit that is known, its amount is an unsigned 64-bit
/// integer.
pub open spec fn set_check(args: Seq<Seq<char>>) -> Result<(), ValidationError> {
    if args.len() != 2 && args.len() != 4 {
        Err(ValidationError::WrongArgumentCount(CommandName::SetValue))
    } else if args.len() == 4 && expiry_scale(args[2]) is Some && parse_u64(args[3]) is None {
        Err(ValidationError::NotAnInteger)
    } else {
        Ok(())
    }
}

/// What `SET` with arguments `args` comes to on `store` at time `now`: the
/// key holds the value as a string from now on, whatever it held before,
/// with the expiry time of [`set_expiry`]. The reply is `OK`.
pub open spec fn set_effect(args: Seq<Seq<char>>, store: StoreView, now: u64) -> Effect {
    Effect {
        reply: Ok(FrameView::SimpleString("OK"@)),
        store: store.insert(
            args[0],
            DataView {
                value: ValueView::String(encode_utf8(args[1])),
                expires_at: set_expiry(args, now),
            },
        ),
    }
}

impl SetCommand {
    /// `SET` with the given arguments, not yet validated.
    pub fn new(args: Vec<String>) -> (command: Self)
        ensures
            command@ == args.deep_view(),
    {
        Self { args }
    }

    /// The scale of the unit in the third argument.
    fn scale(&self) -> (scale: Option<u64>)
        requires
            self@.len() == 4,
        ensures
            match scale {
                Some(s) => expiry_scale(self@[2]) == Some(s as nat),
                None => expiry_scale(self@[2]) is None,
            },
    {
        let unit = self.args[2].as_str();
        if str_is_word(unit, "px") {
            Some(1)
        } else if str_is_word(unit, "ex") {
            Some(1000)
        } else {
            None
        }
    }

    /// The expiry time of the entry that is written at time `now`.
    fn expiry(&self, now: u64) -> (expires_at: Option<u64>)
        requires
            self.check() is Ok,
        ensures
            expires_at == set_expiry(self@, now),
    {
        if self.args.len() != 4 {
            return None;
        }
        match self.scale() {
            None => None,
            Some(scale) => match str_to_u64(self.args[3].as_str()) {
                None => None,
                Some(amount) => {
                    let span = match amount.checked_mul(scale) {
                        Some(span) => span,
                        None => u64::MAX,
                    };
                    match now.checked_add(span) {
                        Some(at) => Some(at),
                        None => Some(u64::MAX),
                    }
                },
            },
        }
    }
}

impl Command for SetCommand {
    open spec fn check(&self) -> Result<(), ValidationError> {
        set_check(self@)
    }

    open spec fn effect(&self, store: StoreView, report: Seq<char>, now: u64) -> Effect {
        set_effect(self@, store, now)
    }

    fn validate(&self) -> (outcome: Result<(), ValidationError>) {
        if self.args.len() != 2 && self.args.len() != 4 {
            return Err(ValidationError::WrongArgumentCount(CommandName::SetValue));
        }
        if self.args.len() == 4 {
            if self.scale().is_some() && str_to_u64(self.args[3].as_str()).is_none() {
                return Err(ValidationError::NotAnInteger);
            }
        }
        Ok(())
    }

    fn execute(&self, db: &mut MemDB<Data>, config: &Config, now: u64) -> (reply: Result<
        RespFrame,
        ExecutionError,
    >) {
        let entry = Data {
            value: Value::String(self.args[1].as_str().as_bytes_vec()),
            expires_at: self.expiry(now),
        };
        db.set(self.args[0].clone(), entry);
        assert(db.model() =~= old(db).model().insert(self@[0], entry@));
        Ok(RespFrame::SimpleString("OK".to_owned()))
    }
}

} // verus!
