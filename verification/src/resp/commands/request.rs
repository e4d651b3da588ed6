//! A request: any one command of the set.

use vstd::prelude::*;
use crate::config::Config;
use crate::mem::MemDB;
use crate::resp::commands::command::{
    Command,
    CommandName,
    Effect,
    ExecutionError,
    ValidationError,
    reply_view,
};
use crate::resp::commands::echo::{Echo, echo_check, echo_reply};
use crate::resp::commands::info::{InfoCommand, info_reply};
use crate::resp::commands::kv::{
    GetCommand,
    SetCommand,
    get_check,
    get_reply,
    set_check,
    set_effect,
};
use crate::resp::commands::list::{
    ListGetCommand,
    ListLenCommand,
    ListPopCommand,
    ListPushCommand,
    len_check,
    len_result,
    pop_check,
    pop_effect,
    push_check,
    push_effect,
    range_check,
    range_result,
};
use crate::resp::commands::ping::{Ping, ping_reply};
use crate::resp::commands::structs::{Data, StoreView};
use crate::resp::frame::RespFrame;

verus! {

/// A parsed request: one command with its arguments.
#[derive(Clone, Debug, PartialEq, Eq)]
pub enum Request {
    Ping(Ping),
    Echo(Echo),
    Get(GetCommand),
    SetValue(SetCommand),
    Push(ListPushCommand),
    Range(ListGetCommand),
    Length(ListLenCommand),
    Pop(ListPopCommand),
    Info(InfoCommand),
}

/// The mathematical value of a [`Request`]: which command it is, and the
/// arguments that the command holds.
pub struct RequestView {
    pub name: CommandName,
    pub args: Seq<Seq<char>>,
}

impl RequestView {
    /// Whether the command accepts its arguments, and why not if it does
    /// not.
    pub open spec fn check(self) -> Result<(), ValidationError> {
        match self.name {
            CommandName::Ping => Ok(()),
            CommandName::Echo => echo_check(self.args),
            CommandName::Get => get_check(self.args),
            CommandName::SetValue => set_check(self.args),
            CommandName::Rpush => push_check(self.args, CommandName::Rpush),
            CommandName::Lpush => push_check(self.args, CommandName::Lpush),
            CommandName::Lrange => range_check(self.args),
            CommandName::Llen => len_check(self.args),
            CommandName::Lpop => pop_check(self.args),
            CommandName::Info => Ok(()),
        }
    }

    /// What the command replies and what store it leaves, when executed on
    /// `store` at time `now` by a server whose report is `report`.
    pub open spec fn effect(self, store: StoreView, report: Seq<char>, now: u64) -> Effect {
        match self.name {
            CommandName::Ping => Effect { reply: Ok(ping_reply()), store },
            CommandName::Echo => Effect { reply: Ok(echo_reply(self.args)), store },
            CommandName::Get => Effect { reply: get_reply(store, self.args[0], now), store },
            CommandName::SetValue => set_effect(self.args, store, now),
            CommandName::Rpush => push_effect(self.args, false, store, now),
            CommandName::Lpush => push_effect(self.args, true, store, now),
            CommandName::Lrange => Effect { reply: range_result(self.args, store, now), store },
            CommandName::Llen => Effect { reply: len_result(self.args, store, now), store },
            CommandName::Lpop => pop_effect(self.args, store, now),
            CommandName::Info => Effect { reply: Ok(info_reply(report)), store },
        }
    }

    /// Whether the command only reads: it leaves every store as it finds it.
    pub open spec fn read_only(self) -> bool {
        match self.name {
            CommandName::SetValue => false,
            CommandName::Rpush => false,
            CommandName::Lpush => false,
            CommandName::Lpop => false,
            _ => true,
        }
    }
}

impl View for Request {
    type V = RequestView;

    open spec fn view(&self) -> RequestView {
        match self {
            Request::Ping(_) => RequestView { name: CommandName::Ping, args: Seq::empty() },
            Request::Echo(command) => RequestView { name: CommandName::Echo, args: command@ },
            Request::Get(command) => RequestView { name: CommandName::Get, args: command@ },
            Request::SetValue(command) => RequestView {
                name: CommandName::SetValue,
                args: command@,
            },
            Request::Push(command) => RequestView { name: command.name(), args: command@ },
            Request::Range(command) => RequestView { name: CommandName::Lrange, args: command@ },
            Request::Length(command) => RequestView { name: CommandName::Llen, args: command@ },
            Request::Pop(command) => RequestView { name: CommandName::Lpop, args: command@ },
            Request::Info(_) => RequestView { name: CommandName::Info, args: Seq::empty() },
        }
    }
}

impl Request {
    /// The command `name` with the arguments `args`. `PING` and `INFO` take
    /// none and drop what they are given.
    pub fn new(name: CommandName, args: Vec<String>) -> (request: Self)
        ensures
            request@.name == name,
            request@.args == if name == CommandName::Ping || name == CommandName::Info {
                Seq::empty()
            } else {
                args.deep_view()
            },
    {
        match name {
            CommandName::Ping => Request::Ping(Ping {  }),
            CommandName::Echo => Request::Echo(Echo { args }),
            CommandName::Get => Request::Get(GetCommand::new(args)),
            CommandName::SetValue => Request::SetValue(SetCommand::new(args)),
            CommandName::Rpush => Request::Push(ListPushCommand::new(args)),
            CommandName::Lpush => Request::Push(ListPushCommand::with_direction(args, true)),
            CommandName::Lrange => Request::Range(ListGetCommand::new(args)),
            CommandName::Llen => Request::Length(ListLenCommand::new(args)),
            CommandName::Lpop => Request::Pop(ListPopCommand::new(args)),
            CommandName::Info => Request::Info(InfoCommand::new()),
        }
    }

    /// Whether the command only reads, so that it can run while others read
    /// too.
    pub fn is_read_only(&self) -> (only_reads: bool)
        ensures
            only_reads == self@.read_only(),
    {
        match self {
            Request::SetValue(_) => false,
            Request::Push(_) => false,
            Request::Pop(_) => false,
            _ => true,
        }
    }

    /// Carries out a command that only reads, on a store that is not
    /// borrowed for writing. A command that writes is not carried out.
    pub fn query(&self, db: &MemDB<Data>, config: &Config, now: u64) -> (reply: Option<
        Result<RespFrame, ExecutionError>,
    >)
        requires
            self.check() is Ok,
        ensures
            reply is Some <==> self@.read_only(),
            reply matches Some(r) ==> reply_view(r) == self.effect(
                db.model(),
                config.report(),
                now,
            ).reply,
    {
        match self {
            Request::Ping(command) => Some(Ok(command.reply())),
            Request::Echo(command) => Some(Ok(command.reply())),
            Request::Get(command) => Some(command.read(db, now)),
            Request::Range(command) => Some(command.read(db, now)),
            Request::Length(command) => Some(command.read(db, now)),
            Request::Info(command) => Some(Ok(command.reply(config))),
            Request::SetValue(_) => None,
            Request::Push(_) => None,
            Request::Pop(_) => None,
        }
    }
}

impl Command for Request {
    open spec fn check(&self) -> Result<(), ValidationError> {
        self@.check()
    }

    open spec fn effect(&self, store: StoreView, report: Seq<char>, now: u64) -> Effect {
        self@.effect(store, report, now)
    }

    fn validate(&self) -> (outcome: Result<(), ValidationError>) {
        match self {
            Request::Ping(command) => command.validate(),
            Request::Echo(command) => command.validate(),
            Request::Get(command) => command.validate(),
            Request::SetValue(command) => command.validate(),
            Request::Push(command) => command.validate(),
            Request::Range(command) => command.validate(),
            Request::Length(command) => command.validate(),
            Request::Pop(command) => command.validate(),
            Request::Info(command) => command.validate(),
        }
    }

    fn execute(&self, db: &mut MemDB<Data>, config: &Config, now: u64) -> (reply: Result<
        RespFrame,
        ExecutionError,
    >) {
        match self {
            Request::Ping(command) => command.execute(db, config, now),
            Request::Echo(command) => command.execute(db, config, now),
            Request::Get(command) => command.execute(db, config, now),
            Request::SetValue(command) => command.execute(db, config, now),
            Request::Push(command) => command.execute(db, config, now),
            Request::Range(command) => command.execute(db, config, now),
            Request::Length(command) => command.execute(db, config, now),
            Request::Pop(command) => command.execute(db, config, now),
            Request::Info(command) => command.execute(db, config, now),
        }
    }
}

} // verus!
