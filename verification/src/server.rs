//! One request, from its text to the frame that answers it.

use vstd::prelude::*;
use crate::config::Config;
use crate::mem::MemDB;
use crate::resp::commands::command::{answer, dispatch};
use crate::resp::commands::structs::{Data, StoreView};
use crate::resp::frame::{FrameView, RespFrame};
use crate::resp::parser::{parse, parse_resp};

verus! {

/// The frame that answers the request `input` on `store` at time `now`: an
/// error frame where the request cannot be read, and else the answer of the
/// command it holds.
pub open spec fn answer_to(input: Seq<char>, store: StoreView, report: Seq<char>, now: u64)
    -> FrameView {
    match parse(input) {
        Err(error) => FrameView::Error(error.text()),
        Ok(request) => answer(request.check(), request.effect(store, report, now).reply),
    }
}

/// The store that the request `input` leaves: what its command leaves
/// where the request can be read and the command is valid, and else the
/// store as it was.
pub open spec fn store_after(input: Seq<char>, store: StoreView, report: Seq<char>, now: u64)
    -> StoreView {
    match parse(input) {
        Err(_) => store,
        Ok(request) => if request.check() is Ok {
            request.effect(store, report, now).store
        } else {
            store
        },
    }
}

/// Reads the request `input`, validates its command, carries it out at
/// time `now` and answers with one frame. Whatever the request holds, there
/// is an answer, and a request that is turned down changes nothing.
pub fn process_request(input: &str, db: &mut MemDB<Data>, config: &Config, now: u64) -> (frame:
    RespFrame)
    ensures
        frame@ == answer_to(input@, old(db).model(), config.report(), now),
        final(db).model() == store_after(input@, old(db).model(), config.report(), now),
{
    match parse_resp(input) {
        Err(error) => RespFrame::Error(error.message()),
        Ok(request) => dispatch(&request, db, config, now),
    }
}

} // verus!
