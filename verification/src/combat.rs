use vstd::prelude::*;
use vstd::string::*;

use crate::channel::{timer_msg, wrap_message_timer, Message, MessageView, MessageType};
use crate::text::{int_text, parse_usize, parse_usize_exec, u64_text};

verus! {

broadcast use vstd::string::group_string_axioms;

/// What the combat timer is asked to do.
pub enum TimerRequest {
    /// Not a combat message.
    Ignore,
    /// Stop the timer with this identifier.
    Stop(usize),
    /// Start a timer with this identifier.
    Start(usize),
}

/// Reads a message sent to the combat timer; the timer identifier of a start or stop message
/// must be a number.
pub fn timer_request(msg: &Message) -> (r: TimerRequest)
    requires
        (msg.msg_type == MessageType::CombatStart || msg.msg_type == MessageType::CombatStop)
            ==> parse_usize(msg.timer_id@) is Some,
    ensures
        match r {
            TimerRequest::Ignore => msg.msg_type != MessageType::CombatStart && msg.msg_type
                != MessageType::CombatStop,
            TimerRequest::Stop(v) => msg.msg_type == MessageType::CombatStop && parse_usize(
                msg.timer_id@,
            ) == Some(v as int),
            TimerRequest::Start(v) => msg.msg_type == MessageType::CombatStart && parse_usize(
                msg.timer_id@,
            ) == Some(v as int),
        },
{
    if msg.msg_type != MessageType::CombatStart && msg.msg_type != MessageType::CombatStop {
        return TimerRequest::Ignore;
    }
    let val = match parse_usize_exec(msg.timer_id.as_str()) {
        Some(v) => v,
        None => 0,
    };
    if msg.msg_type == MessageType::CombatStop {
        TimerRequest::Stop(val)
    } else {
        TimerRequest::Start(val)
    }
}

/// The next beat of a running timer: it ends once `max_cnt` beats have passed or its
/// identifier has been stopped; otherwise it counts one more beat, so a timer never runs
/// past its allotted beats.
pub fn timer_beat(cnt: u32, max_cnt: u32, stopped: usize, val: usize) -> (r: Option<u32>)
    requires
        cnt < u32::MAX,
    ensures
        r == (if cnt + 1 > max_cnt || stopped == val {
            None
        } else {
            Some((cnt + 1) as u32)
        }),
        r matches Some(c) ==> c <= max_cnt,
{
    let cnt = cnt + 1;
    if cnt > max_cnt {
        return None;
    }
    if stopped == val {
        return None;
    }
    Some(cnt)
}

/// The message a timer sends at beat `cnt`: the last beat stops the action, the others
/// continue it.
pub open spec fn beat_msg(msg: MessageView, val: usize, cnt: u32) -> MessageView {
    if cnt == msg.max_cnt {
        timer_msg(MessageType::CombatStop, msg.addr, msg.content + " stop"@, int_text(val as int))
    } else {
        timer_msg(
            MessageType::CombatIn,
            msg.addr,
            msg.content + " continue"@,
            int_text(val as int),
        )
    }
}

/// The message a timer sends at beat `cnt` (see `beat_msg`).
pub fn timer_beat_message(msg: &Message, val: usize, cnt: u32) -> (r: Message)
    ensures
        r@ == beat_msg(msg@, val, cnt),
{
    let id = u64_text(val as u64);
    let mut content = msg.content.clone();
    if cnt == msg.max_cnt {
        content.append(" stop");
        wrap_message_timer(MessageType::CombatStop, msg.addr, content, id)
    } else {
        content.append(" continue");
        wrap_message_timer(MessageType::CombatIn, msg.addr, content, id)
    }
}

}
