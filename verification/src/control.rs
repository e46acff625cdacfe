//! The requests that the `displayctl` client sends to the daemon for a feature
//! (brightness or contrast), and the value it asks for when stepping up or down.
use vstd::prelude::*;

verus! {

/// What to do with the level of a feature.
#[derive(Debug, Clone, Copy, PartialEq, Eq, Structural)]
pub enum ValueCommand {
    /// Set the level to `value`.
    SetValue { value: u16 },
    /// Raise the level by `amount`, up to the maximum.
    Up { amount: u16 },
    /// Lower the level by `amount`, down to zero.
    Down { amount: u16 },
}

/// A request to the daemon: a command, the monitor it is for, and a value to set.
#[derive(Debug)]
pub struct Request {
    pub command: String,
    pub monitor: Option<String>,
    pub value: Option<u16>,
}

/// An optional text, taken by its characters.
pub open spec fn text_of(text: Option<String>) -> Option<Seq<char>> {
    match text {
        Some(s) => Some(s@),
        None => None,
    }
}

/// The value that the first request sets: the value of a `SetValue`; a plain query and a
/// step up or down first read the current level.
pub open spec fn first_value(action: Option<ValueCommand>) -> Option<u16> {
    match action {
        Some(ValueCommand::SetValue { value }) => Some(value),
        _ => None,
    }
}

/// The value that a step sets, given the level that the first request reported:
/// up adds with saturation and stops at the maximum; down subtracts with saturation
/// and stops at zero. Other actions need no second request.
pub open spec fn stepped_value(action: Option<ValueCommand>, current: u16, maximum: u16) -> Option<u16> {
    match action {
        Some(ValueCommand::Up { amount }) => {
            let raised = if current + amount > u16::MAX { u16::MAX as int } else { current + amount };
            Some(if raised > maximum { maximum } else { raised as u16 })
        },
        Some(ValueCommand::Down { amount }) => Some(
            if current >= amount { (current - amount) as u16 } else { 0 },
        ),
        _ => None,
    }
}

fn copy_text(text: &Option<String>) -> (copy: Option<String>)
    ensures
        text_of(copy) == text_of(*text),
{
    match text {
        Some(s) => Some(s.clone()),
        None => None,
    }
}

/// The first request for a feature command.
pub fn feature_request(command: &String, action: &Option<ValueCommand>, monitor: &Option<String>) -> (request: Request)
    ensures
        request.command@ == command@,
        text_of(request.monitor) == text_of(*monitor),
        request.value == first_value(*action),
{
    let value = match action {
        Some(ValueCommand::SetValue { value }) => Some(*value),
        _ => None,
    };
    Request { command: command.clone(), monitor: copy_text(monitor), value }
}

/// The second request of a step up or down, given the level that the first request
/// reported; `None` when the action needs none.
pub fn feature_follow_up(
    command: &String,
    action: &Option<ValueCommand>,
    monitor: &Option<String>,
    current: u16,
    maximum: u16,
) -> (request: Option<Request>)
    ensures
        stepped_value(*action, current, maximum).is_none() ==> request.is_none(),
        stepped_value(*action, current, maximum).is_some() ==> (request matches Some(r) && {
            &&& r.command@ == command@
            &&& text_of(r.monitor) == text_of(*monitor)
            &&& r.value == stepped_value(*action, current, maximum)
        }),
{
    let value = match action {
        Some(ValueCommand::Up { amount }) => {
            let raised = current.saturating_add(*amount);
            if raised > maximum { maximum } else { raised }
        },
        Some(ValueCommand::Down { amount }) => current.saturating_sub(*amount),
        _ => {
            return None;
        },
    };
    Some(Request { command: command.clone(), monitor: copy_text(monitor), value: Some(value) })
}

/// Stepping up asks for the current level raised by the amount, or for the maximum
/// when that would pass it: the smaller of the two.
pub proof fn law_step_up(amount: u16, current: u16, maximum: u16)
    ensures
        stepped_value(Some(ValueCommand::Up { amount }), current, maximum) == Some(
            (if current + amount <= maximum { current + amount } else { maximum as int }) as u16,
        ),
        stepped_value(Some(ValueCommand::Up { amount }), current, maximum) matches Some(v) && v
            <= maximum && v <= current + amount && (v == maximum || v == current + amount),
{
}

/// Stepping down asks for the current level lowered by the amount, or for zero when
/// the amount is larger than the level.
pub proof fn law_step_down(amount: u16, current: u16, maximum: u16)
    ensures
        stepped_value(Some(ValueCommand::Down { amount }), current, maximum) matches Some(v) && v
            <= current && v + amount >= current && (v == 0 || v + amount == current),
{
}

/// A step never asks for more than the maximum when stepping up, nor for more than
/// the current level when stepping down; stepping up from a level within range never
/// lowers it.
pub proof fn law_steps_stay_in_range(action: ValueCommand, current: u16, maximum: u16)
    ensures
        action is Up ==> stepped_value(Some(action), current, maximum).unwrap() <= maximum,
        action is Up && current <= maximum ==> stepped_value(Some(action), current, maximum).unwrap()
            >= current,
        action is Down ==> stepped_value(Some(action), current, maximum).unwrap() <= current,
{
}

} // verus!
