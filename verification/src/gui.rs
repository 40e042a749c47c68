//! The state of the plugin's editor window and how each message changes it.
//!
//! The window shows a counter with two buttons, a gain slider and a peak
//! meter. The counter lives here; the gain and the meter are floating-point
//! values that the host side of the editor reads and writes when a message
//! asks for it, which `update` says through the `GuiEffect` it returns.

use vstd::prelude::*;

use crate::text::{format_i64, signed_decimal};

verus! {

/// A message that the editor window sends to its state.
#[derive(Clone, Copy, Debug, PartialEq, Eq, Structural)]
pub enum GuiMessage {
    /// Parameters or meters may have changed: poll them and redraw.
    Poll,
    /// The "Increment" button was pressed.
    Increment,
    /// The "Decrement" button was pressed.
    Decrement,
    /// The gain slider moved; the host side holds the slider's normalized value.
    GainChanged,
}

/// What the editor has to do outside its own state after a message.
#[derive(Clone, Copy, Debug, PartialEq, Eq, Structural)]
pub enum GuiEffect {
    /// Read the shared peak meter and store it, in decibels, for the next draw.
    RefreshPeakMeter,
    /// Hand the slider's normalized value to the host as the new gain.
    SetGain,
    /// Nothing beyond the state change.
    Nothing,
}

/// The editor's own state: the counter that the two buttons move.
pub struct ScaloscopeGui {
    value: i64,
}

/// The counter after `message`, starting from `value`.
pub open spec fn next_value(value: int, message: GuiMessage) -> int {
    match message {
        GuiMessage::Increment => value + 1,
        GuiMessage::Decrement => value - 1,
        _ => value,
    }
}

/// The effect that `message` asks of the host side.
pub open spec fn effect_of(message: GuiMessage) -> GuiEffect {
    match message {
        GuiMessage::Poll => GuiEffect::RefreshPeakMeter,
        GuiMessage::GainChanged => GuiEffect::SetGain,
        _ => GuiEffect::Nothing,
    }
}

/// The counter after `message` still fits in an `i64`.
pub open spec fn message_fits(value: int, message: GuiMessage) -> bool {
    i64::MIN <= next_value(value, message) <= i64::MAX
}

/// The counter after the messages `msgs`, in order, starting from `value`.
pub open spec fn run_messages(value: int, msgs: Seq<GuiMessage>) -> int
    decreases msgs.len(),
{
    if msgs.len() == 0 {
        value
    } else {
        next_value(run_messages(value, msgs.drop_last()), msgs.last())
    }
}

/// How many times `m` occurs in `msgs`.
pub open spec fn count_message(msgs: Seq<GuiMessage>, m: GuiMessage) -> nat
    decreases msgs.len(),
{
    if msgs.len() == 0 {
        0
    } else {
        count_message(msgs.drop_last(), m) + if msgs.last() == m {
            1nat
        } else {
            0nat
        }
    }
}

impl View for ScaloscopeGui {
    type V = int;

    /// The counter.
    closed spec fn view(&self) -> int {
        self.value as int
    }
}

impl ScaloscopeGui {
    /// A fresh editor state: the counter starts at zero.
    pub fn new() -> (gui: Self)
        ensures
            gui@ == 0,
    {
        ScaloscopeGui { value: 0 }
    }

    /// The counter.
    pub fn value(&self) -> (v: i64)
        ensures
            v as int == self@,
    {
        self.value
    }

    /// Applies one message: the buttons move the counter by one, the other
    /// messages leave it as it is and name the work that the host side does.
    pub fn update(&mut self, message: GuiMessage) -> (effect: GuiEffect)
        requires
            message_fits(old(self)@, message),
        ensures
            final(self)@ == next_value(old(self)@, message),
            effect == effect_of(message),
    {
        match message {
            GuiMessage::Poll => GuiEffect::RefreshPeakMeter,
            GuiMessage::Increment => {
                self.value = self.value + 1;
                GuiEffect::Nothing
            },
            GuiMessage::Decrement => {
                self.value = self.value - 1;
                GuiEffect::Nothing
            },
            GuiMessage::GainChanged => GuiEffect::SetGain,
        }
    }

    /// The text that the window shows for the counter.
    pub fn value_label(&self) -> (label: String)
        ensures
            label@ == signed_decimal(self@),
    {
        format_i64(self.value)
    }
}

/// A press of "Decrement" undoes a press of "Increment", and the other way round.
pub proof fn lemma_press_undoes_press(value: int)
    ensures
        next_value(next_value(value, GuiMessage::Increment), GuiMessage::Decrement) == value,
        next_value(next_value(value, GuiMessage::Decrement), GuiMessage::Increment) == value,
{
}

/// Polling and moving the gain slider never change the counter.
pub proof fn lemma_other_messages_keep_counter(value: int)
    ensures
        next_value(value, GuiMessage::Poll) == value,
        next_value(value, GuiMessage::GainChanged) == value,
{
}

/// Polling asks for the peak meter, moving the slider asks for the gain, and
/// only the buttons, which ask for nothing else, move the counter.
pub proof fn lemma_effects(value: int, message: GuiMessage)
    ensures
        effect_of(GuiMessage::Poll) == GuiEffect::RefreshPeakMeter,
        effect_of(GuiMessage::GainChanged) == GuiEffect::SetGain,
        (effect_of(message) == GuiEffect::Nothing) == (next_value(value, message) != value),
        next_value(value, GuiMessage::Increment) == value + 1,
        next_value(value, GuiMessage::Decrement) == value - 1,
{
}

/// After any run of messages the counter has moved by the number of
/// "Increment" presses less the number of "Decrement" presses.
pub proof fn lemma_counter_is_net_presses(value: int, msgs: Seq<GuiMessage>)
    ensures
        run_messages(value, msgs) == value + count_message(msgs, GuiMessage::Increment)
            - count_message(msgs, GuiMessage::Decrement),
    decreases msgs.len(),
{
    if msgs.len() > 0 {
        lemma_counter_is_net_presses(value, msgs.drop_last());
    }
}

} // verus!
