//! The decisions of the launcher's interactive prompts: which device and
//! which stream configuration a line typed by the user selects.
//!
//! The prompts themselves (printing the lists, reading a line, asking again)
//! run around these functions; each call answers one line.

use vstd::prelude::*;

use crate::text::{decimal, parse_decimal, parse_usize, parse_usize_spec, trim, trimmed};

verus! {

/// What a line typed at the device prompt selects.
#[derive(Clone, Copy, Debug, PartialEq, Eq, Structural)]
pub enum DeviceChoice {
    /// An empty line: keep the default device.
    KeepDefault,
    /// The device at this position of the listed devices.
    Index(usize),
    /// Not a listed position: say "Invalid Selection" and ask again.
    Invalid,
}

/// What a line typed at the configuration prompt selects.
#[derive(Clone, Copy, Debug, PartialEq, Eq, Structural)]
pub enum ConfigChoice {
    /// The configuration at this position; an empty line means the first.
    Index(usize),
    /// Not a listed position: say "Invalid Selection" and ask again.
    Invalid,
}

/// The device that `line` selects among `count` listed devices.
pub open spec fn device_choice(line: Seq<char>, count: nat) -> DeviceChoice {
    let t = trimmed(line);
    if t.len() == 0 {
        DeviceChoice::KeepDefault
    } else {
        match parse_usize_spec(t) {
            Some(i) => if (i as nat) < count {
                DeviceChoice::Index(i)
            } else {
                DeviceChoice::Invalid
            },
            None => DeviceChoice::Invalid,
        }
    }
}

/// The configuration that `line` selects among `count` listed configurations.
pub open spec fn config_choice(line: Seq<char>, count: nat) -> ConfigChoice {
    let t = trimmed(line);
    if t.len() == 0 {
        ConfigChoice::Index(0)
    } else {
        match parse_usize_spec(t) {
            Some(i) => if (i as nat) < count {
                ConfigChoice::Index(i)
            } else {
                ConfigChoice::Invalid
            },
            None => ConfigChoice::Invalid,
        }
    }
}

/// The text shown for a device: its name, or `<Unknown>` when it has none.
pub open spec fn label_text(name: Option<String>) -> Seq<char> {
    match name {
        Some(n) => n@,
        None => "<Unknown>"@,
    }
}

/// Reads one line typed at the device prompt: surrounding white space is
/// ignored, an empty line keeps the default device, and otherwise the line must
/// be the decimal position of one of the `device_count` listed devices.
pub fn choose_device(line: &str, device_count: usize) -> (choice: DeviceChoice)
    ensures
        choice == device_choice(line@, device_count as nat),
        choice matches DeviceChoice::Index(i) ==> i < device_count,
        (choice == DeviceChoice::KeepDefault) == (trimmed(line@).len() == 0),
{
    proof {
        lemma_device_choice_in_range(line@, device_count as nat);
    }
    let t = trim(line);
    if t.unicode_len() == 0 {
        DeviceChoice::KeepDefault
    } else {
        match parse_usize(t) {
            Some(i) => if i < device_count {
                DeviceChoice::Index(i)
            } else {
                DeviceChoice::Invalid
            },
            None => DeviceChoice::Invalid,
        }
    }
}

/// Reads one line typed at the configuration prompt: surrounding white space
/// is ignored, an empty line selects the first configuration, and otherwise the
/// line must be the decimal position of one of the `config_count` listed
/// configurations.
pub fn choose_config(line: &str, config_count: usize) -> (choice: ConfigChoice)
    ensures
        choice == config_choice(line@, config_count as nat),
        choice matches ConfigChoice::Index(i) ==> i < config_count || (i == 0 && trimmed(
            line@,
        ).len() == 0),
{
    proof {
        lemma_config_choice_in_range(line@, config_count as nat);
    }
    let t = trim(line);
    if t.unicode_len() == 0 {
        ConfigChoice::Index(0)
    } else {
        match parse_usize(t) {
            Some(i) => if i < config_count {
                ConfigChoice::Index(i)
            } else {
                ConfigChoice::Invalid
            },
            None => ConfigChoice::Invalid,
        }
    }
}

/// The text shown for a device: its name, or `<Unknown>` when it has none.
pub fn device_label(name: Option<String>) -> (label: String)
    ensures
        label@ == label_text(name),
{
    match name {
        Some(n) => n,
        None => "<Unknown>".to_owned(),
    }
}

proof fn lemma_decimal_is_trimmed(n: nat)
    ensures
        trimmed(decimal(n)) == decimal(n),
    decreases n,
{
    crate::text::lemma_decimal_has_no_white_space(n);
    let s = decimal(n);
    assert(crate::text::trim_start(s) == s);
    assert(crate::text::trim_end(s) == s);
}

/// Every position that the device listing shows selects that device when it
/// is typed back at the prompt.
pub proof fn lemma_listed_device_is_selectable(i: usize, count: usize)
    requires
        i < count,
    ensures
        device_choice(decimal(i as nat), count as nat) == DeviceChoice::Index(i),
{
    lemma_decimal_is_trimmed(i as nat);
    crate::text::lemma_parse_usize_roundtrip(i);
}

/// Every position that the configuration listing shows selects that
/// configuration when it is typed back at the prompt.
pub proof fn lemma_listed_config_is_selectable(i: usize, count: usize)
    requires
        i < count,
    ensures
        config_choice(decimal(i as nat), count as nat) == ConfigChoice::Index(i),
{
    lemma_decimal_is_trimmed(i as nat);
    crate::text::lemma_parse_usize_roundtrip(i);
}

/// A selected device is always a listed one, and it is the number typed; only
/// an empty line keeps the default.
pub proof fn lemma_device_choice_in_range(line: Seq<char>, count: nat)
    ensures
        device_choice(line, count) matches DeviceChoice::Index(i) ==> {
            &&& (i as nat) < count
            &&& parse_decimal(trimmed(line)) == Some(i as nat)
        },
        (device_choice(line, count) == DeviceChoice::KeepDefault) == (trimmed(line).len() == 0),
{
}

/// A number at or beyond the device count selects nothing.
pub proof fn lemma_unlisted_device_is_invalid(i: nat, count: nat)
    requires
        i >= count,
    ensures
        device_choice(decimal(i), count) == DeviceChoice::Invalid,
{
    lemma_decimal_is_trimmed(i);
    crate::text::lemma_parse_decimal_roundtrip(i);
}

/// A selected configuration is always a listed one and is the number typed,
/// except that an empty line picks the first.
pub proof fn lemma_config_choice_in_range(line: Seq<char>, count: nat)
    ensures
        config_choice(line, count) matches ConfigChoice::Index(i) ==> {
            ||| (i as nat) < count && parse_decimal(trimmed(line)) == Some(i as nat)
            ||| i == 0 && trimmed(line).len() == 0
        },
        trimmed(line).len() == 0 ==> config_choice(line, count) == ConfigChoice::Index(0),
{
}

/// A number at or beyond the configuration count selects nothing.
pub proof fn lemma_unlisted_config_is_invalid(i: nat, count: nat)
    requires
        i >= count,
    ensures
        config_choice(decimal(i), count) == ConfigChoice::Invalid,
{
    lemma_decimal_is_trimmed(i);
    crate::text::lemma_parse_decimal_roundtrip(i);
}

/// Typing a line with extra white space around it selects the same as typing
/// it without.
pub proof fn lemma_padding_is_ignored(line: Seq<char>, count: nat)
    ensures
        device_choice(line, count) == device_choice(trimmed(line), count),
        config_choice(line, count) == config_choice(trimmed(line), count),
{
    crate::text::lemma_trim_idempotent(line);
}

} // verus!
