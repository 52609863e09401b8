//! The changes to a server's logging settings that are logged when the
//! settings are updated.
use vstd::prelude::*;
use crate::text;

verus! {

/// The settings of a server that a change of them is logged for.
#[derive(Debug)]
pub struct LoggingSettings {
    pub default_nickname: Option<String>,
    pub logging_types: u8,
    pub logging_channel_id: Option<u64>,
}

/// The value of a setting.
#[derive(Debug)]
pub enum SettingValue {
    Text(String),
    Number(u64),
}

/// How one setting changed.
#[derive(Debug)]
pub enum SettingChange {
    Created { name: String, value: SettingValue },
    Deleted { name: String, value: SettingValue },
    Updated { name: String, old: SettingValue, new: SettingValue },
}

/// A setting value as plain values.
pub open spec fn value_view(v: SettingValue) -> (Option<Seq<char>>, Option<u64>) {
    match v {
        SettingValue::Text(s) => (Some(s@), None),
        SettingValue::Number(n) => (None, Some(n)),
    }
}

/// A change as plain values: 0 created, 1 deleted, 2 updated; the name;
/// the old value, where there was one; the new value, where there is one.
pub open spec fn change_view(c: SettingChange) -> (
    nat,
    Seq<char>,
    Option<(Option<Seq<char>>, Option<u64>)>,
    Option<(Option<Seq<char>>, Option<u64>)>,
) {
    match c {
        SettingChange::Created { name, value } => (0, name@, None, Some(value_view(value))),
        SettingChange::Deleted { name, value } => (1, name@, Some(value_view(value)), None),
        SettingChange::Updated { name, old, new } => (2, name@, Some(value_view(old)), Some(value_view(new))),
    }
}

/// The change of an optional setting `name` from `old` to `new`, where it changed.
pub open spec fn optional_change(
    name: Seq<char>,
    old: Option<(Option<Seq<char>>, Option<u64>)>,
    new: Option<(Option<Seq<char>>, Option<u64>)>,
) -> Seq<(nat, Seq<char>, Option<(Option<Seq<char>>, Option<u64>)>, Option<(Option<Seq<char>>, Option<u64>)>)> {
    if old == new {
        Seq::empty()
    } else if old is None {
        seq![(0nat, name, None, new)]
    } else if new is None {
        seq![(1nat, name, old, None)]
    } else {
        seq![(2nat, name, old, new)]
    }
}

/// A nickname setting as a plain value.
pub open spec fn nickname_value(n: Option<String>) -> Option<(Option<Seq<char>>, Option<u64>)> {
    match n {
        Some(s) => Some((Some(s@), None)),
        None => None,
    }
}

/// A channel setting as a plain value.
pub open spec fn channel_value(c: Option<u64>) -> Option<(Option<Seq<char>>, Option<u64>)> {
    match c {
        Some(id) => Some((None, Some(id))),
        None => None,
    }
}

/// The changes from `old` to `new`, in the order default nickname, active
/// events, channel.
pub open spec fn setting_changes(old: LoggingSettings, new: LoggingSettings) -> Seq<
    (nat, Seq<char>, Option<(Option<Seq<char>>, Option<u64>)>, Option<(Option<Seq<char>>, Option<u64>)>),
> {
    optional_change("Default Nickname"@, nickname_value(old.default_nickname), nickname_value(new.default_nickname))
        + (if old.logging_types == new.logging_types {
        Seq::empty()
    } else {
        seq![
            (
                2nat,
                "Active Events"@,
                Some((None, Some(old.logging_types as u64))),
                Some((None, Some(new.logging_types as u64))),
            ),
        ]
    }) + optional_change("Channel"@, channel_value(old.logging_channel_id), channel_value(new.logging_channel_id))
}

/// The plain values of the changes `v`.
pub open spec fn changes_view(v: Seq<SettingChange>) -> Seq<
    (nat, Seq<char>, Option<(Option<Seq<char>>, Option<u64>)>, Option<(Option<Seq<char>>, Option<u64>)>),
> {
    v.map_values(|c: SettingChange| change_view(c))
}

/// Appends the change of the nickname setting from `old` to `new`, where it changed.
fn push_nickname_change(out: &mut Vec<SettingChange>, before_value: &Option<String>, after_value: &Option<String>)
    ensures
        changes_view(final(out)@) == changes_view(old(out)@) + optional_change(
            "Default Nickname"@,
            nickname_value(*before_value),
            nickname_value(*after_value),
        ),
{
    let ghost before = out@;
    let same = match (before_value, after_value) {
        (Some(a), Some(b)) => text::str_equal(a.as_str(), b.as_str()),
        (None, None) => true,
        _ => false,
    };
    if !same {
        let name = String::from_str("Default Nickname");
        match (before_value, after_value) {
            (None, Some(b)) => out.push(SettingChange::Created { name, value: SettingValue::Text(b.clone()) }),
            (Some(a), None) => out.push(SettingChange::Deleted { name, value: SettingValue::Text(a.clone()) }),
            (Some(a), Some(b)) => out.push(
                SettingChange::Updated { name, old: SettingValue::Text(a.clone()), new: SettingValue::Text(b.clone()) },
            ),
            (None, None) => {},
        }
    }
    assert(changes_view(out@) =~= changes_view(before) + optional_change(
        "Default Nickname"@,
        nickname_value(*before_value),
        nickname_value(*after_value),
    ));
}

/// Appends the change of the channel setting from `old` to `new`, where it changed.
fn push_channel_change(out: &mut Vec<SettingChange>, before_value: Option<u64>, after_value: Option<u64>)
    ensures
        changes_view(final(out)@) == changes_view(old(out)@) + optional_change(
            "Channel"@,
            channel_value(before_value),
            channel_value(after_value),
        ),
{
    let ghost before = out@;
    let name = String::from_str("Channel");
    match (before_value, after_value) {
        (None, Some(b)) => out.push(SettingChange::Created { name, value: SettingValue::Number(b) }),
        (Some(a), None) => out.push(SettingChange::Deleted { name, value: SettingValue::Number(a) }),
        (Some(a), Some(b)) => if a != b {
            out.push(SettingChange::Updated { name, old: SettingValue::Number(a), new: SettingValue::Number(b) });
        },
        (None, None) => {},
    }
    assert(changes_view(out@) =~= changes_view(before) + optional_change(
        "Channel"@,
        channel_value(before_value),
        channel_value(after_value),
    ));
}

/// The changes from `old` to `new` that are logged, in the order default
/// nickname, active events, channel.
pub fn setting_changes_of(old: &LoggingSettings, new: &LoggingSettings) -> (r: Vec<SettingChange>)
    ensures
        changes_view(r@) == setting_changes(*old, *new),
{
    let mut out: Vec<SettingChange> = Vec::new();
    assert(changes_view(out@) =~= Seq::empty());
    push_nickname_change(&mut out, &old.default_nickname, &new.default_nickname);
    let ghost after_nick = out@;
    if old.logging_types != new.logging_types {
        out.push(
            SettingChange::Updated {
                name: String::from_str("Active Events"),
                old: SettingValue::Number(old.logging_types as u64),
                new: SettingValue::Number(new.logging_types as u64),
            },
        );
    }
    let ghost mid = out@;
    assert(changes_view(mid) =~= changes_view(after_nick) + (if old.logging_types == new.logging_types {
        Seq::empty()
    } else {
        seq![
            (
                2nat,
                "Active Events"@,
                Some((None, Some(old.logging_types as u64))),
                Some((None, Some(new.logging_types as u64))),
            ),
        ]
    }));
    push_channel_change(&mut out, old.logging_channel_id, new.logging_channel_id);
    out
}

/// Law: nothing is logged exactly when none of the three settings changed.
pub proof fn lemma_no_changes(old: LoggingSettings, new: LoggingSettings)
    ensures
        setting_changes(old, new).len() == 0 <==> (nickname_value(old.default_nickname) == nickname_value(
            new.default_nickname,
        ) && old.logging_types == new.logging_types && old.logging_channel_id == new.logging_channel_id),
{
    if old.logging_channel_id != new.logging_channel_id {
        assert(channel_value(old.logging_channel_id) != channel_value(new.logging_channel_id));
    }
}

} // verus!
