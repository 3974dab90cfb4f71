//! The persisted form of an action: a self-describing value with a string
//! `tag` (the action-type discriminant) and a payload of named fields.
//!
//! Field names and tags are part of the wire format. De-serialization looks
//! fields up by name, so the order of the payload's fields does not matter,
//! and an unknown tag is rejected.

use vstd::prelude::*;
use crate::action::{ActionSpec, TaskAction};
use crate::error::SchedulerError;

verus! {

/// A payload field's value: the wire format carries integers and strings.
#[derive(Debug, PartialEq)]
pub enum FieldValue {
    Int(i64),
    Str(String),
}

/// A named field of an action payload.
#[derive(Debug, PartialEq)]
pub struct Field {
    pub name: String,
    pub value: FieldValue,
}

/// The self-describing persisted form of an action.
#[derive(Debug, PartialEq)]
pub struct ActionValue {
    pub tag: String,
    pub fields: Vec<Field>,
}

/// Model of a field's value.
pub ghost enum FieldValueSpec {
    Int(i64),
    Str(Seq<char>),
}

/// Model of a named field.
#[verifier::ext_equal]
pub ghost struct FieldSpec {
    pub name: Seq<char>,
    pub value: FieldValueSpec,
}

/// Model of a persisted action value.
#[verifier::ext_equal]
pub ghost struct ActionValueSpec {
    pub tag: Seq<char>,
    pub fields: Seq<FieldSpec>,
}

impl View for FieldValue {
    type V = FieldValueSpec;

    open spec fn view(&self) -> FieldValueSpec {
        match self {
            FieldValue::Int(i) => FieldValueSpec::Int(*i),
            FieldValue::Str(s) => FieldValueSpec::Str(s@),
        }
    }
}

impl View for Field {
    type V = FieldSpec;

    open spec fn view(&self) -> FieldSpec {
        FieldSpec { name: self.name@, value: self.value@ }
    }
}

impl View for ActionValue {
    type V = ActionValueSpec;

    open spec fn view(&self) -> ActionValueSpec {
        ActionValueSpec { tag: self.tag@, fields: self.fields@.map_values(|f: Field| f@) }
    }
}

impl Clone for FieldValue {
    /// Cloning keeps the value's model.
    fn clone(&self) -> (r: Self)
        ensures
            r@ == self@,
    {
        match self {
            FieldValue::Int(i) => FieldValue::Int(*i),
            FieldValue::Str(s) => FieldValue::Str(s.clone()),
        }
    }
}

impl Clone for Field {
    /// Cloning keeps the field's model.
    fn clone(&self) -> (r: Self)
        ensures
            r@ == self@,
    {
        Field { name: self.name.clone(), value: self.value.clone() }
    }
}

/// The first value bound to `key`, if any. De-serialization reads the payload
/// only through this lookup, so reordering fields with distinct names cannot
/// change what is decoded.
pub open spec fn spec_lookup(fields: Seq<FieldSpec>, key: Seq<char>) -> Option<FieldValueSpec>
    decreases fields.len(),
{
    if fields.len() == 0 {
        None
    } else if fields[0].name == key {
        Some(fields[0].value)
    } else {
        spec_lookup(fields.drop_first(), key)
    }
}

/// The wire form of an action: its variant name as tag, its fields by name.
pub open spec fn spec_encode_action(a: ActionSpec) -> ActionValueSpec {
    match a {
        ActionSpec::SendBotMessage { chat_id, message } => ActionValueSpec {
            tag: "SendBotMessage"@,
            fields: seq![
                FieldSpec { name: "chat_id"@, value: FieldValueSpec::Int(chat_id) },
                FieldSpec { name: "message"@, value: FieldValueSpec::Str(message) },
            ],
        },
        ActionSpec::Log { message, level } => ActionValueSpec {
            tag: "Log"@,
            fields: seq![
                FieldSpec { name: "message"@, value: FieldValueSpec::Str(message) },
                FieldSpec { name: "level"@, value: FieldValueSpec::Str(level) },
            ],
        },
    }
}

/// What a wire value decodes to: `None` on an unknown tag or a missing or
/// ill-typed field.
pub open spec fn spec_decode_action(v: ActionValueSpec) -> Option<ActionSpec> {
    if v.tag == "SendBotMessage"@ {
        match (spec_lookup(v.fields, "chat_id"@), spec_lookup(v.fields, "message"@)) {
            (
                Some(FieldValueSpec::Int(chat_id)),
                Some(FieldValueSpec::Str(message)),
            ) => Some(ActionSpec::SendBotMessage { chat_id, message }),
            _ => None,
        }
    } else if v.tag == "Log"@ {
        match (spec_lookup(v.fields, "message"@), spec_lookup(v.fields, "level"@)) {
            (
                Some(FieldValueSpec::Str(message)),
                Some(FieldValueSpec::Str(level)),
            ) => Some(ActionSpec::Log { message, level }),
            _ => None,
        }
    } else {
        None
    }
}

/// True of two strings exactly when they read the same.
fn string_eq_lit(a: &String, b: &str) -> (r: bool)
    ensures
        r == (a@ == b@),
{
    let owned: String = b.to_owned();
    *a == owned
}

/// The first value bound to `key` in the payload, cloned out.
fn lookup_field(fields: &Vec<Field>, key: &str) -> (r: Option<FieldValue>)
    ensures
        match r {
            Some(f) => spec_lookup(fields@.map_values(|f: Field| f@), key@) == Some(f@),
            None => spec_lookup(fields@.map_values(|f: Field| f@), key@) is None,
        },
{
    let ghost all = fields@.map_values(|f: Field| f@);
    proof {
        assert(all.skip(0) =~= all);
    }
    let mut i: usize = 0;
    while i < fields.len()
        invariant
            0 <= i <= fields.len(),
            all == fields@.map_values(|f: Field| f@),
            spec_lookup(all, key@) == spec_lookup(all.skip(i as int), key@),
        decreases fields.len() - i,
    {
        if string_eq_lit(&fields[i].name, key) {
            proof {
                assert(all.skip(i as int)[0] == all[i as int]);
            }
            return Some(fields[i].value.clone());
        }
        proof {
            assert(all.skip(i as int).drop_first() =~= all.skip(i as int + 1));
            assert(all.skip(i as int)[0] == all[i as int]);
        }
        i = i + 1;
    }
    proof {
        assert(all.skip(i as int).len() == 0);
    }
    None
}

impl TaskAction {
    /// The self-describing wire form of this action.
    pub fn encode(&self) -> (v: ActionValue)
        ensures
            v@ == spec_encode_action(self@),
    {
        let v = match self {
            TaskAction::SendBotMessage { chat_id, message } => ActionValue {
                tag: "SendBotMessage".to_owned(),
                fields: vec![
                    Field { name: "chat_id".to_owned(), value: FieldValue::Int(*chat_id) },
                    Field { name: "message".to_owned(), value: FieldValue::Str(message.clone()) },
                ],
            },
            TaskAction::Log { message, level } => ActionValue {
                tag: "Log".to_owned(),
                fields: vec![
                    Field { name: "message".to_owned(), value: FieldValue::Str(message.clone()) },
                    Field { name: "level".to_owned(), value: FieldValue::Str(level.clone()) },
                ],
            },
        };
        proof {
            assert(v@.fields =~= spec_encode_action(self@).fields);
            assert(v@ =~= spec_encode_action(self@));
        }
        v
    }

    /// Decodes a wire value; rejects an unknown tag and a missing or
    /// ill-typed payload field.
    pub fn decode(v: &ActionValue) -> (r: Result<TaskAction, SchedulerError>)
        ensures
            match spec_decode_action(v@) {
                Some(a) => r matches Ok(action) && action@ == a,
                None => r matches Err(e) && e is SerdeError,
            },
    {
        if string_eq_lit(&v.tag, "SendBotMessage") {
            let chat_id = lookup_field(&v.fields, "chat_id");
            let message = lookup_field(&v.fields, "message");
            match (chat_id, message) {
                (Some(FieldValue::Int(c)), Some(FieldValue::Str(m))) => Ok(
                    TaskAction::SendBotMessage { chat_id: c, message: m },
                ),
                _ => Err(SchedulerError::SerdeError("bad SendBotMessage payload".to_owned())),
            }
        } else if string_eq_lit(&v.tag, "Log") {
            let message = lookup_field(&v.fields, "message");
            let level = lookup_field(&v.fields, "level");
            match (message, level) {
                (Some(FieldValue::Str(m)), Some(FieldValue::Str(l))) => Ok(
                    TaskAction::Log { message: m, level: l },
                ),
                _ => Err(SchedulerError::SerdeError("bad Log payload".to_owned())),
            }
        } else {
            Err(SchedulerError::SerdeError("unknown action type".to_owned()))
        }
    }
}

/// Law: encoding an action and decoding the result gives the action back.
pub proof fn lemma_action_codec_round_trip(a: ActionSpec)
    ensures
        spec_decode_action(spec_encode_action(a)) == Some(a),
{
    reveal_strlit("SendBotMessage");
    reveal_strlit("Log");
    reveal_strlit("chat_id");
    reveal_strlit("message");
    reveal_strlit("level");
    reveal_with_fuel(spec_lookup, 3);
    assert("Log"@ != "SendBotMessage"@) by {
        assert("Log"@.len() == 3);
        assert("SendBotMessage"@.len() == 14);
    }
    assert("chat_id"@ != "message"@) by {
        assert("chat_id"@[0] == 'c');
        assert("message"@[0] == 'm');
    }
    assert("message"@ != "level"@) by {
        assert("message"@.len() == 7);
        assert("level"@.len() == 5);
    }
    let v = spec_encode_action(a);
    match a {
        ActionSpec::SendBotMessage { chat_id, message } => {
            assert(v.tag == "SendBotMessage"@);
            assert(spec_lookup(v.fields, "chat_id"@) == Some(FieldValueSpec::Int(chat_id)));
            assert(v.fields.drop_first() =~= seq![
                FieldSpec { name: "message"@, value: FieldValueSpec::Str(message) },
            ]);
            assert(spec_lookup(v.fields, "message"@) == Some(FieldValueSpec::Str(message)));
        },
        ActionSpec::Log { message, level } => {
            assert(v.fields.drop_first() =~= seq![
                FieldSpec { name: "level"@, value: FieldValueSpec::Str(level) },
            ]);
            assert(spec_lookup(v.fields, "message"@) == Some(FieldValueSpec::Str(message)));
            assert(spec_lookup(v.fields, "level"@) == Some(FieldValueSpec::Str(level)));
        },
    }
}

/// Law: decoding reads the payload only through name lookup, so two wire
/// values with the same tag whose payloads bind every name alike decode
/// to the same result, whatever the order of their fields.
pub proof fn lemma_decode_ignores_field_order(v1: ActionValueSpec, v2: ActionValueSpec)
    requires
        v1.tag == v2.tag,
        forall|key: Seq<char>| spec_lookup(v1.fields, key) == spec_lookup(v2.fields, key),
    ensures
        spec_decode_action(v1) == spec_decode_action(v2),
{
}

} // verus!
