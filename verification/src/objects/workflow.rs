//! Workflows: state machines whose task states invoke functions.

use vstd::prelude::*;
use super::Metadata;
use crate::keyed::KeyedMap;

verus! {

/// A workflow of function invocations and choices.
#[derive(Clone, Debug, PartialEq)]
pub struct Workflow {
    pub metadata: Metadata,
    pub spec: WorkflowSpec,
    pub status: Option<WorkflowStatus>,
}

/// The states of a workflow and where it starts.
#[derive(Clone, Debug, PartialEq)]
pub struct WorkflowSpec {
    /// The name of the state the workflow starts at (case sensitive).
    pub start_at: String,
    /// The states, by name.
    pub states: KeyedMap<State>,
}

/// Where a run of a workflow stands.
#[derive(Clone, Debug, PartialEq, Default)]
pub struct WorkflowStatus {
    pub current_state: String,
    pub current_result: String,
}

/// A state of a workflow.
#[derive(Clone, Debug, PartialEq)]
pub enum State {
    Task(Task),
    Choice(Choice),
}

/// A state that runs a function.
#[derive(Clone, Debug, PartialEq)]
pub struct Task {
    /// The function to execute.
    pub resource: String,
    /// The state that runs when this one completes; None ends the execution.
    pub next: Option<String>,
}

/// A state that branches on the result of the previous one.
#[derive(Clone, Debug, PartialEq)]
pub struct Choice {
    pub rules: Vec<ChoiceRule>,
    pub default: String,
}

/// A branch of a choice.
#[derive(Clone, Debug, PartialEq)]
pub struct ChoiceRule {
    pub comparison: Comparison,
    pub next: String,
}

/// A test on a field of a JSON object.
#[derive(Clone, Debug, PartialEq)]
pub enum Comparison {
    FieldEquals { field: String, content: String },
    FieldNumEquals { field: String, content: i32 },
}

/// A value of a field of a JSON object, as far as a choice looks at it.
#[derive(Clone, Debug, PartialEq)]
pub enum JsonScalar {
    /// A string.
    Str(String),
    /// A number, with its value when it is an integer that fits in an `i64`.
    Num(Option<i64>),
    /// Anything else.
    Other,
}

/// The fields of the JSON object that a text holds, or None when the text
/// is not a JSON object.
pub uninterp spec fn json_fields(text: Seq<char>) -> Option<Seq<(Seq<char>, JsonScalar)>>;

/// Parses a JSON object with `serde_json::from_str` into a
/// `serde_json::Map`, and gives each field with its value told apart as a
/// string, a number (`as_i64`) or anything else. The contract names the
/// result: the grammar is serde_json's.
#[verifier::external_body]
fn parse_json_fields(text: &str) -> (r: Option<Vec<(String, JsonScalar)>>)
    ensures
        match r {
            Some(v) => json_fields(text@) == Some(v@.map_values(|e: (String, JsonScalar)| (e.0@, e.1))),
            None => json_fields(text@) is None,
        },
{
    match serde_json::from_str::<serde_json::Map<String, serde_json::Value>>(text) {
        Ok(map) => Some(map.into_iter().map(|(k, v)| (k, match v {
            serde_json::Value::String(s) => JsonScalar::Str(s),
            serde_json::Value::Number(n) => JsonScalar::Num(n.as_i64()),
            _ => JsonScalar::Other,
        })).collect()),
        Err(_) => None,
    }
}

/// The value of the first field named `name`.
pub open spec fn field_value(fields: Seq<(Seq<char>, JsonScalar)>, name: Seq<char>) -> Option<JsonScalar>
    decreases fields.len(),
{
    if fields.len() == 0 {
        None
    } else if fields[0].0 == name {
        Some(fields[0].1)
    } else {
        field_value(fields.drop_first(), name)
    }
}

/// Whether a rule holds of the fields of an object: the field is a string
/// equal to the content, or an integer equal to it.
pub open spec fn rule_holds(rule: ChoiceRule, fields: Seq<(Seq<char>, JsonScalar)>) -> bool {
    match rule.comparison {
        Comparison::FieldEquals { field, content } => match field_value(fields, field@) {
            Some(JsonScalar::Str(v)) => v@ == content@,
            _ => false,
        },
        Comparison::FieldNumEquals { field, content } => match field_value(fields, field@) {
            Some(JsonScalar::Num(Some(v))) => v == content as i64,
            _ => false,
        },
    }
}

impl ChoiceRule {
    /// Whether the rule holds of the fields of an object.
    pub fn match_fields(&self, fields: &Vec<(String, JsonScalar)>) -> (r: bool)
        ensures
            r == rule_holds(*self, fields@.map_values(|e: (String, JsonScalar)| (e.0@, e.1))),
    {
        let ghost fs = fields@.map_values(|e: (String, JsonScalar)| (e.0@, e.1));
        let name = match &self.comparison {
            Comparison::FieldEquals { field, .. } => field,
            Comparison::FieldNumEquals { field, .. } => field,
        };
        let mut i: usize = 0;
        let mut found: Option<&JsonScalar> = None;
        assert(fs.skip(0) =~= fs);
        while i < fields.len() && found.is_none()
            invariant
                i <= fields@.len(),
                fs == fields@.map_values(|e: (String, JsonScalar)| (e.0@, e.1)),
                found is None ==> field_value(fs.skip(i as int), name@) == field_value(fs, name@),
                found matches Some(v) ==> field_value(fs, name@) == Some(*v),
            decreases fields.len() - i,
        {
            assert(fs.skip(i as int)[0] == fs[i as int]);
            assert(fs.skip(i as int).drop_first() =~= fs.skip(i + 1));
            if crate::text::str_eq(fields[i].0.as_str(), name.as_str()) {
                found = Some(&fields[i].1);
            }
            i = i + 1;
        }
        if found.is_none() {
            assert(fs.skip(i as int) =~= Seq::<(Seq<char>, JsonScalar)>::empty());
        }
        match (&self.comparison, found) {
            (Comparison::FieldEquals { content, .. }, Some(JsonScalar::Str(v))) => crate::text::str_eq(
                v.as_str(),
                content.as_str(),
            ),
            (Comparison::FieldNumEquals { content, .. }, Some(JsonScalar::Num(Some(v)))) => *v == *content as i64,
            _ => false,
        }
    }

    /// Whether the rule holds of the JSON object in `text`, which must be
    /// one.
    pub fn match_with(&self, text: &str) -> (r: bool)
        requires
            json_fields(text@) is Some,
        ensures
            r == rule_holds(*self, json_fields(text@)->0),
    {
        match parse_json_fields(text) {
            Some(fields) => self.match_fields(&fields),
            None => false,
        }
    }

    /// Whether the rule holds of the JSON object in `text`; None when the
    /// text is not a JSON object.
    pub fn try_match_with(&self, text: &str) -> (r: Option<bool>)
        ensures
            match json_fields(text@) {
                Some(fields) => r == Some(rule_holds(*self, fields)),
                None => r is None,
            },
    {
        match parse_json_fields(text) {
            Some(_) => Some(self.match_with(text)),
            None => None,
        }
    }
}

} // verus!
