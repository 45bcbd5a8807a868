//! Checking tool inputs against their schemas before anything runs.
use crate::json::{
    get_member, json_model, json_models, json_str, member, text_member, Json, JsonNumber,
};
use crate::text::{concat2, concat3, join, joined, same_text};
use serde_json::Value;
use vstd::prelude::*;

verus! {

/// The names that a schema requires: the strings in its `required` list.
pub open spec fn required_names(schema: Json) -> Seq<Seq<char>> {
    match member(schema, "required"@) {
        Some(Json::List(items)) => texts_of(items),
        _ => Seq::empty(),
    }
}

/// The strings in a list, in order.
pub open spec fn texts_of(items: Seq<Json>) -> Seq<Seq<char>>
    decreases items.len(),
{
    if items.len() == 0 {
        Seq::empty()
    } else {
        match items.last() {
            Json::Text(text) => texts_of(items.drop_last()).push(text),
            _ => texts_of(items.drop_last()),
        }
    }
}

/// The type that a schema names for a parameter.
pub open spec fn expected_type(schema: Json, name: Seq<char>) -> Option<Seq<char>> {
    match member(schema, "properties"@) {
        Some(properties) => match member(properties, name) {
            Some(property) => text_member(property, "type"@),
            None => None,
        },
        None => None,
    }
}

/// Whether a value has the type that a schema names; a type that is not known holds of
/// every value.
pub open spec fn has_type(value: Json, name: Seq<char>) -> bool {
    if name == "string"@ {
        value is Text
    } else if name == "integer"@ {
        value matches Json::Number(JsonNumber::Integer(n)) && i64::MIN <= n <= u64::MAX
    } else if name == "number"@ {
        value is Number
    } else if name == "boolean"@ {
        value is Bool
    } else if name == "object"@ {
        value is Object
    } else if name == "array"@ {
        value is List
    } else {
        true
    }
}

/// What is wrong with one required parameter, if anything.
pub open spec fn issue_with(schema: Json, input: Json, name: Seq<char>) -> Option<Seq<char>> {
    match member(input, name) {
        None => Some("missing required parameter '"@ + name + "'"@),
        Some(Json::Null) => Some("missing required parameter '"@ + name + "'"@),
        Some(value) => match expected_type(schema, name) {
            Some(expected) => if has_type(value, expected) {
                None
            } else {
                Some("parameter '"@ + name + "' must be a "@ + expected)
            },
            None => None,
        },
    }
}

/// What is wrong with the given required parameters, in order.
pub open spec fn issues_with(schema: Json, input: Json, names: Seq<Seq<char>>) -> Seq<Seq<char>>
    decreases names.len(),
{
    if names.len() == 0 {
        Seq::empty()
    } else {
        let before = issues_with(schema, input, names.drop_last());
        match issue_with(schema, input, names.last()) {
            Some(issue) => before.push(issue),
            None => before,
        }
    }
}

/// What is wrong with a tool input, by the tool's schema.
pub open spec fn input_issues(schema: Json, input: Json) -> Seq<Seq<char>> {
    issues_with(schema, input, required_names(schema))
}

/// The message that rejects a tool input, if it has to be rejected.
pub open spec fn rejection(
    tool_name: Seq<char>,
    schema: Json,
    input: Json,
) -> Option<Seq<char>> {
    let issues = input_issues(schema, input);
    if issues.len() == 0 {
        None
    } else {
        Some(
            "Tool input rejected before execution: "@ + join(issues, "; "@) + ". Call '"@
                + tool_name + "' again with a JSON object matching its schema."@,
        )
    }
}

fn required(schema: &Value) -> (r: Vec<String>)
    ensures
        r.deep_view() == required_names(json_model(*schema)),
{
    let mut names: Vec<String> = Vec::new();
    let list = match get_member(schema, "required") {
        Some(list) => list,
        None => {
            assert(names.deep_view() =~= Seq::empty());
            return names;
        },
    };
    let items = match list.as_array() {
        Some(items) => items,
        None => {
            assert(names.deep_view() =~= Seq::empty());
            return names;
        },
    };
    let ghost all = json_models(items@);
    let mut i: usize = 0;
    assert(names.deep_view() =~= texts_of(all.take(0)));
    while i < items.len()
        invariant
            all == json_models(items@),
            i <= items.len(),
            names.deep_view() == texts_of(all.take(i as int)),
        decreases items.len() - i,
    {
        let ghost before = names.deep_view();
        assert(all.take(i + 1).drop_last() =~= all.take(i as int));
        assert(all[i as int] == json_model(items@[i as int]));
        if let Some(text) = items[i].as_str() {
            names.push(text.to_owned());
            assert(names.deep_view() =~= before.push(text@));
        }
        i += 1;
    }
    assert(all.take(i as int) =~= all);
    names
}

fn matches_type(value: &Value, name: &str) -> (r: bool)
    ensures
        r == has_type(json_model(*value), name@),
{
    if same_text(name, "string") {
        value.is_string()
    } else if same_text(name, "integer") {
        value.is_i64() || value.is_u64()
    } else if same_text(name, "number") {
        value.is_number()
    } else if same_text(name, "boolean") {
        value.is_boolean()
    } else if same_text(name, "object") {
        value.is_object()
    } else if same_text(name, "array") {
        value.is_array()
    } else {
        true
    }
}

fn parameter_type<'a>(schema: &'a Value, name: &str) -> (r: Option<&'a str>)
    ensures
        match r {
            Some(text) => expected_type(json_model(*schema), name@) == Some(text@),
            None => expected_type(json_model(*schema), name@) is None,
        },
{
    match get_member(schema, "properties") {
        Some(properties) => match get_member(properties, name) {
            Some(property) => json_str(property, "type"),
            None => None,
        },
        None => None,
    }
}

fn parameter_issue(schema: &Value, input: &Value, name: &str) -> (r: Option<String>)
    ensures
        r.deep_view() == issue_with(json_model(*schema), json_model(*input), name@),
{
    let value = match get_member(input, name) {
        Some(value) => value,
        None => {
            return Some(concat3("missing required parameter '", name, "'"));
        },
    };
    if value.is_null() {
        return Some(concat3("missing required parameter '", name, "'"));
    }
    match parameter_type(schema, name) {
        Some(expected) => if matches_type(value, expected) {
            None
        } else {
            let head = concat3("parameter '", name, "' must be a ");
            Some(concat2(head.as_str(), expected))
        },
        None => None,
    }
}

/// What is wrong with a tool input, by the tool's schema: required parameters that are
/// missing or `null`, and those of another type than the schema names.
pub fn required_tool_input_issues(schema: &Value, input: &Value) -> (r: Vec<String>)
    ensures
        r.deep_view() == input_issues(json_model(*schema), json_model(*input)),
{
    let names = required(schema);
    let ghost all = names.deep_view();
    let mut issues: Vec<String> = Vec::new();
    let mut i: usize = 0;
    assert(issues.deep_view() =~= issues_with(
        json_model(*schema),
        json_model(*input),
        all.take(0),
    ));
    while i < names.len()
        invariant
            all == names.deep_view(),
            i <= names.len(),
            issues.deep_view() == issues_with(
                json_model(*schema),
                json_model(*input),
                all.take(i as int),
            ),
        decreases names.len() - i,
    {
        let ghost before = issues.deep_view();
        assert(all.take(i + 1).drop_last() =~= all.take(i as int));
        if let Some(issue) = parameter_issue(schema, input, names[i].as_str()) {
            issues.push(issue);
            assert(issues.deep_view() =~= before.push(issue@));
        }
        i += 1;
    }
    assert(all.take(i as int) =~= all);
    issues
}

pub fn invalid_tool_input_message(tool_name: &str, schema: &Value, input: &Value) -> (r: Option<
    String,
>)
    ensures
        r.deep_view() == rejection(tool_name@, json_model(*schema), json_model(*input)),
{
    let issues = required_tool_input_issues(schema, input);
    if issues.len() == 0 {
        return None;
    }
    let list = joined(&issues, "; ");
    let head = concat3("Tool input rejected before execution: ", list.as_str(), ". Call '");
    Some(
        concat3(head.as_str(), tool_name, "' again with a JSON object matching its schema."),
    )
}

proof fn lemma_no_issues(schema: Json, input: Json, names: Seq<Seq<char>>)
    ensures
        issues_with(schema, input, names).len() == 0 <==> forall|i: int|
            0 <= i < names.len() ==> issue_with(schema, input, #[trigger] names[i]) is None,
    decreases names.len(),
{
    if names.len() > 0 {
        lemma_no_issues(schema, input, names.drop_last());
        assert forall|i: int|
            0 <= i < names.len() - 1 implies names[i] == names.drop_last()[i] by {
        }
        assert(issue_with(schema, input, names.last()) is None <==> issue_with(
            schema,
            input,
            names[names.len() - 1],
        ) is None);
        if forall|i: int|
            0 <= i < names.len() ==> issue_with(schema, input, #[trigger] names[i]) is None {
            assert forall|i: int| 0 <= i < names.drop_last().len() implies issue_with(
                schema,
                input,
                #[trigger] names.drop_last()[i],
            ) is None by {
                assert(names.drop_last()[i] == names[i]);
            }
        }
    }
}

/// An input is let through exactly where every required parameter is there, is not
/// `null`, and has the type that the schema names for it, if it names one.
pub proof fn law_accepted_inputs(tool_name: Seq<char>, schema: Json, input: Json)
    ensures
        rejection(tool_name, schema, input) is None <==> forall|i: int|
            0 <= i < required_names(schema).len() ==> {
                let name = #[trigger] required_names(schema)[i];
                &&& member(input, name) matches Some(value)
                &&& !(value is Null)
                &&& expected_type(schema, name) matches Some(expected) ==> has_type(
                    value,
                    expected,
                )
            },
{
    lemma_no_issues(schema, input, required_names(schema));
}

} // verus!
