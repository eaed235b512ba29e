//! What the child says about itself when a stream starts.

use crate::json::{json_array_items, json_get, json_items, json_member, json_text_member, text_member};
use serde_json::Value;
use vstd::prelude::*;

verus! {

/// A command that the child understands.
#[derive(Clone, Debug, PartialEq)]
pub struct SlashCommand {
    pub name: String,
    pub description: String,
    pub argument_hint: String,
}

/// A model that the child can use.
#[derive(Clone, Debug, PartialEq)]
pub struct ModelInfo {
    pub value: String,
    pub display_name: String,
    pub description: String,
}

/// The commands and models that the child reported at the start of a stream.
#[derive(Clone, Debug, PartialEq)]
pub struct ClaudeSysInfo {
    pub supported_commands: Vec<SlashCommand>,
    pub models: Vec<ModelInfo>,
}

/// Whether `v` describes a command: its members `name`, `description` and
/// `argumentHint` are strings.
pub open spec fn is_command(v: Value) -> bool {
    &&& json_text_member(v, "name"@) is Some
    &&& json_text_member(v, "description"@) is Some
    &&& json_text_member(v, "argumentHint"@) is Some
}

/// Whether `c` is the command that `v` describes.
pub open spec fn command_in(v: Value, c: SlashCommand) -> bool {
    &&& json_text_member(v, "name"@) == Some(c.name@)
    &&& json_text_member(v, "description"@) == Some(c.description@)
    &&& json_text_member(v, "argumentHint"@) == Some(c.argument_hint@)
}

/// Whether `v` describes a model: its members `value`, `displayName` and
/// `description` are strings.
pub open spec fn is_model(v: Value) -> bool {
    &&& json_text_member(v, "value"@) is Some
    &&& json_text_member(v, "displayName"@) is Some
    &&& json_text_member(v, "description"@) is Some
}

/// Whether `m` is the model that `v` describes.
pub open spec fn model_in(v: Value, m: ModelInfo) -> bool {
    &&& json_text_member(v, "value"@) == Some(m.value@)
    &&& json_text_member(v, "displayName"@) == Some(m.display_name@)
    &&& json_text_member(v, "description"@) == Some(m.description@)
}

/// Whether `v` is an array of commands.
pub open spec fn is_command_list(v: Value) -> bool {
    json_items(v) matches Some(items) && forall|i: int|
        0 <= i < items.len() ==> is_command(#[trigger] items[i])
}

/// Whether `v` is an array of models.
pub open spec fn is_model_list(v: Value) -> bool {
    json_items(v) matches Some(items) && forall|i: int|
        0 <= i < items.len() ==> is_model(#[trigger] items[i])
}

/// Whether `cs` are the commands that the array `v` lists, in order.
pub open spec fn commands_in(v: Value, cs: Seq<SlashCommand>) -> bool {
    json_items(v) matches Some(items) && items.len() == cs.len() && forall|i: int|
        0 <= i < items.len() ==> command_in(#[trigger] items[i], cs[i])
}

/// Whether `ms` are the models that the array `v` lists, in order.
pub open spec fn models_in(v: Value, ms: Seq<ModelInfo>) -> bool {
    json_items(v) matches Some(items) && items.len() == ms.len() && forall|i: int|
        0 <= i < items.len() ==> model_in(#[trigger] items[i], ms[i])
}

/// The command that `v` describes.
fn parse_command(v: &Value) -> (r: Option<SlashCommand>)
    ensures
        match r {
            Some(c) => command_in(*v, c),
            None => !is_command(*v),
        },
{
    let name = text_member(v, "name");
    let description = text_member(v, "description");
    let argument_hint = text_member(v, "argumentHint");
    match (name, description, argument_hint) {
        (Some(name), Some(description), Some(argument_hint)) => Some(
            SlashCommand { name, description, argument_hint },
        ),
        _ => None,
    }
}

/// The model that `v` describes.
fn parse_model(v: &Value) -> (r: Option<ModelInfo>)
    ensures
        match r {
            Some(m) => model_in(*v, m),
            None => !is_model(*v),
        },
{
    let value = text_member(v, "value");
    let display_name = text_member(v, "displayName");
    let description = text_member(v, "description");
    match (value, display_name, description) {
        (Some(value), Some(display_name), Some(description)) => Some(
            ModelInfo { value, display_name, description },
        ),
        _ => None,
    }
}

/// The commands that the array `v` lists.
pub fn parse_commands(v: &Value) -> (r: Option<Vec<SlashCommand>>)
    ensures
        match r {
            Some(cs) => commands_in(*v, cs@),
            None => !is_command_list(*v),
        },
{
    let items = match json_array_items(v) {
        Some(items) => items,
        None => {
            return None;
        },
    };
    let mut out: Vec<SlashCommand> = Vec::new();
    let mut i: usize = 0;
    while i < items.len()
        invariant
            i <= items.len(),
            out.len() == i,
            json_items(*v) == Some(items@),
            forall|j: int| 0 <= j < i ==> command_in(#[trigger] items@[j], out@[j]),
        decreases items.len() - i,
    {
        match parse_command(&items[i]) {
            Some(c) => {
                out.push(c);
            },
            None => {
                assert(!is_command((json_items(*v)->Some_0)[i as int]));
                return None;
            },
        }
        i = i + 1;
    }
    Some(out)
}

/// The models that the array `v` lists.
pub fn parse_models(v: &Value) -> (r: Option<Vec<ModelInfo>>)
    ensures
        match r {
            Some(ms) => models_in(*v, ms@),
            None => !is_model_list(*v),
        },
{
    let items = match json_array_items(v) {
        Some(items) => items,
        None => {
            return None;
        },
    };
    let mut out: Vec<ModelInfo> = Vec::new();
    let mut i: usize = 0;
    while i < items.len()
        invariant
            i <= items.len(),
            out.len() == i,
            json_items(*v) == Some(items@),
            forall|j: int| 0 <= j < i ==> model_in(#[trigger] items@[j], out@[j]),
        decreases items.len() - i,
    {
        match parse_model(&items[i]) {
            Some(m) => {
                out.push(m);
            },
            None => {
                assert(!is_model((json_items(*v)->Some_0)[i as int]));
                return None;
            },
        }
        i = i + 1;
    }
    Some(out)
}

/// The member `key` of the member `response` of `v`.
pub open spec fn answer_member(v: Value, key: Seq<char>) -> Option<Value> {
    match json_member(v, "response"@) {
        Some(r) => json_member(r, key),
        None => None,
    }
}

/// Whether the answer `v` to the request that opens a stream reports
/// commands and models: its member `response` holds an array of commands
/// under `commands` and an array of models under `models`.
pub open spec fn has_sys_info(v: Value) -> bool {
    &&& answer_member(v, "commands"@) matches Some(c)
    &&& is_command_list(c)
    &&& answer_member(v, "models"@) matches Some(m)
    &&& is_model_list(m)
}

/// Whether `info` is what the answer `v` reports.
pub open spec fn sys_info_in(v: Value, info: ClaudeSysInfo) -> bool {
    &&& answer_member(v, "commands"@) matches Some(c)
    &&& commands_in(c, info.supported_commands@)
    &&& answer_member(v, "models"@) matches Some(m)
    &&& models_in(m, info.models@)
}

/// Reads the commands and models out of the answer to the request that
/// opens a stream. Fails where the answer does not report them.
pub fn parse_sys_info(v: &Value) -> (r: Result<ClaudeSysInfo, String>)
    ensures
        match r {
            Ok(info) => sys_info_in(*v, info),
            Err(_) => !has_sys_info(*v),
        },
{
    let body = match json_get(v, "response") {
        Some(b) => b,
        None => {
            return Err("invalid type: null, expected a sequence".to_owned());
        },
    };
    let commands = match json_get(body, "commands") {
        Some(c) => parse_commands(c),
        None => None,
    };
    let supported_commands = match commands {
        Some(c) => c,
        None => {
            return Err("the answer lists no commands".to_owned());
        },
    };
    let listed = match json_get(body, "models") {
        Some(m) => parse_models(m),
        None => None,
    };
    match listed {
        Some(models) => Ok(ClaudeSysInfo { supported_commands, models }),
        None => Err("the answer lists no models".to_owned()),
    }
}

} // verus!
