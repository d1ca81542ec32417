//! Parameters of the DevTools commands that input, DOM, emulation, page and
//! runtime operations send, and the command sequences of key presses and
//! typing.

use vstd::prelude::*;

use crate::json::{members_model, JsonModel, JsonValue, NumberModel};
use crate::text::owned;

verus! {

/// A JSON string holding one character.
pub open spec fn char_string(c: char) -> JsonModel {
    JsonModel::String(seq![c])
}

/// The parameters of a key event.
pub open spec fn key_event_model(event_type: Seq<char>, key: Seq<char>, modifiers: u32) -> JsonModel {
    JsonModel::Object(
        seq![
            ("key"@, JsonModel::String(key)),
            ("modifiers"@, JsonModel::Number(NumberModel::PosInt(modifiers as u64))),
            ("type"@, JsonModel::String(event_type)),
        ],
    )
}

fn member(key: &str, v: JsonValue) -> (r: (String, JsonValue))
    ensures
        r.0@ == key@,
        r.1.model() == v.model(),
{
    (owned(key), v)
}

/// The parameters of an `Input.dispatchKeyEvent` for a key.
pub fn key_event_params(event_type: &str, key: &str, modifiers: u32) -> (r: JsonValue)
    ensures
        r.model() == key_event_model(event_type@, key@, modifiers),
{
    let mut m: Vec<(String, JsonValue)> = Vec::new();
    m.push(member("key", JsonValue::from_str(key)));
    m.push(member("modifiers", JsonValue::from_u64(modifiers as u64)));
    m.push(member("type", JsonValue::from_str(event_type)));
    let r = JsonValue::object(m);
    assert(r.model()->Object_0 =~= key_event_model(event_type@, key@, modifiers)->Object_0);
    r
}

/// The two events of a key press: `keyDown` then `keyUp`.
pub fn key_press_commands(key: &str, modifiers: u32) -> (r: Vec<JsonValue>)
    ensures
        r@.len() == 2,
        r@[0].model() == key_event_model("keyDown"@, key@, modifiers),
        r@[1].model() == key_event_model("keyUp"@, key@, modifiers),
{
    let mut r: Vec<JsonValue> = Vec::new();
    r.push(key_event_params("keyDown", key, modifiers));
    r.push(key_event_params("keyUp", key, modifiers));
    r
}

/// The commands that type one character: a `keyDown` with the text, the
/// text inserted, and a `keyUp` with the text.
pub open spec fn char_commands(c: char) -> Seq<(Seq<char>, JsonModel)> {
    seq![
        ("Input.dispatchKeyEvent"@, JsonModel::Object(seq![("text"@, char_string(c)), ("type"@, JsonModel::String("keyDown"@))])),
        ("Input.insertText"@, JsonModel::Object(seq![("text"@, char_string(c))])),
        ("Input.dispatchKeyEvent"@, JsonModel::Object(seq![("text"@, char_string(c)), ("type"@, JsonModel::String("keyUp"@))])),
    ]
}

/// The commands that type a text, character by character.
pub open spec fn typing_model(text: Seq<char>) -> Seq<(Seq<char>, JsonModel)>
    decreases text.len(),
{
    if text.len() == 0 {
        Seq::empty()
    } else {
        typing_model(text.drop_last()) + char_commands(text.last())
    }
}

/// The views of a list of commands.
pub open spec fn commands_model(v: Seq<(&str, JsonValue)>) -> Seq<(Seq<char>, JsonModel)> {
    v.map_values(|c: (&str, JsonValue)| (c.0@, c.1.model()))
}

fn char_value(c: char) -> (r: JsonValue)
    ensures
        r.model() == char_string(c),
{
    let mut s = String::new();
    crate::text::push_char(&mut s, c);
    assert(s@ =~= seq![c]);
    JsonValue::String(s)
}

fn text_event(c: char, event_type: &str) -> (r: JsonValue)
    ensures
        r.model() == JsonModel::Object(
            seq![("text"@, char_string(c)), ("type"@, JsonModel::String(event_type@))],
        ),
{
    let mut m: Vec<(String, JsonValue)> = Vec::new();
    m.push(member("text", char_value(c)));
    m.push(member("type", JsonValue::from_str(event_type)));
    let r = JsonValue::object(m);
    assert(r.model()->Object_0 =~= seq![
        ("text"@, char_string(c)),
        ("type"@, JsonModel::String(event_type@)),
    ]);
    r
}

/// The commands (method and parameters) that type `text` into the focused
/// element.
pub fn typing_commands(text: &str) -> (r: Vec<(&'static str, JsonValue)>)
    ensures
        commands_model(r@) == typing_model(text@),
{
    let cs = crate::text::chars_of(text);
    let mut r: Vec<(&'static str, JsonValue)> = Vec::new();
    let mut i: usize = 0;
    while i < cs.len()
        invariant
            i <= cs@.len(),
            cs@ == text@,
            commands_model(r@) == typing_model(cs@.take(i as int)),
        decreases cs@.len() - i,
    {
        assert(cs@.take(i + 1).drop_last() =~= cs@.take(i as int));
        let c = cs[i];
        let ghost before = commands_model(r@);
        r.push(("Input.dispatchKeyEvent", text_event(c, "keyDown")));
        let mut ins: Vec<(String, JsonValue)> = Vec::new();
        ins.push(member("text", char_value(c)));
        let insert = JsonValue::object(ins);
        assert(insert.model()->Object_0 =~= seq![("text"@, char_string(c))]);
        r.push(("Input.insertText", insert));
        r.push(("Input.dispatchKeyEvent", text_event(c, "keyUp")));
        i = i + 1;
        assert(commands_model(r@) =~= before + char_commands(c));
    }
    assert(cs@.take(cs@.len() as int) =~= cs@);
    r
}

/// The parameters of `Emulation.setEmulatedMedia` for (name, value)
/// features.
pub open spec fn media_model(features: Seq<(String, String)>) -> JsonModel {
    JsonModel::Object(
        seq![
            ("features"@, JsonModel::Array(
                features.map_values(
                    |f: (String, String)|
                        JsonModel::Object(
                            seq![("name"@, JsonModel::String(f.0@)), ("value"@, JsonModel::String(f.1@))],
                        ),
                ),
            )),
        ],
    )
}

/// Builds the parameters of `Emulation.setEmulatedMedia`.
pub fn media_features_params(features: &Vec<(String, String)>) -> (r: JsonValue)
    ensures
        r.model() == media_model(features@),
{
    let mut items: Vec<JsonValue> = Vec::new();
    let mut i: usize = 0;
    while i < features.len()
        invariant
            i <= features@.len(),
            items@.len() == i,
            forall|k: int|
                0 <= k < i ==> #[trigger] items@[k].model() == JsonModel::Object(
                    seq![
                        ("name"@, JsonModel::String(features@[k].0@)),
                        ("value"@, JsonModel::String(features@[k].1@)),
                    ],
                ),
        decreases features@.len() - i,
    {
        let mut m: Vec<(String, JsonValue)> = Vec::new();
        m.push(member("name", JsonValue::String(features[i].0.clone())));
        m.push(member("value", JsonValue::String(features[i].1.clone())));
        let o = JsonValue::object(m);
        assert(o.model()->Object_0 =~= seq![
            ("name"@, JsonModel::String(features@[i as int].0@)),
            ("value"@, JsonModel::String(features@[i as int].1@)),
        ]);
        items.push(o);
        i = i + 1;
    }
    let arr = JsonValue::Array(items);
    let ghost want = features@.map_values(
        |f: (String, String)|
            JsonModel::Object(
                seq![("name"@, JsonModel::String(f.0@)), ("value"@, JsonModel::String(f.1@))],
            ),
    );
    assert forall|k: int| 0 <= k < features@.len() implies arr.model()->Array_0[k] == want[k] by {
        assert(arr.model()->Array_0[k] == items@[k].model());
    }
    assert(arr.model()->Array_0 =~= want);
    let mut top: Vec<(String, JsonValue)> = Vec::new();
    top.push(member("features", arr));
    let r = JsonValue::object(top);
    assert(r.model()->Object_0 =~= media_model(features@)->Object_0);
    r
}

/// The parameters of `DOM.setFileInputFiles`.
pub open spec fn file_input_model(backend_node_id: i64, files: Seq<String>) -> JsonModel {
    JsonModel::Object(
        seq![
            ("backendNodeId"@, crate::json::int_model(backend_node_id)),
            ("files"@, JsonModel::Array(files.map_values(|f: String| JsonModel::String(f@)))),
        ],
    )
}

/// Builds the parameters of `DOM.setFileInputFiles`.
pub fn file_input_params(backend_node_id: i64, files: &Vec<String>) -> (r: JsonValue)
    ensures
        r.model() == file_input_model(backend_node_id, files@),
{
    let mut items: Vec<JsonValue> = Vec::new();
    let mut i: usize = 0;
    while i < files.len()
        invariant
            i <= files@.len(),
            items@.len() == i,
            forall|k: int| 0 <= k < i ==> #[trigger] items@[k].model() == JsonModel::String(files@[k]@),
        decreases files@.len() - i,
    {
        items.push(JsonValue::String(files[i].clone()));
        i = i + 1;
    }
    let arr = JsonValue::Array(items);
    let ghost want = files@.map_values(|f: String| JsonModel::String(f@));
    assert forall|k: int| 0 <= k < files@.len() implies arr.model()->Array_0[k] == want[k] by {
        assert(arr.model()->Array_0[k] == items@[k].model());
    }
    assert(arr.model()->Array_0 =~= want);
    let mut m: Vec<(String, JsonValue)> = Vec::new();
    m.push(member("backendNodeId", JsonValue::from_i64(backend_node_id)));
    m.push(member("files", arr));
    let r = JsonValue::object(m);
    assert(r.model()->Object_0 =~= file_input_model(backend_node_id, files@)->Object_0);
    r
}

/// The parameters of `Page.captureScreenshot` (members in key order).
pub open spec fn screenshot_model(
    format: Seq<char>,
    quality: Option<u32>,
    clip: Option<JsonModel>,
    full_page: bool,
) -> JsonModel {
    JsonModel::Object(
        seq![("captureBeyondViewport"@, JsonModel::Bool(full_page))] + match clip {
            Some(c) => seq![("clip"@, c)],
            None => Seq::empty(),
        } + seq![("format"@, JsonModel::String(format))] + match quality {
            Some(q) => seq![("quality"@, JsonModel::Number(NumberModel::PosInt(q as u64)))],
            None => Seq::empty(),
        },
    )
}

/// Builds the parameters of `Page.captureScreenshot`.
pub fn screenshot_params(format: &str, quality: Option<u32>, clip: Option<JsonValue>, full_page: bool) -> (r:
    JsonValue)
    ensures
        r.model() == screenshot_model(
            format@,
            quality,
            match clip {
                Some(c) => Some(c.model()),
                None => None,
            },
            full_page,
        ),
{
    let ghost cm = match &clip {
        Some(c) => Some(c.model()),
        None => None,
    };
    let mut m: Vec<(String, JsonValue)> = Vec::new();
    m.push(member("captureBeyondViewport", JsonValue::Bool(full_page)));
    if let Some(c) = clip {
        m.push(member("clip", c));
    }
    m.push(member("format", JsonValue::from_str(format)));
    if let Some(q) = quality {
        m.push(member("quality", JsonValue::from_u64(q as u64)));
    }
    let r = JsonValue::object(m);
    assert(r.model()->Object_0 =~= screenshot_model(format@, quality, cm, full_page)->Object_0);
    r
}

/// The arguments of `Runtime.callFunctionOn`: each value wrapped as
/// `{"value": ...}`.
pub fn call_arguments(arguments: &[JsonValue]) -> (r: Vec<JsonValue>)
    ensures
        r@.len() == arguments@.len(),
        forall|i: int|
            0 <= i < r@.len() ==> #[trigger] r@[i].model() == JsonModel::Object(
                seq![("value"@, arguments@[i].model())],
            ),
{
    let mut out: Vec<JsonValue> = Vec::new();
    let mut i: usize = 0;
    while i < arguments.len()
        invariant
            i <= arguments@.len(),
            out@.len() == i,
            forall|k: int|
                0 <= k < i ==> #[trigger] out@[k].model() == JsonModel::Object(
                    seq![("value"@, arguments@[k].model())],
                ),
        decreases arguments@.len() - i,
    {
        let mut m: Vec<(String, JsonValue)> = Vec::new();
        m.push(member("value", arguments[i].duplicate()));
        let o = JsonValue::object(m);
        assert(o.model()->Object_0 =~= seq![("value"@, arguments@[i as int].model())]);
        out.push(o);
        i = i + 1;
    }
    out
}

/// The parameters of `Page.handleJavaScriptDialog`.
pub open spec fn dialog_model(accept: bool, text: Option<Seq<char>>) -> JsonModel {
    JsonModel::Object(
        seq![("accept"@, JsonModel::Bool(accept))] + match text {
            Some(t) => seq![("promptText"@, JsonModel::String(t))],
            None => Seq::empty(),
        },
    )
}

/// Builds the parameters of `Page.handleJavaScriptDialog`.
pub fn dialog_params(accept: bool, text: Option<&str>) -> (r: JsonValue)
    ensures
        r.model() == dialog_model(
            accept,
            match text {
                Some(t) => Some(t@),
                None => None,
            },
        ),
{
    let mut m: Vec<(String, JsonValue)> = Vec::new();
    m.push(member("accept", JsonValue::Bool(accept)));
    if let Some(t) = text {
        m.push(member("promptText", JsonValue::from_str(t)));
    }
    let r = JsonValue::object(m);
    assert(r.model()->Object_0 =~= dialog_model(
        accept,
        match text {
            Some(t) => Some(t@),
            None => None,
        },
    )->Object_0);
    r
}

} // verus!
