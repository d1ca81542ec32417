//! The decisions inside the tool handlers: which image format and MIME type
//! a screenshot uses, how a navigation target is read, the network presets,
//! and the texts the tools answer with.

use vstd::prelude::*;

use crate::console::{console_text, format_console_message};
use crate::extensions::InstalledExtension;
use crate::json::{JsonModel, JsonValue};
use crate::json_write::{push_quoted_json, quoted};
use crate::network::{format_network_request, request_line, RequestFigures};
use crate::text::{decimal, join_seq, join_strings, owned, push_str, push_u64, str_eq, views_of};

verus! {

// ---------------------------------------------------------------------------
// Screenshots and navigation
// ---------------------------------------------------------------------------

/// The image format asked for, `png` when none is given.
pub open spec fn effective_format(format: Seq<char>) -> Seq<char> {
    if format.len() == 0 {
        "png"@
    } else {
        format
    }
}

/// The MIME type of an image format.
pub open spec fn mime_of(format: Seq<char>) -> Seq<char> {
    if format == "jpeg"@ || format == "jpg"@ {
        "image/jpeg"@
    } else if format == "webp"@ {
        "image/webp"@
    } else {
        "image/png"@
    }
}

/// The image format of a screenshot request.
pub fn screenshot_format<'a>(format: &'a str) -> (r: &'a str)
    ensures
        r@ == effective_format(format@),
{
    if format.unicode_len() == 0 {
        "png"
    } else {
        format
    }
}

/// The MIME type of an image format.
pub fn screenshot_mime(format: &str) -> (r: &'static str)
    ensures
        r@ == mime_of(format@),
{
    if str_eq(format, "jpeg") || str_eq(format, "jpg") {
        "image/jpeg"
    } else if str_eq(format, "webp") {
        "image/webp"
    } else {
        "image/png"
    }
}

/// What a navigation request asks for.
#[derive(Clone, Copy, Debug, PartialEq, Eq, Structural)]
pub enum NavAction {
    Back,
    Forward,
    Reload,
    Url,
}

/// How a navigation target is read: `back`, `forward` and `reload` are
/// history moves; anything else is a URL.
pub open spec fn nav_action_of(url: Seq<char>) -> NavAction {
    if url == "back"@ {
        NavAction::Back
    } else if url == "forward"@ {
        NavAction::Forward
    } else if url == "reload"@ {
        NavAction::Reload
    } else {
        NavAction::Url
    }
}

/// Reads a navigation target.
pub fn navigation_action(url: &str) -> (r: NavAction)
    ensures
        r == nav_action_of(url@),
{
    if str_eq(url, "back") {
        NavAction::Back
    } else if str_eq(url, "forward") {
        NavAction::Forward
    } else if str_eq(url, "reload") {
        NavAction::Reload
    } else {
        NavAction::Url
    }
}

// ---------------------------------------------------------------------------
// Network conditions
// ---------------------------------------------------------------------------

/// Network conditions for `Network.emulateNetworkConditions`: latency in
/// milliseconds and throughputs in bytes per second (-1: no limit).
#[derive(Clone, Copy, Debug, PartialEq, Eq, Structural)]
pub struct NetworkPreset {
    pub offline: bool,
    pub latency: i64,
    pub download: i64,
    pub upload: i64,
}

/// The conditions of a named preset; unknown names lift every limit.
pub open spec fn preset_of(name: Seq<char>) -> NetworkPreset {
    if name == "Offline"@ {
        NetworkPreset { offline: true, latency: 0, download: 0, upload: 0 }
    } else if name == "Slow 3G"@ {
        NetworkPreset { offline: false, latency: 2000, download: 50000, upload: 50000 }
    } else if name == "Fast 3G"@ {
        NetworkPreset { offline: false, latency: 563, download: 180000, upload: 84375 }
    } else {
        NetworkPreset { offline: false, latency: 0, download: -1i64, upload: -1i64 }
    }
}

/// The conditions of a named network preset.
pub fn network_preset(name: &str) -> (r: NetworkPreset)
    ensures
        r == preset_of(name@),
{
    if str_eq(name, "Offline") {
        NetworkPreset { offline: true, latency: 0, download: 0, upload: 0 }
    } else if str_eq(name, "Slow 3G") {
        NetworkPreset { offline: false, latency: 2000, download: 50000, upload: 50000 }
    } else if str_eq(name, "Fast 3G") {
        NetworkPreset { offline: false, latency: 563, download: 180000, upload: 84375 }
    } else {
        NetworkPreset { offline: false, latency: 0, download: -1, upload: -1 }
    }
}

/// How much longer waits last under the network conditions of a page.
pub open spec fn multiplier_of(conditions: Option<Seq<char>>) -> u32 {
    match conditions {
        Some(c) => if c == "Slow 3G"@ {
            5
        } else if c == "Fast 3G"@ {
            3
        } else if c == "Slow 4G"@ {
            2
        } else {
            1
        },
        None => 1,
    }
}

/// The factor by which waits are lengthened under network throttling.
pub fn network_multiplier(conditions: Option<&str>) -> (r: u32)
    ensures
        r == multiplier_of(
            match conditions {
                Some(c) => Some(c@),
                None => None,
            },
        ),
{
    match conditions {
        Some(c) => {
            if str_eq(c, "Slow 3G") {
                5
            } else if str_eq(c, "Fast 3G") {
                3
            } else if str_eq(c, "Slow 4G") {
                2
            } else {
                1
            }
        },
        None => 1,
    }
}

/// The answer of `emulate`: what was applied, one item per line, or a
/// notice that nothing was asked for.
pub open spec fn emulation_text(applied: Seq<Seq<char>>) -> Seq<char> {
    if applied.len() == 0 {
        "No emulation parameters provided."@
    } else {
        "Applied emulation:\n"@ + join_seq(applied, "\n"@)
    }
}

/// Renders the answer of `emulate`.
pub fn emulation_summary(applied: &Vec<String>) -> (r: String)
    ensures
        r@ == emulation_text(views_of(applied@)),
{
    if applied.len() == 0 {
        owned("No emulation parameters provided.")
    } else {
        let mut out = owned("Applied emulation:\n");
        push_str(&mut out, join_strings(applied, "\n").as_str());
        out
    }
}

// ---------------------------------------------------------------------------
// Listings and lookups
// ---------------------------------------------------------------------------

/// The lines listing installed extensions.
pub open spec fn extension_lines(exts: Seq<&InstalledExtension>) -> Seq<char>
    decreases exts.len(),
{
    if exts.len() == 0 {
        Seq::empty()
    } else {
        let e = exts.last();
        extension_lines(exts.drop_last()) + "- "@ + e.name@ + " (v"@ + e.version@ + ") ["@ + e.id@
            + "]\n"@
    }
}

/// The answer of `list_extensions`.
pub open spec fn extension_list_text(exts: Seq<&InstalledExtension>) -> Seq<char> {
    if exts.len() == 0 {
        "No extensions installed."@
    } else {
        extension_lines(exts)
    }
}

/// Renders the list of installed extensions.
pub fn format_extension_list(exts: &Vec<&InstalledExtension>) -> (r: String)
    ensures
        r@ == extension_list_text(exts@),
{
    if exts.len() == 0 {
        return owned("No extensions installed.");
    }
    let mut out = String::new();
    let mut i: usize = 0;
    while i < exts.len()
        invariant
            i <= exts@.len(),
            out@ == extension_lines(exts@.take(i as int)),
        decreases exts@.len() - i,
    {
        assert(exts@.take(i + 1).drop_last() =~= exts@.take(i as int));
        push_str(&mut out, "- ");
        push_str(&mut out, exts[i].name.as_str());
        push_str(&mut out, " (v");
        push_str(&mut out, exts[i].version.as_str());
        push_str(&mut out, ") [");
        push_str(&mut out, exts[i].id.as_str());
        push_str(&mut out, "]\n");
        i = i + 1;
        assert(out@ =~= extension_lines(exts@.take(i as int)));
    }
    assert(exts@.take(exts@.len() as int) =~= exts@);
    out
}

/// The answer of `get_console_message`: the message at `index`, or a
/// notice that there is none.
pub fn console_message_at(messages: &[JsonValue], index: usize) -> (r: String)
    ensures
        r@ == if index < messages@.len() {
            console_text(messages@[index as int].model(), index as nat)
        } else {
            "Message at index "@ + decimal(index as nat) + " not found"@
        },
{
    if index < messages.len() {
        format_console_message(&messages[index], index)
    } else {
        let mut out = owned("Message at index ");
        push_u64(&mut out, index as u64);
        push_str(&mut out, " not found");
        out
    }
}

/// The text shown when a request index is out of range.
pub open spec fn missing_request_text(index: nat) -> Seq<char> {
    "Request at index "@ + decimal(index) + " not found"@
}

/// The missing-request notice of `get_network_request`.
pub fn missing_request(index: usize) -> (r: String)
    ensures
        r@ == missing_request_text(index as nat),
{
    let mut out = owned("Request at index ");
    push_u64(&mut out, index as u64);
    push_str(&mut out, " not found");
    out
}

/// The answer of `handle_dialog` once the dialog was handled.
pub fn dialog_outcome(accept: bool) -> (r: &'static str)
    ensures
        r@ == (if accept {
            "Dialog accepted."@
        } else {
            "Dialog dismissed."@
        }),
{
    if accept {
        "Dialog accepted."
    } else {
        "Dialog dismissed."
    }
}

// ---------------------------------------------------------------------------
// Lighthouse and waiting
// ---------------------------------------------------------------------------

/// The arguments the lighthouse command line gets.
pub open spec fn lighthouse_args_of(url: Seq<char>, categories: Seq<Seq<char>>) -> Seq<Seq<char>> {
    seq![url, "--output=json"@, "--quiet"@, "--chrome-flags=--headless"@] + if categories.len()
        == 0 {
        Seq::<Seq<char>>::empty()
    } else {
        seq!["--only-categories="@ + join_seq(categories, ","@)]
    }
}

/// Builds the arguments of the lighthouse command line.
pub fn lighthouse_args(url: &str, categories: &Vec<String>) -> (r: Vec<String>)
    ensures
        views_of(r@) == lighthouse_args_of(url@, views_of(categories@)),
{
    let mut args: Vec<String> = Vec::new();
    args.push(owned(url));
    args.push(owned("--output=json"));
    args.push(owned("--quiet"));
    args.push(owned("--chrome-flags=--headless"));
    if categories.len() > 0 {
        let mut a = owned("--only-categories=");
        push_str(&mut a, join_strings(categories, ",").as_str());
        args.push(a);
    }
    assert(views_of(args@) =~= lighthouse_args_of(url@, views_of(categories@)));
    args
}

/// The page-side check that one text is shown.
pub open spec fn text_check(t: Seq<char>) -> Seq<char> {
    "document.body && document.body.innerText.includes("@ + quoted(t) + ")"@
}

/// The checks of a list of texts, joined by ` || `.
pub open spec fn wait_check(texts: Seq<Seq<char>>) -> Seq<char> {
    join_seq(texts.map_values(|t: Seq<char>| text_check(t)), " || "@)
}

/// The expression evaluated while waiting for any of the texts to appear.
pub fn wait_expression(texts: &Vec<String>) -> (r: String)
    ensures
        r@ == wait_check(views_of(texts@)),
{
    let mut checks: Vec<String> = Vec::new();
    let mut i: usize = 0;
    while i < texts.len()
        invariant
            i <= texts@.len(),
            checks@.len() == i,
            forall|k: int| 0 <= k < i ==> #[trigger] checks@[k]@ == text_check(texts@[k]@),
        decreases texts@.len() - i,
    {
        let mut c = owned("document.body && document.body.innerText.includes(");
        push_quoted_json(&mut c, texts[i].as_str());
        push_str(&mut c, ")");
        checks.push(c);
        i = i + 1;
    }
    let r = join_strings(&checks, " || ");
    assert(views_of(checks@) =~= views_of(texts@).map_values(|t: Seq<char>| text_check(t)));
    r
}

} // verus!
