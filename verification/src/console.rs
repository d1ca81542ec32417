//! Console message formatter: renders `Runtime.consoleAPICalled` event
//! parameters as readable text with their stack traces.

use vstd::prelude::*;

use crate::json::{
    model_get, opt_array, opt_get, opt_str, str_or, u64_or_zero, JsonModel, JsonValue,
};
use crate::json_write::{json_text, to_json_text};
use crate::pagination::{can_paginate, info_text, page_count, page_items, page_start, paginate};
use crate::text::{chars_of, decimal, join_seq, join_strings, owned, push_char, push_chars_range, push_str, push_u64, views_of};

verus! {

// ---------------------------------------------------------------------------
// Specification
// ---------------------------------------------------------------------------

/// The part of a URL after its last `/` (the whole URL when it has none).
pub open spec fn last_segment(s: Seq<char>) -> Seq<char>
    decreases s.len(),
{
    if s.len() == 0 {
        s
    } else if s.last() == '/' {
        Seq::empty()
    } else {
        last_segment(s.drop_last()).push(s.last())
    }
}

/// The display text of one console argument (a CDP `RemoteObject`): its
/// `value` (strings as they are, other values as JSON text), else its
/// `description`, else its `unserializableValue`, else its `type`.
pub open spec fn arg_text(a: JsonModel) -> Seq<char> {
    match model_get(a, "value"@) {
        Some(v) => match v {
            JsonModel::String(s) => s,
            _ => json_text(v),
        },
        None => match opt_str(model_get(a, "description"@)) {
            Some(d) => d,
            None => match opt_str(model_get(a, "unserializableValue"@)) {
                Some(u) => u,
                None => str_or(model_get(a, "type"@), "undefined"@),
            },
        },
    }
}

/// The texts of a list of console arguments.
pub open spec fn arg_texts(args: Seq<JsonModel>) -> Seq<Seq<char>> {
    args.map_values(|a: JsonModel| arg_text(a))
}

/// The text of a console message: its arguments joined by spaces, or the
/// plain `text` field when there are none.
pub open spec fn message_text(msg: JsonModel) -> Seq<char> {
    match opt_array(model_get(msg, "args"@)) {
        Some(args) if args.len() > 0 => join_seq(arg_texts(args), " "@),
        _ => str_or(model_get(msg, "text"@), ""@),
    }
}

/// The top-level source location line, shown when `url` is a non-empty string.
pub open spec fn location_text(msg: JsonModel) -> Seq<char> {
    match opt_str(model_get(msg, "url"@)) {
        Some(u) => if u.len() > 0 {
            "\n  at ("@ + u + ":"@ + decimal(u64_or_zero(model_get(msg, "lineNumber"@)) as nat)
                + ":"@ + decimal(u64_or_zero(model_get(msg, "columnNumber"@)) as nat) + ")"@
        } else {
            Seq::empty()
        },
        None => Seq::empty(),
    }
}

/// Where a stack frame points: the file name of its URL (or `<unknown>`),
/// its line and its column.
pub open spec fn frame_location(f: JsonModel) -> Seq<char> {
    let url = str_or(model_get(f, "url"@), ""@);
    (if url.len() == 0 {
        "<unknown>"@
    } else {
        last_segment(url)
    }) + ":"@ + decimal(u64_or_zero(model_get(f, "lineNumber"@)) as nat) + ":"@ + decimal(
        u64_or_zero(model_get(f, "columnNumber"@)) as nat,
    )
}

/// The line for one stack frame.
pub open spec fn frame_text(f: JsonModel) -> Seq<char> {
    "\n  at "@ + str_or(model_get(f, "functionName"@), "<anonymous>"@) + " ("@ + frame_location(f)
        + ")"@
}

/// The lines for a list of stack frames, in order.
pub open spec fn frames_text(fs: Seq<JsonModel>) -> Seq<char>
    decreases fs.len(),
{
    if fs.len() == 0 {
        Seq::empty()
    } else {
        frames_text(fs.drop_last()) + frame_text(fs.last())
    }
}

/// The stack trace of a message, from `stackTrace.callFrames`.
pub open spec fn stack_text(msg: JsonModel) -> Seq<char> {
    match opt_array(opt_get(model_get(msg, "stackTrace"@), "callFrames"@)) {
        Some(fs) => frames_text(fs),
        None => Seq::empty(),
    }
}

/// The rendering of one console message shown at position `index`.
pub open spec fn console_text(msg: JsonModel, index: nat) -> Seq<char> {
    "["@ + decimal(index) + "] ["@ + str_or(model_get(msg, "type"@), "log"@) + "] "@
        + message_text(msg) + location_text(msg) + stack_text(msg)
}

/// The messages of a page, numbered from `first`, one per line.
pub open spec fn console_lines(msgs: Seq<JsonModel>, first: nat) -> Seq<char>
    decreases msgs.len(),
{
    if msgs.len() == 0 {
        Seq::empty()
    } else {
        console_lines(msgs.drop_last(), first) + console_text(msgs.last(), (first + msgs.len() - 1) as nat)
            + "\n"@
    }
}

/// The models of a list of values.
pub open spec fn models(v: Seq<JsonValue>) -> Seq<JsonModel> {
    v.map_values(|x: JsonValue| x.model())
}

/// A page of console messages under its pagination header.
pub open spec fn console_page_text(msgs: Seq<JsonModel>, page: nat, page_size: nat) -> Seq<char> {
    if msgs.len() == 0 {
        "No console messages."@
    } else {
        info_text(page, page_count(msgs.len(), page_size), msgs.len()) + "\n\n"@ + console_lines(
            page_items(msgs, page, page_size),
            page_start(page, page_size),
        )
    }
}

// ---------------------------------------------------------------------------
// Implementation
// ---------------------------------------------------------------------------

/// Shorten a URL to just the filename portion for stack traces.
pub fn shorten_url(url: &str) -> (r: String)
    ensures
        r@ == last_segment(url@),
{
    let cs = chars_of(url);
    let mut start: usize = 0;
    let mut i: usize = 0;
    while i < cs.len()
        invariant
            start <= i <= cs@.len(),
            last_segment(cs@.take(i as int)) == cs@.subrange(start as int, i as int),
        decreases cs@.len() - i,
    {
        assert(cs@.take(i + 1).drop_last() =~= cs@.take(i as int));
        if cs[i] == '/' {
            start = i + 1;
        }
        i = i + 1;
        assert(last_segment(cs@.take(i as int)) =~= cs@.subrange(start as int, i as int));
    }
    assert(cs@.take(cs@.len() as int) =~= cs@);
    let mut r = String::new();
    push_chars_range(&mut r, &cs, start, cs.len());
    assert(r@ =~= last_segment(url@));
    r
}

fn arg_display(arg: &JsonValue) -> (r: String)
    ensures
        r@ == arg_text(arg.model()),
{
    match arg.get("value") {
        Some(v) => match v {
            JsonValue::String(s) => s.clone(),
            _ => to_json_text(v),
        },
        None => {
            if let Some(d) = arg.get("description") {
                if let Some(s) = d.as_str() {
                    return owned(s);
                }
            }
            if let Some(u) = arg.get("unserializableValue") {
                if let Some(s) = u.as_str() {
                    return owned(s);
                }
            }
            arg.get_str_or("type", "undefined")
        },
    }
}

/// Extract the display text from a console message: the `args` array of
/// `Runtime.consoleAPICalled` joined by spaces, else the `text` field.
pub fn extract_message_text(msg: &JsonValue) -> (r: String)
    ensures
        r@ == message_text(msg.model()),
{
    if let Some(a) = msg.get("args") {
        if let Some(args) = a.as_array() {
            let ghost am = Seq::new(args@.len(), |i: int| args@[i].model());
            let mut parts: Vec<String> = Vec::new();
            let mut i: usize = 0;
            while i < args.len()
                invariant
                    i <= args@.len(),
                    parts@.len() == i,
                    forall|k: int| 0 <= k < i ==> #[trigger] parts@[k]@ == arg_text(args@[k].model()),
                decreases args@.len() - i,
            {
                let p = arg_display(&args[i]);
                parts.push(p);
                i = i + 1;
            }
            if parts.len() > 0 {
                let r = join_strings(&parts, " ");
                assert(views_of(parts@) =~= arg_texts(am));
                return r;
            }
        }
    }
    msg.get_str_or("text", "")
}

fn push_frame(out: &mut String, frame: &JsonValue)
    ensures
        final(out)@ == old(out)@ + frame_text(frame.model()),
{
    let ghost start = out@;
    let func = frame.get_str_or("functionName", "<anonymous>");
    let url = frame.get_str_or("url", "");
    let line = frame.get_u64_or_zero("lineNumber");
    let col = frame.get_u64_or_zero("columnNumber");
    push_str(out, "\n  at ");
    push_str(out, func.as_str());
    push_str(out, " (");
    let ghost mid = out@;
    if url.unicode_len() == 0 {
        push_str(out, "<unknown>");
    } else {
        let short = shorten_url(url.as_str());
        push_str(out, short.as_str());
    }
    push_str(out, ":");
    push_u64(out, line);
    push_str(out, ":");
    push_u64(out, col);
    assert(out@ =~= mid + frame_location(frame.model()));
    push_str(out, ")");
    assert(out@ =~= start + frame_text(frame.model()));
}

fn push_location(out: &mut String, msg: &JsonValue)
    ensures
        final(out)@ == old(out)@ + location_text(msg.model()),
{
    let ghost start = out@;
    if let Some(u) = msg.get("url") {
        if let Some(url) = u.as_str() {
            let line = msg.get_u64_or_zero("lineNumber");
            let col = msg.get_u64_or_zero("columnNumber");
            if url.unicode_len() > 0 {
                push_str(out, "\n  at (");
                push_str(out, url);
                push_str(out, ":");
                push_u64(out, line);
                push_str(out, ":");
                push_u64(out, col);
                push_str(out, ")");
                assert(out@ =~= start + location_text(msg.model()));
                return;
            }
        }
    }
    assert(out@ =~= start + location_text(msg.model()));
}

fn push_stack(out: &mut String, msg: &JsonValue)
    ensures
        final(out)@ == old(out)@ + stack_text(msg.model()),
{
    let ghost start = out@;
    if let Some(st) = msg.get("stackTrace") {
        if let Some(cf) = st.get("callFrames") {
            if let Some(frames) = cf.as_array() {
                let ghost fm = Seq::new(frames@.len(), |i: int| frames@[i].model());
                let mut i: usize = 0;
                while i < frames.len()
                    invariant
                        i <= frames@.len(),
                        fm.len() == frames@.len(),
                        forall|k: int| 0 <= k < frames@.len() ==> #[trigger] fm[k] == frames@[k].model(),
                        out@ == start + frames_text(fm.take(i as int)),
                    decreases frames@.len() - i,
                {
                    assert(fm.take(i + 1).drop_last() =~= fm.take(i as int));
                    push_frame(out, &frames[i]);
                    i = i + 1;
                    assert(out@ =~= start + frames_text(fm.take(i as int)));
                }
                assert(fm.take(frames@.len() as int) =~= fm);
                return;
            }
        }
    }
    assert(out@ =~= start + stack_text(msg.model()));
}

/// Format a single console message from a CDP `Runtime.consoleAPICalled`
/// event: `[index] [type] text`, then the source location and the stack
/// frames, one per line.
pub fn format_console_message(msg: &JsonValue, index: usize) -> (r: String)
    ensures
        r@ == console_text(msg.model(), index as nat),
{
    let msg_type = msg.get_str_or("type", "log");
    let text = extract_message_text(msg);
    let mut out = String::new();
    push_str(&mut out, "[");
    push_u64(&mut out, index as u64);
    push_str(&mut out, "] [");
    push_str(&mut out, msg_type.as_str());
    push_str(&mut out, "] ");
    push_str(&mut out, text.as_str());
    push_location(&mut out, msg);
    push_stack(&mut out, msg);
    assert(out@ =~= console_text(msg.model(), index as nat));
    out
}

/// Format a paginated list of console messages.
pub fn format_console_messages(messages: &[JsonValue], page: usize, page_size: usize) -> (r: String)
    requires
        can_paginate(messages@.len(), page as nat, page_size as nat),
    ensures
        r@ == console_page_text(models(messages@), page as nat, page_size as nat),
{
    if messages.len() == 0 {
        return owned("No console messages.");
    }
    let (items, info) = paginate(messages, page, page_size);
    let ghost first = page_start(page as nat, page_size as nat);
    let ghost all = models(messages@);
    let ghost shown = page_items(all, page as nat, page_size as nat);
    assert(shown =~= models(items@));
    let mut out = info.text();
    push_str(&mut out, "\n\n");
    let ghost head = out@;
    let base = info.page.saturating_sub(1) * info.page_size;
    assert(base == first);
    let mut i: usize = 0;
    while i < items.len()
        invariant
            i <= items@.len(),
            items@.len() <= page_size,
            base + page_size <= usize::MAX,
            base == first,
            shown == models(items@),
            out@ == head + console_lines(shown.take(i as int), first),
        decreases items@.len() - i,
    {
        assert(shown.take(i + 1).drop_last() =~= shown.take(i as int));
        assert(shown.take(i + 1).last() == items@[i as int].model());
        assert(shown.take(i + 1).len() == i + 1);
        let ghost prev = out@;
        let line = format_console_message(&items[i], base + i);
        push_str(&mut out, line.as_str());
        push_str(&mut out, "\n");
        assert(console_lines(shown.take(i + 1), first) == console_lines(shown.take(i as int), first)
            + console_text(items@[i as int].model(), (first + i) as nat) + "\n"@);
        assert(out@ == prev + console_text(items@[i as int].model(), (first + i) as nat) + "\n"@);
        i = i + 1;
        assert(out@ =~= head + console_lines(shown.take(i as int), first));
    }
    assert(shown.take(items@.len() as int) =~= shown);
    out
}

/// The stack trace lists the call frames in their given order, one line
/// per frame: the lines of two lists of frames one after the other are the
/// lines of the first list, then those of the second; a single frame's
/// lines are its own line.
pub proof fn law_frames_in_order(fs: Seq<JsonModel>, gs: Seq<JsonModel>)
    ensures
        frames_text(fs + gs) == frames_text(fs) + frames_text(gs),
        gs.len() == 1 ==> frames_text(gs) == frame_text(gs[0]),
    decreases gs.len(),
{
    if gs.len() == 0 {
        assert(fs + gs =~= fs);
        assert(frames_text(fs) + frames_text(gs) =~= frames_text(fs));
    } else {
        law_frames_in_order(fs, gs.drop_last());
        assert((fs + gs).drop_last() =~= fs + gs.drop_last());
        assert((fs + gs).last() == gs.last());
        if gs.len() == 1 {
            assert(gs.drop_last() =~= Seq::<JsonModel>::empty());
            assert(frames_text(gs) =~= frame_text(gs[0]));
        }
    }
}

/// A frame's line names its function (`<anonymous>` where it has none) and
/// starts on a new line with `  at `.
pub proof fn law_frame_line(f: JsonModel)
    ensures
        crate::text::starts_with_seq(
            frame_text(f),
            "\n  at "@ + str_or(model_get(f, "functionName"@), "<anonymous>"@),
        ),
{
    let p = "\n  at "@ + str_or(model_get(f, "functionName"@), "<anonymous>"@);
    assert(frame_text(f).subrange(0, p.len() as int) =~= p);
}

} // verus!
