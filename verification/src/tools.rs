//! Tool metadata and results: categories, annotations, result content and
//! the response builder that assembles a tool's output.

use vstd::prelude::*;

use crate::text::{join_seq, join_strings, owned, views_of};

verus! {

// ---------------------------------------------------------------------------
// Categories and annotations
// ---------------------------------------------------------------------------

/// Categories for grouping and filtering tools.
#[derive(Clone, Copy, Debug, PartialEq, Eq, Hash, Structural)]
pub enum ToolCategory {
    Input,
    Navigation,
    Emulation,
    Performance,
    Network,
    Debugging,
    Extensions,
    InPage,
}

/// The snake_case name of a category.
pub open spec fn category_name(c: ToolCategory) -> Seq<char> {
    match c {
        ToolCategory::Input => "input"@,
        ToolCategory::Navigation => "navigation"@,
        ToolCategory::Emulation => "emulation"@,
        ToolCategory::Performance => "performance"@,
        ToolCategory::Network => "network"@,
        ToolCategory::Debugging => "debugging"@,
        ToolCategory::Extensions => "extensions"@,
        ToolCategory::InPage => "in_page"@,
    }
}

impl ToolCategory {
    /// The category's snake_case name.
    pub fn name(&self) -> (r: &'static str)
        ensures
            r@ == category_name(*self),
    {
        match self {
            ToolCategory::Input => "input",
            ToolCategory::Navigation => "navigation",
            ToolCategory::Emulation => "emulation",
            ToolCategory::Performance => "performance",
            ToolCategory::Network => "network",
            ToolCategory::Debugging => "debugging",
            ToolCategory::Extensions => "extensions",
            ToolCategory::InPage => "in_page",
        }
    }

    /// The category's snake_case name as a `String`.
    pub fn to_string(&self) -> (r: String)
        ensures
            r@ == category_name(*self),
    {
        owned(self.name())
    }
}

/// Annotations attached to a tool for filtering and metadata.
pub struct ToolAnnotations {
    pub category: ToolCategory,
    pub read_only_hint: bool,
    pub destructive_hint: bool,
    pub conditions: Vec<String>,
}

impl Default for ToolAnnotations {
    /// A read-only, non-destructive debugging tool with no conditions.
    fn default() -> (r: ToolAnnotations)
        ensures
            r.category == ToolCategory::Debugging,
            r.read_only_hint,
            !r.destructive_hint,
            r.conditions@.len() == 0,
    {
        ToolAnnotations {
            category: ToolCategory::Debugging,
            read_only_hint: true,
            destructive_hint: false,
            conditions: Vec::new(),
        }
    }
}

// ---------------------------------------------------------------------------
// Results
// ---------------------------------------------------------------------------

/// A content block in a tool result.
pub enum ToolContent {
    Text { text: String },
    Image { data: String, mime_type: String },
}

/// The view of a content block.
pub enum ContentModel {
    Text(Seq<char>),
    Image(Seq<char>, Seq<char>),
}

impl ToolContent {
    pub open spec fn model(self) -> ContentModel {
        match self {
            ToolContent::Text { text } => ContentModel::Text(text@),
            ToolContent::Image { data, mime_type } => ContentModel::Image(data@, mime_type@),
        }
    }
}

/// The views of a list of content blocks.
pub open spec fn contents(v: Seq<ToolContent>) -> Seq<ContentModel> {
    v.map_values(|c: ToolContent| c.model())
}

/// Result of a tool invocation.
pub struct ToolResult {
    pub content: Vec<ToolContent>,
    pub is_error: bool,
}

impl ToolResult {
    /// A successful result holding one text block.
    pub fn text(text: String) -> (r: ToolResult)
        ensures
            contents(r.content@) == seq![ContentModel::Text(text@)],
            !r.is_error,
    {
        let r = ToolResult { content: vec![ToolContent::Text { text }], is_error: false };
        assert(contents(r.content@) =~= seq![ContentModel::Text(text@)]);
        r
    }

    /// An error result holding one text block with the message.
    pub fn error(message: String) -> (r: ToolResult)
        ensures
            contents(r.content@) == seq![ContentModel::Text(message@)],
            r.is_error,
    {
        let r = ToolResult { content: vec![ToolContent::Text { text: message }], is_error: true };
        assert(contents(r.content@) =~= seq![ContentModel::Text(message@)]);
        r
    }

    /// The result with an image block appended.
    pub fn with_image(self, data: String, mime_type: String) -> (r: ToolResult)
        ensures
            contents(r.content@) == contents(self.content@).push(
                ContentModel::Image(data@, mime_type@),
            ),
            r.is_error == self.is_error,
    {
        let mut s = self;
        let ghost before = contents(s.content@);
        let ghost d = data@;
        let ghost m = mime_type@;
        s.content.push(ToolContent::Image { data, mime_type });
        assert(contents(s.content@) =~= before.push(ContentModel::Image(d, m)));
        s
    }
}

// ---------------------------------------------------------------------------
// Response builder
// ---------------------------------------------------------------------------

/// Builder for assembling tool responses.
pub struct McpResponse {
    text_parts: Vec<String>,
    images: Vec<(String, String)>,
    include_snapshot: bool,
    include_network: bool,
    include_console: bool,
}

/// The view of a response under construction.
pub struct ResponseModel {
    pub text_parts: Seq<Seq<char>>,
    pub images: Seq<(Seq<char>, Seq<char>)>,
    pub include_snapshot: bool,
    pub include_network: bool,
    pub include_console: bool,
}

impl View for McpResponse {
    type V = ResponseModel;

    closed spec fn view(&self) -> ResponseModel {
        ResponseModel {
            text_parts: views_of(self.text_parts@),
            images: self.images@.map_values(|p: (String, String)| (p.0@, p.1@)),
            include_snapshot: self.include_snapshot,
            include_network: self.include_network,
            include_console: self.include_console,
        }
    }
}

/// The content of a built response: the text parts joined by newlines (if
/// any), then the images in order; a lone `OK` text when there is neither.
pub open spec fn built_content(m: ResponseModel) -> Seq<ContentModel> {
    let texts = if m.text_parts.len() > 0 {
        seq![ContentModel::Text(join_seq(m.text_parts, "\n"@))]
    } else {
        Seq::empty()
    };
    let all = texts + m.images.map_values(|p: (Seq<char>, Seq<char>)| ContentModel::Image(p.0, p.1));
    if all.len() == 0 {
        seq![ContentModel::Text("OK"@)]
    } else {
        all
    }
}

impl McpResponse {
    /// An empty response that includes snapshot, network and console data.
    pub fn new() -> (r: McpResponse)
        ensures
            r@.text_parts.len() == 0,
            r@.images.len() == 0,
            r@.include_snapshot,
            r@.include_network,
            r@.include_console,
    {
        McpResponse {
            text_parts: Vec::new(),
            images: Vec::new(),
            include_snapshot: true,
            include_network: true,
            include_console: true,
        }
    }

    /// Add a text block to the response.
    pub fn add_text(&mut self, text: String)
        ensures
            final(self)@ == (ResponseModel {
                text_parts: old(self)@.text_parts.push(text@),
                ..old(self)@
            }),
    {
        self.text_parts.push(text);
        assert(self@.text_parts =~= old(self)@.text_parts.push(text@));
        assert(self@.images =~= old(self)@.images);
    }

    /// Add an image (base64 encoded) to the response.
    pub fn add_image(&mut self, data: String, mime_type: String)
        ensures
            final(self)@ == (ResponseModel {
                images: old(self)@.images.push((data@, mime_type@)),
                ..old(self)@
            }),
    {
        self.images.push((data, mime_type));
        assert(self@.images =~= old(self)@.images.push((data@, mime_type@)));
        assert(self@.text_parts =~= old(self)@.text_parts);
    }

    /// Control whether to include snapshot data.
    pub fn set_include_snapshot(&mut self, enabled: bool)
        ensures
            final(self)@ == (ResponseModel { include_snapshot: enabled, ..old(self)@ }),
    {
        self.include_snapshot = enabled;
        assert(self@.images =~= old(self)@.images);
        assert(self@.text_parts =~= old(self)@.text_parts);
    }

    /// Control whether to include network data.
    pub fn set_include_network(&mut self, enabled: bool)
        ensures
            final(self)@ == (ResponseModel { include_network: enabled, ..old(self)@ }),
    {
        self.include_network = enabled;
        assert(self@.images =~= old(self)@.images);
        assert(self@.text_parts =~= old(self)@.text_parts);
    }

    /// Control whether to include console data.
    pub fn set_include_console(&mut self, enabled: bool)
        ensures
            final(self)@ == (ResponseModel { include_console: enabled, ..old(self)@ }),
    {
        self.include_console = enabled;
        assert(self@.images =~= old(self)@.images);
        assert(self@.text_parts =~= old(self)@.text_parts);
    }

    /// Build the final tool result.
    pub fn build(self) -> (r: ToolResult)
        ensures
            contents(r.content@) == built_content(self@),
            !r.is_error,
    {
        let ghost m = self@;
        let McpResponse { text_parts, images, .. } = self;
        let mut content: Vec<ToolContent> = Vec::new();
        if text_parts.len() > 0 {
            let joined = join_strings(&text_parts, "\n");
            content.push(ToolContent::Text { text: joined });
        }
        let ghost texts = contents(content@);
        let mut i: usize = 0;
        while i < images.len()
            invariant
                i <= images@.len(),
                m.images == images@.map_values(|p: (String, String)| (p.0@, p.1@)),
                contents(content@) == texts + m.images.take(i as int).map_values(
                    |p: (Seq<char>, Seq<char>)| ContentModel::Image(p.0, p.1),
                ),
            decreases images@.len() - i,
        {
            let data = images[i].0.clone();
            let mime_type = images[i].1.clone();
            let ghost prev = contents(content@);
            content.push(ToolContent::Image { data, mime_type });
            assert(m.images.take(i + 1) =~= m.images.take(i as int).push(m.images[i as int]));
            assert(m.images[i as int] == (images@[i as int].0@, images@[i as int].1@));
            assert(contents(content@) =~= prev.push(ContentModel::Image(images@[i as int].0@, images@[i as int].1@)));
            i = i + 1;
            assert(contents(content@) =~= texts + m.images.take(i as int).map_values(
                |p: (Seq<char>, Seq<char>)| ContentModel::Image(p.0, p.1),
            ));
        }
        assert(m.images.take(images@.len() as int) =~= m.images);
        if content.len() == 0 {
            content.push(ToolContent::Text { text: owned("OK") });
            assert(contents(content@) =~= seq![ContentModel::Text("OK"@)]);
        }
        ToolResult { content, is_error: false }
    }
}

impl Default for McpResponse {
    fn default() -> (r: McpResponse)
        ensures
            r@.text_parts.len() == 0,
            r@.images.len() == 0,
            r@.include_snapshot,
            r@.include_network,
            r@.include_console,
    {
        McpResponse::new()
    }
}

/// A call on a response under construction.
pub enum ResponseCall {
    AddText(Seq<char>),
    AddImage(Seq<char>, Seq<char>),
    SetIncludeSnapshot(bool),
    SetIncludeNetwork(bool),
    SetIncludeConsole(bool),
}

/// The response after one call, as that call's contract gives it.
pub open spec fn after_call(m: ResponseModel, c: ResponseCall) -> ResponseModel {
    match c {
        ResponseCall::AddText(t) => ResponseModel { text_parts: m.text_parts.push(t), ..m },
        ResponseCall::AddImage(d, k) => ResponseModel { images: m.images.push((d, k)), ..m },
        ResponseCall::SetIncludeSnapshot(b) => ResponseModel { include_snapshot: b, ..m },
        ResponseCall::SetIncludeNetwork(b) => ResponseModel { include_network: b, ..m },
        ResponseCall::SetIncludeConsole(b) => ResponseModel { include_console: b, ..m },
    }
}

/// The response after a sequence of calls.
pub open spec fn after_calls(m: ResponseModel, cs: Seq<ResponseCall>) -> ResponseModel
    decreases cs.len(),
{
    if cs.len() == 0 {
        m
    } else {
        after_call(after_calls(m, cs.drop_last()), cs.last())
    }
}

/// The texts added by a sequence of calls, in order.
pub open spec fn texts_of(cs: Seq<ResponseCall>) -> Seq<Seq<char>>
    decreases cs.len(),
{
    if cs.len() == 0 {
        Seq::empty()
    } else {
        match cs.last() {
            ResponseCall::AddText(t) => texts_of(cs.drop_last()).push(t),
            _ => texts_of(cs.drop_last()),
        }
    }
}

/// The images added by a sequence of calls, in order.
pub open spec fn images_of(cs: Seq<ResponseCall>) -> Seq<(Seq<char>, Seq<char>)>
    decreases cs.len(),
{
    if cs.len() == 0 {
        Seq::empty()
    } else {
        match cs.last() {
            ResponseCall::AddImage(d, k) => images_of(cs.drop_last()).push((d, k)),
            _ => images_of(cs.drop_last()),
        }
    }
}

/// Building a new response after any sequence of calls gives the texts
/// added, joined by newlines (if any), then the images added, in order; a
/// lone `OK` text when nothing was added. The include settings change
/// nothing of the content.
pub proof fn law_build_after_calls(fresh: ResponseModel, cs: Seq<ResponseCall>)
    requires
        fresh.text_parts.len() == 0,
        fresh.images.len() == 0,
    ensures
        after_calls(fresh, cs).text_parts == texts_of(cs),
        after_calls(fresh, cs).images == images_of(cs),
        built_content(after_calls(fresh, cs)) == (if texts_of(cs).len() == 0 && images_of(cs).len()
            == 0 {
            seq![ContentModel::Text("OK"@)]
        } else {
            (if texts_of(cs).len() > 0 {
                seq![ContentModel::Text(join_seq(texts_of(cs), "\n"@))]
            } else {
                Seq::empty()
            }) + images_of(cs).map_values(
                |p: (Seq<char>, Seq<char>)| ContentModel::Image(p.0, p.1),
            )
        }),
    decreases cs.len(),
{
    if cs.len() == 0 {
        assert(fresh.text_parts =~= texts_of(cs));
        assert(fresh.images =~= images_of(cs));
    } else {
        law_build_after_calls(fresh, cs.drop_last());
    }
    let m = after_calls(fresh, cs);
    let texts = if m.text_parts.len() > 0 {
        seq![ContentModel::Text(join_seq(m.text_parts, "\n"@))]
    } else {
        Seq::empty()
    };
    let all = texts + m.images.map_values(
        |p: (Seq<char>, Seq<char>)| ContentModel::Image(p.0, p.1),
    );
    assert(all.len() == texts.len() + m.images.len());
}

} // verus!
