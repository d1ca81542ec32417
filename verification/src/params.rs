//! Tool parameters as the server receives them, with their defaults.

use vstd::prelude::*;

use crate::text::owned;

verus! {

/// Parameters of `list_pages` (none).
#[derive(Debug, Default)]
pub struct ListPagesParams {}

/// Parameters of `select_page`.
#[derive(Debug)]
pub struct SelectPageParams {
    /// The page ID to select.
    pub page_id: u32,
}

/// Parameters of `new_page`.
#[derive(Debug, Default)]
pub struct NewPageParams {
    /// Optional URL to open in the new tab.
    pub url: Option<String>,
}

/// Parameters of `navigate_page`.
#[derive(Debug)]
pub struct NavigatePageParams {
    /// URL to navigate to, or "back", "forward", "reload".
    pub url: String,
}

/// Parameters of `close_page`.
#[derive(Debug)]
pub struct ClosePageParams {
    /// The page ID to close.
    pub page_id: u32,
}

/// Parameters of `wait_for`.
#[derive(Debug)]
pub struct WaitForParams {
    /// Text strings to wait for on the page.
    pub texts: Vec<String>,
    /// Timeout in milliseconds (default 30000).
    pub timeout_ms: u64,
}

/// The default wait timeout in milliseconds.
pub fn default_timeout() -> (r: u64)
    ensures
        r == 30000,
{
    30000
}

/// Parameters of `click`.
#[derive(Debug)]
pub struct ClickParams {
    /// UID of the element from the accessibility snapshot.
    pub uid: String,
}

/// Parameters of `drag`.
#[derive(Debug)]
pub struct DragParams {
    /// UID of the source element.
    pub from_uid: String,
    /// UID of the target element.
    pub to_uid: String,
}

/// Parameters of `fill`.
#[derive(Debug)]
pub struct FillParams {
    /// UID of the input/textarea/select element.
    pub uid: String,
    /// Value to fill.
    pub value: String,
}

/// Parameters of `fill_form`.
#[derive(Debug)]
pub struct FillFormParams {
    /// The fields to fill, with their values.
    pub fields: Vec<FormField>,
}

/// One field of `fill_form`.
#[derive(Debug)]
pub struct FormField {
    /// UID of the form field element.
    pub uid: String,
    /// Value to fill.
    pub value: String,
}

/// Parameters of `hover`.
#[derive(Debug)]
pub struct HoverParams {
    /// UID of the element to hover over.
    pub uid: String,
}

/// Parameters of `press_key`.
#[derive(Debug)]
pub struct PressKeyParams {
    /// Key combination, e.g. "Enter", "Control+a", "Shift+Tab".
    pub key: String,
}

/// Parameters of `type_text`.
#[derive(Debug)]
pub struct TypeTextParams {
    /// Text to type into the focused element.
    pub text: String,
}

/// Parameters of `upload_file`.
#[derive(Debug)]
pub struct UploadFileParams {
    /// UID of the file input element.
    pub uid: String,
    /// Absolute path(s) to file(s) to upload.
    pub files: Vec<String>,
}

/// Parameters of `evaluate_script`.
#[derive(Debug)]
pub struct EvaluateScriptParams {
    /// JavaScript expression to evaluate.
    pub expression: String,
}

/// Parameters of `take_screenshot`.
#[derive(Debug, Default)]
pub struct TakeScreenshotParams {
    /// Image format: "png", "jpeg", or "webp".
    pub format: String,
    /// Image quality (0-100) for JPEG/WebP.
    pub quality: Option<u32>,
    /// Capture full page.
    pub full_page: bool,
    /// UID of element to screenshot (element scope).
    pub uid: Option<String>,
}

/// The default screenshot format.
pub fn default_format() -> (r: String)
    ensures
        r@ == "png"@,
{
    owned("png")
}

/// Parameters of `take_snapshot`.
#[derive(Debug, Default)]
pub struct TakeSnapshotParams {
    /// Include verbose details.
    pub verbose: bool,
}

/// Parameters of `list_console_messages`.
#[derive(Debug, Default)]
pub struct ListConsoleMessagesParams {
    /// Page number (1-indexed).
    pub page: usize,
    /// Items per page.
    pub page_size: usize,
}

/// The default page number.
pub fn default_page_num() -> (r: usize)
    ensures
        r == 1,
{
    1
}

/// The default page size.
pub fn default_page_size() -> (r: usize)
    ensures
        r == 25,
{
    25
}

/// Parameters of `get_console_message`.
#[derive(Debug)]
pub struct GetConsoleMessageParams {
    /// Console message index.
    pub index: usize,
}

/// Parameters of `lighthouse_audit`.
#[derive(Debug, Default)]
pub struct LighthouseAuditParams {
    /// URL to audit (defaults to current page URL).
    pub url: Option<String>,
    /// Categories to audit (e.g., "performance", "accessibility").
    pub categories: Vec<String>,
}

/// Parameters of `list_network_requests`.
#[derive(Debug, Default)]
pub struct ListNetworkRequestsParams {
    /// Filter by URL pattern.
    pub url_filter: Option<String>,
    /// Filter by resource type.
    pub resource_type: Option<String>,
    /// Page number (1-indexed).
    pub page: usize,
    /// Items per page.
    pub page_size: usize,
}

/// Parameters of `get_network_request`.
#[derive(Debug)]
pub struct GetNetworkRequestParams {
    /// Request index in the current list.
    pub index: usize,
}

/// Parameters of `resize_page`.
#[derive(Debug)]
pub struct ResizePageParams {
    /// New width in pixels.
    pub width: u32,
    /// New height in pixels.
    pub height: u32,
}

/// Parameters of `performance_start_trace`.
#[derive(Debug, Default)]
pub struct PerformanceStartTraceParams {
    /// Trace categories (comma-separated).
    pub categories: Option<String>,
}

/// Parameters of `performance_stop_trace` (none).
#[derive(Debug, Default)]
pub struct PerformanceStopTraceParams {}

/// Parameters of `performance_analyze_insight`.
#[derive(Debug)]
pub struct PerformanceAnalyzeInsightParams {
    /// Index of the insight to analyze from the last trace.
    pub index: usize,
}

/// Parameters of `take_memory_snapshot` (none).
#[derive(Debug, Default)]
pub struct TakeMemorySnapshotParams {}

/// Parameters of `install_extension`.
#[derive(Debug)]
pub struct InstallExtensionParams {
    /// Path to unpacked extension directory.
    pub path: String,
}

/// Parameters of `uninstall_extension`.
#[derive(Debug)]
pub struct UninstallExtensionParams {
    /// Extension ID to uninstall.
    pub id: String,
}

/// Parameters of `list_extensions` (none).
#[derive(Debug, Default)]
pub struct ListExtensionsParams {}

/// Parameters of `reload_extension`.
#[derive(Debug)]
pub struct ReloadExtensionParams {
    /// Extension ID to reload.
    pub id: String,
}

/// Parameters of `trigger_extension_action`.
#[derive(Debug)]
pub struct TriggerExtensionActionParams {
    /// Extension ID.
    pub id: String,
}

/// Parameters of `handle_dialog`.
#[derive(Debug)]
pub struct HandleDialogParams {
    /// Whether to accept the dialog.
    pub accept: bool,
    /// Optional prompt text to enter.
    pub text: Option<String>,
}

/// Parameters of the slim server's `navigate_page`.
#[derive(Debug)]
pub struct SlimNavigateParams {
    /// URL to navigate to, or "back", "forward", "reload".
    pub url: String,
}

/// Parameters of the slim server's `evaluate_script`.
#[derive(Debug)]
pub struct SlimEvaluateParams {
    /// JavaScript expression to evaluate.
    pub expression: String,
}

/// Parameters of the slim server's `take_screenshot`.
#[derive(Debug, Default)]
pub struct SlimScreenshotParams {
    /// Image format: "png", "jpeg", or "webp".
    pub format: String,
}

} // verus!
