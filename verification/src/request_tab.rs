//! One request tab apart from its widgets: the sections and modes it can
//! show, the hints and notices it raises, its title, and the life of a
//! response from sending to the outcome.
use vstd::prelude::*;

use crate::model::{ContentKind, SplitDirection, ViewTier};
use crate::text::{
    eq_ignore_ascii_case, push_char, same_texts, sorted_set, str_eq_ignore_ascii_case, strictly_sorted, trim,
    trim_bounds,
};

verus! {

/// The request-side sub-tabs, in display order.
#[derive(Debug, Clone, Copy, PartialEq, Eq, Structural)]
pub enum RequestSection {
    Params,
    Headers,
    Body,
    Ops,
}

impl RequestSection {
    pub const ALL: [RequestSection; 4] = [
        RequestSection::Params,
        RequestSection::Headers,
        RequestSection::Body,
        RequestSection::Ops,
    ];

    /// Position in [`Self::ALL`].
    pub open spec fn spec_index(self) -> usize {
        match self {
            RequestSection::Params => 0,
            RequestSection::Headers => 1,
            RequestSection::Body => 2,
            RequestSection::Ops => 3,
        }
    }

    pub fn index(self) -> (ix: usize)
        ensures
            ix == self.spec_index(),
    {
        match self {
            RequestSection::Params => 0,
            RequestSection::Headers => 1,
            RequestSection::Body => 2,
            RequestSection::Ops => 3,
        }
    }

    /// The section at `ix`; out of range gives the first one.
    pub fn from_index(ix: usize) -> (s: RequestSection)
        ensures
            ix < 4 ==> s.spec_index() == ix,
            ix >= 4 ==> s == RequestSection::Params,
    {
        if ix < 4 {
            Self::ALL[ix]
        } else {
            RequestSection::Params
        }
    }
}

/// The response-side sub-tabs.
#[derive(Debug, Clone, Copy, PartialEq, Eq, Structural)]
pub enum ResponseSection {
    Body,
    Headers,
    Certificate,
    Ops,
}

impl ResponseSection {
    /// The sub-tabs that can be seen: the certificate only when a peer
    /// certificate was received, the operations only when the response
    /// carries a report of pre- or post-request operations.
    pub open spec fn spec_visible(has_certificate: bool, has_ops: bool) -> Seq<ResponseSection> {
        let base = seq![ResponseSection::Body, ResponseSection::Headers];
        let with_cert = if has_certificate {
            base.push(ResponseSection::Certificate)
        } else {
            base
        };
        if has_ops {
            with_cert.push(ResponseSection::Ops)
        } else {
            with_cert
        }
    }

    pub fn visible(has_certificate: bool, has_ops: bool) -> (v: Vec<ResponseSection>)
        ensures
            v@ == Self::spec_visible(has_certificate, has_ops),
    {
        let mut sections = vec![ResponseSection::Body, ResponseSection::Headers];
        if has_certificate {
            sections.push(ResponseSection::Certificate);
        }
        if has_ops {
            sections.push(ResponseSection::Ops);
        }
        sections
    }
}

/// The three views of a server-sent-events body, in segment order.
#[derive(Debug, Clone, Copy, PartialEq, Eq, Structural)]
pub enum SseBodyMode {
    /// The text assembled from a language-model stream's deltas (the
    /// default; falls back to `Events` when no text can be assembled).
    Text,
    /// One row per event (event name and data).
    Events,
    /// The raw `text/event-stream` text.
    Raw,
}

impl SseBodyMode {
    pub const ALL: [SseBodyMode; 3] = [SseBodyMode::Text, SseBodyMode::Events, SseBodyMode::Raw];

    pub open spec fn spec_index(self) -> usize {
        match self {
            SseBodyMode::Text => 0,
            SseBodyMode::Events => 1,
            SseBodyMode::Raw => 2,
        }
    }

    pub fn index(self) -> (ix: usize)
        ensures
            ix == self.spec_index(),
    {
        match self {
            SseBodyMode::Text => 0,
            SseBodyMode::Events => 1,
            SseBodyMode::Raw => 2,
        }
    }

    /// The mode at `ix`; out of range gives `Text`.
    pub fn from_index(ix: usize) -> (m: SseBodyMode)
        ensures
            ix < 3 ==> m.spec_index() == ix,
            ix >= 3 ==> m == SseBodyMode::Text,
    {
        if ix < 3 {
            Self::ALL[ix]
        } else {
            SseBodyMode::Text
        }
    }
}

/// The body modes, in the order of the mode bar.
#[derive(Debug, Clone, Copy, PartialEq, Eq, Structural)]
pub enum BodyMode {
    /// No body.
    NoBody,
    FormData,
    FormUrlEncoded,
    Raw,
    Binary,
}

impl BodyMode {
    pub const ALL: [BodyMode; 5] = [
        BodyMode::NoBody,
        BodyMode::FormData,
        BodyMode::FormUrlEncoded,
        BodyMode::Raw,
        BodyMode::Binary,
    ];

    pub open spec fn spec_index(self) -> usize {
        match self {
            BodyMode::NoBody => 0,
            BodyMode::FormData => 1,
            BodyMode::FormUrlEncoded => 2,
            BodyMode::Raw => 3,
            BodyMode::Binary => 4,
        }
    }

    pub fn index(self) -> (ix: usize)
        ensures
            ix == self.spec_index(),
    {
        match self {
            BodyMode::NoBody => 0,
            BodyMode::FormData => 1,
            BodyMode::FormUrlEncoded => 2,
            BodyMode::Raw => 3,
            BodyMode::Binary => 4,
        }
    }

    /// The mode at `ix`; out of range gives no body.
    pub fn from_index(ix: usize) -> (m: BodyMode)
        ensures
            ix < 5 ==> m.spec_index() == ix,
            ix >= 5 ==> m == BodyMode::NoBody,
    {
        if ix < 5 {
            Self::ALL[ix]
        } else {
            BodyMode::NoBody
        }
    }
}

/// Positions and modes agree: the mode at a position has that position.
pub proof fn lemma_body_mode_index_round_trip(m: BodyMode)
    ensures
        m.spec_index() < 5,
        BodyMode::ALL[m.spec_index() as int] == m,
{
}

/// Positions and sections agree: the section at a position has that position.
pub proof fn lemma_request_section_index_round_trip(s: RequestSection)
    ensures
        s.spec_index() < 4,
        RequestSection::ALL[s.spec_index() as int] == s,
{
}

/// Positions and views agree: the view at a position has that position.
pub proof fn lemma_sse_mode_index_round_trip(m: SseBodyMode)
    ensures
        m.spec_index() < 3,
        SseBodyMode::ALL[m.spec_index() as int] == m,
{
}

/// The formats of a raw text body, in the order of the format menu.
#[derive(Debug, Clone, Copy, PartialEq, Eq, Structural)]
pub enum RawFormat {
    Json,
    Text,
    Xml,
}

impl RawFormat {
    pub const ALL: [RawFormat; 3] = [RawFormat::Json, RawFormat::Text, RawFormat::Xml];
}

/// The body of a request as a draft stores it, as far as the tab's view
/// reads it: which kind, the format of a raw body and the file of a binary
/// one (an empty path means no file chosen). The texts and field tables go
/// to the editors.
#[derive(Debug, Clone, PartialEq, Eq)]
pub enum BodyKind {
    NoBody,
    Raw { format: RawFormat },
    FormData,
    FormUrlEncoded,
    Binary { path: String },
}

/// The body mode that shows a draft's body.
pub open spec fn body_mode_of(body: BodyKind) -> BodyMode {
    match body {
        BodyKind::NoBody => BodyMode::NoBody,
        BodyKind::Raw { .. } => BodyMode::Raw,
        BodyKind::FormData => BodyMode::FormData,
        BodyKind::FormUrlEncoded => BodyMode::FormUrlEncoded,
        BodyKind::Binary { .. } => BodyMode::Binary,
    }
}

/// The view choices of a request tab: which body mode and raw format, which
/// sub-tabs and views it shows, where its response pane sits, and the soft
/// wrap its request and response editors were last set to.
#[derive(Debug, Clone, Copy, PartialEq, Eq, Structural)]
pub struct TabView {
    pub body_mode: BodyMode,
    pub raw_format: RawFormat,
    pub request_section: RequestSection,
    pub response_section: ResponseSection,
    /// Show a JSON response pretty-printed.
    pub pretty: bool,
    pub sse_mode: SseBodyMode,
    pub split: SplitDirection,
    /// Soft wrap set on the request body editors.
    pub wrap_request: bool,
    /// Soft wrap set on the response body editors.
    pub wrap_response: bool,
}

impl TabView {
    /// A new tab: no body (a raw body would start as JSON), the parameters
    /// and the response body open, pretty-printing on, server-sent events
    /// as text, response below; its editors wrap as the settings say.
    pub fn new(wrap_request: bool, wrap_response: bool) -> (v: TabView)
        ensures
            v == (TabView {
                body_mode: BodyMode::NoBody,
                raw_format: RawFormat::Json,
                request_section: RequestSection::Params,
                response_section: ResponseSection::Body,
                pretty: true,
                sse_mode: SseBodyMode::Text,
                split: SplitDirection::Vertical,
                wrap_request,
                wrap_response,
            }),
    {
        TabView {
            body_mode: BodyMode::NoBody,
            raw_format: RawFormat::Json,
            request_section: RequestSection::Params,
            response_section: ResponseSection::Body,
            pretty: true,
            sse_mode: SseBodyMode::Text,
            split: SplitDirection::Vertical,
            wrap_request,
            wrap_response,
        }
    }

    /// The soft wrap set on the editors, `(request, response)`.
    pub fn applied_wrap(&self) -> (w: (bool, bool))
        ensures
            w == (self.wrap_request, self.wrap_response),
    {
        (self.wrap_request, self.wrap_response)
    }

    /// Brings the editors to the wrap preference `(wanted_request,
    /// wanted_response)`. Returns which editor groups must be re-wrapped,
    /// `(request, response)`: those whose setting differs; nothing else
    /// changes.
    pub fn sync_wrap(&mut self, wanted_request: bool, wanted_response: bool) -> (r: (bool, bool))
        ensures
            r == (wanted_request != old(self).wrap_request, wanted_response
                != old(self).wrap_response),
            *final(self) == (TabView {
                wrap_request: wanted_request,
                wrap_response: wanted_response,
                ..*old(self)
            }),
    {
        let r = (wanted_request != self.wrap_request, wanted_response != self.wrap_response);
        self.wrap_request = wanted_request;
        self.wrap_response = wanted_response;
        r
    }

    /// Shows a draft's body: its mode, and for a raw body its format (other
    /// kinds keep the format). Returns the file of a binary body, `None`
    /// for any other kind or when no file was chosen.
    pub fn load_body(&mut self, body: &BodyKind) -> (file: Option<String>)
        ensures
            *final(self) == loaded_view(*old(self), *body),
            file == loaded_file(*body),
    {
        match body {
            BodyKind::NoBody => {
                self.body_mode = BodyMode::NoBody;
                None
            },
            BodyKind::Raw { format } => {
                self.body_mode = BodyMode::Raw;
                self.raw_format = *format;
                None
            },
            BodyKind::FormData => {
                self.body_mode = BodyMode::FormData;
                None
            },
            BodyKind::FormUrlEncoded => {
                self.body_mode = BodyMode::FormUrlEncoded;
                None
            },
            BodyKind::Binary { path } => {
                self.body_mode = BodyMode::Binary;
                if path.as_str().unicode_len() == 0 {
                    None
                } else {
                    Some(path.clone())
                }
            },
        }
    }

    /// The body a draft of this tab stores: its mode, the raw format of a
    /// raw body, and the chosen `file` of a binary one (an empty path when
    /// none was chosen).
    pub fn body_kind(&self, file: &Option<String>) -> (k: BodyKind)
        ensures
            is_body_of(k, *self, *file),
    {
        match self.body_mode {
            BodyMode::NoBody => BodyKind::NoBody,
            BodyMode::Raw => BodyKind::Raw { format: self.raw_format },
            BodyMode::FormData => BodyKind::FormData,
            BodyMode::FormUrlEncoded => BodyKind::FormUrlEncoded,
            BodyMode::Binary => BodyKind::Binary {
                path: match file {
                    Some(f) => f.clone(),
                    None => String::new(),
                },
            },
        }
    }
}

/// The view after a draft's body was loaded into `v`.
pub open spec fn loaded_view(v: TabView, body: BodyKind) -> TabView {
    TabView {
        body_mode: body_mode_of(body),
        raw_format: match body {
            BodyKind::Raw { format } => format,
            _ => v.raw_format,
        },
        ..v
    }
}

/// The file a loaded body selects: a binary body's path unless it is empty.
pub open spec fn loaded_file(body: BodyKind) -> Option<String> {
    match body {
        BodyKind::Binary { path } => if path@.len() == 0 {
            None
        } else {
            Some(path)
        },
        _ => None,
    }
}

/// `k` is the body a draft of a tab with view `v` and chosen `file` stores.
pub open spec fn is_body_of(k: BodyKind, v: TabView, file: Option<String>) -> bool {
    match v.body_mode {
        BodyMode::NoBody => k == BodyKind::NoBody,
        BodyMode::Raw => k == BodyKind::Raw { format: v.raw_format },
        BodyMode::FormData => k == BodyKind::FormData,
        BodyMode::FormUrlEncoded => k == BodyKind::FormUrlEncoded,
        BodyMode::Binary => k matches BodyKind::Binary { path } && path@ == match file {
            Some(f) => f@,
            None => Seq::<char>::empty(),
        },
    }
}

/// Two bodies agree: the same kind, raw format and file path text.
pub open spec fn same_body(a: BodyKind, b: BodyKind) -> bool {
    match (a, b) {
        (BodyKind::Binary { path: p }, BodyKind::Binary { path: q }) => p@ == q@,
        (BodyKind::Binary { .. }, _) => false,
        (_, BodyKind::Binary { .. }) => false,
        _ => a == b,
    }
}

/// Loading a draft's body into a tab and taking the body back out gives the
/// same body, whatever the tab showed before.
pub proof fn lemma_load_body_round_trip(v: TabView, body: BodyKind, k: BodyKind)
    requires
        is_body_of(k, loaded_view(v, body), loaded_file(body)),
    ensures
        same_body(k, body),
{
    match body {
        BodyKind::Binary { path } => {
            if path@.len() == 0 {
                assert(path@ =~= Seq::<char>::empty());
            }
        },
        _ => {},
    }
}

/// A text body larger than this suggests sending a file instead (10 MiB).
pub const BODY_HINT_BYTES: usize = 10485760;

/// A non-blocking hint under the body editor; translated when shown.
#[derive(Debug, Clone, Copy, PartialEq, Eq, Structural)]
pub enum BodyHint {
    /// The raw text is larger than [`BODY_HINT_BYTES`].
    TooLarge,
    /// A form-data body with a user-set Content-Type (that header is dropped
    /// when sending).
    FormDataContentType,
    /// Formatting was asked for but the raw body is not valid JSON.
    InvalidJson,
}

/// The hint for a raw body of `len` bytes.
pub fn body_hint_for(len: usize) -> (h: Option<BodyHint>)
    ensures
        h == (if len > BODY_HINT_BYTES {
            Some(BodyHint::TooLarge)
        } else {
            None
        }),
{
    if len > BODY_HINT_BYTES {
        Some(BodyHint::TooLarge)
    } else {
        None
    }
}

/// The hint a body shows: the size hint in raw mode, the Content-Type
/// conflict in form-data mode, nothing otherwise.
pub fn body_hint(mode: BodyMode, raw_len: usize, has_user_content_type: bool) -> (h: Option<BodyHint>)
    ensures
        h == (match mode {
            BodyMode::Raw => if raw_len > BODY_HINT_BYTES {
                Some(BodyHint::TooLarge)
            } else {
                None
            },
            BodyMode::FormData => if has_user_content_type {
                Some(BodyHint::FormDataContentType)
            } else {
                None
            },
            _ => None,
        }),
{
    match mode {
        BodyMode::Raw => body_hint_for(raw_len),
        BodyMode::FormData => {
            if has_user_content_type {
                Some(BodyHint::FormDataContentType)
            } else {
                None
            }
        },
        _ => None,
    }
}

/// What the copy button copies.
#[derive(Debug, Clone, Copy, PartialEq, Eq, Structural)]
pub enum CopyTarget {
    Body,
    /// A spilled response: only the preview held in memory.
    BodyPreview,
    Headers,
}

/// A one-line notice on the response toolbar; translated when shown.
#[derive(Debug, Clone, PartialEq, Eq)]
pub enum Notice {
    /// Find on a line-virtualised or preview document (no editor).
    VirtualSearch,
    /// Find on the event list of a server-sent-events response.
    SseEventsSearch,
    NoResponse,
    BinarySearch,
    /// Find on an empty body.
    EmptyBodySearch,
    /// The body was saved to this path.
    SavedTo(String),
    /// Saving failed with this message.
    SaveFailed(String),
}

/// The extension suggested when a body of this kind is saved.
pub open spec fn file_extension_spec(kind: ContentKind) -> Seq<char> {
    match kind {
        ContentKind::Json => "json"@,
        ContentKind::Xml => "xml"@,
        ContentKind::Html => "html"@,
        ContentKind::Text => "txt"@,
        ContentKind::Binary => "bin"@,
    }
}

/// The extension suggested when a body of this kind is saved.
pub fn file_extension(kind: ContentKind) -> (e: &'static str)
    ensures
        e@ == file_extension_spec(kind),
{
    match kind {
        ContentKind::Json => "json",
        ContentKind::Xml => "xml",
        ContentKind::Html => "html",
        ContentKind::Text => "txt",
        ContentKind::Binary => "bin",
    }
}

/// The file name the save dialog suggests for a body of this kind:
/// `response.` and the kind's extension.
pub fn suggested_save_name(kind: ContentKind) -> (name: String)
    ensures
        name@ == "response."@ + file_extension_spec(kind),
{
    let ext = file_extension(kind);
    String::from_str("response.").concat(ext)
}

/// Which documents are prepared for a response body: the raw text (as a
/// preview of the head when the body was spilled to disk), the
/// pretty-printed text, and the server-sent-events view.
#[derive(Debug, Clone, Copy, PartialEq, Eq, Structural)]
pub struct DocPlan {
    pub raw: bool,
    pub raw_is_preview: bool,
    pub pretty: bool,
    pub sse: bool,
}

/// The documents prepared for a body of this kind: none for a binary
/// body; for a spilled body only a preview of its head; for a body in
/// memory the raw text, the pretty-printed text when it is JSON and the
/// event view when the response is server-sent events.
pub fn doc_plan(kind: ContentKind, in_memory: bool, is_sse: bool) -> (p: DocPlan)
    ensures
        kind == ContentKind::Binary ==> p == (DocPlan {
            raw: false,
            raw_is_preview: false,
            pretty: false,
            sse: false,
        }),
        kind != ContentKind::Binary && !in_memory ==> p == (DocPlan {
            raw: true,
            raw_is_preview: true,
            pretty: false,
            sse: false,
        }),
        kind != ContentKind::Binary && in_memory ==> p == (DocPlan {
            raw: true,
            raw_is_preview: false,
            pretty: kind == ContentKind::Json,
            sse: is_sse,
        }),
{
    match kind {
        ContentKind::Binary => DocPlan { raw: false, raw_is_preview: false, pretty: false, sse: false },
        _ => {
            if in_memory {
                let json = match kind {
                    ContentKind::Json => true,
                    _ => false,
                };
                DocPlan { raw: true, raw_is_preview: false, pretty: json, sse: is_sse }
            } else {
                DocPlan { raw: true, raw_is_preview: true, pretty: false, sse: false }
            }
        },
    }
}

/// The view actually shown for a server-sent-events body: `Text` falls back
/// to `Events` when the stream assembled no text.
pub open spec fn spec_effective_sse_mode(mode: SseBodyMode, has_text: bool) -> SseBodyMode {
    if mode == SseBodyMode::Text && !has_text {
        SseBodyMode::Events
    } else {
        mode
    }
}

pub fn effective_sse_mode(mode: SseBodyMode, has_text: bool) -> (m: SseBodyMode)
    ensures
        m == spec_effective_sse_mode(mode, has_text),
{
    if mode == SseBodyMode::Text && !has_text {
        SseBodyMode::Events
    } else {
        mode
    }
}

/// Which prepared document the body area shows.
#[derive(Debug, Clone, Copy, PartialEq, Eq, Structural)]
pub enum ShownDoc {
    /// The text assembled from a server-sent-events stream.
    SseText,
    /// The raw text of a server-sent-events stream.
    SseRaw,
    /// The event list: no document.
    SseEvents,
    /// An ordinary body: pretty-printed when asked for and available, raw otherwise.
    Body { pretty: bool },
}

/// The document a response shows: for server-sent events (`sse` is whether
/// the stream assembled text) the effective mode decides, otherwise the
/// pretty/raw switch.
pub fn shown_doc(sse: Option<bool>, mode: SseBodyMode, pretty: bool) -> (d: ShownDoc)
    ensures
        d == (match sse {
            Some(has_text) => match spec_effective_sse_mode(mode, has_text) {
                SseBodyMode::Text => ShownDoc::SseText,
                SseBodyMode::Raw => ShownDoc::SseRaw,
                SseBodyMode::Events => ShownDoc::SseEvents,
            },
            None => ShownDoc::Body { pretty },
        }),
{
    match sse {
        Some(has_text) => match effective_sse_mode(mode, has_text) {
            SseBodyMode::Text => ShownDoc::SseText,
            SseBodyMode::Raw => ShownDoc::SseRaw,
            SseBodyMode::Events => ShownDoc::SseEvents,
        },
        None => ShownDoc::Body { pretty },
    }
}

/// What the copy button copies for a finished response, given the open
/// section and the tier of the document on show (`None`: no document).
pub fn copy_target(section: ResponseSection, doc_tier: Option<ViewTier>) -> (t: Option<CopyTarget>)
    ensures
        t == (match section {
            ResponseSection::Body => match doc_tier {
                Some(ViewTier::Preview) => Some(CopyTarget::BodyPreview),
                Some(_) => Some(CopyTarget::Body),
                None => None,
            },
            ResponseSection::Headers => Some(CopyTarget::Headers),
            _ => None,
        }),
{
    match section {
        ResponseSection::Body => match doc_tier {
            Some(ViewTier::Preview) => Some(CopyTarget::BodyPreview),
            Some(_) => Some(CopyTarget::Body),
            None => None,
        },
        ResponseSection::Headers => Some(CopyTarget::Headers),
        _ => None,
    }
}

/// Whether the response body can wrap lines: only a document shown in the
/// editor tier (the other tiers are fixed-height rows).
pub fn response_wrap_available(done: bool, doc_tier: Option<ViewTier>) -> (r: bool)
    ensures
        r == (done && doc_tier == Some(ViewTier::Editor)),
{
    done && match doc_tier {
        Some(ViewTier::Editor) => true,
        _ => false,
    }
}

/// What find-in-response does.
#[derive(Debug, Clone, PartialEq, Eq)]
pub enum FindAction {
    /// Show this notice instead.
    Notify(Notice),
    /// Focus the response editor and open its search; `switched` when the
    /// body section had to be opened first.
    Search { switched: bool },
}

/// Find in the response: there must be a finished response (`doc` is
/// `None` when it has none), a document on show (not the event list of a
/// server-sent-events body, not a binary body), shown in the editor tier,
/// with at least one line.
pub fn find_action(
    done: bool,
    is_sse: bool,
    doc: Option<(ViewTier, usize)>,
    section: ResponseSection,
) -> (a: FindAction)
    ensures
        a == (if !done {
            FindAction::Notify(Notice::NoResponse)
        } else if is_sse && doc is None {
            FindAction::Notify(Notice::SseEventsSearch)
        } else if doc is None {
            FindAction::Notify(Notice::BinarySearch)
        } else if (doc->0).0 != ViewTier::Editor {
            FindAction::Notify(Notice::VirtualSearch)
        } else if (doc->0).1 == 0 {
            FindAction::Notify(Notice::EmptyBodySearch)
        } else {
            FindAction::Search { switched: section != ResponseSection::Body }
        }),
{
    if !done {
        return FindAction::Notify(Notice::NoResponse);
    }
    match doc {
        None => {
            if is_sse {
                FindAction::Notify(Notice::SseEventsSearch)
            } else {
                FindAction::Notify(Notice::BinarySearch)
            }
        },
        Some((tier, lines)) => {
            if tier != ViewTier::Editor {
                FindAction::Notify(Notice::VirtualSearch)
            } else if lines == 0 {
                FindAction::Notify(Notice::EmptyBodySearch)
            } else {
                FindAction::Search { switched: section != ResponseSection::Body }
            }
        },
    }
}

/// Index of the first `c` in `s`.
pub open spec fn first_index_of(s: Seq<char>, c: char) -> Option<int> {
    if exists|i: int| 0 <= i < s.len() && s[i] == c {
        Some(choose|i: int| 0 <= i < s.len() && s[i] == c && forall|j: int| 0 <= j < i ==> s[j] != c)
    } else {
        None
    }
}

/// `s` has `://` at `i`.
pub open spec fn scheme_sep_at(s: Seq<char>, i: int) -> bool {
    0 <= i && i + 3 <= s.len() && s[i] == ':' && s[i + 1] == '/' && s[i + 2] == '/'
}

/// Index of the first `://` in `s`.
#[verifier::opaque]
pub open spec fn first_scheme_sep(s: Seq<char>) -> Option<int> {
    if exists|i: int| scheme_sep_at(s, i) {
        Some(choose|i: int| scheme_sep_at(s, i) && forall|j: int| 0 <= j < i ==> !scheme_sep_at(s, j))
    } else {
        None
    }
}

/// A URL without its query: everything before the first `?`.
pub open spec fn before_query(s: Seq<char>) -> Seq<char> {
    match first_index_of(s, '?') {
        Some(i) => s.take(i),
        None => s,
    }
}

/// A URL without its scheme: everything after the first `://`.
pub open spec fn after_scheme(s: Seq<char>) -> Seq<char> {
    match first_scheme_sep(s) {
        Some(i) => s.skip(i + 3),
        None => s,
    }
}

/// A tab's title from its URL: the path when there is one, the host
/// otherwise, and `untitled` for an empty URL. The query is dropped before
/// the scheme, so a `://` inside the query is not taken for one.
pub open spec fn spec_tab_title(url: Seq<char>, untitled: Seq<char>) -> Seq<char> {
    let t = trim(url);
    if t.len() == 0 {
        untitled
    } else {
        let w = after_scheme(before_query(t));
        if w.len() == 0 {
            untitled
        } else {
            match first_index_of(w, '/') {
                Some(ix) => if ix + 1 < w.len() {
                    w.skip(ix)
                } else {
                    w.take(ix)
                },
                None => w,
            }
        }
    }
}

fn find_char(s: &str, c: char) -> (r: Option<usize>)
    ensures
        match r {
            Some(i) => first_index_of(s@, c) == Some(i as int) && i < s@.len() && s@[i as int] == c,
            None => first_index_of(s@, c) is None,
        },
{
    let n = s.unicode_len();
    let mut i: usize = 0;
    while i < n
        invariant
            n == s@.len(),
            i <= n,
            forall|j: int| 0 <= j < i ==> s@[j] != c,
        decreases n - i,
    {
        if s.get_char(i) == c {
            proof {
                let k = choose|k: int|
                    0 <= k < s@.len() && s@[k] == c && forall|j: int| 0 <= j < k ==> s@[j] != c;
                assert(k == i as int) by {
                    if k > i {
                        assert(s@[i as int] == c);
                    }
                }
            }
            return Some(i);
        }
        i = i + 1;
    }
    None
}

fn find_scheme_sep(s: &str) -> (r: Option<usize>)
    ensures
        match r {
            Some(i) => first_scheme_sep(s@) == Some(i as int) && i + 3 <= s@.len(),
            None => first_scheme_sep(s@) is None,
        },
{
    reveal(first_scheme_sep);
    let n = s.unicode_len();
    if n < 3 {
        return None;
    }
    let mut i: usize = 0;
    while i <= n - 3
        invariant
            n == s@.len(),
            n >= 3,
            i <= n - 2,
            forall|j: int| 0 <= j < i ==> !scheme_sep_at(s@, j),
        decreases n - i,
    {
        let c0 = s.get_char(i);
        let c1 = s.get_char(i + 1);
        let c2 = s.get_char(i + 2);
        if c0 == ':' && c1 == '/' && c2 == '/' {
            proof {
                reveal(first_scheme_sep);
                assert(scheme_sep_at(s@, i as int));
                let k = choose|k: int| scheme_sep_at(s@, k) && forall|j: int| 0 <= j < k ==> !scheme_sep_at(s@, j);
                assert(k == i as int) by {
                    if k > i {
                        assert(!scheme_sep_at(s@, i as int));
                    }
                }
            }
            return Some(i);
        }
        i = i + 1;
    }
    proof {
        reveal(first_scheme_sep);
    }
    None
}

fn strip_query(t: &str) -> (w: &str)
    ensures
        w@ == before_query(t@),
{
    match find_char(t, '?') {
        Some(i) => t.substring_char(0, i),
        None => t,
    }
}

fn strip_scheme(t: &str) -> (w: &str)
    ensures
        w@ == after_scheme(t@),
{
    let n = t.unicode_len();
    match find_scheme_sep(t) {
        Some(i) => {
            let r = t.substring_char(i + 3, n);
            assert(r@ =~= t@.skip(i + 3));
            r
        },
        None => t,
    }
}

/// What is left of a trimmed URL without its query and its scheme.
fn host_and_path(t: &str) -> (w: &str)
    ensures
        w@ == after_scheme(before_query(t@)),
{
    strip_scheme(strip_query(t))
}

/// The path of `w` from its first `/`, or the host when the path is only `/`.
fn path_or_host(w: &str) -> (r: String)
    ensures
        r@ == (match first_index_of(w@, '/') {
            Some(ix) => if ix + 1 < w@.len() {
                w@.skip(ix)
            } else {
                w@.take(ix)
            },
            None => w@,
        }),
{
    let n = w.unicode_len();
    match find_char(w, '/') {
        Some(ix) => {
            if ix + 1 < n {
                String::from_str(w.substring_char(ix, n))
            } else {
                String::from_str(w.substring_char(0, ix))
            }
        },
        None => String::from_str(w),
    }
}

/// The tab title for `url` (see [`spec_tab_title`]); `untitled` is the
/// label of a request without a URL.
pub fn tab_title(url: &str, untitled: &str) -> (r: String)
    ensures
        r@ == spec_tab_title(url@, untitled@),
{
    let (a, b) = trim_bounds(url);
    let t = url.substring_char(a, b);
    if t.unicode_len() == 0 {
        return String::from_str(untitled);
    }
    let w = host_and_path(t);
    if w.unicode_len() == 0 {
        return String::from_str(untitled);
    }
    path_or_host(w)
}

/// Why a request ended without a response.
#[derive(Debug, Clone, PartialEq, Eq)]
pub enum Failure<X> {
    /// The user cancelled it.
    Cancelled,
    /// It failed with this error (network, preparation).
    Error(X),
}

/// The operations report of a response: the results of the pre-request
/// operations, and the post-request report (`None`: no post-request
/// operation was enabled).
#[derive(Debug, Clone, PartialEq, Eq)]
pub struct OpsReport<A, P> {
    pub pre: Vec<A>,
    pub post: Option<P>,
}

/// The operations report of a failed request: the pre-request results, and
/// the post-request operations that were to run, each recorded as skipped
/// because the request failed.
#[derive(Debug, Clone, PartialEq, Eq)]
pub struct FailedOps<A, B> {
    pub pre: Vec<A>,
    pub skipped: Vec<B>,
}

/// Where a tab's response stands. `V` is the prepared response, `X` a
/// request error, `A` a pre-request operation's result, `B` a
/// post-request operation, `P` a post-request report.
pub enum ResponseState<V, X, A, B, P> {
    Idle,
    /// `sse`: the head said server-sent events, so the body is followed live;
    /// `live_bytes` of it were taken in, `event_count` events were parsed
    /// from it, and the first content delta arrived `first_delta` after
    /// sending (in the caller's time unit).
    InFlight {
        received: u64,
        total: Option<u64>,
        sse: bool,
        live_bytes: usize,
        event_count: usize,
        first_delta: Option<u64>,
    },
    /// `first_delta` is the time to the first content delta of a
    /// server-sent-events response, as seen while it streamed.
    Done { view: V, first_delta: Option<u64>, ops: Option<OpsReport<A, P>> },
    Failed { error: Failure<X>, ops: Option<FailedOps<A, B>> },
}

/// A prepared response: the view, whether it is a server-sent-events view,
/// and the post-request report (`None`: no post-request operation enabled).
pub struct Prepared<V, P> {
    pub view: V,
    pub sse: bool,
    pub report: Option<P>,
}

/// The live view of a server-sent-events body stops taking in chunks past
/// this many bytes (8 MiB); the finished response is prepared in full anyway.
pub const LIVE_CAP_BYTES: usize = 8388608;

/// A server-sent-events stream is being followed live.
pub open spec fn streams_live<V, X, A, B, P>(s: ResponseState<V, X, A, B, P>) -> bool {
    match s {
        ResponseState::InFlight { sse, .. } => sse,
        _ => false,
    }
}

/// The live view still takes in chunks: streaming, and under the cap.
pub open spec fn takes_chunks<V, X, A, B, P>(s: ResponseState<V, X, A, B, P>) -> bool {
    match s {
        ResponseState::InFlight { sse, live_bytes, .. } => sse && live_bytes < LIVE_CAP_BYTES,
        _ => false,
    }
}

/// A tab's response over time. Every send, cancel and clear starts a new
/// generation; background work reports back with the generation it was
/// started in, and a report from an older generation is dropped, so a
/// stale response never overwrites a newer state. Between a send and its
/// outcome the flow holds the pre-request results and the post-request
/// operations of that send.
pub struct ResponseFlow<V, X, A, B, P> {
    generation: u64,
    state: ResponseState<V, X, A, B, P>,
    pre_results: Vec<A>,
    sent_post_ops: Vec<B>,
    prepare_error: Option<X>,
    /// Names of the `{{var}}` placeholders the last send could not resolve,
    /// as a sorted set.
    unresolved: Vec<String>,
    notice: Option<Notice>,
    section: ResponseSection,
}

/// The report kept with a response: only when some pre-request operation
/// ran or a post-request report came back.
pub open spec fn done_ops<A, P>(pre: Seq<A>, report: Option<P>) -> bool {
    pre.len() > 0 || report is Some
}

/// A finished response reports its operations whenever any ran: the
/// results of the pre-request operations are kept even without a
/// post-request report, a post-request report is kept even when no
/// pre-request operation ran, and a response reports nothing only when no
/// operation ran at all.
pub proof fn lemma_ran_operations_are_reported<A, P>(pre: Seq<A>, report: Option<P>)
    ensures
        pre.len() > 0 ==> done_ops(pre, report),
        report is Some ==> done_ops(pre, report),
        pre.len() == 0 && report is None ==> !done_ops(pre, report),
{
}

/// The report kept with a failure: only when some pre-request operation
/// ran or post-request operations were to run.
pub open spec fn failed_ops<A, B>(pre: Seq<A>, post: Seq<B>) -> bool {
    pre.len() > 0 || post.len() > 0
}

/// A failed request reports the operations of its send whenever any were
/// involved: the pre-request results that ran, and the post-request
/// operations that were to run (marked skipped); with neither there is
/// nothing to report.
pub proof fn lemma_failures_report_their_operations<A, B>(pre: Seq<A>, post: Seq<B>)
    ensures
        pre.len() > 0 ==> failed_ops(pre, post),
        post.len() > 0 ==> failed_ops(pre, post),
        pre.len() == 0 && post.len() == 0 ==> !failed_ops(pre, post),
{
}

impl<V, X, A, B, P> ResponseFlow<V, X, A, B, P> {
    pub closed spec fn spec_generation(&self) -> u64 {
        self.generation
    }

    pub closed spec fn spec_state(&self) -> ResponseState<V, X, A, B, P> {
        self.state
    }

    pub closed spec fn spec_pre_results(&self) -> Seq<A> {
        self.pre_results@
    }

    pub closed spec fn spec_sent_post_ops(&self) -> Seq<B> {
        self.sent_post_ops@
    }

    pub closed spec fn spec_prepare_error(&self) -> Option<X> {
        self.prepare_error
    }

    pub closed spec fn spec_unresolved(&self) -> Seq<String> {
        self.unresolved@
    }

    pub closed spec fn spec_notice(&self) -> Option<Notice> {
        self.notice
    }

    pub closed spec fn spec_section(&self) -> ResponseSection {
        self.section
    }

    /// Nothing sent yet.
    pub fn new() -> (f: Self)
        ensures
            f.spec_generation() == 0,
            f.spec_state() is Idle,
            f.spec_pre_results().len() == 0,
            f.spec_sent_post_ops().len() == 0,
            f.spec_prepare_error() is None,
            f.spec_unresolved().len() == 0,
            f.spec_notice() is None,
            f.spec_section() == ResponseSection::Body,
    {
        ResponseFlow {
            generation: 0,
            state: ResponseState::Idle,
            pre_results: Vec::new(),
            sent_post_ops: Vec::new(),
            prepare_error: None,
            unresolved: Vec::new(),
            notice: None,
            section: ResponseSection::Body,
        }
    }

    pub fn generation(&self) -> (g: u64)
        ensures
            g == self.spec_generation(),
    {
        self.generation
    }

    pub fn state(&self) -> (s: &ResponseState<V, X, A, B, P>)
        ensures
            *s == self.spec_state(),
    {
        &self.state
    }

    pub fn prepare_error(&self) -> (e: &Option<X>)
        ensures
            *e == self.spec_prepare_error(),
    {
        &self.prepare_error
    }

    /// The names of the variables the last send could not resolve, in
    /// increasing order, each once.
    pub fn unresolved(&self) -> (u: &Vec<String>)
        ensures
            u@ == self.spec_unresolved(),
    {
        &self.unresolved
    }

    pub fn notice(&self) -> (n: &Option<Notice>)
        ensures
            *n == self.spec_notice(),
    {
        &self.notice
    }

    pub fn section(&self) -> (s: ResponseSection)
        ensures
            s == self.spec_section(),
    {
        self.section
    }

    pub fn is_in_flight(&self) -> (b: bool)
        ensures
            b == self.spec_state() is InFlight,
    {
        match self.state {
            ResponseState::InFlight { .. } => true,
            _ => false,
        }
    }

    /// The operations report of the response on show: a finished response
    /// may carry one, a failure its own; nothing otherwise.
    pub fn has_ops_report(&self) -> (b: bool)
        ensures
            b == match self.spec_state() {
                ResponseState::Done { ops, .. } => ops is Some,
                ResponseState::Failed { ops, .. } => ops is Some,
                _ => false,
            },
    {
        match &self.state {
            ResponseState::Done { ops, .. } => ops.is_some(),
            ResponseState::Failed { ops, .. } => ops.is_some(),
            _ => false,
        }
    }

    /// Shows another response section.
    pub fn set_section(&mut self, section: ResponseSection)
        ensures
            final(self).spec_section() == section,
            final(self).spec_generation() == old(self).spec_generation(),
            final(self).spec_state() == old(self).spec_state(),
            final(self).spec_pre_results() == old(self).spec_pre_results(),
            final(self).spec_sent_post_ops() == old(self).spec_sent_post_ops(),
            final(self).spec_prepare_error() == old(self).spec_prepare_error(),
            final(self).spec_unresolved() == old(self).spec_unresolved(),
            final(self).spec_notice() == old(self).spec_notice(),
    {
        self.section = section;
    }

    /// A send that cannot go out (invalid URL, header or file): the error is
    /// shown under the URL bar together with the names of the variables that
    /// could not be resolved (kept as a sorted set), and the pre-request
    /// results of this attempt are dropped. While a request is in flight
    /// sending does nothing. Returns whether it was recorded.
    pub fn reject_send(&mut self, error: X, unresolved: Vec<String>) -> (recorded: bool)
        ensures
            recorded == !(old(self).spec_state() is InFlight),
            !recorded ==> *final(self) == *old(self),
            recorded ==> {
                &&& final(self).spec_prepare_error() == Some(error)
                &&& strictly_sorted(final(self).spec_unresolved())
                &&& same_texts(final(self).spec_unresolved(), unresolved@)
                &&& final(self).spec_pre_results().len() == 0
                &&& final(self).spec_sent_post_ops().len() == 0
                &&& final(self).spec_generation() == old(self).spec_generation()
                &&& final(self).spec_state() == old(self).spec_state()
                &&& final(self).spec_notice() == old(self).spec_notice()
                &&& final(self).spec_section() == old(self).spec_section()
            },
    {
        if self.is_in_flight() {
            return false;
        }
        self.pre_results = Vec::new();
        self.sent_post_ops = Vec::new();
        self.prepare_error = Some(error);
        self.unresolved = sorted_set(&unresolved);
        true
    }

    /// A send goes out with the results of its pre-request operations, the
    /// post-request operations to run on its response and the names of the
    /// variables that could not be resolved (shown under the URL bar, kept as
    /// a sorted set): a new generation begins, in flight with nothing
    /// received; the prepare error and the notice are cleared. A request
    /// already in flight makes this a no-op (`None`). Returns the new
    /// generation.
    pub fn begin(&mut self, pre_results: Vec<A>, post_ops: Vec<B>, unresolved: Vec<String>) -> (g: Option<
        u64,
    >)
        requires
            old(self).spec_generation() < u64::MAX,
        ensures
            old(self).spec_state() is InFlight ==> g is None && *final(self) == *old(self),
            !(old(self).spec_state() is InFlight) ==> {
                &&& g == Some(final(self).spec_generation())
                &&& final(self).spec_generation() == old(self).spec_generation() + 1
                &&& final(self).spec_state() == (ResponseState::<V, X, A, B, P>::InFlight {
                    received: 0,
                    total: None,
                    sse: false,
                    live_bytes: 0,
                    event_count: 0,
                    first_delta: None,
                })
                &&& final(self).spec_pre_results() == pre_results@
                &&& final(self).spec_sent_post_ops() == post_ops@
                &&& strictly_sorted(final(self).spec_unresolved())
                &&& same_texts(final(self).spec_unresolved(), unresolved@)
                &&& final(self).spec_prepare_error() is None
                &&& final(self).spec_notice() is None
                &&& final(self).spec_section() == old(self).spec_section()
            },
    {
        if self.is_in_flight() {
            return None;
        }
        self.pre_results = pre_results;
        self.sent_post_ops = post_ops;
        self.unresolved = sorted_set(&unresolved);
        self.prepare_error = None;
        self.notice = None;
        self.generation = self.generation + 1;
        self.state = ResponseState::InFlight {
            received: 0,
            total: None,
            sse: false,
            live_bytes: 0,
            event_count: 0,
            first_delta: None,
        };
        Some(self.generation)
    }

    /// The response head arrived for generation `g`: a server-sent-events
    /// head starts following the body live (nothing taken in yet); any other
    /// head changes nothing. Ignored unless `g` is current and a request is in
    /// flight. Returns whether it was taken.
    pub fn on_head(&mut self, g: u64, sse: bool) -> (applied: bool)
        ensures
            applied == (g == old(self).spec_generation() && old(self).spec_state() is InFlight),
            !applied || !sse ==> *final(self) == *old(self),
            applied && sse ==> (old(self).spec_state() matches ResponseState::InFlight {
                received,
                total,
                ..
            } && final(self).spec_state() == (ResponseState::<V, X, A, B, P>::InFlight {
                received,
                total,
                sse: true,
                live_bytes: 0,
                event_count: 0,
                first_delta: None,
            })),
            final(self).spec_generation() == old(self).spec_generation(),
            final(self).spec_pre_results() == old(self).spec_pre_results(),
            final(self).spec_sent_post_ops() == old(self).spec_sent_post_ops(),
            final(self).spec_prepare_error() == old(self).spec_prepare_error(),
            final(self).spec_unresolved() == old(self).spec_unresolved(),
            final(self).spec_notice() == old(self).spec_notice(),
            final(self).spec_section() == old(self).spec_section(),
    {
        if g != self.generation {
            return false;
        }
        match self.state {
            ResponseState::InFlight { received, total, .. } => {
                if sse {
                    self.state = ResponseState::InFlight {
                        received,
                        total,
                        sse: true,
                        live_bytes: 0,
                        event_count: 0,
                        first_delta: None,
                    };
                }
                true
            },
            _ => false,
        }
    }

    /// A body chunk of `len` bytes for generation `g`: the live view takes it
    /// in while the stream is server-sent events and under
    /// [`LIVE_CAP_BYTES`]. Returns whether it was taken in (the caller then
    /// parses it and reports each event with [`Self::on_event`]).
    pub fn on_chunk(&mut self, g: u64, len: usize) -> (taken: bool)
        ensures
            taken == (g == old(self).spec_generation() && takes_chunks(old(self).spec_state())),
            !taken ==> *final(self) == *old(self),
            taken ==> (old(self).spec_state() matches ResponseState::InFlight {
                received,
                total,
                live_bytes,
                event_count,
                first_delta,
                ..
            } && final(self).spec_state() == (ResponseState::<V, X, A, B, P>::InFlight {
                received,
                total,
                sse: true,
                live_bytes: if live_bytes + len > usize::MAX {
                    usize::MAX
                } else {
                    (live_bytes + len) as usize
                },
                event_count,
                first_delta,
            })),
            final(self).spec_generation() == old(self).spec_generation(),
            final(self).spec_pre_results() == old(self).spec_pre_results(),
            final(self).spec_sent_post_ops() == old(self).spec_sent_post_ops(),
            final(self).spec_prepare_error() == old(self).spec_prepare_error(),
            final(self).spec_unresolved() == old(self).spec_unresolved(),
            final(self).spec_notice() == old(self).spec_notice(),
            final(self).spec_section() == old(self).spec_section(),
    {
        if g != self.generation {
            return false;
        }
        match self.state {
            ResponseState::InFlight { received, total, sse, live_bytes, event_count, first_delta } => {
                if sse && live_bytes < LIVE_CAP_BYTES {
                    self.state = ResponseState::InFlight {
                        received,
                        total,
                        sse: true,
                        live_bytes: live_bytes.saturating_add(len),
                        event_count,
                        first_delta,
                    };
                    true
                } else {
                    false
                }
            },
            _ => false,
        }
    }

    /// An event parsed from a taken-in chunk of generation `g`, `elapsed`
    /// after sending: it is counted (the count saturates), and when it is
    /// the first one carrying content (`is_delta`) its time is remembered.
    /// Ignored unless `g` is current and a server-sent-events stream is in
    /// flight. Returns whether it was applied.
    pub fn on_event(&mut self, g: u64, is_delta: bool, elapsed: u64) -> (applied: bool)
        ensures
            applied == (g == old(self).spec_generation() && streams_live(old(self).spec_state())),
            !applied ==> *final(self) == *old(self),
            applied ==> (old(self).spec_state() matches ResponseState::InFlight {
                received,
                total,
                live_bytes,
                event_count,
                first_delta,
                ..
            } && final(self).spec_state() == (ResponseState::<V, X, A, B, P>::InFlight {
                received,
                total,
                sse: true,
                live_bytes,
                event_count: if event_count == usize::MAX {
                    event_count
                } else {
                    (event_count + 1) as usize
                },
                first_delta: if first_delta is None && is_delta {
                    Some(elapsed)
                } else {
                    first_delta
                },
            })),
            final(self).spec_generation() == old(self).spec_generation(),
            final(self).spec_pre_results() == old(self).spec_pre_results(),
            final(self).spec_sent_post_ops() == old(self).spec_sent_post_ops(),
            final(self).spec_prepare_error() == old(self).spec_prepare_error(),
            final(self).spec_unresolved() == old(self).spec_unresolved(),
            final(self).spec_notice() == old(self).spec_notice(),
            final(self).spec_section() == old(self).spec_section(),
    {
        if g != self.generation {
            return false;
        }
        match self.state {
            ResponseState::InFlight { received, total, sse, live_bytes, event_count, first_delta } => {
                if sse {
                    let first = match first_delta {
                        None if is_delta => Some(elapsed),
                        other => other,
                    };
                    self.state = ResponseState::InFlight {
                        received,
                        total,
                        sse: true,
                        live_bytes,
                        event_count: event_count.saturating_add(1),
                        first_delta: first,
                    };
                    true
                } else {
                    false
                }
            },
            _ => false,
        }
    }

    /// Download progress for generation `g`; ignored unless `g` is current
    /// and a request is in flight. Returns whether it was applied.
    pub fn on_progress(&mut self, g: u64, received: u64, total: Option<u64>) -> (applied: bool)
        ensures
            applied == (g == old(self).spec_generation() && old(self).spec_state() is InFlight),
            !applied ==> *final(self) == *old(self),
            applied ==> (old(self).spec_state() matches ResponseState::InFlight {
                sse,
                live_bytes,
                event_count,
                first_delta,
                ..
            } && final(self).spec_state() == (ResponseState::<V, X, A, B, P>::InFlight {
                received,
                total,
                sse,
                live_bytes,
                event_count,
                first_delta,
            })),
            final(self).spec_generation() == old(self).spec_generation(),
            final(self).spec_pre_results() == old(self).spec_pre_results(),
            final(self).spec_sent_post_ops() == old(self).spec_sent_post_ops(),
            final(self).spec_prepare_error() == old(self).spec_prepare_error(),
            final(self).spec_unresolved() == old(self).spec_unresolved(),
            final(self).spec_notice() == old(self).spec_notice(),
            final(self).spec_section() == old(self).spec_section(),
    {
        if g != self.generation {
            return false;
        }
        match self.state {
            ResponseState::InFlight { sse, live_bytes, event_count, first_delta, .. } => {
                self.state = ResponseState::InFlight { received, total, sse, live_bytes, event_count, first_delta };
                true
            },
            _ => false,
        }
    }

    /// The outcome of generation `g` arrives: a prepared response with its
    /// post-request report, or a failure. A server-sent-events view keeps the
    /// time to the first content delta seen while it streamed. An outcome of an older generation
    /// (cancelled, cleared or sent again since) is dropped and changes
    /// nothing. Otherwise the send's pre-request results and post-request
    /// operations are taken: a response becomes `Done`, with the body
    /// section open and an operations report when anything ran; a failure
    /// keeps the pre-request results and marks every post-request operation
    /// skipped, except on cancellation, which drops both. Returns whether it
    /// was applied.
    pub fn apply_outcome(&mut self, g: u64, outcome: Result<Prepared<V, P>, Failure<X>>) -> (applied: bool)
        ensures
            applied == (g == old(self).spec_generation()),
            !applied ==> *final(self) == *old(self),
            applied ==> {
                let pre = old(self).spec_pre_results();
                let post = old(self).spec_sent_post_ops();
                &&& final(self).spec_pre_results().len() == 0
                &&& final(self).spec_sent_post_ops().len() == 0
                &&& match outcome {
                    Ok(prepared) => {
                        &&& final(self).spec_state() matches ResponseState::Done { view: v, first_delta, ops }
                        &&& v == prepared.view
                        &&& first_delta == (if prepared.sse {
                            match old(self).spec_state() {
                                ResponseState::InFlight { sse: true, first_delta: t, .. } => t,
                                _ => None,
                            }
                        } else {
                            None
                        })
                        &&& (ops is Some <==> done_ops(pre, prepared.report))
                        &&& (ops matches Some(o) ==> o.pre@ == pre && o.post == prepared.report)
                        &&& (pre.len() > 0 ==> (ops matches Some(o) && o.pre@ == pre))
                        &&& final(self).spec_section() == ResponseSection::Body
                    },
                    Err(error) => {
                        &&& final(self).spec_state() matches ResponseState::Failed { error: e, ops }
                        &&& e == error
                        &&& (ops is Some <==> (error is Error && failed_ops(pre, post)))
                        &&& (ops matches Some(o) ==> o.pre@ == pre && o.skipped@ == post)
                        &&& final(self).spec_section() == old(self).spec_section()
                    },
                }
            },
            final(self).spec_generation() == old(self).spec_generation(),
            final(self).spec_prepare_error() == old(self).spec_prepare_error(),
            final(self).spec_unresolved() == old(self).spec_unresolved(),
            final(self).spec_notice() == old(self).spec_notice(),
    {
        if g != self.generation {
            return false;
        }
        let mut pre: Vec<A> = Vec::new();
        let mut post: Vec<B> = Vec::new();
        std::mem::swap(&mut pre, &mut self.pre_results);
        std::mem::swap(&mut post, &mut self.sent_post_ops);
        match outcome {
            Ok(prepared) => {
                let Prepared { view, sse, report } = prepared;
                let first_delta = if sse {
                    match self.state {
                        ResponseState::InFlight { sse: true, first_delta, .. } => first_delta,
                        _ => None,
                    }
                } else {
                    None
                };
                let keep = pre.len() > 0 || report.is_some();
                let ops = if keep {
                    Some(OpsReport { pre, post: report })
                } else {
                    None
                };
                self.state = ResponseState::Done { view, first_delta, ops };
                self.section = ResponseSection::Body;
            },
            Err(error) => {
                let ops = match error {
                    Failure::Cancelled => None,
                    Failure::Error(_) => {
                        if pre.len() > 0 || post.len() > 0 {
                            Some(FailedOps { pre, skipped: post })
                        } else {
                            None
                        }
                    },
                };
                self.state = ResponseState::Failed { error, ops };
            },
        }
        true
    }

    /// Cancels the request in flight: a new generation begins, so its late
    /// reports are dropped, and the tab shows it cancelled; the send's
    /// operation results are dropped with it. Without a request in flight
    /// nothing changes.
    pub fn cancel(&mut self) -> (cancelled: bool)
        requires
            old(self).spec_generation() < u64::MAX,
        ensures
            cancelled == old(self).spec_state() is InFlight,
            !cancelled ==> *final(self) == *old(self),
            cancelled ==> {
                &&& final(self).spec_generation() == old(self).spec_generation() + 1
                &&& final(self).spec_state() == (ResponseState::<V, X, A, B, P>::Failed {
                    error: Failure::Cancelled,
                    ops: None,
                })
                &&& final(self).spec_pre_results().len() == 0
                &&& final(self).spec_sent_post_ops().len() == 0
                &&& final(self).spec_prepare_error() == old(self).spec_prepare_error()
                &&& final(self).spec_unresolved() == old(self).spec_unresolved()
                &&& final(self).spec_notice() == old(self).spec_notice()
                &&& final(self).spec_section() == old(self).spec_section()
            },
    {
        if !self.is_in_flight() {
            return false;
        }
        self.generation = self.generation + 1;
        self.pre_results = Vec::new();
        self.sent_post_ops = Vec::new();
        self.state = ResponseState::Failed { error: Failure::Cancelled, ops: None };
        true
    }

    /// Clears the response back to "not sent": a new generation begins (so
    /// nothing in flight can write back), the send's operation results, the
    /// notice and the names of unresolved variables go, and the body section
    /// opens; the prepare error stays. Already idle, nothing changes.
    pub fn clear(&mut self) -> (cleared: bool)
        requires
            old(self).spec_generation() < u64::MAX,
        ensures
            cleared == !(old(self).spec_state() is Idle),
            !cleared ==> *final(self) == *old(self),
            cleared ==> {
                &&& final(self).spec_generation() == old(self).spec_generation() + 1
                &&& final(self).spec_state() is Idle
                &&& final(self).spec_pre_results().len() == 0
                &&& final(self).spec_sent_post_ops().len() == 0
                &&& final(self).spec_prepare_error() == old(self).spec_prepare_error()
                &&& final(self).spec_unresolved().len() == 0
                &&& final(self).spec_notice() is None
                &&& final(self).spec_section() == ResponseSection::Body
            },
    {
        match self.state {
            ResponseState::Idle => {
                return false;
            },
            _ => {},
        }
        self.generation = self.generation + 1;
        self.state = ResponseState::Idle;
        self.pre_results = Vec::new();
        self.sent_post_ops = Vec::new();
        self.notice = None;
        self.unresolved = Vec::new();
        self.section = ResponseSection::Body;
        true
    }

    /// The result of saving the body of generation `g` to a file; dropped
    /// when the request was sent again or cleared since, and refused unless
    /// a finished response is on show. Returns whether it was shown.
    pub fn report_save(&mut self, g: u64, result: Result<String, String>) -> (shown: bool)
        ensures
            shown == (g == old(self).spec_generation() && old(self).spec_state() is Done),
            !shown ==> *final(self) == *old(self),
            shown ==> final(self).spec_notice() == Some(
                match result {
                    Ok(path) => Notice::SavedTo(path),
                    Err(message) => Notice::SaveFailed(message),
                },
            ),
            final(self).spec_generation() == old(self).spec_generation(),
            final(self).spec_state() == old(self).spec_state(),
            final(self).spec_pre_results() == old(self).spec_pre_results(),
            final(self).spec_sent_post_ops() == old(self).spec_sent_post_ops(),
            final(self).spec_prepare_error() == old(self).spec_prepare_error(),
            final(self).spec_unresolved() == old(self).spec_unresolved(),
            final(self).spec_section() == old(self).spec_section(),
    {
        if g != self.generation || self.save_generation().is_none() {
            return false;
        }
        self.notice = Some(
            match result {
                Ok(path) => Notice::SavedTo(path),
                Err(message) => Notice::SaveFailed(message),
            },
        );
        true
    }

    /// The request was edited (its URL changed, or a draft was loaded into
    /// the tab): the prepare error and the unresolved names of the last send
    /// describe the old request and go; nothing else changes.
    pub fn clear_send_hints(&mut self)
        ensures
            final(self).spec_prepare_error() is None,
            final(self).spec_unresolved().len() == 0,
            final(self).spec_generation() == old(self).spec_generation(),
            final(self).spec_state() == old(self).spec_state(),
            final(self).spec_pre_results() == old(self).spec_pre_results(),
            final(self).spec_sent_post_ops() == old(self).spec_sent_post_ops(),
            final(self).spec_notice() == old(self).spec_notice(),
            final(self).spec_section() == old(self).spec_section(),
    {
        self.prepare_error = None;
        self.unresolved = Vec::new();
    }

    /// Whether the body may be saved to a file: only a finished response
    /// has one, so the save dialog opens only then. Gives the generation
    /// whose result [`Self::report_save`] later shows, `None` otherwise.
    pub fn save_generation(&self) -> (g: Option<u64>)
        ensures
            g == (if self.spec_state() is Done {
                Some(self.spec_generation())
            } else {
                None
            }),
    {
        match &self.state {
            ResponseState::Done { .. } => Some(self.generation),
            _ => None,
        }
    }

    /// Carries out a find-in-response decision: a notice is shown, or the
    /// body section opens with the notice cleared for the editor's search.
    pub fn apply_find(&mut self, action: FindAction)
        ensures
            match action {
                FindAction::Notify(n) => final(self).spec_notice() == Some(n) && final(self).spec_section()
                    == old(self).spec_section(),
                FindAction::Search { .. } => final(self).spec_notice() is None && final(self).spec_section()
                    == ResponseSection::Body,
            },
            final(self).spec_generation() == old(self).spec_generation(),
            final(self).spec_state() == old(self).spec_state(),
            final(self).spec_pre_results() == old(self).spec_pre_results(),
            final(self).spec_sent_post_ops() == old(self).spec_sent_post_ops(),
            final(self).spec_prepare_error() == old(self).spec_prepare_error(),
            final(self).spec_unresolved() == old(self).spec_unresolved(),
    {
        match action {
            FindAction::Notify(n) => {
                self.notice = Some(n);
            },
            FindAction::Search { .. } => {
                self.section = ResponseSection::Body;
                self.notice = None;
            },
        }
    }
}



/// A tab's title: the saved request's name when it mirrors one, otherwise
/// the title from its URL.
pub fn display_title(saved_name: &Option<String>, url: &str, untitled: &str) -> (r: String)
    ensures
        r@ == (match saved_name {
            Some(n) => n@,
            None => spec_tab_title(url@, untitled@),
        }),
{
    match saved_name {
        Some(n) => n.clone(),
        None => tab_title(url, untitled),
    }
}

/// An enabled header row whose name, trimmed, is `Content-Type` in any case.
pub open spec fn is_user_content_type(key: Seq<char>, enabled: bool) -> bool {
    enabled && eq_ignore_ascii_case(trim(key), "content-type"@)
}

/// Whether the request headers set a Content-Type themselves (form-data
/// drops it when sending). `headers` are `(name, enabled)` rows.
pub fn has_user_content_type(headers: &Vec<(String, bool)>) -> (r: bool)
    ensures
        r == exists|i: int| 0 <= i < headers@.len() && is_user_content_type(headers@[i].0@, headers@[i].1),
{
    let mut i: usize = 0;
    while i < headers.len()
        invariant
            i <= headers@.len(),
            forall|j: int| 0 <= j < i ==> !is_user_content_type(headers@[j].0@, headers@[j].1),
        decreases headers@.len() - i,
    {
        let (key, enabled) = &headers[i];
        if *enabled {
            let k = key.as_str();
            let (a, b) = trim_bounds(k);
            if str_eq_ignore_ascii_case(k.substring_char(a, b), "content-type") {
                assert(is_user_content_type(headers@[i as int].0@, headers@[i as int].1));
                return true;
            }
        }
        i = i + 1;
    }
    false
}

/// `Name: value` lines of the response headers, joined by line breaks.
pub open spec fn headers_text(rows: Seq<(String, String)>) -> Seq<char>
    decreases rows.len(),
{
    if rows.len() == 0 {
        Seq::empty()
    } else if rows.len() == 1 {
        rows[0].0@ + ": "@ + rows[0].1@
    } else {
        headers_text(rows.drop_last()) + seq!['\n'] + rows.last().0@ + ": "@ + rows.last().1@
    }
}

/// The text the copy button copies from the headers section.
pub fn copy_headers_text(rows: &Vec<(String, String)>) -> (r: String)
    ensures
        r@ == headers_text(rows@),
{
    let mut out = String::new();
    let mut i: usize = 0;
    assert(rows@.take(0) =~= Seq::<(String, String)>::empty());
    while i < rows.len()
        invariant
            i <= rows@.len(),
            out@ == headers_text(rows@.take(i as int)),
        decreases rows@.len() - i,
    {
        if i > 0 {
            push_char(&mut out, '\n');
        }
        let (name, value) = &rows[i];
        out.append(name.as_str());
        out.append(": ");
        out.append(value.as_str());
        proof {
            let t = rows@.take(i + 1);
            assert(t.drop_last() =~= rows@.take(i as int));
            assert(t.last() == rows@[i as int]);
        }
        i = i + 1;
    }
    assert(rows@.take(rows@.len() as int) =~= rows@);
    out
}

/// The document for the pretty/raw switch: pretty-printed when asked for
/// and available, raw otherwise.
pub fn pick_doc<'a, T>(pretty: &'a Option<T>, raw: &'a Option<T>, want_pretty: bool) -> (d: Option<&'a T>)
    ensures
        d == (if want_pretty && pretty is Some {
            Some(&pretty->0)
        } else {
            match raw {
                Some(r) => Some(r),
                None => None,
            }
        }),
{
    if want_pretty {
        match pretty {
            Some(p) => {
                return Some(p);
            },
            None => {},
        }
    }
    match raw {
        Some(r) => Some(r),
        None => None,
    }
}

} // verus!
