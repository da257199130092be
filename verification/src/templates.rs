//! Built-in request templates: one click gives a new tab with the URL, the
//! authentication headers and the JSON body filled in. Read-only; the
//! credentials are placeholders the user replaces.
use vstd::prelude::*;

use crate::model::Method;
use crate::text::{eq_ignore_ascii_case, str_eq};

verus! {

/// Template groups; the names are product names and are not translated.
#[derive(Debug, Clone, Copy, PartialEq, Eq, Structural)]
pub enum TemplateGroup {
    OpenAi,
    Anthropic,
    Mcp,
}

impl TemplateGroup {
    pub const ALL: [TemplateGroup; 3] = [
        TemplateGroup::OpenAi,
        TemplateGroup::Anthropic,
        TemplateGroup::Mcp,
    ];

    pub fn label(self) -> (l: &'static str)
        ensures
            l == (match self {
                TemplateGroup::OpenAi => "OpenAI",
                TemplateGroup::Anthropic => "Anthropic",
                TemplateGroup::Mcp => "MCP",
            }),
    {
        match self {
            TemplateGroup::OpenAi => "OpenAI",
            TemplateGroup::Anthropic => "Anthropic",
            TemplateGroup::Mcp => "MCP",
        }
    }
}

/// The row subtitle: for model APIs plain text, with an image, or
/// streamed; for MCP the stateless protocol or the session-based one.
#[derive(Debug, Clone, Copy, PartialEq, Eq, Structural)]
pub enum TemplateVariant {
    Text,
    Vision,
    Stream,
    McpStateless,
    McpSession,
}

impl TemplateVariant {
    /// The message key of the variant's label.
    pub fn label_key(self) -> (k: &'static str)
        ensures
            k == (match self {
                TemplateVariant::Text => "sidebar.templates.variant_text",
                TemplateVariant::Vision => "sidebar.templates.variant_vision",
                TemplateVariant::Stream => "sidebar.templates.variant_stream",
                TemplateVariant::McpStateless => "sidebar.templates.variant_mcp_stateless",
                TemplateVariant::McpSession => "sidebar.templates.variant_mcp_session",
            }),
    {
        match self {
            TemplateVariant::Text => "sidebar.templates.variant_text",
            TemplateVariant::Vision => "sidebar.templates.variant_vision",
            TemplateVariant::Stream => "sidebar.templates.variant_stream",
            TemplateVariant::McpStateless => "sidebar.templates.variant_mcp_stateless",
            TemplateVariant::McpSession => "sidebar.templates.variant_mcp_session",
        }
    }
}

/// The variants a group offers: text, vision and stream for the model APIs,
/// the two protocol generations for MCP.
pub open spec fn variant_fits(group: TemplateGroup, variant: TemplateVariant) -> bool {
    match group {
        TemplateGroup::OpenAi | TemplateGroup::Anthropic => variant == TemplateVariant::Text
            || variant == TemplateVariant::Vision || variant == TemplateVariant::Stream,
        TemplateGroup::Mcp => variant == TemplateVariant::McpStateless || variant
            == TemplateVariant::McpSession,
    }
}

/// A built-in request.
#[derive(Debug, Clone, PartialEq, Eq)]
pub struct RequestTemplate {
    /// Stable id: the list element id and the key `find` looks up.
    pub id: &'static str,
    pub group: TemplateGroup,
    /// The API's name, e.g. "Chat Completions"; also the tab title.
    pub api: &'static str,
    pub variant: TemplateVariant,
    pub method: Method,
    pub url: &'static str,
    pub headers: Vec<(&'static str, &'static str)>,
    /// The JSON body, already formatted.
    pub body: &'static str,
}

impl RequestTemplate {
    /// The title of the tab and of the list row.
    pub fn display_name(&self) -> (n: &'static str)
        ensures
            n == self.api,
    {
        self.api
    }
}

/// The templates' ids, in list order.
pub const TEMPLATE_IDS: [&'static str; 14] = [
    "openai-chat-text",
    "openai-chat-vision",
    "openai-chat-stream",
    "openai-responses-text",
    "openai-responses-vision",
    "openai-responses-stream",
    "anthropic-messages-text",
    "anthropic-messages-vision",
    "anthropic-messages-stream",
    "mcp-tools-list",
    "mcp-tools-call",
    "mcp-initialize",
    "mcp-initialized",
    "mcp-session-tools-call",
];

/// `(group, variant)` of each template, in list order.
pub open spec fn template_kind(i: int) -> (TemplateGroup, TemplateVariant) {
    if i == 0 {
        (TemplateGroup::OpenAi, TemplateVariant::Text)
    } else if i == 1 {
        (TemplateGroup::OpenAi, TemplateVariant::Vision)
    } else if i == 2 {
        (TemplateGroup::OpenAi, TemplateVariant::Stream)
    } else if i == 3 {
        (TemplateGroup::OpenAi, TemplateVariant::Text)
    } else if i == 4 {
        (TemplateGroup::OpenAi, TemplateVariant::Vision)
    } else if i == 5 {
        (TemplateGroup::OpenAi, TemplateVariant::Stream)
    } else if i == 6 {
        (TemplateGroup::Anthropic, TemplateVariant::Text)
    } else if i == 7 {
        (TemplateGroup::Anthropic, TemplateVariant::Vision)
    } else if i == 8 {
        (TemplateGroup::Anthropic, TemplateVariant::Stream)
    } else if i == 9 {
        (TemplateGroup::Mcp, TemplateVariant::McpStateless)
    } else if i == 10 {
        (TemplateGroup::Mcp, TemplateVariant::McpStateless)
    } else if i == 11 {
        (TemplateGroup::Mcp, TemplateVariant::McpSession)
    } else if i == 12 {
        (TemplateGroup::Mcp, TemplateVariant::McpSession)
    } else {
        (TemplateGroup::Mcp, TemplateVariant::McpSession)
    }
}

pub const MCP_URL: &'static str = "http://127.0.0.1:8765/mcp";

/// OpenAI: JSON and a bearer key.
pub open spec fn openai_header_list() -> Seq<(&'static str, &'static str)> {
    seq![
        ("Content-Type", "application/json"),
        ("Authorization", "Bearer YOUR_API_KEY"),
    ]
}

fn openai_headers() -> (h: Vec<(&'static str, &'static str)>)
    ensures
        h@ == openai_header_list(),
{
    vec![
        ("Content-Type", "application/json"),
        ("Authorization", "Bearer YOUR_API_KEY"),
    ]
}

/// Anthropic: JSON, the key header and the API version.
pub open spec fn anthropic_header_list() -> Seq<(&'static str, &'static str)> {
    seq![
        ("Content-Type", "application/json"),
        ("x-api-key", "YOUR_API_KEY"),
        ("anthropic-version", "2023-06-01"),
    ]
}

fn anthropic_headers() -> (h: Vec<(&'static str, &'static str)>)
    ensures
        h@ == anthropic_header_list(),
{
    vec![
        ("Content-Type", "application/json"),
        ("x-api-key", "YOUR_API_KEY"),
        ("anthropic-version", "2023-06-01"),
    ]
}

/// Stateless MCP `tools/list`: the method mirrored from the body.
pub open spec fn mcp_tools_list_header_list() -> Seq<(&'static str, &'static str)> {
    seq![
        ("Content-Type", "application/json"),
        ("Accept", "application/json, text/event-stream"),
        ("MCP-Protocol-Version", "2026-07-28"),
        ("Mcp-Method", "tools/list"),
        ("Authorization", "Bearer YOUR_API_KEY"),
    ]
}

fn mcp_tools_list_headers() -> (h: Vec<(&'static str, &'static str)>)
    ensures
        h@ == mcp_tools_list_header_list(),
{
    vec![
        ("Content-Type", "application/json"),
        ("Accept", "application/json, text/event-stream"),
        ("MCP-Protocol-Version", "2026-07-28"),
        ("Mcp-Method", "tools/list"),
        ("Authorization", "Bearer YOUR_API_KEY"),
    ]
}

/// Stateless MCP `tools/call`: method and tool name mirrored from the body.
pub open spec fn mcp_tools_call_header_list() -> Seq<(&'static str, &'static str)> {
    seq![
        ("Content-Type", "application/json"),
        ("Accept", "application/json, text/event-stream"),
        ("MCP-Protocol-Version", "2026-07-28"),
        ("Mcp-Method", "tools/call"),
        ("Mcp-Name", "echo"),
        ("Authorization", "Bearer YOUR_API_KEY"),
    ]
}

fn mcp_tools_call_headers() -> (h: Vec<(&'static str, &'static str)>)
    ensures
        h@ == mcp_tools_call_header_list(),
{
    vec![
        ("Content-Type", "application/json"),
        ("Accept", "application/json, text/event-stream"),
        ("MCP-Protocol-Version", "2026-07-28"),
        ("Mcp-Method", "tools/call"),
        ("Mcp-Name", "echo"),
        ("Authorization", "Bearer YOUR_API_KEY"),
    ]
}

/// MCP `initialize`: no session yet.
pub open spec fn mcp_initialize_header_list() -> Seq<(&'static str, &'static str)> {
    seq![
        ("Content-Type", "application/json"),
        ("Accept", "application/json, text/event-stream"),
        ("Authorization", "Bearer YOUR_API_KEY"),
    ]
}

fn mcp_initialize_headers() -> (h: Vec<(&'static str, &'static str)>)
    ensures
        h@ == mcp_initialize_header_list(),
{
    vec![
        ("Content-Type", "application/json"),
        ("Accept", "application/json, text/event-stream"),
        ("Authorization", "Bearer YOUR_API_KEY"),
    ]
}

/// Session-based MCP: the negotiated version and the session id.
pub open spec fn mcp_session_header_list() -> Seq<(&'static str, &'static str)> {
    seq![
        ("Content-Type", "application/json"),
        ("Accept", "application/json, text/event-stream"),
        ("MCP-Protocol-Version", "2025-06-18"),
        ("Mcp-Session-Id", "YOUR_SESSION_ID"),
        ("Authorization", "Bearer YOUR_API_KEY"),
    ]
}

fn mcp_session_headers() -> (h: Vec<(&'static str, &'static str)>)
    ensures
        h@ == mcp_session_header_list(),
{
    vec![
        ("Content-Type", "application/json"),
        ("Accept", "application/json, text/event-stream"),
        ("MCP-Protocol-Version", "2025-06-18"),
        ("Mcp-Session-Id", "YOUR_SESSION_ID"),
        ("Authorization", "Bearer YOUR_API_KEY"),
    ]
}

pub const OPENAI_CHAT_TEXT: &'static str = r#"{
  "model": "gpt-5.6",
  "messages": [
    { "role": "user", "content": "Explain HTTP status code 429 in one sentence." }
  ]
}"#;

pub const OPENAI_CHAT_VISION: &'static str = r#"{
  "model": "gpt-5.6",
  "messages": [
    {
      "role": "user",
      "content": [
        { "type": "text", "text": "What is in this image?" },
        {
          "type": "image_url",
          "image_url": {
            "url": "https://upload.wikimedia.org/wikipedia/commons/a/a7/Camponotus_flavomarginatus_ant.jpg",
            "detail": "auto"
          }
        }
      ]
    }
  ],
  "max_completion_tokens": 1024
}"#;

pub const OPENAI_CHAT_STREAM: &'static str = r#"{
  "model": "gpt-5.6",
  "stream": true,
  "stream_options": { "include_usage": true },
  "messages": [
    { "role": "user", "content": "Explain HTTP status code 429 in one sentence." }
  ]
}"#;

pub const OPENAI_RESPONSES_TEXT: &'static str = r#"{
  "model": "gpt-5.6",
  "input": "Explain HTTP status code 429 in one sentence."
}"#;

pub const OPENAI_RESPONSES_STREAM: &'static str = r#"{
  "model": "gpt-5.6",
  "stream": true,
  "input": "Explain HTTP status code 429 in one sentence."
}"#;

pub const OPENAI_RESPONSES_VISION: &'static str = r#"{
  "model": "gpt-5.6",
  "input": [
    {
      "role": "user",
      "content": [
        { "type": "input_text", "text": "What is in this image?" },
        {
          "type": "input_image",
          "image_url": "https://upload.wikimedia.org/wikipedia/commons/a/a7/Camponotus_flavomarginatus_ant.jpg"
        }
      ]
    }
  ],
  "max_output_tokens": 1024
}"#;

pub const ANTHROPIC_MESSAGES_TEXT: &'static str = r#"{
  "model": "YOUR_MODEL",
  "max_tokens": 1024,
  "messages": [
    { "role": "user", "content": "Explain HTTP status code 429 in one sentence." }
  ]
}"#;

pub const ANTHROPIC_MESSAGES_STREAM: &'static str = r#"{
  "model": "YOUR_MODEL",
  "max_tokens": 1024,
  "stream": true,
  "messages": [
    { "role": "user", "content": "Explain HTTP status code 429 in one sentence." }
  ]
}"#;

pub const ANTHROPIC_MESSAGES_VISION: &'static str = r#"{
  "model": "YOUR_MODEL",
  "max_tokens": 1024,
  "messages": [
    {
      "role": "user",
      "content": [
        {
          "type": "image",
          "source": {
            "type": "url",
            "url": "https://upload.wikimedia.org/wikipedia/commons/a/a7/Camponotus_flavomarginatus_ant.jpg"
          }
        },
        { "type": "text", "text": "What is in this image?" }
      ]
    }
  ]
}"#;

pub const MCP_TOOLS_LIST: &'static str = r#"{
  "jsonrpc": "2.0",
  "id": 1,
  "method": "tools/list",
  "params": {
    "_meta": {
      "io.modelcontextprotocol/protocolVersion": "2026-07-28",
      "io.modelcontextprotocol/clientInfo": { "name": "Germal", "version": "1.0" },
      "io.modelcontextprotocol/clientCapabilities": {}
    }
  }
}"#;

pub const MCP_TOOLS_CALL: &'static str = r#"{
  "jsonrpc": "2.0",
  "id": 1,
  "method": "tools/call",
  "params": {
    "name": "echo",
    "arguments": { "text": "Hello from Germal" },
    "_meta": {
      "io.modelcontextprotocol/protocolVersion": "2026-07-28",
      "io.modelcontextprotocol/clientInfo": { "name": "Germal", "version": "1.0" },
      "io.modelcontextprotocol/clientCapabilities": {}
    }
  }
}"#;

pub const MCP_INITIALIZE: &'static str = r#"{
  "jsonrpc": "2.0",
  "id": 1,
  "method": "initialize",
  "params": {
    "protocolVersion": "2025-06-18",
    "capabilities": {},
    "clientInfo": { "name": "Germal", "version": "1.0" }
  }
}"#;

pub const MCP_INITIALIZED: &'static str = r#"{
  "jsonrpc": "2.0",
  "method": "notifications/initialized"
}"#;

pub const MCP_SESSION_TOOLS_CALL: &'static str = r#"{
  "jsonrpc": "2.0",
  "id": 2,
  "method": "tools/call",
  "params": {
    "name": "echo",
    "arguments": { "text": "Hello from Germal" }
  }
}"#;

/// The API name of each template (the tab title), in list order.
pub open spec fn template_api(i: int) -> &'static str {
    if i == 0 {
        "Chat Completions"
    } else if i == 1 {
        "Chat Completions"
    } else if i == 2 {
        "Chat Completions"
    } else if i == 3 {
        "Responses"
    } else if i == 4 {
        "Responses"
    } else if i == 5 {
        "Responses"
    } else if i == 6 {
        "Messages"
    } else if i == 7 {
        "Messages"
    } else if i == 8 {
        "Messages"
    } else if i == 9 {
        "tools/list"
    } else if i == 10 {
        "tools/call"
    } else if i == 11 {
        "initialize"
    } else if i == 12 {
        "notifications/initialized"
    } else {
        "tools/call"
    }
}

/// The URL of each template, in list order.
pub open spec fn template_url(i: int) -> &'static str {
    if i == 0 {
        "https://api.openai.com/v1/chat/completions"
    } else if i == 1 {
        "https://api.openai.com/v1/chat/completions"
    } else if i == 2 {
        "https://api.openai.com/v1/chat/completions"
    } else if i == 3 {
        "https://api.openai.com/v1/responses"
    } else if i == 4 {
        "https://api.openai.com/v1/responses"
    } else if i == 5 {
        "https://api.openai.com/v1/responses"
    } else if i == 6 {
        "https://api.anthropic.com/v1/messages"
    } else if i == 7 {
        "https://api.anthropic.com/v1/messages"
    } else if i == 8 {
        "https://api.anthropic.com/v1/messages"
    } else if i == 9 {
        MCP_URL
    } else if i == 10 {
        MCP_URL
    } else if i == 11 {
        MCP_URL
    } else if i == 12 {
        MCP_URL
    } else {
        MCP_URL
    }
}

/// The headers of each template, in list order.
pub open spec fn template_headers(i: int) -> Seq<(&'static str, &'static str)> {
    if i == 0 {
        openai_header_list()
    } else if i == 1 {
        openai_header_list()
    } else if i == 2 {
        openai_header_list()
    } else if i == 3 {
        openai_header_list()
    } else if i == 4 {
        openai_header_list()
    } else if i == 5 {
        openai_header_list()
    } else if i == 6 {
        anthropic_header_list()
    } else if i == 7 {
        anthropic_header_list()
    } else if i == 8 {
        anthropic_header_list()
    } else if i == 9 {
        mcp_tools_list_header_list()
    } else if i == 10 {
        mcp_tools_call_header_list()
    } else if i == 11 {
        mcp_initialize_header_list()
    } else if i == 12 {
        mcp_session_header_list()
    } else {
        mcp_session_header_list()
    }
}

/// The JSON body of each template, in list order.
pub open spec fn template_body(i: int) -> &'static str {
    if i == 0 {
        OPENAI_CHAT_TEXT
    } else if i == 1 {
        OPENAI_CHAT_VISION
    } else if i == 2 {
        OPENAI_CHAT_STREAM
    } else if i == 3 {
        OPENAI_RESPONSES_TEXT
    } else if i == 4 {
        OPENAI_RESPONSES_VISION
    } else if i == 5 {
        OPENAI_RESPONSES_STREAM
    } else if i == 6 {
        ANTHROPIC_MESSAGES_TEXT
    } else if i == 7 {
        ANTHROPIC_MESSAGES_VISION
    } else if i == 8 {
        ANTHROPIC_MESSAGES_STREAM
    } else if i == 9 {
        MCP_TOOLS_LIST
    } else if i == 10 {
        MCP_TOOLS_CALL
    } else if i == 11 {
        MCP_INITIALIZE
    } else if i == 12 {
        MCP_INITIALIZED
    } else {
        MCP_SESSION_TOOLS_CALL
    }
}

/// `t` is the template at position `i` of the list: every field as the
/// tables above give it; every template is a `POST`.
pub open spec fn is_template(t: RequestTemplate, i: int) -> bool {
    &&& t.id == TEMPLATE_IDS[i]
    &&& (t.group, t.variant) == template_kind(i)
    &&& t.api == template_api(i)
    &&& t.method == Method::Post
    &&& t.url == template_url(i)
    &&& t.headers@ == template_headers(i)
    &&& t.body == template_body(i)
}

/// Every template, in list order: ids as in [`TEMPLATE_IDS`], one per
/// group and variant the group offers, each variant fitting its group, and
/// each request as the tables give it.
#[verifier::rlimit(50)]
pub fn all() -> (t: Vec<RequestTemplate>)
    ensures
        t@.len() == 14,
        forall|i: int| 0 <= i < 14 ==> is_template(#[trigger] t@[i], i),
{
    vec![
        RequestTemplate {
            id: "openai-chat-text",
            group: TemplateGroup::OpenAi,
            api: "Chat Completions",
            variant: TemplateVariant::Text,
            method: Method::Post,
            url: "https://api.openai.com/v1/chat/completions",
            headers: openai_headers(),
            body: OPENAI_CHAT_TEXT,
        },
        RequestTemplate {
            id: "openai-chat-vision",
            group: TemplateGroup::OpenAi,
            api: "Chat Completions",
            variant: TemplateVariant::Vision,
            method: Method::Post,
            url: "https://api.openai.com/v1/chat/completions",
            headers: openai_headers(),
            body: OPENAI_CHAT_VISION,
        },
        RequestTemplate {
            id: "openai-chat-stream",
            group: TemplateGroup::OpenAi,
            api: "Chat Completions",
            variant: TemplateVariant::Stream,
            method: Method::Post,
            url: "https://api.openai.com/v1/chat/completions",
            headers: openai_headers(),
            body: OPENAI_CHAT_STREAM,
        },
        RequestTemplate {
            id: "openai-responses-text",
            group: TemplateGroup::OpenAi,
            api: "Responses",
            variant: TemplateVariant::Text,
            method: Method::Post,
            url: "https://api.openai.com/v1/responses",
            headers: openai_headers(),
            body: OPENAI_RESPONSES_TEXT,
        },
        RequestTemplate {
            id: "openai-responses-vision",
            group: TemplateGroup::OpenAi,
            api: "Responses",
            variant: TemplateVariant::Vision,
            method: Method::Post,
            url: "https://api.openai.com/v1/responses",
            headers: openai_headers(),
            body: OPENAI_RESPONSES_VISION,
        },
        RequestTemplate {
            id: "openai-responses-stream",
            group: TemplateGroup::OpenAi,
            api: "Responses",
            variant: TemplateVariant::Stream,
            method: Method::Post,
            url: "https://api.openai.com/v1/responses",
            headers: openai_headers(),
            body: OPENAI_RESPONSES_STREAM,
        },
        RequestTemplate {
            id: "anthropic-messages-text",
            group: TemplateGroup::Anthropic,
            api: "Messages",
            variant: TemplateVariant::Text,
            method: Method::Post,
            url: "https://api.anthropic.com/v1/messages",
            headers: anthropic_headers(),
            body: ANTHROPIC_MESSAGES_TEXT,
        },
        RequestTemplate {
            id: "anthropic-messages-vision",
            group: TemplateGroup::Anthropic,
            api: "Messages",
            variant: TemplateVariant::Vision,
            method: Method::Post,
            url: "https://api.anthropic.com/v1/messages",
            headers: anthropic_headers(),
            body: ANTHROPIC_MESSAGES_VISION,
        },
        RequestTemplate {
            id: "anthropic-messages-stream",
            group: TemplateGroup::Anthropic,
            api: "Messages",
            variant: TemplateVariant::Stream,
            method: Method::Post,
            url: "https://api.anthropic.com/v1/messages",
            headers: anthropic_headers(),
            body: ANTHROPIC_MESSAGES_STREAM,
        },
        RequestTemplate {
            id: "mcp-tools-list",
            group: TemplateGroup::Mcp,
            api: "tools/list",
            variant: TemplateVariant::McpStateless,
            method: Method::Post,
            url: MCP_URL,
            headers: mcp_tools_list_headers(),
            body: MCP_TOOLS_LIST,
        },
        RequestTemplate {
            id: "mcp-tools-call",
            group: TemplateGroup::Mcp,
            api: "tools/call",
            variant: TemplateVariant::McpStateless,
            method: Method::Post,
            url: MCP_URL,
            headers: mcp_tools_call_headers(),
            body: MCP_TOOLS_CALL,
        },
        RequestTemplate {
            id: "mcp-initialize",
            group: TemplateGroup::Mcp,
            api: "initialize",
            variant: TemplateVariant::McpSession,
            method: Method::Post,
            url: MCP_URL,
            headers: mcp_initialize_headers(),
            body: MCP_INITIALIZE,
        },
        RequestTemplate {
            id: "mcp-initialized",
            group: TemplateGroup::Mcp,
            api: "notifications/initialized",
            variant: TemplateVariant::McpSession,
            method: Method::Post,
            url: MCP_URL,
            headers: mcp_session_headers(),
            body: MCP_INITIALIZED,
        },
        RequestTemplate {
            id: "mcp-session-tools-call",
            group: TemplateGroup::Mcp,
            api: "tools/call",
            variant: TemplateVariant::McpSession,
            method: Method::Post,
            url: MCP_URL,
            headers: mcp_session_headers(),
            body: MCP_SESSION_TOOLS_CALL,
        },
    ]
}

/// Template ids are distinct.
pub proof fn lemma_template_ids_distinct()
    ensures
        forall|i: int, j: int| 0 <= i < j < 14 ==> TEMPLATE_IDS[i]@ != TEMPLATE_IDS[j]@,
{
    reveal_strlit("openai-chat-text");
    reveal_strlit("openai-chat-vision");
    reveal_strlit("openai-chat-stream");
    reveal_strlit("openai-responses-text");
    reveal_strlit("openai-responses-vision");
    reveal_strlit("openai-responses-stream");
    reveal_strlit("anthropic-messages-text");
    reveal_strlit("anthropic-messages-vision");
    reveal_strlit("anthropic-messages-stream");
    reveal_strlit("mcp-tools-list");
    reveal_strlit("mcp-tools-call");
    reveal_strlit("mcp-initialize");
    reveal_strlit("mcp-initialized");
    reveal_strlit("mcp-session-tools-call");
    assert forall|i: int, j: int| 0 <= i < j < 14 implies TEMPLATE_IDS[i]@ != TEMPLATE_IDS[j]@ by {
        if i == 0 && j == 1 {
            assert(TEMPLATE_IDS[0]@.len() != TEMPLATE_IDS[1]@.len());
        } else if i == 0 && j == 2 {
            assert(TEMPLATE_IDS[0]@.len() != TEMPLATE_IDS[2]@.len());
        } else if i == 0 && j == 3 {
            assert(TEMPLATE_IDS[0]@.len() != TEMPLATE_IDS[3]@.len());
        } else if i == 0 && j == 4 {
            assert(TEMPLATE_IDS[0]@.len() != TEMPLATE_IDS[4]@.len());
        } else if i == 0 && j == 5 {
            assert(TEMPLATE_IDS[0]@.len() != TEMPLATE_IDS[5]@.len());
        } else if i == 0 && j == 6 {
            assert(TEMPLATE_IDS[0]@.len() != TEMPLATE_IDS[6]@.len());
        } else if i == 0 && j == 7 {
            assert(TEMPLATE_IDS[0]@.len() != TEMPLATE_IDS[7]@.len());
        } else if i == 0 && j == 8 {
            assert(TEMPLATE_IDS[0]@.len() != TEMPLATE_IDS[8]@.len());
        } else if i == 0 && j == 9 {
            assert(TEMPLATE_IDS[0]@.len() != TEMPLATE_IDS[9]@.len());
        } else if i == 0 && j == 10 {
            assert(TEMPLATE_IDS[0]@.len() != TEMPLATE_IDS[10]@.len());
        } else if i == 0 && j == 11 {
            assert(TEMPLATE_IDS[0]@.len() != TEMPLATE_IDS[11]@.len());
        } else if i == 0 && j == 12 {
            assert(TEMPLATE_IDS[0]@.len() != TEMPLATE_IDS[12]@.len());
        } else if i == 0 && j == 13 {
            assert(TEMPLATE_IDS[0]@.len() != TEMPLATE_IDS[13]@.len());
        } else if i == 1 && j == 2 {
            assert(TEMPLATE_IDS[1]@[12] != TEMPLATE_IDS[2]@[12]);
        } else if i == 1 && j == 3 {
            assert(TEMPLATE_IDS[1]@.len() != TEMPLATE_IDS[3]@.len());
        } else if i == 1 && j == 4 {
            assert(TEMPLATE_IDS[1]@.len() != TEMPLATE_IDS[4]@.len());
        } else if i == 1 && j == 5 {
            assert(TEMPLATE_IDS[1]@.len() != TEMPLATE_IDS[5]@.len());
        } else if i == 1 && j == 6 {
            assert(TEMPLATE_IDS[1]@.len() != TEMPLATE_IDS[6]@.len());
        } else if i == 1 && j == 7 {
            assert(TEMPLATE_IDS[1]@.len() != TEMPLATE_IDS[7]@.len());
        } else if i == 1 && j == 8 {
            assert(TEMPLATE_IDS[1]@.len() != TEMPLATE_IDS[8]@.len());
        } else if i == 1 && j == 9 {
            assert(TEMPLATE_IDS[1]@.len() != TEMPLATE_IDS[9]@.len());
        } else if i == 1 && j == 10 {
            assert(TEMPLATE_IDS[1]@.len() != TEMPLATE_IDS[10]@.len());
        } else if i == 1 && j == 11 {
            assert(TEMPLATE_IDS[1]@.len() != TEMPLATE_IDS[11]@.len());
        } else if i == 1 && j == 12 {
            assert(TEMPLATE_IDS[1]@.len() != TEMPLATE_IDS[12]@.len());
        } else if i == 1 && j == 13 {
            assert(TEMPLATE_IDS[1]@.len() != TEMPLATE_IDS[13]@.len());
        } else if i == 2 && j == 3 {
            assert(TEMPLATE_IDS[2]@.len() != TEMPLATE_IDS[3]@.len());
        } else if i == 2 && j == 4 {
            assert(TEMPLATE_IDS[2]@.len() != TEMPLATE_IDS[4]@.len());
        } else if i == 2 && j == 5 {
            assert(TEMPLATE_IDS[2]@.len() != TEMPLATE_IDS[5]@.len());
        } else if i == 2 && j == 6 {
            assert(TEMPLATE_IDS[2]@.len() != TEMPLATE_IDS[6]@.len());
        } else if i == 2 && j == 7 {
            assert(TEMPLATE_IDS[2]@.len() != TEMPLATE_IDS[7]@.len());
        } else if i == 2 && j == 8 {
            assert(TEMPLATE_IDS[2]@.len() != TEMPLATE_IDS[8]@.len());
        } else if i == 2 && j == 9 {
            assert(TEMPLATE_IDS[2]@.len() != TEMPLATE_IDS[9]@.len());
        } else if i == 2 && j == 10 {
            assert(TEMPLATE_IDS[2]@.len() != TEMPLATE_IDS[10]@.len());
        } else if i == 2 && j == 11 {
            assert(TEMPLATE_IDS[2]@.len() != TEMPLATE_IDS[11]@.len());
        } else if i == 2 && j == 12 {
            assert(TEMPLATE_IDS[2]@.len() != TEMPLATE_IDS[12]@.len());
        } else if i == 2 && j == 13 {
            assert(TEMPLATE_IDS[2]@.len() != TEMPLATE_IDS[13]@.len());
        } else if i == 3 && j == 4 {
            assert(TEMPLATE_IDS[3]@.len() != TEMPLATE_IDS[4]@.len());
        } else if i == 3 && j == 5 {
            assert(TEMPLATE_IDS[3]@.len() != TEMPLATE_IDS[5]@.len());
        } else if i == 3 && j == 6 {
            assert(TEMPLATE_IDS[3]@.len() != TEMPLATE_IDS[6]@.len());
        } else if i == 3 && j == 7 {
            assert(TEMPLATE_IDS[3]@.len() != TEMPLATE_IDS[7]@.len());
        } else if i == 3 && j == 8 {
            assert(TEMPLATE_IDS[3]@.len() != TEMPLATE_IDS[8]@.len());
        } else if i == 3 && j == 9 {
            assert(TEMPLATE_IDS[3]@.len() != TEMPLATE_IDS[9]@.len());
        } else if i == 3 && j == 10 {
            assert(TEMPLATE_IDS[3]@.len() != TEMPLATE_IDS[10]@.len());
        } else if i == 3 && j == 11 {
            assert(TEMPLATE_IDS[3]@.len() != TEMPLATE_IDS[11]@.len());
        } else if i == 3 && j == 12 {
            assert(TEMPLATE_IDS[3]@.len() != TEMPLATE_IDS[12]@.len());
        } else if i == 3 && j == 13 {
            assert(TEMPLATE_IDS[3]@.len() != TEMPLATE_IDS[13]@.len());
        } else if i == 4 && j == 5 {
            assert(TEMPLATE_IDS[4]@[17] != TEMPLATE_IDS[5]@[17]);
        } else if i == 4 && j == 6 {
            assert(TEMPLATE_IDS[4]@[0] != TEMPLATE_IDS[6]@[0]);
        } else if i == 4 && j == 7 {
            assert(TEMPLATE_IDS[4]@.len() != TEMPLATE_IDS[7]@.len());
        } else if i == 4 && j == 8 {
            assert(TEMPLATE_IDS[4]@.len() != TEMPLATE_IDS[8]@.len());
        } else if i == 4 && j == 9 {
            assert(TEMPLATE_IDS[4]@.len() != TEMPLATE_IDS[9]@.len());
        } else if i == 4 && j == 10 {
            assert(TEMPLATE_IDS[4]@.len() != TEMPLATE_IDS[10]@.len());
        } else if i == 4 && j == 11 {
            assert(TEMPLATE_IDS[4]@.len() != TEMPLATE_IDS[11]@.len());
        } else if i == 4 && j == 12 {
            assert(TEMPLATE_IDS[4]@.len() != TEMPLATE_IDS[12]@.len());
        } else if i == 4 && j == 13 {
            assert(TEMPLATE_IDS[4]@.len() != TEMPLATE_IDS[13]@.len());
        } else if i == 5 && j == 6 {
            assert(TEMPLATE_IDS[5]@[0] != TEMPLATE_IDS[6]@[0]);
        } else if i == 5 && j == 7 {
            assert(TEMPLATE_IDS[5]@.len() != TEMPLATE_IDS[7]@.len());
        } else if i == 5 && j == 8 {
            assert(TEMPLATE_IDS[5]@.len() != TEMPLATE_IDS[8]@.len());
        } else if i == 5 && j == 9 {
            assert(TEMPLATE_IDS[5]@.len() != TEMPLATE_IDS[9]@.len());
        } else if i == 5 && j == 10 {
            assert(TEMPLATE_IDS[5]@.len() != TEMPLATE_IDS[10]@.len());
        } else if i == 5 && j == 11 {
            assert(TEMPLATE_IDS[5]@.len() != TEMPLATE_IDS[11]@.len());
        } else if i == 5 && j == 12 {
            assert(TEMPLATE_IDS[5]@.len() != TEMPLATE_IDS[12]@.len());
        } else if i == 5 && j == 13 {
            assert(TEMPLATE_IDS[5]@.len() != TEMPLATE_IDS[13]@.len());
        } else if i == 6 && j == 7 {
            assert(TEMPLATE_IDS[6]@.len() != TEMPLATE_IDS[7]@.len());
        } else if i == 6 && j == 8 {
            assert(TEMPLATE_IDS[6]@.len() != TEMPLATE_IDS[8]@.len());
        } else if i == 6 && j == 9 {
            assert(TEMPLATE_IDS[6]@.len() != TEMPLATE_IDS[9]@.len());
        } else if i == 6 && j == 10 {
            assert(TEMPLATE_IDS[6]@.len() != TEMPLATE_IDS[10]@.len());
        } else if i == 6 && j == 11 {
            assert(TEMPLATE_IDS[6]@.len() != TEMPLATE_IDS[11]@.len());
        } else if i == 6 && j == 12 {
            assert(TEMPLATE_IDS[6]@.len() != TEMPLATE_IDS[12]@.len());
        } else if i == 6 && j == 13 {
            assert(TEMPLATE_IDS[6]@.len() != TEMPLATE_IDS[13]@.len());
        } else if i == 7 && j == 8 {
            assert(TEMPLATE_IDS[7]@[19] != TEMPLATE_IDS[8]@[19]);
        } else if i == 7 && j == 9 {
            assert(TEMPLATE_IDS[7]@.len() != TEMPLATE_IDS[9]@.len());
        } else if i == 7 && j == 10 {
            assert(TEMPLATE_IDS[7]@.len() != TEMPLATE_IDS[10]@.len());
        } else if i == 7 && j == 11 {
            assert(TEMPLATE_IDS[7]@.len() != TEMPLATE_IDS[11]@.len());
        } else if i == 7 && j == 12 {
            assert(TEMPLATE_IDS[7]@.len() != TEMPLATE_IDS[12]@.len());
        } else if i == 7 && j == 13 {
            assert(TEMPLATE_IDS[7]@.len() != TEMPLATE_IDS[13]@.len());
        } else if i == 8 && j == 9 {
            assert(TEMPLATE_IDS[8]@.len() != TEMPLATE_IDS[9]@.len());
        } else if i == 8 && j == 10 {
            assert(TEMPLATE_IDS[8]@.len() != TEMPLATE_IDS[10]@.len());
        } else if i == 8 && j == 11 {
            assert(TEMPLATE_IDS[8]@.len() != TEMPLATE_IDS[11]@.len());
        } else if i == 8 && j == 12 {
            assert(TEMPLATE_IDS[8]@.len() != TEMPLATE_IDS[12]@.len());
        } else if i == 8 && j == 13 {
            assert(TEMPLATE_IDS[8]@.len() != TEMPLATE_IDS[13]@.len());
        } else if i == 9 && j == 10 {
            assert(TEMPLATE_IDS[9]@[10] != TEMPLATE_IDS[10]@[10]);
        } else if i == 9 && j == 11 {
            assert(TEMPLATE_IDS[9]@[4] != TEMPLATE_IDS[11]@[4]);
        } else if i == 9 && j == 12 {
            assert(TEMPLATE_IDS[9]@.len() != TEMPLATE_IDS[12]@.len());
        } else if i == 9 && j == 13 {
            assert(TEMPLATE_IDS[9]@.len() != TEMPLATE_IDS[13]@.len());
        } else if i == 10 && j == 11 {
            assert(TEMPLATE_IDS[10]@[4] != TEMPLATE_IDS[11]@[4]);
        } else if i == 10 && j == 12 {
            assert(TEMPLATE_IDS[10]@.len() != TEMPLATE_IDS[12]@.len());
        } else if i == 10 && j == 13 {
            assert(TEMPLATE_IDS[10]@.len() != TEMPLATE_IDS[13]@.len());
        } else if i == 11 && j == 12 {
            assert(TEMPLATE_IDS[11]@.len() != TEMPLATE_IDS[12]@.len());
        } else if i == 11 && j == 13 {
            assert(TEMPLATE_IDS[11]@.len() != TEMPLATE_IDS[13]@.len());
        } else if i == 12 && j == 13 {
            assert(TEMPLATE_IDS[12]@.len() != TEMPLATE_IDS[13]@.len());
        }
    }
}

/// Every template's variant belongs to its group, and every variant a group
/// offers has a template.
pub proof fn lemma_templates_cover_groups()
    ensures
        forall|i: int| 0 <= i < 14 ==> variant_fits(#[trigger] template_kind(i).0, template_kind(i).1),
        forall|g: TemplateGroup, v: TemplateVariant|
            variant_fits(g, v) ==> exists|i: int| 0 <= i < 14 && #[trigger] template_kind(i) == (g, v),
{
    assert forall|g: TemplateGroup, v: TemplateVariant| variant_fits(g, v) implies exists|i: int|
        0 <= i < 14 && #[trigger] template_kind(i) == (g, v) by {
        if g == TemplateGroup::OpenAi && v == TemplateVariant::Text {
            assert(template_kind(0) == (g, v));
        } else if g == TemplateGroup::OpenAi && v == TemplateVariant::Vision {
            assert(template_kind(1) == (g, v));
        } else if g == TemplateGroup::OpenAi && v == TemplateVariant::Stream {
            assert(template_kind(2) == (g, v));
        } else if g == TemplateGroup::Anthropic && v == TemplateVariant::Text {
            assert(template_kind(6) == (g, v));
        } else if g == TemplateGroup::Anthropic && v == TemplateVariant::Vision {
            assert(template_kind(7) == (g, v));
        } else if g == TemplateGroup::Anthropic && v == TemplateVariant::Stream {
            assert(template_kind(8) == (g, v));
        } else if g == TemplateGroup::Mcp && v == TemplateVariant::McpStateless {
            assert(template_kind(9) == (g, v));
        } else if g == TemplateGroup::Mcp && v == TemplateVariant::McpSession {
            assert(template_kind(11) == (g, v));
        }
    }
}

/// A header that carries a credential: `Authorization` or `x-api-key`, in
/// any letter case.
pub open spec fn is_credential_header(name: Seq<char>) -> bool {
    eq_ignore_ascii_case(name, "authorization"@) || eq_ignore_ascii_case(name, "x-api-key"@)
}

/// Every credential header in `headers` holds a placeholder, never a key.
pub open spec fn keys_are_placeholders(headers: Seq<(&'static str, &'static str)>) -> bool {
    forall|k: int|
        0 <= k < headers.len() && is_credential_header(#[trigger] headers[k].0@) ==> headers[k].1@
            == "Bearer YOUR_API_KEY"@ || headers[k].1@ == "YOUR_API_KEY"@
}

proof fn lemma_header_lists_hold_placeholders()
    ensures
        keys_are_placeholders(openai_header_list()),
        keys_are_placeholders(anthropic_header_list()),
        keys_are_placeholders(mcp_tools_list_header_list()),
        keys_are_placeholders(mcp_tools_call_header_list()),
        keys_are_placeholders(mcp_initialize_header_list()),
        keys_are_placeholders(mcp_session_header_list()),
{
    reveal_strlit("authorization");
    reveal_strlit("x-api-key");
    reveal_strlit("Content-Type");
    reveal_strlit("Accept");
    reveal_strlit("MCP-Protocol-Version");
    reveal_strlit("Mcp-Method");
    reveal_strlit("Mcp-Name");
    reveal_strlit("Mcp-Session-Id");
    reveal_strlit("anthropic-version");
    reveal_strlit("Authorization");
    reveal_strlit("x-api-key");
}

/// No template ships a real-looking key: wherever a template sends a
/// credential header, its value is the `YOUR_API_KEY` placeholder.
pub proof fn lemma_template_keys_are_placeholders()
    ensures
        forall|i: int| 0 <= i < 14 ==> keys_are_placeholders(#[trigger] template_headers(i)),
{
    lemma_header_lists_hold_placeholders();
}

/// Every MCP template declares that it takes either response form, a
/// single JSON reply or an event stream, as Streamable HTTP asks of clients.
pub proof fn lemma_mcp_templates_accept_both_forms()
    ensures
        forall|i: int|
            0 <= i < 14 && (#[trigger] template_kind(i)).0 == TemplateGroup::Mcp ==> exists|k: int|
                0 <= k < template_headers(i).len() && #[trigger] template_headers(i)[k] == (
                    "Accept",
                    "application/json, text/event-stream",
                ),
{
    assert forall|i: int| 0 <= i < 14 && (#[trigger] template_kind(i)).0 == TemplateGroup::Mcp implies exists|k: int|
        0 <= k < template_headers(i).len() && #[trigger] template_headers(i)[k] == (
            "Accept",
            "application/json, text/event-stream",
        ) by {
        assert(template_headers(i)[1] == ("Accept", "application/json, text/event-stream"));
    }
}

/// Each template is posted to the endpoint of the API it names: Chat
/// Completions, Responses and Messages to their own endpoints, and every MCP
/// template to the MCP server; every template is a `POST`.
pub proof fn lemma_template_url_matches_api()
    ensures
        forall|t: RequestTemplate, i: int| #[trigger] is_template(t, i) ==> t.method == Method::Post,
        forall|i: int|
            0 <= i < 14 ==> {
                &&& (#[trigger] template_api(i))@ == "Chat Completions"@ ==> template_url(i)@
                    == "https://api.openai.com/v1/chat/completions"@
                &&& template_api(i)@ == "Responses"@ ==> template_url(i)@
                    == "https://api.openai.com/v1/responses"@
                &&& template_api(i)@ == "Messages"@ ==> template_url(i)@
                    == "https://api.anthropic.com/v1/messages"@
                &&& template_kind(i).0 == TemplateGroup::Mcp ==> template_url(i)@ == MCP_URL@
            },
{
    reveal_strlit("Chat Completions");
    reveal_strlit("Responses");
    reveal_strlit("Messages");
    reveal_strlit("tools/list");
    reveal_strlit("tools/call");
    reveal_strlit("initialize");
    reveal_strlit("notifications/initialized");
    assert forall|i: int| 0 <= i < 14 implies {
        &&& (#[trigger] template_api(i))@ == "Chat Completions"@ ==> template_url(i)@
            == "https://api.openai.com/v1/chat/completions"@
        &&& template_api(i)@ == "Responses"@ ==> template_url(i)@
            == "https://api.openai.com/v1/responses"@
        &&& template_api(i)@ == "Messages"@ ==> template_url(i)@
            == "https://api.anthropic.com/v1/messages"@
        &&& template_kind(i).0 == TemplateGroup::Mcp ==> template_url(i)@ == MCP_URL@
    } by {
        if i < 3 {
            assert(template_api(i)@.len() == 16);
        } else if i < 6 {
            assert(template_api(i)@.len() == 9);
        } else if i < 9 {
            assert(template_api(i)@.len() == 8);
        } else {
            assert(template_api(i)@.len() == 10 || template_api(i)@.len() == 25);
        }
    }
}

/// The template with this id: the one at the position of the id in
/// [`TEMPLATE_IDS`]; `None` for an unknown id.
pub fn find(id: &str) -> (t: Option<RequestTemplate>)
    ensures
        t is Some <==> exists|i: int| 0 <= i < 14 && TEMPLATE_IDS[i]@ == id@,
        forall|i: int|
            0 <= i < 14 && TEMPLATE_IDS[i]@ == id@ ==> (t matches Some(x) && is_template(x, i)),
{
    proof {
        lemma_template_ids_distinct();
    }
    let mut list = all();
    let mut i: usize = 0;
    while i < list.len()
        invariant
            list@.len() == 14,
            i <= 14,
            forall|k: int| 0 <= k < 14 ==> is_template(#[trigger] list@[k], k),
            forall|k: int| 0 <= k < i ==> TEMPLATE_IDS[k]@ != id@,
            forall|a: int, b: int| 0 <= a < b < 14 ==> TEMPLATE_IDS[a]@ != TEMPLATE_IDS[b]@,
        decreases 14 - i,
    {
        if str_eq(list[i].id, id) {
            let ghost k = i as int;
            let t = list.remove(i);
            assert(is_template(t, k));
            return Some(t);
        }
        i = i + 1;
    }
    None
}

} // verus!
