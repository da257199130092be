use std::collections::HashSet;

use germal_app::model::Method;
use germal_app::templates::{all, find, TemplateGroup, TemplateVariant, TEMPLATE_IDS};

fn variants_of(group: TemplateGroup) -> &'static [TemplateVariant] {
    match group {
        TemplateGroup::OpenAi | TemplateGroup::Anthropic => {
            &[TemplateVariant::Text, TemplateVariant::Vision, TemplateVariant::Stream]
        }
        TemplateGroup::Mcp => &[TemplateVariant::McpStateless, TemplateVariant::McpSession],
    }
}

fn header<'a>(headers: &'a [(&'static str, &'static str)], name: &str) -> Option<&'a str> {
    headers.iter().find(|(k, _)| k.eq_ignore_ascii_case(name)).map(|(_, v)| *v)
}

#[test]
fn ids_are_unique_and_findable() {
    let mut seen = HashSet::new();
    for template in all() {
        assert!(seen.insert(template.id), "duplicate template id: {}", template.id);
        assert!(find(template.id).is_some());
    }
    assert!(find("nope").is_none());
}

#[test]
fn every_group_and_variant_has_a_template() {
    let list = all();
    for group in TemplateGroup::ALL {
        for variant in variants_of(group) {
            assert!(
                list.iter().any(|t| t.group == group && t.variant == *variant),
                "{} lacks a {variant:?} template",
                group.label()
            );
        }
    }
    for template in &list {
        assert!(
            variants_of(template.group).contains(&template.variant),
            "template {} has variant {:?} outside group {}",
            template.id,
            template.variant,
            template.group.label()
        );
    }
}

#[test]
fn mcp_templates_accept_both_response_types() {
    for template in all().iter().filter(|t| t.group == TemplateGroup::Mcp) {
        let accept = header(&template.headers, "Accept")
            .unwrap_or_else(|| panic!("template {} lacks Accept", template.id));
        assert!(
            accept.contains("application/json") && accept.contains("text/event-stream"),
            "template {} must accept both: {accept}",
            template.id
        );
    }
}

#[test]
fn no_template_ships_a_real_looking_key() {
    for template in all() {
        for (key, value) in &template.headers {
            if key.eq_ignore_ascii_case("authorization") || key.eq_ignore_ascii_case("x-api-key") {
                assert!(
                    value.contains("YOUR_API_KEY"),
                    "template {}'s {key} is not a placeholder: {value}",
                    template.id
                );
            }
        }
    }
}

#[test]
fn list_order_and_lookup_agree() {
    let list = all();
    assert_eq!(list.len(), TEMPLATE_IDS.len());
    for (t, id) in list.iter().zip(TEMPLATE_IDS.iter()) {
        assert_eq!(t.id, *id);
        assert_eq!(t.method, Method::Post);
    }
    let t = find("anthropic-messages-vision").unwrap();
    assert_eq!(t.url, "https://api.anthropic.com/v1/messages");
    assert_eq!(header(&t.headers, "x-api-key"), Some("YOUR_API_KEY"));
    assert!(header(&t.headers, "anthropic-version").is_some());
    assert!(t.body.contains(r#""type": "image""#));
    assert_eq!(t.display_name(), "Messages");
    assert_eq!(TemplateGroup::Mcp.label(), "MCP");
    assert_eq!(TemplateVariant::Stream.label_key(), "sidebar.templates.variant_stream");
}

#[test]
fn stream_templates_ask_for_a_stream() {
    for template in all().iter().filter(|t| t.variant == TemplateVariant::Stream) {
        assert!(template.body.contains(r#""stream": true"#), "{}", template.id);
    }
}

#[test]
fn every_body_is_valid_json() {
    for template in all() {
        serde_json::from_str::<serde_json::Value>(template.body)
            .unwrap_or_else(|e| panic!("template {}'s body is not valid JSON: {e}", template.id));
    }
}

#[test]
fn mcp_headers_mirror_body() {
    for template in all().iter().filter(|t| t.group == TemplateGroup::Mcp) {
        let body: serde_json::Value = serde_json::from_str(template.body).unwrap();
        if let Some(method) = header(&template.headers, "Mcp-Method") {
            assert_eq!(Some(method), body["method"].as_str(), "template {}: Mcp-Method differs from body.method", template.id);
        }
        if let Some(name) = header(&template.headers, "Mcp-Name") {
            assert_eq!(Some(name), body["params"]["name"].as_str(), "template {}: Mcp-Name differs from params.name", template.id);
        }
        let meta_version = body["params"]["_meta"]["io.modelcontextprotocol/protocolVersion"].as_str();
        if let Some(version) = meta_version {
            assert_eq!(
                Some(version),
                header(&template.headers, "MCP-Protocol-Version"),
                "template {}: MCP-Protocol-Version differs from _meta",
                template.id
            );
        }
    }
}

#[test]
fn stream_templates_actually_stream() {
    for template in all().iter().filter(|t| t.variant == TemplateVariant::Stream) {
        let body: serde_json::Value = serde_json::from_str(template.body).unwrap();
        assert_eq!(body["stream"].as_bool(), Some(true), "stream template {} lacks stream: true", template.id);
        if template.id == "openai-chat-stream" {
            assert_eq!(
                body["stream_options"]["include_usage"].as_bool(),
                Some(true),
                "the Chat Completions stream template must ask for usage"
            );
        }
    }
}

#[test]
fn a_template_carries_its_request() {
    let t = find("anthropic-messages-vision").unwrap();
    assert_eq!(t.method, Method::Post);
    assert_eq!(t.url, "https://api.anthropic.com/v1/messages");
    assert_eq!(header(&t.headers, "x-api-key"), Some("YOUR_API_KEY"));
    assert!(header(&t.headers, "anthropic-version").is_some());
    assert!(t.body.contains(r#""type": "image""#));
    assert!(t.body.contains(r#""source""#));
    let t = find("openai-chat-text").unwrap();
    assert_eq!(t.url, "https://api.openai.com/v1/chat/completions");
    assert_eq!(t.headers, vec![("Content-Type", "application/json"), ("Authorization", "Bearer YOUR_API_KEY")]);
    assert_eq!(t.display_name(), "Chat Completions");
    let t = find("mcp-initialized").unwrap();
    assert_eq!(t.url, "http://127.0.0.1:8765/mcp");
    assert_eq!(header(&t.headers, "Mcp-Session-Id"), Some("YOUR_SESSION_ID"));
    assert!(find("no-such-template").is_none());
}
