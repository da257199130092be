use germal_app::model::{ContentKind, ViewTier};
use germal_app::request_tab::{
    body_hint, body_hint_for, copy_headers_text, copy_target, display_title, has_user_content_type, pick_doc, effective_sse_mode, file_extension, find_action,
    response_wrap_available, shown_doc, doc_plan, DocPlan, suggested_save_name, tab_title, BodyHint, BodyKind, BodyMode, RawFormat,
    CopyTarget, FailedOps, Failure, FindAction, Notice, OpsReport, Prepared, TabView, LIVE_CAP_BYTES, RequestSection, ResponseFlow, ResponseSection,
    ResponseState, SseBodyMode, ShownDoc, BODY_HINT_BYTES,
};

#[test]
fn body_hint_threshold() {
    assert!(body_hint_for(0).is_none());
    assert!(body_hint_for(BODY_HINT_BYTES).is_none());
    assert_eq!(body_hint_for(BODY_HINT_BYTES + 1), Some(BodyHint::TooLarge));
    assert_eq!(BODY_HINT_BYTES, 10 * 1024 * 1024);
}

#[test]
fn body_mode_round_trips_through_index() {
    for (ix, mode) in BodyMode::ALL.iter().enumerate() {
        assert_eq!(mode.index(), ix);
        assert_eq!(BodyMode::from_index(ix), *mode);
    }
    assert_eq!(BodyMode::from_index(99), BodyMode::NoBody);
}

#[test]
fn body_modes_follow_postman_order() {
    assert_eq!(
        BodyMode::ALL,
        [
            BodyMode::NoBody,
            BodyMode::FormData,
            BodyMode::FormUrlEncoded,
            BodyMode::Raw,
            BodyMode::Binary
        ]
    );
}

#[test]
fn title_from_url() {
    let untitled = "New request";
    assert_eq!(tab_title("", untitled), "New request");
    assert_eq!(tab_title("https://api.example.com/users/42?x=1", untitled), "/users/42");
    assert_eq!(tab_title("https://api.example.com", untitled), "api.example.com");
    assert_eq!(tab_title("api.example.com/", untitled), "api.example.com");
    assert_eq!(tab_title("not a url", untitled), "not a url");
    assert_eq!(tab_title("https://", untitled), "New request");
    assert_eq!(tab_title("http://", untitled), "New request");
    assert_eq!(tab_title("localhost:8080/cb?to=https://x", untitled), "/cb");
    assert_eq!(tab_title("x.com?a=1", untitled), "x.com");
}

#[test]
fn title_ignores_surrounding_white_space() {
    assert_eq!(tab_title("   ", "Untitled"), "Untitled");
    assert_eq!(tab_title("  https://h.io/a/b  ", "Untitled"), "/a/b");
}

#[test]
fn ops_section_only_appears_when_a_report_exists() {
    assert_eq!(
        ResponseSection::visible(false, false),
        vec![ResponseSection::Body, ResponseSection::Headers]
    );
    assert_eq!(
        ResponseSection::visible(true, true),
        vec![
            ResponseSection::Body,
            ResponseSection::Headers,
            ResponseSection::Certificate,
            ResponseSection::Ops
        ]
    );
}

#[test]
fn certificate_and_ops_appear_independently() {
    assert_eq!(
        ResponseSection::visible(true, false),
        vec![ResponseSection::Body, ResponseSection::Headers, ResponseSection::Certificate]
    );
    assert_eq!(
        ResponseSection::visible(false, true),
        vec![ResponseSection::Body, ResponseSection::Headers, ResponseSection::Ops]
    );
}

#[test]
fn request_and_sse_sections_round_trip_through_index() {
    for (ix, s) in RequestSection::ALL.iter().enumerate() {
        assert_eq!(s.index(), ix);
        assert_eq!(RequestSection::from_index(ix), *s);
    }
    assert_eq!(RequestSection::from_index(4), RequestSection::Params);
    for (ix, m) in SseBodyMode::ALL.iter().enumerate() {
        assert_eq!(m.index(), ix);
        assert_eq!(SseBodyMode::from_index(ix), *m);
    }
    assert_eq!(SseBodyMode::from_index(7), SseBodyMode::Text);
}

#[test]
fn body_hints_by_mode() {
    assert_eq!(body_hint(BodyMode::Raw, BODY_HINT_BYTES + 1, true), Some(BodyHint::TooLarge));
    assert_eq!(body_hint(BodyMode::Raw, 10, true), None);
    assert_eq!(body_hint(BodyMode::FormData, 0, true), Some(BodyHint::FormDataContentType));
    assert_eq!(body_hint(BodyMode::FormData, 0, false), None);
    assert_eq!(body_hint(BodyMode::Binary, BODY_HINT_BYTES + 1, true), None);
}

#[test]
fn save_dialog_extensions() {
    assert_eq!(file_extension(ContentKind::Json), "json");
    assert_eq!(file_extension(ContentKind::Xml), "xml");
    assert_eq!(file_extension(ContentKind::Html), "html");
    assert_eq!(file_extension(ContentKind::Text), "txt");
    assert_eq!(file_extension(ContentKind::Binary), "bin");
}

#[test]
fn text_view_falls_back_to_events_without_text() {
    assert_eq!(effective_sse_mode(SseBodyMode::Text, false), SseBodyMode::Events);
    assert_eq!(effective_sse_mode(SseBodyMode::Text, true), SseBodyMode::Text);
    assert_eq!(effective_sse_mode(SseBodyMode::Raw, false), SseBodyMode::Raw);
    assert_eq!(shown_doc(Some(false), SseBodyMode::Text, true), ShownDoc::SseEvents);
    assert_eq!(shown_doc(Some(true), SseBodyMode::Raw, true), ShownDoc::SseRaw);
    assert_eq!(shown_doc(None, SseBodyMode::Events, true), ShownDoc::Body { pretty: true });
}

#[test]
fn copy_targets_follow_the_section_and_tier() {
    assert_eq!(copy_target(ResponseSection::Body, Some(ViewTier::Preview)), Some(CopyTarget::BodyPreview));
    assert_eq!(copy_target(ResponseSection::Body, Some(ViewTier::Editor)), Some(CopyTarget::Body));
    assert_eq!(copy_target(ResponseSection::Body, None), None);
    assert_eq!(copy_target(ResponseSection::Headers, None), Some(CopyTarget::Headers));
    assert_eq!(copy_target(ResponseSection::Certificate, Some(ViewTier::Editor)), None);
    assert!(response_wrap_available(true, Some(ViewTier::Editor)));
    assert!(!response_wrap_available(true, Some(ViewTier::Virtual)));
    assert!(!response_wrap_available(false, Some(ViewTier::Editor)));
}

#[test]
fn find_needs_an_editor_document_with_lines() {
    assert_eq!(find_action(false, false, None, ResponseSection::Body), FindAction::Notify(Notice::NoResponse));
    assert_eq!(find_action(true, true, None, ResponseSection::Body), FindAction::Notify(Notice::SseEventsSearch));
    assert_eq!(find_action(true, false, None, ResponseSection::Body), FindAction::Notify(Notice::BinarySearch));
    assert_eq!(
        find_action(true, false, Some((ViewTier::Virtual, 9)), ResponseSection::Body),
        FindAction::Notify(Notice::VirtualSearch)
    );
    assert_eq!(
        find_action(true, false, Some((ViewTier::Editor, 0)), ResponseSection::Body),
        FindAction::Notify(Notice::EmptyBodySearch)
    );
    assert_eq!(
        find_action(true, false, Some((ViewTier::Editor, 3)), ResponseSection::Headers),
        FindAction::Search { switched: true }
    );
}

type Flow = ResponseFlow<&'static str, &'static str, u8, char, u32>;

#[test]
fn a_stale_outcome_never_overwrites_a_newer_state() {
    let mut f: Flow = ResponseFlow::new();
    let first = f.begin(vec![1], vec!['a'], Vec::new()).unwrap();
    assert!(f.cancel());
    let second = f.begin(vec![2], Vec::new(), Vec::new()).unwrap();
    assert!(second > first);
    assert!(!f.apply_outcome(first, Ok(Prepared { view: "old", sse: false, report: None })));
    assert!(f.is_in_flight());
    assert!(f.apply_outcome(second, Ok(Prepared { view: "new", sse: false, report: Some(9) })));
    match f.state() {
        ResponseState::Done { view, ops, .. } => {
            assert_eq!(*view, "new");
            assert_eq!(*ops, Some(OpsReport { pre: vec![2], post: Some(9) }));
        }
        _ => panic!("expected Done"),
    }
    assert!(f.has_ops_report());
}

#[test]
fn a_response_without_operations_has_no_report() {
    let mut f: Flow = ResponseFlow::new();
    let g = f.begin(Vec::new(), vec!['p'], Vec::new()).unwrap();
    f.set_section(ResponseSection::Headers);
    assert!(f.apply_outcome(g, Ok(Prepared { view: "body", sse: false, report: None })));
    assert!(!f.has_ops_report());
    assert_eq!(f.section(), ResponseSection::Body);
    let g = f.begin(Vec::new(), Vec::new(), Vec::new()).unwrap();
    assert!(f.apply_outcome(g, Ok(Prepared { view: "body", sse: false, report: Some(0) })));
    assert!(f.has_ops_report());
}

#[test]
fn sending_twice_is_refused_while_in_flight() {
    let mut f: Flow = ResponseFlow::new();
    assert_eq!(f.begin(Vec::new(), Vec::new(), Vec::new()), Some(1));
    assert_eq!(f.begin(vec![5], Vec::new(), Vec::new()), None);
    assert!(!f.reject_send("bad url", Vec::new()));
    assert_eq!(f.generation(), 1);
}

#[test]
fn a_send_that_cannot_go_out_shows_its_error() {
    let mut f: Flow = ResponseFlow::new();
    assert!(f.reject_send("invalid URL", Vec::new()));
    assert_eq!(*f.prepare_error(), Some("invalid URL"));
    assert!(matches!(f.state(), ResponseState::Idle));
    assert_eq!(f.generation(), 0);
    f.begin(Vec::new(), Vec::new(), Vec::new()).unwrap();
    assert_eq!(*f.prepare_error(), None);
}

#[test]
fn cancelling_drops_the_report_and_late_progress() {
    let mut f: Flow = ResponseFlow::new();
    let g = f.begin(vec![1], vec!['a'], Vec::new()).unwrap();
    assert!(f.on_head(g, true));
    assert!(f.on_progress(g, 10, Some(20)));
    match f.state() {
        ResponseState::InFlight { received, total, sse, .. } => {
            assert_eq!((*received, *total, *sse), (10, Some(20), true));
        }
        _ => panic!("expected InFlight"),
    }
    assert!(f.cancel());
    assert!(!f.on_progress(g, 15, Some(20)));
    assert!(!f.cancel());
    match f.state() {
        ResponseState::Failed { error, ops } => {
            assert_eq!(*error, Failure::Cancelled);
            assert_eq!(*ops, None);
        }
        _ => panic!("expected Failed"),
    }
}

#[test]
fn a_failure_keeps_pre_results_and_skips_post_operations() {
    let mut f: Flow = ResponseFlow::new();
    let g = f.begin(vec![7], vec!['x', 'y'], Vec::new()).unwrap();
    assert!(f.apply_outcome(g, Err(Failure::Error("offline"))));
    match f.state() {
        ResponseState::Failed { error, ops } => {
            assert_eq!(*error, Failure::Error("offline"));
            assert_eq!(*ops, Some(FailedOps { pre: vec![7], skipped: vec!['x', 'y'] }));
        }
        _ => panic!("expected Failed"),
    }
    let g = f.begin(Vec::new(), Vec::new(), Vec::new()).unwrap();
    assert!(f.apply_outcome(g, Err(Failure::Error("offline"))));
    assert!(!f.has_ops_report());
    let g = f.begin(vec![1], vec!['z'], Vec::new()).unwrap();
    assert!(f.apply_outcome(g, Err(Failure::Cancelled)));
    match f.state() {
        ResponseState::Failed { ops, .. } => assert_eq!(*ops, None),
        _ => panic!("expected Failed"),
    }
}

#[test]
fn clearing_returns_to_idle_and_invalidates_saves() {
    let mut f: Flow = ResponseFlow::new();
    assert!(!f.clear());
    let g = f.begin(Vec::new(), Vec::new(), Vec::new()).unwrap();
    assert!(f.apply_outcome(g, Ok(Prepared { view: "body", sse: false, report: None })));
    f.set_section(ResponseSection::Headers);
    assert!(f.clear());
    assert!(matches!(f.state(), ResponseState::Idle));
    assert_eq!(f.section(), ResponseSection::Body);
    assert!(!f.report_save(g, Ok("/tmp/x".to_string())));
    assert_eq!(*f.notice(), None);
    let now = f.generation();
    assert_eq!(f.save_generation(), None);
    assert!(!f.report_save(now, Err("disk full".to_string())));
    assert_eq!(*f.notice(), None);
    let g = f.begin(Vec::new(), Vec::new(), Vec::new()).unwrap();
    assert_eq!(f.save_generation(), None);
    assert!(f.apply_outcome(g, Ok(Prepared { view: "body", sse: false, report: None })));
    assert_eq!(f.save_generation(), Some(g));
    assert!(f.report_save(g, Err("disk full".to_string())));
    assert_eq!(*f.notice(), Some(Notice::SaveFailed("disk full".to_string())));
    assert!(f.report_save(g, Ok("/tmp/response.json".to_string())));
    assert_eq!(*f.notice(), Some(Notice::SavedTo("/tmp/response.json".to_string())));
}

#[test]
fn no_save_is_taken_while_a_request_is_in_flight() {
    let mut f: Flow = ResponseFlow::new();
    let g = f.begin(Vec::new(), Vec::new(), Vec::new()).unwrap();
    assert_eq!(f.save_generation(), None);
    assert!(!f.report_save(g, Ok("/tmp/x".to_string())));
    assert_eq!(*f.notice(), None);
    assert!(f.apply_outcome(g, Err(Failure::Error("offline"))));
    assert_eq!(f.save_generation(), None);
    assert!(!f.report_save(g, Ok("/tmp/x".to_string())));
}

#[test]
fn the_save_dialog_suggests_a_name_by_content() {
    assert_eq!(suggested_save_name(ContentKind::Json), "response.json");
    assert_eq!(suggested_save_name(ContentKind::Binary), "response.bin");
    assert_eq!(suggested_save_name(ContentKind::Text), "response.txt");
}

#[test]
fn a_send_keeps_the_names_it_could_not_resolve_until_cleared() {
    let mut f: Flow = ResponseFlow::new();
    let g = f.begin(Vec::new(), Vec::new(), vec!["host".to_string(), "token".to_string()]).unwrap();
    assert_eq!(*f.unresolved(), vec!["host".to_string(), "token".to_string()]);
    assert!(f.on_progress(g, 1, None));
    assert!(f.apply_outcome(g, Ok(Prepared { view: "body", sse: false, report: None })));
    assert_eq!(f.unresolved().len(), 2);
    assert!(f.clear());
    assert!(f.unresolved().is_empty());
    assert!(!f.clear());
}

#[test]
fn unresolved_names_are_kept_sorted_and_once() {
    let mut f: Flow = ResponseFlow::new();
    let names = vec!["token".to_string(), "host".to_string(), "token".to_string(), "Host".to_string(), "ho".to_string()];
    f.begin(Vec::new(), Vec::new(), names).unwrap();
    assert_eq!(
        *f.unresolved(),
        vec!["Host".to_string(), "ho".to_string(), "host".to_string(), "token".to_string()]
    );
}

#[test]
fn a_rejected_send_shows_its_unresolved_names_until_the_url_changes() {
    let mut f: Flow = ResponseFlow::new();
    assert!(f.reject_send("invalid URL", vec!["base".to_string()]));
    assert_eq!(*f.unresolved(), vec!["base".to_string()]);
    f.clear_send_hints();
    assert_eq!(*f.prepare_error(), None);
    assert!(f.unresolved().is_empty());
    let g = f.begin(Vec::new(), Vec::new(), vec!["x".to_string()]).unwrap();
    assert!(!f.reject_send("again", Vec::new()));
    assert_eq!(*f.unresolved(), vec!["x".to_string()]);
    assert!(f.cancel());
    assert_eq!(*f.unresolved(), vec!["x".to_string()]);
    assert!(!f.on_progress(g, 1, None));
}

#[test]
fn find_opens_the_body_or_shows_a_notice() {
    let mut f: Flow = ResponseFlow::new();
    f.set_section(ResponseSection::Headers);
    f.apply_find(FindAction::Notify(Notice::NoResponse));
    assert_eq!(*f.notice(), Some(Notice::NoResponse));
    assert_eq!(f.section(), ResponseSection::Headers);
    f.apply_find(FindAction::Search { switched: true });
    assert_eq!(*f.notice(), None);
    assert_eq!(f.section(), ResponseSection::Body);
}

#[test]
fn saved_names_win_over_url_titles() {
    assert_eq!(display_title(&Some("Users".to_string()), "https://h/x", "New"), "Users");
    assert_eq!(display_title(&None, "https://h/x", "New"), "/x");
}

#[test]
fn content_type_rows_count_only_when_enabled() {
    let rows = vec![("Accept".to_string(), true), (" content-TYPE ".to_string(), false)];
    assert!(!has_user_content_type(&rows));
    let rows = vec![("Accept".to_string(), true), (" content-TYPE ".to_string(), true)];
    assert!(has_user_content_type(&rows));
    assert!(!has_user_content_type(&Vec::new()));
}

#[test]
fn header_text_is_one_line_per_header() {
    let rows = vec![
        ("Content-Type".to_string(), "text/plain".to_string()),
        ("X-A".to_string(), "1".to_string()),
    ];
    assert_eq!(copy_headers_text(&rows), "Content-Type: text/plain\nX-A: 1");
    assert_eq!(copy_headers_text(&Vec::new()), "");
}

#[test]
fn pretty_falls_back_to_raw() {
    let pretty = Some(1);
    let raw = Some(2);
    assert_eq!(pick_doc(&pretty, &raw, true), Some(&1));
    assert_eq!(pick_doc(&pretty, &raw, false), Some(&2));
    assert_eq!(pick_doc(&None, &raw, true), Some(&2));
    assert_eq!(pick_doc::<i32>(&None, &None, true), None);
}

#[test]
fn a_streamed_response_keeps_its_time_to_first_delta() {
    let mut f: Flow = ResponseFlow::new();
    let g = f.begin(Vec::new(), Vec::new(), Vec::new()).unwrap();
    assert!(!f.on_event(g, true, 5));
    assert!(f.on_head(g, true));
    assert!(f.on_chunk(g, 100));
    assert!(f.on_event(g, true, 40));
    assert!(f.on_event(g, true, 90));
    assert!(f.apply_outcome(g, Ok(Prepared { view: "events", sse: true, report: None })));
    match f.state() {
        ResponseState::Done { first_delta, .. } => assert_eq!(*first_delta, Some(40)),
        _ => panic!("expected Done"),
    }
    let g = f.begin(Vec::new(), Vec::new(), Vec::new()).unwrap();
    assert!(f.on_head(g, true));
    assert!(f.on_event(g, true, 7));
    assert!(f.apply_outcome(g, Ok(Prepared { view: "spilled", sse: false, report: None })));
    match f.state() {
        ResponseState::Done { first_delta, .. } => assert_eq!(*first_delta, None),
        _ => panic!("expected Done"),
    }
}

#[test]
fn the_live_view_stops_taking_chunks_at_the_cap() {
    let mut f: Flow = ResponseFlow::new();
    let g = f.begin(Vec::new(), Vec::new(), Vec::new()).unwrap();
    assert!(f.on_head(g, false));
    assert!(!f.on_chunk(g, 10));
    assert!(f.on_head(g, true));
    assert!(f.on_chunk(g, LIVE_CAP_BYTES - 1));
    assert!(f.on_chunk(g, 10));
    assert!(!f.on_chunk(g, 10));
    match f.state() {
        ResponseState::InFlight { live_bytes, .. } => assert_eq!(*live_bytes, LIVE_CAP_BYTES + 9),
        _ => panic!("expected InFlight"),
    }
    assert!(!f.on_chunk(g + 1, 1));
}

#[test]
fn a_new_tab_shows_no_body_params_and_pretty_text() {
    let v = TabView::new(true, false);
    assert_eq!(v.applied_wrap(), (true, false));
    assert_eq!(v.raw_format, RawFormat::Json);
    assert_eq!(v.body_mode, BodyMode::NoBody);
    assert_eq!(v.request_section, RequestSection::Params);
    assert_eq!(v.response_section, ResponseSection::Body);
    assert!(v.pretty);
    assert_eq!(v.sse_mode, SseBodyMode::Text);
}

#[test]
fn wrap_follows_the_preference_and_reports_what_to_rewrap() {
    let mut v = TabView::new(true, false);
    assert_eq!(v.sync_wrap(true, false), (false, false));
    assert_eq!(v.sync_wrap(false, false), (true, false));
    assert_eq!(v.applied_wrap(), (false, false));
    assert_eq!(v.sync_wrap(true, true), (true, true));
    assert_eq!(v.applied_wrap(), (true, true));
    assert_eq!(v.body_mode, BodyMode::NoBody);
}

#[test]
fn loading_a_draft_shows_its_body() {
    let mut v = TabView::new(true, false);
    assert_eq!(v.load_body(&BodyKind::Raw { format: RawFormat::Xml }), None);
    assert_eq!((v.body_mode, v.raw_format), (BodyMode::Raw, RawFormat::Xml));
    assert_eq!(v.load_body(&BodyKind::FormData), None);
    assert_eq!((v.body_mode, v.raw_format), (BodyMode::FormData, RawFormat::Xml));
    assert_eq!(v.load_body(&BodyKind::Binary { path: "/tmp/a.bin".to_string() }), Some("/tmp/a.bin".to_string()));
    assert_eq!(v.body_mode, BodyMode::Binary);
    assert_eq!(v.load_body(&BodyKind::Binary { path: String::new() }), None);
    assert_eq!(v.load_body(&BodyKind::FormUrlEncoded), None);
    assert_eq!(v.body_mode, BodyMode::FormUrlEncoded);
    assert_eq!(v.load_body(&BodyKind::NoBody), None);
    assert_eq!(v.body_mode, BodyMode::NoBody);
    assert_eq!(v.applied_wrap(), (true, false));
}

#[test]
fn the_live_view_counts_events_and_the_first_delta() {
    let mut f: Flow = ResponseFlow::new();
    let g = f.begin(Vec::new(), Vec::new(), Vec::new()).unwrap();
    assert!(f.on_head(g, true));
    // A first chunk ends inside an event: nothing parsed yet.
    assert!(f.on_chunk(g, 40));
    match f.state() {
        ResponseState::InFlight { event_count, first_delta, .. } => {
            assert_eq!((*event_count, *first_delta), (0, None));
        }
        _ => panic!("expected InFlight"),
    }
    // The rest completes a content delta and the end marker, 30 ms in.
    assert!(f.on_chunk(g, 40));
    assert!(f.on_event(g, true, 30));
    assert!(f.on_event(g, false, 30));
    match f.state() {
        ResponseState::InFlight { event_count, first_delta, live_bytes, .. } => {
            assert_eq!((*event_count, *first_delta, *live_bytes), (2, Some(30), 80));
        }
        _ => panic!("expected InFlight"),
    }
    assert!(!f.on_event(g + 1, true, 50));
}

#[test]
fn events_without_content_leave_the_first_delta_open() {
    let mut f: Flow = ResponseFlow::new();
    let g = f.begin(Vec::new(), Vec::new(), Vec::new()).unwrap();
    assert!(!f.on_event(g, false, 1));
    assert!(f.on_head(g, true));
    assert!(f.on_event(g, false, 10));
    assert!(f.on_event(g, true, 20));
    match f.state() {
        ResponseState::InFlight { event_count, first_delta, .. } => {
            assert_eq!((*event_count, *first_delta), (2, Some(20)));
        }
        _ => panic!("expected InFlight"),
    }
}

#[test]
fn prepared_documents_follow_kind_and_storage() {
    let none = DocPlan { raw: false, raw_is_preview: false, pretty: false, sse: false };
    assert_eq!(doc_plan(ContentKind::Binary, true, true), none);
    assert_eq!(doc_plan(ContentKind::Binary, false, false), none);
    assert_eq!(
        doc_plan(ContentKind::Json, true, false),
        DocPlan { raw: true, raw_is_preview: false, pretty: true, sse: false }
    );
    assert_eq!(
        doc_plan(ContentKind::Text, true, true),
        DocPlan { raw: true, raw_is_preview: false, pretty: false, sse: true }
    );
    assert_eq!(
        doc_plan(ContentKind::Json, false, true),
        DocPlan { raw: true, raw_is_preview: true, pretty: false, sse: false }
    );
}

#[test]
fn a_loaded_body_comes_back_out() {
    let kinds = vec![
        BodyKind::NoBody,
        BodyKind::Raw { format: RawFormat::Xml },
        BodyKind::FormData,
        BodyKind::FormUrlEncoded,
        BodyKind::Binary { path: "/tmp/upload.bin".to_string() },
        BodyKind::Binary { path: String::new() },
    ];
    for kind in kinds {
        let mut v = TabView::new(true, false);
        v.load_body(&BodyKind::Raw { format: RawFormat::Text });
        let file = v.load_body(&kind);
        assert_eq!(v.body_kind(&file), kind);
    }
}
