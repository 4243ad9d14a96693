use memvid_export_api::index::{
    build_from_frames, build_index_from_request, derive_community_membership, derive_hotspots,
    derive_process_steps, derive_symbols, normalize_symbol, parse_id_line, parse_node_label,
    parse_relation_type, parse_step_from_text, sidecar_path_for_capsule, CapsuleIndex,
    EdgeRecord, NodeRecord, RawFrame, RawFrameMeta,
};
use memvid_export_api::models::{
    ExportOptions, ExportRequest, ExportSourceDescriptor, GraphNode, GraphRelationship,
    NodeProperties,
};
use memvid_export_api::tools::{
    tool_call_trace, tool_callers_of, tool_file_outline, tool_file_snippet,
    tool_impact_analysis, tool_manifest_get, tool_node_get, tool_process_get,
    tool_query_explain, tool_symbol_lookup, tool_text_search, ToolErrorKind,
};
use memvid_export_api::transform::build_frame_documents;

fn props(name: &str, file: &str) -> NodeProperties {
    NodeProperties {
        name: name.to_string(),
        file_path: file.to_string(),
        start_line: Some(1),
        end_line: Some(2),
        language: None,
        is_exported: None,
        heuristic_label: None,
        cohesion_milli: None,
        symbol_count: None,
        keywords: None,
        description: None,
        enriched_by: None,
        process_type: None,
        step_count: None,
        communities: None,
        entry_point_id: None,
        terminal_id: None,
        entry_point_score_milli: None,
        entry_point_reason: None,
    }
}

fn request_with_symbols() -> ExportRequest {
    ExportRequest {
        session_id: "s".to_string(),
        project_name: "p".to_string(),
        source: ExportSourceDescriptor {
            source_type: "local".to_string(),
            base_name: "p".to_string(),
            display_name: "p".to_string(),
            url: None,
            branch: None,
            original_file_name: None,
            folder_name: None,
        },
        nodes: vec![
            GraphNode { id: "n1".to_string(), label: "Function".to_string(), properties: props("foo", "a.rs") },
            GraphNode { id: "n2".to_string(), label: "Function".to_string(), properties: props("foo_bar", "a.rs") },
            GraphNode { id: "n3".to_string(), label: "Function".to_string(), properties: props("xfoo", "b.rs") },
        ],
        relationships: vec![
            GraphRelationship {
                id: "r1".to_string(),
                source_id: "n1".to_string(),
                target_id: "n2".to_string(),
                relation_type: "CALLS".to_string(),
                confidence_milli: 900,
                reason: "call".to_string(),
                step: None,
            },
        ],
        file_contents: vec![],
        options: ExportOptions {
            semantic_enabled: false,
            max_snippet_chars: 400,
            max_node_frames: 100,
            max_relation_frames: 100,
        },
    }
}

fn built_index() -> CapsuleIndex {
    let req = request_with_symbols();
    let docs = build_frame_documents(&req);
    build_index_from_request(&docs, "/tmp/p.mv2", false, None, 0)
}

#[test]
fn symbol_lookup_ranking() {
    let index = built_index();
    let out = tool_symbol_lookup(&index, &"foo".to_string(), None, None).expect("lookup");
    let names: Vec<&str> = out.items.iter().map(|i| i.symbol.as_str()).collect();
    assert_eq!(names, vec!["foo", "foo_bar", "xfoo"]);
    let scores: Vec<u64> = out.items.iter().map(|i| i.score_micro).collect();
    assert_eq!(scores, vec![1_000_000, 920_000, 780_000]);
    assert!(!out.truncated);
    assert!(out.next_cursor.is_none());
}

#[test]
fn symbol_lookup_rejects_empty_queries() {
    let index = built_index();
    let err = tool_symbol_lookup(&index, &"***".to_string(), None, None).unwrap_err();
    assert!(matches!(err.kind, ToolErrorKind::InvalidArgument));
}

#[test]
fn symbol_lookup_paginates_with_cursors() {
    let index = built_index();
    let first = tool_symbol_lookup(&index, &"foo".to_string(), Some(2), None).expect("page one");
    assert_eq!(first.items.len(), 2);
    assert!(first.truncated);
    let cursor_text = first.next_cursor.clone().expect("cursor");
    let cursor = memvid_export_api::tools::decode_cursor(cursor_text.as_str()).expect("decode");
    let second =
        tool_symbol_lookup(&index, &"foo".to_string(), Some(2), Some(cursor)).expect("page two");
    assert_eq!(second.items.len(), 1);
    assert_eq!(second.items[0].symbol.as_str(), "xfoo");
    assert!(!second.truncated);
}

#[test]
fn node_get_reports_degrees() {
    let index = built_index();
    let out = tool_node_get(&index, &"n1".to_string()).expect("node");
    assert_eq!(out.node.id.as_str(), "n1");
    assert_eq!(out.out_degree, 1);
    assert_eq!(out.in_degree, 0);
    let err = tool_node_get(&index, &"missing".to_string()).unwrap_err();
    assert!(matches!(err.kind, ToolErrorKind::NotFound));
}

#[test]
fn callers_use_confidence_scores() {
    let index = built_index();
    let out = tool_callers_of(&index, &"n2".to_string(), None, None).expect("callers");
    assert_eq!(out.items.len(), 1);
    assert_eq!(out.items[0].edge.source_id.as_str(), "n1");
    assert_eq!(out.items[0].score_micro, 700_000 + 300 * 900);
}

#[test]
fn text_search_scores_by_term_share() {
    let index = built_index();
    let out = tool_text_search(&index, &"foo nothingmatchesthis".to_string(), None, None, None)
        .expect("search");
    assert!(!out.items.is_empty());
    for item in &out.items {
        assert_eq!(item.score_micro, 500_000);
    }
}

#[test]
fn file_snippet_respects_char_budget() {
    let index = built_index();
    let out = tool_file_snippet(&index, Some("n1".to_string()), None, Some(80)).expect("snippet");
    assert_eq!(out.max_chars, 80);
    assert!(out.snippet.chars().count() <= 80 + "\n...[truncated]".chars().count());
}

#[test]
fn process_get_requires_a_process_node() {
    let index = built_index();
    let err = tool_process_get(&index, &"n1".to_string()).unwrap_err();
    assert!(matches!(err.kind, ToolErrorKind::InvalidArgument));
    let err2 = tool_process_get(&index, &"missing".to_string()).unwrap_err();
    assert!(matches!(err2.kind, ToolErrorKind::NotFound));
}

#[test]
fn manifest_reports_counts() {
    let index = built_index();
    let out = tool_manifest_get(&index);
    assert_eq!(out.node_count, index.nodes.len());
    assert_eq!(out.edge_count, 1);
    assert_eq!(out.fulltext_count, index.fulltext.len());
}

#[test]
fn sidecar_roundtrip_preserves_sets() {
    let index = built_index();
    let rows = index.to_sidecar_rows();
    let loaded = CapsuleIndex::from_sidecar_rows("/tmp/p.mv2", rows);
    assert_eq!(loaded.nodes.len(), index.nodes.len());
    for (a, b) in loaded.nodes.iter().zip(index.nodes.iter()) {
        assert_eq!(a.id, b.id);
        assert_eq!(a.name, b.name);
        assert_eq!(a.file_path, b.file_path);
        assert_eq!(a.uri, b.uri);
    }
    assert_eq!(loaded.edges.len(), index.edges.len());
    for (a, b) in loaded.edges.iter().zip(index.edges.iter()) {
        assert_eq!(a.id, b.id);
        assert_eq!(a.source_id, b.source_id);
        assert_eq!(a.target_id, b.target_id);
        assert_eq!(a.confidence_milli, b.confidence_milli);
    }
    assert_eq!(loaded.process_steps.len(), index.process_steps.len());
    for (a, b) in loaded.process_steps.iter().zip(index.process_steps.iter()) {
        assert_eq!(a.process_id, b.process_id);
        assert_eq!(a.step, b.step);
        assert_eq!(a.function_id, b.function_id);
    }
    assert_eq!(loaded.capsule_path.as_str(), "/tmp/p.mv2");
    assert_eq!(loaded.sidecar_path.as_str(), "/tmp/p.mv2.index.v1.sqlite");
}

fn node_record(id: &str, name: &str, file: &str) -> NodeRecord {
    NodeRecord {
        id: id.to_string(),
        label: "Function".to_string(),
        name: name.to_string(),
        file_path: file.to_string(),
        start_line: None,
        end_line: None,
        language: None,
        uri: format!("mv2://nodes/{id}"),
        title: name.to_string(),
        search_text: String::new(),
        communities: vec![],
    }
}

fn edge(id: &str, s: &str, t: &str, kind: &str, step: Option<usize>) -> EdgeRecord {
    EdgeRecord {
        id: id.to_string(),
        relation_type: kind.to_string(),
        source_id: s.to_string(),
        target_id: t.to_string(),
        confidence_milli: 1000,
        reason: String::new(),
        step,
        uri: format!("mv2://relations/{id}"),
        search_text: String::new(),
    }
}

#[test]
fn hotspot_scores_and_order_are_exact() {
    let nodes = vec![
        node_record("n1", "a", "hot.rs"),
        node_record("n2", "b", "hot.rs"),
        node_record("n3", "c", "cold.rs"),
    ];
    let edges = vec![
        edge("r1", "n1", "n3", "CALLS", None),
        edge("r2", "n2", "n3", "CALLS", None),
        edge("r3", "n3", "n1", "CALLS", None),
    ];
    let hotspots = derive_hotspots(&nodes, &edges);
    assert_eq!(hotspots.len(), 2);
    assert_eq!(hotspots[0].file_path.as_str(), "hot.rs");
    assert_eq!(hotspots[0].calls_count, 2);
    assert_eq!(hotspots[0].node_count, 2);
    assert_eq!(hotspots[0].score, 22);
    assert_eq!(hotspots[1].file_path.as_str(), "cold.rs");
    assert_eq!(hotspots[1].score, 11);
}

#[test]
fn process_steps_sorted_and_disambiguated() {
    let edges = vec![
        edge("e2", "fn_b", "proc_p", "STEP_IN_PROCESS", Some(2)),
        edge("e1", "fn_a", "proc_p", "STEP_IN_PROCESS", Some(1)),
        edge("e3", "n1", "n2", "CALLS", None),
    ];
    let steps = derive_process_steps(&edges);
    assert_eq!(steps.len(), 2);
    assert_eq!(steps[0].step, 1);
    assert_eq!(steps[0].function_id.as_str(), "fn_a");
    assert_eq!(steps[0].process_id.as_str(), "proc_p");
    assert_eq!(steps[1].step, 2);
}

#[test]
fn symbols_deduplicate_and_normalize() {
    let nodes = vec![
        node_record("n1", "Foo::Bar", "a.rs"),
        node_record("n1", "Foo::Bar", "a.rs"),
        node_record("n2", "", "a.rs"),
    ];
    let symbols = derive_symbols(&nodes);
    assert_eq!(symbols.len(), 1);
    assert_eq!(symbols[0].symbol_norm.as_str(), "foo bar");
    assert_eq!(normalize_symbol("Foo::Bar").as_str(), "foo bar");
}

#[test]
fn community_membership_expands_lists() {
    let mut n = node_record("n1", "a", "a.rs");
    n.communities = vec!["c1".to_string(), "c2".to_string()];
    let recs = derive_community_membership(&vec![n]);
    assert_eq!(recs.len(), 2);
    assert_eq!(recs[0].community_id.as_str(), "c1");
    assert_eq!(recs[1].community_id.as_str(), "c2");
}

#[test]
fn capsule_frame_parsing_fallbacks() {
    assert_eq!(parse_node_label("Node Widget\nid=w1\n").unwrap().as_str(), "Widget");
    assert_eq!(parse_id_line("Node W\nid=w1\n").unwrap().as_str(), "w1");
    assert_eq!(
        parse_relation_type("Relationship CALLS\nsource=a\n").unwrap().as_str(),
        "CALLS"
    );
    assert_eq!(parse_step_from_text("x\nstep= 7 \ny"), Some(7));
    assert_eq!(parse_step_from_text("x\nstep=oops\ny"), None);
}

#[test]
fn rebuild_from_frames_classifies_by_uri() {
    let frames = vec![
        RawFrame {
            uri: "mv2://nodes/n1".to_string(),
            track: "nodes/Function".to_string(),
            text: "Node Function\nid=n1\nname=foo\nfilePath=a.rs\n".to_string(),
            meta: None,
        },
        RawFrame {
            uri: "mv2://relations/r1".to_string(),
            track: "relations/CALLS".to_string(),
            text: "Relationship CALLS\nstep=3\n".to_string(),
            meta: Some(RawFrameMeta {
                id: Some("r1".to_string()),
                relation_type: None,
                source_id: Some("n1".to_string()),
                target_id: Some("n1".to_string()),
                confidence_milli: Some(500),
                reason: None,
                step: None,
                start_line: None,
                end_line: None,
                language: None,
                communities: vec![],
            }),
        },
        RawFrame {
            uri: "mv2://meta/manifest".to_string(),
            track: "meta".to_string(),
            text: "manifest".to_string(),
            meta: None,
        },
    ];
    let index = build_from_frames("/tmp/c.mv2", &frames, false, Some("{}".to_string()), 9);
    assert_eq!(index.nodes.len(), 1);
    assert_eq!(index.nodes[0].id.as_str(), "n1");
    assert_eq!(index.nodes[0].name.as_str(), "foo");
    assert_eq!(index.edges.len(), 1);
    assert_eq!(index.edges[0].id.as_str(), "r1");
    // the text fallback supplies both the relation type and the step
    assert_eq!(index.edges[0].relation_type.as_str(), "CALLS");
    assert_eq!(index.edges[0].step, Some(3));
    assert_eq!(index.fulltext.len(), 3);
    assert_eq!(index.fulltext[2].ref_kind.as_str(), "manifest");
    assert!(index.capabilities.has_manifest);
}

#[test]
fn sidecar_path_appends_the_index_suffix() {
    assert_eq!(
        sidecar_path_for_capsule("/data/exports/j/p.mv2").as_str(),
        "/data/exports/j/p.mv2.index.v1.sqlite"
    );
}

#[test]
fn metadata_object_extraction() {
    let text = "Node X\nid=n1\n\nmetadata={\"id\":\"n1\",\"nested\":{\"a\":1}} trailing";
    let m = memvid_export_api::index::extract_metadata_json(text).expect("object");
    assert_eq!(m.as_str(), "{\"id\":\"n1\",\"nested\":{\"a\":1}}");
    assert_eq!(memvid_export_api::index::extract_metadata_json("no marker here"), None);
    assert_eq!(memvid_export_api::index::extract_metadata_json("metadata= no brace"), None);
}

#[test]
fn text_search_scope_filters_by_uri_or_track() {
    let index = built_index();
    let scoped = tool_text_search(
        &index,
        &"foo".to_string(),
        Some("RELATIONS".to_string()),
        None,
        None,
    )
    .expect("search");
    for item in &scoped.items {
        let uri_hit = item.uri.to_ascii_lowercase().contains("relations");
        let track_hit = item.track.to_ascii_lowercase().contains("relations");
        assert!(uri_hit || track_hit);
    }
    let everywhere =
        tool_text_search(&index, &"foo".to_string(), None, None, None).expect("search");
    assert!(everywhere.items.len() >= scoped.items.len());
}

#[test]
fn query_explain_routes_by_task_class() {
    let debug = tool_query_explain(Some("Debug a crash".to_string()));
    assert_eq!(debug.recommended_tools[0].as_str(), "text_search");
    assert_eq!(debug.recommended_tools[2].as_str(), "call_trace");
    let arch = tool_query_explain(Some("subsystem overview".to_string()));
    assert_eq!(arch.recommended_tools[0].as_str(), "community_list");
    let general = tool_query_explain(None);
    assert_eq!(general.recommended_tools.len(), 5);
    assert_eq!(general.recommended_tools[4].as_str(), "file_outline");
}

#[test]
fn call_trace_follows_calls_edges() {
    let index = built_index();
    // without a target the direct callees come back as two-node paths
    let out = tool_call_trace(&index, &"n1".to_string(), None, None, None).expect("trace");
    assert_eq!(out.paths.len(), 1);
    assert_eq!(out.paths[0], vec!["n1".to_string(), "n2".to_string()]);
    // with a target, only paths ending there
    let targeted =
        tool_call_trace(&index, &"n1".to_string(), Some("n2".to_string()), None, None)
            .expect("trace");
    assert_eq!(targeted.paths.len(), 1);
    assert_eq!(targeted.paths[0].last().unwrap().as_str(), "n2");
    let missing =
        tool_call_trace(&index, &"nope".to_string(), None, None, None).unwrap_err();
    assert!(matches!(missing.kind, ToolErrorKind::NotFound));
}

#[test]
fn impact_analysis_sorts_by_name() {
    let index = built_index();
    let out = tool_impact_analysis(&index, &"n1".to_string(), None).expect("impact");
    let names: Vec<&str> = out.impacted_nodes.iter().map(|n| n.name.as_str()).collect();
    let mut sorted_names = names.clone();
    sorted_names.sort();
    assert_eq!(names, sorted_names);
    assert!(names.contains(&"foo"));
    assert!(names.contains(&"foo_bar"));
    // the single CALLS edge touches the impacted pair
    assert_eq!(out.impacted_edge_count, 1);
}

#[test]
fn file_outline_orders_by_line_then_name() {
    let index = built_index();
    let out = tool_file_outline(&index, &"a.rs".to_string()).expect("outline");
    assert_eq!(out.file_path.as_str(), "a.rs");
    assert_eq!(out.symbols.len(), 2);
    assert_eq!(out.symbols[0].name.as_str(), "foo");
    assert_eq!(out.symbols[1].name.as_str(), "foo_bar");
    let missing = tool_file_outline(&index, &"zzz.rs".to_string()).unwrap_err();
    assert!(matches!(missing.kind, ToolErrorKind::NotFound));
}
