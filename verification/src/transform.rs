//! Transform stage: turns an export request into the frame documents the
//! capsule writer consumes — one per node (with a bounded source snippet),
//! one per relationship, a manifest document and the guidance documents.
use vstd::prelude::*;
use vstd::string::*;

use crate::models::{
    ExportRequest, FrameDocument, FrameMeta, GraphNode, GraphRelationship, NodeFrameMeta,
    RelationFrameMeta,
};
use crate::strutil::{
    push_char, spec_decimal, spec_starts_with, str_eq_str, u64_to_string, usize_to_string,
};

verus! {

/// Appended to a snippet cut at the character budget.
pub const SNIPPET_MARKER: &'static str = "\n...[truncated]";

/// Truncation to a character budget: the input unchanged when it fits,
/// else its first `max_chars` characters plus the fixed marker.
pub fn truncate_chars(input: &str, max_chars: usize) -> (r: String)
    ensures
        input@.len() <= max_chars ==> r@ == input@,
        input@.len() > max_chars ==> r@ == input@.take(max_chars as int) + SNIPPET_MARKER@,
        r@.len() <= max_chars + SNIPPET_MARKER@.len(),
{
    let n = input.unicode_len();
    if n <= max_chars {
        proof {
            reveal_strlit("\n...[truncated]");
        }
        String::from_str(input)
    } else {
        let mut s = String::from_str(input.substring_char(0, max_chars));
        s.append(SNIPPET_MARKER);
        proof {
            reveal_strlit("\n...[truncated]");
        }
        s
    }
}

/// Track a node document is stored under, by its label.
pub open spec fn spec_node_track(label: Seq<char>) -> Seq<char> {
    if label == "Community"@ {
        "communities"@
    } else if label == "Process"@ {
        "processes"@
    } else if label == "File"@ {
        "files"@
    } else {
        "nodes/"@ + label
    }
}

pub fn node_track(node_label: &str) -> (r: String)
    ensures
        r@ == spec_node_track(node_label@),
{
    if str_eq_str(node_label, "Community") {
        String::from_str("communities")
    } else if str_eq_str(node_label, "Process") {
        String::from_str("processes")
    } else if str_eq_str(node_label, "File") {
        String::from_str("files")
    } else {
        let mut s = String::from_str("nodes/");
        s.append(node_label);
        s
    }
}

/// The line window of a snippet: the requested lines clamped into the
/// file, with a label-dependent default height (80 lines for a file node,
/// 40 otherwise).
pub fn build_snippet(
    file_content: Option<&String>,
    start_line: Option<usize>,
    end_line: Option<usize>,
    max_chars: usize,
    label: &str,
) -> (r: String)
    ensures
        file_content is None ==> r@ == "<no source content available>"@,
        r@.len() <= (if max_chars >= 80 {
            max_chars as int
        } else {
            80int
        }) + SNIPPET_MARKER@.len(),
{
    let content = match file_content {
        Some(c) => c,
        None => {
            proof {
                reveal_strlit("<no source content available>");
                reveal_strlit("\n...[truncated]");
            }
            return String::from_str("<no source content available>");
        },
    };
    let floor: usize = if max_chars >= 80 {
        max_chars
    } else {
        80
    };
    // line boundaries of the content
    let n = content.as_str().unicode_len();
    let mut i: usize = 0;
    let mut starts: Vec<usize> = Vec::new();
    starts.push(0);
    while i < n
        invariant
            n == content@.len(),
            0 <= i <= n,
            starts.len() >= 1,
            forall|k: int| 0 <= k < starts.len() ==> (#[trigger] starts[k]) <= n,
        decreases n - i,
    {
        if content.as_str().get_char(i) == '\n' {
            if i < n {
                starts.push(i + 1);
            }
        }
        i += 1;
    }
    let total_lines: usize = if n == 0 {
        0
    } else {
        starts.len()
    };
    let default_end: usize = if str_eq_str(label, "File") {
        if total_lines < 80 {
            total_lines
        } else {
            80
        }
    } else {
        if total_lines < 40 {
            total_lines
        } else {
            40
        }
    };
    let max1: usize = if total_lines >= 1 {
        total_lines
    } else {
        1
    };
    let s0: usize = match start_line {
        Some(v) => if v < 1 {
            1
        } else {
            v
        },
        None => 1,
    };
    let start = if s0 > max1 {
        max1
    } else {
        s0
    };
    let e0: usize = match end_line {
        Some(v) => v,
        None => default_end,
    };
    let e1 = if e0 < start {
        start
    } else {
        e0
    };
    let end = if e1 > max1 {
        max1
    } else {
        e1
    };
    let snippet: String = if total_lines == 0 {
        String::new()
    } else {
        let from = starts[start - 1];
        let to: usize = if end < starts.len() {
            let boundary = starts[end];
            if boundary > 0 {
                boundary - 1
            } else {
                0
            }
        } else {
            n
        };
        let lo = if from <= n {
            from
        } else {
            n
        };
        let hi = if to >= lo {
            if to <= n {
                to
            } else {
                n
            }
        } else {
            lo
        };
        String::from_str(content.as_str().substring_char(lo, hi))
    };
    truncate_chars(snippet.as_str(), floor)
}

fn join_tags(session_id: &String, extra_key: &'static str, extra_val: &String) -> (r: Vec<String>)
    ensures
        r.len() == 3,
{
    let mut tags: Vec<String> = Vec::new();
    tags.push(String::from_str("source=gitnexus"));
    let mut t = String::from_str(extra_key);
    t.append(extra_val.as_str());
    tags.push(t);
    let mut sid = String::from_str("sessionId=");
    sid.append(session_id.as_str());
    tags.push(sid);
    tags
}

/// Confidence in thousandths rendered as a three-decimal fraction of one;
/// values past one whole point read as one.
pub fn confidence_text(milli_raw: u32) -> (r: String)
    ensures
        r@.len() >= 5,
{
    let milli: u32 = if milli_raw > 1000 {
        1000
    } else {
        milli_raw
    };
    let mut s = u64_to_string((milli / 1000) as u64);
    push_char(&mut s, '.');
    let frac = milli % 1000;
    let d1 = (frac / 100) as u64;
    let d2 = ((frac / 10) % 10) as u64;
    let d3 = (frac % 10) as u64;
    let mut f = u64_to_string(d1);
    s.append(f.as_str());
    let f2 = u64_to_string(d2);
    s.append(f2.as_str());
    let f3 = u64_to_string(d3);
    s.append(f3.as_str());
    proof {
        assert(spec_decimal(d1 as int).len() == 1);
        assert(spec_decimal(d2 as int).len() == 1);
        assert(spec_decimal(d3 as int).len() == 1);
        assert(spec_decimal((milli / 1000) as int).len() >= 1);
    }
    s
}

/// One frame document per node (up to the node frame budget), one per
/// relationship (up to the relation frame budget), then the manifest
/// document and the four guidance documents. Node documents carry the
/// node's identity and its bounded snippet; relation documents carry the
/// typed relationship fields.
pub fn build_frame_documents(req: &ExportRequest) -> (r: Vec<FrameDocument>)
    ensures
        r.len() == (if req.options.max_node_frames <= req.nodes.len() {
            req.options.max_node_frames as int
        } else {
            req.nodes.len() as int
        }) + (if req.options.max_relation_frames <= req.relationships.len() {
            req.options.max_relation_frames as int
        } else {
            req.relationships.len() as int
        }) + 5,
        forall|k: int|
            0 <= k < (if req.options.max_node_frames <= req.nodes.len() {
                req.options.max_node_frames as int
            } else {
                req.nodes.len() as int
            }) ==> (#[trigger] r[k].meta) is NodeFrame && spec_doc_meta_of_node(
                r[k],
                req.nodes[k],
            ),
        forall|k: int|
            {
                let nl = (if req.options.max_node_frames <= req.nodes.len() {
                    req.options.max_node_frames as int
                } else {
                    req.nodes.len() as int
                });
                let rl = (if req.options.max_relation_frames <= req.relationships.len() {
                    req.options.max_relation_frames as int
                } else {
                    req.relationships.len() as int
                });
                nl <= k < nl + rl ==> (#[trigger] r[k].meta) is RelationFrame
                    && spec_doc_meta_of_relation(r[k], req.relationships[k - nl])
            },
{
    let node_limit: usize = if req.options.max_node_frames <= req.nodes.len() {
        req.options.max_node_frames
    } else {
        req.nodes.len()
    };
    let relation_limit: usize = if req.options.max_relation_frames <= req.relationships.len() {
        req.options.max_relation_frames
    } else {
        req.relationships.len()
    };
    let mut documents: Vec<FrameDocument> = Vec::new();
    let mut i: usize = 0;
    while i < node_limit
        invariant
            0 <= i <= node_limit <= req.nodes.len(),
            documents.len() == i,
            forall|k: int|
                0 <= k < i ==> (#[trigger] documents[k].meta) is NodeFrame
                    && spec_doc_meta_of_node(documents[k], req.nodes[k]),
        decreases node_limit - i,
    {
        let doc = build_node_document(req, &req.nodes[i]);
        documents.push(doc);
        i += 1;
    }
    let mut j: usize = 0;
    while j < relation_limit
        invariant
            0 <= j <= relation_limit <= req.relationships.len(),
            documents.len() == node_limit + j,
            node_limit <= req.nodes.len(),
            forall|k: int|
                0 <= k < node_limit ==> (#[trigger] documents[k].meta) is NodeFrame
                    && spec_doc_meta_of_node(documents[k], req.nodes[k]),
            forall|k: int|
                node_limit <= k < node_limit + j ==> (#[trigger] documents[k].meta)
                    is RelationFrame && spec_doc_meta_of_relation(
                    documents[k],
                    req.relationships[k - node_limit],
                ),
        decreases relation_limit - j,
    {
        let doc = build_relation_document(req, &req.relationships[j]);
        documents.push(doc);
        j += 1;
    }
    documents.push(build_manifest_document(req));
    let mut bible = build_ai_bible_documents(req);
    proof {
        assert(bible.len() == 4);
    }
    documents.push(bible.remove(0));
    documents.push(bible.remove(0));
    documents.push(bible.remove(0));
    documents.push(bible.remove(0));
    documents
}

/// The document's structured payload mirrors the node.
pub open spec fn spec_doc_meta_of_node(doc: FrameDocument, node: GraphNode) -> bool {
    match doc.meta {
        FrameMeta::NodeFrame(m) => {
            &&& m.id@ == node.id@
            &&& m.label@ == node.label@
            &&& m.name@ == node.properties.name@
            &&& m.file_path@ == node.properties.file_path@
            &&& m.start_line == node.properties.start_line
            &&& m.end_line == node.properties.end_line
            &&& doc.label@ == node.label@
            &&& doc.track@ == spec_node_track(node.label@)
            &&& doc.uri@ == (if node.label@ == "Community"@ {
                "mv2://communities/"@ + node.id@
            } else if node.label@ == "Process"@ {
                "mv2://processes/"@ + node.id@
            } else {
                "mv2://nodes/"@ + node.id@
            })
        },
        _ => false,
    }
}

/// The document's structured payload mirrors the relationship.
pub open spec fn spec_doc_meta_of_relation(doc: FrameDocument, rel: GraphRelationship) -> bool {
    match doc.meta {
        FrameMeta::RelationFrame(m) => {
            &&& m.id@ == rel.id@
            &&& m.relation_type@ == rel.relation_type@
            &&& m.source_id@ == rel.source_id@
            &&& m.target_id@ == rel.target_id@
            &&& m.confidence_milli == rel.confidence_milli
            &&& m.reason@ == rel.reason@
            &&& m.step == rel.step
            &&& doc.label@ == "relation"@
            &&& doc.uri@ == "mv2://relations/"@ + rel.id@
            &&& doc.track@ == "relations/"@ + rel.relation_type@
        },
        _ => false,
    }
}

fn lookup_file_content<'a>(req: &'a ExportRequest, path: &String) -> (r: Option<&'a String>) {
    let mut i: usize = 0;
    while i < req.file_contents.len()
        invariant
            0 <= i <= req.file_contents.len(),
        decreases req.file_contents.len() - i,
    {
        if req.file_contents[i].path.eq(path) {
            return Some(&req.file_contents[i].text);
        }
        i += 1;
    }
    None
}

/// The frame document of one node: identity lines, its bounded snippet,
/// and the structured node payload.
pub fn build_node_document(req: &ExportRequest, node: &GraphNode) -> (r: FrameDocument)
    ensures
        spec_doc_meta_of_node(r, *node),
{
    let content = lookup_file_content(req, &node.properties.file_path);
    let snippet = build_snippet(
        content,
        node.properties.start_line,
        node.properties.end_line,
        req.options.max_snippet_chars,
        node.label.as_str(),
    );
    let uri: String = if str_eq_str(node.label.as_str(), "Community") {
        let mut u = String::from_str("mv2://communities/");
        u.append(node.id.as_str());
        u
    } else if str_eq_str(node.label.as_str(), "Process") {
        let mut u = String::from_str("mv2://processes/");
        u.append(node.id.as_str());
        u
    } else {
        let mut u = String::from_str("mv2://nodes/");
        u.append(node.id.as_str());
        u
    };
    let track = node_track(node.label.as_str());
    let mut text = String::from_str("Node ");
    text.append(node.label.as_str());
    text.append("\nid=");
    text.append(node.id.as_str());
    text.append("\nname=");
    text.append(node.properties.name.as_str());
    text.append("\nfilePath=");
    text.append(node.properties.file_path.as_str());
    text.append("\n\nsnippet:\n");
    text.append(snippet.as_str());
    text.append("\n\nmetadata=");
    let mut title = String::from_str(node.label.as_str());
    title.append(": ");
    title.append(node.properties.name.as_str());
    let communities: Vec<String> = match &node.properties.communities {
        Some(c) => {
            let mut out: Vec<String> = Vec::new();
            let mut k: usize = 0;
            while k < c.len()
                invariant
                    0 <= k <= c.len(),
                decreases c.len() - k,
            {
                out.push(c[k].clone());
                k += 1;
            }
            out
        },
        None => Vec::new(),
    };
    FrameDocument {
        title,
        label: node.label.clone(),
        text,
        uri,
        track,
        tags: join_tags(&req.session_id, "nodeLabel=", &node.label),
        meta: FrameMeta::NodeFrame(
            NodeFrameMeta {
                id: node.id.clone(),
                label: node.label.clone(),
                name: node.properties.name.clone(),
                file_path: node.properties.file_path.clone(),
                start_line: node.properties.start_line,
                end_line: node.properties.end_line,
                language: match &node.properties.language {
                    Some(l) => Some(l.clone()),
                    None => None,
                },
                communities,
            },
        ),
    }
}

/// The frame document of one relationship: the typed summary lines and
/// the structured relation payload.
pub fn build_relation_document(req: &ExportRequest, rel: &GraphRelationship) -> (r: FrameDocument)
    ensures
        spec_doc_meta_of_relation(r, *rel),
{
    let mut uri = String::from_str("mv2://relations/");
    uri.append(rel.id.as_str());
    let mut track = String::from_str("relations/");
    track.append(rel.relation_type.as_str());
    let title = String::from_str(rel.relation_type.as_str());
    let mut text = String::from_str("Relationship ");
    text.append(rel.relation_type.as_str());
    text.append("\nsourceId=");
    text.append(rel.source_id.as_str());
    text.append("\ntargetId=");
    text.append(rel.target_id.as_str());
    text.append("\nconfidence=");
    let conf = confidence_text(rel.confidence_milli);
    text.append(conf.as_str());
    text.append("\nreason=");
    text.append(rel.reason.as_str());
    match rel.step {
        Some(s) => {
            text.append("\nstep=");
            let st = usize_to_string(s);
            text.append(st.as_str());
        },
        None => {},
    }
    text.append("\n\nmetadata=");
    proof {
        assert(uri@ =~= "mv2://relations/"@ + rel.id@);
        assert(track@ =~= "relations/"@ + rel.relation_type@);
    }
    FrameDocument {
        title,
        label: String::from_str("relation"),
        text,
        uri,
        track,
        tags: join_tags(&req.session_id, "relationType=", &rel.relation_type),
        meta: FrameMeta::RelationFrame(
            RelationFrameMeta {
                id: rel.id.clone(),
                relation_type: rel.relation_type.clone(),
                source_id: rel.source_id.clone(),
                target_id: rel.target_id.clone(),
                confidence_milli: rel.confidence_milli,
                reason: rel.reason.clone(),
                step: rel.step,
            },
        ),
    }
}

/// The manifest document: totals and identity of the export.
pub fn build_manifest_document(req: &ExportRequest) -> (r: FrameDocument)
    ensures
        r.meta is ManifestFrame,
        r.uri@ == "mv2://meta/manifest"@,
        r.track@ == "meta"@,
        r.label@ == "manifest"@,
{
    let mut text = String::from_str("GitNexus export manifest\nproject=");
    text.append(req.project_name.as_str());
    text.append("\nsource=");
    text.append(req.source.base_name.as_str());
    text.append("\nnodes=");
    let nc = usize_to_string(req.nodes.len());
    text.append(nc.as_str());
    text.append("\nrelationships=");
    let rc = usize_to_string(req.relationships.len());
    text.append(rc.as_str());
    text.append("\n\nmetadata=");
    let mut title = String::from_str("GitNexus manifest: ");
    title.append(req.project_name.as_str());
    FrameDocument {
        title,
        label: String::from_str("manifest"),
        text,
        uri: String::from_str("mv2://meta/manifest"),
        track: String::from_str("meta"),
        tags: join_tags(&req.session_id, "kind=", &String::from_str("manifest")),
        meta: FrameMeta::ManifestFrame,
    }
}

/// The four guidance documents stored beside the manifest.
pub fn build_ai_bible_documents(req: &ExportRequest) -> (r: Vec<FrameDocument>)
    ensures
        r.len() == 4,
        forall|k: int| 0 <= k < 4 ==> (#[trigger] r[k].meta) is AiBibleFrame,
        forall|k: int|
            0 <= k < 4 ==> spec_starts_with((#[trigger] r[k].uri@), "mv2://meta/ai-bible/"@),
{
    let mut out: Vec<FrameDocument> = Vec::new();
    proof {
        reveal_strlit("mv2://meta/ai-bible/");
        reveal_strlit("mv2://meta/ai-bible/manifest");
        reveal_strlit("mv2://meta/ai-bible/tool-matrix");
        reveal_strlit("mv2://meta/ai-bible/retrieval-ladder");
        reveal_strlit("mv2://meta/ai-bible/playbooks/core");
        assert("mv2://meta/ai-bible/manifest"@.subrange(0, 20) =~= "mv2://meta/ai-bible/"@);
        assert("mv2://meta/ai-bible/tool-matrix"@.subrange(0, 20) =~= "mv2://meta/ai-bible/"@);
        assert("mv2://meta/ai-bible/retrieval-ladder"@.subrange(0, 20)
            =~= "mv2://meta/ai-bible/"@);
        assert("mv2://meta/ai-bible/playbooks/core"@.subrange(0, 20)
            =~= "mv2://meta/ai-bible/"@);
    }
    out.push(
        FrameDocument {
            title: String::from_str("AI Bible Manifest"),
            label: String::from_str("ai_bible"),
            text: String::from_str("AI Bible manifest\nmode=deterministic_accuracy\n\nmetadata="),
            uri: String::from_str("mv2://meta/ai-bible/manifest"),
            track: String::from_str("meta"),
            tags: join_tags(&req.session_id, "kind=", &String::from_str("ai-bible")),
            meta: FrameMeta::AiBibleFrame,
        },
    );
    out.push(
        FrameDocument {
            title: String::from_str("AI Bible Tool Matrix"),
            label: String::from_str("ai_bible"),
            text: String::from_str(
                "AI Bible tool matrix\nmode=strict_json\ntransport=streamable_http_jsonrpc\n\nmetadata=",
            ),
            uri: String::from_str("mv2://meta/ai-bible/tool-matrix"),
            track: String::from_str("meta"),
            tags: join_tags(&req.session_id, "kind=", &String::from_str("ai-bible")),
            meta: FrameMeta::AiBibleFrame,
        },
    );
    out.push(
        FrameDocument {
            title: String::from_str("AI Bible Retrieval Ladder"),
            label: String::from_str("ai_bible"),
            text: String::from_str(
                "AI Bible retrieval ladder\ndefault=deterministic\nsemantic=fallback_only\n\nmetadata=",
            ),
            uri: String::from_str("mv2://meta/ai-bible/retrieval-ladder"),
            track: String::from_str("meta"),
            tags: join_tags(&req.session_id, "kind=", &String::from_str("ai-bible")),
            meta: FrameMeta::AiBibleFrame,
        },
    );
    out.push(
        FrameDocument {
            title: String::from_str("AI Bible Playbooks"),
            label: String::from_str("ai_bible"),
            text: String::from_str(
                "AI Bible playbooks\n1=root_cause_from_symptom\n2=change_impact_before_edit\n3=subsystem_architecture_extraction\n4=process_comprehension_step_in_process\n\nmetadata=",
            ),
            uri: String::from_str("mv2://meta/ai-bible/playbooks/core"),
            track: String::from_str("meta"),
            tags: join_tags(&req.session_id, "kind=", &String::from_str("ai-bible")),
            meta: FrameMeta::AiBibleFrame,
        },
    );
    out
}

} // verus!
