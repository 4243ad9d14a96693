//! Side-index: the derived read model over a finished capsule. Records for
//! nodes, edges, process steps, symbols, hotspots, community memberships
//! and fulltext entries, and the derivations that build them.
//!
//! Edge confidence is held in thousandths; hotspot scores are exact
//! integers (`10 * calls + nodes`).
use vstd::prelude::*;
use vstd::string::*;

use crate::order::{
    lemma_permutation_contains, sort_entries, spec_entry_le, spec_lex_le, SortEntry,
};
use crate::models::{FrameDocument, FrameMeta};
use crate::strutil::{
    find_line_value, find_sub, normalize_text, parse_u64, push_char, spec_contains_seq,
    spec_decimal, spec_find_line_value, spec_normalized, spec_parse_u64, spec_starts_with,
    str_contains, str_eq_str, str_starts_with, str_suffix, u64_to_string,
};

verus! {

#[derive(Debug)]
pub struct NodeRecord {
    pub id: String,
    pub label: String,
    pub name: String,
    pub file_path: String,
    pub start_line: Option<usize>,
    pub end_line: Option<usize>,
    pub language: Option<String>,
    pub uri: String,
    pub title: String,
    pub search_text: String,
    pub communities: Vec<String>,
}

#[derive(Debug)]
pub struct EdgeRecord {
    pub id: String,
    pub relation_type: String,
    pub source_id: String,
    pub target_id: String,
    /// Confidence in thousandths: `0 ..= 1000` stands for `0.0 ..= 1.0`.
    pub confidence_milli: u32,
    pub reason: String,
    pub step: Option<usize>,
    pub uri: String,
    pub search_text: String,
}

fn clone_string_vec(v: &Vec<String>) -> (r: Vec<String>)
    ensures
        r@ =~= v@,
{
    let mut out: Vec<String> = Vec::new();
    let mut i: usize = 0;
    while i < v.len()
        invariant
            0 <= i <= v.len(),
            out@ =~= v@.subrange(0, i as int),
        decreases v.len() - i,
    {
        out.push(v[i].clone());
        proof {
            assert(out@ =~= v@.subrange(0, i as int + 1));
        }
        i += 1;
    }
    proof {
        assert(v@.subrange(0, v.len() as int) =~= v@);
    }
    out
}

fn clone_opt_str(o: &Option<String>) -> (r: Option<String>)
    ensures
        r == *o,
{
    match o {
        Some(s) => Some(s.clone()),
        None => None,
    }
}

impl Clone for NodeRecord {
    /// Field-exact copy; the community list is copied element for element.
    fn clone(&self) -> (r: Self)
        ensures
            r.id == self.id,
            r.label == self.label,
            r.name == self.name,
            r.file_path == self.file_path,
            r.start_line == self.start_line,
            r.end_line == self.end_line,
            r.language == self.language,
            r.uri == self.uri,
            r.title == self.title,
            r.search_text == self.search_text,
            r.communities@ == self.communities@,
    {
        NodeRecord {
            id: self.id.clone(),
            label: self.label.clone(),
            name: self.name.clone(),
            file_path: self.file_path.clone(),
            start_line: self.start_line,
            end_line: self.end_line,
            language: clone_opt_str(&self.language),
            uri: self.uri.clone(),
            title: self.title.clone(),
            search_text: self.search_text.clone(),
            communities: clone_string_vec(&self.communities),
        }
    }
}

impl Clone for EdgeRecord {
    fn clone(&self) -> (r: Self)
        ensures
            r == *self,
    {
        EdgeRecord {
            id: self.id.clone(),
            relation_type: self.relation_type.clone(),
            source_id: self.source_id.clone(),
            target_id: self.target_id.clone(),
            confidence_milli: self.confidence_milli,
            reason: self.reason.clone(),
            step: self.step,
            uri: self.uri.clone(),
            search_text: self.search_text.clone(),
        }
    }
}

#[derive(Debug)]
pub struct ProcessStepRecord {
    pub process_id: String,
    pub step: usize,
    pub function_id: String,
    pub relation_uri: String,
}

impl Clone for ProcessStepRecord {
    fn clone(&self) -> (r: Self)
        ensures
            r == *self,
    {
        ProcessStepRecord {
            process_id: self.process_id.clone(),
            step: self.step,
            function_id: self.function_id.clone(),
            relation_uri: self.relation_uri.clone(),
        }
    }
}

#[derive(Debug)]
pub struct SymbolRecord {
    pub symbol_norm: String,
    pub symbol: String,
    pub node_id: String,
    pub file_path: String,
    pub node_label: String,
}

impl Clone for SymbolRecord {
    fn clone(&self) -> (r: Self)
        ensures
            r == *self,
    {
        SymbolRecord {
            symbol_norm: self.symbol_norm.clone(),
            symbol: self.symbol.clone(),
            node_id: self.node_id.clone(),
            file_path: self.file_path.clone(),
            node_label: self.node_label.clone(),
        }
    }
}

#[derive(Debug)]
pub struct HotspotRecord {
    pub file_path: String,
    pub calls_count: usize,
    pub node_count: usize,
    /// Exact score: `10 * calls_count + node_count`.
    pub score: u64,
}

impl Clone for HotspotRecord {
    fn clone(&self) -> (r: Self)
        ensures
            r == *self,
    {
        HotspotRecord {
            file_path: self.file_path.clone(),
            calls_count: self.calls_count,
            node_count: self.node_count,
            score: self.score,
        }
    }
}

#[derive(Debug)]
pub struct CommunityMembershipRecord {
    pub community_id: String,
    pub node_id: String,
    pub node_label: String,
    pub node_name: String,
}

impl Clone for CommunityMembershipRecord {
    fn clone(&self) -> (r: Self)
        ensures
            r == *self,
    {
        CommunityMembershipRecord {
            community_id: self.community_id.clone(),
            node_id: self.node_id.clone(),
            node_label: self.node_label.clone(),
            node_name: self.node_name.clone(),
        }
    }
}

#[derive(Debug)]
pub struct FulltextEntry {
    pub ref_kind: String,
    pub ref_id: String,
    pub uri: String,
    pub track: String,
    pub text: String,
}

impl Clone for FulltextEntry {
    fn clone(&self) -> (r: Self)
        ensures
            r == *self,
    {
        FulltextEntry {
            ref_kind: self.ref_kind.clone(),
            ref_id: self.ref_id.clone(),
            uri: self.uri.clone(),
            track: self.track.clone(),
            text: self.text.clone(),
        }
    }
}

/// Summary of what a capsule's index can answer.
#[derive(Debug, Clone)]
pub struct CapsuleCapabilities {
    pub supports_semantic_fallback: bool,
    pub has_ai_bible: bool,
    pub has_manifest: bool,
    pub node_count: usize,
    pub edge_count: usize,
    pub fulltext_count: usize,
}

#[derive(Debug, Clone)]
pub struct CapsuleIndex {
    pub capsule_path: String,
    pub sidecar_path: String,
    pub schema_version: String,
    pub generated_at_ms: u64,
    pub manifest_json: Option<String>,
    pub capabilities: CapsuleCapabilities,
    pub nodes: Vec<NodeRecord>,
    pub edges: Vec<EdgeRecord>,
    pub process_steps: Vec<ProcessStepRecord>,
    pub symbols: Vec<SymbolRecord>,
    pub hotspots: Vec<HotspotRecord>,
    pub community_membership: Vec<CommunityMembershipRecord>,
    pub fulltext: Vec<FulltextEntry>,
}

/// Suffix appended to the capsule file name to obtain its sidecar.
pub const SIDECAR_SUFFIX: &'static str = ".index.v1.sqlite";

/// Sidecar location: the capsule location with the index suffix appended,
/// so the sidecar sits beside the capsule under the same file name.
pub fn sidecar_path_for_capsule(capsule_path: &str) -> (r: String)
    ensures
        r@ == capsule_path@ + SIDECAR_SUFFIX@,
{
    let mut out = String::from_str(capsule_path);
    out.append(SIDECAR_SUFFIX);
    out
}

/// Symbol normalization: identical to general text normalization.
pub fn normalize_symbol(input: &str) -> (r: String)
    ensures
        r@ == spec_normalized(input@),
{
    normalize_text(input)
}

pub open spec fn spec_symbol_seen(recs: Seq<SymbolRecord>, norm: Seq<char>, id: Seq<char>) -> bool {
    exists|k: int|
        0 <= k < recs.len() && (#[trigger] recs[k].symbol_norm@) == norm && recs[k].node_id@ == id
}

/// A symbol record matches some input node.
pub open spec fn spec_symbol_sound(rec: SymbolRecord, nodes: Seq<NodeRecord>) -> bool {
    exists|i: int|
        {
            &&& 0 <= i < nodes.len()
            &&& rec.symbol_norm@ == spec_normalized((#[trigger] nodes[i].name@))
            &&& rec.symbol@ == nodes[i].name@
            &&& rec.node_id@ == nodes[i].id@
            &&& rec.file_path@ == nodes[i].file_path@
            &&& rec.node_label@ == nodes[i].label@
        }
}

/// One symbol per distinct (normalized name, node id), first occurrence
/// first; records carry the node's name, id, file and label. Only nodes
/// whose normalized name is non-empty contribute.
pub fn derive_symbols(nodes: &Vec<NodeRecord>) -> (r: Vec<SymbolRecord>)
    ensures
        forall|k: int|
            0 <= k < r.len() ==> spec_symbol_sound(#[trigger] r[k], nodes@)
                && r[k].symbol_norm@.len() > 0,
        forall|k: int, l: int|
            0 <= k < l < r.len() ==> !((#[trigger] r[k].symbol_norm@) == (
            #[trigger] r[l].symbol_norm@) && r[k].node_id@ == r[l].node_id@),
        forall|i: int|
            0 <= i < nodes.len() && spec_normalized((#[trigger] nodes[i].name@)).len() > 0
                ==> spec_symbol_seen(r@, spec_normalized(nodes[i].name@), nodes[i].id@),
{
    let mut out: Vec<SymbolRecord> = Vec::new();
    let mut i: usize = 0;
    while i < nodes.len()
        invariant
            0 <= i <= nodes.len(),
            forall|k: int|
                0 <= k < out.len() ==> spec_symbol_sound(#[trigger] out[k], nodes@)
                    && out[k].symbol_norm@.len() > 0,
            forall|k: int, l: int|
                0 <= k < l < out.len() ==> !((#[trigger] out[k].symbol_norm@) == (
                #[trigger] out[l].symbol_norm@) && out[k].node_id@ == out[l].node_id@),
            forall|t: int|
                0 <= t < i && spec_normalized((#[trigger] nodes[t].name@)).len() > 0
                    ==> spec_symbol_seen(out@, spec_normalized(nodes[t].name@), nodes[t].id@),
        decreases nodes.len() - i,
    {
        let node = &nodes[i];
        let norm = normalize_symbol(node.name.as_str());
        proof {
            assert(*node == nodes[i as int]);
        }
        if norm.unicode_len() > 0 {
            let mut seen = false;
            let mut k: usize = 0;
            while k < out.len()
                invariant
                    0 <= k <= out.len(),
                    seen ==> spec_symbol_seen(out@, norm@, node.id@),
                    !seen ==> forall|t: int|
                        0 <= t < k ==> !((#[trigger] out[t].symbol_norm@) == norm@
                            && out[t].node_id@ == node.id@),
                decreases out.len() - k,
            {
                if out[k].symbol_norm.eq(&norm) && out[k].node_id.eq(&node.id) {
                    seen = true;
                    k = out.len();
                } else {
                    k += 1;
                }
            }
            if !seen {
                let ghost out0 = out@;
                out.push(
                    SymbolRecord {
                        symbol_norm: norm,
                        symbol: node.name.clone(),
                        node_id: node.id.clone(),
                        file_path: node.file_path.clone(),
                        node_label: node.label.clone(),
                    },
                );
                proof {
                    let n = out.len() - 1;
                    assert(forall|k: int| 0 <= k < n ==> (#[trigger] out[k]) == out0[k]);
                    assert(out[n as int].symbol_norm@ == spec_normalized(nodes[i as int].name@));
                    assert(out[n as int].node_id@ == nodes[i as int].id@);
                    assert(spec_symbol_sound(out[n as int], nodes@));
                    assert(spec_symbol_seen(
                        out@,
                        spec_normalized(nodes[i as int].name@),
                        nodes[i as int].id@,
                    ));
                    assert forall|x: Seq<char>, y: Seq<char>|
                        spec_symbol_seen(out0, x, y) implies spec_symbol_seen(out@, x, y) by {
                        let t = choose|t: int|
                            0 <= t < out0.len() && (#[trigger] out0[t].symbol_norm@) == x
                                && out0[t].node_id@ == y;
                        assert(out[t].symbol_norm@ == x && out[t].node_id@ == y);
                    }
                }
            }
        }
        i += 1;
    }
    out
}

/// A membership record for this (community, node) pair is present.
pub open spec fn spec_membership_present(
    recs: Seq<CommunityMembershipRecord>,
    community: Seq<char>,
    id: Seq<char>,
) -> bool {
    exists|k: int|
        0 <= k < recs.len() && (#[trigger] recs[k].community_id@) == community && recs[k].node_id@
            == id
}

/// A record matches some (node, community) pair of the input.
pub open spec fn spec_membership_sound(
    rec: CommunityMembershipRecord,
    nodes: Seq<NodeRecord>,
) -> bool {
    exists|i: int, c: int|
        {
            &&& 0 <= i < nodes.len()
            &&& 0 <= c < nodes[i].communities.len()
            &&& rec.community_id@ == (#[trigger] nodes[i].communities[c]@)
            &&& rec.node_id@ == nodes[i].id@
            &&& rec.node_label@ == nodes[i].label@
            &&& rec.node_name@ == nodes[i].name@
        }
}

/// One record per (community, node) pair listed in the nodes' community
/// lists, grouped by node in input order.
pub fn derive_community_membership(nodes: &Vec<NodeRecord>) -> (r: Vec<CommunityMembershipRecord>)
    ensures
        forall|k: int|
            0 <= k < r.len() ==> spec_membership_sound(#[trigger] r[k], nodes@),
        forall|i: int, c: int|
            0 <= i < nodes.len() && 0 <= c < nodes[i].communities.len()
                ==> spec_membership_present(
                r@,
                (#[trigger] nodes[i].communities[c]@),
                nodes[i].id@,
            ),
{
    let mut out: Vec<CommunityMembershipRecord> = Vec::new();
    let mut i: usize = 0;
    while i < nodes.len()
        invariant
            0 <= i <= nodes.len(),
            forall|k: int|
                0 <= k < out.len() ==> spec_membership_sound(#[trigger] out[k], nodes@),
            forall|t: int, cc: int|
                0 <= t < i && 0 <= cc < nodes[t].communities.len() ==> spec_membership_present(
                    out@,
                    (#[trigger] nodes[t].communities[cc]@),
                    nodes[t].id@,
                ),
        decreases nodes.len() - i,
    {
        let mut c: usize = 0;
        while c < nodes[i].communities.len()
            invariant
                0 <= i < nodes.len(),
                0 <= c <= nodes[i as int].communities.len(),
                forall|k: int|
                    0 <= k < out.len() ==> spec_membership_sound(#[trigger] out[k], nodes@),
                forall|t: int, cc: int|
                    0 <= t < i && 0 <= cc < nodes[t].communities.len()
                        ==> spec_membership_present(
                        out@,
                        (#[trigger] nodes[t].communities[cc]@),
                        nodes[t].id@,
                    ),
                forall|cc: int|
                    0 <= cc < c ==> spec_membership_present(
                        out@,
                        (#[trigger] nodes[i as int].communities[cc]@),
                        nodes[i as int].id@,
                    ),
            decreases nodes[i as int].communities.len() - c,
        {
            let ghost out0 = out@;
            out.push(
                CommunityMembershipRecord {
                    community_id: nodes[i].communities[c].clone(),
                    node_id: nodes[i].id.clone(),
                    node_label: nodes[i].label.clone(),
                    node_name: nodes[i].name.clone(),
                },
            );
            proof {
                let n = out.len() - 1;
                assert(forall|k: int| 0 <= k < n ==> (#[trigger] out[k]) == out0[k]);
                assert(out[n as int].community_id@ == nodes[i as int].communities[c as int]@);
                assert(out[n as int].node_id@ == nodes[i as int].id@);
                assert(spec_membership_sound(out[n as int], nodes@));
                assert forall|x: Seq<char>, y: Seq<char>|
                    spec_membership_present(out0, x, y) implies spec_membership_present(
                    out@,
                    x,
                    y,
                ) by {
                    let k = choose|k: int|
                        0 <= k < out0.len() && (#[trigger] out0[k].community_id@) == x
                            && out0[k].node_id@ == y;
                    assert(out[k].community_id@ == x && out[k].node_id@ == y);
                }
                assert(spec_membership_present(
                    out@,
                    nodes[i as int].communities[c as int]@,
                    nodes[i as int].id@,
                ));
            }
            c += 1;
        }
        i += 1;
    }
    out
}


/// Decimal rendering of a step ordinal zero-padded to twenty digits, so
/// lexicographic order on the padding equals numeric order.
pub open spec fn spec_pad20(n: int) -> Seq<char> {
    crate::strutil::spec_zeros_of(20 - spec_decimal(n).len()) + spec_decimal(n)
}

fn pad20(n: u64) -> (r: String)
    ensures
        r@ == spec_pad20(n as int),
{
    let d = u64_to_string(n);
    let dl = d.as_str().unicode_len();
    let mut out = String::new();
    let mut k: usize = 0;
    let target: usize = if dl >= 20 {
        0
    } else {
        20 - dl
    };
    while k < target
        invariant
            0 <= k <= target,
            target == if dl >= 20 {
                0int
            } else {
                20 - dl
            },
            dl == spec_decimal(n as int).len(),
            out@ == crate::strutil::spec_zeros_of(k as int),
        decreases target - k,
    {
        push_char(&mut out, '0');
        k += 1;
    }
    proof {
        if dl >= 20 {
            assert(crate::strutil::spec_zeros_of(20 - spec_decimal(n as int).len())
                =~= Seq::<char>::empty());
        }
    }
    out.append(d.as_str());
    out
}

/// Sort key of a process step: process id, then padded step ordinal, then
/// function id, separated by a character below all printable ones.
pub open spec fn spec_step_key(rec: ProcessStepRecord) -> Seq<char> {
    rec.process_id@ + seq!['\u{1}'] + spec_pad20(rec.step as int) + seq!['\u{1}']
        + rec.function_id@
}

fn step_sort_key(rec: &ProcessStepRecord) -> (r: String)
    ensures
        r@ == spec_step_key(*rec),
{
    let mut out = String::from_str(rec.process_id.as_str());
    push_char(&mut out, '\u{1}');
    out.append(pad20(rec.step as u64).as_str());
    push_char(&mut out, '\u{1}');
    out.append(rec.function_id.as_str());
    proof {
        assert(out@ =~= spec_step_key(*rec));
    }
    out
}

/// An edge yields a process step when its relation type is
/// "STEP_IN_PROCESS" and a process endpoint can be told apart: an endpoint
/// containing "proc_", else a "_proc_" marker inside the edge URI.
pub open spec fn spec_step_qualifies(e: EdgeRecord) -> bool {
    &&& e.relation_type@ == "STEP_IN_PROCESS"@
    &&& (spec_contains_seq(e.target_id@, "proc_"@) || spec_contains_seq(e.source_id@, "proc_"@)
        || spec_contains_seq(e.uri@, "_proc_"@))
}

/// The step record derived from a qualifying edge.
pub open spec fn spec_step_source(rec: ProcessStepRecord, e: EdgeRecord) -> bool {
    &&& spec_step_qualifies(e)
    &&& rec.relation_uri@ == e.uri@
    &&& rec.step as int == (match e.step {
        Some(s) => s as int,
        None => 0,
    })
    &&& rec.function_id@ == if spec_contains_seq(e.source_id@, "proc_"@) {
        e.target_id@
    } else {
        e.source_id@
    }
    &&& if spec_contains_seq(e.target_id@, "proc_"@) {
        rec.process_id@ == e.target_id@
    } else if spec_contains_seq(e.source_id@, "proc_"@) {
        rec.process_id@ == e.source_id@
    } else {
        exists|p: int|
            {
                &&& 0 <= p
                &&& p + 6 <= e.uri@.len()
                &&& (#[trigger] e.uri@.subrange(p, p + 6)) == "_proc_"@
                &&& rec.process_id@ == e.uri@.skip(p + 1)
            }
    }
}

pub open spec fn spec_step_sound(rec: ProcessStepRecord, edges: Seq<EdgeRecord>) -> bool {
    exists|j: int| 0 <= j < edges.len() && spec_step_source(rec, #[trigger] edges[j])
}

pub open spec fn spec_step_present(recs: Seq<ProcessStepRecord>, e: EdgeRecord) -> bool {
    exists|k: int| 0 <= k < recs.len() && spec_step_source(#[trigger] recs[k], e)
}

/// Process steps derived from "STEP_IN_PROCESS" edges, sorted by
/// (process id, step ordinal, function id).
pub fn derive_process_steps(edges: &Vec<EdgeRecord>) -> (r: Vec<ProcessStepRecord>)
    ensures
        forall|k: int| 0 <= k < r.len() ==> spec_step_sound(#[trigger] r[k], edges@),
        forall|j: int|
            0 <= j < edges.len() && spec_step_qualifies(#[trigger] edges[j]) ==> spec_step_present(
                r@,
                edges[j],
            ),
        forall|k: int, l: int|
            0 <= k <= l < r.len() ==> spec_lex_le(
                spec_step_key(#[trigger] r[k]),
                spec_step_key(#[trigger] r[l]),
            ),
{
    let mut raw: Vec<ProcessStepRecord> = Vec::new();
    let mut j: usize = 0;
    while j < edges.len()
        invariant
            0 <= j <= edges.len(),
            forall|k: int| 0 <= k < raw.len() ==> spec_step_sound(#[trigger] raw[k], edges@),
            forall|t: int|
                0 <= t < j && spec_step_qualifies(#[trigger] edges[t]) ==> spec_step_present(
                    raw@,
                    edges[t],
                ),
        decreases edges.len() - j,
    {
        let e = &edges[j];
        proof {
            assert(*e == edges[j as int]);
        }
        if str_eq_str(e.relation_type.as_str(), "STEP_IN_PROCESS") {
            let target_has = str_contains(e.target_id.as_str(), "proc_");
            let source_has = str_contains(e.source_id.as_str(), "proc_");
            let process_id: Option<String> = if target_has {
                Some(e.target_id.clone())
            } else if source_has {
                Some(e.source_id.clone())
            } else {
                proof {
                    reveal_strlit("_proc_");
                }
                let uri_len: usize = e.uri.as_str().unicode_len();
                let found = find_sub(e.uri.as_str(), "_proc_");
                if let Some(pos) = found {
                    proof {
                        assert("_proc_"@.len() == 6);
                        assert(pos + 6 <= uri_len);
                    }
                    Some(str_suffix(e.uri.as_str(), pos + 1))
                } else {
                    None
                }
            };
            if let Some(pid) = process_id {
                let function_id = if source_has {
                    e.target_id.clone()
                } else {
                    e.source_id.clone()
                };
                let step_val: usize = match e.step {
                    Some(s) => s,
                    None => 0,
                };
                let ghost raw0 = raw@;
                raw.push(
                    ProcessStepRecord {
                        process_id: pid,
                        step: step_val,
                        function_id,
                        relation_uri: e.uri.clone(),
                    },
                );
                proof {
                    let n = raw.len() - 1;
                    assert(forall|k: int| 0 <= k < n ==> (#[trigger] raw[k]) == raw0[k]);
                    assert(spec_step_source(raw[n as int], edges[j as int]));
                    assert(spec_step_present(raw@, edges[j as int]));
                    assert forall|t: int|
                        0 <= t < j && spec_step_qualifies(#[trigger] edges[t])
                            implies spec_step_present(raw@, edges[t]) by {
                        let k = choose|k: int|
                            0 <= k < raw0.len() && spec_step_source(#[trigger] raw0[k], edges[t]);
                        assert(spec_step_source(raw[k], edges[t]));
                    }
                }
            }
        }
        j += 1;
    }
    let mut entries: Vec<SortEntry> = Vec::new();
    let mut k: usize = 0;
    while k < raw.len()
        invariant
            0 <= k <= raw.len(),
            entries.len() == k,
            forall|t: int|
                0 <= t < k ==> (#[trigger] entries[t]).idx == t && entries[t].text@
                    == spec_step_key(raw[t]) && entries[t].num == 0,
        decreases raw.len() - k,
    {
        entries.push(SortEntry { num: 0, text: step_sort_key(&raw[k]), idx: k });
        k += 1;
    }
    let ghost entries0 = entries@;
    let sorted = sort_entries(entries);
    proof {
        lemma_permutation_contains(entries0, sorted@);
    }
    let mut out: Vec<ProcessStepRecord> = Vec::new();
    let mut k2: usize = 0;
    proof {
        assert forall|t: int| 0 <= t < sorted.len() implies (#[trigger] sorted[t]).idx
            < raw.len() && sorted[t].text@ == spec_step_key(raw[sorted[t].idx as int])
            && sorted[t].num == 0 by {
            assert(entries0.contains(sorted[t]));
            let j0 = choose|j0: int| 0 <= j0 < entries0.len() && entries0[j0] == sorted[t];
            assert(entries0[j0].idx == j0);
        }
    }
    while k2 < sorted.len()
        invariant
            0 <= k2 <= sorted.len(),
            out.len() == k2,
            forall|t: int|
                0 <= t < sorted.len() ==> (#[trigger] sorted[t]).idx < raw.len()
                    && sorted[t].text@ == spec_step_key(raw[sorted[t].idx as int])
                    && sorted[t].num == 0,
            forall|t: int|
                0 <= t < k2 ==> (#[trigger] out[t]) == raw[sorted[t].idx as int],
        decreases sorted.len() - k2,
    {
        out.push(raw[sorted[k2].idx].clone());
        k2 += 1;
    }
    proof {
        assert forall|k: int, l: int| 0 <= k <= l < out.len() implies spec_lex_le(
            spec_step_key(#[trigger] out[k]),
            spec_step_key(#[trigger] out[l]),
        ) by {
            assert(crate::order::spec_entry_le(sorted[k], sorted[l]));
            if sorted[k].text@ == sorted[l].text@ {
                crate::order::lemma_lex_refl(sorted[k].text@);
            }
        }
        assert forall|k: int| 0 <= k < out.len() implies spec_step_sound(
            #[trigger] out[k],
            edges@,
        ) by {
            assert(out[k] == raw[sorted[k].idx as int]);
        }
        assert forall|j: int|
            0 <= j < edges.len() && spec_step_qualifies(#[trigger] edges[j])
                implies spec_step_present(out@, edges[j]) by {
            let k = choose|k: int| 0 <= k < raw.len() && spec_step_source(#[trigger] raw[k], edges[j]);
            assert(entries0[k].idx == k);
            assert(sorted@.contains(entries0[k]));
            let t = choose|t: int| 0 <= t < sorted.len() && sorted[t] == entries0[k];
            assert(out[t] == raw[sorted[t].idx as int]);
            assert(out[t] == raw[k]);
            assert(spec_step_source(out[t], edges[j]));
        }
    }
    out
}


/// File of the node with this id; on duplicate ids the last occurrence
/// wins, matching a map built by repeated insertion.
pub open spec fn spec_node_file(nodes: Seq<NodeRecord>, id: Seq<char>) -> Option<Seq<char>>
    decreases nodes.len(),
{
    if nodes.len() == 0 {
        None
    } else if nodes.last().id@ == id {
        Some(nodes.last().file_path@)
    } else {
        spec_node_file(nodes.drop_last(), id)
    }
}

/// Number of "CALLS" edges whose source node lives in `file`.
pub open spec fn spec_calls_count(
    nodes: Seq<NodeRecord>,
    edges: Seq<EdgeRecord>,
    file: Seq<char>,
) -> int
    decreases edges.len(),
{
    if edges.len() == 0 {
        0
    } else {
        spec_calls_count(nodes, edges.drop_last(), file) + if edges.last().relation_type@
            == "CALLS"@ && spec_node_file(nodes, edges.last().source_id@) == Some(file) {
            1int
        } else {
            0int
        }
    }
}

/// Number of nodes whose file path is `file`.
pub open spec fn spec_node_count(nodes: Seq<NodeRecord>, file: Seq<char>) -> int
    decreases nodes.len(),
{
    if nodes.len() == 0 {
        0
    } else {
        spec_node_count(nodes.drop_last(), file) + if nodes.last().file_path@ == file {
            1int
        } else {
            0int
        }
    }
}

fn node_file_of(nodes: &Vec<NodeRecord>, id: &String) -> (r: Option<String>)
    ensures
        match r {
            Some(f) => spec_node_file(nodes@, id@) == Some(f@),
            None => spec_node_file(nodes@, id@) is None,
        },
{
    let mut k: usize = nodes.len();
    proof {
        assert(nodes@.take(nodes.len() as int) =~= nodes@);
    }
    while k > 0
        invariant
            0 <= k <= nodes.len(),
            spec_node_file(nodes@, id@) == spec_node_file(nodes@.take(k as int), id@),
        decreases k,
    {
        proof {
            assert(nodes@.take(k as int).last() == nodes@[k - 1]);
            assert(nodes@.take(k as int).drop_last() =~= nodes@.take(k - 1));
        }
        if nodes[k - 1].id.eq(id) {
            return Some(nodes[k - 1].file_path.clone());
        }
        k -= 1;
    }
    proof {
        assert(nodes@.take(0).len() == 0);
    }
    None
}

fn count_calls(nodes: &Vec<NodeRecord>, edges: &Vec<EdgeRecord>, file: &String) -> (r: usize)
    ensures
        r == spec_calls_count(nodes@, edges@, file@),
{
    let mut acc: usize = 0;
    let mut j: usize = 0;
    proof {
        assert(edges@.take(0).len() == 0);
    }
    while j < edges.len()
        invariant
            0 <= j <= edges.len(),
            acc <= j,
            acc == spec_calls_count(nodes@, edges@.take(j as int), file@),
        decreases edges.len() - j,
    {
        proof {
            assert(edges@.take(j as int + 1).last() == edges@[j as int]);
            assert(edges@.take(j as int + 1).drop_last() =~= edges@.take(j as int));
        }
        if str_eq_str(edges[j].relation_type.as_str(), "CALLS") {
            let nf = node_file_of(nodes, &edges[j].source_id);
            let hit = match nf {
                Some(f) => str_eq_str(f.as_str(), file.as_str()),
                None => false,
            };
            if hit {
                acc += 1;
            }
        }
        j += 1;
    }
    proof {
        assert(edges@.take(edges.len() as int) =~= edges@);
    }
    acc
}

fn count_nodes_in_file(nodes: &Vec<NodeRecord>, file: &String) -> (r: usize)
    ensures
        r == spec_node_count(nodes@, file@),
{
    let mut acc: usize = 0;
    let mut j: usize = 0;
    proof {
        assert(nodes@.take(0).len() == 0);
    }
    while j < nodes.len()
        invariant
            0 <= j <= nodes.len(),
            acc <= j,
            acc == spec_node_count(nodes@.take(j as int), file@),
        decreases nodes.len() - j,
    {
        proof {
            assert(nodes@.take(j as int + 1).last() == nodes@[j as int]);
            assert(nodes@.take(j as int + 1).drop_last() =~= nodes@.take(j as int));
        }
        if nodes[j].file_path.eq(file) {
            acc += 1;
        }
        j += 1;
    }
    proof {
        assert(nodes@.take(nodes.len() as int) =~= nodes@);
    }
    acc
}

/// `f` is among the listed files.
pub open spec fn spec_file_listed(files: Seq<String>, f: Seq<char>) -> bool {
    exists|k: int| 0 <= k < files.len() && (#[trigger] files[k]@) == f
}

/// A file participates in the hotspot ranking: some node lives in it, or
/// some "CALLS" edge originates from a node that does.
pub open spec fn spec_hotspot_file(
    nodes: Seq<NodeRecord>,
    edges: Seq<EdgeRecord>,
    f: Seq<char>,
) -> bool {
    ||| (f.len() > 0 && exists|i: int|
        0 <= i < nodes.len() && (#[trigger] nodes[i].file_path@) == f)
    ||| (exists|j: int|
        0 <= j < edges.len() && (#[trigger] edges[j].relation_type@) == "CALLS"@
            && spec_node_file(nodes, edges[j].source_id@) == Some(f))
}

/// Exact hotspot score, saturating at the integer ceiling.
pub open spec fn spec_hotspot_score(calls: int, nodes: int) -> int {
    if 10 * calls + nodes <= u64::MAX {
        10 * calls + nodes
    } else {
        u64::MAX as int
    }
}

pub open spec fn spec_hotspot_present(recs: Seq<HotspotRecord>, f: Seq<char>) -> bool {
    exists|k: int| 0 <= k < recs.len() && (#[trigger] recs[k].file_path@) == f
}

/// Per participating file: the count of outgoing "CALLS" edges of its
/// nodes, its node count, and the score `10 * calls + nodes`; sorted by
/// score descending, then file path ascending.
pub fn derive_hotspots(nodes: &Vec<NodeRecord>, edges: &Vec<EdgeRecord>) -> (r: Vec<HotspotRecord>)
    ensures
        forall|k: int|
            0 <= k < r.len() ==> {
                &&& spec_hotspot_file(nodes@, edges@, (#[trigger] r[k].file_path@))
                &&& r[k].calls_count == spec_calls_count(nodes@, edges@, r[k].file_path@)
                &&& r[k].node_count == if r[k].file_path@.len() > 0 {
                    spec_node_count(nodes@, r[k].file_path@)
                } else {
                    0int
                }
                &&& r[k].score == spec_hotspot_score(
                    r[k].calls_count as int,
                    r[k].node_count as int,
                )
            },
        forall|k: int, l: int|
            0 <= k < l < r.len() ==> (#[trigger] r[k].file_path@) != (#[trigger] r[l].file_path@),
        forall|f: Seq<char>|
            spec_hotspot_file(nodes@, edges@, f) ==> spec_hotspot_present(r@, f),
        forall|k: int, l: int|
            0 <= k <= l < r.len() ==> (#[trigger] r[k]).score > (#[trigger] r[l]).score || (
            r[k].score == r[l].score && spec_lex_le(r[k].file_path@, r[l].file_path@)),
{
    let mut files: Vec<String> = Vec::new();
    let mut i: usize = 0;
    while i < nodes.len()
        invariant
            0 <= i <= nodes.len(),
            forall|k: int, l: int|
                0 <= k < l < files.len() ==> (#[trigger] files[k]@) != (#[trigger] files[l]@),
            forall|k: int|
                0 <= k < files.len() ==> spec_hotspot_file(nodes@, edges@, (
                #[trigger] files[k]@)),
            forall|t: int|
                0 <= t < i && (#[trigger] nodes[t].file_path@).len() > 0 ==> spec_file_listed(
                    files@,
                    nodes[t].file_path@,
                ),
        decreases nodes.len() - i,
    {
        if nodes[i].file_path.as_str().unicode_len() > 0 {
            let mut present = false;
            let mut k: usize = 0;
            while k < files.len()
                invariant
                    0 <= i < nodes.len(),
                    0 <= k <= files.len(),
                    present ==> spec_file_listed(files@, nodes[i as int].file_path@),
                    !present ==> forall|t: int|
                        0 <= t < k ==> (#[trigger] files[t]@) != nodes[i as int].file_path@,
                decreases files.len() - k,
            {
                if files[k].eq(&nodes[i].file_path) {
                    present = true;
                    k = files.len();
                } else {
                    k += 1;
                }
            }
            if !present {
                let ghost files0 = files@;
                files.push(nodes[i].file_path.clone());
                proof {
                    let n = files.len() - 1;
                    assert(forall|k: int| 0 <= k < n ==> (#[trigger] files[k]) == files0[k]);
                    assert(files[n as int]@ == nodes[i as int].file_path@);
                    assert(spec_file_listed(files@, nodes[i as int].file_path@));
                    assert forall|x: Seq<char>| spec_file_listed(files0, x)
                        implies spec_file_listed(files@, x) by {
                        let t = choose|t: int|
                            0 <= t < files0.len() && (#[trigger] files0[t]@) == x;
                        assert(files[t]@ == x);
                    }
                }
            }
        }
        i += 1;
    }
    let mut j: usize = 0;
    while j < edges.len()
        invariant
            0 <= j <= edges.len(),
            forall|k: int, l: int|
                0 <= k < l < files.len() ==> (#[trigger] files[k]@) != (#[trigger] files[l]@),
            forall|k: int|
                0 <= k < files.len() ==> spec_hotspot_file(nodes@, edges@, (
                #[trigger] files[k]@)),
            forall|t: int|
                0 <= t < nodes.len() && (#[trigger] nodes[t].file_path@).len() > 0
                    ==> spec_file_listed(files@, nodes[t].file_path@),
            forall|t: int|
                0 <= t < j && (#[trigger] edges[t].relation_type@) == "CALLS"@ && spec_node_file(
                    nodes@,
                    edges[t].source_id@,
                ) is Some ==> spec_file_listed(
                    files@,
                    spec_node_file(nodes@, edges[t].source_id@).unwrap(),
                ),
        decreases edges.len() - j,
    {
        if str_eq_str(edges[j].relation_type.as_str(), "CALLS") {
            if let Some(f) = node_file_of(nodes, &edges[j].source_id) {
                let mut present = false;
                let mut k: usize = 0;
                while k < files.len()
                    invariant
                        0 <= k <= files.len(),
                        present ==> spec_file_listed(files@, f@),
                        !present ==> forall|t: int|
                            0 <= t < k ==> (#[trigger] files[t]@) != f@,
                    decreases files.len() - k,
                {
                    if files[k].eq(&f) {
                        present = true;
                        k = files.len();
                    } else {
                        k += 1;
                    }
                }
                if !present {
                    let ghost files0 = files@;
                    let ghost fv = f@;
                    files.push(f);
                    proof {
                        let n = files.len() - 1;
                        assert(forall|k: int| 0 <= k < n ==> (#[trigger] files[k]) == files0[k]);
                        assert(files[n as int]@ == fv);
                        assert(spec_file_listed(files@, fv));
                        assert forall|x: Seq<char>| spec_file_listed(files0, x)
                            implies spec_file_listed(files@, x) by {
                            let t = choose|t: int|
                                0 <= t < files0.len() && (#[trigger] files0[t]@) == x;
                            assert(files[t]@ == x);
                        }
                    }
                }
            }
        }
        j += 1;
    }
    let mut raw: Vec<HotspotRecord> = Vec::new();
    let mut k: usize = 0;
    while k < files.len()
        invariant
            0 <= k <= files.len(),
            raw.len() == k,
            forall|t: int| 0 <= t < k ==> (#[trigger] raw[t].file_path@) == files[t]@,
            forall|t: int|
                0 <= t < k ==> {
                    &&& (#[trigger] raw[t]).calls_count == spec_calls_count(
                        nodes@,
                        edges@,
                        raw[t].file_path@,
                    )
                    &&& raw[t].node_count == if raw[t].file_path@.len() > 0 {
                        spec_node_count(nodes@, raw[t].file_path@)
                    } else {
                        0int
                    }
                    &&& raw[t].score == spec_hotspot_score(
                        raw[t].calls_count as int,
                        raw[t].node_count as int,
                    )
                },
        decreases files.len() - k,
    {
        let f = &files[k];
        let calls = count_calls(nodes, edges, f);
        let ncount = if f.as_str().unicode_len() > 0 {
            count_nodes_in_file(nodes, f)
        } else {
            0
        };
        let score: u64 = if (calls as u64) <= (u64::MAX - ncount as u64) / 10 {
            10 * (calls as u64) + (ncount as u64)
        } else {
            u64::MAX
        };
        proof {
            if (calls as u64) <= (u64::MAX - ncount as u64) / 10 {
                assert(10 * (calls as int) + (ncount as int) <= u64::MAX) by (nonlinear_arith)
                    requires
                        calls as int <= ((u64::MAX - ncount as u64) as int) / 10,
                        ncount >= 0,
                ;
            } else {
                assert(10 * (calls as int) + (ncount as int) > u64::MAX) by (nonlinear_arith)
                    requires
                        calls as int > ((u64::MAX - ncount as u64) as int) / 10,
                        ncount >= 0,
                        ncount <= u64::MAX,
                ;
            }
        }
        raw.push(
            HotspotRecord { file_path: f.clone(), calls_count: calls, node_count: ncount, score },
        );
        k += 1;
    }
    let mut entries: Vec<SortEntry> = Vec::new();
    let mut k1: usize = 0;
    while k1 < raw.len()
        invariant
            0 <= k1 <= raw.len(),
            entries.len() == k1,
            forall|t: int|
                0 <= t < k1 ==> (#[trigger] entries[t]).idx == t && entries[t].text@
                    == raw[t].file_path@ && entries[t].num == u64::MAX - raw[t].score,
        decreases raw.len() - k1,
    {
        entries.push(
            SortEntry {
                num: u64::MAX - raw[k1].score,
                text: raw[k1].file_path.clone(),
                idx: k1,
            },
        );
        k1 += 1;
    }
    let ghost entries0 = entries@;
    let sorted = sort_entries(entries);
    proof {
        lemma_permutation_contains(entries0, sorted@);
        assert forall|t: int| 0 <= t < sorted.len() implies (#[trigger] sorted[t]).idx
            < raw.len() && sorted[t].text@ == raw[sorted[t].idx as int].file_path@ && sorted[t].num
            == u64::MAX - raw[sorted[t].idx as int].score by {
            assert(entries0.contains(sorted[t]));
            let j0 = choose|j0: int| 0 <= j0 < entries0.len() && entries0[j0] == sorted[t];
            assert(entries0[j0].idx == j0);
        }
    }
    let mut out: Vec<HotspotRecord> = Vec::new();
    let mut k2: usize = 0;
    while k2 < sorted.len()
        invariant
            0 <= k2 <= sorted.len(),
            out.len() == k2,
            forall|t: int|
                0 <= t < sorted.len() ==> (#[trigger] sorted[t]).idx < raw.len()
                    && sorted[t].text@ == raw[sorted[t].idx as int].file_path@ && sorted[t].num
                    == u64::MAX - raw[sorted[t].idx as int].score,
            forall|t: int| 0 <= t < k2 ==> (#[trigger] out[t]) == raw[sorted[t].idx as int],
        decreases sorted.len() - k2,
    {
        out.push(raw[sorted[k2].idx].clone());
        k2 += 1;
    }
    proof {
        assert forall|k: int, l: int| 0 <= k <= l < out.len() implies (#[trigger] out[k]).score
            > (#[trigger] out[l]).score || (out[k].score == out[l].score && spec_lex_le(
            out[k].file_path@,
            out[l].file_path@,
        )) by {
            assert(crate::order::spec_entry_le(sorted[k], sorted[l]));
            if sorted[k].num == sorted[l].num && sorted[k].text@ == sorted[l].text@ {
                crate::order::lemma_lex_refl(sorted[k].text@);
            }
        }
        assert(entries0.no_duplicates()) by {
            assert(forall|a: int, b: int|
                0 <= a < entries0.len() && 0 <= b < entries0.len() && a != b ==> (
                #[trigger] entries0[a]).idx != (#[trigger] entries0[b]).idx);
        }
        entries0.lemma_multiset_has_no_duplicates();
        sorted@.lemma_multiset_has_no_duplicates_conv();
        assert forall|k: int, l: int| 0 <= k < l < out.len() implies (
        #[trigger] out[k].file_path@) != (#[trigger] out[l].file_path@) by {
            assert(sorted[k] != sorted[l]);
            let a = sorted[k].idx as int;
            let b = sorted[l].idx as int;
            if a != b {
                assert(files[a]@ != files[b]@);
            } else {
                assert(sorted[k].text@ == raw[a].file_path@ && sorted[l].text@
                    == raw[a].file_path@);
                assert(sorted[k].num == u64::MAX - raw[a].score);
                assert(sorted[l].num == u64::MAX - raw[a].score);
            }
        }
        assert forall|f: Seq<char>|
            spec_hotspot_file(nodes@, edges@, f) implies spec_hotspot_present(out@, f) by {
            assert(spec_file_listed(files@, f));
            let k = choose|k: int| 0 <= k < files.len() && (#[trigger] files[k]@) == f;
            assert(entries0[k].idx == k);
            assert(sorted@.contains(entries0[k]));
            let t = choose|t: int| 0 <= t < sorted.len() && sorted[t] == entries0[k];
            assert(out[t] == raw[sorted[t].idx as int]);
            assert(out[t].file_path@ == f);
        }
    }
    out
}


/// The value of the first `<key>=` line of a frame text.
pub fn parse_line_value(text: &str, key: &str) -> (r: Option<String>)
    ensures
        match r {
            Some(v) => spec_find_line_value(text@, key@ + "="@, 0) == Some(v@),
            None => spec_find_line_value(text@, key@ + "="@, 0) is None,
        },
{
    let mut prefix = String::from_str(key);
    push_char(&mut prefix, '=');
    proof {
        reveal_strlit("=");
        assert(prefix@ =~= key@ + "="@);
    }
    find_line_value(text, prefix.as_str())
}

/// The value of the first `id=` line.
pub fn parse_id_line(text: &str) -> (r: Option<String>)
    ensures
        match r {
            Some(v) => spec_find_line_value(text@, "id"@ + "="@, 0) == Some(v@),
            None => spec_find_line_value(text@, "id"@ + "="@, 0) is None,
        },
{
    parse_line_value(text, "id")
}

/// The value of the first `name=` line.
pub fn parse_name_line(text: &str) -> (r: Option<String>)
    ensures
        match r {
            Some(v) => spec_find_line_value(text@, "name"@ + "="@, 0) == Some(v@),
            None => spec_find_line_value(text@, "name"@ + "="@, 0) is None,
        },
{
    parse_line_value(text, "name")
}

/// The value of the first `filePath=` line.
pub fn parse_file_path_line(text: &str) -> (r: Option<String>)
    ensures
        match r {
            Some(v) => spec_find_line_value(text@, "filePath"@ + "="@, 0) == Some(v@),
            None => spec_find_line_value(text@, "filePath"@ + "="@, 0) is None,
        },
{
    parse_line_value(text, "filePath")
}

/// The relation type named on a `Relationship <TYPE>` line.
pub fn parse_relation_type(text: &str) -> (r: Option<String>)
    ensures
        match r {
            Some(v) => spec_find_line_value(text@, "Relationship "@, 0) == Some(v@),
            None => spec_find_line_value(text@, "Relationship "@, 0) is None,
        },
{
    find_line_value(text, "Relationship ")
}

/// The node label named on a `Node <LABEL>` line.
pub fn parse_node_label(text: &str) -> (r: Option<String>)
    ensures
        match r {
            Some(v) => spec_find_line_value(text@, "Node "@, 0) == Some(v@),
            None => spec_find_line_value(text@, "Node "@, 0) is None,
        },
{
    find_line_value(text, "Node ")
}

/// The numeric value of the first parseable `step=` line: the line value
/// with surrounding blanks removed must be a decimal number.
pub fn parse_step_from_text(text: &str) -> (r: Option<usize>)
    ensures
        match r {
            Some(v) => exists|s: Seq<char>|
                spec_find_line_value(text@, "step"@ + "="@, 0) == Some(s)
                    && spec_parse_u64(crate::strutil::spec_trimmed(s)) == Some(v as int),
            None => true,
        },
{
    match parse_line_value(text, "step") {
        Some(v) => {
            let trimmed = crate::strutil::trim_blanks(v.as_str());
            match parse_u64(trimmed.as_str()) {
                Some(n) => {
                    if n <= usize::MAX as u64 {
                        proof {
                            assert(spec_find_line_value(text@, "step"@ + "="@, 0) == Some(v@));
                            assert(trimmed@ == crate::strutil::spec_trimmed(v@));
                            assert(spec_parse_u64(trimmed@) is Some);
                            assert(spec_parse_u64(trimmed@).unwrap() as u64 == n);
                            assert(spec_parse_u64(trimmed@).unwrap() <= u64::MAX);
                            assert(spec_parse_u64(trimmed@).unwrap() >= 0) by {
                                crate::strutil::lemma_parse_nonneg(trimmed@);
                            }
                            assert(spec_parse_u64(crate::strutil::spec_trimmed(v@)) == Some(
                                n as int,
                            ));
                        }
                        Some(n as usize)
                    } else {
                        None
                    }
                },
                None => None,
            }
        },
        None => None,
    }
}

/// `m` occurs as a contiguous run of `text`.
pub open spec fn spec_slice_of(text: Seq<char>, m: Seq<char>) -> bool {
    exists|a: int|
        0 <= a && a + m.len() <= text.len() && (#[trigger] text.subrange(a, a + m.len())) == m
}

/// The serialized metadata object inside a frame text: the first
/// brace-balanced object after the first `metadata=` marker. The result
/// is a contiguous slice of the text, opened by a brace and closed by its
/// matching brace.
pub fn extract_metadata_json(text: &str) -> (r: Option<String>)
    ensures
        match r {
            Some(m) => spec_slice_of(text@, m@) && m@.len() >= 2 && m@[0] == '{' && m@.last()
                == '}',
            None => true,
        },
{
    proof {
        reveal_strlit("metadata=");
    }
    let n = text.unicode_len();
    let marker = match find_sub(text, "metadata=") {
        Some(p) => p,
        None => { return None },
    };
    proof {
        assert("metadata="@.len() == 9);
    }
    let mut b: usize = marker + 9;
    let mut found_brace = false;
    while b < n
        invariant_except_break
            !found_brace,
        invariant
            n == text@.len(),
            b <= n,
            found_brace ==> b < n && text@[b as int] == '{',
        ensures
            found_brace ==> b < n && text@[b as int] == '{',
        decreases n - b,
    {
        if text.get_char(b) == '{' {
            found_brace = true;
            break ;
        }
        b += 1;
    }
    if !found_brace {
        return None;
    }
    let mut depth: usize = 0;
    let mut k: usize = b;
    while k < n
        invariant
            n == text@.len(),
            b <= k <= n,
            b < n,
            text@[b as int] == '{',
        decreases n - k,
    {
        let c = text.get_char(k);
        if c == '{' {
            if depth == usize::MAX {
                return None;
            }
            depth += 1;
        } else if c == '}' {
            if depth == 0 {
                return None;
            }
            depth -= 1;
            if depth == 0 {
                let m = String::from_str(text.substring_char(b, k + 1));
                proof {
                    assert(m@ == text@.subrange(b as int, k as int + 1));
                    assert(m@.len() == k + 1 - b);
                    assert(text@.subrange(b as int, b + m@.len()) == m@);
                    assert(spec_slice_of(text@, m@));
                    assert(m@[0] == text@[b as int]);
                    assert(m@.last() == text@[k as int]);
                }
                return Some(m);
            }
        }
        k += 1;
    }
    None
}

/// A capsule frame handed over for a rebuild: plain text plus any fields
/// recovered from its serialized metadata object.
#[derive(Debug, Clone)]
pub struct RawFrameMeta {
    pub id: Option<String>,
    pub relation_type: Option<String>,
    pub source_id: Option<String>,
    pub target_id: Option<String>,
    pub confidence_milli: Option<u32>,
    pub reason: Option<String>,
    pub step: Option<usize>,
    pub start_line: Option<usize>,
    pub end_line: Option<usize>,
    pub language: Option<String>,
    pub communities: Vec<String>,
}

#[derive(Debug, Clone)]
pub struct RawFrame {
    pub uri: String,
    pub track: String,
    pub text: String,
    pub meta: Option<RawFrameMeta>,
}

pub open spec fn spec_frame_is_relation(f: RawFrame) -> bool {
    spec_starts_with(f.uri@, "mv2://relations/"@)
}

pub open spec fn spec_frame_is_manifest(f: RawFrame) -> bool {
    !spec_frame_is_relation(f) && spec_starts_with(f.uri@, "mv2://meta/manifest"@)
}

pub open spec fn spec_frame_is_ai_bible(f: RawFrame) -> bool {
    !spec_frame_is_relation(f) && !spec_frame_is_manifest(f) && spec_starts_with(
        f.uri@,
        "mv2://meta/ai-bible/"@,
    )
}

pub open spec fn spec_frame_is_node(f: RawFrame) -> bool {
    !spec_frame_is_relation(f) && !spec_frame_is_manifest(f) && !spec_frame_is_ai_bible(f)
}

/// Number of node frames.
pub open spec fn spec_node_frame_count(frames: Seq<RawFrame>) -> int
    decreases frames.len(),
{
    if frames.len() == 0 {
        0
    } else {
        spec_node_frame_count(frames.drop_last()) + if spec_frame_is_node(frames.last()) {
            1int
        } else {
            0int
        }
    }
}

/// Number of relation frames.
pub open spec fn spec_relation_frame_count(frames: Seq<RawFrame>) -> int
    decreases frames.len(),
{
    if frames.len() == 0 {
        0
    } else {
        spec_relation_frame_count(frames.drop_last()) + if spec_frame_is_relation(
            frames.last(),
        ) {
            1int
        } else {
            0int
        }
    }
}

/// A rebuilt edge record ties to its relation frame: the identifier is the
/// URI past the relations prefix; typed fields come from the recovered
/// metadata, with the text-parse fallbacks for type and step.
pub open spec fn spec_rebuilt_edge(rec: EdgeRecord, f: RawFrame) -> bool {
    &&& spec_frame_is_relation(f)
    &&& rec.uri@ == f.uri@
    &&& rec.search_text@ == f.text@
    &&& rec.id@ == f.uri@.skip("mv2://relations/"@.len() as int)
    &&& match f.meta {
        Some(m) => {
            &&& (m.relation_type is Some ==> rec.relation_type@ == m.relation_type.unwrap()@)
            &&& rec.source_id@ == (match m.source_id {
                Some(s) => s@,
                None => Seq::empty(),
            })
            &&& rec.target_id@ == (match m.target_id {
                Some(s) => s@,
                None => Seq::empty(),
            })
            &&& rec.confidence_milli as int == (match m.confidence_milli {
                Some(c) => c as int,
                None => 0,
            })
            &&& rec.reason@ == (match m.reason {
                Some(s) => s@,
                None => Seq::empty(),
            })
            &&& (m.step is Some ==> rec.step == m.step)
        },
        None => {
            &&& rec.source_id@ == Seq::<char>::empty()
            &&& rec.target_id@ == Seq::<char>::empty()
            &&& rec.confidence_milli == 0
            &&& rec.reason@ == Seq::<char>::empty()
        },
    }
}

/// A rebuilt node record ties to its node frame: community and process
/// URIs force the label; otherwise the `Node <LABEL>` line or "Node";
/// identifier from the `id=` line or the URI tail; name from the `name=`
/// line or the identifier; file path from the `filePath=` line or empty.
pub open spec fn spec_rebuilt_node(rec: NodeRecord, f: RawFrame) -> bool {
    &&& spec_frame_is_node(f)
    &&& rec.uri@ == f.uri@
    &&& rec.search_text@ == f.text@
    &&& rec.title@ == rec.name@
    &&& rec.label@ == if spec_starts_with(f.uri@, "mv2://communities/"@) {
        "Community"@
    } else if spec_starts_with(f.uri@, "mv2://processes/"@) {
        "Process"@
    } else {
        match spec_find_line_value(f.text@, "Node "@, 0) {
            Some(v) => v,
            None => "Node"@,
        }
    }
    &&& (match spec_find_line_value(f.text@, "id"@ + "="@, 0) {
        Some(v) => rec.id@ == v,
        None => true,
    })
    &&& rec.name@ == (match spec_find_line_value(f.text@, "name"@ + "="@, 0) {
        Some(v) => v,
        None => rec.id@,
    })
    &&& rec.file_path@ == (match spec_find_line_value(f.text@, "filePath"@ + "="@, 0) {
        Some(v) => v,
        None => Seq::empty(),
    })
    &&& match f.meta {
        Some(m) => rec.start_line == m.start_line && rec.end_line == m.end_line,
        None => rec.start_line is None && rec.end_line is None,
    }
}

pub open spec fn spec_rebuilt_node_present(recs: Seq<NodeRecord>, f: RawFrame) -> bool {
    exists|k: int| 0 <= k < recs.len() && spec_rebuilt_node(#[trigger] recs[k], f)
}

pub open spec fn spec_rebuilt_edge_present(recs: Seq<EdgeRecord>, f: RawFrame) -> bool {
    exists|k: int| 0 <= k < recs.len() && spec_rebuilt_edge(#[trigger] recs[k], f)
}

pub open spec fn spec_rebuilt_node_sound(rec: NodeRecord, frames: Seq<RawFrame>) -> bool {
    exists|j: int| 0 <= j < frames.len() && spec_rebuilt_node(rec, #[trigger] frames[j])
}

pub open spec fn spec_rebuilt_edge_sound(rec: EdgeRecord, frames: Seq<RawFrame>) -> bool {
    exists|j: int| 0 <= j < frames.len() && spec_rebuilt_edge(rec, #[trigger] frames[j])
}

/// The text after the last slash (the whole text when there is none).
fn last_slash_tail(s: &str) -> (r: String)
    ensures
        exists|c: int| 0 <= c <= s@.len() && r@ == s@.skip(c),
{
    let n = s.unicode_len();
    let mut cut: usize = 0;
    let mut k: usize = 0;
    while k < n
        invariant
            n == s@.len(),
            0 <= k <= n,
            cut <= n,
        decreases n - k,
    {
        if s.get_char(k) == '/' {
            cut = k + 1;
        }
        k += 1;
    }
    let out = str_suffix(s, cut);
    proof {
        assert(out@ == s@.skip(cut as int));
    }
    out
}

/// Rebuilds the index content from capsule frames: classifies each frame
/// by its URI, recovers node and edge records (metadata fields first, then
/// the line-format fallbacks), and derives the secondary tables.
pub fn build_from_frames(
    capsule_path: &str,
    frames: &Vec<RawFrame>,
    supports_semantic: bool,
    manifest_json: Option<String>,
    now_ms: u64,
) -> (r: CapsuleIndex)
    ensures
        r.capsule_path@ == capsule_path@,
        r.sidecar_path@ == capsule_path@ + SIDECAR_SUFFIX@,
        r.generated_at_ms == now_ms,
        r.manifest_json == manifest_json,
        r.capabilities.supports_semantic_fallback == supports_semantic,
        r.capabilities.node_count == r.nodes.len(),
        r.capabilities.edge_count == r.edges.len(),
        r.capabilities.fulltext_count == r.fulltext.len(),
        r.fulltext.len() == frames.len(),
        forall|j: int|
            0 <= j < frames.len() ==> (#[trigger] r.fulltext[j].uri@) == frames[j].uri@
                && r.fulltext[j].ref_id@ == frames[j].uri@ && r.fulltext[j].track@
                == frames[j].track@ && r.fulltext[j].text@ == frames[j].text@,
        r.nodes.len() == spec_node_frame_count(frames@),
        r.edges.len() == spec_relation_frame_count(frames@),
        forall|k: int|
            0 <= k < r.nodes.len() ==> spec_rebuilt_node_sound(#[trigger] r.nodes[k], frames@),
        forall|k: int|
            0 <= k < r.edges.len() ==> spec_rebuilt_edge_sound(#[trigger] r.edges[k], frames@),
        forall|j: int|
            0 <= j < frames.len() && spec_frame_is_node(#[trigger] frames[j])
                ==> spec_rebuilt_node_present(r.nodes@, frames[j]),
        forall|j: int|
            0 <= j < frames.len() && spec_frame_is_relation(#[trigger] frames[j])
                ==> spec_rebuilt_edge_present(r.edges@, frames[j]),
{
    let mut nodes: Vec<NodeRecord> = Vec::new();
    let mut edges: Vec<EdgeRecord> = Vec::new();
    let mut fulltext: Vec<FulltextEntry> = Vec::new();
    let mut has_ai_bible = false;
    let mut j: usize = 0;
    proof {
        assert(frames@.take(0).len() == 0);
    }
    while j < frames.len()
        invariant
            0 <= j <= frames.len(),
            fulltext.len() == j,
            forall|t: int|
                0 <= t < j ==> (#[trigger] fulltext[t].uri@) == frames[t].uri@
                    && fulltext[t].ref_id@ == frames[t].uri@ && fulltext[t].track@
                    == frames[t].track@ && fulltext[t].text@ == frames[t].text@,
            nodes.len() == spec_node_frame_count(frames@.take(j as int)),
            edges.len() == spec_relation_frame_count(frames@.take(j as int)),
            forall|k: int|
                0 <= k < nodes.len() ==> spec_rebuilt_node_sound(#[trigger] nodes[k], frames@),
            forall|k: int|
                0 <= k < edges.len() ==> spec_rebuilt_edge_sound(#[trigger] edges[k], frames@),
            forall|t: int|
                0 <= t < j && spec_frame_is_node(#[trigger] frames[t])
                    ==> spec_rebuilt_node_present(nodes@, frames[t]),
            forall|t: int|
                0 <= t < j && spec_frame_is_relation(#[trigger] frames[t])
                    ==> spec_rebuilt_edge_present(edges@, frames[t]),
        decreases frames.len() - j,
    {
        let f = &frames[j];
        proof {
            assert(*f == frames[j as int]);
            assert(frames@.take(j as int + 1).last() == frames@[j as int]);
            assert(frames@.take(j as int + 1).drop_last() =~= frames@.take(j as int));
        }
        let is_relation = str_starts_with(f.uri.as_str(), "mv2://relations/");
        let is_manifest = !is_relation && str_starts_with(f.uri.as_str(), "mv2://meta/manifest");
        let is_bible = !is_relation && !is_manifest && str_starts_with(
            f.uri.as_str(),
            "mv2://meta/ai-bible/",
        );
        let kind: &'static str = if is_relation {
            "relation"
        } else if is_manifest {
            "manifest"
        } else if is_bible {
            "ai_bible"
        } else {
            "node"
        };
        if is_bible {
            has_ai_bible = true;
        }
        fulltext.push(
            FulltextEntry {
                ref_kind: String::from_str(kind),
                ref_id: f.uri.clone(),
                uri: f.uri.clone(),
                track: f.track.clone(),
                text: f.text.clone(),
            },
        );
        if is_relation {
            proof {
                reveal_strlit("mv2://relations/");
            }
            let plen: usize = 16;
            proof {
                assert("mv2://relations/"@.len() == 16);
            }
            let ulen = f.uri.as_str().unicode_len();
            let edge_id = str_suffix(f.uri.as_str(), plen);
            let (relation_type, source_id, target_id, confidence_milli, reason, meta_step):
                (Option<String>, String, String, u32, String, Option<usize>) = match &f.meta {
                Some(m) => (
                    match &m.relation_type {
                        Some(t) => Some(t.clone()),
                        None => None,
                    },
                    match &m.source_id {
                        Some(x) => x.clone(),
                        None => String::new(),
                    },
                    match &m.target_id {
                        Some(x) => x.clone(),
                        None => String::new(),
                    },
                    match m.confidence_milli {
                        Some(c) => c,
                        None => 0,
                    },
                    match &m.reason {
                        Some(x) => x.clone(),
                        None => String::new(),
                    },
                    m.step,
                ),
                None => (None, String::new(), String::new(), 0, String::new(), None),
            };
            let relation_type = match relation_type {
                Some(t) => t,
                None => match parse_relation_type(f.text.as_str()) {
                    Some(t) => t,
                    None => String::from_str("UNKNOWN"),
                },
            };
            let step = match meta_step {
                Some(sv) => Some(sv),
                None => parse_step_from_text(f.text.as_str()),
            };
            let ghost edges0 = edges@;
            edges.push(
                EdgeRecord {
                    id: edge_id,
                    relation_type,
                    source_id,
                    target_id,
                    confidence_milli,
                    reason,
                    step,
                    uri: f.uri.clone(),
                    search_text: f.text.clone(),
                },
            );
            proof {
                let n = edges.len() - 1;
                assert(forall|k: int| 0 <= k < n ==> (#[trigger] edges[k]) == edges0[k]);
                assert(spec_rebuilt_edge(edges[n as int], frames[j as int]));
                assert(spec_rebuilt_edge_present(edges@, frames[j as int]));
                assert forall|t: int|
                    0 <= t < j && spec_frame_is_relation(#[trigger] frames[t])
                        implies spec_rebuilt_edge_present(edges@, frames[t]) by {
                    let k = choose|k: int|
                        0 <= k < edges0.len() && spec_rebuilt_edge(#[trigger] edges0[k], frames[t]);
                    assert(spec_rebuilt_edge(edges[k], frames[t]));
                }
            }
        } else if is_manifest || is_bible {
        } else {
            let label: String = if str_starts_with(f.uri.as_str(), "mv2://communities/") {
                String::from_str("Community")
            } else if str_starts_with(f.uri.as_str(), "mv2://processes/") {
                String::from_str("Process")
            } else {
                match parse_node_label(f.text.as_str()) {
                    Some(l) => l,
                    None => String::from_str("Node"),
                }
            };
            let id: String = match parse_id_line(f.text.as_str()) {
                Some(v) => v,
                None => last_slash_tail(f.uri.as_str()),
            };
            let name: String = match parse_name_line(f.text.as_str()) {
                Some(v) => v,
                None => id.clone(),
            };
            let file_path: String = match parse_file_path_line(f.text.as_str()) {
                Some(v) => v,
                None => String::new(),
            };
            let (start_line, end_line, language, communities): (
                Option<usize>,
                Option<usize>,
                Option<String>,
                Vec<String>,
            ) = match &f.meta {
                Some(m) => (
                    m.start_line,
                    m.end_line,
                    match &m.language {
                        Some(l) => Some(l.clone()),
                        None => None,
                    },
                    m.communities.clone(),
                ),
                None => (None, None, None, Vec::new()),
            };
            let ghost nodes0 = nodes@;
            nodes.push(
                NodeRecord {
                    id,
                    label,
                    name: name.clone(),
                    file_path,
                    start_line,
                    end_line,
                    language,
                    uri: f.uri.clone(),
                    title: name,
                    search_text: f.text.clone(),
                    communities,
                },
            );
            proof {
                let n = nodes.len() - 1;
                assert(forall|k: int| 0 <= k < n ==> (#[trigger] nodes[k]) == nodes0[k]);
                assert(spec_rebuilt_node(nodes[n as int], frames[j as int]));
                assert(spec_rebuilt_node_present(nodes@, frames[j as int]));
                assert forall|t: int|
                    0 <= t < j && spec_frame_is_node(#[trigger] frames[t])
                        implies spec_rebuilt_node_present(nodes@, frames[t]) by {
                    let k = choose|k: int|
                        0 <= k < nodes0.len() && spec_rebuilt_node(#[trigger] nodes0[k], frames[t]);
                    assert(spec_rebuilt_node(nodes[k], frames[t]));
                }
            }
        }
        j += 1;
    }
    proof {
        assert(frames@.take(frames.len() as int) =~= frames@);
    }
    let process_steps = derive_process_steps(&edges);
    let symbols = derive_symbols(&nodes);
    let hotspots = derive_hotspots(&nodes, &edges);
    let community_membership = derive_community_membership(&nodes);
    let node_count = nodes.len();
    let edge_count = edges.len();
    let fulltext_count = fulltext.len();
    let has_manifest = manifest_json.is_some();
    CapsuleIndex {
        capsule_path: String::from_str(capsule_path),
        sidecar_path: sidecar_path_for_capsule(capsule_path),
        schema_version: String::from_str("gitnexus.mcp.index.v1"),
        generated_at_ms: now_ms,
        manifest_json,
        capabilities: CapsuleCapabilities {
            supports_semantic_fallback: supports_semantic,
            has_ai_bible,
            has_manifest,
            node_count,
            edge_count,
            fulltext_count,
        },
        nodes,
        edges,
        process_steps,
        symbols,
        hotspots,
        community_membership,
        fulltext,
    }
}


/// A record built from a node frame document of the transform stage.
pub open spec fn spec_doc_node(rec: NodeRecord, doc: FrameDocument) -> bool {
    match doc.meta {
        FrameMeta::NodeFrame(m) => {
            &&& rec.id@ == m.id@
            &&& rec.label@ == m.label@
            &&& rec.name@ == m.name@
            &&& rec.file_path@ == m.file_path@
            &&& rec.start_line == m.start_line
            &&& rec.end_line == m.end_line
            &&& rec.uri@ == doc.uri@
            &&& rec.title@ == doc.title@
            &&& rec.search_text@ == doc.text@
            &&& rec.communities@ =~= m.communities@
        },
        _ => false,
    }
}

/// A record built from a relation frame document of the transform stage.
pub open spec fn spec_doc_edge(rec: EdgeRecord, doc: FrameDocument) -> bool {
    match doc.meta {
        FrameMeta::RelationFrame(m) => {
            &&& rec.id@ == m.id@
            &&& rec.relation_type@ == m.relation_type@
            &&& rec.source_id@ == m.source_id@
            &&& rec.target_id@ == m.target_id@
            &&& rec.confidence_milli == m.confidence_milli
            &&& rec.reason@ == m.reason@
            &&& rec.step == m.step
            &&& rec.uri@ == doc.uri@
            &&& rec.search_text@ == doc.text@
        },
        _ => false,
    }
}

pub open spec fn spec_doc_node_count(docs: Seq<FrameDocument>) -> int
    decreases docs.len(),
{
    if docs.len() == 0 {
        0
    } else {
        spec_doc_node_count(docs.drop_last()) + if docs.last().meta is NodeFrame {
            1int
        } else {
            0int
        }
    }
}

pub open spec fn spec_doc_relation_count(docs: Seq<FrameDocument>) -> int
    decreases docs.len(),
{
    if docs.len() == 0 {
        0
    } else {
        spec_doc_relation_count(docs.drop_last()) + if docs.last().meta is RelationFrame {
            1int
        } else {
            0int
        }
    }
}

pub open spec fn spec_doc_node_present(recs: Seq<NodeRecord>, doc: FrameDocument) -> bool {
    exists|k: int| 0 <= k < recs.len() && spec_doc_node(#[trigger] recs[k], doc)
}

pub open spec fn spec_doc_edge_present(recs: Seq<EdgeRecord>, doc: FrameDocument) -> bool {
    exists|k: int| 0 <= k < recs.len() && spec_doc_edge(#[trigger] recs[k], doc)
}

pub open spec fn spec_doc_node_sound(rec: NodeRecord, docs: Seq<FrameDocument>) -> bool {
    exists|j: int| 0 <= j < docs.len() && spec_doc_node(rec, #[trigger] docs[j])
}

pub open spec fn spec_doc_edge_sound(rec: EdgeRecord, docs: Seq<FrameDocument>) -> bool {
    exists|j: int| 0 <= j < docs.len() && spec_doc_edge(rec, #[trigger] docs[j])
}

/// Builds the index synchronously from the export request's frame
/// documents: node and relation frames become records, every document
/// becomes a fulltext entry, and the secondary tables are derived.
#[verifier::rlimit(60)]
pub fn build_index_from_request(
    docs: &Vec<FrameDocument>,
    capsule_path: &str,
    semantic_enabled: bool,
    manifest_json: Option<String>,
    now_ms: u64,
) -> (r: CapsuleIndex)
    ensures
        r.capsule_path@ == capsule_path@,
        r.sidecar_path@ == capsule_path@ + SIDECAR_SUFFIX@,
        r.generated_at_ms == now_ms,
        r.manifest_json == manifest_json,
        r.capabilities.supports_semantic_fallback == semantic_enabled,
        r.capabilities.node_count == r.nodes.len(),
        r.capabilities.edge_count == r.edges.len(),
        r.capabilities.fulltext_count == r.fulltext.len(),
        r.fulltext.len() == docs.len(),
        forall|j: int|
            0 <= j < docs.len() ==> (#[trigger] r.fulltext[j].uri@) == docs[j].uri@
                && r.fulltext[j].ref_id@ == docs[j].uri@ && r.fulltext[j].track@
                == docs[j].track@ && r.fulltext[j].text@ == docs[j].text@,
        r.nodes.len() == spec_doc_node_count(docs@),
        r.edges.len() == spec_doc_relation_count(docs@),
        forall|k: int| 0 <= k < r.nodes.len() ==> spec_doc_node_sound(#[trigger] r.nodes[k], docs@),
        forall|k: int| 0 <= k < r.edges.len() ==> spec_doc_edge_sound(#[trigger] r.edges[k], docs@),
        forall|j: int|
            0 <= j < docs.len() && (#[trigger] docs[j].meta) is NodeFrame
                ==> spec_doc_node_present(r.nodes@, docs[j]),
        forall|j: int|
            0 <= j < docs.len() && (#[trigger] docs[j].meta) is RelationFrame
                ==> spec_doc_edge_present(r.edges@, docs[j]),
{
    let mut nodes: Vec<NodeRecord> = Vec::new();
    let mut edges: Vec<EdgeRecord> = Vec::new();
    let mut fulltext: Vec<FulltextEntry> = Vec::new();
    let mut has_ai_bible = false;
    let mut j: usize = 0;
    proof {
        assert(docs@.take(0).len() == 0);
    }
    while j < docs.len()
        invariant
            0 <= j <= docs.len(),
            fulltext.len() == j,
            forall|t: int|
                0 <= t < j ==> (#[trigger] fulltext[t].uri@) == docs[t].uri@
                    && fulltext[t].ref_id@ == docs[t].uri@ && fulltext[t].track@
                    == docs[t].track@ && fulltext[t].text@ == docs[t].text@,
            nodes.len() == spec_doc_node_count(docs@.take(j as int)),
            edges.len() == spec_doc_relation_count(docs@.take(j as int)),
            forall|k: int|
                0 <= k < nodes.len() ==> spec_doc_node_sound(#[trigger] nodes[k], docs@),
            forall|k: int|
                0 <= k < edges.len() ==> spec_doc_edge_sound(#[trigger] edges[k], docs@),
            forall|t: int|
                0 <= t < j && (#[trigger] docs[t].meta) is NodeFrame ==> spec_doc_node_present(
                    nodes@,
                    docs[t],
                ),
            forall|t: int|
                0 <= t < j && (#[trigger] docs[t].meta) is RelationFrame
                    ==> spec_doc_edge_present(edges@, docs[t]),
        decreases docs.len() - j,
    {
        let doc = &docs[j];
        proof {
            assert(*doc == docs[j as int]);
            assert(docs@.take(j as int + 1).last() == docs@[j as int]);
            assert(docs@.take(j as int + 1).drop_last() =~= docs@.take(j as int));
        }
        if str_starts_with(doc.uri.as_str(), "mv2://meta/ai-bible/") {
            has_ai_bible = true;
        }
        let kind: &'static str = match &doc.meta {
            FrameMeta::NodeFrame(_) => "node",
            FrameMeta::RelationFrame(_) => "relation",
            FrameMeta::ManifestFrame => "manifest",
            FrameMeta::AiBibleFrame => "ai_bible",
        };
        fulltext.push(
            FulltextEntry {
                ref_kind: String::from_str(kind),
                ref_id: doc.uri.clone(),
                uri: doc.uri.clone(),
                track: doc.track.clone(),
                text: doc.text.clone(),
            },
        );
        match &doc.meta {
            FrameMeta::NodeFrame(m) => {
                let ghost nodes0 = nodes@;
                nodes.push(
                    NodeRecord {
                        id: m.id.clone(),
                        label: m.label.clone(),
                        name: m.name.clone(),
                        file_path: m.file_path.clone(),
                        start_line: m.start_line,
                        end_line: m.end_line,
                        language: clone_opt_str(&m.language),
                        uri: doc.uri.clone(),
                        title: doc.title.clone(),
                        search_text: doc.text.clone(),
                        communities: clone_string_vec(&m.communities),
                    },
                );
                proof {
                    let n = nodes.len() - 1;
                    assert(forall|k: int| 0 <= k < n ==> (#[trigger] nodes[k]) == nodes0[k]);
                    assert(spec_doc_node(nodes[n as int], docs[j as int]));
                    assert(spec_doc_node_present(nodes@, docs[j as int]));
                    assert forall|t: int|
                        0 <= t < j && (#[trigger] docs[t].meta) is NodeFrame
                            implies spec_doc_node_present(nodes@, docs[t]) by {
                        let k = choose|k: int|
                            0 <= k < nodes0.len() && spec_doc_node(#[trigger] nodes0[k], docs[t]);
                        assert(spec_doc_node(nodes[k], docs[t]));
                    }
                }
            },
            FrameMeta::RelationFrame(m) => {
                let ghost edges0 = edges@;
                edges.push(
                    EdgeRecord {
                        id: m.id.clone(),
                        relation_type: m.relation_type.clone(),
                        source_id: m.source_id.clone(),
                        target_id: m.target_id.clone(),
                        confidence_milli: m.confidence_milli,
                        reason: m.reason.clone(),
                        step: m.step,
                        uri: doc.uri.clone(),
                        search_text: doc.text.clone(),
                    },
                );
                proof {
                    let n = edges.len() - 1;
                    assert(forall|k: int| 0 <= k < n ==> (#[trigger] edges[k]) == edges0[k]);
                    assert(spec_doc_edge(edges[n as int], docs[j as int]));
                    assert(spec_doc_edge_present(edges@, docs[j as int]));
                    assert forall|t: int|
                        0 <= t < j && (#[trigger] docs[t].meta) is RelationFrame
                            implies spec_doc_edge_present(edges@, docs[t]) by {
                        let k = choose|k: int|
                            0 <= k < edges0.len() && spec_doc_edge(#[trigger] edges0[k], docs[t]);
                        assert(spec_doc_edge(edges[k], docs[t]));
                    }
                }
            },
            FrameMeta::ManifestFrame => {},
            FrameMeta::AiBibleFrame => {},
        }
        j += 1;
    }
    proof {
        assert(docs@.take(docs.len() as int) =~= docs@);
    }
    let process_steps = derive_process_steps(&edges);
    let symbols = derive_symbols(&nodes);
    let hotspots = derive_hotspots(&nodes, &edges);
    let community_membership = derive_community_membership(&nodes);
    let node_count = nodes.len();
    let edge_count = edges.len();
    let fulltext_count = fulltext.len();
    let has_manifest = manifest_json.is_some();
    CapsuleIndex {
        capsule_path: String::from_str(capsule_path),
        sidecar_path: sidecar_path_for_capsule(capsule_path),
        schema_version: String::from_str("gitnexus.mcp.index.v1"),
        generated_at_ms: now_ms,
        manifest_json,
        capabilities: CapsuleCapabilities {
            supports_semantic_fallback: semantic_enabled,
            has_ai_bible,
            has_manifest,
            node_count,
            edge_count,
            fulltext_count,
        },
        nodes,
        edges,
        process_steps,
        symbols,
        hotspots,
        community_membership,
        fulltext,
    }
}

/// The rows persisted into the sidecar, one collection per table, plus the
/// metadata key-value entries.
#[derive(Debug)]
pub struct SidecarRows {
    pub schema_version: String,
    pub generated_at_ms: u64,
    pub manifest_json: Option<String>,
    pub supports_semantic_fallback: bool,
    pub has_ai_bible: bool,
    pub has_manifest: bool,
    pub nodes: Vec<NodeRecord>,
    pub edges: Vec<EdgeRecord>,
    pub process_steps: Vec<ProcessStepRecord>,
    pub symbols: Vec<SymbolRecord>,
    pub hotspots: Vec<HotspotRecord>,
    pub community_membership: Vec<CommunityMembershipRecord>,
    pub fulltext: Vec<FulltextEntry>,
}

fn clone_node_vec(v: &Vec<NodeRecord>) -> (r: Vec<NodeRecord>)
    ensures
        r.len() == v.len(),
        forall|i: int|
            0 <= i < v.len() ==> {
                &&& (#[trigger] r[i]).id == v[i].id
                &&& r[i].label == v[i].label
                &&& r[i].name == v[i].name
                &&& r[i].file_path == v[i].file_path
                &&& r[i].start_line == v[i].start_line
                &&& r[i].end_line == v[i].end_line
                &&& r[i].language == v[i].language
                &&& r[i].uri == v[i].uri
                &&& r[i].title == v[i].title
                &&& r[i].search_text == v[i].search_text
                &&& r[i].communities@ == v[i].communities@
            },
{
    let mut out: Vec<NodeRecord> = Vec::new();
    let mut i: usize = 0;
    while i < v.len()
        invariant
            0 <= i <= v.len(),
            out.len() == i,
            forall|k: int|
                0 <= k < i ==> {
                    &&& (#[trigger] out[k]).id == v[k].id
                    &&& out[k].label == v[k].label
                    &&& out[k].name == v[k].name
                    &&& out[k].file_path == v[k].file_path
                    &&& out[k].start_line == v[k].start_line
                    &&& out[k].end_line == v[k].end_line
                    &&& out[k].language == v[k].language
                    &&& out[k].uri == v[k].uri
                    &&& out[k].title == v[k].title
                    &&& out[k].search_text == v[k].search_text
                    &&& out[k].communities@ == v[k].communities@
                },
        decreases v.len() - i,
    {
        out.push(v[i].clone());
        i += 1;
    }
    out
}

fn clone_record_vec<T: Clone>(v: &Vec<T>) -> (r: Vec<T>)
    ensures
        r@.len() == v@.len(),
        forall|i: int| 0 <= i < v@.len() ==> vstd::pervasive::cloned::<T>(v[i], #[trigger] r[i]),
{
    let mut out: Vec<T> = Vec::new();
    let mut i: usize = 0;
    while i < v.len()
        invariant
            0 <= i <= v.len(),
            out.len() == i,
            forall|k: int|
                0 <= k < i ==> vstd::pervasive::cloned::<T>(v[k], #[trigger] out[k]),
        decreases v.len() - i,
    {
        out.push(v[i].clone());
        i += 1;
    }
    out
}

impl CapsuleIndex {
    /// The rows to persist: an exact copy of every table, so persisting
    /// and loading them gives back the same node, edge and step sets.
    pub fn to_sidecar_rows(&self) -> (r: SidecarRows)
        ensures
            r.schema_version == self.schema_version,
            r.generated_at_ms == self.generated_at_ms,
            r.manifest_json == self.manifest_json,
            r.supports_semantic_fallback == self.capabilities.supports_semantic_fallback,
            r.has_ai_bible == self.capabilities.has_ai_bible,
            r.has_manifest == self.capabilities.has_manifest,
            r.edges@ == self.edges@,
            r.process_steps@ == self.process_steps@,
            r.symbols@ == self.symbols@,
            r.hotspots@ == self.hotspots@,
            r.community_membership@ == self.community_membership@,
            r.fulltext@ == self.fulltext@,
            r.nodes.len() == self.nodes.len(),
            forall|i: int|
                0 <= i < self.nodes.len() ==> {
                    &&& (#[trigger] r.nodes[i]).id == self.nodes[i].id
                    &&& r.nodes[i].label == self.nodes[i].label
                    &&& r.nodes[i].name == self.nodes[i].name
                    &&& r.nodes[i].file_path == self.nodes[i].file_path
                    &&& r.nodes[i].start_line == self.nodes[i].start_line
                    &&& r.nodes[i].end_line == self.nodes[i].end_line
                    &&& r.nodes[i].language == self.nodes[i].language
                    &&& r.nodes[i].uri == self.nodes[i].uri
                    &&& r.nodes[i].title == self.nodes[i].title
                    &&& r.nodes[i].search_text == self.nodes[i].search_text
                    &&& r.nodes[i].communities@ == self.nodes[i].communities@
                },
    {
        let edges = clone_record_vec(&self.edges);
        let process_steps = clone_record_vec(&self.process_steps);
        let symbols = clone_record_vec(&self.symbols);
        let hotspots = clone_record_vec(&self.hotspots);
        let community_membership = clone_record_vec(&self.community_membership);
        let fulltext = clone_record_vec(&self.fulltext);
        proof {
            assert(edges@ =~= self.edges@);
            assert(process_steps@ =~= self.process_steps@);
            assert(symbols@ =~= self.symbols@);
            assert(hotspots@ =~= self.hotspots@);
            assert(community_membership@ =~= self.community_membership@);
            assert(fulltext@ =~= self.fulltext@);
        }
        SidecarRows {
            schema_version: self.schema_version.clone(),
            generated_at_ms: self.generated_at_ms,
            manifest_json: clone_opt_str(&self.manifest_json),
            supports_semantic_fallback: self.capabilities.supports_semantic_fallback,
            has_ai_bible: self.capabilities.has_ai_bible,
            has_manifest: self.capabilities.has_manifest,
            nodes: clone_node_vec(&self.nodes),
            edges,
            process_steps,
            symbols,
            hotspots,
            community_membership,
            fulltext,
        }
    }

    /// Rebuilds the in-memory index from loaded sidecar rows: every table
    /// is taken over unchanged, so a load after a persist yields the
    /// persisted node, edge and step sets.
    pub fn from_sidecar_rows(capsule_path: &str, rows: SidecarRows) -> (r: CapsuleIndex)
        ensures
            r.capsule_path@ == capsule_path@,
            r.sidecar_path@ == capsule_path@ + SIDECAR_SUFFIX@,
            r.schema_version == rows.schema_version,
            r.generated_at_ms == rows.generated_at_ms,
            r.manifest_json == rows.manifest_json,
            r.nodes == rows.nodes,
            r.edges == rows.edges,
            r.process_steps == rows.process_steps,
            r.symbols == rows.symbols,
            r.hotspots == rows.hotspots,
            r.community_membership == rows.community_membership,
            r.fulltext == rows.fulltext,
            r.capabilities.node_count == rows.nodes.len(),
            r.capabilities.edge_count == rows.edges.len(),
            r.capabilities.fulltext_count == rows.fulltext.len(),
            r.capabilities.supports_semantic_fallback == rows.supports_semantic_fallback,
            r.capabilities.has_ai_bible == rows.has_ai_bible,
            r.capabilities.has_manifest == rows.has_manifest,
    {
        let node_count = rows.nodes.len();
        let edge_count = rows.edges.len();
        let fulltext_count = rows.fulltext.len();
        CapsuleIndex {
            capsule_path: String::from_str(capsule_path),
            sidecar_path: sidecar_path_for_capsule(capsule_path),
            schema_version: rows.schema_version,
            generated_at_ms: rows.generated_at_ms,
            manifest_json: rows.manifest_json,
            capabilities: CapsuleCapabilities {
                supports_semantic_fallback: rows.supports_semantic_fallback,
                has_ai_bible: rows.has_ai_bible,
                has_manifest: rows.has_manifest,
                node_count,
                edge_count,
                fulltext_count,
            },
            nodes: rows.nodes,
            edges: rows.edges,
            process_steps: rows.process_steps,
            symbols: rows.symbols,
            hotspots: rows.hotspots,
            community_membership: rows.community_membership,
            fulltext: rows.fulltext,
        }
    }
}

} // verus!
