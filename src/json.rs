//! The JSON face of the graph metadata: reading nodes and link targets out of
//! a parsed graph, and assembling the annotated result.

use vstd::prelude::*;
use vstd::string::StringExecFns;
use crate::graph::{
    compute_graph_meta, in_degree_of, resolved_id, search_row_of, seq_max, GraphMeta, LinkTarget,
    NodeKey, SearchEntry, GIT_SCORE_DEFAULT,
};
use crate::text::lower_of;

verus! {

#[verifier::external_type_specification]
#[verifier::external_body]
pub struct ExJsonValue(serde_json::Value);

#[verifier::external_type_specification]
#[verifier::external_body]
pub struct ExJsonError(serde_json::Error);

/// Relies on serde_json's `Clone` for `Value`: a deep copy, equal to the original.
pub assume_specification[ <serde_json::Value as Clone>::clone ](v: &serde_json::Value) -> (r: serde_json::Value)
    ensures
        r == *v,
;

/// Why a graph could not be processed, with the JSON library's diagnostic.
#[derive(Debug)]
pub enum GraphError {
    /// The input text is not JSON.
    InvalidInput(String),
    /// The result could not be written out as JSON text.
    SerializationFailure(String),
}

/// The value that `serde_json::from_str::<Value>` reads from the text, if any.
pub uninterp spec fn parsed_json(text: Seq<char>) -> Option<serde_json::Value>;

/// What `Value::get` with a string key gives.
pub uninterp spec fn json_member(v: serde_json::Value, key: Seq<char>) -> Option<serde_json::Value>;

/// What `Value::as_array` gives.
pub uninterp spec fn json_array_items(v: serde_json::Value) -> Option<Seq<serde_json::Value>>;

/// What `Value::as_str` gives.
pub uninterp spec fn json_str_text(v: serde_json::Value) -> Option<Seq<char>>;

/// What `Value::is_object` gives.
pub uninterp spec fn json_is_object_value(v: serde_json::Value) -> bool;

/// The object `v` with member `key` set to `m`, as `Map::insert` leaves it.
pub uninterp spec fn json_with_member(v: serde_json::Value, key: Seq<char>, m: serde_json::Value) -> serde_json::Value;

/// What `Value::from(usize)` gives.
pub uninterp spec fn json_usize(n: usize) -> serde_json::Value;

/// What `Value::from(String)` gives.
pub uninterp spec fn json_from_text(s: Seq<char>) -> serde_json::Value;

/// The array value `Value::Array` makes of the items.
pub uninterp spec fn json_from_items(items: Seq<serde_json::Value>) -> serde_json::Value;

/// The object value that `Map`'s `FromIterator` makes of the members.
pub uninterp spec fn json_from_members(members: Seq<(Seq<char>, serde_json::Value)>) -> serde_json::Value;

/// The text that `serde_json::to_string` writes for a value.
pub uninterp spec fn json_rendering(v: serde_json::Value) -> Seq<char>;

/// The text is JSON.
pub open spec fn json_parses(text: Seq<char>) -> bool {
    parsed_json(text).is_some()
}

/// Relies on `serde_json::from_str::<Value>`: parses JSON text; the value
/// read depends on the text alone.
#[verifier::external_body]
fn parse_json(text: &str) -> (r: Result<serde_json::Value, serde_json::Error>)
    ensures
        match r {
            Ok(v) => parsed_json(text@) == Some(v),
            Err(_) => parsed_json(text@).is_none(),
        },
{
    serde_json::from_str::<serde_json::Value>(text)
}

/// Relies on `serde_json::Error`'s `Display`: the diagnostic text.
#[verifier::external_body]
fn error_text(e: &serde_json::Error) -> String {
    e.to_string()
}

/// Relies on `Value::get` with a `&str` key: the member of an object, `None`
/// for a missing key or a value that is no object.
#[verifier::external_body]
fn json_get<'a>(v: &'a serde_json::Value, key: &str) -> (r: Option<&'a serde_json::Value>)
    ensures
        match r {
            Some(m) => json_member(*v, key@) == Some(*m),
            None => json_member(*v, key@).is_none(),
        },
{
    v.get(key)
}

/// Relies on `Value::as_array`: the elements of an array value.
#[verifier::external_body]
fn json_as_array(v: &serde_json::Value) -> (r: Option<&Vec<serde_json::Value>>)
    ensures
        match r {
            Some(a) => json_array_items(*v) == Some(a@),
            None => json_array_items(*v).is_none(),
        },
{
    v.as_array()
}

/// Relies on `Value::as_str`: the text of a string value.
#[verifier::external_body]
fn json_as_str(v: &serde_json::Value) -> (r: Option<&str>)
    ensures
        match r {
            Some(s) => json_str_text(*v) == Some(s@),
            None => json_str_text(*v).is_none(),
        },
{
    v.as_str()
}

/// Relies on `Value::is_object`: whether the value is an object.
#[verifier::external_body]
fn json_is_object(v: &serde_json::Value) -> (r: bool)
    ensures
        r == json_is_object_value(*v),
{
    v.is_object()
}

/// Relies on `Value::as_object_mut`, which gives the map exactly for an object
/// value, and `Map::insert`: sets a member of an object value, which stays an
/// object; other values are left as they are.
#[verifier::external_body]
fn json_set_member(v: &mut serde_json::Value, key: &str, member: serde_json::Value)
    ensures
        *final(v) == if json_is_object_value(*old(v)) {
            json_with_member(*old(v), key@, member)
        } else {
            *old(v)
        },
        json_is_object_value(*final(v)) == json_is_object_value(*old(v)),
{
    if let Some(o) = v.as_object_mut() {
        o.insert(key.to_string(), member);
    }
}

/// Relies on `Value::from(usize)`: a JSON number.
#[verifier::external_body]
fn json_number(n: usize) -> (r: serde_json::Value)
    ensures
        r == json_usize(n),
{
    serde_json::Value::from(n)
}

/// Relies on `Value::from(String)`: a JSON string.
#[verifier::external_body]
fn json_string(s: String) -> (r: serde_json::Value)
    ensures
        r == json_from_text(s@),
{
    serde_json::Value::from(s)
}

/// Relies on `Value::Array`: a JSON array of the items, in order.
#[verifier::external_body]
fn json_array(items: Vec<serde_json::Value>) -> (r: serde_json::Value)
    ensures
        r == json_from_items(items@),
{
    serde_json::Value::Array(items)
}

/// Relies on `Map`'s `FromIterator`: a JSON object of the members.
#[verifier::external_body]
fn json_object(members: Vec<(String, serde_json::Value)>) -> (r: serde_json::Value)
    ensures
        r == json_from_members(members@.map_values(|p: (String, serde_json::Value)| (p.0@, p.1))),
{
    serde_json::Value::Object(members.into_iter().collect())
}

/// Relies on `serde_json::to_string`: the JSON text of a value. Writing a
/// `Value` into a `Vec` does not fail, as its object keys are strings.
#[verifier::external_body]
fn json_to_text(v: &serde_json::Value) -> (r: Result<String, serde_json::Error>)
    ensures
        r.is_ok(),
        match r {
            Ok(s) => s@ == json_rendering(*v),
            Err(_) => true,
        },
{
    serde_json::to_string(v)
}

/// The elements of the array member `key`; none where it is missing or no array.
pub open spec fn array_or_empty(v: serde_json::Value, key: Seq<char>) -> Seq<serde_json::Value> {
    match json_member(v, key) {
        Some(m) => match json_array_items(m) {
            Some(items) => items,
            None => Seq::empty(),
        },
        None => Seq::empty(),
    }
}

/// The text of the string member `key`; empty where it is missing or no string.
pub open spec fn text_or_empty(v: serde_json::Value, key: Seq<char>) -> Seq<char> {
    match json_member(v, key) {
        Some(m) => match json_str_text(m) {
            Some(s) => s,
            None => Seq::empty(),
        },
        None => Seq::empty(),
    }
}

/// The node id that a link value's `target` names: its text where it is a
/// string, else the text of its `id` member where it is an object.
pub open spec fn target_of(link: serde_json::Value) -> Option<Seq<char>> {
    match json_member(link, "target"@) {
        Some(t) => match json_str_text(t) {
            Some(s) => Some(s),
            None => if json_is_object_value(t) {
                match json_member(t, "id"@) {
                    Some(i) => json_str_text(i),
                    None => None,
                }
            } else {
                None
            },
        },
        None => None,
    }
}

/// The shape that a link value's `target` has.
pub open spec fn target_shape(link: serde_json::Value, t: LinkTarget) -> bool {
    match json_member(link, "target"@) {
        Some(tv) => match json_str_text(tv) {
            Some(s) => t matches LinkTarget::PlainId(p) && p@ == s,
            None => if json_is_object_value(tv) {
                match json_member(tv, "id"@) {
                    Some(iv) => match json_str_text(iv) {
                        Some(s) => t matches LinkTarget::IdObject(p) && p@ == s,
                        None => t matches LinkTarget::Other,
                    },
                    None => t matches LinkTarget::Other,
                }
            } else {
                t matches LinkTarget::Other
            },
        },
        None => t matches LinkTarget::Other,
    }
}

/// The number of links whose target names `id`.
pub open spec fn links_naming(links: Seq<serde_json::Value>, id: Seq<char>) -> nat
    decreases links.len(),
{
    if links.len() == 0 {
        0
    } else {
        links_naming(links.drop_last(), id) + if target_of(links.last()) == Some(id) {
            1nat
        } else {
            0nat
        }
    }
}

/// A node value with its in-degree and default score set, where it is an object.
pub open spec fn annotated(n: serde_json::Value, d: usize) -> serde_json::Value {
    if json_is_object_value(n) {
        json_with_member(
            json_with_member(n, "inDegree"@, json_usize(d)),
            "gitScore"@,
            json_usize(GIT_SCORE_DEFAULT as usize),
        )
    } else {
        n
    }
}

/// A search-index row as a JSON object.
pub open spec fn search_row_json(id: Seq<char>, label_lower: Seq<char>, path_lower: Seq<char>) -> serde_json::Value {
    json_from_members(
        seq![
            ("id"@, json_from_text(id)),
            ("labelLower"@, json_from_text(label_lower)),
            ("pathLower"@, json_from_text(path_lower)),
        ],
    )
}

/// The in-degree of each node of the parsed graph.
pub open spec fn output_degrees(g: serde_json::Value) -> Seq<usize> {
    let nodes = array_or_empty(g, "nodes"@);
    Seq::new(
        nodes.len(),
        |i: int| links_naming(array_or_empty(g, "links"@), text_or_empty(nodes[i], "id"@)) as usize,
    )
}

/// The `timestamp` member of the parsed graph, or the number 0.
pub open spec fn timestamp_or_zero(g: serde_json::Value) -> serde_json::Value {
    match json_member(g, "timestamp"@) {
        Some(t) => t,
        None => json_usize(0),
    }
}

/// The result for a parsed graph: the annotated nodes, the links as given,
/// the timestamp, the maximum in-degree and the search index.
pub open spec fn output_value(g: serde_json::Value) -> serde_json::Value {
    let nodes = array_or_empty(g, "nodes"@);
    let degrees = output_degrees(g);
    let out_nodes = Seq::new(nodes.len(), |i: int| annotated(nodes[i], degrees[i]));
    let rows = Seq::new(
        nodes.len(),
        |i: int|
            search_row_json(
                text_or_empty(nodes[i], "id"@),
                lower_of(text_or_empty(nodes[i], "label"@)),
                lower_of(text_or_empty(nodes[i], "id"@)),
            ),
    );
    json_from_members(
        seq![
            (
                "graph"@,
                json_from_members(
                    seq![
                        ("nodes"@, json_from_items(out_nodes)),
                        ("links"@, json_from_items(array_or_empty(g, "links"@))),
                        ("timestamp"@, timestamp_or_zero(g)),
                    ],
                ),
            ),
            ("maxInDegree"@, json_usize(seq_max(degrees) as usize)),
            ("searchIndex"@, json_from_items(rows)),
        ],
    )
}

/// The elements of the array member `key`; none where it is missing or no array.
fn array_member(v: &serde_json::Value, key: &str) -> (r: Vec<serde_json::Value>)
    ensures
        r@ == array_or_empty(*v, key@),
{
    let mut out: Vec<serde_json::Value> = Vec::new();
    if let Some(m) = json_get(v, key) {
        if let Some(items) = json_as_array(m) {
            let mut i: usize = 0;
            while i < items.len()
                invariant
                    i <= items@.len(),
                    out@ == items@.subrange(0, i as int),
                decreases items.len() - i,
            {
                out.push(items[i].clone());
                i = i + 1;
                assert(out@ =~= items@.subrange(0, i as int));
            }
            assert(items@.subrange(0, items@.len() as int) == items@);
        }
    }
    out
}

/// The text of the string member `key`; empty where it is missing or no string.
fn string_member(v: &serde_json::Value, key: &str) -> (r: String)
    ensures
        r@ == text_or_empty(*v, key@),
{
    match json_get(v, key) {
        Some(m) => match json_as_str(m) {
            Some(s) => String::from_str(s),
            None => String::new(),
        },
        None => String::new(),
    }
}

/// The id and label of a node value, each empty where absent or no string.
pub fn node_key(node: &serde_json::Value) -> (k: NodeKey)
    ensures
        k.id@ == text_or_empty(*node, "id"@),
        k.label@ == text_or_empty(*node, "label"@),
{
    NodeKey { id: string_member(node, "id"), label: string_member(node, "label") }
}

/// The shape of a link target from what its JSON value shows: its text where
/// it is a string; otherwise, where it is an object, the text of its `id`
/// member.
pub fn classify_target(text: Option<&str>, is_object: bool, id_text: Option<&str>) -> (t: LinkTarget)
    ensures
        match text {
            Some(s) => t matches LinkTarget::PlainId(p) && p@ == s@,
            None => match id_text {
                Some(s) if is_object => t matches LinkTarget::IdObject(p) && p@ == s@,
                _ => t matches LinkTarget::Other,
            },
        },
{
    match text {
        Some(s) => LinkTarget::PlainId(String::from_str(s)),
        None => if is_object {
            match id_text {
                Some(s) => LinkTarget::IdObject(String::from_str(s)),
                None => LinkTarget::Other,
            }
        } else {
            LinkTarget::Other
        },
    }
}

/// The shape of a link's `target` member.
pub fn link_target(link: &serde_json::Value) -> (t: LinkTarget)
    ensures
        target_shape(*link, t),
        resolved_id(t) == target_of(*link),
{
    match json_get(link, "target") {
        Some(t) => {
            let id_text = match json_get(t, "id") {
                Some(id) => json_as_str(id),
                None => None,
            };
            classify_target(json_as_str(t), json_is_object(t), id_text)
        },
        None => LinkTarget::Other,
    }
}

/// A copy of the node with its in-degree and default score set.
fn annotated_node(node: &serde_json::Value, in_degree: usize) -> (r: serde_json::Value)
    ensures
        r == annotated(*node, in_degree),
{
    let mut n = node.clone();
    json_set_member(&mut n, "inDegree", json_number(in_degree));
    json_set_member(&mut n, "gitScore", json_number(GIT_SCORE_DEFAULT as usize));
    n
}

/// A search-index row as a JSON object.
fn search_entry_json(e: &SearchEntry) -> (r: serde_json::Value)
    ensures
        r == search_row_json(e.id@, e.label_lower@, e.path_lower@),
{
    let mut members: Vec<(String, serde_json::Value)> = Vec::new();
    members.push((String::from_str("id"), json_string(e.id.clone())));
    members.push((String::from_str("labelLower"), json_string(e.label_lower.clone())));
    members.push((String::from_str("pathLower"), json_string(e.path_lower.clone())));
    let r = json_object(members);
    assert(members@.map_values(|p: (String, serde_json::Value)| (p.0@, p.1)) =~= seq![
        ("id"@, json_from_text(e.id@)),
        ("labelLower"@, json_from_text(e.label_lower@)),
        ("pathLower"@, json_from_text(e.path_lower@)),
    ]);
    r
}

/// The result value for a parsed graph, from its nodes, its links and their
/// computed metadata.
fn assemble(
    graph: &serde_json::Value,
    nodes: &Vec<serde_json::Value>,
    links: Vec<serde_json::Value>,
    meta: &GraphMeta,
) -> (r: serde_json::Value)
    requires
        nodes@ == array_or_empty(*graph, "nodes"@),
        links@ == array_or_empty(*graph, "links"@),
        meta.in_degrees@ == output_degrees(*graph),
        meta.search_index@.len() == nodes@.len(),
        forall|i: int|
            0 <= i < nodes@.len() ==> (#[trigger] meta.search_index@[i]).id@ == text_or_empty(nodes@[i], "id"@)
                && meta.search_index@[i].label_lower@ == lower_of(text_or_empty(nodes@[i], "label"@))
                && meta.search_index@[i].path_lower@ == lower_of(text_or_empty(nodes@[i], "id"@)),
        meta.max_in_degree == seq_max(meta.in_degrees@),
    ensures
        r == output_value(*graph),
{
    let ghost degrees = output_degrees(*graph);
    let mut out_nodes: Vec<serde_json::Value> = Vec::new();
    let mut i: usize = 0;
    while i < nodes.len()
        invariant
            i <= nodes@.len(),
            meta.in_degrees@ == degrees,
            degrees.len() == nodes@.len(),
            out_nodes@.len() == i,
            forall|k: int| 0 <= k < i ==> out_nodes@[k] == annotated(nodes@[k], degrees[k]),
        decreases nodes.len() - i,
    {
        out_nodes.push(annotated_node(&nodes[i], meta.in_degrees[i]));
        i = i + 1;
    }
    assert(out_nodes@ =~= Seq::new(nodes@.len(), |k: int| annotated(nodes@[k], degrees[k])));
    let mut index: Vec<serde_json::Value> = Vec::new();
    let mut k: usize = 0;
    while k < meta.search_index.len()
        invariant
            k <= meta.search_index@.len(),
            index@.len() == k,
            forall|j: int|
                0 <= j < k ==> index@[j] == search_row_json(
                    meta.search_index@[j].id@,
                    meta.search_index@[j].label_lower@,
                    meta.search_index@[j].path_lower@,
                ),
        decreases meta.search_index.len() - k,
    {
        index.push(search_entry_json(&meta.search_index[k]));
        k = k + 1;
    }
    assert(index@ =~= Seq::new(
        nodes@.len(),
        |j: int|
            search_row_json(
                text_or_empty(nodes@[j], "id"@),
                lower_of(text_or_empty(nodes@[j], "label"@)),
                lower_of(text_or_empty(nodes@[j], "id"@)),
            ),
    ));
    let timestamp = match json_get(graph, "timestamp") {
        Some(t) => t.clone(),
        None => json_number(0),
    };
    let mut graph_members: Vec<(String, serde_json::Value)> = Vec::new();
    graph_members.push((String::from_str("nodes"), json_array(out_nodes)));
    graph_members.push((String::from_str("links"), json_array(links)));
    graph_members.push((String::from_str("timestamp"), timestamp));
    let graph_value = json_object(graph_members);
    let mut members: Vec<(String, serde_json::Value)> = Vec::new();
    members.push((String::from_str("graph"), graph_value));
    members.push((String::from_str("maxInDegree"), json_number(meta.max_in_degree)));
    members.push((String::from_str("searchIndex"), json_array(index)));
    let r = json_object(members);
    assert(graph_members@.map_values(|p: (String, serde_json::Value)| (p.0@, p.1)) =~= seq![
        ("nodes"@, graph_members@[0].1),
        ("links"@, graph_members@[1].1),
        ("timestamp"@, timestamp_or_zero(*graph)),
    ]);
    assert(members@.map_values(|p: (String, serde_json::Value)| (p.0@, p.1)) =~= seq![
        ("graph"@, graph_value),
        ("maxInDegree"@, json_usize(seq_max(degrees) as usize)),
        ("searchIndex"@, members@[2].1),
    ]);
    r
}

proof fn lemma_degrees_agree(targets: Seq<LinkTarget>, links: Seq<serde_json::Value>, id: Seq<char>)
    requires
        targets.len() == links.len(),
        forall|k: int| 0 <= k < targets.len() ==> resolved_id(#[trigger] targets[k]) == target_of(links[k]),
    ensures
        in_degree_of(targets, id) == links_naming(links, id),
    decreases targets.len(),
{
    if targets.len() > 0 {
        let (t0, l0) = (targets.drop_last(), links.drop_last());
        assert forall|k: int| 0 <= k < t0.len() implies resolved_id(#[trigger] t0[k]) == target_of(l0[k]) by {
            assert(t0[k] == targets[k] && l0[k] == links[k]);
        }
        lemma_degrees_agree(t0, l0, id);
        assert(targets[targets.len() - 1] == targets.last());
    }
}

/// Reads a JSON graph, computes each node's in-degree, the maximum in-degree
/// and a case-folded search index, and returns them as JSON text. Fails with
/// `InvalidInput` exactly when the text is not JSON; otherwise succeeds with
/// the text of `output_value` of the parsed graph.
pub fn precompute_graph_meta(graph_json: String) -> (r: Result<String, GraphError>)
    ensures
        r is Ok <==> json_parses(graph_json@),
        (r matches Err(GraphError::InvalidInput(_))) <==> !json_parses(graph_json@),
        r matches Ok(s) ==> s@ == json_rendering(output_value(parsed_json(graph_json@)->0)),
{
    let graph = match parse_json(graph_json.as_str()) {
        Ok(v) => v,
        Err(e) => {
            return Err(GraphError::InvalidInput(error_text(&e)));
        },
    };
    let nodes = array_member(&graph, "nodes");
    let links = array_member(&graph, "links");
    let mut keys: Vec<NodeKey> = Vec::new();
    let mut i: usize = 0;
    while i < nodes.len()
        invariant
            i <= nodes@.len(),
            keys@.len() == i,
            forall|k: int|
                0 <= k < i ==> (#[trigger] keys@[k]).id@ == text_or_empty(nodes@[k], "id"@)
                    && keys@[k].label@ == text_or_empty(nodes@[k], "label"@),
        decreases nodes.len() - i,
    {
        keys.push(node_key(&nodes[i]));
        i = i + 1;
    }
    let mut targets: Vec<LinkTarget> = Vec::new();
    let mut j: usize = 0;
    while j < links.len()
        invariant
            j <= links@.len(),
            targets@.len() == j,
            forall|k: int| 0 <= k < j ==> resolved_id(#[trigger] targets@[k]) == target_of(links@[k]),
        decreases links.len() - j,
    {
        targets.push(link_target(&links[j]));
        j = j + 1;
    }
    let meta = compute_graph_meta(&keys, &targets);
    proof {
        assert forall|k: int| 0 <= k < nodes@.len() implies #[trigger] meta.in_degrees@[k] == output_degrees(graph)[k] by {
            assert(keys@[k].id@ == text_or_empty(nodes@[k], "id"@));
            lemma_degrees_agree(targets@, links@, keys@[k].id@);
        }
        assert(meta.in_degrees@ =~= output_degrees(graph));
        assert forall|k: int| 0 <= k < nodes@.len() implies (#[trigger] meta.search_index@[k]).id@ == text_or_empty(nodes@[k], "id"@)
            && meta.search_index@[k].label_lower@ == lower_of(text_or_empty(nodes@[k], "label"@))
            && meta.search_index@[k].path_lower@ == lower_of(text_or_empty(nodes@[k], "id"@)) by {
            assert(search_row_of(keys@[k], meta.search_index@[k]));
        }
    }
    let out = assemble(&graph, &nodes, links, &meta);
    match json_to_text(&out) {
        Ok(text) => Ok(text),
        Err(e) => Err(GraphError::SerializationFailure(error_text(&e))),
    }
}

} // verus!
