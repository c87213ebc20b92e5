//! The result selector and emitter: one merged document, or one document
//! per referenced table.
//!
//! The mode is chosen once from the referenced table set and never
//! changes. An empty set means no specific tables were requested: every
//! loaded document is folded into one merged document. A non-empty set
//! means each referenced table's document is rendered on its own, in set
//! order; the caller writes the rendered documents to its stream one per
//! line. The pretty-print flag selects indented or compact JSON text in
//! both modes and never affects the mode choice.

use vstd::prelude::*;

use crate::errors::CoreError;
use crate::json::{empty_object, merge_into, to_json_compact, to_json_pretty};
use crate::query::DataMap;
use crate::tables::{has_key, idx_of_key, lemma_idx_of_key, TableSet};
use serde_json::Value;

verus! {

/// Selective emission cannot fail with `TableNotFound` once validation
/// succeeded: when every referenced identifier has a catalog entry (what
/// the consistency validator establishes) and the data map holds one
/// document per catalog entry in catalog order (what the loader
/// establishes), every referenced identifier has a loaded document. The
/// emitter's own `TableNotFound` check is defensive only.
pub proof fn lemma_validated_tables_are_loaded(
    catalog: Seq<(Seq<char>, Seq<char>)>,
    tables: Seq<Seq<char>>,
    data_ids: Seq<Seq<char>>,
)
    requires
        forall|j: int| 0 <= j < tables.len() ==> has_key(catalog, #[trigger] tables[j]),
        data_ids == catalog.map_values(|e: (Seq<char>, Seq<char>)| e.0),
    ensures
        forall|j: int| 0 <= j < tables.len() ==> data_ids.contains(#[trigger] tables[j]),
{
    assert forall|j: int| 0 <= j < tables.len() implies data_ids.contains(
        #[trigger] tables[j],
    ) by {
        lemma_idx_of_key(catalog, tables[j]);
        let i = idx_of_key(catalog, tables[j]);
        assert(data_ids[i] == tables[j]);
    }
}

/// Render one document as JSON text, indented or compact as the flag
/// says; rendering a document never fails.
fn render_value(v: &Value, pretty: bool) -> (r: Option<String>)
    ensures
        r is Some,
{
    if pretty {
        to_json_pretty(v)
    } else {
        to_json_compact(v)
    }
}

/// Produce the run's output documents, in order, one string per emitted
/// JSON document.
///
/// With an empty referenced table set (merge mode) every loaded document
/// is folded into a single accumulator in load order and exactly one
/// document is produced. With a non-empty set (selective mode) each
/// referenced identifier's document is rendered on its own, in set order,
/// and one document per referenced table is produced; an identifier with
/// no loaded document fails with `TableNotFound` — unreachable when
/// validation ran first, but handled rather than trusted. Rendering
/// itself never fails; a broken output stream is the caller's concern.
pub fn render_output(data: &DataMap, tables: &TableSet, pretty: bool) -> (r: Result<
    Vec<String>,
    CoreError,
>)
    ensures
        r matches Ok(docs) ==> {
            &&& tables@.len() == 0 ==> docs@.len() == 1
            &&& tables@.len() > 0 ==> docs@.len() == tables@.len()
        },
        tables@.len() == 0 ==> r is Ok,
        tables@.len() > 0 ==> (r is Ok <==> forall|j: int|
            0 <= j < tables@.len() ==> data@.contains(#[trigger] tables@[j])),
        r matches Err(e) ==> e is TableNotFound,
        r matches Err(CoreError::TableNotFound(id)) ==> exists|k: int|
            {
                &&& 0 <= k < tables@.len()
                &&& id@ == tables@[k]
                &&& !data@.contains(tables@[k])
                &&& forall|j: int| 0 <= j < k ==> data@.contains(#[trigger] tables@[j])
            },
{
    if tables.is_empty() {
        let mut acc = empty_object();
        let n = data.len();
        let mut i: usize = 0;
        while i < n
            invariant
                i <= n,
                n == data@.len(),
            decreases n - i,
        {
            merge_into(&mut acc, data.value_at(i));
            i += 1;
        }
        let doc = render_value(&acc, pretty).unwrap();
        let mut docs: Vec<String> = Vec::new();
        docs.push(doc);
        Ok(docs)
    } else {
        let n = tables.len();
        let mut docs: Vec<String> = Vec::new();
        let mut i: usize = 0;
        while i < n
            invariant
                i <= n,
                n == tables@.len(),
                docs@.len() == i,
                forall|j: int| 0 <= j < i ==> data@.contains(#[trigger] tables@[j]),
            decreases n - i,
        {
            let id = tables.id_at(i);
            match data.get(id) {
                None => {
                    return Err(CoreError::TableNotFound(id.clone()));
                },
                Some(v) => {
                    docs.push(render_value(v, pretty).unwrap());
                },
            }
            i += 1;
        }
        Ok(docs)
    }
}

} // verus!
