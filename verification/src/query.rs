//! The data loader: one parsed JSON document per catalog entry.
//!
//! Every cataloged file is loaded eagerly, whether or not the query
//! referenced its table; loading starts only after validation succeeded
//! and is all-or-nothing. Reading the files from disk is the caller's
//! concern; the library receives each file's text and parses it.

use vstd::prelude::*;

use crate::errors::CoreError;
use crate::json::{is_valid_json, parse_json};
use crate::tables::Catalog;
use serde_json::Value;

verus! {

/// The mapping from table identifier to its parsed JSON document, one
/// entry per catalog entry, in catalog order. The documents themselves are
/// opaque; the view is the sequence of identifiers.
pub struct DataMap {
    entries: Vec<(String, Value)>,
}

impl View for DataMap {
    type V = Seq<Seq<char>>;

    closed spec fn view(&self) -> Seq<Seq<char>> {
        self.entries@.map_values(|e: (String, Value)| e.0@)
    }
}

impl DataMap {
    /// How many documents are loaded.
    pub fn len(&self) -> (r: usize)
        ensures
            r == self@.len(),
    {
        self.entries.len()
    }

    /// The identifier of the entry at `i`.
    pub fn id_at(&self, i: usize) -> (r: &String)
        requires
            i < self@.len(),
        ensures
            r@ == self@[i as int],
    {
        &self.entries[i].0
    }

    /// The document of the entry at `i`.
    pub fn value_at(&self, i: usize) -> (r: &Value)
        requires
            i < self@.len(),
    {
        &self.entries[i].1
    }

    /// The document loaded for `id`, if any: the first entry with that
    /// identifier.
    pub fn get(&self, id: &String) -> (r: Option<&Value>)
        ensures
            r is Some <==> self@.contains(id@),
    {
        let n = self.entries.len();
        let mut i: usize = 0;
        while i < n
            invariant
                i <= n,
                n == self@.len(),
                forall|j: int| 0 <= j < i ==> #[trigger] self@[j] != id@,
            decreases n - i,
        {
            if self.entries[i].0 == *id {
                assert(self@[i as int] == id@);
                return Some(&self.entries[i].1);
            }
            i += 1;
        }
        None
    }
}

/// Parse the text of every cataloged file into the loaded data map, one
/// entry per catalog entry in catalog order; `contents[i]` is the text
/// read from the file of the catalog entry at `i`. Fails with
/// `JsonParseError`, naming the backing path, on the first entry whose
/// text is not valid JSON; succeeds exactly when every text is.
pub fn load_data(catalog: &Catalog, contents: &Vec<String>) -> (r: Result<DataMap, CoreError>)
    requires
        contents@.len() == catalog@.len(),
    ensures
        r is Ok <==> forall|i: int|
            0 <= i < contents@.len() ==> is_valid_json((#[trigger] contents@[i])@),
        r matches Ok(d) ==> d@ == catalog@.map_values(|e: (Seq<char>, Seq<char>)| e.0),
        r matches Err(e) ==> exists|k: int|
            {
                &&& 0 <= k < contents@.len()
                &&& !is_valid_json(contents@[k]@)
                &&& forall|j: int| 0 <= j < k ==> is_valid_json((#[trigger] contents@[j])@)
                &&& e matches CoreError::JsonParseError(p) && p@ == catalog@[k].1
            },
{
    let n = catalog.len();
    let mut entries: Vec<(String, Value)> = Vec::new();
    let mut i: usize = 0;
    while i < n
        invariant
            i <= n,
            n == catalog@.len(),
            n == contents@.len(),
            entries@.map_values(|e: (String, Value)| e.0@) == catalog@.map_values(
                |e: (Seq<char>, Seq<char>)| e.0,
            ).subrange(0, i as int),
            forall|j: int| 0 <= j < i ==> is_valid_json((#[trigger] contents@[j])@),
        decreases n - i,
    {
        let ghost prev = entries@.map_values(|e: (String, Value)| e.0@);
        match parse_json(contents[i].as_str()) {
            None => {
                return Err(CoreError::JsonParseError(catalog.path_at(i).clone()));
            },
            Some(v) => {
                entries.push((catalog.id_at(i).clone(), v));
                proof {
                    assert(entries@.map_values(|e: (String, Value)| e.0@) =~= prev.push(
                        catalog@[i as int].0,
                    ));
                    assert(catalog@.map_values(|e: (Seq<char>, Seq<char>)| e.0).subrange(
                        0,
                        i + 1,
                    ) =~= prev.push(catalog@[i as int].0));
                }
            },
        }
        i += 1;
    }
    proof {
        assert(catalog@.map_values(|e: (Seq<char>, Seq<char>)| e.0).subrange(0, n as int)
            =~= catalog@.map_values(|e: (Seq<char>, Seq<char>)| e.0));
    }
    Ok(DataMap { entries })
}

} // verus!
