//! The table catalog and the referenced table set.
//!
//! The catalog maps each canonical table identifier to the file path that
//! backs it, built once per run from the input file list. The referenced
//! table set holds the identifiers a SELECT statement's FROM clause names.
//! The consistency validator cross-checks the two and fails fast on the
//! first unresolved reference.

use vstd::prelude::*;

use crate::errors::CoreError;
use crate::names::{normalized, sql_table_name};
use crate::sql::relation_names;
use sqlparser::ast::Select;
use vstd::string::StrSliceExecFns;

verus! {

/// The views of a sequence of strings.
pub open spec fn seq_views(v: Seq<String>) -> Seq<Seq<char>> {
    v.map_values(|s: String| s@)
}

// ------------------------------------------------------------------
// The file-stem rule
// ------------------------------------------------------------------
/// Index of the last path separator in `p`, or -1 if there is none.
pub open spec fn last_sep(p: Seq<char>) -> int
    decreases p.len(),
{
    if p.len() == 0 {
        -1
    } else if p.last() == '/' {
        p.len() - 1
    } else {
        last_sep(p.drop_last())
    }
}

/// Index of the last dot of `f` that does not stand first, or -1 if there
/// is none: a name that is all extension (a leading dot) keeps that dot.
pub open spec fn last_dot(f: Seq<char>) -> int
    decreases f.len(),
{
    if f.len() <= 1 {
        -1
    } else if f.last() == '.' {
        f.len() - 1
    } else {
        last_dot(f.drop_last())
    }
}

/// The final component of a path: everything after the last separator.
pub open spec fn file_name_of(p: Seq<char>) -> Seq<char> {
    if last_sep(p) < 0 {
        p
    } else {
        p.subrange(last_sep(p) + 1, p.len() as int)
    }
}

/// The current-directory or parent-directory component, which names no
/// file.
pub open spec fn is_dot_name(f: Seq<char>) -> bool {
    f == seq!['.'] || f == seq!['.', '.']
}

/// The stem of a path: its file name with the extension (everything from
/// the last non-leading dot on) stripped. `None` when the path has no file
/// name at all — an empty path, one ending in a separator, or one whose
/// final component is `.` or `..`.
pub open spec fn stem_of(p: Seq<char>) -> Option<Seq<char>> {
    let f = file_name_of(p);
    if f.len() == 0 || is_dot_name(f) {
        None
    } else if last_dot(f) < 0 {
        Some(f)
    } else {
        Some(f.subrange(0, last_dot(f)))
    }
}

/// The last-separator index is a valid index or -1.
pub proof fn lemma_last_sep_bounds(p: Seq<char>)
    ensures
        -1 <= last_sep(p) < p.len(),
    decreases p.len(),
{
    if p.len() == 0 {
    } else if p.last() == '/' {
    } else {
        lemma_last_sep_bounds(p.drop_last());
    }
}

/// The last-dot index is a valid index or -1.
pub proof fn lemma_last_dot_bounds(f: Seq<char>)
    ensures
        -1 <= last_dot(f) < f.len(),
    decreases f.len(),
{
    if f.len() <= 1 {
    } else if f.last() == '.' {
    } else {
        lemma_last_dot_bounds(f.drop_last());
    }
}

/// Index after the last separator of `path`, or 0 if there is none; where
/// its file name starts.
fn find_name_start(path: &str) -> (r: usize)
    ensures
        r == last_sep(path@) + 1,
{
    let n: usize = path.unicode_len();
    let mut i: usize = n;
    proof {
        assert(path@.subrange(0, n as int) =~= path@);
    }
    while i > 0
        invariant
            i <= n,
            n == path@.len(),
            last_sep(path@) == last_sep(path@.subrange(0, i as int)),
        decreases i,
    {
        let c = path.get_char(i - 1);
        proof {
            assert(path@.subrange(0, i as int).last() == c);
            assert(path@.subrange(0, i as int).drop_last() =~= path@.subrange(0, i - 1));
        }
        if c == '/' {
            return i;
        }
        i -= 1;
    }
    proof {
        assert(path@.subrange(0, 0) =~= Seq::<char>::empty());
    }
    0
}

/// Index of the last non-leading dot of `name`, if any.
fn find_last_dot(name: &str) -> (r: Option<usize>)
    ensures
        r is Some <==> last_dot(name@) >= 0,
        r matches Some(k) ==> k == last_dot(name@),
{
    let n: usize = name.unicode_len();
    let mut i: usize = n;
    proof {
        assert(name@.subrange(0, n as int) =~= name@);
    }
    while i > 1
        invariant
            i <= n,
            n == name@.len(),
            last_dot(name@) == last_dot(name@.subrange(0, i as int)),
        decreases i,
    {
        let c = name.get_char(i - 1);
        proof {
            assert(name@.subrange(0, i as int).last() == c);
            assert(name@.subrange(0, i as int).drop_last() =~= name@.subrange(0, i - 1));
        }
        if c == '.' {
            return Some(i - 1);
        }
        i -= 1;
    }
    None
}

/// Whether the name is the `.` or `..` directory component.
fn name_is_dot_component(name: &str) -> (r: bool)
    ensures
        r == is_dot_name(name@),
{
    proof {
        assert(seq!['.'].len() == 1);
        assert(seq!['.', '.'].len() == 2);
    }
    let m: usize = name.unicode_len();
    if m == 1 {
        let d = name.get_char(0) == '.';
        proof {
            if d {
                assert(name@ =~= seq!['.']);
            } else {
                assert(seq!['.'][0] == '.');
            }
        }
        d
    } else if m == 2 {
        let d0 = name.get_char(0) == '.';
        let d1 = name.get_char(1) == '.';
        proof {
            if d0 && d1 {
                assert(name@ =~= seq!['.', '.']);
            } else {
                assert(seq!['.', '.'][0] == '.' && seq!['.', '.'][1] == '.');
            }
        }
        d0 && d1
    } else {
        false
    }
}

/// The stem of a path, as the file-stem rule defines it: the file name
/// (after the last separator) with the extension stripped, or `None` when
/// there is no file name — none at all, or a bare `.` or `..`.
pub fn file_stem(path: &str) -> (r: Option<String>)
    ensures
        r is Some <==> stem_of(path@) is Some,
        r matches Some(s) ==> Some(s@) == stem_of(path@),
{
    let n: usize = path.unicode_len();
    proof {
        lemma_last_sep_bounds(path@);
    }
    let start: usize = find_name_start(path);
    if start == n {
        proof {
            assert(file_name_of(path@) =~= path@.subrange(n as int, n as int));
            assert(file_name_of(path@).len() == 0);
        }
        return None;
    }
    let name = path.substring_char(start, n);
    proof {
        if last_sep(path@) < 0 {
            assert(name@ =~= file_name_of(path@));
        } else {
            assert(name@ =~= file_name_of(path@));
        }
    }
    if name_is_dot_component(name) {
        return None;
    }
    proof {
        lemma_last_dot_bounds(name@);
    }
    match find_last_dot(name) {
        Some(k) => Some(name.substring_char(0, k).to_owned()),
        None => Some(name.to_owned()),
    }
}

// ------------------------------------------------------------------
// The table catalog
// ------------------------------------------------------------------
/// Index of the entry with key `k` in an association list, or -1 if there
/// is none; with unique keys, the index of the first occurrence.
pub open spec fn idx_of_key(s: Seq<(Seq<char>, Seq<char>)>, k: Seq<char>) -> int
    decreases s.len(),
{
    if s.len() == 0 {
        -1
    } else if s[0].0 == k {
        0
    } else if idx_of_key(s.drop_first(), k) < 0 {
        -1
    } else {
        idx_of_key(s.drop_first(), k) + 1
    }
}

/// Whether an association list holds an entry with key `k`.
pub open spec fn has_key(s: Seq<(Seq<char>, Seq<char>)>, k: Seq<char>) -> bool {
    idx_of_key(s, k) >= 0
}

/// What `idx_of_key` finds: a valid index of an entry with the key, first
/// among them; or -1 exactly when no entry has the key.
pub proof fn lemma_idx_of_key(s: Seq<(Seq<char>, Seq<char>)>, k: Seq<char>)
    ensures
        -1 <= idx_of_key(s, k) < s.len(),
        idx_of_key(s, k) >= 0 ==> s[idx_of_key(s, k)].0 == k,
        idx_of_key(s, k) < 0 ==> forall|j: int| 0 <= j < s.len() ==> (#[trigger] s[j]).0 != k,
        forall|j: int| 0 <= j < idx_of_key(s, k) ==> (#[trigger] s[j]).0 != k,
    decreases s.len(),
{
    if s.len() == 0 {
    } else if s[0].0 == k {
    } else {
        lemma_idx_of_key(s.drop_first(), k);
        assert(forall|j: int| 1 <= j < s.len() ==> #[trigger] s[j] == s.drop_first()[j - 1]);
    }
}

/// An entry with the key before which no other entry has it is the one
/// `idx_of_key` finds.
pub proof fn lemma_idx_of_key_found(s: Seq<(Seq<char>, Seq<char>)>, k: Seq<char>, i: int)
    requires
        0 <= i < s.len(),
        s[i].0 == k,
        forall|j: int| 0 <= j < i ==> (#[trigger] s[j]).0 != k,
    ensures
        idx_of_key(s, k) == i,
    decreases s.len(),
{
    if i == 0 {
    } else {
        assert(s[0].0 != k);
        assert(s.drop_first()[i - 1] == s[i]);
        assert(forall|j: int| 0 <= j < i - 1 ==> #[trigger] s.drop_first()[j] == s[j + 1]);
        lemma_idx_of_key_found(s.drop_first(), k, i - 1);
    }
}

/// Keys are unique: no two entries share an identifier.
pub open spec fn catalog_wf(s: Seq<(Seq<char>, Seq<char>)>) -> bool {
    forall|i: int, j: int| 0 <= i < j < s.len() ==> (#[trigger] s[i]).0 != (#[trigger] s[j]).0
}

/// Insert a key-value pair into an association list: an existing entry with
/// the key is replaced in place (the value of the later write wins), a new
/// key goes to the end.
pub open spec fn upsert(s: Seq<(Seq<char>, Seq<char>)>, k: Seq<char>, v: Seq<char>) -> Seq<
    (Seq<char>, Seq<char>),
> {
    if has_key(s, k) {
        s.update(idx_of_key(s, k), (k, v))
    } else {
        s.push((k, v))
    }
}

/// The catalog that a list of paths builds, provided every path has a
/// stem: each path is keyed by the normalized stem, and a later path with
/// the same identifier overwrites the value of an earlier one.
pub open spec fn spec_catalog(paths: Seq<Seq<char>>) -> Seq<(Seq<char>, Seq<char>)>
    decreases paths.len(),
{
    if paths.len() == 0 {
        Seq::empty()
    } else {
        upsert(
            spec_catalog(paths.drop_last()),
            normalized(stem_of(paths.last()).unwrap()),
            paths.last(),
        )
    }
}

/// First index of a path with no stem, or -1 if every path has one.
pub open spec fn first_invalid(paths: Seq<Seq<char>>) -> int
    decreases paths.len(),
{
    if paths.len() == 0 {
        -1
    } else if stem_of(paths[0]) is None {
        0
    } else if first_invalid(paths.drop_first()) < 0 {
        -1
    } else {
        first_invalid(paths.drop_first()) + 1
    }
}

/// The run-scoped mapping from canonical table identifier to the path of
/// the file that backs it. Entries stand in first-insertion order and keys
/// are unique.
pub struct Catalog {
    entries: Vec<(String, String)>,
}

impl View for Catalog {
    type V = Seq<(Seq<char>, Seq<char>)>;

    closed spec fn view(&self) -> Seq<(Seq<char>, Seq<char>)> {
        self.entries@.map_values(|e: (String, String)| (e.0@, e.1@))
    }
}

impl Catalog {
    /// Keys are unique.
    pub open spec fn wf(&self) -> bool {
        catalog_wf(self@)
    }

    /// An empty catalog.
    pub fn new() -> (r: Catalog)
        ensures
            r@ =~= Seq::<(Seq<char>, Seq<char>)>::empty(),
    {
        Catalog { entries: Vec::new() }
    }

    /// How many tables the catalog holds.
    pub fn len(&self) -> (r: usize)
        ensures
            r == self@.len(),
    {
        self.entries.len()
    }

    /// The identifier of the entry at `i`.
    pub fn id_at(&self, i: usize) -> (r: &String)
        requires
            i < self@.len(),
        ensures
            r@ == self@[i as int].0,
    {
        &self.entries[i].0
    }

    /// The backing path of the entry at `i`.
    pub fn path_at(&self, i: usize) -> (r: &String)
        requires
            i < self@.len(),
        ensures
            r@ == self@[i as int].1,
    {
        &self.entries[i].1
    }

    /// Whether an identifier has a backing file.
    pub fn contains_id(&self, id: &String) -> (r: bool)
        ensures
            r == has_key(self@, id@),
    {
        let n = self.entries.len();
        let mut i: usize = 0;
        while i < n
            invariant
                i <= n,
                n == self@.len(),
                forall|j: int| 0 <= j < i ==> (#[trigger] self@[j]).0 != id@,
            decreases n - i,
        {
            if self.entries[i].0 == *id {
                proof {
                    lemma_idx_of_key_found(self@, id@, i as int);
                }
                return true;
            }
            i += 1;
        }
        proof {
            lemma_idx_of_key(self@, id@);
        }
        false
    }

    /// Insert an identifier with its backing path: a repeated identifier
    /// keeps its place but takes the new path (the later write wins).
    fn insert_entry(&mut self, id: String, path: String)
        requires
            old(self).wf(),
        ensures
            final(self)@ == upsert(old(self)@, id@, path@),
            final(self).wf(),
    {
        let n = self.entries.len();
        let mut i: usize = 0;
        while i < n
            invariant
                i <= n,
                n == self@.len(),
                *self == *old(self),
                old(self).wf(),
                forall|j: int| 0 <= j < i ==> (#[trigger] self@[j]).0 != id@,
            decreases n - i,
        {
            if self.entries[i].0 == *(&id) {
                proof {
                    lemma_idx_of_key_found(self@, id@, i as int);
                }
                let ghost prev = self@;
                self.entries.remove(i);
                self.entries.insert(i, (id, path));
                proof {
                    assert(self@ =~= prev.update(i as int, (prev[i as int].0, path@)));
                    assert(self@ =~= upsert(old(self)@, id@, path@));
                    assert(prev == old(self)@);
                    assert(catalog_wf(prev));
                    assert forall|a: int, b: int| 0 <= a < b < self@.len() implies (
                    #[trigger] self@[a]).0 != (#[trigger] self@[b]).0 by {
                        assert(self@[a].0 == prev[a].0);
                        assert(self@[b].0 == prev[b].0);
                        assert(prev[a].0 != prev[b].0);
                    }
                }
                return ;
            }
            i += 1;
        }
        proof {
            lemma_idx_of_key(self@, id@);
        }
        let ghost prev = self@;
        self.entries.push((id, path));
        proof {
            assert(self@ =~= prev.push((id@, path@)));
        }
    }
}

/// Build the table catalog from the input file paths: each path's stem,
/// normalized, becomes a table identifier backed by that path. A path with
/// no stem fails with `InvalidTableName`; when two paths normalize to the
/// same identifier, the later one silently takes the entry (the later
/// write wins, a deliberate preservation of the original behavior). No
/// file content is read here. An empty file list yields an empty catalog.
pub fn tables_from_files(files: &Vec<String>) -> (r: Result<Catalog, CoreError>)
    ensures
        r is Ok <==> forall|i: int|
            0 <= i < files@.len() ==> stem_of((#[trigger] files@[i])@) is Some,
        r matches Ok(c) ==> c@ == spec_catalog(seq_views(files@)) && c.wf(),
        r matches Err(e) ==> {
            let k = first_invalid(seq_views(files@));
            &&& 0 <= k < files@.len()
            &&& stem_of(files@[k]@) is None
            &&& forall|j: int| 0 <= j < k ==> stem_of((#[trigger] files@[j])@) is Some
            &&& e matches CoreError::InvalidTableName(f) && f@ == files@[k]@
        },
{
    let ghost paths = seq_views(files@);
    let n = files.len();
    let mut catalog = Catalog::new();
    let mut i: usize = 0;
    while i < n
        invariant
            i <= n,
            n == files@.len(),
            catalog@ == spec_catalog(paths.subrange(0, i as int)),
            catalog.wf(),
            paths == seq_views(files@),
            forall|j: int| 0 <= j < i ==> stem_of(#[trigger] paths[j]) is Some,
        decreases n - i,
    {
        let path: &String = &files[i];
        proof {
            assert(paths[i as int] == path@);
        }
        match file_stem(path.as_str()) {
            None => {
                proof {
                    lemma_first_invalid_found(paths, i as int);
                    assert(stem_of(files@[i as int]@) is None);
                    assert forall|j: int| 0 <= j < i implies stem_of(
                        (#[trigger] files@[j])@,
                    ) is Some by {
                        assert(paths[j] == files@[j]@);
                    }
                }
                return Err(CoreError::InvalidTableName(path.clone()));
            },
            Some(stem) => {
                let id = sql_table_name(stem.as_str());
                catalog.insert_entry(id, path.clone());
                proof {
                    assert(paths.subrange(0, i + 1).drop_last() =~= paths.subrange(0, i as int));
                    assert(paths.subrange(0, i + 1).last() == paths[i as int]);
                }
            },
        }
        i += 1;
    }
    proof {
        assert(paths.subrange(0, n as int) =~= paths);
        assert forall|k: int| 0 <= k < files@.len() implies stem_of(
            (#[trigger] files@[k])@,
        ) is Some by {
            assert(paths[k] == files@[k]@);
        }
    }
    Ok(catalog)
}

/// A path without a stem before which every path has one is the one
/// `first_invalid` finds.
pub proof fn lemma_first_invalid_found(paths: Seq<Seq<char>>, i: int)
    requires
        0 <= i < paths.len(),
        stem_of(paths[i]) is None,
        forall|j: int| 0 <= j < i ==> stem_of(#[trigger] paths[j]) is Some,
    ensures
        first_invalid(paths) == i,
    decreases paths.len(),
{
    if i == 0 {
    } else {
        assert(stem_of(paths[0]) is Some);
        assert(paths.drop_first()[i - 1] == paths[i]);
        assert(forall|j: int| 0 <= j < i - 1 ==> #[trigger] paths.drop_first()[j] == paths[j + 1]);
        lemma_first_invalid_found(paths.drop_first(), i - 1);
    }
}

// ------------------------------------------------------------------
// The referenced table set
// ------------------------------------------------------------------
/// The set of identifiers that the raw FROM-clause table names yield:
/// each name normalized, duplicates collapsed, first occurrence first.
pub open spec fn spec_tables(raw: Seq<Seq<char>>) -> Seq<Seq<char>>
    decreases raw.len(),
{
    if raw.len() == 0 {
        Seq::empty()
    } else {
        let prev = spec_tables(raw.drop_last());
        let id = normalized(raw.last());
        if prev.contains(id) {
            prev
        } else {
            prev.push(id)
        }
    }
}

/// The set of table identifiers a SELECT statement's FROM clause names, in
/// first-occurrence order and without duplicates. Empty when the FROM
/// clause is empty, which signals that no specific tables were requested.
pub struct TableSet {
    ids: Vec<String>,
}

impl View for TableSet {
    type V = Seq<Seq<char>>;

    closed spec fn view(&self) -> Seq<Seq<char>> {
        self.ids@.map_values(|s: String| s@)
    }
}

impl TableSet {
    /// No identifier occurs twice.
    pub open spec fn wf(&self) -> bool {
        forall|i: int, j: int| 0 <= i < j < self@.len() ==> self@[i] != self@[j]
    }

    /// How many tables are referenced.
    pub fn len(&self) -> (r: usize)
        ensures
            r == self@.len(),
    {
        self.ids.len()
    }

    /// Whether no table is referenced.
    pub fn is_empty(&self) -> (r: bool)
        ensures
            r == (self@.len() == 0),
    {
        self.ids.len() == 0
    }

    /// The identifier at `i`.
    pub fn id_at(&self, i: usize) -> (r: &String)
        requires
            i < self@.len(),
        ensures
            r@ == self@[i as int],
    {
        &self.ids[i]
    }

    /// Whether the set holds `id`.
    pub fn contains(&self, id: &String) -> (r: bool)
        ensures
            r == self@.contains(id@),
    {
        let n = self.ids.len();
        let mut i: usize = 0;
        while i < n
            invariant
                i <= n,
                n == self@.len(),
                forall|j: int| 0 <= j < i ==> #[trigger] self@[j] != id@,
            decreases n - i,
        {
            if self.ids[i] == *id {
                assert(self@[i as int] == id@);
                return true;
            }
            i += 1;
        }
        false
    }
}

/// Collapse the raw FROM-clause table names into the referenced table set.
/// A `None` stands for a FROM item that is not a bare table reference and
/// fails with `UnsupportedRelation`; otherwise every name is normalized
/// and inserted, duplicates collapsing by set semantics.
pub fn tables_from_relations(raw: &Vec<Option<String>>) -> (r: Result<TableSet, CoreError>)
    ensures
        r is Ok <==> forall|i: int| 0 <= i < raw@.len() ==> (#[trigger] raw@[i]) is Some,
        r matches Ok(t) ==> t@ == spec_tables(
            raw@.map_values(|o: Option<String>| o.unwrap()@),
        ) && t.wf(),
        r matches Err(e) ==> e is UnsupportedRelation && exists|i: int|
            0 <= i < raw@.len() && (#[trigger] raw@[i]) is None,
{
    let ghost names = raw@.map_values(|o: Option<String>| o.unwrap()@);
    let n = raw.len();
    let mut ts = TableSet { ids: Vec::new() };
    let mut i: usize = 0;
    while i < n
        invariant
            i <= n,
            n == raw@.len(),
            names == raw@.map_values(|o: Option<String>| o.unwrap()@),
            ts@ == spec_tables(names.subrange(0, i as int)),
            ts.wf(),
            forall|j: int| 0 <= j < i ==> (#[trigger] raw@[j]) is Some,
        decreases n - i,
    {
        let ghost prefix = names.subrange(0, i as int);
        match &raw[i] {
            None => {
                assert(raw@[i as int] is None);
                return Err(CoreError::UnsupportedRelation);
            },
            Some(name) => {
                let id = sql_table_name(name.as_str());
                proof {
                    assert(names[i as int] == raw@[i as int].unwrap()@);
                    assert(names.subrange(0, i + 1).drop_last() =~= prefix);
                    assert(names.subrange(0, i + 1).last() == names[i as int]);
                }
                if !ts.contains(&id) {
                    let ghost prev = ts@;
                    ts.ids.push(id);
                    proof {
                        assert(ts@ =~= prev.push(normalized(names[i as int])));
                    }
                }
            },
        }
        i += 1;
    }
    proof {
        assert(names.subrange(0, n as int) =~= names);
    }
    Ok(ts)
}

/// Extract the referenced table set from a parsed SELECT statement. The
/// FROM items come from the statement through the SQL collaborator; an
/// item that is not a bare table reference fails with
/// `UnsupportedRelation`. An empty FROM clause yields the empty set.
pub fn tables_from_select(select: &Select) -> (r: Result<TableSet, CoreError>)
    ensures
        r matches Ok(t) ==> t.wf(),
        r matches Err(e) ==> e is UnsupportedRelation,
{
    let raw = relation_names(select);
    tables_from_relations(&raw)
}

// ------------------------------------------------------------------
// The consistency validator
// ------------------------------------------------------------------
/// Check that every referenced table identifier has a backing file in the
/// catalog, in the set's order; fail fast with `TableNotFound` naming the
/// first unresolved identifier. All-or-nothing: success means every
/// referenced table resolved, and no file content has been touched yet.
pub fn verify_files_and_tables_match(catalog: &Catalog, tables: &TableSet) -> (r: Result<
    (),
    CoreError,
>)
    ensures
        r is Ok <==> forall|j: int| 0 <= j < tables@.len() ==> has_key(catalog@, #[trigger] tables@[j]),
        r matches Err(e) ==> exists|k: int|
            {
                &&& 0 <= k < tables@.len()
                &&& !has_key(catalog@, #[trigger] tables@[k])
                &&& forall|j: int| 0 <= j < k ==> has_key(catalog@, #[trigger] tables@[j])
                &&& e matches CoreError::TableNotFound(id) && id@ == tables@[k]
            },
{
    let n = tables.len();
    let mut i: usize = 0;
    while i < n
        invariant
            i <= n,
            n == tables@.len(),
            forall|j: int| 0 <= j < i ==> has_key(catalog@, #[trigger] tables@[j]),
        decreases n - i,
    {
        let id = tables.id_at(i);
        if !catalog.contains_id(id) {
            assert(!has_key(catalog@, tables@[i as int]));
            return Err(CoreError::TableNotFound(id.clone()));
        }
        i += 1;
    }
    Ok(())
}

} // verus!
