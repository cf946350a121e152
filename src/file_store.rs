//! Records kept on disk: one JSON file per record, or one JSON object for all.
//!
//! The functions here decide what a file-backed operation reads, returns and
//! writes; the caller performs the reads and writes they name.
use vstd::prelude::*;

use serde_json::Value;

use crate::config::Config;
use crate::error::{ErrorKind, StoreError};
use crate::json::{
    compact_of, compact_text, indented_of, indented_text, into_object, is_json, is_json_object, members,
    empty_document, new_object, object_get, object_in, object_insert, object_members_of, object_of, object_remove, object_value,
    parse_value, value_of,
};
use crate::memory_store::lists;
use crate::order::lex_lt;
use crate::paths::{file_stem, join_path, joined, json_path, stem_of, with_json_extension};
use crate::table::Table;

verus! {

/// What remains to be done on disk once an operation has decided.
pub enum Effect {
    /// Nothing.
    Done,
    /// Replace the file at `path` by `content`, atomically.
    Write { path: String, content: String },
    /// Remove the file at `path`; where there is none, the operation fails with `NotFound`.
    Remove { path: String },
}

impl Effect {
    /// The effect replaces the file at `p` by `c`.
    pub open spec fn writes(self, p: Seq<char>, c: Seq<char>) -> bool {
        match self {
            Effect::Write { path, content } => path@ == p && content@ == c,
            _ => false,
        }
    }

    /// The effect removes the file at `p`.
    pub open spec fn removes(self, p: Seq<char>) -> bool {
        match self {
            Effect::Remove { path } => path@ == p,
            _ => false,
        }
    }
}

/// What opening a file-backed store prepares on disk.
pub enum Setup {
    /// Create the directory `path` and its parents, where missing.
    Directory { path: String },
    /// Where no file is at `path`, write `content` there, atomically.
    Document { path: String, content: String },
}

impl Setup {
    pub open spec fn creates_directory(self, p: Seq<char>) -> bool {
        match self {
            Setup::Directory { path } => path@ == p,
            _ => false,
        }
    }

    pub open spec fn initializes(self, p: Seq<char>, c: Seq<char>) -> bool {
        match self {
            Setup::Document { path, content } => path@ == p && content@ == c,
            _ => false,
        }
    }
}

/// `n` spaces, as bytes.
pub open spec fn spaces(n: nat) -> Seq<u8> {
    Seq::new(n, |j: int| 32u8)
}

/// The text a store configured by `cfg` writes for the value `v`.
pub open spec fn encoded(cfg: Config, v: Value) -> Seq<char> {
    if cfg.pretty {
        indented_of(v, spaces(cfg.indent as nat))
    } else {
        compact_of(v)
    }
}

/// The text a store configured by `cfg` writes to a record's own file: the record
/// as it came, or indented when `pretty` is set.
pub open spec fn record_text(cfg: Config, record: Seq<char>) -> Seq<char> {
    if cfg.pretty {
        indented_of(value_of(record), spaces(cfg.indent as nat))
    } else {
        record
    }
}

/// The members of a document, each as compact JSON text.
pub open spec fn compacted(m: Map<Seq<char>, Value>) -> Map<Seq<char>, Seq<char>> {
    m.map_values(|v: Value| compact_of(v))
}

/// The text reads back as the object with members `m`.
pub open spec fn holds_document(text: Seq<char>, m: Map<Seq<char>, Value>) -> bool {
    object_in(text) == Some(m)
}

/// How reading a document fails: malformed text is `Other`, JSON that is not an object `InvalidData`.
pub open spec fn document_error(text: Seq<char>) -> ErrorKind {
    if is_json(text) {
        ErrorKind::InvalidData
    } else {
        ErrorKind::Other
    }
}

/// The records with JSON content among `records`, a later one replacing an earlier one of the same identifier.
pub open spec fn json_records(records: Seq<(String, String)>) -> Map<Seq<char>, Seq<char>>
    decreases records.len(),
{
    if records.len() == 0 {
        Map::empty()
    } else {
        let rest = json_records(records.drop_last());
        let last = records.last();
        if is_json(last.1@) {
            rest.insert(last.0@, last.1@)
        } else {
            rest
        }
    }
}

/// The identifiers that the file names stand for.
pub open spec fn stems(names: Seq<String>) -> Set<Seq<char>> {
    Set::new(|k: Seq<char>| exists|i: int| 0 <= i < names.len() && stem_of(names[i]@) == Some(k))
}

pub struct FileStore {
    path: String,
    cfg: Config,
}

impl FileStore {
    /// The directory, or in single-file mode the file, that holds the records.
    pub closed spec fn root(&self) -> Seq<char> {
        self.path@
    }

    pub closed spec fn config(&self) -> Config {
        self.cfg
    }

    /// The file that holds the record `id`.
    pub open spec fn record_path(&self, id: Seq<char>) -> Seq<char> {
        if self.config().single {
            self.root()
        } else {
            joined(self.root(), id + ".json"@)
        }
    }

    /// What saving `record` under `id` gives, where `current` is the aggregate's
    /// content in single-file mode.
    pub open spec fn save_result(&self, record: Seq<char>, id: Seq<char>, current: Seq<char>, r: Result<Effect, StoreError>) -> bool {
        if self.config().single {
            &&& (r is Ok <==> is_json_object(current) && is_json(record))
            &&& r is Ok ==> r->Ok_0.writes(
                self.record_path(id),
                encoded(self.config(), object_of(object_in(current)->0.insert(id, value_of(record)))),
            )
            &&& r is Err ==> r->Err_0.kind == if is_json_object(current) {
                ErrorKind::InvalidData
            } else {
                document_error(current)
            }
        } else {
            &&& (r is Ok <==> is_json(record))
            &&& r is Ok ==> r->Ok_0.writes(self.record_path(id), record_text(self.config(), record))
            &&& r is Err ==> r->Err_0.kind == ErrorKind::InvalidData
        }
    }

    /// What reading `id` gives, where `current` is the content of the file that holds it.
    pub open spec fn get_result(&self, id: Seq<char>, current: Seq<char>, r: Result<String, StoreError>) -> bool {
        if self.config().single {
            &&& (r is Ok <==> is_json_object(current) && object_in(current)->0.contains_key(id))
            &&& r is Ok ==> r->Ok_0@ == compact_of(object_in(current)->0[id])
            &&& r is Err ==> r->Err_0.kind == if is_json_object(current) {
                ErrorKind::NotFound
            } else {
                document_error(current)
            }
        } else {
            &&& (r is Ok <==> is_json(current))
            &&& r is Ok ==> r->Ok_0@ == current
            &&& r is Err ==> r->Err_0.kind == ErrorKind::Other
        }
    }

    /// What deleting `id` gives, where `current` is the aggregate's content in single-file mode.
    pub open spec fn delete_result(&self, id: Seq<char>, current: Seq<char>, r: Result<Effect, StoreError>) -> bool {
        if self.config().single {
            &&& (r is Ok <==> is_json_object(current) && object_in(current)->0.contains_key(id))
            &&& r is Ok ==> r->Ok_0.writes(
                self.record_path(id),
                encoded(self.config(), object_of(object_in(current)->0.remove(id))),
            )
            &&& r is Err ==> r->Err_0.kind == if is_json_object(current) {
                ErrorKind::NotFound
            } else {
                document_error(current)
            }
        } else {
            r is Ok && r->Ok_0.removes(self.record_path(id))
        }
    }

    /// A store of one file per record under the directory `path`, written compactly.
    pub fn new(path: &str) -> (r: FileStore)
        ensures
            r.config() == (Config { pretty: false, indent: 2, single: false }),
            r.root() == path@,
    {
        FileStore::new_with_cfg(path, Config::default())
    }

    /// A store under `path`; in single-file mode the path takes the extension `json`.
    pub fn new_with_cfg(path: &str, cfg: Config) -> (r: FileStore)
        ensures
            r.config() == cfg,
            r.root() == if cfg.single {
                with_json_extension(path@)
            } else {
                path@
            },
    {
        if cfg.single {
            FileStore { path: json_path(path), cfg }
        } else {
            FileStore { path: path.to_string(), cfg }
        }
    }

    pub fn path(&self) -> (r: &str)
        ensures
            r@ == self.root(),
    {
        self.path.as_str()
    }

    pub fn config_of(&self) -> (r: Config)
        ensures
            r == self.config(),
    {
        self.cfg
    }

    pub fn id_to_path(&self, id: &str) -> (r: String)
        ensures
            r@ == self.record_path(id@),
    {
        if self.cfg.single {
            self.path.clone()
        } else {
            let name = id.to_string().concat(".json");
            join_path(self.path.as_str(), name.as_str())
        }
    }

    /// The identifier that a record file's name stands for.
    pub fn path_buf_to_id(&self, path: &str) -> (r: Result<String, StoreError>)
        ensures
            r is Ok <==> stem_of(path@) is Some,
            r is Ok ==> r->Ok_0@ == stem_of(path@)->0,
            r is Err ==> r->Err_0.kind == ErrorKind::Other,
    {
        match file_stem(path) {
            Some(id) => Ok(id),
            None => Err(StoreError::new(ErrorKind::Other, "invalid id")),
        }
    }

    /// What opening the store prepares on disk: the directory, or an empty document.
    pub fn setup(&self) -> (r: Setup)
        ensures
            !self.config().single ==> r.creates_directory(self.root()),
            self.config().single ==> r.initializes(self.root(), encoded(self.config(), object_of(empty_document()))),
    {
        if self.cfg.single {
            let empty = new_object();
            let content = self.encode(&object_value(empty));
            Setup::Document { path: self.path.clone(), content }
        } else {
            Setup::Directory { path: self.path.clone() }
        }
    }

    /// JSON text of `v`, indented as configured.
    fn encode(&self, v: &Value) -> (r: String)
        ensures
            r@ == encoded(self.config(), *v),
    {
        if self.cfg.pretty {
            let mut indent: Vec<u8> = Vec::new();
            let mut i: usize = 0;
            while i < self.cfg.indent
                invariant
                    i <= self.cfg.indent,
                    indent@ == spaces(i as nat),
                decreases self.cfg.indent - i,
            {
                indent.push(32u8);
                i = i + 1;
                assert(indent@ =~= spaces(i as nat));
            }
            assert(indent@ =~= spaces(self.cfg.indent as nat));
            match indented_text(v, &indent) {
                Ok(text) => text,
                Err(_) => String::new(),
            }
        } else {
            match compact_text(v) {
                Ok(text) => text,
                Err(_) => String::new(),
            }
        }
    }

    /// The JSON object that `text` holds.
    pub fn read_document(text: &str) -> (r: Result<serde_json::Map<String, Value>, StoreError>)
        ensures
            r is Ok <==> is_json_object(text@),
            r is Ok ==> members(r->Ok_0) == object_in(text@)->0,
            r is Err ==> r->Err_0.kind == document_error(text@),
    {
        match parse_value(text) {
            Ok(value) => match into_object(value) {
                Some(doc) => Ok(doc),
                None => Err(StoreError::new(ErrorKind::InvalidData, "invalid file content")),
            },
            Err(_) => Err(StoreError::new(ErrorKind::Other, "malformed JSON")),
        }
    }

    /// The member `id` of the aggregate document.
    pub fn record_in<'a>(doc: &'a serde_json::Map<String, Value>, id: &str) -> (r: Result<&'a Value, StoreError>)
        ensures
            r is Ok <==> members(*doc).contains_key(id@),
            r is Ok ==> *r->Ok_0 == members(*doc)[id@],
            r is Err ==> r->Err_0.kind == ErrorKind::NotFound,
    {
        match object_get(doc, id) {
            Some(v) => Ok(v),
            None => Err(StoreError::not_found()),
        }
    }

    /// Takes the member `id` out of the aggregate document.
    pub fn remove_from(doc: &mut serde_json::Map<String, Value>, id: &str) -> (r: Result<(), StoreError>)
        ensures
            r is Ok <==> members(*old(doc)).contains_key(id@),
            r is Err ==> r->Err_0.kind == ErrorKind::NotFound,
            members(*final(doc)) == members(*old(doc)).remove(id@),
    {
        match object_remove(doc, id) {
            Some(_) => Ok(()),
            None => Err(StoreError::not_found()),
        }
    }

    /// Writes `record` under `id`. In single-file mode `current` is the aggregate file's content.
    pub fn save_with_id(&self, record: &str, id: &str, current: Option<&str>) -> (r: Result<Effect, StoreError>)
        requires
            self.config().single ==> current is Some,
        ensures
            self.save_result(record@, id@, current->0@, r),
    {
        if self.cfg.single {
            let text = match current {
                Some(t) => t,
                None => return Err(StoreError::new(ErrorKind::Other, "the aggregate file was not read")),
            };
            let mut doc = FileStore::read_document(text)?;
            let value = match parse_value(record) {
                Ok(v) => v,
                Err(_) => return Err(StoreError::new(ErrorKind::InvalidData, "the record is not JSON")),
            };
            object_insert(&mut doc, id.to_string(), value);
            let content = self.encode(&object_value(doc));
            Ok(Effect::Write { path: self.path.clone(), content })
        } else {
            let value = match parse_value(record) {
                Ok(v) => v,
                Err(_) => return Err(StoreError::new(ErrorKind::InvalidData, "the record is not JSON")),
            };
            let content = if self.cfg.pretty {
                self.encode(&value)
            } else {
                record.to_string()
            };
            Ok(Effect::Write { path: self.id_to_path(id), content })
        }
    }

    /// The record `id`, given the content of the file that holds it.
    pub fn get(&self, id: &str, current: &str) -> (r: Result<String, StoreError>)
        ensures
            self.get_result(id@, current@, r),
    {
        if self.cfg.single {
            let doc = FileStore::read_document(current)?;
            let value = FileStore::record_in(&doc, id)?;
            match compact_text(value) {
                Ok(text) => Ok(text),
                Err(_) => Err(StoreError::new(ErrorKind::Other, "the record cannot be read")),
            }
        } else {
            match parse_value(current) {
                Ok(_) => Ok(current.to_string()),
                Err(_) => Err(StoreError::new(ErrorKind::Other, "malformed JSON")),
            }
        }
    }

    /// Removes the record `id`. In single-file mode `current` is the aggregate file's content.
    pub fn delete(&self, id: &str, current: Option<&str>) -> (r: Result<Effect, StoreError>)
        requires
            self.config().single ==> current is Some,
        ensures
            self.delete_result(id@, current->0@, r),
    {
        if self.cfg.single {
            let text = match current {
                Some(t) => t,
                None => return Err(StoreError::new(ErrorKind::Other, "the aggregate file was not read")),
            };
            let mut doc = FileStore::read_document(text)?;
            FileStore::remove_from(&mut doc, id)?;
            let content = self.encode(&object_value(doc));
            Ok(Effect::Write { path: self.path.clone(), content })
        } else {
            Ok(Effect::Remove { path: self.id_to_path(id) })
        }
    }

    /// Each member of the aggregate document as compact JSON text, in increasing identifier order.
    pub fn records_in(doc: serde_json::Map<String, Value>) -> (r: Vec<(String, String)>)
        ensures
            lists(r@, compacted(members(doc))),
    {
        let ghost m = members(doc);
        let pairs = object_members_of(doc);
        let mut table: Table<String> = Table::new();
        let mut i: usize = 0;
        while i < pairs.len()
            invariant
                i <= pairs@.len(),
                table.wf(),
                forall|k: Seq<char>| #[trigger] table@.contains_key(k) ==> m.contains_key(k) && table@[k]@ == compact_of(m[k]),
                forall|j: int| 0 <= j < i ==> table@.contains_key(#[trigger] pairs@[j].0@),
                forall|j: int|
                    0 <= j < pairs@.len() ==> m.contains_key(#[trigger] pairs@[j].0@) && m[pairs@[j].0@] == pairs@[j].1,
            decreases pairs@.len() - i,
        {
            let (id, value) = (&pairs[i].0, &pairs[i].1);
            let text = match compact_text(value) {
                Ok(text) => text,
                Err(_) => String::new(),
            };
            table.insert(id.clone(), text);
            i = i + 1;
        }
        proof {
            table.lemma_view();
        }
        let n = table.len();
        let mut out: Vec<(String, String)> = Vec::new();
        let mut j: usize = 0;
        while j < n
            invariant
                n == table.pairs().len(),
                j <= n,
                out@.len() == j,
                forall|q: int| 0 <= q < j ==> (#[trigger] out@[q]).0@ == table.pairs()[q].0
                    && out@[q].1@ == table.pairs()[q].1@,
            decreases n - j,
        {
            out.push((table.key_at(j).clone(), table.value_at(j).clone()));
            j = j + 1;
        }
        let ghost cm = compacted(m);
        assert forall|q: int| 0 <= q < out@.len() implies cm.contains_key(#[trigger] out@[q].0@) && cm[out@[q].0@]
            == out@[q].1@ by {
            assert(table@.contains_key(table.pairs()[q].0));
        }
        assert forall|k: Seq<char>| #[trigger] cm.contains_key(k) implies exists|q: int|
            0 <= q < out@.len() && #[trigger] out@[q].0@ == k by {
            let w = choose|w: int| 0 <= w < pairs@.len() && #[trigger] pairs@[w].0@ == k;
            assert(table@.contains_key(pairs@[w].0@));
            let q = choose|q: int| 0 <= q < table.pairs().len() && #[trigger] table.pairs()[q].0 == k;
            assert(out@[q].0@ == k);
        }
        assert forall|a: int, b: int| 0 <= a < b < out@.len() implies lex_lt(
            #[trigger] out@[a].0@,
            #[trigger] out@[b].0@,
        ) by {
            assert(lex_lt(table.pairs()[a].0, table.pairs()[b].0));
        }
        out
    }

    /// The records among `records`, given as identifier and file content, whose content is JSON,
    /// in increasing identifier order.
    pub fn collect_records(records: &Vec<(String, String)>) -> (r: Vec<(String, String)>)
        ensures
            lists(r@, json_records(records@)),
    {
        let mut table: Table<String> = Table::new();
        let mut i: usize = 0;
        while i < records.len()
            invariant
                i <= records@.len(),
                table.wf(),
                forall|k: Seq<char>| #[trigger] table@.contains_key(k) == json_records(records@.subrange(0, i as int)).contains_key(k),
                forall|k: Seq<char>| table@.contains_key(k) ==> #[trigger] table@[k]@ == json_records(records@.subrange(0, i as int))[k],
            decreases records@.len() - i,
        {
            let ghost prefix = records@.subrange(0, i as int);
            let ghost next = records@.subrange(0, i + 1);
            assert(next.drop_last() =~= prefix);
            if parse_value(records[i].1.as_str()).is_ok() {
                table.insert(records[i].0.clone(), records[i].1.clone());
            }
            i = i + 1;
        }
        assert(records@.subrange(0, records@.len() as int) =~= records@);
        proof {
            table.lemma_view();
        }
        let n = table.len();
        let mut out: Vec<(String, String)> = Vec::new();
        let mut j: usize = 0;
        while j < n
            invariant
                n == table.pairs().len(),
                j <= n,
                out@.len() == j,
                forall|q: int| 0 <= q < j ==> (#[trigger] out@[q]).0@ == table.pairs()[q].0
                    && out@[q].1@ == table.pairs()[q].1@,
            decreases n - j,
        {
            out.push((table.key_at(j).clone(), table.value_at(j).clone()));
            j = j + 1;
        }
        let ghost m = json_records(records@);
        assert forall|q: int| 0 <= q < out@.len() implies m.contains_key(#[trigger] out@[q].0@) && m[out@[q].0@]
            == out@[q].1@ by {
            assert(table@.contains_key(table.pairs()[q].0));
        }
        assert forall|k: Seq<char>| #[trigger] m.contains_key(k) implies exists|q: int|
            0 <= q < out@.len() && #[trigger] out@[q].0@ == k by {
            assert(table@.contains_key(k));
            let q = choose|q: int| 0 <= q < table.pairs().len() && #[trigger] table.pairs()[q].0 == k;
            assert(out@[q].0@ == k);
        }
        assert forall|a: int, b: int| 0 <= a < b < out@.len() implies lex_lt(
            #[trigger] out@[a].0@,
            #[trigger] out@[b].0@,
        ) by {
            assert(lex_lt(table.pairs()[a].0, table.pairs()[b].0));
        }
        out
    }

    /// The identifiers that the names of the files in the store's directory stand for,
    /// each once, in increasing order.
    pub fn candidate_ids(&self, names: &Vec<String>) -> (r: Vec<String>)
        ensures
            forall|k: Seq<char>| stems(names@).contains(k) <==> exists|i: int| 0 <= i < r@.len() && #[trigger] r@[i]@ == k,
            forall|i: int, j: int| 0 <= i < j < r@.len() ==> lex_lt(#[trigger] r@[i]@, #[trigger] r@[j]@),
    {
        let mut table: Table<()> = Table::new();
        let mut i: usize = 0;
        while i < names.len()
            invariant
                i <= names@.len(),
                table.wf(),
                forall|k: Seq<char>| #[trigger] table@.contains_key(k) <==> exists|j: int|
                    0 <= j < i && stem_of(names@[j]@) == Some(k),
            decreases names@.len() - i,
        {
            match self.path_buf_to_id(names[i].as_str()) {
                Ok(id) => {
                    let ghost k = id@;
                    table.insert(id, ());
                    assert forall|q: Seq<char>| #[trigger] table@.contains_key(q) <==> exists|j: int|
                        0 <= j < i + 1 && stem_of(names@[j]@) == Some(q) by {
                        if q == k {
                            assert(stem_of(names@[i as int]@) == Some(q));
                        }
                        if exists|j: int| 0 <= j < i + 1 && stem_of(names@[j]@) == Some(q) {
                            let j = choose|j: int| 0 <= j < i + 1 && stem_of(names@[j]@) == Some(q);
                            if j < i {
                                assert(exists|j: int| 0 <= j < i && stem_of(names@[j]@) == Some(q));
                            }
                        }
                    }
                },
                Err(_) => {
                    assert forall|q: Seq<char>| #[trigger] table@.contains_key(q) <==> exists|j: int|
                        0 <= j < i + 1 && stem_of(names@[j]@) == Some(q) by {
                        if exists|j: int| 0 <= j < i + 1 && stem_of(names@[j]@) == Some(q) {
                            let j = choose|j: int| 0 <= j < i + 1 && stem_of(names@[j]@) == Some(q);
                            if j < i {
                                assert(exists|j: int| 0 <= j < i && stem_of(names@[j]@) == Some(q));
                            }
                        }
                    }
                },
            }
            i = i + 1;
        }
        proof {
            table.lemma_view();
        }
        let n = table.len();
        let mut out: Vec<String> = Vec::new();
        let mut j: usize = 0;
        while j < n
            invariant
                n == table.pairs().len(),
                j <= n,
                out@.len() == j,
                forall|q: int| 0 <= q < j ==> (#[trigger] out@[q])@ == table.pairs()[q].0,
            decreases n - j,
        {
            out.push(table.key_at(j).clone());
            j = j + 1;
        }
        assert forall|k: Seq<char>| stems(names@).contains(k) <==> exists|q: int|
            0 <= q < out@.len() && #[trigger] out@[q]@ == k by {
            if stems(names@).contains(k) {
                assert(table@.contains_key(k));
                let q = choose|q: int| 0 <= q < table.pairs().len() && #[trigger] table.pairs()[q].0 == k;
                assert(out@[q]@ == k);
            }
            if exists|q: int| 0 <= q < out@.len() && #[trigger] out@[q]@ == k {
                let q = choose|q: int| 0 <= q < out@.len() && #[trigger] out@[q]@ == k;
                assert(table@.contains_key(table.pairs()[q].0));
            }
        }
        assert forall|a: int, b: int| 0 <= a < b < out@.len() implies lex_lt(
            #[trigger] out@[a]@,
            #[trigger] out@[b]@,
        ) by {
            assert(lex_lt(table.pairs()[a].0, table.pairs()[b].0));
        }
        out
    }
}

} // verus!
