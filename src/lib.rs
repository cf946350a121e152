//! A small persistent key-value store of JSON documents, addressed by string identifiers.
//!
//! A [`Store`] keeps its records either on disk, one JSON file per record or one
//! JSON object file for all of them, or in the process. The in-process backend
//! performs each operation itself; for a file-backed store an operation decides
//! from the content of the file it names and hands back the [`Effect`] that the
//! caller carries out on disk.
use vstd::prelude::*;

pub mod atomic_write;
pub mod config;
pub mod error;
pub mod file_store;
pub mod json;
pub mod laws;
pub mod memory_store;
pub mod order;
pub mod paths;
pub mod table;

use crate::config::Config;
use crate::error::{ErrorKind, StoreError};
use crate::file_store::{compacted, json_records, Effect, FileStore};
use crate::json::{is_json, is_json_object, object_in};
use crate::memory_store::{lists, MemoryStore};

verus! {

/// The path that selects the in-process backend.
pub const IN_MEMORY: &'static str = "::memory::";

/// The entries whose value decoded, in their order, with the decoded values.
pub open spec fn decoded<T>(entries: Seq<(String, Option<T>)>) -> Seq<(String, T)>
    decreases entries.len(),
{
    if entries.len() == 0 {
        Seq::empty()
    } else {
        let rest = decoded(entries.drop_first());
        match entries[0].1 {
            Some(t) => seq![(entries[0].0, t)] + rest,
            None => rest,
        }
    }
}

/// Keeps the records whose value decoded and drops the others.
pub fn keep_decoded<T>(entries: Vec<(String, Option<T>)>) -> (r: Vec<(String, T)>)
    ensures
        r@ == decoded(entries@),
{
    let ghost all = entries@;
    let mut rest = entries;
    let mut out: Vec<(String, T)> = Vec::new();
    while rest.len() > 0
        invariant
            out@ + decoded(rest@) == decoded(all),
        decreases rest@.len(),
    {
        let ghost before = rest@;
        let (id, value) = rest.remove(0);
        assert(rest@ =~= before.drop_first());
        match value {
            Some(t) => {
                assert(out@.push((id, t)) + decoded(rest@) =~= out@ + decoded(before));
                out.push((id, t));
            },
            None => {},
        }
    }
    assert(out@ + decoded(rest@) =~= out@);
    out
}

enum Backend {
    File(FileStore),
    Memory(MemoryStore),
}

/// A handle on a store of JSON records, on disk or in the process.
pub struct Store {
    backend: Backend,
}

impl Store {
    pub closed spec fn in_memory(&self) -> bool {
        self.backend is Memory
    }

    /// The records of an in-process store.
    pub closed spec fn records(&self) -> Map<Seq<char>, Seq<char>> {
        match self.backend {
            Backend::Memory(m) => m@,
            Backend::File(_) => Map::empty(),
        }
    }

    /// The file backend of a file-backed store.
    pub closed spec fn file(&self) -> FileStore {
        match self.backend {
            Backend::File(f) => f,
            Backend::Memory(_) => arbitrary(),
        }
    }

    pub closed spec fn wf(&self) -> bool {
        match self.backend {
            Backend::Memory(m) => m.wf(),
            Backend::File(_) => true,
        }
    }

    /// A file-backed operation reads a file first: `get` in any mode, and a save or
    /// a delete (`updating`) in single-file mode.
    pub open spec fn reads_first(&self, updating: bool) -> bool {
        !self.in_memory() && (self.file().config().single || !updating)
    }

    /// Opens a store at `path` with the default configuration.
    pub fn new(path: &str) -> (r: Store)
        ensures
            r.wf(),
            path@ == IN_MEMORY@ ==> r.in_memory() && r.records() == Map::<Seq<char>, Seq<char>>::empty(),
            path@ != IN_MEMORY@ ==> !r.in_memory() && r.file().root() == path@ && r.file().config() == (Config {
                pretty: false,
                indent: 2,
                single: false,
            }),
    {
        Store::new_with_cfg(path, Config::default())
    }

    /// Opens a store at `path`: the in-process backend for [`IN_MEMORY`], else a file
    /// backend configured by `cfg`.
    pub fn new_with_cfg(path: &str, cfg: Config) -> (r: Store)
        ensures
            r.wf(),
            path@ == IN_MEMORY@ ==> r.in_memory() && r.records() == Map::<Seq<char>, Seq<char>>::empty(),
            path@ != IN_MEMORY@ ==> !r.in_memory() && r.file().config() == cfg && r.file().root() == if cfg.single {
                crate::paths::with_json_extension(path@)
            } else {
                path@
            },
    {
        if path.to_string() == IN_MEMORY.to_string() {
            Store { backend: Backend::Memory(MemoryStore::new()) }
        } else {
            Store { backend: Backend::File(FileStore::new_with_cfg(path, cfg)) }
        }
    }

    /// Where the records are kept: the directory or the single file, or [`IN_MEMORY`].
    pub fn path(&self) -> (r: &str)
        ensures
            self.in_memory() ==> r@ == IN_MEMORY@,
            !self.in_memory() ==> r@ == self.file().root(),
    {
        match &self.backend {
            Backend::File(f) => f.path(),
            Backend::Memory(_) => IN_MEMORY,
        }
    }

    /// The file backend, for a file-backed store.
    pub fn file_store(&self) -> (r: Option<&FileStore>)
        ensures
            r is Some <==> !self.in_memory(),
            r is Some ==> *r->0 == self.file(),
    {
        match &self.backend {
            Backend::File(f) => Some(f),
            Backend::Memory(_) => None,
        }
    }

    /// The file whose content an operation on `id` is handed as `current`.
    pub fn source(&self, id: &str, updating: bool) -> (r: Option<String>)
        ensures
            r is Some <==> self.reads_first(updating),
            r is Some ==> r->0@ == self.file().record_path(id@),
    {
        match &self.backend {
            Backend::File(f) => if f.config_of().single || !updating {
                Some(f.id_to_path(id))
            } else {
                None
            },
            Backend::Memory(_) => None,
        }
    }

    /// Writes `record` under `id`, replacing any record there.
    pub fn save_with_id(&mut self, record: &str, id: &str, current: Option<&str>) -> (r: Result<Effect, StoreError>)
        requires
            old(self).wf(),
            old(self).reads_first(true) ==> current is Some,
        ensures
            final(self).wf(),
            final(self).in_memory() == old(self).in_memory(),
            final(self).file() == old(self).file(),
            old(self).in_memory() ==> (r is Ok <==> is_json(record@)),
            old(self).in_memory() && r is Ok ==> r->Ok_0 is Done && final(self).records() == old(self).records().insert(id@, record@),
            old(self).in_memory() && r is Err ==> r->Err_0.kind == ErrorKind::InvalidData && final(self).records() == old(self).records(),
            !old(self).in_memory() ==> old(self).file().save_result(record@, id@, current->0@, r),
    {
        match &mut self.backend {
            Backend::File(f) => f.save_with_id(record, id, current),
            Backend::Memory(m) => match m.save_with_id(record, id) {
                Ok(_) => Ok(Effect::Done),
                Err(e) => Err(e),
            },
        }
    }

    /// Writes `record` under `fresh_id`, an identifier the caller drew for it, and
    /// returns that identifier with the effect.
    pub fn save(&mut self, record: &str, fresh_id: String, current: Option<&str>) -> (r: Result<(String, Effect), StoreError>)
        requires
            old(self).wf(),
            old(self).reads_first(true) ==> current is Some,
        ensures
            final(self).wf(),
            final(self).in_memory() == old(self).in_memory(),
            final(self).file() == old(self).file(),
            r is Ok ==> r->Ok_0.0@ == fresh_id@,
            old(self).in_memory() ==> (r is Ok <==> is_json(record@)),
            old(self).in_memory() && r is Ok ==> r->Ok_0.1 is Done && final(self).records() == old(self).records().insert(fresh_id@, record@),
            old(self).in_memory() && r is Err ==> r->Err_0.kind == ErrorKind::InvalidData && final(self).records() == old(self).records(),
            !old(self).in_memory() ==> old(self).file().save_result(
                record@,
                fresh_id@,
                current->0@,
                match r {
                    Ok((_, e)) => Ok(e),
                    Err(e) => Err(e),
                },
            ),
    {
        match self.save_with_id(record, fresh_id.as_str(), current) {
            Ok(effect) => Ok((fresh_id, effect)),
            Err(e) => Err(e),
        }
    }

    /// The record `id`, as JSON text.
    pub fn get(&self, id: &str, current: Option<&str>) -> (r: Result<String, StoreError>)
        requires
            self.wf(),
            self.reads_first(false) ==> current is Some,
        ensures
            self.in_memory() ==> (r is Ok <==> self.records().contains_key(id@)),
            self.in_memory() && r is Ok ==> r->Ok_0@ == self.records()[id@],
            self.in_memory() && r is Err ==> r->Err_0.kind == ErrorKind::NotFound,
            !self.in_memory() ==> self.file().get_result(id@, current->0@, r),
    {
        match &self.backend {
            Backend::File(f) => match current {
                Some(text) => f.get(id, text),
                None => Err(StoreError::new(ErrorKind::Other, "the record file was not read")),
            },
            Backend::Memory(m) => m.get(id),
        }
    }

    /// Every record, as JSON text, in increasing identifier order. In single-file mode
    /// `current` is the aggregate file's content; in directory mode `records` holds the
    /// identifier and content of each record file that could be read.
    pub fn all(&self, current: Option<&str>, records: &Vec<(String, String)>) -> (r: Result<Vec<(String, String)>, StoreError>)
        requires
            self.wf(),
            !self.in_memory() && self.file().config().single ==> current is Some,
        ensures
            self.in_memory() ==> r is Ok && lists(r->Ok_0@, self.records()),
            !self.in_memory() && !self.file().config().single ==> r is Ok && lists(r->Ok_0@, json_records(records@)),
            !self.in_memory() && self.file().config().single ==> (r is Ok <==> is_json_object(current->0@)),
            !self.in_memory() && self.file().config().single && r is Ok ==> lists(r->Ok_0@, compacted(object_in(current->0@)->0)),
            !self.in_memory() && self.file().config().single && r is Err ==> r->Err_0.kind == crate::file_store::document_error(current->0@),
    {
        match &self.backend {
            Backend::Memory(m) => m.all(),
            Backend::File(f) => if f.config_of().single {
                match current {
                    Some(text) => {
                        let doc = FileStore::read_document(text)?;
                        Ok(FileStore::records_in(doc))
                    },
                    None => Err(StoreError::new(ErrorKind::Other, "the aggregate file was not read")),
                }
            } else {
                Ok(FileStore::collect_records(records))
            },
        }
    }

    /// Removes the record `id`.
    pub fn delete(&mut self, id: &str, current: Option<&str>) -> (r: Result<Effect, StoreError>)
        requires
            old(self).wf(),
            old(self).reads_first(true) ==> current is Some,
        ensures
            final(self).wf(),
            final(self).in_memory() == old(self).in_memory(),
            final(self).file() == old(self).file(),
            old(self).in_memory() ==> (r is Ok <==> old(self).records().contains_key(id@)),
            old(self).in_memory() && r is Ok ==> r->Ok_0 is Done,
            old(self).in_memory() && r is Err ==> r->Err_0.kind == ErrorKind::NotFound,
            old(self).in_memory() ==> final(self).records() == old(self).records().remove(id@),
            !old(self).in_memory() ==> old(self).file().delete_result(id@, current->0@, r),
    {
        match &mut self.backend {
            Backend::File(f) => f.delete(id, current),
            Backend::Memory(m) => match m.delete(id) {
                Ok(()) => Ok(Effect::Done),
                Err(e) => Err(e),
            },
        }
    }
}

} // verus!
