//! Records held in the process, as JSON text keyed by identifier.
use vstd::prelude::*;

use crate::error::{ErrorKind, StoreError};
use crate::json::{is_json, parse_value};
use crate::order::lex_lt;
use crate::table::Table;

verus! {

/// `list` holds the records of `m`, each once, in increasing identifier order.
pub open spec fn lists(list: Seq<(String, String)>, m: Map<Seq<char>, Seq<char>>) -> bool {
    &&& forall|i: int|
        0 <= i < list.len() ==> m.contains_key(#[trigger] list[i].0@) && m[list[i].0@] == list[i].1@
    &&& forall|k: Seq<char>|
        #[trigger] m.contains_key(k) ==> exists|i: int| 0 <= i < list.len() && #[trigger] list[i].0@ == k
    &&& forall|i: int, j: int| 0 <= i < j < list.len() ==> lex_lt(#[trigger] list[i].0@, #[trigger] list[j].0@)
}

pub struct MemoryStore {
    mem: Table<String>,
}

impl MemoryStore {
    pub closed spec fn view(&self) -> Map<Seq<char>, Seq<char>> {
        Map::new(|k: Seq<char>| self.mem@.contains_key(k), |k: Seq<char>| self.mem@[k]@)
    }

    pub closed spec fn wf(&self) -> bool {
        self.mem.wf()
    }

    pub fn new() -> (r: MemoryStore)
        ensures
            r.wf(),
            r@ == Map::<Seq<char>, Seq<char>>::empty(),
    {
        let r = MemoryStore { mem: Table::new() };
        assert(r@ =~= Map::<Seq<char>, Seq<char>>::empty());
        r
    }

    /// Stores `record` under `id`, replacing what was there; the record must be JSON.
    pub fn save_with_id(&mut self, record: &str, id: &str) -> (r: Result<String, StoreError>)
        requires
            old(self).wf(),
        ensures
            final(self).wf(),
            r is Ok <==> is_json(record@),
            r is Ok ==> r->Ok_0@ == id@ && final(self)@ == old(self)@.insert(id@, record@),
            r is Err ==> r->Err_0.kind == ErrorKind::InvalidData && final(self)@ == old(self)@,
    {
        if parse_value(record).is_err() {
            return Err(StoreError::new(ErrorKind::InvalidData, "the record is not JSON"));
        }
        self.mem.insert(id.to_string(), record.to_string());
        assert(self@ =~= old(self)@.insert(id@, record@));
        Ok(id.to_string())
    }

    /// Stores `record` under `fresh_id`, an identifier the caller drew for it, which it returns.
    pub fn save(&mut self, record: &str, fresh_id: String) -> (r: Result<String, StoreError>)
        requires
            old(self).wf(),
        ensures
            final(self).wf(),
            r is Ok <==> is_json(record@),
            r is Ok ==> r->Ok_0@ == fresh_id@ && final(self)@ == old(self)@.insert(fresh_id@, record@),
            r is Err ==> r->Err_0.kind == ErrorKind::InvalidData && final(self)@ == old(self)@,
    {
        self.save_with_id(record, fresh_id.as_str())
    }

    pub fn get(&self, id: &str) -> (r: Result<String, StoreError>)
        requires
            self.wf(),
        ensures
            r is Ok <==> self@.contains_key(id@),
            r is Ok ==> r->Ok_0@ == self@[id@],
            r is Err ==> r->Err_0.kind == ErrorKind::NotFound,
    {
        match self.mem.get(id) {
            Some(text) => Ok(text.clone()),
            None => Err(StoreError::not_found()),
        }
    }

    /// Every record, in increasing identifier order.
    pub fn all(&self) -> (r: Result<Vec<(String, String)>, StoreError>)
        requires
            self.wf(),
        ensures
            r is Ok,
            r is Ok ==> lists(r->Ok_0@, self@),
    {
        proof {
            self.mem.lemma_view();
        }
        let n = self.mem.len();
        let mut out: Vec<(String, String)> = Vec::new();
        let mut i: usize = 0;
        while i < n
            invariant
                n == self.mem.pairs().len(),
                i <= n,
                out@.len() == i,
                forall|j: int| 0 <= j < i ==> (#[trigger] out@[j]).0@ == self.mem.pairs()[j].0
                    && out@[j].1@ == self.mem.pairs()[j].1@,
            decreases n - i,
        {
            let k = self.mem.key_at(i).clone();
            let v = self.mem.value_at(i).clone();
            out.push((k, v));
            i = i + 1;
        }
        assert forall|k: Seq<char>| #[trigger] self@.contains_key(k) implies exists|j: int|
            0 <= j < out@.len() && #[trigger] out@[j].0@ == k by {
            assert(self.mem@.contains_key(k));
            let j = choose|j: int| 0 <= j < self.mem.pairs().len() && #[trigger] self.mem.pairs()[j].0 == k;
            assert(out@[j].0@ == k);
        }
        assert forall|a: int, b: int| 0 <= a < b < out@.len() implies lex_lt(
            #[trigger] out@[a].0@,
            #[trigger] out@[b].0@,
        ) by {
            assert(lex_lt(self.mem.pairs()[a].0, self.mem.pairs()[b].0));
        }
        Ok(out)
    }

    /// Removes the record under `id`.
    pub fn delete(&mut self, id: &str) -> (r: Result<(), StoreError>)
        requires
            old(self).wf(),
        ensures
            final(self).wf(),
            r is Ok <==> old(self)@.contains_key(id@),
            r is Err ==> r->Err_0.kind == ErrorKind::NotFound,
            final(self)@ == old(self)@.remove(id@),
    {
        match self.mem.remove(id) {
            Some(_) => {
                assert(self@ =~= old(self)@.remove(id@));
                Ok(())
            },
            None => {
                assert(self@ =~= old(self)@.remove(id@));
                Err(StoreError::not_found())
            },
        }
    }
}

impl Default for MemoryStore {
    fn default() -> (r: MemoryStore)
        ensures
            r.wf(),
            r@ == Map::<Seq<char>, Seq<char>>::empty(),
    {
        MemoryStore::new()
    }
}

} // verus!
