use std::collections::HashMap;

use jfs::config::Config;
use jfs::error::{ErrorKind, StoreError};
use jfs::file_store::{Effect, Setup};
use jfs::{keep_decoded, Store, IN_MEMORY};

/// Files by path, standing in for a file system.
#[derive(Default)]
struct Disk {
    files: HashMap<String, String>,
}

impl Disk {
    fn read(&self, path: &str) -> Result<String, StoreError> {
        self.files
            .get(path)
            .cloned()
            .ok_or_else(|| StoreError::new(ErrorKind::NotFound, "no such file"))
    }

    fn apply(&mut self, effect: Effect) -> Result<(), StoreError> {
        match effect {
            Effect::Done => Ok(()),
            Effect::Write { path, content } => {
                self.files.insert(path, content);
                Ok(())
            }
            Effect::Remove { path } => match self.files.remove(&path) {
                Some(_) => Ok(()),
                None => Err(StoreError::new(ErrorKind::NotFound, "no such file")),
            },
        }
    }

    fn current(&self, store: &Store, id: &str, updating: bool) -> Result<Option<String>, StoreError> {
        match store.source(id, updating) {
            Some(path) => self.read(&path).map(Some),
            None => Ok(None),
        }
    }

    fn open(&mut self, path: &str, cfg: Config) -> Store {
        let store = Store::new_with_cfg(path, cfg);
        if let Some(f) = store.file_store() {
            match f.setup() {
                Setup::Directory { .. } => {}
                Setup::Document { path, content } => {
                    self.files.entry(path).or_insert(content);
                }
            }
        }
        store
    }

    fn save_with_id(&mut self, store: &mut Store, record: &str, id: &str) -> Result<String, StoreError> {
        let current = self.current(store, id, true)?;
        let effect = store.save_with_id(record, id, current.as_deref())?;
        self.apply(effect)?;
        Ok(id.to_string())
    }

    fn save(&mut self, store: &mut Store, record: &str) -> Result<String, StoreError> {
        let current = self.current(store, "", true)?;
        let fresh = uuid::Uuid::new_v4().to_string();
        let (id, effect) = store.save(record, fresh, current.as_deref())?;
        self.apply(effect)?;
        Ok(id)
    }

    fn get(&self, store: &Store, id: &str) -> Result<String, StoreError> {
        let current = self.current(store, id, false)?;
        store.get(id, current.as_deref())
    }

    fn all(&self, store: &Store) -> Result<Vec<(String, String)>, StoreError> {
        let mut records = Vec::new();
        let mut current = None;
        if let Some(f) = store.file_store() {
            if f.config_of().single {
                current = Some(self.read(f.path())?);
            } else {
                let prefix = format!("{}/", f.path());
                let names: Vec<String> = self
                    .files
                    .keys()
                    .filter_map(|p| p.strip_prefix(&prefix).map(|n| n.to_string()))
                    .collect();
                for id in f.candidate_ids(&names) {
                    if let Ok(text) = self.read(&f.id_to_path(&id)) {
                        records.push((id, text));
                    }
                }
            }
        }
        store.all(current.as_deref(), &records)
    }

    fn delete(&mut self, store: &mut Store, id: &str) -> Result<(), StoreError> {
        let current = self.current(store, id, true)?;
        let effect = store.delete(id, current.as_deref())?;
        self.apply(effect)
    }
}

fn field(text: &str, name: &str) -> Option<i64> {
    let v: serde_json::Value = serde_json::from_str(text).ok()?;
    v.get(name)?.as_i64()
}

fn single() -> Config {
    let mut cfg = Config::default();
    cfg.single = true;
    cfg
}

#[test]
fn lib_save() {
    let mut disk = Disk::default();
    let dir = ".specTests-save";
    let mut db = disk.open(dir, Config::default());
    let id = disk.save(&mut db, "{\"x\":56}").unwrap();
    let buffer = disk.read(&format!("{}/{}.json", dir, id)).unwrap();
    assert_eq!(buffer, "{\"x\":56}");
}

#[test]
fn lib_save_empty_obj() {
    let mut disk = Disk::default();
    let dir = ".specTests-empty";
    let mut db = disk.open(dir, Config::default());
    let id = disk.save(&mut db, "{}").unwrap();
    let buffer = disk.read(&format!("{}/{}.json", dir, id)).unwrap();
    assert_eq!(buffer, "{}");
}

#[test]
fn lib_save_with_id() {
    let mut disk = Disk::default();
    let dir = ".specTests-with-id";
    let mut db = disk.open(dir, Config::default());
    disk.save_with_id(&mut db, "{\"y\":-7}", "foo").unwrap();
    let buffer = disk.read(&format!("{}/foo.json", dir)).unwrap();
    assert_eq!(buffer, "{\"y\":-7}");
}

#[test]
fn lib_pretty_print_file_content() {
    let mut disk = Disk::default();
    let dir = ".specTests-pretty";
    let mut cfg = Config::default();
    cfg.pretty = true;
    let mut db = disk.open(dir, cfg);
    let id = disk.save(&mut db, "{\"a\":\"foo\",\"b\":{\"c\":33}}").unwrap();
    let buffer = disk.read(&format!("{}/{}.json", dir, id)).unwrap();
    let expected = "{\n  \"a\": \"foo\",\n  \"b\": {\n    \"c\": 33\n  }\n}";
    assert_eq!(buffer, expected);
}

#[test]
fn lib_get() {
    let mut disk = Disk::default();
    let dir = ".specTests-get";
    let db = disk.open(dir, Config::default());
    disk.files.insert(format!("{}/foo.json", dir), "{\"z\":9.9}".to_string());
    let obj: serde_json::Value = serde_json::from_str(&disk.get(&db, "foo").unwrap()).unwrap();
    assert_eq!(obj["z"].as_f64().unwrap(), 9.9);
}

#[test]
fn lib_get_non_existent() {
    let mut disk = Disk::default();
    let db = disk.open(".specTests-missing", Config::default());
    let res = disk.get(&db, "foobarobject");
    assert!(res.is_err());
    assert_eq!(res.err().unwrap().kind(), ErrorKind::NotFound);
}

#[test]
fn lib_all() {
    let mut disk = Disk::default();
    let dir = ".specTests-all";
    let db = disk.open(dir, Config::default());
    disk.files.insert(format!("{}/foo.json", dir), "{\"x\":1, \"y\":0}".to_string());
    disk.files.insert(format!("{}/bar.json", dir), "{\"y\":2}".to_string());
    let all = disk.all(&db).unwrap();
    let all_x = keep_decoded(
        all.iter()
            .map(|(k, t)| (k.clone(), field(t, "x").and_then(|x| field(t, "y").map(|_| x))))
            .collect(),
    );
    let all_y = keep_decoded(all.iter().map(|(k, t)| (k.clone(), field(t, "y"))).collect());
    assert_eq!(all_x.iter().find(|(k, _)| k == "foo").unwrap().1, 1);
    assert!(all_x.iter().find(|(k, _)| k == "bar").is_none());
    assert_eq!(all_y.iter().find(|(k, _)| k == "bar").unwrap().1, 2);
}

#[test]
fn lib_delete() {
    let mut disk = Disk::default();
    let dir = ".specTests-delete";
    let mut db = disk.open(dir, Config::default());
    let id = disk.save(&mut db, "{\"y\":88}").unwrap();
    let f_name = format!("{}/{}.json", dir, id);
    disk.get(&db, &id).unwrap();
    assert_eq!(disk.files.contains_key(&f_name), true);
    disk.delete(&mut db, &id).unwrap();
    assert_eq!(disk.files.contains_key(&f_name), false);
    assert!(disk.get(&db, &id).is_err());
    assert!(disk.delete(&mut db, &id).is_err());
}

#[test]
fn lib_delete_non_existent() {
    let mut disk = Disk::default();
    let mut db = disk.open(".specTests-delete-missing", Config::default());
    let res = disk.delete(&mut db, "blabla");
    assert!(res.is_err());
    assert_eq!(res.err().unwrap().kind(), ErrorKind::NotFound);
}

#[test]
fn lib_single_save() {
    let mut disk = Disk::default();
    let file_name = ".specTests-single.json";
    let mut db = disk.open(file_name, single());
    assert_eq!(disk.read(file_name).unwrap(), "{}");
    disk.save_with_id(&mut db, "{\"x\":3}", "x").unwrap();
    disk.save_with_id(&mut db, "{\"y\":4}", "y").unwrap();
    assert_eq!(disk.read(file_name).unwrap(), "{\"x\":{\"x\":3},\"y\":{\"y\":4}}");
}

#[test]
fn lib_single_save_without_file_name_ext() {
    let mut disk = Disk::default();
    let dir = ".specTests-noext";
    let db = disk.open(dir, single());
    assert_eq!(db.path(), format!("{}.json", dir));
    assert!(disk.files.contains_key(&format!("{}.json", dir)));
}

#[test]
fn lib_single_get() {
    let mut disk = Disk::default();
    let file_name = ".specTests-single-get.json";
    let db = disk.open(file_name, single());
    disk.files.insert(file_name.to_string(), "{\"x\":{\"x\":8},\"y\":{\"y\":9}}".to_string());
    let y = disk.get(&db, "y").unwrap();
    assert_eq!(field(&y, "y").unwrap(), 9);
}

#[test]
fn lib_single_get_non_existent() {
    let mut disk = Disk::default();
    let db = disk.open(".specTests-single-missing.json", single());
    let res = disk.get(&db, "foobarobject");
    assert!(res.is_err());
    assert_eq!(res.err().unwrap().kind(), ErrorKind::NotFound);
}

#[test]
fn lib_single_all() {
    let mut disk = Disk::default();
    let file_name = ".specTests-single-all.json";
    let db = disk.open(file_name, single());
    disk.files.insert(file_name.to_string(), "{\"foo\":{\"x\":8},\"bar\":{\"x\":9}}".to_string());
    let all = disk.all(&db).unwrap();
    assert_eq!(field(&all.iter().find(|(k, _)| k == "foo").unwrap().1, "x").unwrap(), 8);
    assert_eq!(field(&all.iter().find(|(k, _)| k == "bar").unwrap().1, "x").unwrap(), 9);
}

#[test]
fn lib_single_delete() {
    let mut disk = Disk::default();
    let file_name = ".specTests-single-delete.json";
    let mut db = disk.open(file_name, single());
    disk.files.insert(file_name.to_string(), "{\"foo\":{\"x\":8},\"bar\":{\"x\":9}}".to_string());
    disk.delete(&mut db, "bar").unwrap();
    assert_eq!(disk.read(file_name).unwrap(), "{\"foo\":{\"x\":8}}");
    disk.delete(&mut db, "foo").unwrap();
    assert_eq!(disk.read(file_name).unwrap(), "{}");
}

#[test]
fn lib_single_delete_non_existent() {
    let mut disk = Disk::default();
    let mut db = disk.open(".specTests-single-delete-missing.json", single());
    let res = disk.delete(&mut db, "blabla");
    assert!(res.is_err());
    assert_eq!(res.err().unwrap().kind(), ErrorKind::NotFound);
}

#[test]
fn store_in_memory_selected_by_path() {
    let mut disk = Disk::default();
    let mut db = disk.open(IN_MEMORY, Config::default());
    assert_eq!(db.path(), IN_MEMORY);
    assert!(db.file_store().is_none());
    disk.save_with_id(&mut db, "{\"x\":1}", "a").unwrap();
    assert!(disk.files.is_empty());
    assert_eq!(disk.get(&db, "a").unwrap(), "{\"x\":1}");
}

#[test]
fn store_delete_then_get_every_backend() {
    for (path, cfg) in [("dir", Config::default()), ("one.json", single()), (IN_MEMORY, Config::default())] {
        let mut disk = Disk::default();
        let mut db = disk.open(path, cfg);
        disk.save_with_id(&mut db, "{\"x\":1}", "i").unwrap();
        disk.delete(&mut db, "i").unwrap();
        assert_eq!(disk.get(&db, "i").err().unwrap().kind(), ErrorKind::NotFound);
        assert_eq!(disk.delete(&mut db, "i").err().unwrap().kind(), ErrorKind::NotFound);
    }
}

#[test]
fn store_backends_agree() {
    let backends = [("dir", Config::default()), ("one.json", single()), (IN_MEMORY, Config::default())];
    let mut outcomes: Vec<Vec<String>> = Vec::new();
    for (path, cfg) in backends {
        let mut disk = Disk::default();
        let mut db = disk.open(path, cfg);
        let mut seen: Vec<String> = Vec::new();
        let mut note = |r: Result<String, StoreError>| {
            seen.push(match r {
                Ok(text) => serde_json::from_str::<serde_json::Value>(&text).unwrap().to_string(),
                Err(e) => format!("{:?}", e.kind()),
            })
        };
        note(disk.save_with_id(&mut db, "{\"x\":1}", "a").map(|id| format!("\"{}\"", id)));
        note(disk.save_with_id(&mut db, "{\"x\":2, \"y\":[true,null]}", "b").map(|id| format!("\"{}\"", id)));
        note(disk.get(&db, "a"));
        note(disk.get(&db, "b"));
        note(disk.get(&db, "c"));
        note(disk.save_with_id(&mut db, "{\"x\":3}", "a").map(|id| format!("\"{}\"", id)));
        note(disk.get(&db, "a"));
        note(disk.delete(&mut db, "b").map(|_| "null".to_string()));
        note(disk.delete(&mut db, "b").map(|_| "null".to_string()));
        note(disk.get(&db, "b"));
        let all = disk.all(&db).unwrap();
        note(Ok(format!("{}", all.len())));
        for (id, text) in all {
            note(Ok(format!("\"{}\"", id)));
            note(Ok(text));
        }
        outcomes.push(seen);
    }
    assert_eq!(outcomes[0], outcomes[1]);
    assert_eq!(outcomes[1], outcomes[2]);
}

#[test]
fn store_single_file_aggregate() {
    let mut disk = Disk::default();
    let mut db = disk.open("agg", single());
    disk.save_with_id(&mut db, "{\"v\":1}", "x").unwrap();
    disk.save_with_id(&mut db, "{\"v\":2}", "y").unwrap();
    assert_eq!(disk.files.len(), 1);
    assert_eq!(disk.read("agg.json").unwrap(), "{\"x\":{\"v\":1},\"y\":{\"v\":2}}");
    disk.delete(&mut db, "y").unwrap();
    assert_eq!(disk.read("agg.json").unwrap(), "{\"x\":{\"v\":1}}");
    disk.delete(&mut db, "x").unwrap();
    assert_eq!(disk.read("agg.json").unwrap(), "{}");
}

#[test]
fn store_get_all_drops_records_that_do_not_decode() {
    let mut disk = Disk::default();
    let mut db = disk.open(IN_MEMORY, Config::default());
    disk.save_with_id(&mut db, "{\"name\":\"a\"}", "missing").unwrap();
    disk.save_with_id(&mut db, "{\"name\":\"b\",\"age\":3}", "present").unwrap();
    let all = disk.all(&db).unwrap();
    let ages = keep_decoded(all.into_iter().map(|(k, t)| { let a = field(&t, "age"); (k, a) }).collect());
    assert_eq!(ages, vec![("present".to_string(), 3)]);
}

#[test]
fn store_save_rejects_text_that_is_not_json() {
    for (path, cfg) in [("dir", Config::default()), ("one.json", single()), (IN_MEMORY, Config::default())] {
        let mut disk = Disk::default();
        let mut db = disk.open(path, cfg);
        let res = disk.save_with_id(&mut db, "{x:1}", "a");
        assert_eq!(res.err().unwrap().kind(), ErrorKind::InvalidData);
    }
}

#[test]
fn config_default_values() {
    let cfg = Config::default();
    assert!(!cfg.pretty);
    assert_eq!(cfg.indent, 2);
    assert!(!cfg.single);
}

#[test]
fn error_carries_kind_and_message() {
    let e = StoreError::new(ErrorKind::Other, "broken");
    assert_eq!(e.kind(), ErrorKind::Other);
    assert_eq!(e.message(), "broken");
    assert_eq!(StoreError::not_found().kind(), ErrorKind::NotFound);
}

#[test]
fn keep_decoded_keeps_order_of_successes() {
    let entries = vec![
        ("a".to_string(), Some(1)),
        ("b".to_string(), None),
        ("c".to_string(), Some(3)),
    ];
    assert_eq!(keep_decoded(entries), vec![("a".to_string(), 1), ("c".to_string(), 3)]);
}
