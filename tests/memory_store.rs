use jfs::error::ErrorKind;
use jfs::keep_decoded;
use jfs::memory_store::MemoryStore;

fn field(text: &str, name: &str) -> Option<i64> {
    let v: serde_json::Value = serde_json::from_str(text).ok()?;
    v.get(name)?.as_i64()
}

#[test]
fn memory_store_save() {
    let mut db = MemoryStore::default();
    let id = db.save("{\"x\":56}", "n56".to_string()).unwrap();
    assert_eq!(db.all().unwrap().len(), 1);
    let json = db.get(&id).unwrap();
    assert_eq!(json, "{\"x\":56}");
}

#[test]
fn update() {
    let mut db = MemoryStore::default();
    let id = db.save("{\"x\":56}", "n56".to_string()).unwrap();
    let json = db.get(&id).unwrap();
    assert_eq!(json, "{\"x\":56}");
    db.save_with_id("{\"x\":57}", &id).unwrap();
    let json = db.get(&id).unwrap();
    assert_eq!(json, "{\"x\":57}");
}

#[test]
fn memory_store_save_empty_obj() {
    let mut db = MemoryStore::default();
    let id = db.save("{}", "empty".to_string()).unwrap();
    let json = db.get(&id).unwrap();
    assert_eq!(json, "{}");
}

#[test]
fn memory_store_save_with_id() {
    let mut db = MemoryStore::default();
    db.save_with_id("{\"y\":-7}", "foo").unwrap();
    let json = db.get("foo").unwrap();
    assert_eq!(json, "{\"y\":-7}");
}

#[test]
fn memory_store_get() {
    let mut db = MemoryStore::default();
    db.save_with_id("{\"z\":9.9}", "foo").unwrap();
    let obj: serde_json::Value = serde_json::from_str(&db.get("foo").unwrap()).unwrap();
    assert_eq!(obj["z"].as_f64().unwrap(), 9.9);
}

#[test]
fn memory_store_get_non_existent() {
    let db = MemoryStore::default();
    let res = db.get("foobarobject");
    assert!(res.is_err());
    assert_eq!(res.err().unwrap().kind(), ErrorKind::NotFound);
}

#[test]
fn memory_store_all() {
    let mut db = MemoryStore::default();
    db.save_with_id("{\"x\":1,\"y\":0}", "foo").unwrap();
    db.save_with_id("{\"y\":2}", "bar").unwrap();
    let all = db.all().unwrap();
    let all_x = keep_decoded(
        all.iter()
            .map(|(k, t)| (k.clone(), field(t, "x").and_then(|x| field(t, "y").map(|_| x))))
            .collect(),
    );
    let all_y = keep_decoded(all.iter().map(|(k, t)| (k.clone(), field(t, "y"))).collect());
    assert_eq!(all_x.iter().find(|(k, _)| k == "foo").unwrap().1, 1);
    assert!(all_x.iter().find(|(k, _)| k == "bar").is_none());
    assert_eq!(all_y.iter().find(|(k, _)| k == "bar").unwrap().1, 2);
}

#[test]
fn memory_store_delete() {
    let mut db = MemoryStore::default();
    let id = db.save("{\"y\":88}", "n88".to_string()).unwrap();
    db.get(&id).unwrap();
    assert_eq!(db.all().unwrap().len(), 1);
    db.delete(&id).unwrap();
    assert_eq!(db.all().unwrap().len(), 0);
    assert!(db.get(&id).is_err());
    assert!(db.delete(&id).is_err());
}

#[test]
fn memory_store_delete_non_existent() {
    let mut db = MemoryStore::default();
    let res = db.delete("blabla");
    assert!(res.is_err());
    assert_eq!(res.err().unwrap().kind(), ErrorKind::NotFound);
}

#[test]
fn memory_store_rejects_text_that_is_not_json() {
    let mut db = MemoryStore::default();
    let res = db.save_with_id("{\"x\":", "foo");
    assert_eq!(res.err().unwrap().kind(), ErrorKind::InvalidData);
    assert_eq!(db.get("foo").err().unwrap().kind(), ErrorKind::NotFound);
}

#[test]
fn memory_store_lists_in_identifier_order() {
    let mut db = MemoryStore::default();
    db.save_with_id("{\"n\":2}", "b").unwrap();
    db.save_with_id("{\"n\":3}", "c").unwrap();
    db.save_with_id("{\"n\":1}", "a").unwrap();
    db.save_with_id("{\"n\":0}", "B").unwrap();
    let ids: Vec<String> = db.all().unwrap().into_iter().map(|(k, _)| k).collect();
    assert_eq!(ids, vec!["B", "a", "b", "c"]);
}

#[test]
fn memory_store_upsert_keeps_count() {
    let mut db = MemoryStore::default();
    db.save_with_id("{\"x\":1}", "id").unwrap();
    db.save_with_id("{\"x\":2}", "other").unwrap();
    db.save_with_id("{\"x\":3}", "id").unwrap();
    let all = db.all().unwrap();
    assert_eq!(all.len(), 2);
    assert_eq!(db.get("id").unwrap(), "{\"x\":3}");
}

#[test]
fn memory_store_distinct_saves_all_present() {
    let mut db = MemoryStore::default();
    for i in 0..20 {
        db.save_with_id(&format!("{{\"x\":{}}}", i), &i.to_string()).unwrap();
    }
    let all = db.all().unwrap();
    assert_eq!(all.len(), 20);
    for (id, text) in all {
        assert_eq!(field(&text, "x").unwrap().to_string(), id);
    }
}

#[test]
fn memory_store_save_returns_the_given_id() {
    let mut db = MemoryStore::default();
    let id = db.save("{}", "drawn".to_string()).unwrap();
    assert_eq!(id, "drawn");
    assert_eq!(db.get("drawn").unwrap(), "{}");
}
