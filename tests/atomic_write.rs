use jfs::atomic_write::{after, start, Next, Step};
use jfs::file_store::FileStore;

#[test]
fn atomic_write_steps_in_order() {
    let mut seen = Vec::new();
    let mut next = start();
    while let Next::Perform(step) = next {
        seen.push(step);
        next = after(step, true);
    }
    assert_eq!(next, Next::Finish { ok: true });
    assert_eq!(
        seen,
        vec![
            Step::OpenTarget,
            Step::LockTarget,
            Step::CreateTemp,
            Step::LockTemp,
            Step::WriteTemp,
            Step::Rename,
            Step::UnlockTemp,
            Step::UnlockTarget,
        ]
    );
}

#[test]
fn atomic_write_failed_write_skips_rename() {
    assert_eq!(after(Step::WriteTemp, false), Next::Finish { ok: false });
    assert_eq!(after(Step::WriteTemp, true), Next::Perform(Step::Rename));
    assert_eq!(after(Step::OpenTarget, false), Next::Finish { ok: false });
}

#[test]
fn file_store_new_uses_default_layout() {
    let db = FileStore::new("data");
    assert_eq!(db.path(), "data");
    assert_eq!(db.id_to_path("abc"), "data/abc.json");
    assert!(!db.config_of().single);
}
