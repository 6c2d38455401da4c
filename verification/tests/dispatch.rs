//! Strategy dispatch and the service-call batch on concrete inputs.

use trash::context::{DeleteMethod, DeletionPlan, PlatformTrashContext, TrashContext,
    TrashContextExtMacos};
use trash::error::Error;
use trash::service::ServiceBatch;

#[test]
fn default_method_is_finder() {
    assert!(matches!(DeleteMethod::new(), DeleteMethod::Finder));
    assert!(matches!(DeleteMethod::default(), DeleteMethod::Finder));
    assert!(matches!(TrashContext::default().delete_method(), DeleteMethod::Finder));
    let _platform = PlatformTrashContext::new();
    let _platform_default = PlatformTrashContext::default();
}

#[test]
fn method_names() {
    assert_eq!(DeleteMethod::Finder.name(), "Finder");
    assert_eq!(DeleteMethod::NsFileManager.name(), "NsFileManager");
    assert_eq!(DeleteMethod::Direct.name(), "Direct");
}

#[test]
fn set_delete_method_is_read_back() {
    let mut ctx = TrashContext::default();
    ctx.set_delete_method(DeleteMethod::NsFileManager);
    assert!(matches!(ctx.delete_method(), DeleteMethod::NsFileManager));
    ctx.set_delete_method(DeleteMethod::Direct);
    assert!(matches!(ctx.delete_method(), DeleteMethod::Direct));
}

#[test]
fn finder_dispatch_builds_the_whole_script() {
    let mut ctx = TrashContext::default();
    ctx.set_delete_method(DeleteMethod::Finder);
    let paths = vec![b"/tmp/a".to_vec(), b"/tmp/b\x80".to_vec()];
    let plan = ctx.delete_all_canonicalized(paths).unwrap();
    match plan {
        DeletionPlan::AutomationScript(script) => {
            let expected: &[u8] = br#"tell application "Finder" to delete { POSIX file "/tmp/a", POSIX file "/tmp/b%80" }"#;
            assert_eq!(script, expected.to_vec());
        },
        _ => panic!("the Finder method must resolve to an automation script"),
    }
}

#[test]
fn direct_dispatch_passes_validated_paths_through() {
    let mut ctx = TrashContext::default();
    ctx.set_delete_method(DeleteMethod::Direct);
    let paths = vec![b"/tmp/a".to_vec(), b"/tmp/b".to_vec()];
    let plan = ctx.delete_all_canonicalized(paths.clone()).unwrap();
    match plan {
        DeletionPlan::DirectMoves(moves) => assert_eq!(moves, paths),
        _ => panic!("the Direct method must resolve to direct moves"),
    }
}

#[test]
fn empty_path_is_rejected_before_any_work() {
    let mut ctx = TrashContext::default();
    for method in [DeleteMethod::Finder, DeleteMethod::NsFileManager, DeleteMethod::Direct] {
        ctx.set_delete_method(method);
        let paths = vec![b"/tmp/a".to_vec(), Vec::new(), b"/tmp/c".to_vec()];
        let e = ctx.delete_all_canonicalized(paths).unwrap_err();
        match e {
            Error::Conversion { path } => assert_eq!(path, Vec::<u8>::new()),
            _ => panic!("an empty path must be a conversion error"),
        }
    }
}

#[test]
fn service_batch_encodes_each_path_in_order() {
    let mut ctx = TrashContext::default();
    ctx.set_delete_method(DeleteMethod::NsFileManager);
    let paths = vec![b"/tmp/plain".to_vec(), b"/tmp/bin\x80".to_vec()];
    let plan = ctx.delete_all_canonicalized(paths).unwrap();
    let batch = match plan {
        DeletionPlan::ServiceCalls(batch) => batch,
        _ => panic!("the NsFileManager method must resolve to service calls"),
    };
    assert!(!batch.is_finished());
    assert_eq!(batch.completed(), 0);
    assert_eq!(batch.next_text().clone(), b"/tmp/plain".to_vec());
}

#[test]
fn three_records_in_input_order() {
    let paths = vec![b"/d/p1".to_vec(), b"/d/p2".to_vec(), b"/d/p3".to_vec()];
    let mut batch = ServiceBatch::new(paths).unwrap();
    // the destination renames the second item to avoid a collision
    let reported =
        [b"/T/p1".to_vec(), b"/T/p2 copy".to_vec(), b"/T/p3".to_vec()];
    let mut n = 0;
    while !batch.is_finished() {
        assert_eq!(batch.next_text().clone(), format!("/d/p{}", n + 1).into_bytes());
        batch.record_success(reported[n].clone(), 1700000000 + n as i64);
        n += 1;
    }
    let items = batch.into_items();
    assert_eq!(items.len(), 3);
    for (i, item) in items.iter().enumerate() {
        assert_eq!(item.id, reported[i]);
        assert_eq!(item.name, format!("p{}", i + 1).into_bytes());
        assert_eq!(item.original_parent, b"/d".to_vec());
        assert_eq!(item.time_deleted, 1700000000 + i as i64);
    }
}

#[test]
fn failure_stops_the_batch_at_the_offending_path() {
    let paths = vec![b"/d/ok1".to_vec(), b"/d/bad".to_vec(), b"/d/never".to_vec()];
    let mut batch = ServiceBatch::new(paths).unwrap();
    // the first call succeeds
    batch.record_success(b"/T/ok1".to_vec(), 7);
    // the second call is rejected by the service
    assert!(!batch.is_finished());
    assert_eq!(batch.next_text().clone(), b"/d/bad".to_vec());
    let e = batch.fail_current(b"no permission".to_vec());
    match e {
        Error::Service { path, description } => {
            assert_eq!(path, b"/d/bad".to_vec());
            assert_eq!(description, b"no permission".to_vec());
        },
        _ => panic!("a rejected call must be a service error naming its path"),
    }
    // exactly the paths before the failure carry a record; the third
    // path was never handed out
    assert_eq!(batch.completed(), 1);
    assert!(!batch.is_finished());
}

#[test]
fn batch_with_invalid_text_name_makes_no_encoding_error() {
    // a name holding one invalid non-text byte goes through the
    // service-call strategy without any encoding error, and the
    // record's name is byte-exact
    let name: &[u8] = b"file.\x80";
    let mut path = b"/d/".to_vec();
    path.extend_from_slice(name);
    let mut batch = ServiceBatch::new(vec![path]).unwrap();
    assert_eq!(batch.next_text().clone(), b"/d/file.%80".to_vec());
    batch.record_success(b"/T/file.\x80".to_vec(), 9);
    let items = batch.into_items();
    assert_eq!(items.len(), 1);
    assert_eq!(items[0].name, name.to_vec());
    assert_eq!(items[0].original_parent, b"/d".to_vec());
}
