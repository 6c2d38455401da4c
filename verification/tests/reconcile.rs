//! Trashed-item reconciliation and direct-move planning on concrete
//! inputs.

use trash::codec::percent_decode;
use trash::direct::{move_failure, plan_direct_move};
use trash::error::Error;
use trash::item::{reconcile_script_items, split_path, trashed_item_for};

#[test]
fn split_plain_path() {
    let (parent, name) = split_path(&b"/home/user/file.txt".to_vec());
    assert_eq!(parent, b"/home/user".to_vec());
    assert_eq!(name, b"file.txt".to_vec());
}

#[test]
fn split_root_level_path() {
    let (parent, name) = split_path(&b"/a".to_vec());
    assert_eq!(parent, b"/".to_vec());
    assert_eq!(name, b"a".to_vec());
}

#[test]
fn record_describes_the_pre_move_identity() {
    let item = trashed_item_for(&b"/home/user/notes".to_vec(), b"/T/notes 2".to_vec(), 42);
    assert_eq!(item.id, b"/T/notes 2".to_vec());
    assert_eq!(item.name, b"notes".to_vec());
    assert_eq!(item.original_parent, b"/home/user".to_vec());
    assert_eq!(item.time_deleted, 42);
}

#[test]
fn script_results_map_back_positionally() {
    let paths = vec![b"/d/x".to_vec(), b"/d/y".to_vec()];
    let reported = Some(vec![b"/T/x".to_vec(), b"/T/y 2".to_vec()]);
    let items = reconcile_script_items(&paths, reported, 5).unwrap();
    assert_eq!(items.len(), 2);
    assert_eq!(items[0].id, b"/T/x".to_vec());
    assert_eq!(items[0].name, b"x".to_vec());
    assert_eq!(items[1].id, b"/T/y 2".to_vec());
    assert_eq!(items[1].name, b"y".to_vec());
    assert_eq!(items[1].original_parent, b"/d".to_vec());
}

#[test]
fn absent_script_results_stay_a_bare_success() {
    let paths = vec![b"/d/x".to_vec()];
    assert!(reconcile_script_items(&paths, None, 5).is_none());
}

#[test]
fn uncorrelatable_script_results_claim_nothing() {
    let paths = vec![b"/d/x".to_vec(), b"/d/y".to_vec()];
    let reported = Some(vec![b"/T/x".to_vec()]);
    assert!(reconcile_script_items(&paths, reported, 5).is_none());
}

#[test]
fn direct_move_plans_destination_and_sidecar() {
    let step = plan_direct_move(&b"/Users/u/.Trash".to_vec(), &b"/tmp/report.pdf".to_vec());
    assert_eq!(step.source, b"/tmp/report.pdf".to_vec());
    assert_eq!(step.destination, b"/Users/u/.Trash/report.pdf".to_vec());
    assert_eq!(percent_decode(&step.sidecar).unwrap(), b"/tmp/report.pdf".to_vec());
}

#[test]
fn sidecar_decodes_to_the_exact_pre_move_path() {
    // a path that is not valid text and holds the escape marker
    let original = b"/v/dir %20/\x80\xffname".to_vec();
    let step = plan_direct_move(&b"/T".to_vec(), &original);
    assert_eq!(step.sidecar, b"/v/dir %2520/%80%FFname".to_vec());
    assert_eq!(percent_decode(&step.sidecar).unwrap(), original);
}

#[test]
fn failed_move_names_its_path() {
    let e = move_failure(&b"/tmp/gone".to_vec(), b"permission denied".to_vec());
    match e {
        Error::Move { path, description } => {
            assert_eq!(path, b"/tmp/gone".to_vec());
            assert_eq!(description, b"permission denied".to_vec());
        },
        _ => panic!("a failed move must be a move error naming its path"),
    }
}
