use tree_fs::{Action, Error, Reply, Tree, TreeBuilder};

fn built(builder: &TreeBuilder) -> Tree {
    let mut machine = builder.create();
    assert_eq!(machine.step(Reply::Start), Action::Exists(builder.root.clone()));
    match machine.step(Reply::Exists(true)) {
        Action::Finish(tree) => tree,
        other => panic!("unexpected {:?}", other),
    }
}

#[test]
fn handle_names_the_root_of_the_builder() {
    let tree = built(&TreeBuilder::new("/tmp/handle"));
    assert_eq!(tree.root, "/tmp/handle");
    assert_eq!(tree.root(), "/tmp/handle");
    assert!(tree.deletes_on_close());
    assert!(!tree.is_closed());
}

#[test]
fn close_asks_for_the_root_once() {
    let mut tree = built(&TreeBuilder::new("/tmp/handle").drop(true));
    assert_eq!(tree.close(), Some("/tmp/handle".to_string()));
    assert!(tree.is_closed());
    assert_eq!(tree.close(), None);
    assert_eq!(tree.close(), None);
    assert!(tree.is_closed());
}

#[test]
fn close_asks_for_nothing_where_the_tree_is_kept() {
    let mut tree = built(&TreeBuilder::new("/tmp/handle").drop(false));
    assert!(!tree.deletes_on_close());
    assert_eq!(tree.close(), None);
    assert!(tree.is_closed());
    assert_eq!(tree.close(), None);
}

#[test]
fn delete_failed_names_the_root() {
    let tree = built(&TreeBuilder::new("/tmp/handle"));
    assert_eq!(
        tree.delete_failed(),
        Error::FailedToDeleteDirectory("/tmp/handle".to_string())
    );
}
