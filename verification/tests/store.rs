use nfs_server::store::Store;

#[test]
fn a_new_store_holds_nothing() {
    let store = Store::new();
    assert_eq!(store.read("hello"), None);
    assert_eq!(store.read(""), None);
}

#[test]
fn read_returns_what_was_written() {
    let mut store = Store::new();
    store.write("hello".to_string(), b"world".to_vec());
    assert_eq!(store.read("hello"), Some(b"world".to_vec()));
}

#[test]
fn read_does_not_change_the_store() {
    let mut store = Store::new();
    store.write("a".to_string(), vec![1, 2, 3]);
    assert_eq!(store.read("a"), Some(vec![1, 2, 3]));
    assert_eq!(store.read("a"), Some(vec![1, 2, 3]));
    assert_eq!(store.read("b"), None);
    assert_eq!(store.read("a"), Some(vec![1, 2, 3]));
}

#[test]
fn write_replaces_the_whole_content() {
    let mut store = Store::new();
    store.write("a".to_string(), b"a long first content".to_vec());
    store.write("a".to_string(), b"short".to_vec());
    assert_eq!(store.read("a"), Some(b"short".to_vec()));
}

#[test]
fn write_leaves_other_names_alone() {
    let mut store = Store::new();
    store.write("a".to_string(), vec![1]);
    store.write("b".to_string(), vec![2]);
    store.write("a".to_string(), vec![3]);
    assert_eq!(store.read("a"), Some(vec![3]));
    assert_eq!(store.read("b"), Some(vec![2]));
}

#[test]
fn an_empty_name_and_an_empty_content_are_entries_too() {
    let mut store = Store::new();
    store.write(String::new(), Vec::new());
    assert_eq!(store.read(""), Some(Vec::new()));
}

#[test]
fn names_differ_by_every_character() {
    let mut store = Store::new();
    store.write("name".to_string(), vec![1]);
    assert_eq!(store.read("Name"), None);
    assert_eq!(store.read("name "), None);
    assert_eq!(store.read("nam"), None);
}
