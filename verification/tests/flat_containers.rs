use adblock::flatbuffers::containers::flat_set::FlatSetView;
use adblock::flatbuffers::containers::hash_index::{HashIndexBuilder, HashIndexView};

fn entries(keys: &[String], values: &[u32]) -> Vec<(String, u32)> {
    let mut out: Vec<(String, u32)> = keys
        .iter()
        .zip(values.iter())
        .filter(|(k, _)| !k.is_empty())
        .map(|(k, v)| (k.clone(), *v))
        .collect();
    out.sort();
    out
}

#[test]
fn builder_grows_past_half_full() {
    let mut b: HashIndexBuilder<u32> = HashIndexBuilder::new_with_capacity(4);
    b.insert("a".to_string(), 1, false);
    b.insert("b".to_string(), 2, false);
    let (keys, values) = HashIndexBuilder::consume(b);
    assert_eq!(keys.len(), 4);
    assert_eq!(entries(&keys, &values), vec![("a".to_string(), 1), ("b".to_string(), 2)]);

    let mut b: HashIndexBuilder<u32> = HashIndexBuilder::new_with_capacity(4);
    b.insert("a".to_string(), 1, false);
    b.insert("b".to_string(), 2, false);
    b.insert("c".to_string(), 3, false);
    let (keys, values) = HashIndexBuilder::consume(b);
    assert_eq!(keys.len(), 8);
    assert_eq!(
        entries(&keys, &values),
        vec![("a".to_string(), 1), ("b".to_string(), 2), ("c".to_string(), 3)]
    );
}

#[test]
fn builder_replaces_or_duplicates() {
    let mut b: HashIndexBuilder<u32> = HashIndexBuilder::default();
    let (_, v) = b.insert("k".to_string(), 1, false);
    assert_eq!(*v, 1);
    b.insert("k".to_string(), 2, false);
    let (keys, values) = HashIndexBuilder::consume(b);
    assert_eq!(entries(&keys, &values), vec![("k".to_string(), 2)]);

    let mut b: HashIndexBuilder<u32> = HashIndexBuilder::default();
    b.insert("k".to_string(), 1, true);
    b.insert("k".to_string(), 2, true);
    let (keys, values) = HashIndexBuilder::consume(b);
    assert_eq!(entries(&keys, &values), vec![("k".to_string(), 1), ("k".to_string(), 2)]);
}

#[test]
fn get_or_insert_keeps_existing_value() {
    let mut b: HashIndexBuilder<u32> = HashIndexBuilder::new_with_capacity(8);
    assert_eq!(*b.get_or_insert("x".to_string(), 5), 5);
    let v = b.get_or_insert("x".to_string(), 9);
    assert_eq!(*v, 5);
    *v += 1;
    let (keys, values) = HashIndexBuilder::consume(b);
    assert_eq!(entries(&keys, &values), vec![("x".to_string(), 6)]);
}

#[test]
fn view_finds_what_was_inserted() {
    let mut b: HashIndexBuilder<u32> = HashIndexBuilder::new_with_capacity(4);
    let words = ["one", "two", "three", "four", "five", "six", "seven"];
    for (i, w) in words.iter().enumerate() {
        b.insert(w.to_string(), i as u32, false);
    }
    let (keys, values) = HashIndexBuilder::consume(b);
    assert_eq!(keys.len(), 16);
    let view = HashIndexView::new(keys, values);
    for (i, w) in words.iter().enumerate() {
        assert_eq!(view.get_single(w), Some(i as u32));
    }
    assert_eq!(view.get_single("eight"), None);
    assert_eq!(view.get_single(""), None);
}

#[test]
fn flat_set_membership() {
    let set = FlatSetView::new(vec![1, 3, 3, 7, 10]);
    assert_eq!(set.len(), 5);
    assert!(!set.is_empty());
    assert!(set.contains(1));
    assert!(set.contains(3));
    assert!(set.contains(10));
    assert!(!set.contains(0));
    assert!(!set.contains(4));
    assert!(!set.contains(11));
    assert!(FlatSetView::new(vec![]).is_empty());
    assert!(!FlatSetView::new(vec![]).contains(0));
}
