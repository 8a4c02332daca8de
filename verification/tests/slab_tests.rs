use reactor::{Slab, Token};

#[test]
fn slab_insert_allocates_lowest_free_token() {
    let mut slab: Slab<u32> = Slab::new_starting_at(Token(10), 3);
    assert_eq!(slab.count(), 0);
    assert_eq!(slab.capacity(), 3);
    assert_eq!(slab.insert(100).unwrap(), Token(10));
    assert_eq!(slab.insert(200).unwrap(), Token(11));
    assert_eq!(slab.insert(300).unwrap(), Token(12));
    assert_eq!(slab.count(), 3);
    assert!(slab.contains(Token(10)));
    assert!(slab.contains(Token(12)));
    assert!(!slab.contains(Token(9)));
    assert!(!slab.contains(Token(13)));
    assert_eq!(slab.get(Token(11)), Some(&200));
    assert_eq!(slab.get(Token(13)), None);
}

#[test]
fn slab_full_insert_errors_without_side_effects() {
    let mut slab: Slab<u32> = Slab::new_starting_at(Token(0), 2);
    slab.insert(1).unwrap();
    slab.insert(2).unwrap();
    // The (capacity+1)-th insertion returns the value back and changes nothing.
    assert_eq!(slab.insert(3), Err(3));
    assert_eq!(slab.count(), 2);
    assert_eq!(slab.get(Token(0)), Some(&1));
    assert_eq!(slab.get(Token(1)), Some(&2));
}

#[test]
fn slab_tokens_stable_and_reused_after_remove() {
    let mut slab: Slab<String> = Slab::new_starting_at(Token(5), 3);
    let a = slab.insert("a".to_string()).unwrap();
    let b = slab.insert("b".to_string()).unwrap();
    let c = slab.insert("c".to_string()).unwrap();
    assert_eq!(slab.remove(b), Some("b".to_string()));
    assert_eq!(slab.count(), 2);
    // Tokens of untouched slots stay valid.
    assert_eq!(slab.get(a), Some(&"a".to_string()));
    assert_eq!(slab.get(c), Some(&"c".to_string()));
    // The freed slot is the lowest vacancy, so it is reused.
    let d = slab.insert("d".to_string()).unwrap();
    assert_eq!(d, b);
    assert_eq!(slab.remove(Token(4)), None);
}

#[test]
fn slab_replace_swaps_and_returns_previous_entry() {
    let mut slab: Slab<&'static str> = Slab::new_starting_at(Token(0), 2);
    let t = slab.insert("first").unwrap();
    let prev = slab.replace(t, "second");
    assert_eq!(prev, "first");
    assert_eq!(slab.get(t), Some(&"second"));
    assert_eq!(slab.count(), 1);
    let prev2 = slab.replace(t, "third");
    assert_eq!(prev2, "second");
}

#[test]
fn slab_get_mut_edits_in_place() {
    let mut slab: Slab<u32> = Slab::new_starting_at(Token(0), 2);
    let t = slab.insert(41).unwrap();
    if let Some(v) = slab.get_mut(t) {
        *v += 1;
    } else {
        panic!("slot must be present");
    }
    assert_eq!(slab.get(t), Some(&42));
    assert!(slab.get_mut(Token(1)).is_none());
}
