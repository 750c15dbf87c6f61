use pfs3::namecache::NameCache;

#[test]
fn name_cache_insert_get_remove() {
    let mut c = NameCache::new();
    let a = String::from("a");
    assert_eq!(c.get(1, &a), None);
    c.insert(1, a.clone(), 100);
    c.insert(2, a.clone(), 200);
    assert_eq!(c.get(1, &a), Some(100));
    assert_eq!(c.get(2, &a), Some(200));
    c.insert(1, a.clone(), 101);
    assert_eq!(c.get(1, &a), Some(101));
    assert_eq!(c.remove(1, &a), Some(101));
    assert_eq!(c.get(1, &a), None);
    assert_eq!(c.remove(1, &a), None);
    assert_eq!(c.get(2, &a), Some(200));
}

#[test]
fn name_cache_is_case_sensitive() {
    let mut c = NameCache::new();
    c.insert(1, String::from("File"), 7);
    assert_eq!(c.get(1, &String::from("file")), None);
    assert_eq!(c.get(1, &String::from("File")), Some(7));
}
