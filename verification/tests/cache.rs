use roan::module::cache::BasicModuleLoader;

#[test]
fn a_new_loader_has_nothing_cached() {
    let loader: BasicModuleLoader<u32> = BasicModuleLoader::new();
    assert_eq!(loader.get("std"), None);
    assert!(loader.keys().is_empty());
}

#[test]
fn cached_modules_are_found_with_or_without_quotes() {
    let mut loader = BasicModuleLoader::new();
    loader.insert("std".to_string(), 7u32);
    assert_eq!(loader.get("std"), Some(&7));
    assert_eq!(loader.get("\"std\""), Some(&7));
    assert_eq!(loader.get("\"std"), None);
    assert_eq!(loader.get("io"), None);
}

#[test]
fn inserting_again_replaces_the_module() {
    let mut loader = BasicModuleLoader::new();
    loader.insert("/lib/a.roan".to_string(), 1u32);
    loader.insert("/lib/b.roan".to_string(), 2u32);
    loader.insert("/lib/a.roan".to_string(), 3u32);
    assert_eq!(loader.get("/lib/a.roan"), Some(&3));
    assert_eq!(loader.get("/lib/b.roan"), Some(&2));
    let mut keys = loader.keys();
    keys.sort();
    assert_eq!(keys, vec!["/lib/a.roan".to_string(), "/lib/b.roan".to_string()]);
}

#[test]
fn a_name_inserted_with_quotes_is_not_found_by_asking_for_it() {
    let mut loader = BasicModuleLoader::new();
    loader.insert("\"x\"".to_string(), 1u32);
    assert_eq!(loader.get("\"x\""), None);
    assert_eq!(loader.keys(), vec!["\"x\"".to_string()]);
}
