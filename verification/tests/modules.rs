use roan::link::Link;
use roan::module::ident::ModuleIdentifier;
use roan::module::{remove_surrounding_quotes, FsModuleLoader};
use roan::path::remove_prefix;
use std::path::PathBuf;

#[test]
fn parse_identifier_with_parts() {
    let id = ModuleIdentifier::parse_module_identifier("std::io::file").unwrap();
    assert_eq!(id.main_name, "std");
    assert_eq!(id.rest, Some(vec!["io".to_string(), "file".to_string()]));
    assert_eq!(id.file_name_with_separator("/"), "io/file.roan");
    assert_eq!(id.file_name(), format!("io{}file.roan", std::path::MAIN_SEPARATOR));
}

#[test]
fn parse_identifier_without_parts() {
    let id = ModuleIdentifier::parse_module_identifier("std").unwrap();
    assert_eq!(id.main_name, "std");
    assert_eq!(id.rest, None);
    assert_eq!(id.file_name(), "lib.roan");
}

#[test]
fn quotes_are_removed_only_in_pairs() {
    assert_eq!(remove_surrounding_quotes("\"std::io\""), "std::io");
    assert_eq!(remove_surrounding_quotes("\"\""), "");
    assert_eq!(remove_surrounding_quotes("\""), "\"");
    assert_eq!(remove_surrounding_quotes("\"open"), "\"open");
    assert_eq!(remove_surrounding_quotes("plain"), "plain");
    assert_eq!(remove_surrounding_quotes("\"é\""), "é");
}

#[test]
fn verbatim_prefix_is_removed() {
    assert_eq!(remove_prefix("\\\\?\\C:\\roan\\main.roan"), "C:\\roan\\main.roan");
    assert_eq!(remove_prefix("/home/roan/main.roan"), "/home/roan/main.roan");
    assert_eq!(remove_prefix("\\\\?"), "\\\\?");
    assert_eq!(remove_prefix(""), "");
}

#[test]
fn fs_loader_keeps_its_root() {
    let loader = FsModuleLoader::with_canonical_root(PathBuf::from("/srv/roan"));
    assert_eq!(loader.root(), &PathBuf::from("/srv/roan"));
    let copy = loader.clone();
    assert_eq!(copy.root(), loader.root());
}

#[test]
fn link_escape_sequence() {
    let link = Link::new("Roan", "https://roan.dev");
    assert_eq!(link.text, "Roan");
    assert_eq!(link.to_string(), "\u{1b}]8;;https://roan.dev\u{1b}\\Roan\u{1b}]8;;\u{1b}\\");
}
