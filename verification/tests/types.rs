use strauss::types::discovered_files::DiscoveredFiles;
use strauss::types::file::DiscoveredFile;
use strauss::types::file_references::FileReferences;
use strauss::types::symbol::{DiscoveredSymbol, SymbolType};
use strauss::types::symbols_collection::DiscoveredSymbols;

fn s(x: &str) -> String {
    x.to_string()
}

fn make_file(path: &str) -> DiscoveredFile {
    DiscoveredFile::new(path.to_string(), path.to_string())
}

// ---------------------------------------------------------------------------
// Discovered files
// ---------------------------------------------------------------------------

#[test]
fn test_add_and_get() {
    let mut files = DiscoveredFiles::new();
    files.add(make_file("/project/src/Foo.php"));
    files.add(make_file("/project/src/Bar.php"));

    assert_eq!(files.len(), 2);
    assert!(!files.is_empty());

    let foo = files.get_file("/project/src/Foo.php");
    assert!(foo.is_some());
    assert_eq!(foo.unwrap().vendor_relative_path, "/project/src/Foo.php");

    let missing = files.get_file("/project/src/Missing.php");
    assert!(missing.is_none());
}

#[test]
fn test_overwrite_on_duplicate_key() {
    let mut files = DiscoveredFiles::new();
    let mut file1 = make_file("/project/src/Foo.php");
    file1.do_prefix = false;

    let mut file2 = make_file("/project/src/Foo.php");
    file2.do_prefix = true;

    files.add(file1);
    files.add(file2);

    assert_eq!(files.len(), 1);
    let foo = files.get_file("/project/src/Foo.php").unwrap();
    assert!(foo.do_prefix);
}

#[test]
fn test_get_files_sorted() {
    let mut files = DiscoveredFiles::new();
    files.add(make_file("/z/file.php"));
    files.add(make_file("/a/file.php"));
    files.add(make_file("/m/file.php"));

    let sorted = files.get_files_sorted();
    assert_eq!(sorted.len(), 3);
    assert_eq!(sorted[0].0, "/a/file.php");
    assert_eq!(sorted[1].0, "/m/file.php");
    assert_eq!(sorted[2].0, "/z/file.php");
}

#[test]
fn test_empty() {
    let files = DiscoveredFiles::new();
    assert!(files.is_empty());
    assert_eq!(files.len(), 0);
}

#[test]
fn test_get_file_mut() {
    let mut files = DiscoveredFiles::new();
    files.add(make_file("/project/src/Foo.php"));

    let mut foo = files.get_file("/project/src/Foo.php").unwrap().clone();
    foo.do_prefix = true;
    foo.did_update = true;
    assert!(files.update_file(foo));

    let foo = files.get_file("/project/src/Foo.php").unwrap();
    assert!(foo.do_prefix);
    assert!(foo.did_update);
}

#[test]
fn test_iter() {
    let mut files = DiscoveredFiles::new();
    files.add(make_file("/a.php"));
    files.add(make_file("/b.php"));

    let count = files.iter().count();
    assert_eq!(count, 2);
}

#[test]
fn sort_orders_by_source_path() {
    let mut files = DiscoveredFiles::new();
    files.add(make_file("/b.php"));
    files.add(make_file("/a.php"));
    files.sort();
    assert_eq!(files.get_files()[0].source_absolute_path, "/a.php");
    assert_eq!(files.find("/b.php"), Some(1));
}

// ---------------------------------------------------------------------------
// One file
// ---------------------------------------------------------------------------

#[test]
fn test_new_file() {
    let file = DiscoveredFile::new(s("/project/vendor/autoload.php"), s("vendor/autoload.php"));
    assert!(file.do_copy);
    assert!(!file.do_prefix);
    assert_eq!(file.do_delete, Some(false));
    assert!(!file.did_delete);
    assert!(!file.did_update);
    assert!(!file.is_autoloaded);
    assert!(file.autoloader_types.is_empty());
    assert!(file.package_name.is_none());
    assert!(file.discovered_symbols.is_empty());
}

#[test]
fn test_new_with_dependency() {
    let file = DiscoveredFile::new_with_dependency(
        s("/project/vendor/psr/log/src/LoggerInterface.php"),
        s("psr/log/src/LoggerInterface.php"),
        s("psr/log"),
        "/project/vendor/psr/log",
    );
    assert_eq!(file.package_name.as_deref(), Some("psr/log"));
    assert_eq!(file.do_delete, None);
    assert!(file.has_dependency());
}

#[test]
fn file_test_is_php_file() {
    let php = DiscoveredFile::new(s("/project/src/Foo.php"), s("src/Foo.php"));
    assert!(php.is_php_file());

    let json = DiscoveredFile::new(s("/project/composer.json"), s("composer.json"));
    assert!(!json.is_php_file());

    let upper = DiscoveredFile::new(s("/project/src/Bar.PHP"), s("src/Bar.PHP"));
    assert!(upper.is_php_file());
}

#[test]
fn test_is_files_autoloader_file() {
    let mut file = DiscoveredFile::new(s("/project/vendor/pkg/helpers.php"), s("pkg/helpers.php"));
    assert!(!file.is_files_autoloader_file());

    file.add_autoloader(s("files"));
    assert!(file.is_files_autoloader_file());
}

#[test]
fn test_add_autoloader_dedup() {
    let mut file = DiscoveredFile::new(s("/project/vendor/pkg/Foo.php"), s("pkg/Foo.php"));
    file.add_autoloader(s("psr-4"));
    file.add_autoloader(s("psr-4"));
    file.add_autoloader(s("classmap"));
    assert_eq!(file.autoloader_types.len(), 2);
}

#[test]
fn test_add_discovered_symbol_dedup() {
    let mut file = DiscoveredFile::new(s("/project/vendor/pkg/Foo.php"), s("pkg/Foo.php"));
    file.add_discovered_symbol(s("Vendor\\Foo"));
    file.add_discovered_symbol(s("Vendor\\Foo"));
    assert_eq!(file.discovered_symbols.len(), 1);
}

#[test]
fn test_vendor_relative_path_trimmed() {
    let file = DiscoveredFile::new_with_dependency(
        s("/project/vendor/psr/log/src/Logger.php"),
        s("/psr/log/src/Logger.php"),
        s("psr/log"),
        "/project/vendor/psr/log",
    );
    assert_eq!(file.vendor_relative_path, "psr/log/src/Logger.php");
}

#[test]
fn test_is_do_delete_defaults() {
    let file = DiscoveredFile::new(s("/project/src/Foo.php"), s("src/Foo.php"));
    assert!(!file.is_do_delete());

    let dep_file = DiscoveredFile::new_with_dependency(
        s("/project/vendor/pkg/Foo.php"),
        s("pkg/Foo.php"),
        s("some/package"),
        "/project/vendor/pkg",
    );
    assert!(!dep_file.is_do_delete());
}

// ---------------------------------------------------------------------------
// References
// ---------------------------------------------------------------------------

#[test]
fn test_exact_namespace_match() {
    let mut refs = FileReferences::new();
    refs.insert_namespace(s("Vendor\\Package"));
    assert!(refs.could_reference_namespace("Vendor\\Package"));
    assert!(!refs.could_reference_namespace("Other\\Package"));
}

#[test]
fn test_prefix_namespace_match() {
    let mut refs = FileReferences::new();
    refs.insert_namespace(s("Vendor\\Package\\Sub\\Class"));
    assert!(refs.could_reference_namespace("Vendor\\Package"));
    assert!(refs.could_reference_namespace("Vendor\\Package\\Sub"));
    assert!(!refs.could_reference_namespace("Other"));
}

#[test]
fn test_string_namespace_match() {
    let mut refs = FileReferences::new();
    refs.insert_string(s("Vendor\\\\Package\\\\ClassName"));
    assert!(refs.could_reference_namespace("Vendor\\Package"));
}

#[test]
fn test_identifier_match() {
    let mut refs = FileReferences::new();
    refs.insert_identifier(s("MyClass"));
    assert!(refs.could_reference_identifier("MyClass"));
    assert!(!refs.could_reference_identifier("OtherClass"));
}

#[test]
fn test_add_namespace_with_prefixes() {
    let mut refs = FileReferences::new();
    refs.add_namespace_with_prefixes("A\\B\\C\\D");
    assert!(refs.namespace_references.contains(&s("A\\B\\C\\D")));
    assert!(refs.namespace_references.contains(&s("A\\B\\C")));
    assert!(refs.namespace_references.contains(&s("A\\B")));
    assert!(refs.namespace_references.contains(&s("A")));
}

#[test]
fn test_add_namespace_strips_leading_backslash() {
    let mut refs = FileReferences::new();
    refs.add_namespace_with_prefixes("\\Vendor\\Package");
    assert!(refs.namespace_references.contains(&s("Vendor\\Package")));
    assert!(refs.namespace_references.contains(&s("Vendor")));
}

#[test]
fn added_namespace_and_parents_are_referenced() {
    let mut refs = FileReferences::new();
    refs.add_namespace_with_prefixes("\\A\\B\\C");
    assert!(refs.could_reference_namespace("A\\B\\C"));
    assert!(refs.could_reference_namespace("A\\B"));
    assert!(refs.could_reference_namespace("A"));
    assert!(!refs.could_reference_namespace("B"));
}

#[test]
fn inserting_twice_keeps_one_entry() {
    let mut refs = FileReferences::new();
    refs.insert_identifier(s("X"));
    refs.insert_identifier(s("X"));
    assert_eq!(refs.identifier_references.len(), 1);
}

// ---------------------------------------------------------------------------
// Symbols
// ---------------------------------------------------------------------------

#[test]
fn test_new_namespace() {
    let sym = DiscoveredSymbol::new_namespace(s("Vendor\\Package"), s("/path/to/file.php"), Some(s("vendor/package")));
    assert_eq!(sym.symbol_type, SymbolType::Namespace);
    assert_eq!(sym.original_symbol, "Vendor\\Package");
    assert_eq!(sym.get_replacement(), "Vendor\\Package");
    assert!(sym.do_rename);
}

#[test]
fn test_replacement_logic() {
    let mut sym = DiscoveredSymbol::new_class(s("MyClass"), s("/path/to/file.php"), Some(s("\\")), None, false, None, Vec::new());
    assert_eq!(sym.get_replacement(), "MyClass");

    sym.set_replacement(s("Prefixed_MyClass"));
    assert_eq!(sym.get_replacement(), "Prefixed_MyClass");

    sym.do_rename = false;
    assert_eq!(sym.get_replacement(), "MyClass");
}

#[test]
fn test_local_name() {
    let sym = DiscoveredSymbol::new_class(
        s("Vendor\\Package\\ClassName"),
        s("/path/to/file.php"),
        Some(s("Vendor\\Package")),
        None,
        false,
        None,
        Vec::new(),
    );
    assert_eq!(sym.get_original_local_name(), "ClassName");
}

#[test]
fn test_local_name_no_namespace() {
    let sym = DiscoveredSymbol::new_class(s("SimpleClass"), s("/path/to/file.php"), Some(s("\\")), None, false, None, Vec::new());
    assert_eq!(sym.get_original_local_name(), "SimpleClass");
}

#[test]
fn test_is_global_namespace() {
    let global_sym = DiscoveredSymbol::new_class(s("MyClass"), s("/path/to/file.php"), Some(s("\\")), None, false, None, Vec::new());
    assert!(global_sym.is_global_namespace());

    let namespaced_sym =
        DiscoveredSymbol::new_class(s("Vendor\\MyClass"), s("/path/to/file.php"), Some(s("Vendor")), None, false, None, Vec::new());
    assert!(!namespaced_sym.is_global_namespace());
}

#[test]
fn test_add_source_file_dedup() {
    let mut sym = DiscoveredSymbol::new_function(s("my_function"), s("/path/to/a.php"), None, None);
    sym.add_source_file(s("/path/to/a.php"));
    sym.add_source_file(s("/path/to/b.php"));
    assert_eq!(sym.source_files.len(), 2);
}

#[test]
fn test_symbol_type_display() {
    assert_eq!(SymbolType::Namespace.to_string(), "namespace");
    assert_eq!(SymbolType::Class.to_string(), "class");
    assert_eq!(SymbolType::Interface.to_string(), "interface");
    assert_eq!(SymbolType::Trait.to_string(), "trait");
    assert_eq!(SymbolType::Function.to_string(), "function");
    assert_eq!(SymbolType::Constant.to_string(), "constant");
}

#[test]
fn changed_namespace_detected() {
    let mut sym = DiscoveredSymbol::new_namespace(s("A"), s("/f.php"), None);
    assert!(!sym.is_changed_namespace());
    sym.set_replacement(s("P\\A"));
    assert!(sym.is_changed_namespace());
    assert!(sym.is_namespace());
}

// ---------------------------------------------------------------------------
// Symbol collection
// ---------------------------------------------------------------------------

fn make_namespace(name: &str) -> DiscoveredSymbol {
    DiscoveredSymbol::new_namespace(name.to_string(), "/test.php".to_string(), None)
}

fn make_class(name: &str, namespace: Option<&str>) -> DiscoveredSymbol {
    DiscoveredSymbol::new_class(name.to_string(), "/test.php".to_string(), namespace.map(|s| s.to_string()), None, false, None, Vec::new())
}

#[test]
fn test_add_and_retrieve() {
    let mut symbols = DiscoveredSymbols::new();
    symbols.add(make_namespace("Vendor\\Package"));
    symbols.add(make_class("MyClass", Some("\\")));

    assert_eq!(symbols.get_namespaces().len(), 1);
    assert_eq!(symbols.get_classes().len(), 1);
    assert_eq!(symbols.len(), 2);
}

#[test]
fn test_global_vs_namespaced_classes() {
    let mut symbols = DiscoveredSymbols::new();
    symbols.add(make_class("GlobalClass", Some("\\")));
    symbols.add(make_class("Vendor\\NamespacedClass", Some("Vendor")));

    assert_eq!(symbols.get_classes().len(), 1);
    assert_eq!(symbols.get_classes()[0].original_symbol, "GlobalClass");
    assert_eq!(symbols.get_all_classes().len(), 2);
}

#[test]
fn test_get_symbol_by_original() {
    let mut symbols = DiscoveredSymbols::new();
    symbols.add(make_namespace("Vendor\\Package"));
    symbols.add(make_class("MyClass", Some("\\")));

    let found = symbols.get_symbol_by_original("Vendor\\Package");
    assert!(found.is_some());
    assert_eq!(found.unwrap().symbol_type, SymbolType::Namespace);

    let found = symbols.get_symbol_by_original("MyClass");
    assert!(found.is_some());
    assert_eq!(found.unwrap().symbol_type, SymbolType::Class);

    let not_found = symbols.get_symbol_by_original("DoesNotExist");
    assert!(not_found.is_none());
}

#[test]
fn test_merge_source_files_on_duplicate() {
    let mut symbols = DiscoveredSymbols::new();
    let sym1 = DiscoveredSymbol::new_class(s("MyClass"), s("/file1.php"), Some(s("\\")), None, false, None, Vec::new());
    let sym2 = DiscoveredSymbol::new_class(s("MyClass"), s("/file2.php"), Some(s("\\")), None, false, None, Vec::new());

    symbols.add(sym1);
    symbols.add(sym2);

    assert_eq!(symbols.get_all_classes().len(), 1);
    let class = symbols.get_symbol_by_original("MyClass").unwrap();
    assert_eq!(class.source_files.len(), 2);
    assert!(class.source_files.contains(&"/file1.php".to_string()));
    assert!(class.source_files.contains(&"/file2.php".to_string()));
}

#[test]
fn test_discovered_namespaces_excludes_root() {
    let mut symbols = DiscoveredSymbols::new();
    symbols.add(make_namespace("\\"));
    symbols.add(make_namespace("Vendor\\Package"));
    symbols.add(make_namespace("Vendor"));

    let discovered = symbols.get_discovered_namespaces();
    assert_eq!(discovered.len(), 2);
    assert_eq!(discovered[0].original_symbol, "Vendor");
    assert_eq!(discovered[1].original_symbol, "Vendor\\Package");
}

#[test]
fn test_is_empty() {
    let mut symbols = DiscoveredSymbols::new();
    assert!(symbols.is_empty());

    symbols.add(make_class("Foo", Some("\\")));
    assert!(!symbols.is_empty());
}

#[test]
fn test_all_symbol_types() {
    let mut symbols = DiscoveredSymbols::new();

    symbols.add(make_namespace("NS"));
    symbols.add(make_class("Cls", Some("\\")));
    symbols.add(DiscoveredSymbol::new_interface(s("Iface"), s("/t.php"), Some(s("\\")), None, Vec::new()));
    symbols.add(DiscoveredSymbol::new_trait(s("Tr"), s("/t.php"), Some(s("\\")), None, Vec::new()));
    symbols.add(DiscoveredSymbol::new_function(s("func"), s("/t.php"), None, None));
    symbols.add(DiscoveredSymbol::new_constant(s("CONST_VAL"), s("/t.php"), None, None));

    assert_eq!(symbols.len(), 6);
    assert_eq!(symbols.get_all_symbols().len(), 6);
    assert_eq!(symbols.get_interfaces().len(), 1);
    assert_eq!(symbols.get_traits().len(), 1);
    assert_eq!(symbols.get_functions().len(), 1);
    assert_eq!(symbols.get_constants().len(), 1);
}

#[test]
fn added_symbol_found_with_its_own_sources() {
    let mut symbols = DiscoveredSymbols::new();
    symbols.add(DiscoveredSymbol::new_function(s("f"), s("/a.php"), None, None));
    symbols.add(DiscoveredSymbol::new_function(s("f"), s("/a.php"), None, None));
    let f = symbols.get_symbol_by_original("f").unwrap();
    assert_eq!(f.source_files, vec![s("/a.php")]);
}

#[test]
fn update_symbols_replaces_stored() {
    let mut symbols = DiscoveredSymbols::new();
    symbols.add(make_namespace("A"));
    let mut changed = make_namespace("A");
    changed.set_replacement(s("P\\A"));
    symbols.update_symbols(vec![changed]);
    assert_eq!(symbols.get_namespace_by_name("A").unwrap().get_replacement(), "P\\A");
    assert_eq!(symbols.get_namespace_changes().len(), 1);
}

#[test]
fn sorting_keeps_the_sorted_listing() {
    let mut files = DiscoveredFiles::new();
    files.add(make_file("/z/file.php"));
    files.add(make_file("/a/file.php"));
    files.add(make_file("/m/file.php"));
    files.add(make_file("/a/file.php"));
    let before: Vec<String> = files.get_files_sorted().iter().map(|(k, _)| k.to_string()).collect();
    files.sort();
    let after: Vec<String> = files.get_files_sorted().iter().map(|(k, _)| k.to_string()).collect();
    assert_eq!(before, after);
    assert_eq!(after, vec![s("/a/file.php"), s("/m/file.php"), s("/z/file.php")]);
    let listed: Vec<String> = files.get_files().iter().map(|f| f.source_absolute_path.clone()).collect();
    assert_eq!(listed, after);
}

#[test]
fn files_change_in_place_by_position() {
    let mut files = DiscoveredFiles::new();
    files.add(make_file("/a/file.php"));
    files.add(make_file("/b/file.php"));
    for i in 0..files.len() {
        let mut f = files.get_files()[i].clone();
        f.is_autoloaded = true;
        files.update_at(i, f);
    }
    assert!(files.get_files().iter().all(|f| f.is_autoloaded));
    assert!(!files.update_file(make_file("/c/file.php")));
    assert_eq!(files.len(), 2);
}
