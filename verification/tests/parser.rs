use strauss::parser::php_parser::PhpParser;
use strauss::parser::reference_extractor::{extract_references, references_of};
use strauss::parser::symbol_extractor::{extract_symbols, symbols_of, ExtractedSymbols};
use strauss::types::file_references::FileReferences;

fn parse_and_extract_refs(code: &str) -> FileReferences {
    let mut parser = PhpParser::new().expect("Failed to create parser");
    let tree = parser.parse(code).expect("Failed to parse");
    extract_references(&tree, code)
}

fn parse_and_extract(code: &str) -> ExtractedSymbols {
    let mut parser = PhpParser::new().expect("Failed to create PHP parser");
    let tree = parser.parse(code).expect("Failed to parse PHP code");
    extract_symbols(&tree, code)
}

fn has(v: &[String], x: &str) -> bool {
    v.iter().any(|e| e == x)
}

// ---------------------------------------------------------------------------
// References
// ---------------------------------------------------------------------------

#[test]
fn test_namespace_declaration() {
    let refs = parse_and_extract_refs("<?php\nnamespace Vendor\\Package;");
    assert!(has(&refs.namespace_references, "Vendor\\Package"));
    assert!(has(&refs.namespace_references, "Vendor"));
}

#[test]
fn test_use_statement() {
    let refs = parse_and_extract_refs("<?php\nuse Vendor\\Package\\ClassName;");
    assert!(has(&refs.namespace_references, "Vendor\\Package\\ClassName"));
    assert!(has(&refs.namespace_references, "Vendor\\Package"));
    assert!(has(&refs.namespace_references, "Vendor"));
}

#[test]
fn test_qualified_name_in_code() {
    let refs = parse_and_extract_refs("<?php\n$x = new \\Vendor\\Package\\Foo();");
    assert!(has(&refs.namespace_references, "Vendor\\Package\\Foo"));
    assert!(has(&refs.namespace_references, "Vendor\\Package"));
}

#[test]
fn test_type_hint() {
    let refs = parse_and_extract_refs("<?php\nfunction foo(MyClass $x) {}");
    assert!(has(&refs.identifier_references, "MyClass"));
}

#[test]
fn test_string_with_namespace() {
    let refs = parse_and_extract_refs("<?php\n$c = 'Vendor\\Package\\ClassName';");
    assert!(!refs.string_namespace_references.is_empty());
    assert!(refs.could_reference_namespace("Vendor\\Package"));
}

#[test]
fn test_extends_implements() {
    let refs = parse_and_extract_refs("<?php\nclass Foo extends BaseClass implements MyInterface {}");
    assert!(has(&refs.identifier_references, "BaseClass"));
    assert!(has(&refs.identifier_references, "MyInterface"));
}

#[test]
fn test_static_access() {
    let refs = parse_and_extract_refs("<?php\nMyClass::doSomething();");
    assert!(has(&refs.identifier_references, "MyClass"));
}

#[test]
fn test_function_call() {
    let refs = parse_and_extract_refs("<?php\nmy_function();");
    assert!(has(&refs.identifier_references, "my_function"));
}

#[test]
fn test_catch_block() {
    let refs = parse_and_extract_refs("<?php\ntry {} catch (RuntimeException $e) {}");
    assert!(has(&refs.identifier_references, "RuntimeException"));
}

#[test]
fn flat_tree_gives_the_same_references() {
    let code = "<?php\nuse A\\B\\C;\nnew D();\n";
    let mut parser = PhpParser::new().unwrap();
    let flat = parser.parse_flat(code).unwrap();
    let refs = references_of(&flat);
    assert!(has(&refs.namespace_references, "A\\B"));
    assert!(has(&refs.identifier_references, "D"));
}

// ---------------------------------------------------------------------------
// Symbols
// ---------------------------------------------------------------------------

#[test]
fn test_extract_namespace() {
    let symbols = parse_and_extract("<?php\nnamespace Foo\\Bar;\nclass Baz {}\n");
    assert_eq!(symbols.namespaces.len(), 1);
    assert_eq!(symbols.namespaces[0].name, "Foo\\Bar");
}

#[test]
fn test_extract_abstract_class() {
    let symbols = parse_and_extract("<?php\nabstract class AbstractFoo {}\n");
    assert_eq!(symbols.classes.len(), 1);
    assert!(symbols.classes[0].is_abstract);
}

#[test]
fn test_extract_trait() {
    let symbols = parse_and_extract("<?php\nnamespace MyApp;\ntrait MyTrait {}\n");
    assert_eq!(symbols.traits.len(), 1);
    assert_eq!(symbols.traits[0].name, "MyTrait");
}

#[test]
fn test_extract_define_constant() {
    let symbols = parse_and_extract("<?php\ndefine('MY_CONSTANT', 42);\n");
    assert_eq!(symbols.constants.len(), 1);
    assert_eq!(symbols.constants[0].name, "MY_CONSTANT");
}

#[test]
fn test_methods_not_extracted_as_functions() {
    let symbols = parse_and_extract("<?php\nclass Foo {\n    public function bar() {}\n    private function baz() {}\n}\n");
    assert!(symbols.functions.is_empty(), "Class methods should not be extracted as global functions");
}

#[test]
fn test_no_namespace() {
    let symbols = parse_and_extract("<?php\nclass GlobalClass {}\nfunction global_function() {}\n");
    assert_eq!(symbols.classes.len(), 1);
    assert_eq!(symbols.classes[0].namespace, "\\");
    assert_eq!(symbols.functions.len(), 1);
    assert_eq!(symbols.functions[0].namespace, "\\");
}

#[test]
fn class_and_interface_parents_read() {
    let symbols = parse_and_extract("<?php\nclass A extends B implements C, D {}\ninterface I extends J, K {}\n");
    assert_eq!(symbols.classes.len(), 1);
    assert_eq!(symbols.classes[0].extends.as_deref(), Some("B"));
    assert_eq!(symbols.classes[0].implements, vec!["C".to_string(), "D".to_string()]);
    assert_eq!(symbols.interfaces.len(), 1);
    assert_eq!(symbols.interfaces[0].extends, vec!["J".to_string(), "K".to_string()]);
}

#[test]
fn declarations_in_a_braced_namespace_body_count() {
    let symbols = parse_and_extract("<?php\nnamespace App {\n    class A {\n        function m() {}\n    }\n}\n");
    assert_eq!(symbols.namespaces.len(), 1);
    assert_eq!(symbols.namespaces[0].name, "App");
    assert_eq!(symbols.classes.len(), 1);
    assert_eq!(symbols.classes[0].name, "A");
    assert_eq!(symbols.classes[0].namespace, "App");
    assert!(symbols.functions.is_empty());
}

#[test]
fn define_with_double_quotes_and_other_calls() {
    let symbols = parse_and_extract("<?php\ndefine(\"DQ\", 1);\nother('NOT_A_CONSTANT', 2);\n");
    assert_eq!(symbols.constants.len(), 1);
    assert_eq!(symbols.constants[0].name, "DQ");
}

#[test]
fn symbols_of_flat_tree() {
    let code = "<?php\nfunction f() {}\n";
    let mut parser = PhpParser::new().unwrap();
    let flat = parser.parse_flat(code).unwrap();
    let symbols = symbols_of(&flat);
    assert_eq!(symbols.functions.len(), 1);
    assert_eq!(symbols.functions[0].name, "f");
}

#[test]
fn test_extract_class() {
    let symbols = parse_and_extract("<?php\nnamespace MyApp;\nclass MyClass extends BaseClass implements Foo, Bar {}\n");
    assert_eq!(symbols.classes.len(), 1);
    assert_eq!(symbols.classes[0].name, "MyClass");
    assert_eq!(symbols.classes[0].namespace, "MyApp");
    assert_eq!(symbols.classes[0].extends.as_deref(), Some("BaseClass"));
    assert_eq!(symbols.classes[0].implements, vec!["Foo", "Bar"]);
    assert!(!symbols.classes[0].is_abstract);
}

#[test]
fn test_extract_interface() {
    let symbols = parse_and_extract("<?php\nnamespace MyApp;\ninterface MyInterface extends BaseInterface {}\n");
    assert_eq!(symbols.interfaces.len(), 1);
    assert_eq!(symbols.interfaces[0].name, "MyInterface");
    assert_eq!(symbols.interfaces[0].namespace, "MyApp");
}

#[test]
fn test_extract_function() {
    let symbols = parse_and_extract("<?php\nnamespace MyApp;\nfunction my_function() {}\n");
    assert_eq!(symbols.functions.len(), 1);
    assert_eq!(symbols.functions[0].name, "my_function");
    assert_eq!(symbols.functions[0].namespace, "MyApp");
}

#[test]
fn test_multiple_namespaces() {
    let symbols = parse_and_extract("<?php\nnamespace First;\nclass A {}\n\nnamespace Second;\nclass B {}\n");
    assert_eq!(symbols.namespaces.len(), 2);
    assert_eq!(symbols.classes.len(), 2);
    assert_eq!(symbols.classes[0].namespace, "First");
    assert_eq!(symbols.classes[1].namespace, "Second");
}
