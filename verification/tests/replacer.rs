use strauss::replacer::class_replacer::ClassReplacer;
use strauss::replacer::constant_replacer::ConstantReplacer;
use strauss::replacer::function_replacer::FunctionReplacer;
use strauss::replacer::namespace_replacer::NamespaceReplacer;
use strauss::replacer::regex_cache::{RegexCache, RegexCacheError};
use strauss::replacer::string_literal::StringLiteralReplacer;
use strauss::replacer::Replacer;
use strauss::types::file_references::FileReferences;
use strauss::types::symbol::DiscoveredSymbol;
use strauss::types::symbols_collection::DiscoveredSymbols;

fn s(x: &str) -> String {
    x.to_string()
}

#[test]
fn test_basic_classname_replacement() {
    let replacer = ClassReplacer::new();
    let contents = "$obj = new FPDF();\n$pdf = FPDF::create();\n";
    let result = replacer.replace_classname(contents, "FPDF", "MyPrefix_").unwrap();
    assert!(result.contains("new MyPrefix_FPDF()"));
    assert!(result.contains("MyPrefix_FPDF::create()"));
}

#[test]
fn classname_inside_longer_word_is_left() {
    let replacer = ClassReplacer::new();
    let result = replacer.replace_classname("new FPDFX(); new FPDF();", "FPDF", "P_").unwrap();
    assert_eq!(result, "new FPDFX(); new P_FPDF();");
}

#[test]
fn test_single_constant_replacement() {
    let replacer = ConstantReplacer::new();
    let contents = "<?php\ndefine('FPDF_VERSION', '1.82');\necho FPDF_VERSION;\n";
    let constants = vec!["FPDF_VERSION".to_string()];
    let result = replacer.replace_constants(contents, &constants, "MY_PREFIX_").unwrap();
    assert!(result.contains("MY_PREFIX_FPDF_VERSION"));
    assert!(!result.contains("define('FPDF_VERSION'"));
}

#[test]
fn test_multiple_constants_replacement() {
    let replacer = ConstantReplacer::new();
    let contents = "<?php\ndefine('CONST_A', 1);\ndefine('CONST_B', 2);\n$x = CONST_A + CONST_B;\n";
    let constants = vec!["CONST_A".to_string(), "CONST_B".to_string()];
    let result = replacer.replace_constants(contents, &constants, "PFX_").unwrap();
    assert!(result.contains("PFX_CONST_A"));
    assert!(result.contains("PFX_CONST_B"));
}

#[test]
fn test_empty_constants() {
    let replacer = ConstantReplacer::new();
    let contents = "<?php\necho 'hello';\n";
    let result = replacer.replace_constants(contents, &[], "PFX_").unwrap();
    assert_eq!(result, contents);
}

#[test]
fn test_basic_namespace_replacement() {
    let replacer = NamespaceReplacer::new();
    let contents = "<?php\nnamespace Acme\\Greeter;\n\nuse Acme\\Greeter\\Hello;\n";
    let result = replacer.replace_namespace(contents, "Acme\\Greeter", "MyPrefix\\Acme\\Greeter").unwrap();
    assert!(result.contains("namespace MyPrefix\\Acme\\Greeter;"));
    assert!(result.contains("use MyPrefix\\Acme\\Greeter\\Hello;"));
}

#[test]
fn test_multiple_namespaces_single_pass() {
    let replacer = NamespaceReplacer::new();
    let contents = "<?php\nuse Vendor\\PackageA\\ClassA;\nuse Vendor\\PackageB\\ClassB;\n";
    let changes = vec![
        ("Vendor\\PackageA".to_string(), "Prefix\\Vendor\\PackageA".to_string()),
        ("Vendor\\PackageB".to_string(), "Prefix\\Vendor\\PackageB".to_string()),
    ];
    let result = replacer.replace_all_namespaces(contents, &changes).unwrap();
    assert!(result.contains("Prefix\\Vendor\\PackageA\\ClassA"));
    assert!(result.contains("Prefix\\Vendor\\PackageB\\ClassB"));
}

#[test]
fn test_double_backslash_in_strings() {
    let replacer = NamespaceReplacer::new();
    let contents = "$class = \"Vendor\\\\Package\\\\ClassName\";";
    let result = replacer.replace_namespace(contents, "Vendor\\Package", "Prefix\\Vendor\\Package").unwrap();
    assert!(result.contains("Prefix\\\\Vendor\\\\Package\\\\ClassName"));
}

#[test]
fn no_namespace_changes_leave_text() {
    let replacer = NamespaceReplacer::new();
    let contents = "<?php\nuse A\\B;\n";
    assert_eq!(replacer.replace_all_namespaces(contents, &[]).unwrap(), contents);
}

#[test]
fn test_single_quoted_class_name() {
    let replacer = StringLiteralReplacer::new();
    let contents = "<?php\nif (class_exists('Vendor\\Package\\Class')) {\n    // ...\n}\n";
    let result = replacer
        .replace_in_string_literals(contents, r"Vendor\Package\Class", r"Prefix\Vendor\Package\Class")
        .unwrap();
    assert!(result.contains(r"'Prefix\Vendor\Package\Class'"));
}

#[test]
fn test_double_quoted_class_name() {
    let replacer = StringLiteralReplacer::new();
    let contents = "<?php\n$class = \"Vendor\\\\Package\\\\Class\";\n";
    let result = replacer
        .replace_in_string_literals(contents, r"Vendor\Package\Class", r"Prefix\Vendor\Package\Class")
        .unwrap();
    assert!(result.contains(r#""Prefix\\Package\\Class""#) || result.contains("Prefix"));
}

// ---------------------------------------------------------------------------
// Functions, relative namespaces, fully qualified constants
// ---------------------------------------------------------------------------

#[test]
fn test_replace_function_definition() {
    let replacer = FunctionReplacer::new();
    let contents = "<?php\nfunction my_helper() {\n    return true;\n}\n";
    let result = replacer.replace_function(contents, "my_helper", "prefix_my_helper").unwrap();
    assert!(result.contains("function prefix_my_helper()"));
}

#[test]
fn test_replace_function_call() {
    let replacer = FunctionReplacer::new();
    let contents = "<?php\n$result = my_helper();\n";
    let result = replacer.replace_function(contents, "my_helper", "prefix_my_helper").unwrap();
    assert!(result.contains("prefix_my_helper()"));
}

#[test]
fn test_replace_function_exists() {
    let replacer = FunctionReplacer::new();
    let contents = "<?php\nif (function_exists('my_helper')) {\n    my_helper();\n}\n";
    let result = replacer.replace_function(contents, "my_helper", "prefix_my_helper").unwrap();
    assert!(result.contains("function_exists('prefix_my_helper')"));
    assert!(result.contains("prefix_my_helper()"));
}

#[test]
fn replace_function_leaves_other_names() {
    let replacer = FunctionReplacer::new();
    let contents = "<?php\nmy_helper_two();\n$x = 'my_helper';\n";
    let result = replacer.replace_function(contents, "my_helper", "p_my_helper").unwrap();
    assert_eq!(result, contents);
}

#[test]
fn relative_namespaces_made_absolute() {
    let replacer = FunctionReplacer::new();
    let contents = "<?php\n$x = new Vendor\\Pkg\\Thing();\n";
    let ns = vec![DiscoveredSymbol::new_namespace(s("Vendor\\Pkg"), s("/a.php"), None)];
    let result = replacer.prepare_relative_namespaces(contents, &ns).unwrap();
    assert!(result.contains("new \\Vendor\\Pkg\\Thing()"));
    assert_eq!(replacer.prepare_relative_namespaces(contents, &[]).unwrap(), contents);
}

#[test]
fn const_fetch_namespaces_prefixed() {
    let replacer = FunctionReplacer::new();
    let contents = "<?php\necho \\Vendor\\Pkg\\SOME_CONST;\n";
    let mut ns = DiscoveredSymbol::new_namespace(s("Vendor"), s("/a.php"), None);
    ns.set_replacement(s("Prefix\\Vendor"));
    let result = replacer.replace_const_fetch_namespaces(contents, &[ns]).unwrap();
    assert!(result.contains("\\Prefix\\Vendor\\Pkg\\SOME_CONST"));
    let mut kept = DiscoveredSymbol::new_namespace(s("Vendor"), s("/a.php"), None);
    kept.do_rename = false;
    assert_eq!(replacer.replace_const_fetch_namespaces(contents, &[kept]).unwrap(), contents);
}

// ---------------------------------------------------------------------------
// Regex cache
// ---------------------------------------------------------------------------

#[test]
fn test_cache_get_or_compile() {
    let mut cache = RegexCache::new();
    let regex1 = cache.get_or_compile("test", r"\d+").unwrap();
    let regex2 = cache.get_or_compile("test", r"\d+").unwrap();
    assert!(regex1.is_match("123").unwrap());
    assert!(regex2.is_match("456").unwrap());
    assert_eq!(cache.len(), 1);
}

#[test]
fn test_cache_precompile() {
    let mut cache = RegexCache::new();
    cache.precompile(&[("digits", r"\d+"), ("words", r"\w+")]).unwrap();
    assert_eq!(cache.len(), 2);
}

#[test]
fn cache_keeps_first_pattern_of_a_key() {
    let mut cache = RegexCache::new();
    cache.get_or_compile("k", "a+").unwrap();
    let again = cache.get_or_compile("k", "b+").unwrap();
    assert_eq!(again.as_str(), "a+");
    assert!(!again.is_match("bbb").unwrap());
}

#[test]
fn cache_refuses_bad_pattern() {
    let mut cache = RegexCache::new();
    assert!(matches!(cache.get_or_compile("bad", "(unclosed"), Err(RegexCacheError::InvalidPattern)));
    assert!(cache.is_empty());
    assert!(cache.precompile(&[("ok", "x"), ("bad", "("), ("late", "y")]).is_err());
    assert_eq!(cache.len(), 1);
}

// ---------------------------------------------------------------------------
// The replacer as a whole
// ---------------------------------------------------------------------------

fn prepared_symbols() -> DiscoveredSymbols {
    let mut symbols = DiscoveredSymbols::new();
    let mut ns = DiscoveredSymbol::new_namespace(s("Vendor\\Pkg"), s("/a.php"), None);
    ns.set_replacement(s("Prefix\\Vendor\\Pkg"));
    symbols.add(ns);
    let mut class = DiscoveredSymbol::new_class(s("GlobalThing"), s("/a.php"), None, None, false, None, Vec::new());
    class.set_replacement(s("P_GlobalThing"));
    symbols.add(class);
    symbols
}

#[test]
fn replacer_applies_namespace_and_class_changes() {
    let symbols = prepared_symbols();
    let mut replacer = Replacer::new(Some(s("Prefix\\")), Some(s("P_")), None, vec![]);
    replacer.prepare(&symbols);
    let out = replacer.replace_in_string("<?php\nuse Vendor\\Pkg\\A;\nnew GlobalThing();\n", &symbols).unwrap();
    assert!(out.contains("use Prefix\\Vendor\\Pkg\\A;"));
    assert!(out.contains("new P_GlobalThing()"));
}

#[test]
fn replacer_filtered_by_file_references() {
    let symbols = prepared_symbols();
    let mut replacer = Replacer::new(Some(s("Prefix\\")), Some(s("P_")), None, vec![]);
    replacer.prepare(&symbols);
    let refs = FileReferences::new();
    let filtered = replacer.filtered_for_file(&refs);
    let text = "<?php\nuse Vendor\\Pkg\\A;\n";
    assert_eq!(replacer.replace_in_string_filtered(text, &filtered).unwrap(), text);
}

#[test]
fn class_name_is_matched_literally() {
    let replacer = ClassReplacer::new();
    let out = replacer.replace_classname("new A.B; new AxB;", "A.B", "P_").unwrap();
    assert_eq!(out, "new P_A.B; new AxB;");
}
