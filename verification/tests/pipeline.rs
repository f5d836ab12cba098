use strauss::config::composer_json::{AutoloadConfig, ComposerJson, ComposerLock, ComposerLockPackage, Psr4Value};
use strauss::config::composer_package::ComposerPackage;
use strauss::config::strauss_config::StraussConfig;
use strauss::parser::symbol_extractor::{ExtractedClass, ExtractedFunction, ExtractedNamespace, ExtractedSymbols};
use strauss::pipeline::dependencies::{locked_package, packages_to_walk, DependencyWalk};
use strauss::pipeline::file_enumerator::enumerated_file_for;
use strauss::pipeline::include_autoloader::autoloader_with_include;
use strauss::pipeline::licenser::{date_from_epoch_seconds, header_for_date, license_to_copy};
use strauss::pipeline::prefixer::{has_php_extension, project_file_update};
use strauss::pipeline::symbol_scanner::{add_extracted_symbols, files_to_scan, scan_file_contents};
use strauss::parser::php_parser::PhpParser;
use strauss::pipeline::replace::{replace_roots, run_replace};
use strauss::pipeline::{transform_steps, Pipeline, TransformStep};
use strauss::replacer::Replacer;
use strauss::types::discovered_files::DiscoveredFiles;
use strauss::types::file::DiscoveredFile;
use strauss::types::symbol::{DiscoveredSymbol, SymbolType};
use strauss::types::symbols_collection::DiscoveredSymbols;

fn s(x: &str) -> String {
    x.to_string()
}

fn package(name: &str, requires: &[&str]) -> ComposerPackage {
    ComposerPackage::from_json_value(name, AutoloadConfig::default(), requires.iter().map(|r| s(r)).collect(), "MIT")
}

// ---------------------------------------------------------------------------
// Dependencies
// ---------------------------------------------------------------------------

#[test]
fn walk_is_depth_first_and_skips_platform_and_known() {
    let mut walk = DependencyWalk::new(&vec![s("a/a"), s("php"), s("b/b")]);
    let first = walk.next_package().unwrap();
    assert_eq!(first, "a/a");
    walk.add_package(first, package("a/a", &["c/c", "ext-json", "b/b"]));
    assert_eq!(walk.next_package().unwrap(), "c/c");
    walk.add_package(s("c/c"), package("c/c", &["a/a"]));
    assert_eq!(walk.next_package().unwrap(), "b/b");
    walk.add_package(s("b/b"), package("b/b", &[]));
    assert_eq!(walk.next_package(), None);
    let names: Vec<String> = walk.into_packages().iter().map(|p| p.name().to_string()).collect();
    assert_eq!(names, vec![s("a/a"), s("c/c"), s("b/b")]);
}

#[test]
fn only_platform_requirements_are_passed_over() {
    let mut walk = DependencyWalk::new(&vec![s("php"), s("ext-mbstring"), s("phpseclib/phpseclib"), s("x/y")]);
    assert_eq!(walk.next_package().unwrap(), "phpseclib/phpseclib");
    walk.add_package(s("phpseclib/phpseclib"), package("phpseclib/phpseclib", &[]));
    assert_eq!(walk.next_package().unwrap(), "x/y");
}

#[test]
fn starting_packages_from_config_or_require() {
    let json = ComposerJson {
        name: Some(s("t/p")),
        require: Some(vec![(s("php"), s(">=8")), (s("dep/one"), s("^1"))]),
        ..Default::default()
    };
    let mut config = StraussConfig::from_composer_json(&json, "/p");
    assert_eq!(packages_to_walk(&config, &json), vec![s("dep/one")]);
    config.set_packages(vec![s("only/this")]);
    assert_eq!(packages_to_walk(&config, &json), vec![s("only/this")]);
    config.set_packages(vec![]);
    assert_eq!(packages_to_walk(&config, &json), vec![s("php"), s("dep/one")]);
}

#[test]
fn locked_package_is_the_last_with_the_name() {
    let entry = |v: &str| ComposerLockPackage {
        name: s("a/b"),
        version: Some(s(v)),
        autoload: None,
        require: None,
        package_type: None,
        license: None,
    };
    let lock = ComposerLock { packages: vec![entry("1"), entry("2")], packages_dev: vec![] };
    assert_eq!(locked_package(&lock, "a/b").unwrap().version.as_deref(), Some("2"));
    assert!(locked_package(&lock, "c/d").is_none());
}

// ---------------------------------------------------------------------------
// Files
// ---------------------------------------------------------------------------

#[test]
fn enumerated_file_paths() {
    let f = enumerated_file_for(
        "/w/vendor/psr/log/src/Logger.php",
        "/w/vendor/",
        "/w/vendor/psr/log",
        "/w/vendor-prefixed/",
        "psr/log",
    );
    assert_eq!(f.vendor_relative_path, "psr/log/src/Logger.php");
    assert_eq!(f.package_relative_path.as_deref(), Some("src/Logger.php"));
    assert_eq!(f.absolute_target_path, "/w/vendor-prefixed/psr/log/src/Logger.php");
    assert!(f.do_copy && f.do_prefix && !f.is_autoloaded);
    assert_eq!(f.package_name.as_deref(), Some("psr/log"));
}

#[test]
fn only_autoloaded_php_files_are_scanned() {
    let mut files = DiscoveredFiles::new();
    let mut a = DiscoveredFile::new(s("/a.php"), s("a.php"));
    a.is_autoloaded = true;
    let mut b = DiscoveredFile::new(s("/b.txt"), s("b.txt"));
    b.is_autoloaded = true;
    let c = DiscoveredFile::new(s("/c.php"), s("c.php"));
    files.add(a);
    files.add(b);
    files.add(c);
    let scanned = files_to_scan(&files);
    assert_eq!(scanned.len(), 1);
    assert_eq!(scanned[0].source_absolute_path, "/a.php");
}

// ---------------------------------------------------------------------------
// Symbols of a file
// ---------------------------------------------------------------------------

#[test]
fn extracted_symbols_recorded() {
    let extracted = ExtractedSymbols {
        namespaces: vec![ExtractedNamespace { name: s("App") }],
        classes: vec![
            ExtractedClass { name: s("A"), namespace: s("App"), extends: None, implements: vec![], is_abstract: false },
            ExtractedClass { name: s("stdClass"), namespace: s(""), extends: None, implements: vec![], is_abstract: false },
        ],
        functions: vec![
            ExtractedFunction { name: s("helper"), namespace: s("App") },
            ExtractedFunction { name: s("strlen"), namespace: s("") },
        ],
        ..Default::default()
    };
    let mut symbols = DiscoveredSymbols::new();
    add_extracted_symbols(&mut symbols, &extracted, "/src/a.php", &Some(s("v/p")), &vec![s("stdClass")], &vec![s("strlen")]);
    assert_eq!(symbols.len(), 3);
    let class = symbols.get_symbol_by_original("App\\A").unwrap();
    assert_eq!(class.symbol_type, SymbolType::Class);
    assert_eq!(class.namespace.as_deref(), Some("App"));
    let function = symbols.get_symbol_by_original("helper").unwrap();
    assert_eq!(function.namespace.as_deref(), Some("App"));
    assert_eq!(function.source_files, vec![s("/src/a.php")]);
    assert!(symbols.get_symbol_by_original("stdClass").is_none());
}

#[test]
fn global_class_is_recorded_by_its_bare_name() {
    let file = DiscoveredFile::new(s("/g.php"), s("g.php"));
    let mut symbols = DiscoveredSymbols::new();
    scan_file_contents(&mut symbols, &file, "<?php\nclass Solo {}\n", &vec![], &vec![]).unwrap();
    let solo = symbols.get_symbol_by_original("Solo").unwrap();
    assert!(solo.is_global_namespace());
    assert_eq!(symbols.len(), 1);
}

// ---------------------------------------------------------------------------
// The run
// ---------------------------------------------------------------------------

fn sample_config() -> StraussConfig {
    let json = ComposerJson {
        name: Some(s("my/plugin")),
        require: Some(vec![(s("v/p"), s("^1"))]),
        ..Default::default()
    };
    StraussConfig::from_composer_json(&json, "/w")
}

#[test]
fn pipeline_analysis_prefixes_namespaces() {
    let mut pipeline = Pipeline::new(s("/w"), sample_config());
    let autoload = AutoloadConfig {
        psr4: vec![(s("Vendor\\Pkg\\"), Psr4Value::Single(s("src/")))],
        ..Default::default()
    };
    let pkg = ComposerPackage::from_json_value("v/p", autoload, vec![], "MIT");
    pipeline.set_dependencies(vec![pkg]);
    let mut files = DiscoveredFiles::new();
    files.add(DiscoveredFile::new_with_dependency(
        s("/w/vendor/v/p/src/A.php"),
        s("v/p/src/A.php"),
        s("v/p"),
        "/w/vendor/v/p",
    ));
    pipeline.set_files(files);
    pipeline.apply_file_rules(&vec![]);
    assert!(pipeline.files().get_files()[0].is_autoloaded);
    pipeline.analyze_file(0, "<?php\nnamespace Vendor\\Pkg;\nclass A {}\n", &vec![], &vec![]).unwrap();
    assert!(pipeline.files().get_files()[0].file_references.is_some());
    pipeline.add_psr4_namespaces();
    pipeline.analyze_symbols();
    let ns = pipeline.symbols().get_namespace_by_name("Vendor\\Pkg").unwrap();
    assert_eq!(ns.get_replacement(), "My\\Plugin\\Vendor\\Pkg");
    let replacer = pipeline.build_replacer();
    let out = replacer
        .replace_in_string("<?php\nuse Vendor\\Pkg\\A;\n", pipeline.symbols())
        .unwrap();
    assert!(out.contains("use My\\Plugin\\Vendor\\Pkg\\A;"));
}

#[test]
fn project_files_rewritten_only_when_changed() {
    let symbols = DiscoveredSymbols::new();
    let mut replacer = Replacer::new(None, None, None, vec![]);
    replacer.prepare(&symbols);
    assert_eq!(project_file_update(&replacer, "<?php echo 1;", &symbols), None);
    assert!(has_php_extension("/a/b.php"));
    assert!(!has_php_extension("/a/b.PHP"));
}

// ---------------------------------------------------------------------------
// Autoloader, licenses
// ---------------------------------------------------------------------------

#[test]
fn autoloader_include_goes_before_last_return_once() {
    let text = "<?php\nreturn 1;\nreturn 2;\n";
    let once = autoloader_with_include(text).unwrap();
    assert!(once.find("vendor-prefixed/autoload.php").unwrap() < once.rfind("return 2;").unwrap());
    assert!(once.find("return 1;").unwrap() < once.find("vendor-prefixed").unwrap());
    assert_eq!(autoloader_with_include(&once), None);
}

#[test]
fn license_names_in_order_of_preference() {
    assert_eq!(license_to_copy(&vec![s("NOTICE"), s("LICENSE.md")]), Some(s("LICENSE.md")));
    assert_eq!(license_to_copy(&vec![s("README")]), None);
}

#[test]
fn header_lists_author_date_and_tool() {
    assert_eq!(
        header_for_date("Me", true, true, "2024-01-02"),
        "/**\n * Modified by Me\n * on 2024-01-02\n * using strauss-rs\n */\n"
    );
    assert_eq!(header_for_date("Me", false, false, "x"), "/**\n * using strauss-rs\n */\n");
}

#[test]
fn epoch_date_uses_thirty_day_months() {
    assert_eq!(date_from_epoch_seconds(0), "1970-01-01");
    assert_eq!(date_from_epoch_seconds(86400 * 31), "1970-02-02");
    assert_eq!(date_from_epoch_seconds(86400 * 365), "1971-01-01");
}

#[test]
fn symbol_rename_decision() {
    let mut symbols = DiscoveredSymbols::new();
    symbols.add(DiscoveredSymbol::new_function(s("helper"), s("/a.php"), None, None));
    let mut config = sample_config();
    config.set_functions_prefix(Some(s("my_")));
    strauss::pipeline::change_enumerator::determine_replacements(&mut symbols, &config);
    assert_eq!(symbols.get_symbol_by_original("helper").unwrap().get_replacement(), "my_helper");
}

#[test]
fn namespace_replacement_pattern_wins_over_prefix() {
    let mut symbols = DiscoveredSymbols::new();
    symbols.add(DiscoveredSymbol::new_namespace(s("Old\\Thing"), s("/a.php"), None));
    symbols.add(DiscoveredSymbol::new_namespace(s("Other"), s("/a.php"), None));
    let mut config = sample_config();
    config.set_namespace_replacement_patterns(vec![(s("^Old\\\\(.*)$"), s("New\\$1"))]);
    strauss::pipeline::change_enumerator::determine_replacements(&mut symbols, &config);
    assert_eq!(symbols.get_namespace_by_name("Old\\Thing").unwrap().get_replacement(), "New\\Thing");
    assert_eq!(symbols.get_namespace_by_name("Other").unwrap().get_replacement(), "My\\Plugin\\Other");
}

#[test]
fn symbols_in_files_matching_an_exclusion_pattern_are_not_renamed() {
    let mut files = DiscoveredFiles::new();
    files.add(DiscoveredFile::new(s("/v/keep.php"), s("keep.php")));
    files.add(DiscoveredFile::new(s("/v/skip.inc.php"), s("skip.inc.php")));
    let mut symbols = DiscoveredSymbols::new();
    symbols.add(DiscoveredSymbol::new_function(s("kept"), s("/v/keep.php"), None, None));
    symbols.add(DiscoveredSymbol::new_function(s("skipped"), s("/v/skip.inc.php"), None, None));
    let mut config = sample_config();
    config.set_exclude_from_prefix(strauss::config::strauss_config::ExcludeConfig {
        packages: vec![],
        namespaces: vec![],
        file_patterns: vec![s("\\.inc\\.php$")],
    });
    strauss::pipeline::mark_symbols::mark_symbols_for_renaming(&mut symbols, &files, &config);
    assert!(symbols.get_symbol_by_original("kept").unwrap().do_rename);
    assert!(!symbols.get_symbol_by_original("skipped").unwrap().do_rename);
}

#[test]
fn functions_renamed_as_whole_words() {
    let mut symbols = DiscoveredSymbols::new();
    let mut f = DiscoveredSymbol::new_function(s("helper"), s("/a.php"), None, None);
    f.set_replacement(s("my_helper"));
    symbols.add(f);
    let mut replacer = Replacer::new(None, None, None, vec![]);
    replacer.prepare(&symbols);
    let out = replacer.replace_in_string("<?php helper(); other_helper();", &symbols).unwrap();
    assert_eq!(out, "<?php my_helper(); other_helper();");
}

#[test]
fn todays_date_has_the_date_shape() {
    let date = strauss::pipeline::licenser::chrono_like_date().unwrap();
    assert_eq!(date.len(), 10);
    assert_eq!(&date[4..5], "-");
    assert_eq!(&date[7..8], "-");
    let header = strauss::pipeline::licenser::modification_header("Me", true, false).unwrap();
    assert!(header.contains(" * on "));
    assert!(!header.contains("Modified by"));
}

#[test]
fn analyzing_a_tree_records_symbols_and_references() {
    let mut pipeline = Pipeline::new(s("/w"), sample_config());
    let mut files = DiscoveredFiles::new();
    files.add(DiscoveredFile::new_with_dependency(
        s("/w/vendor/v/p/src/B.php"),
        s("v/p/src/B.php"),
        s("v/p"),
        "/w/vendor/v/p",
    ));
    pipeline.set_files(files);
    let source = "<?php\nclass Lonely {}\nfunction helper() {}\n";
    let tree = PhpParser::new().unwrap().parse_flat(source).unwrap();
    pipeline.analyze_tree(0, &tree, &vec![], &vec![]);
    assert!(pipeline.files().get_files()[0].file_references.is_some());
    assert_eq!(pipeline.symbols().len(), 2);
    let class = pipeline.symbols().get_symbol_by_original("Lonely").unwrap();
    assert_eq!(class.symbol_type, SymbolType::Class);
    assert_eq!(class.source_files, vec![s("/w/vendor/v/p/src/B.php")]);
}

#[test]
fn class_in_the_root_namespace_takes_the_classmap_prefix() {
    let mut symbols = DiscoveredSymbols::new();
    symbols.add(DiscoveredSymbol::new_class(s("GlobalClass"), s("/a.php"), Some(s("\\")), None, false, None, vec![]));
    symbols.add(DiscoveredSymbol::new_class(s("Vendor\\Inner"), s("/a.php"), Some(s("Vendor")), None, false, None, vec![]));
    let mut config = sample_config();
    config.set_classmap_prefix(s("Pfx_"));
    strauss::pipeline::change_enumerator::determine_replacements(&mut symbols, &config);
    assert_eq!(symbols.get_symbol_by_original("GlobalClass").unwrap().get_replacement(), "Pfx_GlobalClass");
    assert_eq!(symbols.get_symbol_by_original("Vendor\\Inner").unwrap().get_replacement(), "Vendor\\Inner");
}

#[test]
fn replace_command_renames_the_namespace_in_a_file() {
    let contents = "<?php\nnamespace Vendor\\Package;\nuse Vendor\\Package\\Thing;\n$c = \"Vendor\\\\Package\\\\Thing\";\n";
    let out = run_replace(contents, "Vendor\\Package", "MyPrefix\\Vendor\\Package").unwrap();
    assert_eq!(
        out,
        "<?php\nnamespace MyPrefix\\Vendor\\Package;\nuse MyPrefix\\Vendor\\Package\\Thing;\n$c = \"MyPrefix\\\\Vendor\\\\Package\\\\Thing\";\n"
    );
    assert_eq!(run_replace("<?php\necho 1;\n", "Vendor\\Package", "X\\Vendor\\Package").unwrap(), "<?php\necho 1;\n");
}

#[test]
fn replace_command_searches_given_paths_or_the_project() {
    assert_eq!(replace_roots("/w", None), vec![s("/w")]);
    assert_eq!(replace_roots("/w", Some(&[s("src"), s("lib")][..])), vec![s("/w/src"), s("/w/lib")]);
}

#[test]
fn transform_steps_follow_the_configuration() {
    let mut config = sample_config();
    config.set_update_call_sites(Some(vec![]));
    assert_eq!(
        transform_steps(&config),
        vec![TransformStep::CopyAndPrefix, TransformStep::AddLicenses, TransformStep::Cleanup]
    );
    config.set_update_call_sites(Some(vec![s("src")]));
    assert_eq!(
        transform_steps(&config),
        vec![TransformStep::CopyAndPrefix, TransformStep::UpdateCallSites, TransformStep::AddLicenses, TransformStep::Cleanup]
    );
    config.set_dry_run(true);
    assert!(transform_steps(&config).is_empty());
}

#[test]
fn undated_header_needs_no_clock() {
    let header = strauss::pipeline::licenser::modification_header("Me", false, true).unwrap();
    assert_eq!(header, "/**\n * Modified by Me\n * using strauss-rs\n */\n");
}
