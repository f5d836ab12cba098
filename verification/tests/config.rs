use std::collections::HashMap;

use strauss::config::composer_json::{
    AutoloadConfig, ComposerConfigSection, ComposerExtra, ComposerJson, ComposerLock, ComposerLockPackage,
    ConfigValue, ExcludeConfigRaw, LicenseValue, MozartConfig, Psr4Value, StraussExtra,
};
use strauss::config::composer_package::ComposerPackage;
use strauss::config::strauss_config::{
    derive_classmap_prefix_from_package_name, derive_namespace_from_package_name, StraussConfig,
};

fn s(x: &str) -> String {
    x.to_string()
}

fn project(require: &[&str]) -> ComposerJson {
    ComposerJson {
        name: Some(s("test/project")),
        require: Some(require.iter().map(|r| (s(r), s("^1.0"))).collect()),
        ..Default::default()
    }
}

fn with_strauss(mut json: ComposerJson, extra: StraussExtra) -> ComposerJson {
    json.extra = Some(ComposerExtra { strauss: Some(extra), mozart: None });
    json
}

fn config_of(json: &ComposerJson) -> StraussConfig {
    StraussConfig::from_composer_json(json, "/tmp/project")
}

// ---------------------------------------------------------------------------
// composer.json values
// ---------------------------------------------------------------------------

#[test]
fn test_parse_minimal_composer_json() {
    let parsed = ComposerJson {
        name: Some(s("vendor/project")),
        require: Some(vec![(s("some/package"), s("^1.0"))]),
        ..Default::default()
    };
    assert_eq!(parsed.name.as_deref(), Some("vendor/project"));
    let names = parsed.require_names();
    assert_eq!(names.len(), 1);
    assert!(names.contains(&String::from("some/package")));
}

#[test]
fn test_parse_autoload_psr4() {
    let autoload = AutoloadConfig {
        psr4: vec![(s("Vendor\\Package\\"), Psr4Value::Single(s("src/")))],
        ..Default::default()
    };
    assert_eq!(autoload.first_psr4_key(), Some("Vendor\\Package\\"));
}

#[test]
fn test_parse_autoload_psr4_multiple_paths() {
    let val = Psr4Value::Multiple(vec![s("src/"), s("lib/")]);
    assert_eq!(val.as_vec().len(), 2);
}

#[test]
fn test_parse_composer_lock() {
    let parsed = ComposerLock {
        packages: vec![ComposerLockPackage {
            name: s("some/package"),
            version: Some(s("1.0.0")),
            autoload: None,
            require: Some(vec![(s("php"), s(">=7.4")), (s("other/dep"), s("^1.0"))]),
            package_type: None,
            license: Some(LicenseValue::Multiple(vec![s("MIT")])),
        }],
        packages_dev: vec![],
    };
    assert_eq!(parsed.packages.len(), 1);
    let pkg = &parsed.packages[0];
    assert_eq!(pkg.name, "some/package");
    assert_eq!(pkg.version.as_deref(), Some("1.0.0"));
    let req_names = pkg.require_names();
    assert_eq!(req_names.len(), 1);
    assert!(req_names.contains(&String::from("other/dep")));
    assert_eq!(pkg.license_string(), "MIT");
}

#[test]
fn test_license_single() {
    assert_eq!(LicenseValue::Single(s("MIT")).as_string(), "MIT");
}

#[test]
fn test_license_array() {
    assert_eq!(LicenseValue::Multiple(vec![s("MIT"), s("Apache-2.0")]).as_string(), "MIT,Apache-2.0");
}

#[test]
fn test_vendor_dir_default() {
    let parsed = ComposerJson { name: Some(s("a/b")), ..Default::default() };
    assert_eq!(parsed.vendor_dir(), "vendor");
}

#[test]
fn test_vendor_dir_custom() {
    let parsed = ComposerJson {
        config: Some(ComposerConfigSection { vendor_dir: Some(s("libs")) }),
        ..Default::default()
    };
    assert_eq!(parsed.vendor_dir(), "libs");
}

#[test]
fn lock_find_package_prefers_packages() {
    let entry = |name: &str, v: &str| ComposerLockPackage {
        name: s(name),
        version: Some(s(v)),
        autoload: None,
        require: None,
        package_type: None,
        license: None,
    };
    let lock = ComposerLock { packages: vec![entry("a/b", "1")], packages_dev: vec![entry("a/b", "2"), entry("c/d", "3")] };
    assert_eq!(lock.find_package("a/b").unwrap().version.as_deref(), Some("1"));
    assert_eq!(lock.find_package("c/d").unwrap().version.as_deref(), Some("3"));
    assert!(lock.find_package("x/y").is_none());
}

// ---------------------------------------------------------------------------
// Packages
// ---------------------------------------------------------------------------

#[test]
fn test_from_lock_entry() {
    let entry = ComposerLockPackage {
        name: s("vendor/package"),
        version: Some(s("1.2.3")),
        autoload: Some(AutoloadConfig {
            psr4: vec![(s("Vendor\\Package\\"), Psr4Value::Single(s("src/")))],
            ..Default::default()
        }),
        require: Some(vec![(s("php"), s(">=7.4")), (s("other/dep"), s("^2.0"))]),
        package_type: Some(s("library")),
        license: None,
    };
    let pkg = ComposerPackage::from_lock_entry(&entry, Some(s("/tmp/vendor/vendor/package")), None);
    assert_eq!(pkg.name(), "vendor/package");
    assert_eq!(pkg.version(), Some("1.2.3"));
    assert_eq!(pkg.relative_path(), Some("vendor/package/".to_string()));
    assert_eq!(pkg.requires_names().len(), 1);
    assert!(pkg.requires_names().contains(&"other/dep".to_string()));
    assert_eq!(pkg.license(), "proprietary?");
    assert!(pkg.is_copy());
    assert!(!pkg.did_copy());
    assert!(!pkg.is_delete());
    assert!(!pkg.did_delete());
}

#[test]
fn test_psr4_namespaces() {
    let autoload = AutoloadConfig {
        psr4: vec![
            (s("Vendor\\Pkg\\"), Psr4Value::Single(s("src/"))),
            (s("Vendor\\Lib\\"), Psr4Value::Multiple(vec![s("lib/"), s("extra/")])),
        ],
        ..Default::default()
    };
    let pkg = ComposerPackage::from_json_value("v/p", autoload, vec![], "MIT");
    let namespaces = pkg.psr4_namespaces();
    assert_eq!(namespaces.len(), 2);
    assert!(namespaces.contains(&"Vendor\\Pkg\\"));
    assert!(namespaces.contains(&"Vendor\\Lib\\"));
}

#[test]
fn test_copy_delete_flags() {
    let pkg_auto = AutoloadConfig::default();
    let mut pkg = ComposerPackage::from_json_value("v/p", pkg_auto, vec![], "MIT");
    assert!(pkg.is_copy());
    assert!(!pkg.did_copy());
    assert!(!pkg.is_delete());
    assert!(!pkg.did_delete());

    pkg.set_copy(false);
    assert!(!pkg.is_copy());

    pkg.set_did_copy(true);
    assert!(pkg.did_copy());

    pkg.set_delete(true);
    assert!(pkg.is_delete());

    pkg.set_did_delete(true);
    assert!(pkg.did_delete());
}

#[test]
fn psr4_paths_list_every_directory() {
    let autoload = AutoloadConfig {
        psr4: vec![(s("Vendor\\Lib\\"), Psr4Value::Multiple(vec![s("lib/"), s("extra/")]))],
        ..Default::default()
    };
    let pkg = ComposerPackage::from_json_value("v/p", autoload, vec![], "MIT");
    assert_eq!(pkg.psr4_paths(), vec![("Vendor\\Lib\\", "lib/"), ("Vendor\\Lib\\", "extra/")]);
}

// ---------------------------------------------------------------------------
// Configuration
// ---------------------------------------------------------------------------

#[test]
fn test_derive_namespace_from_package_name() {
    assert_eq!(derive_namespace_from_package_name("vendor/package"), "Vendor\\Package\\");
    assert_eq!(derive_namespace_from_package_name("brian-henry-ie/my-plugin"), "Brian_Henry_Ie\\My_Plugin\\");
}

#[test]
fn test_derive_classmap_prefix_from_package_name() {
    assert_eq!(derive_classmap_prefix_from_package_name("vendor/package"), "Vendor_Package_");
}

#[test]
fn test_minimal_config() {
    let config = config_of(&project(&["some/dep"]));
    assert_eq!(config.target_directory_name(), "vendor-prefixed");
    assert_eq!(config.vendor_directory_name(), "vendor");
    assert_eq!(config.namespace_prefix(), Some("Test\\Project"));
    assert_eq!(config.classmap_prefix(), Some("Test_Project_"));
    assert_eq!(config.packages(), &["some/dep"]);
    assert!(!config.delete_vendor_files());
    assert!(!config.delete_vendor_packages());
    assert!(config.include_modified_date());
    assert!(config.include_author());
    assert!(!config.dry_run());
    assert!(!config.include_root_autoload());
}

#[test]
fn test_strauss_extra_overrides() {
    let json = with_strauss(
        project(&["some/dep"]),
        StraussExtra {
            target_directory: Some(s("lib-prefixed")),
            namespace_prefix: Some(s("MyPrefix\\")),
            classmap_prefix: Some(s("MyPrefix_")),
            constants_prefix: Some(s("MYPREFIX_")),
            delete_vendor_packages: Some(true),
            include_modified_date: Some(false),
            include_author: Some(false),
            include_root_autoload: Some(true),
            packages: Some(vec![s("some/dep"), s("another/dep")]),
            ..Default::default()
        },
    );
    let config = config_of(&json);
    assert_eq!(config.target_directory_name(), "lib-prefixed");
    assert_eq!(config.namespace_prefix(), Some("MyPrefix"));
    assert_eq!(config.classmap_prefix(), Some("MyPrefix_"));
    assert_eq!(config.constants_prefix(), Some("MYPREFIX_"));
    assert!(config.delete_vendor_packages());
    assert!(!config.include_modified_date());
    assert!(!config.include_author());
    assert!(config.include_root_autoload());
    assert_eq!(config.packages(), &["some/dep", "another/dep"]);
}

#[test]
fn test_mozart_backward_compat() {
    let mut json = project(&["some/dep"]);
    json.extra = Some(ComposerExtra {
        strauss: None,
        mozart: Some(MozartConfig {
            dep_directory: Some(s("mozart-target")),
            dep_namespace: Some(s("MozartNs\\")),
            classmap_prefix: Some(s("MozartCm_")),
            exclude_packages: Some(vec![s("excluded/pkg")]),
            ..Default::default()
        }),
    });
    let config = config_of(&json);
    assert_eq!(config.target_directory_name(), "mozart-target");
    assert_eq!(config.namespace_prefix(), Some("MozartNs"));
    assert_eq!(config.classmap_prefix(), Some("MozartCm_"));
    assert_eq!(config.exclude_packages_from_prefixing(), &["excluded/pkg"]);
    assert!(config.delete_vendor_files());
}

#[test]
fn test_strauss_overrides_mozart() {
    let mut json = project(&["some/dep"]);
    json.extra = Some(ComposerExtra {
        strauss: Some(StraussExtra {
            target_directory: Some(s("strauss-dir")),
            namespace_prefix: Some(s("StraussNs\\")),
            ..Default::default()
        }),
        mozart: Some(MozartConfig {
            dep_directory: Some(s("mozart-dir")),
            dep_namespace: Some(s("MozartNs\\")),
            ..Default::default()
        }),
    });
    let config = config_of(&json);
    assert_eq!(config.target_directory_name(), "strauss-dir");
    assert_eq!(config.namespace_prefix(), Some("StraussNs"));
}

#[test]
fn test_namespace_inferred_from_psr4() {
    let mut json = project(&["dep/one"]);
    json.autoload = Some(AutoloadConfig {
        psr4: vec![(s("Test\\Project\\"), Psr4Value::Single(s("src/")))],
        ..Default::default()
    });
    let config = config_of(&json);
    assert_eq!(config.namespace_prefix(), Some("Test\\Project"));
    assert_eq!(config.classmap_prefix(), Some("Test_Project_"));
}

#[test]
fn test_functions_prefix_not_set_derives_from_classmap() {
    let json = with_strauss(
        project(&["dep/one"]),
        StraussExtra { classmap_prefix: Some(s("MyPrefix_")), ..Default::default() },
    );
    let config = config_of(&json);
    assert_eq!(config.get_functions_prefix(), Some("myprefix_".to_string()));
}

#[test]
fn test_functions_prefix_disabled() {
    let json = with_strauss(
        project(&["dep/one"]),
        StraussExtra { functions_prefix: Some(ConfigValue::Bool(false)), ..Default::default() },
    );
    let config = config_of(&json);
    assert_eq!(config.get_functions_prefix(), None);
}

#[test]
fn test_functions_prefix_explicit_string() {
    let json = with_strauss(
        project(&["dep/one"]),
        StraussExtra { functions_prefix: Some(ConfigValue::Str(s("my_fn_prefix_"))), ..Default::default() },
    );
    let config = config_of(&json);
    assert_eq!(config.get_functions_prefix(), Some("my_fn_prefix_".to_string()));
}

#[test]
fn functions_prefix_set_then_read() {
    let mut config = config_of(&project(&["dep/one"]));
    config.set_functions_prefix(Some(s("fn_")));
    assert_eq!(config.get_functions_prefix(), Some(s("fn_")));
    config.set_functions_prefix(Some(s("")));
    assert_eq!(config.get_functions_prefix(), None);
    config.set_functions_prefix(None);
    assert_eq!(config.get_functions_prefix(), None);
}

#[test]
fn test_update_call_sites_from_string() {
    let mut config = config_of(&project(&["dep/one"]));
    assert_eq!(config.update_call_sites(), Some([].as_slice()));

    config.set_update_call_sites_from_string("true");
    assert_eq!(config.update_call_sites(), None);

    config.set_update_call_sites_from_string("false");
    assert_eq!(config.update_call_sites(), Some([].as_slice()));

    config.set_update_call_sites_from_string("src,includes,lib");
    let paths = config.update_call_sites().unwrap();
    assert_eq!(paths.len(), 3);
    assert_eq!(paths[0], "src");
    assert_eq!(paths[1], "includes");
    assert_eq!(paths[2], "lib");
}

#[test]
fn update_call_sites_from_string_trims_and_drops_empty() {
    let mut config = config_of(&project(&["dep/one"]));
    config.set_update_call_sites_from_string(" src , ,lib ");
    assert_eq!(config.update_call_sites(), Some([s("src"), s("lib")].as_slice()));
}

#[test]
fn test_update_call_sites_json_true() {
    let json = with_strauss(
        project(&["dep/one"]),
        StraussExtra { update_call_sites: Some(ConfigValue::Bool(true)), ..Default::default() },
    );
    assert_eq!(config_of(&json).update_call_sites(), None);
}

#[test]
fn test_update_call_sites_json_false() {
    let json = with_strauss(
        project(&["dep/one"]),
        StraussExtra { update_call_sites: Some(ConfigValue::Bool(false)), ..Default::default() },
    );
    assert_eq!(config_of(&json).update_call_sites(), Some([].as_slice()));
}

#[test]
fn test_update_call_sites_json_array() {
    let json = with_strauss(
        project(&["dep/one"]),
        StraussExtra {
            update_call_sites: Some(ConfigValue::List(vec![Some(s("src/")), Some(s("includes/"))])),
            ..Default::default()
        },
    );
    let config = config_of(&json);
    let paths = config.update_call_sites().unwrap();
    assert_eq!(paths.len(), 2);
    assert_eq!(paths[0], "src/");
    assert_eq!(paths[1], "includes/");
}

#[test]
fn test_exclude_configs() {
    let json = with_strauss(
        project(&["dep/one"]),
        StraussExtra {
            exclude_from_copy: Some(ExcludeConfigRaw {
                packages: Some(vec![s("excluded/copy-pkg")]),
                namespaces: Some(vec![s("Excluded\\CopyNs")]),
                file_patterns: Some(vec![s("/\\.txt$/")]),
            }),
            exclude_from_prefix: Some(ExcludeConfigRaw {
                packages: Some(vec![s("excluded/prefix-pkg")]),
                namespaces: Some(vec![s("Excluded\\PrefixNs\\")]),
                file_patterns: Some(vec![s("/\\.md$/")]),
            }),
            ..Default::default()
        },
    );
    let config = config_of(&json);
    assert_eq!(config.exclude_packages_from_copy(), &["excluded/copy-pkg"]);
    assert_eq!(config.exclude_namespaces_from_copy(), &["Excluded\\CopyNs"]);
    assert_eq!(config.exclude_file_patterns_from_copy(), &["/\\.txt$/"]);
    assert_eq!(config.exclude_packages_from_prefixing(), &["excluded/prefix-pkg"]);
    assert_eq!(config.exclude_namespaces_from_prefixing(), vec!["Excluded\\PrefixNs"]);
    assert_eq!(config.exclude_file_patterns_from_prefixing(), &["/\\.md$/"]);
}

#[test]
fn test_create_aliases() {
    let mut config = config_of(&project(&["dep/one"]));
    assert!(!config.create_aliases());

    config.set_delete_vendor_packages(true);
    assert!(config.create_aliases());

    config.set_delete_vendor_packages(false);
    config.set_delete_vendor_files(true);
    assert!(config.create_aliases());

    config.set_delete_vendor_files(false);
    config.set_target_directory("vendor".to_string());
    assert!(config.create_aliases());
}

#[test]
fn test_classmap_output_auto_detect() {
    let mut json = project(&["dep/one"]);
    json.autoload = Some(AutoloadConfig {
        psr4: vec![(s("Test\\Project\\"), Psr4Value::Single(s("src/")))],
        ..Default::default()
    });
    assert!(config_of(&json).classmap_output());
}

#[test]
fn test_classmap_output_auto_detect_in_autoload() {
    let mut json = project(&["dep/one"]);
    json.autoload = Some(AutoloadConfig { classmap: vec![s("vendor-prefixed/")], ..Default::default() });
    assert!(!config_of(&json).classmap_output());
}

#[test]
fn test_dry_run() {
    let mut config = config_of(&project(&["dep/one"]));
    assert!(!config.dry_run());

    config.set_dry_run(true);
    assert!(config.dry_run());
    assert!(config.project_directory().starts_with("mem:/"));
    assert!(!config.project_directory_raw().starts_with("mem:/"));
}

#[test]
fn test_namespace_replacement_patterns() {
    let json = with_strauss(
        project(&["dep/one"]),
        StraussExtra {
            namespace_replacement_patterns: Some(vec![(
                s("~BrianHenryIE\\\\(.*)~"),
                s("BrianHenryIE\\WC_Cash_App\\\\$1"),
            )]),
            ..Default::default()
        },
    );
    let config = config_of(&json);
    let patterns = config.namespace_replacement_patterns();
    assert_eq!(patterns.len(), 1);
    assert!(patterns.iter().any(|(k, _)| k == "~BrianHenryIE\\\\(.*)~"));
}

#[test]
fn test_custom_vendor_dir() {
    let mut json = project(&["dep/one"]);
    json.config = Some(ComposerConfigSection { vendor_dir: Some(s("libs")) });
    assert_eq!(config_of(&json).vendor_directory_name(), "libs");
}

#[test]
fn test_classmap_prefix_inferred_from_namespace_prefix() {
    let json = ComposerJson {
        require: Some(vec![(s("dep/one"), s("^1.0"))]),
        extra: Some(ComposerExtra {
            strauss: Some(StraussExtra { namespace_prefix: Some(s("MyVendor\\MyPlugin\\")), ..Default::default() }),
            mozart: None,
        }),
        ..Default::default()
    };
    let config = config_of(&json);
    assert_eq!(config.namespace_prefix(), Some("MyVendor\\MyPlugin"));
    assert!(config.classmap_prefix().is_some());
    let cp = config.classmap_prefix().unwrap();
    assert!(cp.contains('_'));
    assert!(cp.ends_with('_'));
}

#[test]
fn project_directory_gets_trailing_slash() {
    let config = StraussConfig::from_composer_json(&project(&["dep/one"]), "/tmp/project");
    assert_eq!(config.project_directory(), "/tmp/project/");
    assert_eq!(config.target_directory(), "/tmp/project/vendor-prefixed/");
}

#[test]
fn override_autoload_kept() {
    let mut overrides = HashMap::new();
    overrides.insert(s("a/b"), serde_json::Value::Null);
    let mut config = config_of(&project(&["dep/one"]));
    config.set_override_autoload(overrides);
    assert!(config.override_autoload().contains_key("a/b"));
}

#[test]
fn classmap_prefix_follows_the_configured_namespace_prefix() {
    let json = ComposerJson {
        name: Some(s("test/project")),
        require: Some(vec![(s("dep/one"), s("^1.0"))]),
        extra: Some(ComposerExtra {
            strauss: Some(StraussExtra { namespace_prefix: Some(s("MyVendor\\MyPlugin\\")), ..Default::default() }),
            mozart: None,
        }),
        ..Default::default()
    };
    let config = config_of(&json);
    assert_eq!(config.namespace_prefix(), Some("MyVendor\\MyPlugin"));
    assert_eq!(config.classmap_prefix(), Some("MyVendor_MyPlugin_"));
}

#[test]
fn repeated_keys_are_listed_once() {
    let autoload = AutoloadConfig {
        psr4: vec![
            (s("Vendor\\Pkg\\"), Psr4Value::Single(s("src/"))),
            (s("Vendor\\Pkg\\"), Psr4Value::Single(s("lib/"))),
            (s("Other\\"), Psr4Value::Single(s("o/"))),
        ],
        ..Default::default()
    };
    let pkg = ComposerPackage::from_json_value("v/p", autoload, vec![], "MIT");
    assert_eq!(pkg.psr4_namespaces(), vec!["Vendor\\Pkg\\", "Other\\"]);
    let json = ComposerJson {
        require: Some(vec![
            (s("php"), s(">=7.4")),
            (s("a/b"), s("^1")),
            (s("ext-json"), s("*")),
            (s("a/b"), s("^2")),
            (s("c/d"), s("^1")),
        ]),
        ..Default::default()
    };
    assert_eq!(json.require_names(), vec![s("a/b"), s("c/d")]);
}
