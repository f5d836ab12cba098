pub mod composer_json;
pub mod composer_package;
pub mod strauss_config;
