pub mod php_parser;
pub mod reference_extractor;
pub mod symbol_extractor;
