pub mod change_enumerator;
pub mod mark_symbols;
pub mod autoloaded_files;
pub mod file_copy_scanner;
pub mod licenser;
pub mod include_autoloader;
pub mod cleanup;
pub mod copier;
pub mod replace;
pub mod symbol_scanner;
pub mod file_enumerator;
pub mod dependencies;
pub mod prefixer;

use vstd::prelude::*;
use crate::config::composer_package::ComposerPackage;
use crate::config::strauss_config::StraussConfig;
use crate::parser::php_parser::{php_syntax_of, ParseError, PhpParser, SyntaxTree};
use crate::parser::reference_extractor::{file_refs, references_of};
use crate::parser::symbol_extractor::{extracted_from, symbols_of, ExtractedSymbols};
use crate::pipeline::symbol_scanner::{add_all, add_extracted_symbols, added, scanned_symbols};
use crate::replacer::{prepared_from, Replacer};
use crate::strs::{opt_seq, seqs, trim_end, trim_end_char};
use crate::types::discovered_files::{file_views, DiscoveredFiles};
use crate::types::file::FileView;
use crate::types::symbol::{DiscoveredSymbol, SymbolType, SymbolView};
use crate::types::symbols_collection::{symbol_views, DiscoveredSymbols};

verus! {

/// The namespace symbols a package's PSR-4 prefixes declare: each prefix without
/// its trailing `\`, when something is left.
pub open spec fn psr4_namespace_symbols(package: Seq<char>, prefixes: Seq<Seq<char>>) -> Seq<SymbolView>
    decreases prefixes.len(),
{
    if prefixes.len() == 0 {
        Seq::empty()
    } else {
        let ns = trim_end(prefixes.last(), '\\');
        psr4_namespace_symbols(package, prefixes.drop_last()) + if ns.len() > 0 {
            seq![SymbolView::fresh(SymbolType::Namespace, ns, Seq::empty(), None, Some(package), None, Seq::empty(), false)]
        } else {
            Seq::empty()
        }
    }
}

/// The PSR-4 prefixes of a package, in order.
pub open spec fn psr4_prefixes(p: ComposerPackage) -> Seq<Seq<char>> {
    p.autoload_psr4@.map_values(|e: (String, Vec<String>)| e.0@)
}

/// The namespace symbols the PSR-4 prefixes of the packages declare, package by
/// package.
pub open spec fn psr4_symbols(deps: Seq<ComposerPackage>) -> Seq<SymbolView>
    decreases deps.len(),
{
    if deps.len() == 0 {
        Seq::empty()
    } else {
        psr4_symbols(deps.drop_last()) + psr4_namespace_symbols(deps.last().name@, psr4_prefixes(deps.last()))
    }
}

/// The state of one run: the project, its configuration, and what has been
/// found so far.
pub struct Pipeline {
    working_dir: String,
    config: StraussConfig,
    dependency_tree: Vec<ComposerPackage>,
    discovered_files: DiscoveredFiles,
    discovered_symbols: DiscoveredSymbols,
}

impl Pipeline {
    /// The project directory.
    pub closed spec fn working_dir_view(&self) -> Seq<char> {
        self.working_dir@
    }

    /// The configuration.
    pub closed spec fn config_view(&self) -> StraussConfig {
        self.config
    }

    /// The dependencies found.
    pub closed spec fn dependencies_view(&self) -> Seq<ComposerPackage> {
        self.dependency_tree@
    }

    /// The files found.
    pub closed spec fn files_view(&self) -> Seq<FileView> {
        self.discovered_files@
    }

    /// The symbols found.
    pub closed spec fn symbols_view(&self) -> DiscoveredSymbols {
        self.discovered_symbols
    }

    /// A run for the project directory with its configuration; nothing found yet.
    pub fn new(working_dir: String, config: StraussConfig) -> (r: Self)
        ensures
            r.working_dir_view() == working_dir@,
            r.config_view() == config,
            r.dependencies_view().len() == 0,
            r.files_view().len() == 0,
            forall|t: SymbolType| #[trigger] r.symbols_view().map_of(t) == Map::<Seq<char>, SymbolView>::empty(),
    {
        Pipeline {
            working_dir,
            config,
            dependency_tree: Vec::new(),
            discovered_files: DiscoveredFiles::new(),
            discovered_symbols: DiscoveredSymbols::new(),
        }
    }

    /// The configuration, for changes from the command line.
    pub fn config_mut(&mut self) -> (r: &mut StraussConfig)
        ensures
            *r == old(self).config_view(),
            final(self).config_view() == *final(r),
            final(self).working_dir_view() == old(self).working_dir_view(),
            final(self).dependencies_view() == old(self).dependencies_view(),
            final(self).files_view() == old(self).files_view(),
            final(self).symbols_view() == old(self).symbols_view(),
    {
        &mut self.config
    }

    /// The project directory.
    pub fn working_dir(&self) -> (r: &str)
        ensures
            r@ == self.working_dir_view(),
    {
        self.working_dir.as_str()
    }

    /// The configuration.
    pub fn config(&self) -> (r: &StraussConfig)
        ensures
            *r == self.config_view(),
    {
        &self.config
    }

    /// The dependencies found.
    pub fn dependencies(&self) -> (r: &Vec<ComposerPackage>)
        ensures
            r@ == self.dependencies_view(),
    {
        &self.dependency_tree
    }

    /// The files found.
    pub fn files(&self) -> (r: &DiscoveredFiles)
        ensures
            r@ == self.files_view(),
    {
        &self.discovered_files
    }

    /// The symbols found.
    pub fn symbols(&self) -> (r: &DiscoveredSymbols)
        ensures
            *r == self.symbols_view(),
    {
        &self.discovered_symbols
    }

    /// Records the dependencies found.
    pub fn set_dependencies(&mut self, deps: Vec<ComposerPackage>)
        ensures
            final(self).dependencies_view() == deps@,
            final(self).working_dir_view() == old(self).working_dir_view(),
            final(self).config_view() == old(self).config_view(),
            final(self).files_view() == old(self).files_view(),
            final(self).symbols_view() == old(self).symbols_view(),
    {
        self.dependency_tree = deps;
    }

    /// Records the files found.
    pub fn set_files(&mut self, files: DiscoveredFiles)
        ensures
            final(self).files_view() == files@,
            final(self).working_dir_view() == old(self).working_dir_view(),
            final(self).config_view() == old(self).config_view(),
            final(self).dependencies_view() == old(self).dependencies_view(),
            final(self).symbols_view() == old(self).symbols_view(),
    {
        self.discovered_files = files;
    }

    /// Marks the autoloaded files, then applies the copy and prefix rules (see
    /// [`autoloaded_files::enumerate_autoloaded_files`] and
    /// [`file_copy_scanner::scan_files`]); `symlinks` lists the files that are
    /// symbolic links.
    pub fn apply_file_rules(&mut self, symlinks: &Vec<String>)
        ensures
            final(self).files_view().len() == old(self).files_view().len(),
            forall|i: int| 0 <= i < old(self).files_view().len() ==> #[trigger] final(self).files_view()[i]
                == file_copy_scanner::copy_scanned(
                    autoloaded_files::autoload_marked(old(self).files_view()[i], autoloaded_files::all_rules(old(self).dependencies_view())),
                    seqs(old(self).config_view().exclude_from_copy.packages@),
                    seqs(old(self).config_view().exclude_from_copy.file_patterns@),
                    file_copy_scanner::in_place(old(self).config_view()),
                    old(self).config_view().delete_vendor_files,
                    seqs(symlinks@).contains(old(self).files_view()[i].source_absolute_path),
                ),
            final(self).working_dir_view() == old(self).working_dir_view(),
            final(self).config_view() == old(self).config_view(),
            final(self).dependencies_view() == old(self).dependencies_view(),
            final(self).symbols_view() == old(self).symbols_view(),
    {
        autoloaded_files::enumerate_autoloaded_files(&mut self.discovered_files, self.dependency_tree.as_slice());
        let ghost mid = self.discovered_files@;
        file_copy_scanner::scan_files(&mut self.discovered_files, &self.config, symlinks);
        assert forall|i: int| 0 <= i < old(self).files_view().len() implies #[trigger] self.files_view()[i]
            == file_copy_scanner::copy_scanned(
                autoloaded_files::autoload_marked(old(self).files_view()[i], autoloaded_files::all_rules(old(self).dependencies_view())),
                seqs(old(self).config_view().exclude_from_copy.packages@),
                seqs(old(self).config_view().exclude_from_copy.file_patterns@),
                file_copy_scanner::in_place(old(self).config_view()),
                old(self).config_view().delete_vendor_files,
                seqs(symlinks@).contains(old(self).files_view()[i].source_absolute_path),
            ) by {
            assert(mid[i] == autoloaded_files::autoload_marked(old(self).files_view()[i],
                autoloaded_files::all_rules(old(self).dependencies_view())));
            autoloaded_files::lemma_autoload_keeps_path(old(self).files_view()[i],
                autoloaded_files::all_rules(old(self).dependencies_view()));
        }
    }

    /// Records what the parse tree of the file at `index` holds: the symbols it
    /// declares (see [`symbol_scanner::scanned_symbols`]) are added to the
    /// collection, and the names it mentions are attached to the file.
    pub fn analyze_tree(
        &mut self,
        index: usize,
        tree: &SyntaxTree,
        builtin_classes: &Vec<String>,
        builtin_functions: &Vec<String>,
    )
        requires
            index < old(self).files_view().len(),
            tree.wf(),
        ensures
            exists|ex: ExtractedSymbols| #[trigger] extracted_from(ex, tree.nodes@)
                && (forall|k: SymbolType| #[trigger] final(self).symbols_view().map_of(k) == added(
                    old(self).symbols_view().map_of(k),
                    scanned_symbols(ex, old(self).files_view()[index as int].source_absolute_path,
                        old(self).files_view()[index as int].package_name, seqs(builtin_classes@), seqs(builtin_functions@)),
                    k,
                )),
            final(self).files_view() == old(self).files_view().update(index as int,
                FileView { file_references: Some(file_refs(tree.nodes@)), ..old(self).files_view()[index as int] }),
            final(self).working_dir_view() == old(self).working_dir_view(),
            final(self).config_view() == old(self).config_view(),
            final(self).dependencies_view() == old(self).dependencies_view(),
    {
        let extracted = symbols_of(tree);
        let refs = references_of(tree);
        let mut f = self.discovered_files.get_files()[index].clone_file();
        let source = f.source_absolute_path.clone();
        let package = crate::strs::clone_opt(&f.package_name);
        f.file_references = Some(refs);
        proof {
            assert(f@ == FileView { file_references: Some(file_refs(tree.nodes@)), ..old(self).files_view()[index as int] });
        }
        self.discovered_files.update_at(index, f);
        add_extracted_symbols(&mut self.discovered_symbols, &extracted, source.as_str(), &package,
            builtin_classes, builtin_functions);
    }

    /// Parses the text of the file at `index` once and records what the tree
    /// holds (see [`Pipeline::analyze_tree`]); an error, and nothing changed,
    /// only when no PHP parser can be made.
    pub fn analyze_file(
        &mut self,
        index: usize,
        contents: &str,
        builtin_classes: &Vec<String>,
        builtin_functions: &Vec<String>,
    ) -> (r: Result<(), ParseError>)
        requires
            index < old(self).files_view().len(),
        ensures
            r is Err ==> *final(self) == *old(self),
            r matches Err(e) ==> e == ParseError::Language,
            r is Ok ==> exists|t: SyntaxTree, ex: ExtractedSymbols| #[trigger] t.wf() && #[trigger] extracted_from(ex, t.nodes@)
                && php_syntax_of(t.nodes@, contents@)
                && (forall|k: SymbolType| #[trigger] final(self).symbols_view().map_of(k) == added(
                    old(self).symbols_view().map_of(k),
                    scanned_symbols(ex, old(self).files_view()[index as int].source_absolute_path,
                        old(self).files_view()[index as int].package_name, seqs(builtin_classes@), seqs(builtin_functions@)),
                    k,
                ))
                && final(self).files_view() == old(self).files_view().update(index as int,
                    FileView { file_references: Some(file_refs(t.nodes@)), ..old(self).files_view()[index as int] }),
            final(self).working_dir_view() == old(self).working_dir_view(),
            final(self).config_view() == old(self).config_view(),
            final(self).dependencies_view() == old(self).dependencies_view(),
    {
        let mut parser = match PhpParser::new() {
            Ok(p) => p,
            Err(e) => return Err(e),
        };
        let tree = match parser.parse_flat(contents) {
            Ok(t) => t,
            Err(e) => return Err(e),
        };
        self.analyze_tree(index, &tree, builtin_classes, builtin_functions);
        Ok(())
    }

    /// Adds a namespace symbol for each PSR-4 prefix of the dependencies (see
    /// [`psr4_symbols`]).
    pub fn add_psr4_namespaces(&mut self)
        ensures
            forall|t: SymbolType| #[trigger] final(self).symbols_view().map_of(t)
                == added(old(self).symbols_view().map_of(t), psr4_symbols(old(self).dependencies_view()), t),
            final(self).working_dir_view() == old(self).working_dir_view(),
            final(self).config_view() == old(self).config_view(),
            final(self).dependencies_view() == old(self).dependencies_view(),
            final(self).files_view() == old(self).files_view(),
    {
        let list = psr4_list(&self.dependency_tree);
        add_all(&mut self.discovered_symbols, list);
    }

    /// Marks the symbols to rename and decides their replacements (see
    /// [`mark_symbols::mark_symbols_for_renaming`] and
    /// [`change_enumerator::determine_replacements`]).
    pub fn analyze_symbols(&mut self)
        ensures
            forall|t: SymbolType| #[trigger] final(self).symbols_view().map_of(t) == old(self).symbols_view().map_of(t)
                .map_values(|s: SymbolView| mark_symbols::marked_for_renaming(s,
                    mark_symbols::prefix_exclusions(old(self).config_view()), old(self).files_view()))
                .map_values(|s: SymbolView| change_enumerator::replacement_decided(s,
                    crate::config::strauss_config::pairs_view(old(self).config_view().namespace_replacement_patterns@),
                    change_enumerator::config_prefixes(old(self).config_view()))),
            final(self).working_dir_view() == old(self).working_dir_view(),
            final(self).config_view() == old(self).config_view(),
            final(self).dependencies_view() == old(self).dependencies_view(),
            final(self).files_view() == old(self).files_view(),
    {
        mark_symbols::mark_symbols_for_renaming(&mut self.discovered_symbols, &self.discovered_files, &self.config);
        change_enumerator::determine_replacements(&mut self.discovered_symbols, &self.config);
    }

    /// The replacer for the configured prefixes, prepared from the symbols found.
    pub fn build_replacer(&self) -> (r: Replacer)
        ensures
            r.namespace_prefix_view() == opt_seq(self.config_view().namespace_prefix),
            r.classmap_prefix_view() == opt_seq(self.config_view().classmap_prefix),
            r.constants_prefix_view() == opt_seq(self.config_view().constants_prefix),
            r.excluded_namespaces() == seqs(self.config_view().exclude_from_prefix.namespaces@),
            r.prepared() matches Some(d) && prepared_from(d, self.symbols_view(), r.excluded_namespaces(),
                r.classmap_prefix_view(), r.constants_prefix_view()),
    {
        let mut replacer = Replacer::new(
            crate::strs::clone_opt(&self.config.namespace_prefix),
            crate::strs::clone_opt(&self.config.classmap_prefix),
            crate::strs::clone_opt(&self.config.constants_prefix),
            self.config.get_exclude_namespaces_from_prefixing(),
        );
        replacer.prepare(&self.discovered_symbols);
        replacer
    }
}

/// The namespace symbols the PSR-4 prefixes of the packages declare.
fn psr4_list(deps: &Vec<ComposerPackage>) -> (r: Vec<DiscoveredSymbol>)
    ensures
        symbol_views(r@) == psr4_symbols(deps@),
{
    let mut out: Vec<DiscoveredSymbol> = Vec::new();
    let mut d: usize = 0;
    assert(deps@.take(0) =~= Seq::<ComposerPackage>::empty());
    assert(symbol_views(out@) =~= Seq::<SymbolView>::empty());
    while d < deps.len()
        invariant
            d <= deps@.len(),
            symbol_views(out@) == psr4_symbols(deps@.take(d as int)),
        decreases deps.len() - d,
    {
        assert(deps@.take(d + 1).drop_last() =~= deps@.take(d as int));
        assert(deps@.take(d + 1).last() == deps@[d as int]);
        let p = &deps[d];
        let ghost base = symbol_views(out@);
        let ghost prefixes = psr4_prefixes(*p);
        let mut k: usize = 0;
        assert(prefixes.take(0) =~= Seq::<Seq<char>>::empty());
        assert(symbol_views(out@) =~= base + psr4_namespace_symbols(p.name@, prefixes.take(0)));
        while k < p.autoload_psr4.len()
            invariant
                prefixes == psr4_prefixes(*p),
                k <= prefixes.len(),
                symbol_views(out@) == base + psr4_namespace_symbols(p.name@, prefixes.take(k as int)),
            decreases p.autoload_psr4.len() - k,
        {
            assert(prefixes.take(k + 1).drop_last() =~= prefixes.take(k as int));
            assert(prefixes.take(k + 1).last() == p.autoload_psr4@[k as int].0@);
            let ghost before = out@;
            let ns = trim_end_char(p.autoload_psr4[k].0.as_str(), '\\');
            if !ns.as_str().is_empty() {
                out.push(DiscoveredSymbol::new_namespace(ns, String::new(), Some(p.name.clone())));
                assert(symbol_views(out@) =~= symbol_views(before).push(out@.last()@));
            } else {
                assert(symbol_views(out@) =~= symbol_views(before) + Seq::<SymbolView>::empty());
            }
            k += 1;
        }
        assert(prefixes.take(prefixes.len() as int) =~= prefixes);
        d += 1;
    }
    assert(deps@.take(deps@.len() as int) =~= deps@);
    out
}

/// One step of the transform phase of a run.
#[derive(Debug, Clone, Copy, PartialEq, Eq, Structural)]
pub enum TransformStep {
    /// Copy the files and rewrite their text.
    CopyAndPrefix,
    /// Rewrite the project's own files at the configured call sites.
    UpdateCallSites,
    /// Add license headers.
    AddLicenses,
    /// Delete what the configuration asks to delete.
    Cleanup,
}

/// The transform steps of a run, in order: none on a dry run; otherwise copying,
/// then updating call sites when some are listed, then licenses, then cleanup.
pub open spec fn transform_plan(dry_run: bool, call_sites: Option<Seq<Seq<char>>>) -> Seq<TransformStep> {
    if dry_run {
        Seq::empty()
    } else {
        let update = match call_sites {
            Some(v) => v.len() > 0,
            None => false,
        };
        seq![TransformStep::CopyAndPrefix] + if update {
            seq![TransformStep::UpdateCallSites]
        } else {
            Seq::<TransformStep>::empty()
        } + seq![TransformStep::AddLicenses, TransformStep::Cleanup]
    }
}

/// The transform steps a configuration calls for (see [`transform_plan`]).
pub fn transform_steps(config: &StraussConfig) -> (r: Vec<TransformStep>)
    ensures
        r@ == transform_plan(config.dry_run, opt_seqs_of(config.update_call_sites)),
{
    let mut steps: Vec<TransformStep> = Vec::new();
    if config.dry_run {
        return steps;
    }
    steps.push(TransformStep::CopyAndPrefix);
    let update = match &config.update_call_sites {
        Some(v) => v.len() > 0,
        None => false,
    };
    if update {
        steps.push(TransformStep::UpdateCallSites);
    }
    steps.push(TransformStep::AddLicenses);
    steps.push(TransformStep::Cleanup);
    assert(steps@ =~= transform_plan(config.dry_run, opt_seqs_of(config.update_call_sites)));
    steps
}

/// The strings of an optional list.
pub open spec fn opt_seqs_of(v: Option<Vec<String>>) -> Option<Seq<Seq<char>>> {
    match v {
        Some(l) => Some(seqs(l@)),
        None => None,
    }
}

} // verus!
