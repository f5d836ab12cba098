//! Recording the symbols a PHP file declares in the collection of discovered
//! symbols.

use vstd::prelude::*;
use crate::parser::php_parser::{php_syntax_of, ParseError, PhpParser, SyntaxTree};
use crate::parser::symbol_extractor::{
    class_specs, constant_specs, extracted_from, function_specs, interface_specs, namespace_specs, symbols_of,
    trait_specs, ClassSpec, ExtractedSymbols, InterfaceSpec, NamedSpec,
};
use crate::strs::{clone_opt, concat3, opt_seq, seqs, str_eq, to_owned, vec_contains_str};
use crate::types::file::DiscoveredFile;
use crate::types::discovered_files::DiscoveredFiles;
use crate::types::symbol::{DiscoveredSymbol, SymbolType, SymbolView};
use crate::types::symbols_collection::{DiscoveredSymbols, added_one, symbol_views};
use crate::helpers::filesystem::is_php_path;

verus! {

/// A name in its namespace: `namespace\name`, or the bare name in the global
/// namespace (empty or `\`).
pub open spec fn qualified(ns: Seq<char>, name: Seq<char>) -> Seq<char> {
    if ns.len() == 0 || ns == seq!['\\'] {
        name
    } else {
        ns + "\\"@ + name
    }
}

/// The namespace a symbol records: none when it is empty.
pub open spec fn recorded_namespace(ns: Seq<char>) -> Option<Seq<char>> {
    if ns.len() == 0 {
        None
    } else {
        Some(ns)
    }
}

/// The namespace symbols of a file: one per declared namespace that is not a
/// built-in class name.
pub open spec fn namespace_symbols(names: Seq<Seq<char>>, src: Seq<char>, pkg: Option<Seq<char>>, builtin_classes: Seq<Seq<char>>) -> Seq<SymbolView>
    decreases names.len(),
{
    if names.len() == 0 {
        Seq::empty()
    } else {
        let n = names.last();
        namespace_symbols(names.drop_last(), src, pkg, builtin_classes) + if builtin_classes.contains(n) {
            Seq::empty()
        } else {
            seq![SymbolView::fresh(SymbolType::Namespace, n, src, None, pkg, None, Seq::empty(), false)]
        }
    }
}

/// The class symbols of a file, built-in class names left out.
pub open spec fn class_symbols(cs: Seq<ClassSpec>, src: Seq<char>, pkg: Option<Seq<char>>, builtin_classes: Seq<Seq<char>>) -> Seq<SymbolView>
    decreases cs.len(),
{
    if cs.len() == 0 {
        Seq::empty()
    } else {
        let (name, ns, extends, implements, is_abstract) = cs.last();
        class_symbols(cs.drop_last(), src, pkg, builtin_classes) + if builtin_classes.contains(name) {
            Seq::empty()
        } else {
            seq![SymbolView::fresh(SymbolType::Class, qualified(ns, name), src, recorded_namespace(ns), pkg, extends,
                implements, is_abstract)]
        }
    }
}

/// The interface symbols of a file, built-in class names left out.
pub open spec fn interface_symbols(is: Seq<InterfaceSpec>, src: Seq<char>, pkg: Option<Seq<char>>, builtin_classes: Seq<Seq<char>>) -> Seq<SymbolView>
    decreases is.len(),
{
    if is.len() == 0 {
        Seq::empty()
    } else {
        let (name, ns, extends) = is.last();
        interface_symbols(is.drop_last(), src, pkg, builtin_classes) + if builtin_classes.contains(name) {
            Seq::empty()
        } else {
            seq![SymbolView::fresh(SymbolType::Interface, qualified(ns, name), src, recorded_namespace(ns), pkg, None,
                extends, false)]
        }
    }
}

/// The symbols of one kind named in their namespace (traits).
pub open spec fn trait_symbols(ts: Seq<NamedSpec>, src: Seq<char>, pkg: Option<Seq<char>>) -> Seq<SymbolView>
    decreases ts.len(),
{
    if ts.len() == 0 {
        Seq::empty()
    } else {
        let (name, ns) = ts.last();
        trait_symbols(ts.drop_last(), src, pkg) + seq![SymbolView::fresh(SymbolType::Trait, qualified(ns, name), src,
            recorded_namespace(ns), pkg, None, Seq::empty(), false)]
    }
}

/// The function symbols of a file, under their bare names, built-in function
/// names left out.
pub open spec fn function_symbols(fs: Seq<NamedSpec>, src: Seq<char>, pkg: Option<Seq<char>>, builtin_functions: Seq<Seq<char>>) -> Seq<SymbolView>
    decreases fs.len(),
{
    if fs.len() == 0 {
        Seq::empty()
    } else {
        let (name, ns) = fs.last();
        function_symbols(fs.drop_last(), src, pkg, builtin_functions) + if builtin_functions.contains(name) {
            Seq::empty()
        } else {
            seq![SymbolView::fresh(SymbolType::Function, name, src, recorded_namespace(ns), pkg, None, Seq::empty(), false)]
        }
    }
}

/// The constant symbols of a file, under their bare names.
pub open spec fn constant_symbols(cs: Seq<NamedSpec>, src: Seq<char>, pkg: Option<Seq<char>>) -> Seq<SymbolView>
    decreases cs.len(),
{
    if cs.len() == 0 {
        Seq::empty()
    } else {
        let (name, ns) = cs.last();
        constant_symbols(cs.drop_last(), src, pkg) + seq![SymbolView::fresh(SymbolType::Constant, name, src,
            recorded_namespace(ns), pkg, None, Seq::empty(), false)]
    }
}

/// Every symbol a file contributes, in the order in which it is recorded:
/// namespaces, classes, interfaces, traits, functions, constants.
pub open spec fn scanned_symbols(
    ex: ExtractedSymbols,
    src: Seq<char>,
    pkg: Option<Seq<char>>,
    builtin_classes: Seq<Seq<char>>,
    builtin_functions: Seq<Seq<char>>,
) -> Seq<SymbolView> {
    namespace_symbols(namespace_specs(ex.namespaces@), src, pkg, builtin_classes)
        + class_symbols(class_specs(ex.classes@), src, pkg, builtin_classes)
        + interface_symbols(interface_specs(ex.interfaces@), src, pkg, builtin_classes)
        + trait_symbols(trait_specs(ex.traits@), src, pkg)
        + function_symbols(function_specs(ex.functions@), src, pkg, builtin_functions)
        + constant_symbols(constant_specs(ex.constants@), src, pkg)
}

/// The map `m` of kind `t` after adding, in order, those of `syms` that are of
/// kind `t`: a new name is stored, a known one gains the source files.
pub open spec fn added(m: Map<Seq<char>, SymbolView>, syms: Seq<SymbolView>, t: SymbolType) -> Map<Seq<char>, SymbolView>
    decreases syms.len(),
{
    if syms.len() == 0 {
        m
    } else {
        added_one(added(m, syms.drop_last(), t), syms.last(), t)
    }
}

/// Adds the symbols one after the other.
pub fn add_all(symbols: &mut DiscoveredSymbols, list: Vec<DiscoveredSymbol>)
    ensures
        forall|t: SymbolType| #[trigger] final(symbols).map_of(t) == added(old(symbols).map_of(t), symbol_views(list@), t),
{
    let ghost vs = symbol_views(list@);
    let mut i: usize = 0;
    assert(vs.take(0) =~= Seq::<SymbolView>::empty());
    while i < list.len()
        invariant
            vs == symbol_views(list@),
            i <= list@.len(),
            forall|t: SymbolType| #[trigger] symbols.map_of(t) == added(old(symbols).map_of(t), vs.take(i as int), t),
        decreases list.len() - i,
    {
        let s = list[i].clone_symbol();
        symbols.add(s);
        proof {
            assert(vs.take(i + 1).drop_last() =~= vs.take(i as int));
            assert(vs.take(i + 1).last() == list@[i as int]@);
        }
        i += 1;
    }
    assert(vs.take(list.len() as int) =~= vs);
}

/// `namespace\name`, or the bare name in the global namespace.
fn qualify(ns: &String, name: &String) -> (r: String)
    ensures
        r@ == qualified(ns@, name@),
{
    proof {
        reveal_strlit("\\");
        assert("\\"@ =~= seq!['\\']);
    }
    if ns.as_str().is_empty() || str_eq(ns.as_str(), "\\") {
        name.clone()
    } else {
        concat3(ns.as_str(), "\\", name.as_str())
    }
}

/// The namespace recorded for a symbol.
fn record_namespace(ns: &String) -> (r: Option<String>)
    ensures
        opt_seq(r) == recorded_namespace(ns@),
{
    if ns.as_str().is_empty() {
        None
    } else {
        Some(ns.clone())
    }
}

/// The symbols a file contributes (see [`scanned_symbols`]).
pub fn scanned_list(
    extracted: &ExtractedSymbols,
    source_path: &str,
    package_name: &Option<String>,
    builtin_classes: &Vec<String>,
    builtin_functions: &Vec<String>,
) -> (r: Vec<DiscoveredSymbol>)
    ensures
        symbol_views(r@) == scanned_symbols(*extracted, source_path@, opt_seq(*package_name), seqs(builtin_classes@),
            seqs(builtin_functions@)),
{
    let ghost src = source_path@;
    let ghost pkg = opt_seq(*package_name);
    let ghost bc = seqs(builtin_classes@);
    let ghost bf = seqs(builtin_functions@);
    let mut out: Vec<DiscoveredSymbol> = Vec::new();

    let ghost ns = namespace_specs(extracted.namespaces@);
    let mut k: usize = 0;
    assert(ns.take(0) =~= Seq::<Seq<char>>::empty());
    assert(symbol_views(out@) =~= Seq::<SymbolView>::empty());
    while k < extracted.namespaces.len()
        invariant
            src == source_path@,
            pkg == opt_seq(*package_name),
            bc == seqs(builtin_classes@),
            bf == seqs(builtin_functions@),
            ns == namespace_specs(extracted.namespaces@),
            k <= ns.len(),
            symbol_views(out@) == namespace_symbols(ns.take(k as int), src, pkg, bc),
        decreases extracted.namespaces.len() - k,
    {
        let ghost before = out@;
        assert(ns.take(k + 1).drop_last() =~= ns.take(k as int));
        assert(ns.take(k + 1).last() == extracted.namespaces@[k as int].name@);
        let n = &extracted.namespaces[k].name;
        if !vec_contains_str(builtin_classes, n.as_str()) {
            out.push(DiscoveredSymbol::new_namespace(n.clone(), to_owned(source_path), clone_opt(package_name)));
            assert(symbol_views(out@) =~= symbol_views(before).push(out@.last()@));
        } else {
            assert(symbol_views(out@) =~= symbol_views(before) + Seq::<SymbolView>::empty());
        }
        k += 1;
    }
    assert(ns.take(ns.len() as int) =~= ns);
    let ghost after_ns = symbol_views(out@);

    let ghost cs = class_specs(extracted.classes@);
    let mut k: usize = 0;
    assert(cs.take(0) =~= Seq::<ClassSpec>::empty());
    assert(symbol_views(out@) =~= after_ns + class_symbols(cs.take(0), src, pkg, bc));
    while k < extracted.classes.len()
        invariant
            src == source_path@,
            pkg == opt_seq(*package_name),
            bc == seqs(builtin_classes@),
            bf == seqs(builtin_functions@),
            cs == class_specs(extracted.classes@),
            k <= cs.len(),
            symbol_views(out@) == after_ns + class_symbols(cs.take(k as int), src, pkg, bc),
        decreases extracted.classes.len() - k,
    {
        let ghost before = out@;
        assert(cs.take(k + 1).drop_last() =~= cs.take(k as int));
        assert(cs.take(k + 1).last() == cs[k as int]);
        let c = &extracted.classes[k];
        if !vec_contains_str(builtin_classes, c.name.as_str()) {
            let fqdn = qualify(&c.namespace, &c.name);
            let s = DiscoveredSymbol::new_class(fqdn, to_owned(source_path), record_namespace(&c.namespace),
                clone_opt(package_name), c.is_abstract, crate::strs::clone_opt(&c.extends),
                crate::strs::clone_strings(&c.implements));
            out.push(s);
            assert(symbol_views(out@) =~= symbol_views(before).push(out@.last()@));
        } else {
            assert(symbol_views(out@) =~= symbol_views(before) + Seq::<SymbolView>::empty());
        }
        k += 1;
    }
    assert(cs.take(cs.len() as int) =~= cs);
    let ghost after_cs = symbol_views(out@);

    let ghost is = interface_specs(extracted.interfaces@);
    let mut k: usize = 0;
    assert(is.take(0) =~= Seq::<InterfaceSpec>::empty());
    assert(symbol_views(out@) =~= after_cs + interface_symbols(is.take(0), src, pkg, bc));
    while k < extracted.interfaces.len()
        invariant
            src == source_path@,
            pkg == opt_seq(*package_name),
            bc == seqs(builtin_classes@),
            bf == seqs(builtin_functions@),
            is == interface_specs(extracted.interfaces@),
            k <= is.len(),
            symbol_views(out@) == after_cs + interface_symbols(is.take(k as int), src, pkg, bc),
        decreases extracted.interfaces.len() - k,
    {
        let ghost before = out@;
        assert(is.take(k + 1).drop_last() =~= is.take(k as int));
        assert(is.take(k + 1).last() == is[k as int]);
        let c = &extracted.interfaces[k];
        if !vec_contains_str(builtin_classes, c.name.as_str()) {
            let fqdn = qualify(&c.namespace, &c.name);
            let s = DiscoveredSymbol::new_interface(fqdn, to_owned(source_path), record_namespace(&c.namespace),
                clone_opt(package_name), crate::strs::clone_strings(&c.extends));
            out.push(s);
            assert(symbol_views(out@) =~= symbol_views(before).push(out@.last()@));
        } else {
            assert(symbol_views(out@) =~= symbol_views(before) + Seq::<SymbolView>::empty());
        }
        k += 1;
    }
    assert(is.take(is.len() as int) =~= is);
    let ghost after_is = symbol_views(out@);

    let ghost ts = trait_specs(extracted.traits@);
    let mut k: usize = 0;
    assert(ts.take(0) =~= Seq::<NamedSpec>::empty());
    assert(symbol_views(out@) =~= after_is + trait_symbols(ts.take(0), src, pkg));
    while k < extracted.traits.len()
        invariant
            src == source_path@,
            pkg == opt_seq(*package_name),
            bc == seqs(builtin_classes@),
            bf == seqs(builtin_functions@),
            ts == trait_specs(extracted.traits@),
            k <= ts.len(),
            symbol_views(out@) == after_is + trait_symbols(ts.take(k as int), src, pkg),
        decreases extracted.traits.len() - k,
    {
        let ghost before = out@;
        assert(ts.take(k + 1).drop_last() =~= ts.take(k as int));
        assert(ts.take(k + 1).last() == ts[k as int]);
        let c = &extracted.traits[k];
        let fqdn = qualify(&c.namespace, &c.name);
        let uses: Vec<String> = Vec::new();
        assert(seqs(uses@) =~= Seq::<Seq<char>>::empty());
        let s = DiscoveredSymbol::new_trait(fqdn, to_owned(source_path), record_namespace(&c.namespace),
            clone_opt(package_name), uses);
        out.push(s);
        assert(symbol_views(out@) =~= symbol_views(before).push(out@.last()@));
        k += 1;
    }
    assert(ts.take(ts.len() as int) =~= ts);
    let ghost after_ts = symbol_views(out@);

    let ghost fs = function_specs(extracted.functions@);
    let mut k: usize = 0;
    assert(fs.take(0) =~= Seq::<NamedSpec>::empty());
    assert(symbol_views(out@) =~= after_ts + function_symbols(fs.take(0), src, pkg, bf));
    while k < extracted.functions.len()
        invariant
            src == source_path@,
            pkg == opt_seq(*package_name),
            bc == seqs(builtin_classes@),
            bf == seqs(builtin_functions@),
            fs == function_specs(extracted.functions@),
            k <= fs.len(),
            symbol_views(out@) == after_ts + function_symbols(fs.take(k as int), src, pkg, bf),
        decreases extracted.functions.len() - k,
    {
        let ghost before = out@;
        assert(fs.take(k + 1).drop_last() =~= fs.take(k as int));
        assert(fs.take(k + 1).last() == fs[k as int]);
        let c = &extracted.functions[k];
        if !vec_contains_str(builtin_functions, c.name.as_str()) {
            let s = DiscoveredSymbol::new_function(c.name.clone(), to_owned(source_path),
                record_namespace(&c.namespace), clone_opt(package_name));
            out.push(s);
            assert(symbol_views(out@) =~= symbol_views(before).push(out@.last()@));
        } else {
            assert(symbol_views(out@) =~= symbol_views(before) + Seq::<SymbolView>::empty());
        }
        k += 1;
    }
    assert(fs.take(fs.len() as int) =~= fs);
    let ghost after_fs = symbol_views(out@);

    let ghost ks = constant_specs(extracted.constants@);
    let mut k: usize = 0;
    assert(ks.take(0) =~= Seq::<NamedSpec>::empty());
    assert(symbol_views(out@) =~= after_fs + constant_symbols(ks.take(0), src, pkg));
    while k < extracted.constants.len()
        invariant
            src == source_path@,
            pkg == opt_seq(*package_name),
            bc == seqs(builtin_classes@),
            bf == seqs(builtin_functions@),
            ks == constant_specs(extracted.constants@),
            k <= ks.len(),
            symbol_views(out@) == after_fs + constant_symbols(ks.take(k as int), src, pkg),
        decreases extracted.constants.len() - k,
    {
        let ghost before = out@;
        assert(ks.take(k + 1).drop_last() =~= ks.take(k as int));
        assert(ks.take(k + 1).last() == ks[k as int]);
        let c = &extracted.constants[k];
        let s = DiscoveredSymbol::new_constant(c.name.clone(), to_owned(source_path),
            record_namespace(&c.namespace), clone_opt(package_name));
        out.push(s);
        assert(symbol_views(out@) =~= symbol_views(before).push(out@.last()@));
        k += 1;
    }
    assert(ks.take(ks.len() as int) =~= ks);
    out
}

/// Records what a file declares in the collection (see [`scanned_symbols`] and
/// [`added`]).
pub fn add_extracted_symbols(
    symbols: &mut DiscoveredSymbols,
    extracted: &ExtractedSymbols,
    source_path: &str,
    package_name: &Option<String>,
    builtin_classes: &Vec<String>,
    builtin_functions: &Vec<String>,
)
    ensures
        forall|t: SymbolType| #[trigger] final(symbols).map_of(t) == added(old(symbols).map_of(t),
            scanned_symbols(*extracted, source_path@, opt_seq(*package_name), seqs(builtin_classes@),
                seqs(builtin_functions@)), t),
{
    let list = scanned_list(extracted, source_path, package_name, builtin_classes, builtin_functions);
    add_all(symbols, list);
}

/// Parses a file's text and records what it declares; an error, the collection
/// then unchanged, only when no PHP parser can be made.
pub fn scan_file_contents(
    symbols: &mut DiscoveredSymbols,
    file: &DiscoveredFile,
    contents: &str,
    builtin_classes: &Vec<String>,
    builtin_functions: &Vec<String>,
) -> (r: Result<(), ParseError>)
    ensures
        r is Err ==> *final(symbols) == *old(symbols),
        r matches Err(e) ==> e == ParseError::Language,
        r is Ok ==> exists|t: SyntaxTree, ex: ExtractedSymbols| #[trigger] t.wf() && #[trigger] extracted_from(ex, t.nodes@)
            && php_syntax_of(t.nodes@, contents@)
            && forall|k: SymbolType| #[trigger] final(symbols).map_of(k) == added(old(symbols).map_of(k),
                scanned_symbols(ex, file@.source_absolute_path, file@.package_name, seqs(builtin_classes@),
                    seqs(builtin_functions@)), k),
{
    let mut parser = match PhpParser::new() {
        Ok(p) => p,
        Err(e) => return Err(e),
    };
    let tree = match parser.parse_flat(contents) {
        Ok(t) => t,
        Err(e) => return Err(e),
    };
    let extracted = symbols_of(&tree);
    add_extracted_symbols(symbols, &extracted, file.source_absolute_path.as_str(), &file.package_name,
        builtin_classes, builtin_functions);
    Ok(())
}

/// The autoloaded PHP files among the listed ones, in order.
pub open spec fn scannable(fs: Seq<crate::types::file::FileView>) -> Seq<crate::types::file::FileView>
    decreases fs.len(),
{
    if fs.len() == 0 {
        Seq::empty()
    } else {
        let f = fs.last();
        scannable(fs.drop_last()) + if is_php_path(f.source_absolute_path) && f.is_autoloaded {
            seq![f]
        } else {
            Seq::empty()
        }
    }
}

/// The files whose symbols are scanned: the autoloaded PHP files, in order.
pub fn files_to_scan(files: &DiscoveredFiles) -> (r: Vec<DiscoveredFile>)
    ensures
        crate::types::discovered_files::file_views(r@) == scannable(files@),
{
    let fs = files.get_files();
    let ghost all = files@;
    let mut out: Vec<DiscoveredFile> = Vec::new();
    let mut k: usize = 0;
    assert(all.take(0) =~= Seq::<crate::types::file::FileView>::empty());
    while k < fs.len()
        invariant
            all == files@,
            crate::types::discovered_files::file_views(fs@) == all,
            k <= fs@.len(),
            crate::types::discovered_files::file_views(out@) == scannable(all.take(k as int)),
        decreases fs.len() - k,
    {
        let ghost before = out@;
        assert(all.take(k + 1).drop_last() =~= all.take(k as int));
        assert(all.take(k + 1).last() == fs@[k as int]@);
        if fs[k].is_php_file() && fs[k].is_autoloaded {
            out.push(fs[k].clone_file());
            assert(crate::types::discovered_files::file_views(out@)
                =~= crate::types::discovered_files::file_views(before).push(fs@[k as int]@));
        } else {
            assert(crate::types::discovered_files::file_views(out@)
                =~= crate::types::discovered_files::file_views(before) + Seq::<crate::types::file::FileView>::empty());
        }
        k += 1;
    }
    assert(all.take(fs.len() as int) =~= all);
    out
}

} // verus!
