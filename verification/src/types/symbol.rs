//! A discovered PHP symbol (namespace, class, interface, trait, function, constant).

use vstd::prelude::*;
use crate::strs::{clone_opt, clone_strings, lemma_split_nonempty, opt_seq, seqs, split_char, split_char_str, str_eq, to_chars, vec_contains_str};

verus! {

/// The kind of a discovered PHP symbol.
#[derive(Debug, Clone, Copy, PartialEq, Eq, Hash, Structural)]
pub enum SymbolType {
    Namespace,
    Class,
    Interface,
    Trait,
    Function,
    Constant,
}

impl SymbolType {
    /// The lower-case name of the kind, as shown to users.
    pub open spec fn name(self) -> Seq<char> {
        match self {
            SymbolType::Namespace => "namespace"@,
            SymbolType::Class => "class"@,
            SymbolType::Interface => "interface"@,
            SymbolType::Trait => "trait"@,
            SymbolType::Function => "function"@,
            SymbolType::Constant => "constant"@,
        }
    }

    /// The lower-case name of the kind, as shown to users.
    pub fn to_string(&self) -> (r: String)
        ensures
            r@ == self.name(),
    {
        match self {
            SymbolType::Namespace => "namespace".to_owned(),
            SymbolType::Class => "class".to_owned(),
            SymbolType::Interface => "interface".to_owned(),
            SymbolType::Trait => "trait".to_owned(),
            SymbolType::Function => "function".to_owned(),
            SymbolType::Constant => "constant".to_owned(),
        }
    }
}

/// A namespace, class, interface, trait, function or constant discovered in the project.
#[derive(Debug, Clone)]
pub struct DiscoveredSymbol {
    /// The kind of symbol.
    pub symbol_type: SymbolType,
    /// The fully-qualified original name, e.g. `Vendor\Package\ClassName`.
    pub original_symbol: String,
    /// The replacement name after prefixing, once decided.
    pub replacement: Option<String>,
    /// The parent namespace, if any (`\` or empty for the global namespace).
    pub namespace: Option<String>,
    /// Whether this symbol is renamed during prefixing.
    pub do_rename: bool,
    /// The files in which this symbol was discovered.
    pub source_files: Vec<String>,
    /// The Composer package the symbol belongs to, if any.
    pub package_name: Option<String>,
    /// The parent class (classes only).
    pub extends: Option<String>,
    /// Implemented interfaces (classes), extended interfaces (interfaces), used traits (traits).
    pub interfaces: Vec<String>,
    /// Whether the class is abstract (classes only).
    pub is_abstract: bool,
}

/// The mathematical value of a [`DiscoveredSymbol`].
pub struct SymbolView {
    pub symbol_type: SymbolType,
    pub original_symbol: Seq<char>,
    pub replacement: Option<Seq<char>>,
    pub namespace: Option<Seq<char>>,
    pub do_rename: bool,
    pub source_files: Seq<Seq<char>>,
    pub package_name: Option<Seq<char>>,
    pub extends: Option<Seq<char>>,
    pub interfaces: Seq<Seq<char>>,
    pub is_abstract: bool,
}

impl View for DiscoveredSymbol {
    type V = SymbolView;

    open spec fn view(&self) -> SymbolView {
        SymbolView {
            symbol_type: self.symbol_type,
            original_symbol: self.original_symbol@,
            replacement: opt_seq(self.replacement),
            namespace: opt_seq(self.namespace),
            do_rename: self.do_rename,
            source_files: seqs(self.source_files@),
            package_name: opt_seq(self.package_name),
            extends: opt_seq(self.extends),
            interfaces: seqs(self.interfaces@),
            is_abstract: self.is_abstract,
        }
    }
}

impl SymbolView {
    /// The name the symbol has after prefixing: the replacement when renaming is on
    /// and one is set, the original name otherwise.
    pub open spec fn effective_replacement(self) -> Seq<char> {
        if !self.do_rename {
            self.original_symbol
        } else {
            match self.replacement {
                Some(r) => r,
                None => self.original_symbol,
            }
        }
    }

    /// Whether the symbol lies in the global namespace (no namespace, `\`, or empty).
    pub open spec fn in_global_namespace(self) -> bool {
        match self.namespace {
            None => true,
            Some(ns) => ns == seq!['\\'] || ns.len() == 0,
        }
    }

    /// A fresh symbol of the given kind, with renaming on and no replacement yet.
    pub open spec fn fresh(
        symbol_type: SymbolType,
        fqdn: Seq<char>,
        source_file: Seq<char>,
        namespace: Option<Seq<char>>,
        package_name: Option<Seq<char>>,
        extends: Option<Seq<char>>,
        interfaces: Seq<Seq<char>>,
        is_abstract: bool,
    ) -> SymbolView {
        SymbolView {
            symbol_type,
            original_symbol: fqdn,
            replacement: None,
            namespace,
            do_rename: true,
            source_files: seq![source_file],
            package_name,
            extends,
            interfaces,
            is_abstract,
        }
    }
}

impl DiscoveredSymbol {
    /// A copy of this symbol.
    pub fn clone_symbol(&self) -> (r: DiscoveredSymbol)
        ensures
            r@ == self@,
    {
        DiscoveredSymbol {
            symbol_type: self.symbol_type,
            original_symbol: self.original_symbol.clone(),
            replacement: clone_opt(&self.replacement),
            namespace: clone_opt(&self.namespace),
            do_rename: self.do_rename,
            source_files: clone_strings(&self.source_files),
            package_name: clone_opt(&self.package_name),
            extends: clone_opt(&self.extends),
            interfaces: clone_strings(&self.interfaces),
            is_abstract: self.is_abstract,
        }
    }

    /// A new namespace symbol.
    pub fn new_namespace(fqdn: String, source_file: String, package_name: Option<String>) -> (r: Self)
        ensures
            r@ == SymbolView::fresh(SymbolType::Namespace, fqdn@, source_file@, None,
                opt_seq(package_name), None, Seq::empty(), false),
    {
        let r = DiscoveredSymbol {
            symbol_type: SymbolType::Namespace,
            original_symbol: fqdn,
            replacement: None,
            namespace: None,
            do_rename: true,
            source_files: vec![source_file],
            package_name,
            extends: None,
            interfaces: Vec::new(),
            is_abstract: false,
        };
        assert(seqs(r.source_files@) == seq![source_file@]);
        assert(seqs(r.interfaces@) == Seq::<Seq<char>>::empty());
        r
    }

    /// A new class symbol.
    pub fn new_class(
        fqdn: String,
        source_file: String,
        namespace: Option<String>,
        package_name: Option<String>,
        is_abstract: bool,
        extends: Option<String>,
        interfaces: Vec<String>,
    ) -> (r: Self)
        ensures
            r@ == SymbolView::fresh(SymbolType::Class, fqdn@, source_file@, opt_seq(namespace),
                opt_seq(package_name), opt_seq(extends), seqs(interfaces@), is_abstract),
    {
        let r = DiscoveredSymbol {
            symbol_type: SymbolType::Class,
            original_symbol: fqdn,
            replacement: None,
            namespace,
            do_rename: true,
            source_files: vec![source_file],
            package_name,
            extends,
            interfaces,
            is_abstract,
        };
        assert(seqs(r.source_files@) == seq![source_file@]);
        r
    }

    /// A new interface symbol; `extends` lists the interfaces it extends.
    pub fn new_interface(
        fqdn: String,
        source_file: String,
        namespace: Option<String>,
        package_name: Option<String>,
        extends: Vec<String>,
    ) -> (r: Self)
        ensures
            r@ == SymbolView::fresh(SymbolType::Interface, fqdn@, source_file@, opt_seq(namespace),
                opt_seq(package_name), None, seqs(extends@), false),
    {
        let r = DiscoveredSymbol {
            symbol_type: SymbolType::Interface,
            original_symbol: fqdn,
            replacement: None,
            namespace,
            do_rename: true,
            source_files: vec![source_file],
            package_name,
            extends: None,
            interfaces: extends,
            is_abstract: false,
        };
        assert(seqs(r.source_files@) == seq![source_file@]);
        r
    }

    /// A new trait symbol; `uses` lists the traits it uses.
    pub fn new_trait(
        fqdn: String,
        source_file: String,
        namespace: Option<String>,
        package_name: Option<String>,
        uses: Vec<String>,
    ) -> (r: Self)
        ensures
            r@ == SymbolView::fresh(SymbolType::Trait, fqdn@, source_file@, opt_seq(namespace),
                opt_seq(package_name), None, seqs(uses@), false),
    {
        let r = DiscoveredSymbol {
            symbol_type: SymbolType::Trait,
            original_symbol: fqdn,
            replacement: None,
            namespace,
            do_rename: true,
            source_files: vec![source_file],
            package_name,
            extends: None,
            interfaces: uses,
            is_abstract: false,
        };
        assert(seqs(r.source_files@) == seq![source_file@]);
        r
    }

    /// A new function symbol.
    pub fn new_function(
        fqdn: String,
        source_file: String,
        namespace: Option<String>,
        package_name: Option<String>,
    ) -> (r: Self)
        ensures
            r@ == SymbolView::fresh(SymbolType::Function, fqdn@, source_file@, opt_seq(namespace),
                opt_seq(package_name), None, Seq::empty(), false),
    {
        let r = DiscoveredSymbol {
            symbol_type: SymbolType::Function,
            original_symbol: fqdn,
            replacement: None,
            namespace,
            do_rename: true,
            source_files: vec![source_file],
            package_name,
            extends: None,
            interfaces: Vec::new(),
            is_abstract: false,
        };
        assert(seqs(r.source_files@) == seq![source_file@]);
        assert(seqs(r.interfaces@) == Seq::<Seq<char>>::empty());
        r
    }

    /// A new constant symbol.
    pub fn new_constant(
        fqdn: String,
        source_file: String,
        namespace: Option<String>,
        package_name: Option<String>,
    ) -> (r: Self)
        ensures
            r@ == SymbolView::fresh(SymbolType::Constant, fqdn@, source_file@, opt_seq(namespace),
                opt_seq(package_name), None, Seq::empty(), false),
    {
        let r = DiscoveredSymbol {
            symbol_type: SymbolType::Constant,
            original_symbol: fqdn,
            replacement: None,
            namespace,
            do_rename: true,
            source_files: vec![source_file],
            package_name,
            extends: None,
            interfaces: Vec::new(),
            is_abstract: false,
        };
        assert(seqs(r.source_files@) == seq![source_file@]);
        assert(seqs(r.interfaces@) == Seq::<Seq<char>>::empty());
        r
    }

    /// The original fully-qualified name.
    pub fn get_original_symbol(&self) -> (r: &str)
        ensures
            r@ == self@.original_symbol,
    {
        self.original_symbol.as_str()
    }

    /// The name after prefixing (see [`SymbolView::effective_replacement`]).
    pub fn get_replacement(&self) -> (r: &str)
        ensures
            r@ == self@.effective_replacement(),
    {
        if !self.do_rename {
            return self.original_symbol.as_str();
        }
        match &self.replacement {
            Some(r) => r.as_str(),
            None => self.original_symbol.as_str(),
        }
    }

    /// Sets the replacement name.
    pub fn set_replacement(&mut self, replacement: String)
        ensures
            final(self)@ == (SymbolView { replacement: Some(replacement@), ..old(self)@ }),
    {
        self.replacement = Some(replacement);
    }

    /// The unqualified name: what follows the last backslash of the original name.
    pub fn get_original_local_name(&self) -> (r: String)
        ensures
            r@ == split_char(self@.original_symbol, '\\').last(),
    {
        let parts = split_char_str(self.original_symbol.as_str(), '\\');
        proof {
            lemma_split_nonempty(self.original_symbol@, '\\');
        }
        let last = parts.len() - 1;
        assert(seqs(parts@)[last as int] == parts@[last as int]@);
        parts[last].clone()
    }

    /// Records one more source file, unless it is already listed.
    pub fn add_source_file(&mut self, source_file: String)
        ensures
            final(self)@ == with_source_file(old(self)@, source_file@),
    {
        if !vec_contains_str(&self.source_files, source_file.as_str()) {
            let ghost pre = self.source_files@;
            self.source_files.push(source_file);
            assert(seqs(self.source_files@) == seqs(pre).push(source_file@));
        }
    }

    /// Whether prefixing changes the name.
    pub fn is_changed_namespace(&self) -> (r: bool)
        ensures
            r == (self@.effective_replacement() != self@.original_symbol),
    {
        !str_eq(self.get_replacement(), self.original_symbol.as_str())
    }

    /// Whether the symbol lies in the global namespace.
    pub fn is_global_namespace(&self) -> (r: bool)
        ensures
            r == self@.in_global_namespace(),
    {
        match &self.namespace {
            None => true,
            Some(ns) => {
                let c = to_chars(ns.as_str());
                let r = (c.len() == 1 && c[0] == '\\') || c.len() == 0;
                proof {
                    if c.len() == 1 && c[0] == '\\' {
                        assert(c@ == seq!['\\']);
                    }
                }
                r
            },
        }
    }

    /// Whether the symbol is a namespace.
    pub fn is_namespace(&self) -> (r: bool)
        ensures
            r == (self.symbol_type == SymbolType::Namespace),
    {
        self.symbol_type == SymbolType::Namespace
    }
}

/// The symbol with a source file listed, added at the end when not yet listed.
pub open spec fn with_source_file(s: SymbolView, f: Seq<char>) -> SymbolView {
    SymbolView {
        source_files: if s.source_files.contains(f) { s.source_files } else { s.source_files.push(f) },
        ..s
    }
}

/// Listing a source file twice is listing it once, and the file is then listed.
pub proof fn law_source_file_listed_once(s: SymbolView, f: Seq<char>)
    ensures
        with_source_file(with_source_file(s, f), f) == with_source_file(s, f),
        with_source_file(s, f).source_files.contains(f),
        s.source_files.no_duplicates() ==> with_source_file(s, f).source_files.no_duplicates(),
{
    if !s.source_files.contains(f) {
        let ps = s.source_files.push(f);
        assert(ps[s.source_files.len() as int] == f);
        if s.source_files.no_duplicates() {
            assert forall|a: int, b: int| 0 <= a < ps.len() && 0 <= b < ps.len() && a != b implies ps[a] != ps[b] by {
                if b == s.source_files.len() {
                    assert(s.source_files[a] == ps[a]);
                } else if a == s.source_files.len() {
                    assert(s.source_files[b] == ps[b]);
                }
            }
        }
    }
}

} // verus!
