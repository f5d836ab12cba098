//! The collection of discovered symbols, one concurrent map per symbol kind.

use vstd::prelude::*;
use dashmap::DashMap;
use crate::strs::seqs;
use crate::sorting::{is_permutation, stable_order, stably_sorted_by};
use crate::types::symbol::{DiscoveredSymbol, SymbolType, SymbolView};

verus! {

#[verifier::external_type_specification]
#[verifier::external_body]
#[verifier::reject_recursive_types(K)]
#[verifier::reject_recursive_types(V)]
#[verifier::reject_recursive_types(S)]
pub struct ExDashMap<K, V, S>(DashMap<K, V, S>);

/// What a symbol map holds: each original name with its symbol.
pub uninterp spec fn symbol_map(m: DashMap<String, DiscoveredSymbol>) -> Map<Seq<char>, SymbolView>;

/// `DashMap::new`: an empty map.
#[verifier::external_body]
fn map_new() -> (r: DashMap<String, DiscoveredSymbol>)
    ensures
        symbol_map(r).dom() == Set::<Seq<char>>::empty(),
{
    DashMap::new()
}

/// `DashMap::get`: a copy of the symbol stored under `key`, if any.
#[verifier::external_body]
fn map_get(m: &DashMap<String, DiscoveredSymbol>, key: &str) -> (r: Option<DiscoveredSymbol>)
    ensures
        match r {
            Some(s) => symbol_map(*m).contains_key(key@) && s@ == symbol_map(*m)[key@],
            None => !symbol_map(*m).contains_key(key@),
        },
{
    match m.get(key) {
        Some(e) => Some(e.value().clone_symbol()),
        None => None,
    }
}

/// `DashMap::insert`: stores `value` under `key`, replacing any earlier value.
#[verifier::external_body]
fn map_insert(m: &mut DashMap<String, DiscoveredSymbol>, key: String, value: DiscoveredSymbol)
    ensures
        symbol_map(*final(m)) == symbol_map(*old(m)).insert(key@, value@),
    no_unwind
{
    m.insert(key, value);
}

/// `DashMap::iter`: every entry once, keys with copies of their symbols, in the
/// map's own order.
#[verifier::external_body]
fn map_entries(m: &DashMap<String, DiscoveredSymbol>) -> (r: Vec<(String, DiscoveredSymbol)>)
    ensures
        forall|i: int| 0 <= i < r@.len() ==> symbol_map(*m).contains_key(#[trigger] r@[i].0@)
            && r@[i].1@ == symbol_map(*m)[r@[i].0@],
        forall|i: int, j: int| 0 <= i < j < r@.len() ==> r@[i].0@ != r@[j].0@,
        forall|k: Seq<char>| symbol_map(*m).contains_key(k) ==> exists|i: int| 0 <= i < r@.len() && #[trigger] r@[i].0@ == k,
{
    let mut v = Vec::new();
    for e in m.iter() {
        v.push((e.key().clone(), e.value().clone_symbol()));
    }
    v
}

/// `DashMap::len`: the number of entries.
#[verifier::external_body]
fn map_len(m: &DashMap<String, DiscoveredSymbol>) -> (r: usize)
    ensures
        r == symbol_map(*m).len(),
{
    m.len()
}

/// Discovered symbols, grouped by kind, each kind keyed by original name.
#[derive(Debug)]
pub struct DiscoveredSymbols {
    namespaces: DashMap<String, DiscoveredSymbol>,
    classes: DashMap<String, DiscoveredSymbol>,
    interfaces: DashMap<String, DiscoveredSymbol>,
    traits: DashMap<String, DiscoveredSymbol>,
    functions: DashMap<String, DiscoveredSymbol>,
    constants: DashMap<String, DiscoveredSymbol>,
}

/// The source files of `s` with each of `files` added when not yet listed, in order.
pub open spec fn merge_sources(s: SymbolView, files: Seq<Seq<char>>) -> SymbolView
    decreases files.len(),
{
    if files.len() == 0 {
        s
    } else {
        let prev = merge_sources(s, files.drop_last());
        if prev.source_files.contains(files.last()) {
            prev
        } else {
            SymbolView { source_files: prev.source_files.push(files.last()), ..prev }
        }
    }
}

/// `r` lists exactly the symbols of `m` that satisfy `keep`, each once.
pub open spec fn enumerates(r: Seq<SymbolView>, m: Map<Seq<char>, SymbolView>, keep: spec_fn(SymbolView) -> bool) -> bool {
    &&& forall|i: int| 0 <= i < r.len() ==> m.contains_key(#[trigger] r[i].original_symbol)
            && m[r[i].original_symbol] == r[i] && keep(r[i])
    &&& forall|i: int, j: int| 0 <= i < j < r.len() ==> r[i].original_symbol != r[j].original_symbol
    &&& forall|k: Seq<char>| m.contains_key(k) && keep(m[k]) ==> exists|i: int| 0 <= i < r.len() && #[trigger] r[i].original_symbol == k
}

/// `r` lists exactly the symbols of `m`, each once.
pub open spec fn enumerates_all(r: Seq<SymbolView>, m: Map<Seq<char>, SymbolView>) -> bool {
    enumerates(r, m, |s: SymbolView| all(s))
}

/// `r` lists exactly the global symbols of `m`, each once.
pub open spec fn enumerates_global(r: Seq<SymbolView>, m: Map<Seq<char>, SymbolView>) -> bool {
    enumerates(r, m, |s: SymbolView| global(s))
}

/// The views of a list of symbols.
pub open spec fn symbol_views(v: Seq<DiscoveredSymbol>) -> Seq<SymbolView> {
    v.map_values(|s: DiscoveredSymbol| s@)
}

/// Every symbol.
pub open spec fn all(s: SymbolView) -> bool {
    true
}

/// A symbol in the global namespace.
pub open spec fn global(s: SymbolView) -> bool {
    s.in_global_namespace()
}

/// A symbol marked for renaming.
pub open spec fn renamed(s: SymbolView) -> bool {
    s.do_rename
}

/// A global symbol marked for renaming.
pub open spec fn global_renamed(s: SymbolView) -> bool {
    s.in_global_namespace() && s.do_rename
}

/// A namespace other than the root namespace `\`.
pub open spec fn not_root(s: SymbolView) -> bool {
    s.original_symbol != seq!['\\']
}

/// A non-root namespace marked for renaming.
pub open spec fn not_root_renamed(s: SymbolView) -> bool {
    s.original_symbol != seq!['\\'] && s.do_rename
}

/// The UTF-8 byte length of a name.
pub open spec fn name_len(s: SymbolView) -> usize {
    vstd::utf8::encode_utf8(s.original_symbol).len() as usize
}

/// A well-formed symbol map: finite, every symbol stored under its own name and
/// of the map's kind.
pub open spec fn map_wf(m: Map<Seq<char>, SymbolView>, t: SymbolType) -> bool {
    &&& m.dom().finite()
    &&& forall|k: Seq<char>| m.contains_key(k) ==> (#[trigger] m[k]).original_symbol == k && m[k].symbol_type == t
}

impl DiscoveredSymbols {
    /// The symbols of one kind, by original name.
    pub closed spec fn map_of(&self, t: SymbolType) -> Map<Seq<char>, SymbolView> {
        match t {
            SymbolType::Namespace => symbol_map(self.namespaces),
            SymbolType::Class => symbol_map(self.classes),
            SymbolType::Interface => symbol_map(self.interfaces),
            SymbolType::Trait => symbol_map(self.traits),
            SymbolType::Function => symbol_map(self.functions),
            SymbolType::Constant => symbol_map(self.constants),
        }
    }

    /// Every kind's map is well-formed.
    pub open spec fn wf(&self) -> bool {
        forall|t: SymbolType| #[trigger] map_wf(self.map_of(t), t)
    }

    #[verifier::type_invariant]
    closed spec fn inv(&self) -> bool {
        self.wf()
    }

    fn map_for_type(&self, symbol_type: SymbolType) -> (r: &DashMap<String, DiscoveredSymbol>)
        ensures
            symbol_map(*r) == self.map_of(symbol_type),
    {
        match symbol_type {
            SymbolType::Namespace => &self.namespaces,
            SymbolType::Class => &self.classes,
            SymbolType::Interface => &self.interfaces,
            SymbolType::Trait => &self.traits,
            SymbolType::Function => &self.functions,
            SymbolType::Constant => &self.constants,
        }
    }

    /// An empty collection.
    pub fn new() -> (r: Self)
        ensures
            r.wf(),
            forall|t: SymbolType| #[trigger] r.map_of(t) == Map::<Seq<char>, SymbolView>::empty(),
    {
        DiscoveredSymbols {
            namespaces: map_new(),
            classes: map_new(),
            interfaces: map_new(),
            traits: map_new(),
            functions: map_new(),
            constants: map_new(),
        }
    }

    fn insert_into(&mut self, key: String, symbol: DiscoveredSymbol)
        requires
            key@ == symbol@.original_symbol,
        ensures
            forall|t: SymbolType| #[trigger] final(self).map_of(t) == if t == symbol.symbol_type {
                old(self).map_of(t).insert(key@, symbol@)
            } else {
                old(self).map_of(t)
            },
    {
        proof {
            use_type_invariant(&*self);
            assert(map_wf(self.map_of(SymbolType::Namespace), SymbolType::Namespace));
            assert(map_wf(self.map_of(SymbolType::Class), SymbolType::Class));
            assert(map_wf(self.map_of(SymbolType::Interface), SymbolType::Interface));
            assert(map_wf(self.map_of(SymbolType::Trait), SymbolType::Trait));
            assert(map_wf(self.map_of(SymbolType::Function), SymbolType::Function));
            assert(map_wf(self.map_of(SymbolType::Constant), SymbolType::Constant));
            assert(map_wf(symbol_map(self.namespaces), SymbolType::Namespace));
            assert(map_wf(symbol_map(self.classes), SymbolType::Class));
            assert(map_wf(symbol_map(self.interfaces), SymbolType::Interface));
            assert(map_wf(symbol_map(self.traits), SymbolType::Trait));
            assert(map_wf(symbol_map(self.functions), SymbolType::Function));
            assert(map_wf(symbol_map(self.constants), SymbolType::Constant));
        }
        let ghost sv = symbol@;
        match symbol.symbol_type {
            SymbolType::Namespace => {
                proof {
                    assert(map_wf(self.map_of(SymbolType::Namespace), SymbolType::Namespace));
                    assert(map_wf(symbol_map(self.namespaces).insert(key@, sv), SymbolType::Namespace));
                }
                map_insert(&mut self.namespaces, key, symbol);
            },
            SymbolType::Class => {
                proof {
                    assert(map_wf(self.map_of(SymbolType::Class), SymbolType::Class));
                    assert(map_wf(symbol_map(self.classes).insert(key@, sv), SymbolType::Class));
                }
                map_insert(&mut self.classes, key, symbol);
            },
            SymbolType::Interface => {
                proof {
                    assert(map_wf(self.map_of(SymbolType::Interface), SymbolType::Interface));
                    assert(map_wf(symbol_map(self.interfaces).insert(key@, sv), SymbolType::Interface));
                }
                map_insert(&mut self.interfaces, key, symbol);
            },
            SymbolType::Trait => {
                proof {
                    assert(map_wf(self.map_of(SymbolType::Trait), SymbolType::Trait));
                    assert(map_wf(symbol_map(self.traits).insert(key@, sv), SymbolType::Trait));
                }
                map_insert(&mut self.traits, key, symbol);
            },
            SymbolType::Function => {
                proof {
                    assert(map_wf(self.map_of(SymbolType::Function), SymbolType::Function));
                    assert(map_wf(symbol_map(self.functions).insert(key@, sv), SymbolType::Function));
                }
                map_insert(&mut self.functions, key, symbol);
            },
            SymbolType::Constant => {
                proof {
                    assert(map_wf(self.map_of(SymbolType::Constant), SymbolType::Constant));
                    assert(map_wf(symbol_map(self.constants).insert(key@, sv), SymbolType::Constant));
                }
                map_insert(&mut self.constants, key, symbol);
            },
        }
    }

    /// Adds a symbol to its kind's map. When a symbol of that kind and name is already
    /// present, the new symbol's source files are added to it instead.
    pub fn add(&mut self, symbol: DiscoveredSymbol)
        ensures
            forall|t: SymbolType| #[trigger] final(self).map_of(t) == added_one(old(self).map_of(t), symbol@, t),
    {
        proof {
            use_type_invariant(&*self);
        }
        let t = symbol.symbol_type;
        let key = symbol.original_symbol.clone();
        let existing = map_get(self.map_for_type(t), key.as_str());
        match existing {
            Some(mut e) => {
                proof {
                    assert(map_wf(old(self).map_of(t), t));
                }
                let mut i: usize = 0;
                while i < symbol.source_files.len()
                    invariant
                        i <= symbol.source_files.len(),
                        e@ == merge_sources(old(self).map_of(t)[key@], symbol@.source_files.take(i as int)),
                        e@.original_symbol == key@,
                        e@.symbol_type == t,
                    decreases symbol.source_files.len() - i,
                {
                    proof {
                        assert(symbol@.source_files.take(i + 1).drop_last() == symbol@.source_files.take(i as int));
                        assert(symbol@.source_files.take(i + 1).last() == symbol.source_files@[i as int]@);
                    }
                    e.add_source_file(symbol.source_files[i].clone());
                    i += 1;
                }
                assert(symbol@.source_files.take(symbol.source_files.len() as int) == symbol@.source_files);
                self.insert_into(key, e);
            },
            None => {
                self.insert_into(key, symbol);
            },
        }
    }

    /// Lists the symbols of one kind that satisfy `keep`.
    fn list(&self, t: SymbolType, Ghost(keep): Ghost<spec_fn(SymbolView) -> bool>, global_only: bool, renamed_only: bool, skip_root: bool) -> (r: Vec<DiscoveredSymbol>)
        requires
            forall|s: SymbolView| #[trigger] keep(s) == ((!global_only || s.in_global_namespace())
                && (!renamed_only || s.do_rename) && (!skip_root || s.original_symbol != seq!['\\'])),
        ensures
            enumerates(symbol_views(r@), self.map_of(t), keep),
    {
        proof {
            use_type_invariant(self);
        }
        let entries = map_entries(self.map_for_type(t));
        let ghost m = self.map_of(t);
        assert(map_wf(m, t));
        let mut out: Vec<DiscoveredSymbol> = Vec::new();
        let ghost mut picked: Seq<int> = Seq::empty();
        let mut i: usize = 0;
        while i < entries.len()
            invariant
                m == self.map_of(t),
                map_wf(m, t),
                forall|a: int| 0 <= a < entries@.len() ==> m.contains_key(#[trigger] entries@[a].0@)
                    && entries@[a].1@ == m[entries@[a].0@],
                forall|a: int, b: int| 0 <= a < b < entries@.len() ==> entries@[a].0@ != entries@[b].0@,
                forall|s: SymbolView| #[trigger] keep(s) == ((!global_only || s.in_global_namespace())
                    && (!renamed_only || s.do_rename) && (!skip_root || s.original_symbol != seq!['\\'])),
                i <= entries.len(),
                picked.len() == out@.len(),
                forall|j: int| 0 <= j < picked.len() ==> 0 <= #[trigger] picked[j] < i,
                forall|j: int| 0 <= j < picked.len() ==>
                    #[trigger] out@[j]@ == entries@[picked[j]].1@ && out@[j]@.original_symbol == entries@[picked[j]].0@,
                forall|j: int, l: int| 0 <= j < l < picked.len() ==> picked[j] < picked[l],
                forall|a: int| 0 <= a < i && keep(entries@[a].1@) ==> exists|j: int| 0 <= j < picked.len() && picked[j] == a,
                forall|j: int| 0 <= j < out@.len() ==> keep(#[trigger] out@[j]@),
            decreases entries.len() - i,
        {
            let s = &entries[i].1;
            let g = s.is_global_namespace();
            let root = crate::strs::str_eq(s.original_symbol.as_str(), "\\");
            proof {
                reveal_strlit("\\");
                assert("\\"@ =~= seq!['\\']);
                assert(entries@[i as int].1@.original_symbol == entries@[i as int].0@);
            }
            let cond = (!global_only || g) && (!renamed_only || s.do_rename) && (!skip_root || !root);
            assert(cond == keep(entries@[i as int].1@));
            let ghost old_picked = picked;
            let ghost old_out = out@;
            if cond {
                out.push(s.clone_symbol());
                proof {
                    picked = picked.push(i as int);
                    assert forall|j: int| 0 <= j < old_picked.len() implies old_picked[j] < i by {
                        assert(0 <= old_picked[j] < i);
                    }
                    assert(out@[out@.len() - 1]@ == entries@[i as int].1@);
                    assert forall|j: int| 0 <= j < old_out.len() implies out@[j] == old_out[j] by {}
                }
            }
            proof {
                assert forall|a: int| 0 <= a < i + 1 && keep(entries@[a].1@) implies exists|j: int| 0 <= j < picked.len() && picked[j] == a by {
                    if a < i {
                        let j = choose|j: int| 0 <= j < old_picked.len() && old_picked[j] == a;
                        assert(picked[j] == a);
                    } else {
                        assert(picked[picked.len() - 1] == a);
                    }
                }
            }
            i += 1;
        }
        proof {
            assert(map_wf(m, t));
            let rv = symbol_views(out@);
            assert forall|k: Seq<char>| m.contains_key(k) && keep(m[k]) implies exists|j: int| 0 <= j < rv.len() && #[trigger] rv[j].original_symbol == k by {
                let a = choose|a: int| 0 <= a < entries@.len() && #[trigger] entries@[a].0@ == k;
                let j = choose|j: int| 0 <= j < picked.len() && picked[j] == a;
                assert(rv[j].original_symbol == k);
            }
            assert forall|x: int, y: int| 0 <= x < y < rv.len() implies rv[x].original_symbol != rv[y].original_symbol by {
                assert(picked[x] < picked[y]);
            }
            assert forall|x: int| 0 <= x < rv.len() implies m.contains_key(#[trigger] rv[x].original_symbol)
                && m[rv[x].original_symbol] == rv[x] && keep(rv[x]) by {
                assert(keep(out@[x]@));
            }
        }
        out
    }

    /// All namespace symbols, each once, in the map's order.
    pub fn get_namespaces(&self) -> (r: Vec<DiscoveredSymbol>)
        ensures
            enumerates(symbol_views(r@), self.map_of(SymbolType::Namespace), |s: SymbolView| all(s)),
    {
        self.list(SymbolType::Namespace, Ghost(|s: SymbolView| all(s)), false, false, false)
    }

    /// The classes in the global namespace.
    pub fn get_classes(&self) -> (r: Vec<DiscoveredSymbol>)
        ensures
            enumerates(symbol_views(r@), self.map_of(SymbolType::Class), |s: SymbolView| global(s)),
    {
        self.list(SymbolType::Class, Ghost(|s: SymbolView| global(s)), true, false, false)
    }

    /// All classes, in any namespace.
    pub fn get_all_classes(&self) -> (r: Vec<DiscoveredSymbol>)
        ensures
            enumerates(symbol_views(r@), self.map_of(SymbolType::Class), |s: SymbolView| all(s)),
    {
        self.list(SymbolType::Class, Ghost(|s: SymbolView| all(s)), false, false, false)
    }

    /// All function symbols.
    pub fn get_functions(&self) -> (r: Vec<DiscoveredSymbol>)
        ensures
            enumerates(symbol_views(r@), self.map_of(SymbolType::Function), |s: SymbolView| all(s)),
    {
        self.list(SymbolType::Function, Ghost(|s: SymbolView| all(s)), false, false, false)
    }

    /// All constant symbols.
    pub fn get_constants(&self) -> (r: Vec<DiscoveredSymbol>)
        ensures
            enumerates(symbol_views(r@), self.map_of(SymbolType::Constant), |s: SymbolView| all(s)),
    {
        self.list(SymbolType::Constant, Ghost(|s: SymbolView| all(s)), false, false, false)
    }

    /// All trait symbols.
    pub fn get_traits(&self) -> (r: Vec<DiscoveredSymbol>)
        ensures
            enumerates(symbol_views(r@), self.map_of(SymbolType::Trait), |s: SymbolView| all(s)),
    {
        self.list(SymbolType::Trait, Ghost(|s: SymbolView| all(s)), false, false, false)
    }

    /// All interface symbols.
    pub fn get_interfaces(&self) -> (r: Vec<DiscoveredSymbol>)
        ensures
            enumerates(symbol_views(r@), self.map_of(SymbolType::Interface), |s: SymbolView| all(s)),
    {
        self.list(SymbolType::Interface, Ghost(|s: SymbolView| all(s)), false, false, false)
    }

    /// All symbols: namespaces, then classes, interfaces, traits, functions, constants.
    pub fn get_all_symbols(&self) -> (r: Vec<DiscoveredSymbol>)
        ensures
            exists|a: Seq<SymbolView>, b: Seq<SymbolView>, c: Seq<SymbolView>, d: Seq<SymbolView>, e: Seq<SymbolView>, f: Seq<SymbolView>|
                #![trigger enumerates_all(a, self.map_of(SymbolType::Namespace)), enumerates_all(b, self.map_of(SymbolType::Class)), enumerates_all(c, self.map_of(SymbolType::Interface)), enumerates_all(d, self.map_of(SymbolType::Trait)), enumerates_all(e, self.map_of(SymbolType::Function)), enumerates_all(f, self.map_of(SymbolType::Constant))]
                enumerates_all(a, self.map_of(SymbolType::Namespace))
                && enumerates_all(b, self.map_of(SymbolType::Class))
                && enumerates_all(c, self.map_of(SymbolType::Interface))
                && enumerates_all(d, self.map_of(SymbolType::Trait))
                && enumerates_all(e, self.map_of(SymbolType::Function))
                && enumerates_all(f, self.map_of(SymbolType::Constant))
                && symbol_views(r@) == a + b + c + d + e + f,
            lists_every_symbol(*self, symbol_views(r@)),
    {
        proof {
            use_type_invariant(self);
        }
        let mut all_syms = self.get_namespaces();
        let ghost a = symbol_views(all_syms@);
        let mut b = self.get_all_classes();
        let ghost bv = symbol_views(b@);
        all_syms.append(&mut b);
        let mut c = self.get_interfaces();
        let ghost cv = symbol_views(c@);
        all_syms.append(&mut c);
        let mut d = self.get_traits();
        let ghost dv = symbol_views(d@);
        all_syms.append(&mut d);
        let mut e = self.get_functions();
        let ghost ev = symbol_views(e@);
        all_syms.append(&mut e);
        let mut f = self.get_constants();
        let ghost fv = symbol_views(f@);
        all_syms.append(&mut f);
        assert(symbol_views(all_syms@) =~= a + bv + cv + dv + ev + fv);
        assert(enumerates_all(a, self.map_of(SymbolType::Namespace)));
        assert(enumerates_all(bv, self.map_of(SymbolType::Class)));
        assert(enumerates_all(cv, self.map_of(SymbolType::Interface)));
        assert(enumerates_all(dv, self.map_of(SymbolType::Trait)));
        assert(enumerates_all(ev, self.map_of(SymbolType::Function)));
        assert(enumerates_all(fv, self.map_of(SymbolType::Constant)));
        proof {
            lemma_segments_list_every_symbol(*self, a, bv, cv, dv, ev, fv);
        }
        all_syms
    }

    /// All symbols, to be changed and stored back with [`DiscoveredSymbols::update_symbols`].
    pub fn all_symbols_mut(&self) -> (r: Vec<DiscoveredSymbol>)
        ensures
            lists_every_symbol(*self, symbol_views(r@)),
    {
        self.get_all_symbols()
    }

    /// The symbol with this original name, searching namespaces, classes, interfaces,
    /// traits, functions and constants in that order.
    pub fn get_symbol_by_original(&self, original: &str) -> (r: Option<DiscoveredSymbol>)
        ensures
            match first_kind_with(self, original@) {
                Some(t) => r matches Some(s) && s@ == self.map_of(t)[original@],
                None => r is None,
            },
    {
        if let Some(s) = map_get(&self.namespaces, original) { return Some(s); }
        if let Some(s) = map_get(&self.classes, original) { return Some(s); }
        if let Some(s) = map_get(&self.interfaces, original) { return Some(s); }
        if let Some(s) = map_get(&self.traits, original) { return Some(s); }
        if let Some(s) = map_get(&self.functions, original) { return Some(s); }
        map_get(&self.constants, original)
    }

    /// The namespace symbol with this name.
    pub fn get_namespace_by_name(&self, namespace: &str) -> (r: Option<DiscoveredSymbol>)
        ensures
            match r {
                Some(s) => self.map_of(SymbolType::Namespace).contains_key(namespace@)
                    && s@ == self.map_of(SymbolType::Namespace)[namespace@],
                None => !self.map_of(SymbolType::Namespace).contains_key(namespace@),
            },
    {
        map_get(&self.namespaces, namespace)
    }

    /// Orders symbols by name length, shortest first, keeping equal lengths in order.
    fn sort_by_name_len(v: Vec<DiscoveredSymbol>) -> (r: Vec<DiscoveredSymbol>)
        ensures
            exists|p: Seq<usize>| #![trigger is_permutation(p, v@.len())]
                is_permutation(p, v@.len()) && r@.len() == v@.len()
                && (forall|k: int| 0 <= k < p.len() ==> r@[k]@ == v@[p[k] as int]@)
                && stably_sorted_by(symbol_views(v@).map_values(|s: SymbolView| name_len(s)), p, false),
    {
        let mut keys: Vec<usize> = Vec::new();
        let mut i: usize = 0;
        while i < v.len()
            invariant
                i <= v.len(),
                keys@.len() == i,
                forall|j: int| 0 <= j < i ==> keys@[j] == name_len(v@[j]@),
            decreases v.len() - i,
        {
            keys.push(v[i].original_symbol.as_str().len());
            i += 1;
        }
        assert(keys@ =~= symbol_views(v@).map_values(|s: SymbolView| name_len(s)));
        let p = stable_order(&keys, false);
        let mut out: Vec<DiscoveredSymbol> = Vec::new();
        let mut k: usize = 0;
        while k < p.len()
            invariant
                is_permutation(p@, v@.len()),
                k <= p.len(),
                out@.len() == k,
                forall|j: int| 0 <= j < k ==> out@[j]@ == v@[p@[j] as int]@,
            decreases p.len() - k,
        {
            out.push(v[p[k]].clone_symbol());
            k += 1;
        }
        assert(is_permutation(p@, v@.len()));
        out
    }

    /// The namespaces other than the root `\`, ordered by name length, shortest first.
    pub fn get_discovered_namespaces(&self) -> (r: Vec<DiscoveredSymbol>)
        ensures
            enumerates(symbol_views(r@), self.map_of(SymbolType::Namespace), |s: SymbolView| not_root(s)),
            forall|a: int, b: int| 0 <= a < b < r@.len() ==> name_len(r@[a]@) <= name_len(r@[b]@),
    {
        let v = self.list(SymbolType::Namespace, Ghost(|s: SymbolView| not_root(s)), false, false, true);
        let r = Self::sort_by_name_len(v);
        proof {
            lemma_permuted_enumerates(symbol_views(v@), symbol_views(r@), self.map_of(SymbolType::Namespace), |s: SymbolView| not_root(s));
            let p = choose|p: Seq<usize>| #![trigger is_permutation(p, v@.len())]
                is_permutation(p, v@.len()) && r@.len() == v@.len()
                && (forall|k: int| 0 <= k < p.len() ==> r@[k]@ == v@[p[k] as int]@)
                && stably_sorted_by(symbol_views(v@).map_values(|s: SymbolView| name_len(s)), p, false);
            let keys = symbol_views(v@).map_values(|s: SymbolView| name_len(s));
            assert forall|a: int, b: int| 0 <= a < b < r@.len() implies name_len(r@[a]@) <= name_len(r@[b]@) by {
                assert(r@[a]@ == v@[p[a] as int]@);
                assert(r@[b]@ == v@[p[b] as int]@);
                assert(symbol_views(v@)[p[a] as int] == v@[p[a] as int]@);
                assert(symbol_views(v@)[p[b] as int] == v@[p[b] as int]@);
                assert(keys[p[a] as int] == name_len(v@[p[a] as int]@));
                assert(keys[p[b] as int] == name_len(v@[p[b] as int]@));
                assert(crate::sorting::key_le(keys[p[a] as int], keys[p[b] as int], false));
            }
        }
        r
    }

    /// The global classes marked for renaming.
    pub fn get_global_class_changes(&self) -> (r: Vec<DiscoveredSymbol>)
        ensures
            enumerates(symbol_views(r@), self.map_of(SymbolType::Class), |s: SymbolView| global_renamed(s)),
    {
        self.list(SymbolType::Class, Ghost(|s: SymbolView| global_renamed(s)), true, true, false)
    }

    /// The non-root namespaces marked for renaming, shortest name first.
    pub fn get_namespace_changes(&self) -> (r: Vec<DiscoveredSymbol>)
        ensures
            enumerates(symbol_views(r@), self.map_of(SymbolType::Namespace), |s: SymbolView| not_root_renamed(s)),
            forall|a: int, b: int| 0 <= a < b < r@.len() ==> name_len(r@[a]@) <= name_len(r@[b]@),
    {
        let v = self.list(SymbolType::Namespace, Ghost(|s: SymbolView| not_root_renamed(s)), false, true, true);
        let r = Self::sort_by_name_len(v);
        proof {
            lemma_permuted_enumerates(symbol_views(v@), symbol_views(r@), self.map_of(SymbolType::Namespace), |s: SymbolView| not_root_renamed(s));
            let p = choose|p: Seq<usize>| #![trigger is_permutation(p, v@.len())]
                is_permutation(p, v@.len()) && r@.len() == v@.len()
                && (forall|k: int| 0 <= k < p.len() ==> r@[k]@ == v@[p[k] as int]@)
                && stably_sorted_by(symbol_views(v@).map_values(|s: SymbolView| name_len(s)), p, false);
            let keys = symbol_views(v@).map_values(|s: SymbolView| name_len(s));
            assert forall|a: int, b: int| 0 <= a < b < r@.len() implies name_len(r@[a]@) <= name_len(r@[b]@) by {
                assert(r@[a]@ == v@[p[a] as int]@);
                assert(r@[b]@ == v@[p[b] as int]@);
                assert(symbol_views(v@)[p[a] as int] == v@[p[a] as int]@);
                assert(symbol_views(v@)[p[b] as int] == v@[p[b] as int]@);
                assert(keys[p[a] as int] == name_len(v@[p[a] as int]@));
                assert(keys[p[b] as int] == name_len(v@[p[b] as int]@));
                assert(crate::sorting::key_le(keys[p[a] as int], keys[p[b] as int], false));
            }
        }
        r
    }

    /// The functions marked for renaming.
    pub fn get_function_changes(&self) -> (r: Vec<DiscoveredSymbol>)
        ensures
            enumerates(symbol_views(r@), self.map_of(SymbolType::Function), |s: SymbolView| renamed(s)),
    {
        self.list(SymbolType::Function, Ghost(|s: SymbolView| renamed(s)), false, true, false)
    }

    /// The autoloadable symbols: global classes, then interfaces, then traits.
    pub fn get_classmap_symbols(&self) -> (r: Vec<DiscoveredSymbol>)
        ensures
            exists|a: Seq<SymbolView>, b: Seq<SymbolView>, c: Seq<SymbolView>|
                #![trigger enumerates_global(a, self.map_of(SymbolType::Class)), enumerates_all(b, self.map_of(SymbolType::Interface)), enumerates_all(c, self.map_of(SymbolType::Trait))]
                enumerates_global(a, self.map_of(SymbolType::Class))
                && enumerates_all(b, self.map_of(SymbolType::Interface))
                && enumerates_all(c, self.map_of(SymbolType::Trait))
                && symbol_views(r@) == a + b + c,
    {
        let mut result = self.get_classes();
        let ghost a = symbol_views(result@);
        let mut b = self.get_interfaces();
        let ghost bv = symbol_views(b@);
        result.append(&mut b);
        let mut c = self.get_traits();
        let ghost cv = symbol_views(c@);
        result.append(&mut c);
        assert(symbol_views(result@) =~= a + bv + cv);
        assert(enumerates_global(a, self.map_of(SymbolType::Class)));
        assert(enumerates_all(bv, self.map_of(SymbolType::Interface)));
        assert(enumerates_all(cv, self.map_of(SymbolType::Trait)));
        result
    }

    /// The total number of symbols.
    pub fn len(&self) -> (r: usize)
        requires
            self.map_of(SymbolType::Namespace).len() + self.map_of(SymbolType::Class).len()
                + self.map_of(SymbolType::Interface).len() + self.map_of(SymbolType::Trait).len()
                + self.map_of(SymbolType::Function).len() + self.map_of(SymbolType::Constant).len() <= usize::MAX,
        ensures
            r == self.map_of(SymbolType::Namespace).len() + self.map_of(SymbolType::Class).len()
                + self.map_of(SymbolType::Interface).len() + self.map_of(SymbolType::Trait).len()
                + self.map_of(SymbolType::Function).len() + self.map_of(SymbolType::Constant).len(),
    {
        map_len(&self.namespaces) + map_len(&self.classes) + map_len(&self.interfaces)
            + map_len(&self.traits) + map_len(&self.functions) + map_len(&self.constants)
    }

    /// Whether there are no symbols at all.
    pub fn is_empty(&self) -> (r: bool)
        ensures
            r == (self.map_of(SymbolType::Namespace).len() == 0 && self.map_of(SymbolType::Class).len() == 0
                && self.map_of(SymbolType::Interface).len() == 0 && self.map_of(SymbolType::Trait).len() == 0
                && self.map_of(SymbolType::Function).len() == 0 && self.map_of(SymbolType::Constant).len() == 0),
    {
        map_len(&self.namespaces) == 0 && map_len(&self.classes) == 0 && map_len(&self.interfaces) == 0
            && map_len(&self.traits) == 0 && map_len(&self.functions) == 0 && map_len(&self.constants) == 0
    }

    /// The classes in the global namespace (same as [`DiscoveredSymbols::get_classes`]).
    pub fn get_global_classes(&self) -> (r: Vec<DiscoveredSymbol>)
        ensures
            enumerates(symbol_views(r@), self.map_of(SymbolType::Class), |s: SymbolView| global(s)),
    {
        self.get_classes()
    }

    /// Stores each symbol in its kind's map under its original name, replacing what
    /// was there; later entries of `symbols` win.
    pub fn update_symbols(&mut self, symbols: Vec<DiscoveredSymbol>)
        ensures
            forall|t: SymbolType| #[trigger] final(self).map_of(t) == stored(old(self).map_of(t), symbol_views(symbols@), t),
    {
        let mut i: usize = 0;
        while i < symbols.len()
            invariant
                i <= symbols.len(),
                forall|t: SymbolType| #[trigger] self.map_of(t) == stored(old(self).map_of(t), symbol_views(symbols@).take(i as int), t),
            decreases symbols.len() - i,
        {
            let s = symbols[i].clone_symbol();
            let key = s.original_symbol.clone();
            let ghost pre = *self;
            self.insert_into(key, s);
            proof {
                assert forall|t: SymbolType| #[trigger] self.map_of(t) == stored(old(self).map_of(t), symbol_views(symbols@).take(i + 1), t) by {
                    assert(symbol_views(symbols@).take(i + 1).drop_last() == symbol_views(symbols@).take(i as int));
                }
            }
            i += 1;
        }
        assert(symbol_views(symbols@).take(symbols.len() as int) == symbol_views(symbols@));
    }
}

/// The map `m` of kind `t` after storing, in order, those of `syms` that are of kind `t`.
pub open spec fn stored(m: Map<Seq<char>, SymbolView>, syms: Seq<SymbolView>, t: SymbolType) -> Map<Seq<char>, SymbolView>
    decreases syms.len(),
{
    if syms.len() == 0 {
        m
    } else {
        let prev = stored(m, syms.drop_last(), t);
        if syms.last().symbol_type == t {
            prev.insert(syms.last().original_symbol, syms.last())
        } else {
            prev
        }
    }
}

/// The first kind, in search order, whose map holds the name.
pub open spec fn first_kind_with(s: &DiscoveredSymbols, name: Seq<char>) -> Option<SymbolType> {
    if s.map_of(SymbolType::Namespace).contains_key(name) {
        Some(SymbolType::Namespace)
    } else if s.map_of(SymbolType::Class).contains_key(name) {
        Some(SymbolType::Class)
    } else if s.map_of(SymbolType::Interface).contains_key(name) {
        Some(SymbolType::Interface)
    } else if s.map_of(SymbolType::Trait).contains_key(name) {
        Some(SymbolType::Trait)
    } else if s.map_of(SymbolType::Function).contains_key(name) {
        Some(SymbolType::Function)
    } else if s.map_of(SymbolType::Constant).contains_key(name) {
        Some(SymbolType::Constant)
    } else {
        None
    }
}

/// Reordering an enumeration keeps it an enumeration.
proof fn lemma_permuted_enumerates(v: Seq<SymbolView>, r: Seq<SymbolView>, m: Map<Seq<char>, SymbolView>, keep: spec_fn(SymbolView) -> bool)
    requires
        enumerates(v, m, keep),
        exists|p: Seq<usize>| #![trigger is_permutation(p, v.len())]
            is_permutation(p, v.len()) && r.len() == v.len()
            && (forall|k: int| 0 <= k < p.len() ==> r[k] == v[p[k] as int]),
    ensures
        enumerates(r, m, keep),
{
    let p = choose|p: Seq<usize>| #![trigger is_permutation(p, v.len())]
        is_permutation(p, v.len()) && r.len() == v.len()
        && (forall|k: int| 0 <= k < p.len() ==> r[k] == v[p[k] as int]);
    assert forall|k: Seq<char>| m.contains_key(k) && keep(m[k]) implies exists|i: int| 0 <= i < r.len() && #[trigger] r[i].original_symbol == k by {
        let a = choose|a: int| 0 <= a < v.len() && #[trigger] v[a].original_symbol == k;
        lemma_permutation_onto(p, v.len(), a);
        let i = choose|i: int| 0 <= i < p.len() && p[i] == a;
        assert(r[i] == v[a]);
    }
    assert forall|i: int, j: int| 0 <= i < j < r.len() implies r[i].original_symbol != r[j].original_symbol by {
        assert(p[i] != p[j]);
        assert(r[i] == v[p[i] as int]);
        assert(r[j] == v[p[j] as int]);
        if p[i] < p[j] {
        } else {
        }
    }
    assert forall|i: int| 0 <= i < r.len() implies m.contains_key(#[trigger] r[i].original_symbol)
        && m[r[i].original_symbol] == r[i] && keep(r[i]) by {
        assert(r[i] == v[p[i] as int]);
    }
}

/// A permutation of `0..n` reaches every index.
pub proof fn lemma_permutation_onto(p: Seq<usize>, n: nat, a: int)
    requires
        is_permutation(p, n),
        0 <= a < n,
    ensures
        exists|i: int| 0 <= i < p.len() && p[i] == a,
{
    if !(exists|i: int| 0 <= i < p.len() && p[i] == a) {
        let f = |i: int| p[i] as int;
        let dom = vstd::set_lib::set_int_range(0, n as int);
        let rng = vstd::set_lib::set_int_range(0, n as int).remove(a);
        vstd::set_lib::lemma_int_range(0, n as int);
        let img = dom.map(f);
        assert(vstd::relations::injective_on(f, dom)) by {
            assert forall|x: int, y: int| dom.contains(x) && dom.contains(y) && #[trigger] f(x) == #[trigger] f(y) implies x == y by {
                if x < y {
                    assert(p[x] != p[y]);
                } else if y < x {
                    assert(p[y] != p[x]);
                }
            }
        }
        vstd::set_lib::lemma_map_size(dom, img, f);
        assert(img.subset_of(rng)) by {
            assert forall|x: int| img.contains(x) implies rng.contains(x) by {
                let i = choose|i: int| dom.contains(i) && f(i) == x;
                assert(p[i] < n);
            }
        }
        vstd::set_lib::lemma_len_subset(img, rng);
        assert(false);
    }
}

/// `l` lists every stored symbol, each as stored under its own kind, and nothing else.
pub open spec fn lists_every_symbol(s: DiscoveredSymbols, l: Seq<SymbolView>) -> bool {
    &&& forall|i: int| 0 <= i < l.len() ==> #[trigger] s.map_of(l[i].symbol_type).contains_key(l[i].original_symbol)
            && s.map_of(l[i].symbol_type)[l[i].original_symbol] == l[i]
    &&& forall|t: SymbolType, k: Seq<char>| #[trigger] s.map_of(t).contains_key(k)
            ==> exists|i: int| 0 <= i < l.len() && #[trigger] l[i].original_symbol == k && l[i].symbol_type == t
}

/// The map after storing a prefix of the changed listing: keys listed so far
/// (with the map's kind) hold their changed symbol, the others are unchanged.
pub open spec fn changed_upto(
    m: Map<Seq<char>, SymbolView>,
    l: Seq<SymbolView>,
    n: int,
    t: SymbolType,
    g: spec_fn(SymbolView) -> SymbolView,
) -> Map<Seq<char>, SymbolView> {
    Map::new(
        |k: Seq<char>| m.contains_key(k),
        |k: Seq<char>| if exists|i: int| 0 <= i < n && l[i].symbol_type == t && #[trigger] l[i].original_symbol == k {
            g(m[k])
        } else {
            m[k]
        },
    )
}

/// A change of symbols that keeps each symbol's name and kind.
pub open spec fn keeps_identity(g: spec_fn(SymbolView) -> SymbolView) -> bool {
    forall|x: SymbolView| (#[trigger] g(x)).original_symbol == x.original_symbol && g(x).symbol_type == x.symbol_type
}

proof fn lemma_store_changed_prefix(
    m: Map<Seq<char>, SymbolView>,
    t: SymbolType,
    l: Seq<SymbolView>,
    u: Seq<SymbolView>,
    g: spec_fn(SymbolView) -> SymbolView,
    n: int,
)
    requires
        0 <= n <= l.len(),
        u.len() == l.len(),
        forall|i: int| 0 <= i < l.len() ==> #[trigger] u[i] == g(l[i]),
        keeps_identity(g),
        forall|i: int| 0 <= i < l.len() && #[trigger] l[i].symbol_type == t
            ==> m.contains_key(l[i].original_symbol) && m[l[i].original_symbol] == l[i],
    ensures
        stored(m, u.take(n), t) == changed_upto(m, l, n, t, g),
    decreases n,
{
    if n == 0 {
        assert(u.take(0) =~= Seq::<SymbolView>::empty());
        assert(stored(m, u.take(0), t) =~= changed_upto(m, l, 0, t, g));
    } else {
        lemma_store_changed_prefix(m, t, l, u, g, n - 1);
        assert(u.take(n).drop_last() == u.take(n - 1));
        assert(u.take(n).last() == u[n - 1]);
        let x = l[n - 1];
        assert(u[n - 1] == g(x));
        assert(g(x).original_symbol == x.original_symbol && g(x).symbol_type == x.symbol_type);
        if x.symbol_type == t {
            assert(m.contains_key(x.original_symbol) && m[x.original_symbol] == x);
            assert(stored(m, u.take(n), t) =~= changed_upto(m, l, n, t, g)) by {
                assert forall|k: Seq<char>| #[trigger] changed_upto(m, l, n, t, g).contains_key(k) implies
                    stored(m, u.take(n), t)[k] == changed_upto(m, l, n, t, g)[k] by {
                    if k != x.original_symbol {
                        if exists|i: int| 0 <= i < n && l[i].symbol_type == t && #[trigger] l[i].original_symbol == k {
                            let i = choose|i: int| 0 <= i < n && l[i].symbol_type == t && #[trigger] l[i].original_symbol == k;
                            assert(i < n - 1);
                        }
                    }
                }
            }
        } else {
            assert(stored(m, u.take(n), t) =~= changed_upto(m, l, n, t, g)) by {
                assert forall|k: Seq<char>| #[trigger] changed_upto(m, l, n, t, g).contains_key(k) implies
                    stored(m, u.take(n), t)[k] == changed_upto(m, l, n, t, g)[k] by {
                    if exists|i: int| 0 <= i < n && l[i].symbol_type == t && #[trigger] l[i].original_symbol == k {
                        let i = choose|i: int| 0 <= i < n && l[i].symbol_type == t && #[trigger] l[i].original_symbol == k;
                        assert(i < n - 1);
                    }
                }
            }
        }
    }
}

/// Storing a changed copy of a listing of every symbol changes each stored
/// symbol, and nothing else.
pub proof fn lemma_store_every_changed(
    s: DiscoveredSymbols,
    l: Seq<SymbolView>,
    u: Seq<SymbolView>,
    g: spec_fn(SymbolView) -> SymbolView,
    t: SymbolType,
)
    requires
        lists_every_symbol(s, l),
        u.len() == l.len(),
        forall|i: int| 0 <= i < l.len() ==> #[trigger] u[i] == g(l[i]),
        keeps_identity(g),
    ensures
        stored(s.map_of(t), u, t) == s.map_of(t).map_values(g),
{
    let m = s.map_of(t);
    assert forall|i: int| 0 <= i < l.len() && #[trigger] l[i].symbol_type == t
        implies m.contains_key(l[i].original_symbol) && m[l[i].original_symbol] == l[i] by {
        assert(s.map_of(l[i].symbol_type).contains_key(l[i].original_symbol));
    }
    lemma_store_changed_prefix(m, t, l, u, g, l.len() as int);
    assert(u.take(l.len() as int) == u);
    assert(changed_upto(m, l, l.len() as int, t, g) =~= m.map_values(g)) by {
        assert forall|k: Seq<char>| #[trigger] m.contains_key(k) implies
            changed_upto(m, l, l.len() as int, t, g)[k] == m.map_values(g)[k] by {
            assert(s.map_of(t).contains_key(k));
            let i = choose|i: int| 0 <= i < l.len() && #[trigger] l[i].original_symbol == k && l[i].symbol_type == t;
            assert(l[i].symbol_type == t && l[i].original_symbol == k);
        }
    }
}

/// Listings of each kind's map, one after the other, list every symbol.
proof fn lemma_segments_list_every_symbol(
    s: DiscoveredSymbols,
    a: Seq<SymbolView>,
    b: Seq<SymbolView>,
    c: Seq<SymbolView>,
    d: Seq<SymbolView>,
    e: Seq<SymbolView>,
    f: Seq<SymbolView>,
)
    requires
        s.wf(),
        enumerates_all(a, s.map_of(SymbolType::Namespace)),
        enumerates_all(b, s.map_of(SymbolType::Class)),
        enumerates_all(c, s.map_of(SymbolType::Interface)),
        enumerates_all(d, s.map_of(SymbolType::Trait)),
        enumerates_all(e, s.map_of(SymbolType::Function)),
        enumerates_all(f, s.map_of(SymbolType::Constant)),
    ensures
        lists_every_symbol(s, a + b + c + d + e + f),
{
    let l = a + b + c + d + e + f;
    assert(map_wf(s.map_of(SymbolType::Namespace), SymbolType::Namespace));
    assert(map_wf(s.map_of(SymbolType::Class), SymbolType::Class));
    assert(map_wf(s.map_of(SymbolType::Interface), SymbolType::Interface));
    assert(map_wf(s.map_of(SymbolType::Trait), SymbolType::Trait));
    assert(map_wf(s.map_of(SymbolType::Function), SymbolType::Function));
    assert(map_wf(s.map_of(SymbolType::Constant), SymbolType::Constant));
    let na = a.len() as int;
    let nb = na + b.len();
    let nc = nb + c.len();
    let nd = nc + d.len();
    let ne = nd + e.len();
    assert forall|i: int| 0 <= i < l.len() implies #[trigger] s.map_of(l[i].symbol_type).contains_key(l[i].original_symbol)
        && s.map_of(l[i].symbol_type)[l[i].original_symbol] == l[i] by {
        if i < na {
            assert(l[i] == a[i]);
            assert(s.map_of(SymbolType::Namespace).contains_key(a[i].original_symbol));
        } else if i < nb {
            assert(l[i] == b[i - na]);
            assert(s.map_of(SymbolType::Class).contains_key(b[i - na].original_symbol));
        } else if i < nc {
            assert(l[i] == c[i - nb]);
            assert(s.map_of(SymbolType::Interface).contains_key(c[i - nb].original_symbol));
        } else if i < nd {
            assert(l[i] == d[i - nc]);
            assert(s.map_of(SymbolType::Trait).contains_key(d[i - nc].original_symbol));
        } else if i < ne {
            assert(l[i] == e[i - nd]);
            assert(s.map_of(SymbolType::Function).contains_key(e[i - nd].original_symbol));
        } else {
            assert(l[i] == f[i - ne]);
            assert(s.map_of(SymbolType::Constant).contains_key(f[i - ne].original_symbol));
        }
    }
    assert forall|t: SymbolType, k: Seq<char>| #[trigger] s.map_of(t).contains_key(k)
        implies exists|i: int| 0 <= i < l.len() && #[trigger] l[i].original_symbol == k && l[i].symbol_type == t by {
        assert(map_wf(s.map_of(t), t));
        match t {
            SymbolType::Namespace => {
                let j = choose|j: int| 0 <= j < a.len() && #[trigger] a[j].original_symbol == k;
                assert(l[j] == a[j]);
            },
            SymbolType::Class => {
                let j = choose|j: int| 0 <= j < b.len() && #[trigger] b[j].original_symbol == k;
                assert(l[na + j] == b[j]);
            },
            SymbolType::Interface => {
                let j = choose|j: int| 0 <= j < c.len() && #[trigger] c[j].original_symbol == k;
                assert(l[nb + j] == c[j]);
            },
            SymbolType::Trait => {
                let j = choose|j: int| 0 <= j < d.len() && #[trigger] d[j].original_symbol == k;
                assert(l[nc + j] == d[j]);
            },
            SymbolType::Function => {
                let j = choose|j: int| 0 <= j < e.len() && #[trigger] e[j].original_symbol == k;
                assert(l[nd + j] == e[j]);
            },
            SymbolType::Constant => {
                let j = choose|j: int| 0 <= j < f.len() && #[trigger] f[j].original_symbol == k;
                assert(l[ne + j] == f[j]);
            },
        }
    }
}

/// The map of kind `t` after adding one symbol: a new name is stored, a known one
/// gains the symbol's source files; other kinds are left alone.
pub open spec fn added_one(m: Map<Seq<char>, SymbolView>, s: SymbolView, t: SymbolType) -> Map<Seq<char>, SymbolView> {
    if t == s.symbol_type {
        m.insert(
            s.original_symbol,
            if m.contains_key(s.original_symbol) {
                merge_sources(m[s.original_symbol], s.source_files)
            } else {
                s
            },
        )
    } else {
        m
    }
}

/// A symbol added is found again by its name: some kind holds the name, and the
/// symbol stored under it in the symbol's own kind has that name and kind and
/// lists every source file of the added symbol.
pub proof fn law_found_after_add(before: DiscoveredSymbols, s: SymbolView, after: DiscoveredSymbols)
    requires
        before.wf(),
        forall|t: SymbolType| #[trigger] after.map_of(t) == added_one(before.map_of(t), s, t),
    ensures
        first_kind_with(&after, s.original_symbol) is Some,
        after.map_of(s.symbol_type).contains_key(s.original_symbol),
        after.map_of(s.symbol_type)[s.original_symbol].original_symbol == s.original_symbol,
        after.map_of(s.symbol_type)[s.original_symbol].symbol_type == s.symbol_type,
        forall|f: Seq<char>| s.source_files.contains(f) ==> after.map_of(s.symbol_type)[s.original_symbol].source_files.contains(f),
{
    let t = s.symbol_type;
    let m = before.map_of(t);
    assert(map_wf(m, t));
    assert(after.map_of(t) == added_one(m, s, t));
    if m.contains_key(s.original_symbol) {
        law_merge_sources(m[s.original_symbol], s.source_files);
    }
    assert(after.map_of(t).contains_key(s.original_symbol));
    match t {
        SymbolType::Namespace => {},
        SymbolType::Class => {},
        SymbolType::Interface => {},
        SymbolType::Trait => {},
        SymbolType::Function => {},
        SymbolType::Constant => {},
    }
}

/// Merging source files keeps every file listed before, adds each new one once,
/// and changes nothing else of the symbol.
pub proof fn law_merge_sources(s: SymbolView, files: Seq<Seq<char>>)
    ensures
        merge_sources(s, files) == (SymbolView { source_files: merge_sources(s, files).source_files, ..s }),
        forall|f: Seq<char>| #[trigger] merge_sources(s, files).source_files.contains(f)
            <==> (s.source_files.contains(f) || files.contains(f)),
        s.source_files.no_duplicates() ==> merge_sources(s, files).source_files.no_duplicates(),
    decreases files.len(),
{
    if files.len() > 0 {
        let prev = merge_sources(s, files.drop_last());
        law_merge_sources(s, files.drop_last());
        let f0 = files.last();
        assert forall|f: Seq<char>| #[trigger] merge_sources(s, files).source_files.contains(f)
            <==> (s.source_files.contains(f) || files.contains(f)) by {
            if files.drop_last().contains(f) {
                let i = choose|i: int| 0 <= i < files.drop_last().len() && files.drop_last()[i] == f;
                assert(files[i] == f);
            }
            if files.contains(f) && f != f0 {
                let i = choose|i: int| 0 <= i < files.len() && files[i] == f;
                assert(files.drop_last()[i] == f);
            }
            if !prev.source_files.contains(f0) {
                let ps = prev.source_files.push(f0);
                if ps.contains(f) && f != f0 {
                    let i = choose|i: int| 0 <= i < ps.len() && ps[i] == f;
                    assert(prev.source_files[i] == f);
                }
                if prev.source_files.contains(f) {
                    let i = choose|i: int| 0 <= i < prev.source_files.len() && prev.source_files[i] == f;
                    assert(ps[i] == f);
                }
                assert(ps[prev.source_files.len() as int] == f0);
            }
            assert(files[files.len() - 1] == f0);
        }
        if s.source_files.no_duplicates() && !prev.source_files.contains(f0) {
            let ps = prev.source_files.push(f0);
            assert forall|a: int, b: int| 0 <= a < ps.len() && 0 <= b < ps.len() && a != b implies ps[a] != ps[b] by {
                if b == prev.source_files.len() {
                    assert(prev.source_files.contains(ps[a]) || ps[a] != f0);
                } else if a == prev.source_files.len() {
                    assert(prev.source_files.contains(ps[b]) || ps[b] != f0);
                }
            }
        }
    }
}

} // verus!
