//! Per-file reference data: which names a PHP file mentions.

use vstd::prelude::*;
use crate::strs::{clone_strings, chars_contain, contains_sub, from_char_range, is_prefix, lemma_set_of_push, replace_char, replace_char_str, seqs, set_of, starts_with, to_chars, trim_start, trim_start_char, concat, vec_contains_str, contains};

verus! {

/// The names a PHP file mentions, used to keep only the relevant symbols for that file.
#[derive(Debug, Clone, Default)]
pub struct FileReferences {
    /// Namespace-like names (single backslash form), with all their parent prefixes.
    pub namespace_references: Vec<String>,
    /// Simple identifiers that may name a class, function or constant.
    pub identifier_references: Vec<String>,
    /// Contents of string literals that hold a backslash.
    pub string_namespace_references: Vec<String>,
}

/// The mathematical value of [`FileReferences`]: three sets of names.
pub struct FileReferencesView {
    pub namespaces: Set<Seq<char>>,
    pub identifiers: Set<Seq<char>>,
    pub strings: Set<Seq<char>>,
}

impl View for FileReferences {
    type V = FileReferencesView;

    open spec fn view(&self) -> FileReferencesView {
        FileReferencesView {
            namespaces: set_of(self.namespace_references@),
            identifiers: set_of(self.identifier_references@),
            strings: set_of(self.string_namespace_references@),
        }
    }
}

/// `ns` with every backslash doubled, as it appears inside a PHP string literal.
pub open spec fn doubled_backslashes(ns: Seq<char>) -> Seq<char> {
    replace_char(ns, '\\', seq!['\\', '\\'])
}

/// Whether references of a file may mention the namespace `ns`: it is referenced
/// itself, a child of it is referenced, or a string literal holds it with single or
/// doubled backslashes.
pub open spec fn could_reference_ns(refs: FileReferencesView, ns: Seq<char>) -> bool {
    ||| refs.namespaces.contains(ns)
    ||| exists|r: Seq<char>| refs.namespaces.contains(r) && is_prefix(ns.push('\\'), r)
    ||| exists|s: Seq<char>| refs.strings.contains(s)
            && (contains_sub(s, ns) || contains_sub(s, doubled_backslashes(ns)))
}

/// The names recorded for a namespace: the name without leading backslashes, and each
/// of its prefixes that ends just before a backslash.
pub open spec fn namespace_with_prefixes(ns: Seq<char>) -> Set<Seq<char>> {
    let clean = trim_start(ns, '\\');
    if clean.len() == 0 {
        Set::empty()
    } else {
        Set::new(|x: Seq<char>| x == clean
            || exists|i: int| 0 <= i < clean.len() && clean[i] == '\\' && x == clean.take(i))
    }
}

impl FileReferences {
    /// A copy of these references.
    pub fn clone_refs(&self) -> (r: Self)
        ensures
            r@ == self@,
    {
        let r = FileReferences {
            namespace_references: clone_strings(&self.namespace_references),
            identifier_references: clone_strings(&self.identifier_references),
            string_namespace_references: clone_strings(&self.string_namespace_references),
        };
        assert(r@.namespaces =~= self@.namespaces);
        assert(r@.identifiers =~= self@.identifiers);
        assert(r@.strings =~= self@.strings);
        r
    }

    /// No references.
    pub fn new() -> (r: Self)
        ensures
            r@.namespaces == Set::<Seq<char>>::empty(),
            r@.identifiers == Set::<Seq<char>>::empty(),
            r@.strings == Set::<Seq<char>>::empty(),
    {
        let r = FileReferences {
            namespace_references: Vec::new(),
            identifier_references: Vec::new(),
            string_namespace_references: Vec::new(),
        };
        assert(r@.namespaces =~= Set::<Seq<char>>::empty());
        assert(r@.identifiers =~= Set::<Seq<char>>::empty());
        assert(r@.strings =~= Set::<Seq<char>>::empty());
        r
    }

    /// Whether this file may mention the namespace (see [`could_reference_ns`]).
    pub fn could_reference_namespace(&self, namespace: &str) -> (r: bool)
        ensures
            r == could_reference_ns(self@, namespace@),
    {
        if vec_contains_str(&self.namespace_references, namespace) {
            return true;
        }
        let mut prefix = namespace.to_owned();
        crate::strs::push_char(&mut prefix, '\\');
        let mut i: usize = 0;
        while i < self.namespace_references.len()
            invariant
                i <= self.namespace_references.len(),
                prefix@ == namespace@.push('\\'),
                forall|j: int| 0 <= j < i ==> !is_prefix(prefix@, #[trigger] self.namespace_references@[j]@),
            decreases self.namespace_references.len() - i,
        {
            if starts_with(self.namespace_references[i].as_str(), prefix.as_str()) {
                assert(seqs(self.namespace_references@)[i as int] == self.namespace_references@[i as int]@);
                assert(self@.namespaces.contains(self.namespace_references@[i as int]@));
                return true;
            }
            i += 1;
        }
        let double_bs = replace_char_str(namespace, '\\', "\\\\");
        proof {
            reveal_strlit("\\\\");
            assert("\\\\"@ =~= seq!['\\', '\\']);
        }
        let mut k: usize = 0;
        while k < self.string_namespace_references.len()
            invariant
                k <= self.string_namespace_references.len(),
                double_bs@ == doubled_backslashes(namespace@),
                forall|j: int| 0 <= j < k ==> !contains_sub(#[trigger] self.string_namespace_references@[j]@, namespace@)
                    && !contains_sub(self.string_namespace_references@[j]@, double_bs@),
            decreases self.string_namespace_references.len() - k,
        {
            let s = self.string_namespace_references[k].as_str();
            if contains(s, namespace) || contains(s, double_bs.as_str()) {
                assert(seqs(self.string_namespace_references@)[k as int] == self.string_namespace_references@[k as int]@);
                assert(self@.strings.contains(self.string_namespace_references@[k as int]@));
                return true;
            }
            k += 1;
        }
        proof {
            assert forall|r: Seq<char>| self@.namespaces.contains(r) implies !is_prefix(namespace@.push('\\'), r) by {
                let j = choose|j: int| 0 <= j < seqs(self.namespace_references@).len() && seqs(self.namespace_references@)[j] == r;
                assert(self.namespace_references@[j]@ == r);
            }
            assert forall|s: Seq<char>| self@.strings.contains(s) implies
                !(contains_sub(s, namespace@) || contains_sub(s, doubled_backslashes(namespace@))) by {
                let j = choose|j: int| 0 <= j < seqs(self.string_namespace_references@).len() && seqs(self.string_namespace_references@)[j] == s;
                assert(self.string_namespace_references@[j]@ == s);
            }
        }
        false
    }

    /// Whether the simple identifier `name` appears in this file.
    pub fn could_reference_identifier(&self, name: &str) -> (r: bool)
        ensures
            r == self@.identifiers.contains(name@),
    {
        vec_contains_str(&self.identifier_references, name)
    }

    /// Records a namespace reference.
    pub fn insert_namespace(&mut self, name: String)
        ensures
            final(self)@.namespaces == old(self)@.namespaces.insert(name@),
            final(self)@.identifiers == old(self)@.identifiers,
            final(self)@.strings == old(self)@.strings,
    {
        if vec_contains_str(&self.namespace_references, name.as_str()) {
            assert(old(self)@.namespaces.insert(name@) =~= old(self)@.namespaces);
        } else {
            proof { lemma_set_of_push(self.namespace_references@, name); }
            self.namespace_references.push(name);
        }
    }

    /// Records a simple identifier reference.
    pub fn insert_identifier(&mut self, name: String)
        ensures
            final(self)@.identifiers == old(self)@.identifiers.insert(name@),
            final(self)@.namespaces == old(self)@.namespaces,
            final(self)@.strings == old(self)@.strings,
    {
        if vec_contains_str(&self.identifier_references, name.as_str()) {
            assert(old(self)@.identifiers.insert(name@) =~= old(self)@.identifiers);
        } else {
            proof { lemma_set_of_push(self.identifier_references@, name); }
            self.identifier_references.push(name);
        }
    }

    /// Records the contents of a string literal.
    pub fn insert_string(&mut self, text: String)
        ensures
            final(self)@.strings == old(self)@.strings.insert(text@),
            final(self)@.namespaces == old(self)@.namespaces,
            final(self)@.identifiers == old(self)@.identifiers,
    {
        if vec_contains_str(&self.string_namespace_references, text.as_str()) {
            assert(old(self)@.strings.insert(text@) =~= old(self)@.strings);
        } else {
            proof { lemma_set_of_push(self.string_namespace_references@, text); }
            self.string_namespace_references.push(text);
        }
    }

    /// Records a namespace and all its parent prefixes: `A\B\C` records `A\B\C`,
    /// `A\B` and `A`. Leading backslashes are ignored; an empty name records nothing.
    pub fn add_namespace_with_prefixes(&mut self, namespace: &str)
        ensures
            final(self)@ == with_namespace_prefixes(old(self)@, namespace@),
            final(self)@.namespaces == old(self)@.namespaces.union(namespace_with_prefixes(namespace@)),
            final(self)@.identifiers == old(self)@.identifiers,
            final(self)@.strings == old(self)@.strings,
    {
        let clean = trim_start_char(namespace, '\\');
        let c = to_chars(clean.as_str());
        if c.len() == 0 {
            assert(old(self)@.namespaces.union(namespace_with_prefixes(namespace@)) =~= old(self)@.namespaces);
            return;
        }
        let ghost target = namespace_with_prefixes(namespace@);
        let mut i: usize = 0;
        while i < c.len()
            invariant
                c@ == clean@,
                clean@ == trim_start(namespace@, '\\'),
                c@.len() > 0,
                i <= c.len(),
                target == namespace_with_prefixes(namespace@),
                self@.identifiers == old(self)@.identifiers,
                self@.strings == old(self)@.strings,
                self@.namespaces == old(self)@.namespaces.union(
                    Set::new(|x: Seq<char>| exists|j: int| 0 <= j < i && c@[j] == '\\' && x == c@.take(j))),
            decreases c.len() - i,
        {
            let ghost before = self@.namespaces;
            if c[i] == '\\' {
                let prefix = from_char_range(c.as_slice(), 0, i);
                assert(prefix@ == c@.take(i as int));
                self.insert_namespace(prefix);
            }
            i += 1;
            proof {
                assert(self@.namespaces =~= old(self)@.namespaces.union(
                    Set::new(|x: Seq<char>| exists|j: int| 0 <= j < i && c@[j] == '\\' && x == c@.take(j)))) by {
                    assert forall|x: Seq<char>| self@.namespaces.contains(x) implies old(self)@.namespaces.union(
                        Set::new(|x: Seq<char>| exists|j: int| 0 <= j < i && c@[j] == '\\' && x == c@.take(j))).contains(x) by {
                        if before.contains(x) {
                            if !old(self)@.namespaces.contains(x) {
                                let j = choose|j: int| 0 <= j < i - 1 && c@[j] == '\\' && x == c@.take(j);
                                assert(0 <= j < i && c@[j] == '\\' && x == c@.take(j));
                            }
                        } else {
                            assert(0 <= i - 1 < i && c@[i - 1] == '\\' && x == c@.take(i - 1));
                        }
                    }
                    assert forall|x: Seq<char>| old(self)@.namespaces.union(
                        Set::new(|x: Seq<char>| exists|j: int| 0 <= j < i && c@[j] == '\\' && x == c@.take(j))).contains(x)
                        implies self@.namespaces.contains(x) by {
                        if !old(self)@.namespaces.contains(x) {
                            let j = choose|j: int| 0 <= j < i && c@[j] == '\\' && x == c@.take(j);
                            if j < i - 1 {
                                assert(before.contains(x));
                            }
                        }
                    }
                }
            }
        }
        self.insert_namespace(clean);
        proof {
            assert(self@.namespaces =~= old(self)@.namespaces.union(target)) by {
                assert forall|x: Seq<char>| target.contains(x) <==> (x == c@
                    || exists|j: int| 0 <= j < c@.len() && c@[j] == '\\' && x == c@.take(j)) by {}
            }
        }
    }
}

/// The references after adding a namespace with its prefixes.
pub open spec fn with_namespace_prefixes(refs: FileReferencesView, ns: Seq<char>) -> FileReferencesView {
    FileReferencesView { namespaces: refs.namespaces.union(namespace_with_prefixes(ns)), ..refs }
}

/// Once a namespace is added with its prefixes, the file may reference that
/// namespace (without leading `\`) and each of its parent namespaces.
pub proof fn law_added_namespace_is_referenced(refs: FileReferencesView, ns: Seq<char>, i: int)
    requires
        trim_start(ns, '\\').len() > 0,
    ensures
        could_reference_ns(with_namespace_prefixes(refs, ns), trim_start(ns, '\\')),
        0 <= i < trim_start(ns, '\\').len() && trim_start(ns, '\\')[i] == '\\' ==> could_reference_ns(
            with_namespace_prefixes(refs, ns),
            trim_start(ns, '\\').take(i),
        ),
{
    let clean = trim_start(ns, '\\');
    assert(namespace_with_prefixes(ns).contains(clean));
    if 0 <= i < clean.len() && clean[i] == '\\' {
        assert(namespace_with_prefixes(ns).contains(clean.take(i)));
    }
}

/// Adding references never takes back what a file may reference.
pub proof fn law_adding_keeps_references(refs: FileReferencesView, ns: Seq<char>, name: Seq<char>)
    requires
        could_reference_ns(refs, name),
    ensures
        could_reference_ns(with_namespace_prefixes(refs, ns), name),
{
    let after = with_namespace_prefixes(refs, ns);
    if refs.namespaces.contains(name) {
        assert(after.namespaces.contains(name));
    } else if exists|r: Seq<char>| refs.namespaces.contains(r) && is_prefix(name.push('\\'), r) {
        let r = choose|r: Seq<char>| refs.namespaces.contains(r) && is_prefix(name.push('\\'), r);
        assert(after.namespaces.contains(r));
    }
}

} // verus!
