//! The collection of discovered files, keyed by source path.

use vstd::prelude::*;
use vstd::std_specs::iter::IteratorSpec;
use crate::strs::{lex_le, str_eq, to_chars};
use crate::sorting::{is_permutation, lex_order, lex_sorted_by};
use crate::types::file::{DiscoveredFile, FileView};

verus! {

/// Discovered files, at most one per source path.
#[derive(Debug)]
pub struct DiscoveredFiles {
    files: Vec<DiscoveredFile>,
}

/// The views of a list of files.
pub open spec fn file_views(v: Seq<DiscoveredFile>) -> Seq<FileView> {
    v.map_values(|f: DiscoveredFile| f@)
}

/// The index of the first file whose source path is `key`.
pub open spec fn index_of_key(files: Seq<FileView>, key: Seq<char>) -> Option<int>
    decreases files.len(),
{
    if files.len() == 0 {
        None
    } else {
        match index_of_key(files.drop_last(), key) {
            Some(i) => Some(i),
            None => if files.last().source_absolute_path == key {
                Some(files.len() - 1)
            } else {
                None
            },
        }
    }
}

/// No two files share a source path.
pub open spec fn keys_unique(files: Seq<FileView>) -> bool {
    forall|a: int, b: int| 0 <= a < b < files.len() ==> files[a].source_absolute_path != files[b].source_absolute_path
}

/// `index_of_key` finds exactly the first file with that key.
pub proof fn lemma_index_of_key(files: Seq<FileView>, key: Seq<char>)
    ensures
        index_of_key(files, key) matches Some(i) ==> 0 <= i < files.len()
            && files[i].source_absolute_path == key
            && (forall|j: int| 0 <= j < i ==> files[j].source_absolute_path != key),
        index_of_key(files, key) is None ==> (forall|j: int| 0 <= j < files.len() ==> files[j].source_absolute_path != key),
    decreases files.len(),
{
    if files.len() > 0 {
        lemma_index_of_key(files.drop_last(), key);
        assert forall|j: int| 0 <= j < files.len() - 1 implies files.drop_last()[j] == files[j] by {}
    }
}

/// Two orderings by source path of the same files, no two of which share a path,
/// are the same ordering: a listing sorted by path is fixed by the files alone.
pub proof fn law_sorted_listing_is_unique(files: Seq<FileView>, p1: Seq<usize>, p2: Seq<usize>)
    requires
        keys_unique(files),
        is_permutation(p1, files.len()),
        is_permutation(p2, files.len()),
        forall|a: int, b: int| 0 <= a < b < p1.len() ==>
            lex_le(files[p1[a] as int].source_absolute_path, files[p1[b] as int].source_absolute_path),
        forall|a: int, b: int| 0 <= a < b < p2.len() ==>
            lex_le(files[p2[a] as int].source_absolute_path, files[p2[b] as int].source_absolute_path),
    ensures
        p1 == p2,
{
    assert forall|k: int| 0 <= k < p1.len() implies p1[k] == p2[k] by {
        lemma_first_difference(files, p1, p2, k);
    }
    assert(p1 =~= p2);
}

/// Induction on the position: the orderings agree up to `k`, and then at `k`.
proof fn lemma_first_difference(files: Seq<FileView>, p1: Seq<usize>, p2: Seq<usize>, k: int)
    requires
        keys_unique(files),
        is_permutation(p1, files.len()),
        is_permutation(p2, files.len()),
        forall|a: int, b: int| 0 <= a < b < p1.len() ==>
            lex_le(files[p1[a] as int].source_absolute_path, files[p1[b] as int].source_absolute_path),
        forall|a: int, b: int| 0 <= a < b < p2.len() ==>
            lex_le(files[p2[a] as int].source_absolute_path, files[p2[b] as int].source_absolute_path),
        0 <= k < p1.len(),
    ensures
        p1[k] == p2[k],
    decreases k,
{
    if k > 0 {
        lemma_first_difference(files, p1, p2, k - 1);
    }
    assert forall|m: int| 0 <= m < k implies p1[m] == p2[m] by {
        if m < k {
            lemma_first_difference(files, p1, p2, m);
        }
    }
    if p1[k] != p2[k] {
        crate::types::symbols_collection::lemma_permutation_onto(p2, files.len(), p1[k] as int);
        let j = choose|j: int| 0 <= j < p2.len() && p2[j] == p1[k];
        crate::types::symbols_collection::lemma_permutation_onto(p1, files.len(), p2[k] as int);
        let i = choose|i: int| 0 <= i < p1.len() && p1[i] == p2[k];
        if j < k {
            assert(p1[j] == p2[j]);
            assert(p1[j] == p1[k]);
        }
        if i < k {
            assert(p1[i] == p2[i]);
            assert(p2[i] == p2[k]);
        }
        assert(j > k && i > k);
        let x = files[p1[k] as int].source_absolute_path;
        let y = files[p2[k] as int].source_absolute_path;
        assert(lex_le(y, x));
        assert(lex_le(x, y));
        crate::sorting::lemma_lex_antisym(x, y);
        if (p1[k] as int) < (p2[k] as int) {
            assert(files[p1[k] as int].source_absolute_path != files[p2[k] as int].source_absolute_path);
        } else {
            assert(files[p2[k] as int].source_absolute_path != files[p1[k] as int].source_absolute_path);
        }
    }
}

/// Storing a file under its path, in place of the file held under it or after the
/// others, keeps the paths distinct.
proof fn lemma_add_keeps_unique(s: Seq<FileView>, fv: FileView, pos: Option<usize>)
    requires
        keys_unique(s),
        pos matches Some(i) ==> index_of_key(s, fv.source_absolute_path) == Some(i as int),
        pos is None ==> index_of_key(s, fv.source_absolute_path) is None,
    ensures
        keys_unique(match pos {
            Some(i) => s.update(i as int, fv),
            None => s.push(fv),
        }),
{
    lemma_index_of_key(s, fv.source_absolute_path);
    let r = match pos {
        Some(i) => s.update(i as int, fv),
        None => s.push(fv),
    };
    assert forall|a: int, b: int| 0 <= a < b < r.len() implies r[a].source_absolute_path != r[b].source_absolute_path by {
        match pos {
            Some(i) => {
                if a != i && b != i {
                    assert(r[a] == s[a] && r[b] == s[b]);
                } else if a == i {
                    assert(r[b] == s[b]);
                    assert(s[i as int].source_absolute_path == fv.source_absolute_path);
                } else {
                    assert(r[a] == s[a]);
                    assert(s[i as int].source_absolute_path == fv.source_absolute_path);
                }
            },
            None => {
                if b < s.len() {
                    assert(r[a] == s[a] && r[b] == s[b]);
                } else {
                    assert(r[a] == s[a]);
                }
            },
        }
    }
}

/// The file held under a source path: the first with that path.
pub open spec fn file_for(files: Seq<FileView>, key: Seq<char>) -> Option<FileView> {
    match index_of_key(files, key) {
        Some(i) => Some(files[i]),
        None => None,
    }
}

/// With distinct paths, the file at a position is the one held under its path.
proof fn lemma_unique_file_for(s: Seq<FileView>, j: int)
    requires
        keys_unique(s),
        0 <= j < s.len(),
    ensures
        index_of_key(s, s[j].source_absolute_path) == Some(j),
        file_for(s, s[j].source_absolute_path) == Some(s[j]),
{
    lemma_index_of_key(s, s[j].source_absolute_path);
    let i = index_of_key(s, s[j].source_absolute_path)->0;
    if i < j {
        assert(s[i].source_absolute_path != s[j].source_absolute_path);
    }
}

/// Reordering files with distinct paths keeps the file held under each path.
proof fn lemma_permuted_same_files(s: Seq<FileView>, r: Seq<FileView>, p: Seq<usize>)
    requires
        keys_unique(s),
        keys_unique(r),
        is_permutation(p, s.len()),
        r.len() == s.len(),
        forall|k: int| 0 <= k < p.len() ==> r[k] == s[p[k] as int],
    ensures
        forall|key: Seq<char>| #[trigger] file_for(r, key) == file_for(s, key),
{
    assert forall|key: Seq<char>| #[trigger] file_for(r, key) == file_for(s, key) by {
        lemma_index_of_key(s, key);
        lemma_index_of_key(r, key);
        match index_of_key(s, key) {
            Some(i) => {
                crate::types::symbols_collection::lemma_permutation_onto(p, s.len(), i);
                let j = choose|j: int| 0 <= j < p.len() && p[j] == i;
                assert(r[j] == s[i]);
                lemma_unique_file_for(r, j);
            },
            None => {
                match index_of_key(r, key) {
                    Some(j) => {
                        assert(r[j] == s[p[j] as int]);
                        assert(s[p[j] as int].source_absolute_path == key);
                    },
                    None => {},
                }
            },
        }
    }
}

impl Clone for DiscoveredFiles {
    /// A copy of every file.
    fn clone(&self) -> (r: Self)
        ensures
            r@ == self@,
    {
        proof {
            use_type_invariant(self);
        }
        let mut v: Vec<DiscoveredFile> = Vec::new();
        let mut i: usize = 0;
        while i < self.files.len()
            invariant
                i <= self.files@.len(),
                file_views(v@) == self@.take(i as int),
            decreases self.files.len() - i,
        {
            let ghost before = v@;
            v.push(self.files[i].clone_file());
            assert(self@[i as int] == self.files@[i as int]@);
            assert(file_views(v@) =~= file_views(before).push(self@[i as int]));
            assert(self@.take(i + 1) =~= self@.take(i as int).push(self@[i as int]));
            i += 1;
        }
        assert(self@.take(self.files@.len() as int) =~= self@);
        DiscoveredFiles { files: v }
    }
}

impl View for DiscoveredFiles {
    type V = Seq<FileView>;

    closed spec fn view(&self) -> Seq<FileView> {
        file_views(self.files@)
    }
}

impl DiscoveredFiles {
    /// No two files share a source path.
    #[verifier::type_invariant]
    closed spec fn inv(&self) -> bool {
        keys_unique(self@)
    }

    /// An empty collection.
    pub fn new() -> (r: Self)
        ensures
            r@ == Seq::<FileView>::empty(),
            keys_unique(r@),
    {
        let r = DiscoveredFiles { files: Vec::new() };
        assert(r@ =~= Seq::<FileView>::empty());
        r
    }

    /// Puts a changed file at a position, in place of the file with the same
    /// source path there.
    pub fn update_at(&mut self, index: usize, file: DiscoveredFile)
        requires
            index < old(self)@.len(),
            file@.source_absolute_path == old(self)@[index as int].source_absolute_path,
        ensures
            final(self)@ == old(self)@.update(index as int, file@),
    {
        proof {
            use_type_invariant(&*self);
        }
        let ghost fv = file@;
        let mut v: Vec<DiscoveredFile> = Vec::new();
        std::mem::swap(&mut v, &mut self.files);
        v.set(index, file);
        assert(file_views(v@) =~= old(self)@.update(index as int, fv));
        proof {
            let r = old(self)@.update(index as int, fv);
            assert forall|a: int, b: int| 0 <= a < b < r.len() implies r[a].source_absolute_path != r[b].source_absolute_path by {
                assert(r[a].source_absolute_path == old(self)@[a].source_absolute_path);
                assert(r[b].source_absolute_path == old(self)@[b].source_absolute_path);
            }
        }
        self.files = v;
    }

    /// Puts a changed file in place of the file held under its source path;
    /// false, and nothing changed, when no file has that path.
    pub fn update_file(&mut self, file: DiscoveredFile) -> (r: bool)
        ensures
            r == (index_of_key(old(self)@, file@.source_absolute_path) is Some),
            match index_of_key(old(self)@, file@.source_absolute_path) {
                Some(i) => final(self)@ == old(self)@.update(i, file@),
                None => final(self)@ == old(self)@,
            },
    {
        proof {
            lemma_index_of_key(self@, file@.source_absolute_path);
        }
        match self.position(file.source_absolute_path.as_str()) {
            Some(i) => {
                self.update_at(i, file);
                true
            },
            None => false,
        }
    }

    /// The position of the file with the given source path.
    fn position(&self, key: &str) -> (r: Option<usize>)
        ensures
            r matches Some(i) ==> index_of_key(self@, key@) == Some(i as int),
            r is None ==> index_of_key(self@, key@) is None,
    {
        let mut i: usize = 0;
        while i < self.files.len()
            invariant
                i <= self.files.len(),
                forall|j: int| 0 <= j < i ==> self@[j].source_absolute_path != key@,
            decreases self.files.len() - i,
        {
            if str_eq(self.files[i].source_absolute_path.as_str(), key) {
                proof {
                    assert(self@[i as int] == self.files@[i as int]@);
                    lemma_index_of_key(self@, key@);
                    if let Some(k) = index_of_key(self@, key@) {
                        assert(k == i);
                    }
                }
                return Some(i);
            }
            i += 1;
        }
        proof {
            lemma_index_of_key(self@, key@);
        }
        None
    }

    /// Adds a file under its source path, replacing any file with the same path.
    pub fn add(&mut self, file: DiscoveredFile)
        ensures
            match index_of_key(old(self)@, file@.source_absolute_path) {
                Some(i) => final(self)@ == old(self)@.update(i, file@),
                None => final(self)@ == old(self)@.push(file@),
            },
            index_of_key(final(self)@, file@.source_absolute_path) matches Some(i) && final(self)@[i] == file@,
    {
        proof {
            lemma_index_of_key(old(self)@, file@.source_absolute_path);
        }
        proof {
            use_type_invariant(&*self);
        }
        let ghost fv = file@;
        let pos = self.position(file.source_absolute_path.as_str());
        let mut v: Vec<DiscoveredFile> = Vec::new();
        std::mem::swap(&mut v, &mut self.files);
        match pos {
            Some(i) => {
                v.set(i, file);
                assert(file_views(v@) =~= old(self)@.update(i as int, fv));
            },
            None => {
                v.push(file);
                assert(file_views(v@) =~= old(self)@.push(fv));
            },
        }
        proof {
            lemma_add_keeps_unique(old(self)@, fv, pos);
        }
        self.files = v;
        proof {
            lemma_index_of_key(self@, fv.source_absolute_path);
            lemma_index_of_key(old(self)@, fv.source_absolute_path);
            match index_of_key(self@, fv.source_absolute_path) {
                Some(j) => {
                    match index_of_key(old(self)@, fv.source_absolute_path) {
                        Some(i) => {
                            if j < i {
                                assert(old(self)@[j].source_absolute_path == self@[j].source_absolute_path);
                            }
                            if i < j {
                                assert(self@[i].source_absolute_path == fv.source_absolute_path);
                            }
                        },
                        None => {
                            if j < old(self)@.len() {
                                assert(old(self)@[j] == self@[j]);
                            }
                        },
                    }
                },
                None => {
                    match index_of_key(old(self)@, fv.source_absolute_path) {
                        Some(i) => { assert(self@[i].source_absolute_path == fv.source_absolute_path); },
                        None => { assert(self@[old(self)@.len() as int].source_absolute_path == fv.source_absolute_path); },
                    }
                },
            }
        }
    }

    /// All files.
    pub fn get_files(&self) -> (r: &Vec<DiscoveredFile>)
        ensures
            file_views(r@) == self@,
            keys_unique(self@),
    {
        proof {
            use_type_invariant(self);
        }
        &self.files
    }

    /// The file with the given source path.
    pub fn get_file(&self, source_absolute_path: &str) -> (r: Option<&DiscoveredFile>)
        ensures
            match index_of_key(self@, source_absolute_path@) {
                Some(i) => r matches Some(f) && f@ == self@[i],
                None => r is None,
            },
    {
        proof {
            lemma_index_of_key(self@, source_absolute_path@);
        }
        match self.position(source_absolute_path) {
            Some(i) => Some(&self.files[i]),
            None => None,
        }
    }

    /// The position of the file with the given source path, for updates through
    /// [`DiscoveredFiles::update_at`].
    pub fn find(&self, source_absolute_path: &str) -> (r: Option<usize>)
        ensures
            r matches Some(i) ==> index_of_key(self@, source_absolute_path@) == Some(i as int),
            r is None ==> index_of_key(self@, source_absolute_path@) is None,
    {
        self.position(source_absolute_path)
    }

    /// Orders the files by source path.
    pub fn sort(&mut self)
        ensures
            exists|p: Seq<usize>| #![trigger is_permutation(p, old(self)@.len())]
                is_permutation(p, old(self)@.len())
                && final(self)@.len() == old(self)@.len()
                && (forall|k: int| 0 <= k < p.len() ==> final(self)@[k] == old(self)@[p[k] as int]),
            forall|a: int, b: int| 0 <= a < b < final(self)@.len() ==>
                lex_le(final(self)@[a].source_absolute_path, final(self)@[b].source_absolute_path)
                && final(self)@[a].source_absolute_path != final(self)@[b].source_absolute_path,
            forall|key: Seq<char>| #[trigger] file_for(final(self)@, key) == file_for(old(self)@, key),
    {
        proof {
            use_type_invariant(&*self);
        }
        let p = self.sorted_positions();
        let mut sorted: Vec<DiscoveredFile> = Vec::new();
        let mut k: usize = 0;
        while k < p.len()
            invariant
                is_permutation(p@, self@.len()),
                forall|a: int, b: int| 0 <= a < b < p@.len() ==>
                    lex_le(self@[p@[a] as int].source_absolute_path, self@[p@[b] as int].source_absolute_path),
                self@ == old(self)@,
                k <= p.len(),
                sorted@.len() == k,
                forall|j: int| 0 <= j < k ==> sorted@[j]@ == self@[p@[j] as int],
            decreases p.len() - k,
        {
            sorted.push(self.files[p[k]].clone_file());
            k += 1;
        }
        let ghost pp = p@;
        let ghost sv = file_views(sorted@);
        assert(is_permutation(pp, old(self)@.len()));
        proof {
            assert forall|a: int, b: int| 0 <= a < b < sv.len() implies
                sv[a].source_absolute_path != sv[b].source_absolute_path by {
                assert(pp[a] != pp[b]);
                assert(sv[a] == old(self)@[pp[a] as int]);
                assert(sv[b] == old(self)@[pp[b] as int]);
                if pp[a] < pp[b] {
                    assert(old(self)@[pp[a] as int].source_absolute_path != old(self)@[pp[b] as int].source_absolute_path);
                } else {
                    assert(old(self)@[pp[b] as int].source_absolute_path != old(self)@[pp[a] as int].source_absolute_path);
                }
            }
            assert forall|k: int| 0 <= k < pp.len() implies sv[k] == old(self)@[pp[k] as int] by {}
            lemma_permuted_same_files(old(self)@, sv, pp);
        }
        self.files = sorted;
    }

    /// The order of the files by source path.
    fn sorted_positions(&self) -> (p: Vec<usize>)
        ensures
            is_permutation(p@, self@.len()),
            forall|a: int, b: int| 0 <= a < b < p@.len() ==>
                lex_le(self@[p@[a] as int].source_absolute_path, self@[p@[b] as int].source_absolute_path),
    {
        let mut keys: Vec<Vec<char>> = Vec::new();
        let mut i: usize = 0;
        while i < self.files.len()
            invariant
                i <= self.files.len(),
                keys@.len() == i,
                forall|j: int| 0 <= j < i ==> keys@[j]@ == self@[j].source_absolute_path,
            decreases self.files.len() - i,
        {
            keys.push(to_chars(self.files[i].source_absolute_path.as_str()));
            i += 1;
        }
        let p = lex_order(&keys);
        proof {
            let ks = keys@.map_values(|k: Vec<char>| k@);
            assert(lex_sorted_by(ks, p@));
            assert forall|a: int, b: int| 0 <= a < b < p@.len() implies
                lex_le(self@[p@[a] as int].source_absolute_path, self@[p@[b] as int].source_absolute_path) by {
                assert(ks[p@[a] as int] == self@[p@[a] as int].source_absolute_path);
                assert(ks[p@[b] as int] == self@[p@[b] as int].source_absolute_path);
            }
        }
        p
    }

    /// All files with their source paths, ordered by source path.
    pub fn get_files_sorted(&self) -> (r: Vec<(&String, &DiscoveredFile)>)
        ensures
            exists|p: Seq<usize>| #![trigger is_permutation(p, self@.len())]
                is_permutation(p, self@.len())
                && r@.len() == self@.len()
                && (forall|k: int| 0 <= k < p.len() ==> r@[k].1@ == self@[p[k] as int]
                    && r@[k].0@ == self@[p[k] as int].source_absolute_path),
            forall|a: int, b: int| 0 <= a < b < r@.len() ==> lex_le(r@[a].0@, r@[b].0@) && r@[a].0@ != r@[b].0@,
    {
        proof {
            use_type_invariant(self);
        }
        let p = self.sorted_positions();
        let mut out: Vec<(&String, &DiscoveredFile)> = Vec::new();
        let mut k: usize = 0;
        while k < p.len()
            invariant
                is_permutation(p@, self@.len()),
                forall|a: int, b: int| 0 <= a < b < p@.len() ==>
                    lex_le(self@[p@[a] as int].source_absolute_path, self@[p@[b] as int].source_absolute_path),
                k <= p.len(),
                out@.len() == k,
                forall|j: int| 0 <= j < k ==> out@[j].1@ == self@[p@[j] as int]
                    && out@[j].0@ == self@[p@[j] as int].source_absolute_path,
            decreases p.len() - k,
        {
            let f = &self.files[p[k]];
            out.push((&f.source_absolute_path, f));
            k += 1;
        }
        assert(is_permutation(p@, self@.len()));
        assert forall|a: int, b: int| 0 <= a < b < out@.len() implies lex_le(out@[a].0@, out@[b].0@) by {
            assert(out@[a].0@ == self@[p@[a] as int].source_absolute_path);
            assert(out@[b].0@ == self@[p@[b] as int].source_absolute_path);
        }
        proof {
            assert forall|a: int, b: int| 0 <= a < b < out@.len() implies out@[a].0@ != out@[b].0@ by {
                assert(out@[a].0@ == self@[p@[a] as int].source_absolute_path);
                assert(out@[b].0@ == self@[p@[b] as int].source_absolute_path);
                assert(p@[a] != p@[b]);
                if p@[a] < p@[b] {
                    assert(self@[p@[a] as int].source_absolute_path != self@[p@[b] as int].source_absolute_path);
                } else {
                    assert(self@[p@[b] as int].source_absolute_path != self@[p@[a] as int].source_absolute_path);
                }
            }
        }
        out
    }

    /// The number of files.
    pub fn len(&self) -> (r: usize)
        ensures
            r == self@.len(),
    {
        self.files.len()
    }

    /// Whether there are no files.
    pub fn is_empty(&self) -> (r: bool)
        ensures
            r == (self@.len() == 0),
    {
        self.files.len() == 0
    }

    /// Iterates over the files.
    pub fn iter(&self) -> (r: std::slice::Iter<'_, DiscoveredFile>)
        ensures
            r.remaining().len() == self@.len(),
            forall|k: int| 0 <= k < self@.len() ==> (#[trigger] r.remaining()[k])@ == self@[k],
    {
        let r = self.files.as_slice().iter();
        assert(r.remaining() == self.files@.as_ref());
        r
    }

    /// References to all files.
    pub fn files(&self) -> (r: Vec<&DiscoveredFile>)
        ensures
            r@.len() == self@.len(),
            forall|k: int| 0 <= k < r@.len() ==> r@[k]@ == self@[k],
    {
        let mut out: Vec<&DiscoveredFile> = Vec::new();
        let mut k: usize = 0;
        while k < self.files.len()
            invariant
                k <= self.files.len(),
                out@.len() == k,
                forall|j: int| 0 <= j < k ==> out@[j]@ == self@[j],
            decreases self.files.len() - k,
        {
            out.push(&self.files[k]);
            k += 1;
        }
        out
    }

}

} // verus!
