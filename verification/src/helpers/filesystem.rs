//! Textual path helpers, with the component model of a Unix path.

use vstd::prelude::*;
use crate::strs::{eq_ignore_ascii_case, ascii_lower_code, replace_char, replace_char_str, seqs, split_char, split_char_str, to_chars, from_char_range, lemma_split_nonempty};

verus! {

/// A normal component: neither empty nor `.`.
pub open spec fn is_normal_part(c: Seq<char>) -> bool {
    c.len() > 0 && c != seq!['.']
}

/// The normal components of a path: the pieces between `/` that are not empty or `.`.
pub open spec fn normal_parts(p: Seq<char>) -> Seq<Seq<char>> {
    split_char(p, '/').filter(|c: Seq<char>| is_normal_part(c))
}

/// The components of a path, as `std::path::Path::components` yields them on Unix:
/// a root (`/`) when the path is absolute, a current-directory marker (`.`) when a
/// relative path starts with `.` as its own component, then the normal components.
pub open spec fn components(p: Seq<char>) -> Seq<Seq<char>> {
    let head = if p.len() > 0 && p[0] == '/' {
        seq![seq!['/']]
    } else if p.len() > 0 && p[0] == '.' && (p.len() == 1 || p[1] == '/') {
        seq![seq!['.']]
    } else {
        Seq::empty()
    };
    head + normal_parts(p)
}

/// The final component of a path when it names a file or directory (not the root,
/// `.`, or `..`), as `Path::file_name`.
pub open spec fn file_name_of(p: Seq<char>) -> Option<Seq<char>> {
    let cs = components(p);
    if cs.len() == 0 {
        None
    } else if cs.last() == seq!['/'] || cs.last() == seq!['.'] || cs.last() == seq!['.', '.'] {
        None
    } else {
        Some(cs.last())
    }
}

/// The index of the last occurrence of `c` in `s`.
pub open spec fn rfind_char(s: Seq<char>, c: char) -> Option<int>
    decreases s.len(),
{
    if s.len() == 0 {
        None
    } else if s.last() == c {
        Some(s.len() - 1)
    } else {
        rfind_char(s.drop_last(), c)
    }
}

/// The extension of a file name: what follows its last `.`, when that `.` is not the
/// first character (as `Path::extension`).
pub open spec fn extension_of_name(name: Seq<char>) -> Option<Seq<char>> {
    match rfind_char(name, '.') {
        None => None,
        Some(i) => if i == 0 {
            None
        } else {
            Some(name.skip(i + 1))
        },
    }
}

/// The extension of the final component of a path.
pub open spec fn extension_of(p: Seq<char>) -> Option<Seq<char>> {
    match file_name_of(p) {
        None => None,
        Some(n) => extension_of_name(n),
    }
}

/// Whether the path has a `.php` extension, in any ASCII case.
pub open spec fn is_php_path(p: Seq<char>) -> bool {
    match extension_of(p) {
        Some(e) => eq_ignore_ascii_case(e, "php"@),
        None => false,
    }
}

proof fn lemma_rfind_in_range(s: Seq<char>, c: char)
    ensures
        rfind_char(s, c) matches Some(i) ==> 0 <= i < s.len() && s[i] == c
            && (forall|j: int| i < j < s.len() ==> s[j] != c),
        rfind_char(s, c) is None ==> (forall|j: int| 0 <= j < s.len() ==> s[j] != c),
    decreases s.len(),
{
    if s.len() > 0 && s.last() != c {
        lemma_rfind_in_range(s.drop_last(), c);
        assert forall|j: int| 0 <= j < s.len() - 1 implies s.drop_last()[j] == s[j] by {}
    }
}

proof fn lemma_rfind_take(s: Seq<char>, c: char, j: int)
    requires
        0 <= j <= s.len(),
        forall|k: int| j <= k < s.len() ==> s[k] != c,
    ensures
        rfind_char(s, c) == rfind_char(s.take(j), c),
    decreases s.len() - j,
{
    if j < s.len() {
        lemma_rfind_take(s.drop_last(), c, j);
        assert(s.drop_last().take(j) == s.take(j));
    } else {
        assert(s.take(j) == s);
    }
}

/// The normal components of a path.
fn normal_parts_of(p: &str) -> (r: Vec<String>)
    ensures
        seqs(r@) == normal_parts(p@),
{
    let pieces = split_char_str(p, '/');
    let mut out: Vec<String> = Vec::new();
    let mut i: usize = 0;
    let ghost all = split_char(p@, '/');
    proof { reveal(Seq::filter); }
    assert(all.take(0).filter(|c: Seq<char>| is_normal_part(c)) == Seq::<Seq<char>>::empty());
    while i < pieces.len()
        invariant
            seqs(pieces@) == all,
            i <= pieces.len(),
            seqs(out@) == all.take(i as int).filter(|c: Seq<char>| is_normal_part(c)),
        decreases pieces.len() - i,
    {
        let ghost pre = out@;
        proof {
            reveal(Seq::filter);
            assert(all.take(i + 1).drop_last() == all.take(i as int));
            assert(all.take(i + 1).last() == pieces@[i as int]@);
        }
        let piece = &pieces[i];
        let c = to_chars(piece.as_str());
        let normal = c.len() > 0 && !(c.len() == 1 && c[0] == '.');
        proof {
            if c.len() == 1 && c[0] == '.' {
                assert(c@ == seq!['.']);
            }
            if c@ == seq!['.'] {
                assert(c.len() == 1 && c[0] == '.');
            }
            assert(normal == is_normal_part(piece@));
        }
        if normal {
            out.push(piece.clone());
            assert(seqs(out@) == seqs(pre).push(piece@));
        }
        i += 1;
    }
    assert(all.take(pieces.len() as int) == all);
    out
}

/// The final component of a path when it names a file or directory.
pub fn file_name(p: &str) -> (r: Option<String>)
    ensures
        opt_view(r) == file_name_of(p@),
{
    let parts = normal_parts_of(p);
    let c = to_chars(p);
    let rooted = c.len() > 0 && c[0] == '/';
    let cur = !rooted && c.len() > 0 && c[0] == '.' && (c.len() == 1 || c[1] == '/');
    let ghost head = if p@.len() > 0 && p@[0] == '/' {
        seq![seq!['/']]
    } else if p@.len() > 0 && p@[0] == '.' && (p@.len() == 1 || p@[1] == '/') {
        seq![seq!['.']]
    } else {
        Seq::<Seq<char>>::empty()
    };
    assert(components(p@) == head + normal_parts(p@));
    if parts.len() == 0 {
        assert(components(p@) == head);
        return None;
    }
    let last = parts.len() - 1;
    assert(components(p@).last() == seqs(parts@)[last as int]);
    let name = to_chars(parts[last].as_str());
    let dotdot = name.len() == 2 && name[0] == '.' && name[1] == '.';
    proof {
        if dotdot {
            assert(name@ == seq!['.', '.']);
        }
        if name@ == seq!['.', '.'] {
            assert(name.len() == 2 && name[0] == '.' && name[1] == '.');
        }
        assert(is_normal_part(seqs(parts@)[last as int])) by {
            split_char(p@, '/').lemma_filter_pred(|c: Seq<char>| is_normal_part(c), last as int);
        }
        assert(name@ != seq!['/']) by {
            lemma_normal_part_has_no_slash(p@, seqs(parts@)[last as int]);
        }
    }
    if dotdot {
        None
    } else {
        Some(parts[last].clone())
    }
}

/// A component between separators never holds a separator.
proof fn lemma_normal_part_has_no_slash(p: Seq<char>, c: Seq<char>)
    requires
        normal_parts(p).contains(c),
    ensures
        c != seq!['/'],
{
    lemma_split_pieces_have_no_sep(p, '/');
    assert(split_char(p, '/').filter(|c: Seq<char>| is_normal_part(c)).contains(c));
    split_char(p, '/').lemma_filter_contains_rev(|c: Seq<char>| is_normal_part(c), c);
    let j = choose|j: int| 0 <= j < split_char(p, '/').len() && split_char(p, '/')[j] == c;
    if c == seq!['/'] {
        assert(c[0] == '/');
        assert(split_char(p, '/')[j].contains('/'));
    }
}

/// The pieces produced by splitting never hold the separator.
pub proof fn lemma_split_pieces_have_no_sep(s: Seq<char>, c: char)
    ensures
        forall|j: int| 0 <= j < split_char(s, c).len() ==> !(#[trigger] split_char(s, c)[j]).contains(c),
    decreases s.len(),
{
    if s.len() > 0 {
        lemma_split_pieces_have_no_sep(s.drop_last(), c);
        lemma_split_nonempty(s.drop_last(), c);
        let prev = split_char(s.drop_last(), c);
        if s.last() != c {
            assert forall|j: int| 0 <= j < split_char(s, c).len() implies !(#[trigger] split_char(s, c)[j]).contains(c) by {
                if j == prev.len() - 1 {
                    let piece = prev.last().push(s.last());
                    assert(split_char(s, c)[j] == piece);
                    if piece.contains(c) {
                        let k = choose|k: int| 0 <= k < piece.len() && piece[k] == c;
                        if k < prev.last().len() {
                            assert(prev.last()[k] == c);
                            assert(prev.last().contains(c));
                        }
                    }
                }
            }
        } else {
            assert forall|j: int| 0 <= j < split_char(s, c).len() implies !(#[trigger] split_char(s, c)[j]).contains(c) by {
                if j == prev.len() {
                    assert(split_char(s, c)[j] == Seq::<char>::empty());
                }
            }
        }
    }
}

/// The view of an optional string.
pub open spec fn opt_view(o: Option<String>) -> Option<Seq<char>> {
    match o {
        Some(s) => Some(s@),
        None => None,
    }
}

/// Whether two characters are equal up to ASCII case.
pub fn ascii_eq_ignore_case(a: char, b: char) -> (r: bool)
    ensures
        r == (ascii_lower_code(a) == ascii_lower_code(b)),
{
    let x: u32 = if 'A' <= a && a <= 'Z' { (a as u32) + 32 } else { a as u32 };
    let y: u32 = if 'A' <= b && b <= 'Z' { (b as u32) + 32 } else { b as u32 };
    x == y
}

/// The extension of a file name (see [`extension_of_name`]).
fn extension_of_file_name(name: &str) -> (r: Option<String>)
    ensures
        opt_view(r) == extension_of_name(name@),
{
    let c = to_chars(name);
    let mut j: usize = c.len();
    while j > 0 && c[j - 1] != '.'
        invariant
            c@ == name@,
            j <= c.len(),
            forall|k: int| j <= k < c.len() ==> c@[k] != '.',
        decreases j,
    {
        j -= 1;
    }
    proof {
        lemma_rfind_take(c@, '.', j as int);
        lemma_rfind_in_range(c@.take(j as int), '.');
        if j > 0 {
            assert(c@.take(j as int).last() == '.');
        }
    }
    if j <= 1 {
        proof {
            if j == 1 {
                assert(c@.take(1).last() == '.');
            }
        }
        None
    } else {
        Some(from_char_range(c.as_slice(), j, c.len()))
    }
}

/// Whether the path names a file with a `.php` extension, in any ASCII case.
pub fn is_php_file(path: &str) -> (r: bool)
    ensures
        r == is_php_path(path@),
{
    match file_name(path) {
        None => false,
        Some(n) => match extension_of_file_name(n.as_str()) {
            None => false,
            Some(e) => {
                let c = to_chars(e.as_str());
                proof {
                    reveal_strlit("php");
                }
                if c.len() != 3 {
                    return false;
                }
                let r = ascii_eq_ignore_case(c[0], 'p') && ascii_eq_ignore_case(c[1], 'h')
                    && ascii_eq_ignore_case(c[2], 'p');
                proof {
                    reveal_strlit("php");
                    if r {
                        assert forall|i: int| 0 <= i < 3 implies ascii_lower_code(c@[i]) == ascii_lower_code("php"@[i]) by {
                            if i == 0 {} else if i == 1 {} else {}
                        }
                    } else {
                        assert(!eq_ignore_ascii_case(e@, "php"@));
                    }
                }
                r
            },
        },
    }
}

/// Forward slashes in place of backslashes.
pub fn normalize_path(path: &str) -> (r: String)
    ensures
        r@ == replace_char(path@, '\\', seq!['/']),
{
    proof {
        reveal_strlit("/");
        assert("/"@ =~= seq!['/']);
    }
    replace_char_str(path, '\\', "/")
}

/// The path built by pushing the components one after the other onto an empty
/// path (`PathBuf::push` on Unix): an absolute component starts over, otherwise
/// a `/` is put between when needed.
pub open spec fn pushed(cs: Seq<Seq<char>>) -> Seq<char>
    decreases cs.len(),
{
    if cs.len() == 0 {
        Seq::empty()
    } else {
        let prev = pushed(cs.drop_last());
        let c = cs.last();
        if c.len() > 0 && c[0] == '/' {
            c
        } else if prev.len() == 0 {
            c
        } else if prev.last() == '/' {
            prev + c
        } else {
            prev + seq!['/'] + c
        }
    }
}

/// The number of leading components two lists share.
pub open spec fn common_len(a: Seq<Seq<char>>, b: Seq<Seq<char>>) -> nat
    decreases a.len(),
{
    if a.len() == 0 || b.len() == 0 || a[0] != b[0] {
        0
    } else {
        1 + common_len(a.drop_first(), b.drop_first())
    }
}

/// The path from `base` to `target`: what follows `base` when `target` lies under
/// it (component-wise); otherwise `..` for each component of `base` past the
/// shared ones, then the rest of `target` (`.` when that is empty).
pub open spec fn path_diff(target: Seq<char>, base: Seq<char>) -> Seq<char> {
    let tc = components(target);
    let bc = components(base);
    if bc.len() <= tc.len() && tc.take(bc.len() as int) == bc {
        pushed(tc.skip(bc.len() as int))
    } else {
        let n = common_len(tc, bc);
        let r = pushed(Seq::new((bc.len() - n) as nat, |i: int| seq!['.', '.']) + tc.skip(n as int));
        if r.len() == 0 {
            seq!['.']
        } else {
            r
        }
    }
}

/// The components of a path.
fn components_of(p: &str) -> (r: Vec<String>)
    ensures
        seqs(r@) == components(p@),
{
    let parts = normal_parts_of(p);
    let c = to_chars(p);
    let mut out: Vec<String> = Vec::new();
    if c.len() > 0 && c[0] == '/' {
        let root = from_char_range(c.as_slice(), 0, 1);
        assert(root@ =~= seq!['/']);
        out.push(root);
    } else if c.len() > 0 && c[0] == '.' && (c.len() == 1 || c[1] == '/') {
        let dot = from_char_range(c.as_slice(), 0, 1);
        assert(dot@ =~= seq!['.']);
        out.push(dot);
    }
    let ghost head = seqs(out@);
    let mut k: usize = 0;
    while k < parts.len()
        invariant
            k <= parts@.len(),
            seqs(out@) == head + seqs(parts@).take(k as int),
        decreases parts.len() - k,
    {
        let ghost before = out@;
        out.push(parts[k].clone());
        assert(seqs(out@) =~= seqs(before).push(parts@[k as int]@));
        assert(seqs(parts@).take(k + 1) =~= seqs(parts@).take(k as int).push(parts@[k as int]@));
        k += 1;
    }
    assert(seqs(parts@).take(parts@.len() as int) =~= seqs(parts@));
    out
}

/// The path built by pushing the components (see [`pushed`]).
fn push_all(cs: &Vec<String>) -> (r: String)
    ensures
        r@ == pushed(seqs(cs@)),
{
    let ghost all = seqs(cs@);
    let mut cur = String::new();
    let mut k: usize = 0;
    assert(all.take(0) =~= Seq::<Seq<char>>::empty());
    while k < cs.len()
        invariant
            all == seqs(cs@),
            k <= cs@.len(),
            cur@ == pushed(all.take(k as int)),
        decreases cs.len() - k,
    {
        assert(all.take(k + 1).drop_last() =~= all.take(k as int));
        assert(all.take(k + 1).last() == cs@[k as int]@);
        let c = to_chars(cs[k].as_str());
        let prev = to_chars(cur.as_str());
        if c.len() > 0 && c[0] == '/' {
            cur = cs[k].clone();
        } else if prev.len() == 0 {
            cur = cs[k].clone();
        } else if prev[prev.len() - 1] == '/' {
            cur = crate::strs::concat(cur.as_str(), cs[k].as_str());
        } else {
            proof {
                reveal_strlit("/");
                assert("/"@ =~= seq!['/']);
            }
            cur = crate::strs::concat3(cur.as_str(), "/", cs[k].as_str());
        }
        k += 1;
    }
    assert(all.take(cs.len() as int) =~= all);
    cur
}

/// The relative path from `base` to `target` with forward slashes (see
/// [`path_diff`]); `.` when the two are the same directory.
pub fn relative_path(base: &str, target: &str) -> (r: String)
    ensures
        r@ == relative_between(base@, target@),
{
    let d = path_difference(base, target);
    if d.as_str().is_empty() {
        proof {
            reveal_strlit(".");
        }
        crate::strs::to_owned(".")
    } else {
        d
    }
}

/// The path from `base` to `target`: the difference of the two (see
/// [`path_diff`]) with forward slashes, or `.` when it is empty.
pub open spec fn relative_between(base: Seq<char>, target: Seq<char>) -> Seq<char> {
    let d = replace_char(path_diff(target, base), '\\', seq!['/']);
    if d.len() == 0 {
        seq!['.']
    } else {
        d
    }
}

/// The difference of `target` from `base` with forward slashes; empty when they
/// name the same directory.
fn path_difference(base: &str, target: &str) -> (r: String)
    ensures
        r@ == replace_char(path_diff(target@, base@), '\\', seq!['/']),
{
    let tc = components_of(target);
    let bc = components_of(base);
    let ghost ts = seqs(tc@);
    let ghost bs = seqs(bc@);
    // Whether `base` is a prefix of `target`, and how many components they share.
    let mut n: usize = 0;
    assert(ts.skip(0) =~= ts);
    assert(bs.skip(0) =~= bs);
    while n < tc.len() && n < bc.len() && crate::strs::str_eq(tc[n].as_str(), bc[n].as_str())
        invariant
            ts == seqs(tc@),
            bs == seqs(bc@),
            n <= tc@.len(),
            n <= bc@.len(),
            ts.take(n as int) == bs.take(n as int),
            common_len(ts, bs) == n + common_len(ts.skip(n as int), bs.skip(n as int)),
        decreases tc.len() - n,
    {
        assert(ts.skip(n as int)[0] == ts[n as int]);
        assert(bs.skip(n as int)[0] == bs[n as int]);
        assert(ts.skip(n as int).drop_first() =~= ts.skip(n + 1));
        assert(bs.skip(n as int).drop_first() =~= bs.skip(n + 1));
        assert(ts.take(n + 1) =~= ts.take(n as int).push(ts[n as int]));
        assert(bs.take(n + 1) =~= bs.take(n as int).push(bs[n as int]));
        n += 1;
    }
    proof {
        if n < ts.len() && n < bs.len() {
            assert(ts.skip(n as int)[0] != bs.skip(n as int)[0]);
        }
        assert(common_len(ts, bs) == n);
    }
    let mut parts: Vec<String> = Vec::new();
    if n == bc.len() {
        assert(bs.take(n as int) =~= bs);
        let mut k: usize = n;
        assert(seqs(parts@) =~= ts.skip(n as int).take(0));
        while k < tc.len()
            invariant
                ts == seqs(tc@),
                n <= k <= tc@.len(),
                seqs(parts@) == ts.skip(n as int).take(k - n),
            decreases tc.len() - k,
        {
            let ghost before = parts@;
            parts.push(tc[k].clone());
            assert(seqs(parts@) =~= seqs(before).push(tc@[k as int]@));
            assert(ts.skip(n as int).take(k + 1 - n) =~= ts.skip(n as int).take(k - n).push(ts[k as int]));
            k += 1;
        }
        assert(ts.skip(n as int).take(tc.len() - n) =~= ts.skip(n as int));
        let r = push_all(&parts);
        return normalize_path(r.as_str());
    }
    proof {
        if bs.len() <= ts.len() && ts.take(bs.len() as int) == bs {
            assert(ts.take(bs.len() as int)[n as int] == bs[n as int]);
        }
    }
    let ghost dots = Seq::new((bs.len() - n) as nat, |i: int| seq!['.', '.']);
    let mut k: usize = n;
    while k < bc.len()
        invariant
            bs == seqs(bc@),
            n <= k <= bc@.len(),
            dots == Seq::new((bs.len() - n) as nat, |i: int| seq!['.', '.']),
            seqs(parts@) == dots.take(k - n),
        decreases bc.len() - k,
    {
        let ghost before = parts@;
        let dd = crate::strs::to_owned("..");
        proof {
            reveal_strlit("..");
            assert(".."@ =~= seq!['.', '.']);
        }
        parts.push(dd);
        assert(seqs(parts@) =~= dots.take(k + 1 - n)) by {
            assert(seqs(parts@) =~= seqs(before).push(seq!['.', '.']));
        }
        k += 1;
    }
    assert(dots.take(bc.len() - n) =~= dots);
    let ghost mid = seqs(parts@);
    let mut k: usize = n;
    while k < tc.len()
        invariant
            ts == seqs(tc@),
            n <= k <= tc@.len(),
            seqs(parts@) == mid + ts.skip(n as int).take(k - n),
        decreases tc.len() - k,
    {
        let ghost before = parts@;
        parts.push(tc[k].clone());
        assert(seqs(parts@) =~= seqs(before).push(tc@[k as int]@));
        assert(ts.skip(n as int).take(k + 1 - n) =~= ts.skip(n as int).take(k - n).push(ts[k as int]));
        k += 1;
    }
    assert(ts.skip(n as int).take(tc.len() - n) =~= ts.skip(n as int));
    let r = push_all(&parts);
    if r.as_str().is_empty() {
        let dot = crate::strs::to_owned(".");
        proof {
            reveal_strlit(".");
            assert("."@ =~= seq!['.']);
        }
        return normalize_path(dot.as_str());
    }
    normalize_path(r.as_str())
}

/// A path with another joined to it (`Path::join` on Unix): an absolute second
/// path replaces the first; otherwise a `/` is put between when needed.
pub open spec fn joined(base: Seq<char>, p: Seq<char>) -> Seq<char> {
    if p.len() > 0 && p[0] == '/' {
        p
    } else if base.len() == 0 {
        p
    } else if base.last() == '/' {
        base + p
    } else {
        base + seq!['/'] + p
    }
}

/// Joins a path to another (see [`joined`]).
pub fn join_path(base: &str, p: &str) -> (r: String)
    ensures
        r@ == joined(base@, p@),
{
    let b = to_chars(base);
    let c = to_chars(p);
    if c.len() > 0 && c[0] == '/' {
        crate::strs::to_owned(p)
    } else if b.len() == 0 {
        crate::strs::to_owned(p)
    } else if b[b.len() - 1] == '/' {
        crate::strs::concat(base, p)
    } else {
        proof {
            reveal_strlit("/");
            assert("/"@ =~= seq!['/']);
        }
        crate::strs::concat3(base, "/", p)
    }
}

/// What follows `prefix` in `path`, component-wise (`Path::strip_prefix`), as a
/// path built from the remaining components; none when `prefix` does not lead
/// `path`.
pub open spec fn stripped_path(path: Seq<char>, prefix: Seq<char>) -> Option<Seq<char>> {
    let pc = components(path);
    let qc = components(prefix);
    if qc.len() <= pc.len() && pc.take(qc.len() as int) == qc {
        Some(pushed(pc.skip(qc.len() as int)))
    } else {
        None
    }
}

/// What follows `prefix` in `path` (see [`stripped_path`]).
pub fn strip_path_prefix(path: &str, prefix: &str) -> (r: Option<String>)
    ensures
        opt_view(r) == stripped_path(path@, prefix@),
{
    let pc = components_of(path);
    let qc = components_of(prefix);
    let ghost ps = seqs(pc@);
    let ghost qs = seqs(qc@);
    if qc.len() > pc.len() {
        return None;
    }
    let mut n: usize = 0;
    while n < qc.len()
        invariant
            ps == seqs(pc@),
            qs == seqs(qc@),
            ps == components(path@),
            qs == components(prefix@),
            qc@.len() <= pc@.len(),
            n <= qc@.len(),
            ps.take(n as int) == qs.take(n as int),
        decreases qc.len() - n,
    {
        if !crate::strs::str_eq(pc[n].as_str(), qc[n].as_str()) {
            proof {
                assert(ps[n as int] == pc@[n as int]@);
                assert(qs[n as int] == qc@[n as int]@);
                if ps.take(qs.len() as int) == qs {
                    assert(ps.take(qs.len() as int)[n as int] == qs[n as int]);
                    assert(ps.take(qs.len() as int)[n as int] == ps[n as int]);
                }
            }
            return None;
        }
        assert(ps.take(n + 1) =~= ps.take(n as int).push(ps[n as int]));
        assert(qs.take(n + 1) =~= qs.take(n as int).push(qs[n as int]));
        n += 1;
    }
    assert(qs.take(qs.len() as int) =~= qs);
    let mut rest: Vec<String> = Vec::new();
    let mut k: usize = n;
    assert(seqs(rest@) =~= ps.skip(n as int).take(0));
    while k < pc.len()
        invariant
            ps == seqs(pc@),
            n <= k <= pc@.len(),
            seqs(rest@) == ps.skip(n as int).take(k - n),
        decreases pc.len() - k,
    {
        let ghost before = rest@;
        rest.push(pc[k].clone());
        assert(seqs(rest@) =~= seqs(before).push(pc@[k as int]@));
        assert(ps.skip(n as int).take(k + 1 - n) =~= ps.skip(n as int).take(k - n).push(ps[k as int]));
        k += 1;
    }
    assert(ps.skip(n as int).take(pc.len() - n) =~= ps.skip(n as int));
    Some(push_all(&rest))
}

/// The extension of a path (see [`extension_of`]).
pub fn path_extension(path: &str) -> (r: Option<String>)
    ensures
        opt_view(r) == extension_of(path@),
{
    match file_name(path) {
        None => None,
        Some(n) => extension_of_file_name(n.as_str()),
    }
}

} // verus!
