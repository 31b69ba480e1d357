//! Paths of the catalogue, held as strings with `/` as separator.
//!
//! A path is compared by its components, as `std::path::Path` does on Unix:
//! repeated separators and `.` segments are ignored, except that a relative
//! path beginning with `.` keeps a leading current-directory component, and an
//! absolute path begins with a root component. Equality, prefix tests, parents,
//! file names and extensions are all stated over that component sequence.
use vstd::prelude::*;

use crate::text::{chars_eq, from_chars, to_chars};

verus! {

/// Whether a segment between separators is kept as a component.
pub open spec fn keeps(seg: Seq<char>) -> bool {
    seg.len() > 0 && seg != seq!['.']
}

/// Left-to-right scan of a path: the kept segments finished so far, and the
/// segment being read.
pub open spec fn scan(s: Seq<char>) -> (Seq<Seq<char>>, Seq<char>)
    decreases s.len(),
{
    if s.len() == 0 {
        (Seq::empty(), Seq::empty())
    } else {
        let prev = scan(s.drop_last());
        if s.last() == '/' {
            (if keeps(prev.1) { prev.0.push(prev.1) } else { prev.0 }, Seq::empty())
        } else {
            (prev.0, prev.1.push(s.last()))
        }
    }
}

/// The normal components of a path: its non-empty segments other than `.`.
pub open spec fn components(s: Seq<char>) -> Seq<Seq<char>> {
    let r = scan(s);
    if keeps(r.1) { r.0.push(r.1) } else { r.0 }
}

pub open spec fn is_absolute(s: Seq<char>) -> bool {
    s.len() > 0 && s[0] == '/'
}

/// A relative path that begins with the current directory (`.` or `./...`).
pub open spec fn has_cur_dir_prefix(s: Seq<char>) -> bool {
    s.len() > 0 && s[0] == '.' && (s.len() == 1 || s[1] == '/')
}

/// The component that stands for the root directory.
pub open spec fn root_marker() -> Seq<char> {
    seq!['/']
}

/// The component that stands for a leading current directory.
pub open spec fn cur_marker() -> Seq<char> {
    seq!['.']
}

/// All components of a path, the root or leading current directory included.
/// Two paths are equal exactly when these are equal.
pub open spec fn full_components(s: Seq<char>) -> Seq<Seq<char>> {
    if is_absolute(s) {
        seq![root_marker()] + components(s)
    } else if has_cur_dir_prefix(s) {
        seq![cur_marker()] + components(s)
    } else {
        components(s)
    }
}

/// The file name: the last normal component, unless it is `..`.
pub open spec fn file_name(s: Seq<char>) -> Option<Seq<char>> {
    let c = components(s);
    if c.len() > 0 && c.last() != seq!['.', '.'] {
        Some(c.last())
    } else {
        None
    }
}

/// Index of the last occurrence of `c` in `s`, or -1.
pub open spec fn last_index_of(s: Seq<char>, c: char) -> int
    decreases s.len(),
{
    if s.len() == 0 {
        -1
    } else if s.last() == c {
        s.len() - 1
    } else {
        last_index_of(s.drop_last(), c)
    }
}

/// The extension of a file name: what follows its last `.`, when that `.` is
/// not the first character.
pub open spec fn name_extension(name: Seq<char>) -> Option<Seq<char>> {
    let k = last_index_of(name, '.');
    if k > 0 {
        Some(name.subrange(k + 1, name.len() as int))
    } else {
        None
    }
}

/// The extension of a path: that of its file name.
pub open spec fn extension(s: Seq<char>) -> Option<Seq<char>> {
    match file_name(s) {
        Some(n) => name_extension(n),
        None => None,
    }
}

/// The components of the parent of a path: all but the last, where the last
/// is not the root.
pub open spec fn parent(s: Seq<char>) -> Option<Seq<Seq<char>>> {
    let f = full_components(s);
    if f.len() > 0 && f.last() != root_marker() {
        Some(f.drop_last())
    } else {
        None
    }
}

/// `std::path::PathBuf::push` for a relative `name`: appends it after a
/// separator, unless `base` is empty or already ends in one.
pub open spec fn join(base: Seq<char>, name: Seq<char>) -> Seq<char> {
    if is_absolute(name) {
        name
    } else if base.len() == 0 || base.last() == '/' {
        base + name
    } else {
        base + seq!['/'] + name
    }
}

/// Whether `prefix` is a prefix of `s`.
pub open spec fn is_prefix<A>(prefix: Seq<A>, s: Seq<A>) -> bool {
    prefix.len() <= s.len() && s.subrange(0, prefix.len() as int) == prefix
}

/// `Path::starts_with`: the components of `base` begin those of `path`.
pub open spec fn starts_with(path: Seq<char>, base: Seq<char>) -> bool {
    is_prefix(full_components(base), full_components(path))
}

/// Whether `path` lies directly in the directory `dir`.
pub open spec fn is_direct_child(path: Seq<char>, dir: Seq<char>) -> bool {
    parent(path) == Some(full_components(dir))
}

/// Whether `name` is a single normal component: not empty, no separator, not
/// `.` or `..`.
pub open spec fn is_plain_name(name: Seq<char>) -> bool {
    &&& name.len() > 0
    &&& forall|i: int| 0 <= i < name.len() ==> name[i] != '/'
    &&& name != seq!['.']
    &&& name != seq!['.', '.']
}

proof fn lemma_scan_append_plain(t: Seq<char>, n: Seq<char>)
    requires
        forall|i: int| 0 <= i < n.len() ==> n[i] != '/',
    ensures
        scan(t + n) == (scan(t).0, scan(t).1 + n),
    decreases n.len(),
{
    if n.len() == 0 {
        assert(t + n =~= t);
        assert(scan(t).1 + n =~= scan(t).1);
    } else {
        let n0 = n.drop_last();
        lemma_scan_append_plain(t, n0);
        assert((t + n).drop_last() =~= t + n0);
        assert((t + n).last() == n.last());
        assert(scan(t).1 + n0.push(n.last()) =~= scan(t).1 + n);
        assert(n0.push(n.last()) =~= n);
        assert((scan(t).1 + n0).push(n.last()) =~= scan(t).1 + n);
    }
}

proof fn lemma_components_join(base: Seq<char>, name: Seq<char>)
    requires
        is_plain_name(name),
    ensures
        components(join(base, name)) == components(base).push(name),
        is_absolute(join(base, name)) == is_absolute(base),
        has_cur_dir_prefix(join(base, name)) == has_cur_dir_prefix(base),
{
    let j = join(base, name);
    assert(!is_absolute(name));
    if base.len() == 0 {
        assert(j =~= name);
        assert(seq![] + name =~= name);
        lemma_scan_append_plain(Seq::<char>::empty(), name);
        assert(Seq::<char>::empty() + name =~= name);
        assert(scan(Seq::<char>::empty()).1 + name =~= name);
        assert(components(base) =~= Seq::<Seq<char>>::empty());
        if name[0] == '.' {
            if name.len() == 1 {
                assert(name =~= seq!['.']);
            }
            assert(name.len() >= 2);
            assert(name[1] != '/');
        }
    } else if base.last() == '/' {
        lemma_scan_append_plain(base, name);
        let b0 = base.drop_last();
        assert(scan(base).1 =~= Seq::<char>::empty());
        assert(!keeps(scan(base).1));
        assert(components(base) == scan(base).0);
        assert(scan(base).1 + name =~= name);
        assert(j[0] == base[0]);
        if base.len() == 1 {
            assert(j[1] == name[0]);
        } else {
            assert(j[1] == base[1]);
        }
    } else {
        let bs = base + seq!['/'];
        assert(j =~= bs + name);
        lemma_scan_append_plain(bs, name);
        assert(bs.drop_last() =~= base);
        assert(scan(bs).1 =~= Seq::<char>::empty());
        assert(scan(bs).0 == components(base));
        assert(scan(bs).1 + name =~= name);
        assert(j[0] == base[0]);
        if base.len() == 1 {
            assert(j[1] == '/');
        } else {
            assert(j[1] == base[1]);
        }
    }
}

/// Joining a plain name onto a directory gives a path whose file name is that
/// name and whose parent is the directory.
pub proof fn lemma_join_name_and_parent(base: Seq<char>, name: Seq<char>)
    requires
        is_plain_name(name),
    ensures
        file_name(join(base, name)) == Some(name),
        parent(join(base, name)) == Some(full_components(base)),
        is_direct_child(join(base, name), base),
        starts_with(join(base, name), base),
{
    lemma_components_join(base, name);
    let j = join(base, name);
    let f = full_components(j);
    assert(components(j).last() == name);
    if is_absolute(base) {
        assert(f =~= (seq![root_marker()] + components(base)).push(name));
    } else if has_cur_dir_prefix(base) {
        assert(f =~= (seq![cur_marker()] + components(base)).push(name));
    } else {
        assert(f =~= components(base).push(name));
    }
    assert(f.last() == name);
    assert(name != root_marker()) by {
        if name == root_marker() {
            assert(name[0] == '/');
        }
    }
    assert(f.drop_last() =~= full_components(base));
    assert(f.subrange(0, full_components(base).len() as int) =~= full_components(base));
}

/// Every path starts with itself.
pub proof fn lemma_starts_with_reflexive(p: Seq<char>)
    ensures
        starts_with(p, p),
{
    assert(full_components(p).subrange(0, full_components(p).len() as int) =~= full_components(p));
}

/// `starts_with` is transitive.
pub proof fn lemma_starts_with_transitive(a: Seq<char>, b: Seq<char>, c: Seq<char>)
    requires
        starts_with(a, b),
        starts_with(b, c),
    ensures
        starts_with(a, c),
{
    let fa = full_components(a);
    let fb = full_components(b);
    let fc = full_components(c);
    assert(fa.subrange(0, fc.len() as int) =~= fb.subrange(0, fc.len() as int));
}

// ----- executable side -----

/// The character sequences held by a vector of character vectors.
pub open spec fn cview(v: Seq<Vec<char>>) -> Seq<Seq<char>> {
    Seq::new(v.len(), |i: int| v[i]@)
}

/// The components of a path, as computed by a left-to-right scan.
fn scan_components(s: &Vec<char>) -> (r: Vec<Vec<char>>)
    ensures
        cview(r@) == components(s@),
{
    let mut done: Vec<Vec<char>> = Vec::new();
    let mut cur: Vec<char> = Vec::new();
    let mut i: usize = 0;
    while i < s.len()
        invariant
            i <= s.len(),
            (cview(done@), cur@) == scan(s@.take(i as int)),
        decreases s.len() - i,
    {
        let c = s[i];
        assert(s@.take(i + 1).drop_last() =~= s@.take(i as int));
        assert(s@.take(i + 1).last() == c);
        if c == '/' {
            let keep = cur.len() > 0 && !(cur.len() == 1 && cur[0] == '.');
            assert(keep == keeps(cur@)) by {
                if cur@ == seq!['.'] {
                    assert(cur@.len() == 1);
                }
                if cur.len() == 1 && cur[0] == '.' {
                    assert(cur@ =~= seq!['.']);
                }
            }
            if keep {
                let ghost old_done = cview(done@);
                let finished = cur;
                done.push(finished);
                assert(cview(done@) =~= old_done.push(finished@));
            }
            cur = Vec::new();
            assert(cur@ =~= Seq::<char>::empty());
        } else {
            cur.push(c);
        }
        i = i + 1;
    }
    assert(s@.take(s.len() as int) =~= s@);
    let keep = cur.len() > 0 && !(cur.len() == 1 && cur[0] == '.');
    assert(keep == keeps(cur@)) by {
        if cur@ == seq!['.'] {
            assert(cur@.len() == 1);
        }
        if cur.len() == 1 && cur[0] == '.' {
            assert(cur@ =~= seq!['.']);
        }
    }
    if keep {
        let ghost old_done = cview(done@);
        let finished = cur;
        done.push(finished);
        assert(cview(done@) =~= old_done.push(finished@));
    }
    done
}

/// All components of `path`, root and leading current directory included.
pub fn full_components_of(path: &str) -> (r: Vec<Vec<char>>)
    ensures
        cview(r@) == full_components(path@),
{
    let s = to_chars(path);
    let comps = scan_components(&s);
    let absolute = s.len() > 0 && s[0] == '/';
    let cur_dir = s.len() > 0 && s[0] == '.' && (s.len() == 1 || s[1] == '/');
    if absolute || cur_dir {
        let mut marker: Vec<char> = Vec::new();
        marker.push(if absolute { '/' } else { '.' });
        let mut r: Vec<Vec<char>> = Vec::new();
        r.push(marker);
        let mut i: usize = 0;
        while i < comps.len()
            invariant
                i <= comps.len(),
                cview(r@) == seq![marker@] + cview(comps@).take(i as int),
            decreases comps.len() - i,
        {
            let ghost before = cview(r@);
            r.push(comps[i].clone());
            assert(cview(r@) =~= before.push(cview(comps@)[i as int]));
            assert(cview(comps@).take(i + 1) =~= cview(comps@).take(i as int).push(
                cview(comps@)[i as int],
            ));
            i = i + 1;
        }
        assert(cview(comps@).take(comps.len() as int) =~= cview(comps@));
        if absolute {
            assert(marker@ =~= root_marker());
        } else {
            assert(marker@ =~= cur_marker());
        }
        r
    } else {
        comps
    }
}

/// Whether two component lists are equal.
pub(crate) fn components_eq(a: &Vec<Vec<char>>, b: &Vec<Vec<char>>) -> (r: bool)
    ensures
        r == (cview(a@) == cview(b@)),
{
    if a.len() != b.len() {
        assert(cview(a@).len() != cview(b@).len());
        return false;
    }
    let mut i: usize = 0;
    while i < a.len()
        invariant
            i <= a.len(),
            a.len() == b.len(),
            forall|j: int| 0 <= j < i ==> cview(a@)[j] == cview(b@)[j],
        decreases a.len() - i,
    {
        if !chars_eq(&a[i], &b[i]) {
            assert(cview(a@)[i as int] != cview(b@)[i as int]);
            return false;
        }
        i = i + 1;
    }
    assert(cview(a@) =~= cview(b@));
    true
}

/// Whether the first `n` components of `a` equal those of `b`.
fn components_prefix(prefix: &Vec<Vec<char>>, s: &Vec<Vec<char>>) -> (r: bool)
    ensures
        r == is_prefix(cview(prefix@), cview(s@)),
{
    if prefix.len() > s.len() {
        return false;
    }
    let mut i: usize = 0;
    while i < prefix.len()
        invariant
            i <= prefix.len(),
            prefix.len() <= s.len(),
            forall|j: int| 0 <= j < i ==> cview(prefix@)[j] == cview(s@)[j],
        decreases prefix.len() - i,
    {
        if !chars_eq(&prefix[i], &s[i]) {
            assert(cview(s@).subrange(0, prefix.len() as int)[i as int] != cview(prefix@)[i as int]);
            return false;
        }
        i = i + 1;
    }
    assert(cview(s@).subrange(0, prefix.len() as int) =~= cview(prefix@));
    true
}

/// Path equality as `PathBuf == PathBuf`: same components.
pub fn paths_equal(a: &str, b: &str) -> (r: bool)
    ensures
        r == (full_components(a@) == full_components(b@)),
{
    let ca = full_components_of(a);
    let cb = full_components_of(b);
    components_eq(&ca, &cb)
}

/// `Path::starts_with`: whether the components of `base` begin those of `path`.
pub fn path_starts_with(path: &str, base: &str) -> (r: bool)
    ensures
        r == starts_with(path@, base@),
{
    let cp = full_components_of(path);
    let cb = full_components_of(base);
    components_prefix(&cb, &cp)
}

/// Whether `path` lies directly in the directory `dir` (its parent equals `dir`).
pub fn path_is_direct_child(path: &str, dir: &str) -> (r: bool)
    ensures
        r == is_direct_child(path@, dir@),
{
    let mut cp = full_components_of(path);
    let cd = full_components_of(dir);
    if cp.len() == 0 {
        return false;
    }
    let last: usize = cp.len() - 1;
    let is_root = cp[last].len() == 1 && cp[last][0] == '/';
    assert(is_root == (cview(cp@).last() == root_marker())) by {
        if cview(cp@).last() == root_marker() {
            assert(cview(cp@).last().len() == 1);
        }
        if is_root {
            assert(cview(cp@).last() =~= root_marker());
        }
    }
    if is_root {
        return false;
    }
    let ghost before = cview(cp@);
    cp.pop();
    assert(cview(cp@) =~= before.drop_last());
    components_eq(&cp, &cd)
}

/// `Path::file_name`: the last normal component, unless it is `..`.
pub fn path_file_name(path: &str) -> (r: Option<String>)
    ensures
        match r {
            Some(n) => file_name(path@) == Some(n@),
            None => file_name(path@) is None,
        },
{
    let s = to_chars(path);
    let comps = scan_components(&s);
    if comps.len() == 0 {
        return None;
    }
    let last = &comps[comps.len() - 1];
    let is_dotdot = last.len() == 2 && last[0] == '.' && last[1] == '.';
    assert(is_dotdot == (cview(comps@).last() == seq!['.', '.'])) by {
        if cview(comps@).last() == seq!['.', '.'] {
            assert(cview(comps@).last().len() == 2);
        }
        if is_dotdot {
            assert(cview(comps@).last() =~= seq!['.', '.']);
        }
    }
    if is_dotdot {
        None
    } else {
        Some(from_chars(last))
    }
}

/// The extension of a file name (see [`name_extension`]).
pub fn name_extension_of(name: &Vec<char>) -> (r: Option<Vec<char>>)
    ensures
        match r {
            Some(e) => name_extension(name@) == Some(e@),
            None => name_extension(name@) is None,
        },
{
    let mut k: usize = name.len();
    assert(name@.take(k as int) =~= name@);
    while k > 0 && name[k - 1] != '.'
        invariant
            k <= name.len(),
            last_index_of(name@, '.') == last_index_of(name@.take(k as int), '.'),
        decreases k,
    {
        assert(name@.take(k as int).drop_last() =~= name@.take(k - 1));
        k = k - 1;
    }
    if k == 0 {
        assert(name@.take(0) =~= Seq::<char>::empty());
        return None;
    }
    assert(name@.take(k as int).last() == '.');
    let dot = k - 1;
    assert(last_index_of(name@, '.') == dot);
    if dot == 0 {
        return None;
    }
    let mut e: Vec<char> = Vec::new();
    let mut i: usize = dot + 1;
    while i < name.len()
        invariant
            dot + 1 <= i <= name.len(),
            e@ == name@.subrange(dot + 1, i as int),
        decreases name.len() - i,
    {
        e.push(name[i]);
        assert(name@.subrange(dot + 1, i + 1) =~= name@.subrange(dot + 1, i as int).push(name@[i as int]));
        i = i + 1;
    }
    Some(e)
}

/// `Path::extension`: the extension of the file name, if any.
pub fn path_extension(path: &str) -> (r: Option<String>)
    ensures
        match r {
            Some(e) => extension(path@) == Some(e@),
            None => extension(path@) is None,
        },
{
    match path_file_name(path) {
        Some(n) => {
            let nv = to_chars(n.as_str());
            match name_extension_of(&nv) {
                Some(e) => Some(from_chars(&e)),
                None => None,
            }
        },
        None => None,
    }
}

/// `PathBuf::push` of a relative or absolute `name` onto `base`.
pub fn path_join(base: &str, name: &str) -> (r: String)
    ensures
        r@ == join(base@, name@),
{
    let b = to_chars(base);
    let n = to_chars(name);
    let mut out = b.clone();
    if n.len() > 0 && n[0] == '/' {
        return from_chars(&n);
    }
    if !(b.len() == 0 || b[b.len() - 1] == '/') {
        out.push('/');
    }
    let ghost start = out@;
    let mut i: usize = 0;
    while i < n.len()
        invariant
            i <= n.len(),
            out@ == start + n@.take(i as int),
        decreases n.len() - i,
    {
        out.push(n[i]);
        assert(n@.take(i + 1) =~= n@.take(i as int).push(n@[i as int]));
        assert(start + n@.take(i + 1) =~= (start + n@.take(i as int)).push(n@[i as int]));
        i = i + 1;
    }
    assert(n@.take(n.len() as int) =~= n@);
    assert(b@.len() == 0 || b@.last() == '/' ==> start =~= b@);
    assert(!(b@.len() == 0 || b@.last() == '/') ==> start =~= b@ + seq!['/']);
    from_chars(&out)
}

} // verus!
