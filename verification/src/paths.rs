//! Unix path names as texts, and the files that the agent writes.

use crate::text::{chars_of, opt_text, piece};
use vstd::prelude::*;

verus! {

/// A file to be written: where, and all that it shall hold, whatever it held before.
pub struct FileWrite {
    pub path: String,
    pub content: String,
}

/// `leaf` resolved against the directory `base`: an absolute `leaf` stands for itself, and one
/// slash separates the two otherwise.
pub open spec fn joined(base: Seq<char>, leaf: Seq<char>) -> Seq<char> {
    if leaf.len() > 0 && leaf[0] == '/' {
        leaf
    } else if base.len() == 0 || base.last() == '/' {
        base + leaf
    } else {
        base + seq!['/'] + leaf
    }
}

/// The path without what adds nothing at its end: slashes, and `.` components behind a slash.
/// The root keeps its slash.
pub open spec fn without_idle_end(p: Seq<char>) -> Seq<char>
    decreases p.len(),
{
    if p.len() >= 2 && (p.last() == '/' || (p.last() == '.' && p[p.len() - 2] == '/')) {
        without_idle_end(p.drop_last())
    } else {
        p
    }
}

/// The part of a path up to and with its last slash.
pub open spec fn upto_last_slash(p: Seq<char>) -> Seq<char>
    decreases p.len(),
{
    if p.len() == 0 || p.last() == '/' {
        p
    } else {
        upto_last_slash(p.drop_last())
    }
}

/// The directory that holds what a path names. The empty path and the root have none; a path of
/// one relative component has the empty path.
pub open spec fn parent_of(p: Seq<char>) -> Option<Seq<char>> {
    let t = without_idle_end(p);
    if t.len() == 0 || t == seq!['/'] {
        None
    } else {
        Some(without_idle_end(upto_last_slash(t)))
    }
}

/// Resolves `leaf` against the directory `base`.
pub fn join(base: &str, leaf: &str) -> (r: String)
    ensures
        r@ == joined(base@, leaf@),
{
    let b: Vec<char> = chars_of(base);
    let l: Vec<char> = chars_of(leaf);
    if l.len() > 0 && l[0] == '/' {
        return leaf.to_owned();
    }
    let mut r: String = base.to_owned();
    if b.len() > 0 && b[b.len() - 1] != '/' {
        proof {
            reveal_strlit("/");
            assert("/"@ =~= seq!['/']);
        }
        r.append("/");
    }
    r.append(leaf);
    r
}

/// The number of characters that remain of the first `n` without an idle end.
fn idle_end(v: &Vec<char>, n: usize) -> (r: usize)
    requires
        n <= v@.len(),
    ensures
        r <= n,
        v@.take(r as int) == without_idle_end(v@.take(n as int)),
{
    let mut r: usize = n;
    while r >= 2 && (v[r - 1] == '/' || (v[r - 1] == '.' && v[r - 2] == '/'))
        invariant
            r <= n <= v@.len(),
            without_idle_end(v@.take(r as int)) == without_idle_end(v@.take(n as int)),
        decreases r,
    {
        assert(v@.take(r as int).drop_last() =~= v@.take(r - 1));
        r = r - 1;
    }
    r
}

/// The directory that holds what a path names.
pub fn parent(p: &str) -> (r: Option<String>)
    ensures
        opt_text(r) == parent_of(p@),
{
    let v: Vec<char> = chars_of(p);
    assert(v@.take(v@.len() as int) =~= v@);
    let n: usize = idle_end(&v, v.len());
    let ghost t = v@.take(n as int);
    if n == 0 {
        return None;
    }
    if n == 1 && v[0] == '/' {
        assert(t =~= seq!['/']);
        return None;
    }
    proof {
        if t == seq!['/'] {
            assert(t[0] == '/');
        }
    }
    let mut m: usize = n;
    while m > 0 && v[m - 1] != '/'
        invariant
            m <= n <= v@.len(),
            t == v@.take(n as int),
            upto_last_slash(v@.take(m as int)) == upto_last_slash(t),
        decreases m,
    {
        assert(v@.take(m as int).drop_last() =~= v@.take(m - 1));
        m = m - 1;
    }
    let k: usize = idle_end(&v, m);
    assert(v@.take(k as int) =~= p@.subrange(0, k as int));
    Some(piece(p, 0, k))
}

/// A file name is put whole behind its directory, one slash between them; so different names in one
/// directory are different files, and so is one name in different directories.
pub proof fn names_in_a_directory(dir: Seq<char>, name: Seq<char>, other: Seq<char>)
    requires
        dir.len() > 0,
        dir[dir.len() - 1] != '/',
        name.len() > 0 ==> name[0] != '/',
        other.len() > 0 ==> other[0] != '/',
    ensures
        joined(dir, name).len() == dir.len() + 1 + name.len(),
        joined(dir, name).take(dir.len() as int) == dir,
        joined(dir, name)[dir.len() as int] == '/',
        joined(dir, name).skip(dir.len() as int + 1) == name,
        joined(dir, name) == joined(dir, other) ==> name == other,
{
    let (p, q) = (joined(dir, name), joined(dir, other));
    assert(p.take(dir.len() as int) =~= dir);
    assert(p.skip(dir.len() as int + 1) =~= name);
    assert(q.skip(dir.len() as int + 1) =~= other);
}

/// A directory that is empty or ends with a slash takes a name without another slash, and a name
/// that begins with one stands for itself.
pub proof fn slashes_are_not_doubled(dir: Seq<char>, name: Seq<char>)
    ensures
        (dir.len() == 0 || dir[dir.len() - 1] == '/') && (name.len() == 0 || name[0] != '/')
            ==> joined(dir, name).len() == dir.len() + name.len() && joined(dir, name).take(
            dir.len() as int,
        ) == dir && joined(dir, name).skip(dir.len() as int) == name,
        name.len() > 0 && name[0] == '/' ==> joined(dir, name) == name,
{
    assert((dir + name).take(dir.len() as int) =~= dir);
    assert((dir + name).skip(dir.len() as int) =~= name);
}

proof fn lemma_upto_last_slash(dir: Seq<char>, name: Seq<char>)
    requires
        forall|i: int| 0 <= i < name.len() ==> #[trigger] name[i] != '/',
    ensures
        upto_last_slash(dir + seq!['/'] + name) == dir + seq!['/'],
    decreases name.len(),
{
    let p = dir + seq!['/'] + name;
    if name.len() == 0 {
        assert(p =~= dir + seq!['/']);
    } else {
        assert(p.last() == name[name.len() - 1]);
        assert(p.drop_last() =~= dir + seq!['/'] + name.drop_last());
        lemma_upto_last_slash(dir, name.drop_last());
    }
}

proof fn lemma_upto_no_slash(name: Seq<char>)
    requires
        forall|i: int| 0 <= i < name.len() ==> #[trigger] name[i] != '/',
    ensures
        upto_last_slash(name) == Seq::<char>::empty(),
    decreases name.len(),
{
    if name.len() > 0 {
        assert(name.last() == name[name.len() - 1]);
        lemma_upto_no_slash(name.drop_last());
    } else {
        assert(name =~= Seq::<char>::empty());
    }
}

/// The directory of a file is the one that its name was put into. A name alone is in the directory
/// without a name, and a name behind a single slash in the root.
pub proof fn directory_of_a_file(dir: Seq<char>, name: Seq<char>)
    requires
        name.len() > 0,
        name != seq!['.'],
        forall|i: int| 0 <= i < name.len() ==> #[trigger] name[i] != '/',
        dir.len() > 0 ==> dir[dir.len() - 1] != '/',
        dir.len() > 1 ==> !(dir[dir.len() - 1] == '.' && dir[dir.len() - 2] == '/'),
    ensures
        dir.len() > 0 ==> parent_of(dir + seq!['/'] + name) == Some(dir),
        parent_of(seq!['/'] + name) == Some(seq!['/']),
        parent_of(name) == Some(Seq::<char>::empty()),
{
    let p = dir + seq!['/'] + name;
    let end = name[name.len() - 1];
    assert(p.last() == end);
    assert(name.last() == end);
    if name.len() == 1 {
        assert(name =~= seq![end]);
    } else {
        assert(p[p.len() - 2] == name[name.len() - 2]);
    }
    lemma_upto_last_slash(dir, name);
    assert(without_idle_end(p) == p);
    if dir.len() > 0 {
        assert((dir + seq!['/']).drop_last() =~= dir);
        assert(without_idle_end(dir) == dir);
        assert(p.len() > 1);
    }
    let r = seq!['/'] + name;
    lemma_upto_last_slash(Seq::empty(), name);
    assert(Seq::<char>::empty() + seq!['/'] + name =~= r);
    assert(Seq::<char>::empty() + seq!['/'] =~= seq!['/']);
    assert(r.last() == end);
    if name.len() > 1 {
        assert(r[r.len() - 2] == name[name.len() - 2]);
    }
    assert(without_idle_end(r) == r);
    assert(r.len() > 1);
    lemma_upto_no_slash(name);
    assert(without_idle_end(name) == name);
    if name == seq!['/'] {
        assert(name[0] == '/');
    }
}

/// Slashes and lone dots at the end of a path change nothing of its directory; the root and the
/// empty path have none.
pub proof fn idle_ends_do_not_matter(p: Seq<char>)
    requires
        p.len() > 0,
    ensures
        parent_of(p.push('/')) == parent_of(p),
        parent_of(p.push('/').push('.')) == parent_of(p),
        parent_of(seq!['/']) is None,
        parent_of(Seq::empty()) is None,
{
    let q = p.push('/');
    assert(q.drop_last() =~= p);
    assert(without_idle_end(q) == without_idle_end(p));
    assert(q.push('.').drop_last() =~= q);
    assert(q.push('.')[q.len() - 1] == '/');
    assert(without_idle_end(q.push('.')) == without_idle_end(q));
}

/// Slashes and lone dots between a directory and a name in it change nothing of the directory.
pub proof fn idle_middles_do_not_matter(dir: Seq<char>, name: Seq<char>)
    requires
        dir.len() > 0,
        name.len() > 0,
        name != seq!['.'],
        forall|i: int| 0 <= i < name.len() ==> #[trigger] name[i] != '/',
    ensures
        parent_of(dir.push('/') + seq!['/'] + name) == parent_of(dir + seq!['/'] + name),
        parent_of(dir.push('/').push('.') + seq!['/'] + name) == parent_of(dir + seq!['/'] + name),
{
    let end = name[name.len() - 1];
    assert(name.len() == 1 ==> name =~= seq![end]);
    let (d, e) = (dir.push('/'), dir.push('/').push('.'));
    lemma_upto_last_slash(dir, name);
    lemma_upto_last_slash(d, name);
    lemma_upto_last_slash(e, name);
    let (p, q, r) = (dir + seq!['/'] + name, d + seq!['/'] + name, e + seq!['/'] + name);
    assert(p.last() == end && q.last() == end && r.last() == end);
    if name.len() > 1 {
        assert(p[p.len() - 2] == name[name.len() - 2]);
        assert(q[q.len() - 2] == name[name.len() - 2]);
        assert(r[r.len() - 2] == name[name.len() - 2]);
    }
    assert(without_idle_end(p) == p && without_idle_end(q) == q && without_idle_end(r) == r);
    assert((d + seq!['/']).drop_last() =~= d);
    assert(dir + seq!['/'] =~= d);
    assert((e + seq!['/']).drop_last() =~= e);
    assert(e.drop_last() =~= d);
    assert(e[e.len() - 2] == '/');
    assert(without_idle_end(e + seq!['/']) == without_idle_end(e));
    assert(without_idle_end(e) == without_idle_end(d));
}

} // verus!
