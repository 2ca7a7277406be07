//! Path text: joining a relative path onto a base, file extensions, and the byte
//! order in which file names sort.
use vstd::prelude::*;
use vstd::utf8::encode_utf8;
use crate::text::{owned, concat2, concat3};

verus! {

/// `base` joined with `rel` as `Path::join` does on Unix: an absolute `rel`
/// replaces the base; otherwise a `/` separates them unless the base is empty or
/// already ends with one.
pub open spec fn spec_join(base: Seq<char>, rel: Seq<char>) -> Seq<char> {
    if rel.len() > 0 && rel[0] == '/' {
        rel
    } else if base.len() == 0 {
        rel
    } else if base.last() == '/' {
        base + rel
    } else {
        base + "/"@ + rel
    }
}

/// Join a path onto a base path (`Path::join`, Unix separators).
pub fn join_path(base: &str, rel: &str) -> (r: String)
    ensures
        r@ == spec_join(base@, rel@),
{
    proof {
        reveal_strlit("/");
    }
    let rel_len = rel.unicode_len();
    if rel_len > 0 && rel.get_char(0) == '/' {
        return owned(rel);
    }
    let base_len = base.unicode_len();
    if base_len == 0 {
        owned(rel)
    } else if base.get_char(base_len - 1) == '/' {
        concat2(base, rel)
    } else {
        concat3(base, "/", rel)
    }
}

/// `path` relative to `root`: without the leading `root` and its separator (the
/// root joined with an empty path) when it starts with them, else unchanged.
pub open spec fn spec_relative_to(root: Seq<char>, path: Seq<char>) -> Seq<char> {
    let prefix = spec_join(root, Seq::empty());
    if 0 < prefix.len() <= path.len() && path.take(prefix.len() as int) == prefix {
        path.skip(prefix.len() as int)
    } else {
        path
    }
}

/// Joining the root back onto a path made relative to it gives the path: for a
/// path under the root (it starts with the root and a separator) whose rest is not
/// itself absolute.
pub proof fn lemma_relative_rejoins(root: Seq<char>, path: Seq<char>)
    requires
        root.len() > 0,
        spec_join(root, Seq::empty()).len() <= path.len(),
        path.take(spec_join(root, Seq::empty()).len() as int) == spec_join(root, Seq::empty()),
        !(spec_relative_to(root, path).len() > 0 && spec_relative_to(root, path)[0] == '/'),
    ensures
        spec_join(root, spec_relative_to(root, path)) == path,
{
    let prefix = spec_join(root, Seq::empty());
    let rel = path.skip(prefix.len() as int);
    assert(prefix.len() > 0);
    assert(spec_relative_to(root, path) == rel);
    assert(prefix + rel =~= path);
    if root.last() == '/' {
        assert(prefix =~= root);
    } else {
        assert(prefix =~= root + "/"@);
        assert(root + "/"@ + rel =~= prefix + rel);
    }
}

/// `path` relative to `root`.
pub fn relative_to(root: &str, path: &str) -> (r: String)
    ensures
        r@ == spec_relative_to(root@, path@),
{
    proof {
        reveal_strlit("");
    }
    let prefix = join_path(root, "");
    assert(""@ =~= Seq::<char>::empty());
    let pl = prefix.as_str().unicode_len();
    let n = path.unicode_len();
    if pl == 0 || pl > n {
        return owned(path);
    }
    let mut i: usize = 0;
    while i < pl
        invariant
            i <= pl,
            pl == prefix@.len(),
            prefix@ == spec_join(root@, Seq::empty()),
            pl <= n,
            n == path@.len(),
            forall|q: int| 0 <= q < i ==> path@[q] == prefix@[q],
        decreases pl - i,
    {
        if prefix.as_str().get_char(i) != path.get_char(i) {
            assert(path@.take(pl as int)[i as int] != prefix@[i as int]);
            assert(path@.take(pl as int) != prefix@);
            return owned(path);
        }
        i = i + 1;
    }
    assert(path@.take(pl as int) =~= prefix@);
    let rest = path.substring_char(pl, n);
    assert(rest@ =~= path@.skip(pl as int));
    owned(rest)
}

/// Position of the last `.` in `name`, if any.
pub open spec fn last_dot(name: Seq<char>) -> Option<int>
    decreases name.len(),
{
    if name.len() == 0 {
        None
    } else if name.last() == '.' {
        Some(name.len() - 1)
    } else {
        last_dot(name.drop_last())
    }
}

/// The extension of a file name (`Path::extension`): what follows its last `.`,
/// unless that dot starts the name or the name is `..`.
pub open spec fn spec_extension(name: Seq<char>) -> Option<Seq<char>> {
    if name == ".."@ {
        None
    } else {
        match last_dot(name) {
            Some(i) => if i == 0 {
                None
            } else {
                Some(name.subrange(i + 1, name.len() as int))
            },
            None => None,
        }
    }
}

proof fn lemma_last_dot(name: Seq<char>)
    ensures
        match last_dot(name) {
            Some(i) => 0 <= i < name.len() && name[i] == '.' && forall|j: int| i < j < name.len() ==> name[j] != '.',
            None => forall|j: int| 0 <= j < name.len() ==> name[j] != '.',
        },
    decreases name.len(),
{
    if name.len() > 0 && name.last() != '.' {
        lemma_last_dot(name.drop_last());
        assert forall|j: int| 0 <= j < name.len() - 1 implies name.drop_last()[j] == name[j] by {}
    }
}

/// The extension of a file name, if it has one.
pub fn extension(name: &str) -> (r: Option<String>)
    ensures
        match r {
            Some(e) => spec_extension(name@) == Some(e@),
            None => spec_extension(name@) is None,
        },
{
    proof {
        reveal_strlit("..");
    }
    let n = name.unicode_len();
    if n == 2 && name.get_char(0) == '.' && name.get_char(1) == '.' {
        assert(name@ =~= ".."@);
        return None;
    }
    assert(name@ != ".."@) by {
        if name@ == ".."@ {
            assert(name@.len() == 2 && name@[0] == '.' && name@[1] == '.');
        }
    }
    let mut i: usize = n;
    assert(name@.take(n as int) =~= name@);
    while i > 0
        invariant
            i <= n,
            n == name@.len(),
            name@ != ".."@,
            last_dot(name@) == last_dot(name@.take(i as int)),
        decreases i,
    {
        let ghost pre = name@.take(i as int);
        if name.get_char(i - 1) == '.' {
            assert(pre.last() == '.');
            assert(last_dot(name@) == Some(i - 1));
            if i - 1 == 0 {
                return None;
            }
            let e = name.substring_char(i, n);
            return Some(owned(e));
        }
        assert(pre.drop_last() =~= name@.take(i - 1));
        i = i - 1;
    }
    assert(name@.take(0).len() == 0);
    None
}

/// Lexicographic order on bytes (the order of `str` and `OsStr`).
pub open spec fn bytes_lt(a: Seq<u8>, b: Seq<u8>) -> bool
    decreases a.len(),
{
    if a.len() == 0 {
        b.len() > 0
    } else if b.len() == 0 {
        false
    } else if a[0] != b[0] {
        a[0] < b[0]
    } else {
        bytes_lt(a.drop_first(), b.drop_first())
    }
}

/// The byte order is a strict total order.
pub proof fn lemma_bytes_lt_order(a: Seq<u8>, b: Seq<u8>, c: Seq<u8>)
    ensures
        !bytes_lt(a, a),
        a != b ==> bytes_lt(a, b) || bytes_lt(b, a),
        bytes_lt(a, b) ==> !bytes_lt(b, a),
        bytes_lt(a, b) && bytes_lt(b, c) ==> bytes_lt(a, c),
    decreases a.len(),
{
    if a.len() > 0 && b.len() > 0 && c.len() > 0 {
        lemma_bytes_lt_order(a.drop_first(), b.drop_first(), c.drop_first());
    }
    if a.len() > 0 && b.len() > 0 {
        lemma_bytes_lt_order(a.drop_first(), b.drop_first(), b.drop_first());
        if a != b && a[0] == b[0] {
            assert(a.drop_first() != b.drop_first()) by {
                if a.drop_first() == b.drop_first() {
                    assert(a =~= seq![a[0]] + a.drop_first());
                    assert(b =~= seq![b[0]] + b.drop_first());
                }
            }
        }
    }
    if a.len() > 0 {
        lemma_bytes_lt_order(a.drop_first(), a.drop_first(), a.drop_first());
    }
    if a.len() == 0 && b.len() == 0 {
        assert(a =~= b);
    }
}

/// Whether file name `a` sorts before `b` (`str` ordering, by UTF-8 bytes).
pub(crate) fn name_lt(a: &str, b: &str) -> (r: bool)
    ensures
        r == bytes_lt(encode_utf8(a@), encode_utf8(b@)),
{
    let x = a.as_bytes();
    let y = b.as_bytes();
    let mut i: usize = 0;
    assert(x@.skip(0) =~= x@);
    assert(y@.skip(0) =~= y@);
    while i < x.len() && i < y.len()
        invariant
            i <= x@.len(),
            i <= y@.len(),
            x@ == encode_utf8(a@),
            y@ == encode_utf8(b@),
            bytes_lt(x@, y@) == bytes_lt(x@.skip(i as int), y@.skip(i as int)),
        decreases x@.len() - i,
    {
        assert(x@.skip(i as int)[0] == x@[i as int]);
        assert(y@.skip(i as int)[0] == y@[i as int]);
        if x[i] != y[i] {
            return x[i] < y[i];
        }
        assert(x@.skip(i as int).drop_first() =~= x@.skip(i + 1));
        assert(y@.skip(i as int).drop_first() =~= y@.skip(i + 1));
        i = i + 1;
    }
    i == x.len() && i < y.len()
}

} // verus!
