use vstd::prelude::*;

use crate::text::{after_last, chars_of};

verus! {

/// Whether `path`, taken as a Unix path, is the file system root: it starts with `/` and
/// every other component is empty or `.`. By `Path`'s rules repeated separators and `.`
/// components after the first are ignored, so such a path equals `/`.
pub open spec fn path_is_root(path: Seq<char>) -> bool {
    &&& path.len() > 0
    &&& path[0] == '/'
    &&& forall|i: int|
        1 <= i < path.len() && #[trigger] path[i] != '/' ==> path[i] == '.' && path[i - 1] == '/'
            && (i + 1 == path.len() || path[i + 1] == '/')
}

/// Whether `path` is the file system root.
pub fn is_root_path(path: &str) -> (r: bool)
    ensures
        r == path_is_root(path@),
{
    let cs = chars_of(path);
    let n = cs.len();
    if n == 0 || cs[0] != '/' {
        return false;
    }
    let mut i: usize = 1;
    while i < n
        invariant
            n == cs@.len(),
            cs@ == path@,
            1 <= i <= n,
            path@[0] == '/',
            forall|j: int|
                1 <= j < i && #[trigger] path@[j] != '/' ==> path@[j] == '.' && path@[j - 1] == '/'
                    && (j + 1 == path@.len() || path@[j + 1] == '/'),
        decreases n - i,
    {
        if cs[i] != '/' {
            if !(cs[i] == '.' && cs[i - 1] == '/' && (i + 1 == n || cs[i + 1] == '/')) {
                return false;
            }
        }
        i = i + 1;
    }
    true
}

/// Whether `name` is one plain path component: not empty, without `/`, and not `.`.
pub open spec fn plain_component(name: Seq<char>) -> bool {
    &&& name.len() > 0
    &&& forall|k: int| 0 <= k < name.len() ==> #[trigger] name[k] != '/'
    &&& name != seq!['.']
}

/// Whether `path` is an absolute path in plain form: `/`, or `/` followed by plain
/// components separated by single `/`, with no `/` at the end.
pub open spec fn clean_absolute(path: Seq<char>) -> bool {
    &&& path.len() > 0
    &&& path[0] == '/'
    &&& path.len() > 1 ==> path.last() != '/'
    &&& forall|i: int| 0 <= i < path.len() - 1 ==> !(#[trigger] path[i] == '/' && path[i + 1] == '/')
    &&& forall|i: int|
        1 <= i < path.len() ==> !(#[trigger] path[i] == '.' && path[i - 1] == '/' && (i + 1
            == path.len() || path[i + 1] == '/'))
}

/// `base` extended by `name` as `Path::join` does on Unix: an absolute name replaces the
/// base; otherwise the name follows the base, after a `/` unless the base is empty or
/// already ends in one.
pub open spec fn joined_path(base: Seq<char>, name: Seq<char>) -> Seq<char> {
    if name.len() > 0 && name[0] == '/' {
        name
    } else if base.len() == 0 || base.last() == '/' {
        base + name
    } else {
        base + seq!['/'] + name
    }
}

/// A run of characters between separators as a component: none when it is empty or `.`.
pub open spec fn component_of(run: Seq<char>) -> Seq<Seq<char>> {
    if run.len() == 0 || run == seq!['.'] {
        seq![]
    } else {
        seq![run]
    }
}

/// The components of `s` followed by the run `cur`, read from the end.
pub open spec fn components_before(s: Seq<char>, cur: Seq<char>) -> Seq<Seq<char>>
    decreases s.len(),
{
    if s.len() == 0 {
        component_of(cur)
    } else if s.last() == '/' {
        components_before(s.drop_last(), seq![]) + component_of(cur)
    } else {
        components_before(s.drop_last(), seq![s.last()] + cur)
    }
}

/// The components of an absolute path after its root, as `Path::components` gives them:
/// the runs between separators, where empty runs (repeated separators) and `.` are
/// dropped.
pub open spec fn path_components(path: Seq<char>) -> Seq<Seq<char>> {
    components_before(path, seq![])
}

/// Whether `path` is absolute: it starts with `/`.
pub open spec fn is_absolute(path: Seq<char>) -> bool {
    path.len() > 0 && path[0] == '/'
}

/// The path without its final component, for an absolute path in plain form other than
/// `/`: the text before its last `/`, or `/` when that is the first character.
pub open spec fn parent_text(path: Seq<char>) -> Seq<char> {
    let k = path.len() - after_last(path, '/').len() - 1;
    if k <= 0 {
        seq!['/']
    } else {
        path.subrange(0, k)
    }
}

proof fn lemma_after_last_appended(a: Seq<char>, name: Seq<char>)
    requires
        forall|k: int| 0 <= k < name.len() ==> #[trigger] name[k] != '/',
    ensures
        after_last(a.push('/') + name, '/') == name,
    decreases name.len(),
{
    let s = a.push('/') + name;
    if name.len() == 0 {
        assert(s =~= a.push('/'));
    } else {
        let init = name.drop_last();
        assert forall|k: int| 0 <= k < init.len() implies #[trigger] init[k] != '/' by {
            assert(init[k] == name[k]);
        }
        lemma_after_last_appended(a, init);
        assert(s.drop_last() =~= a.push('/') + init);
        assert(s.last() == name.last());
        assert(name.last() != '/') by {
            assert(name[name.len() - 1] != '/');
        }
        assert(init.push(name.last()) =~= name);
    }
}

/// A plain component joined to an absolute path in plain form gives a path in plain form
/// that is not the root and whose parent is the path one started from.
pub proof fn lemma_join_then_parent(base: Seq<char>, name: Seq<char>)
    requires
        clean_absolute(base),
        plain_component(name),
    ensures
        clean_absolute(joined_path(base, name)),
        joined_path(base, name).len() > 1,
        !path_is_root(joined_path(base, name)),
        parent_text(joined_path(base, name)) == base,
{
    let root = base.len() == 1;
    let a = if root {
        seq![]
    } else {
        base
    };
    let q = a.push('/') + name;
    if root {
        assert(base =~= seq!['/']);
        assert(joined_path(base, name) =~= q);
    } else {
        assert(joined_path(base, name) =~= q);
    }
    lemma_after_last_appended(a, name);
    let m = a.len() as int;
    assert(q.len() == m + 1 + name.len());
    assert forall|i: int| 0 <= i < m implies #[trigger] q[i] == base[i] by {}
    assert(q[m] == '/');
    assert forall|i: int| m + 1 <= i < q.len() implies #[trigger] q[i] == name[i - m - 1] by {}
    // No doubled separator.
    assert forall|i: int| 0 <= i < q.len() - 1 implies !(#[trigger] q[i] == '/' && q[i + 1] == '/') by {
        if i < m - 1 {
            assert(q[i] == base[i] && q[i + 1] == base[i + 1]);
        } else if i == m - 1 {
            assert(q[i] == base.last());
        } else {
            assert(q[i + 1] == name[i - m]);
        }
    }
    // No `.` component.
    assert forall|i: int| 1 <= i < q.len() implies !(#[trigger] q[i] == '.' && q[i - 1] == '/' && (i
        + 1 == q.len() || q[i + 1] == '/')) by {
        if i < m {
            assert(q[i] == base[i] && q[i - 1] == base[i - 1]);
            if i + 1 < m {
                assert(q[i + 1] == base[i + 1]);
            } else {
                assert(i == base.len() - 1);
            }
        } else if i > m {
            if q[i] == '.' && q[i - 1] == '/' {
                assert(i == m + 1);
                if i + 1 == q.len() {
                    assert(name =~= seq!['.']);
                } else {
                    assert(q[i + 1] == name[1]);
                }
            }
        }
    }
    // Not the root: the first character of the name breaks the rule.
    let j: int = m + 1;
    assert(q[j] == name[0]);
    if name[0] == '.' {
        if name.len() == 1 {
            assert(name =~= seq!['.']);
        } else {
            assert(q[j + 1] == name[1]);
            assert(!(q[j] == '.' && q[j - 1] == '/' && (j + 1 == q.len() || q[j + 1] == '/')));
        }
    }
    assert(!path_is_root(q));
    // The parent.
    if root {
        assert(parent_text(q) =~= base);
    } else {
        assert(q.subrange(0, m) =~= base);
    }
}


proof fn lemma_components_run(x: Seq<char>, run: Seq<char>, cur: Seq<char>)
    requires
        forall|k: int| 0 <= k < run.len() ==> #[trigger] run[k] != '/',
    ensures
        components_before(x + run, cur) == components_before(x, run + cur),
    decreases run.len(),
{
    if run.len() == 0 {
        assert(x + run =~= x);
        assert(run + cur =~= cur);
    } else {
        let init = run.drop_last();
        assert forall|k: int| 0 <= k < init.len() implies #[trigger] init[k] != '/' by {
            assert(init[k] == run[k]);
        }
        assert((x + run).drop_last() =~= x + init);
        assert((x + run).last() == run.last());
        assert(run.last() != '/') by {
            assert(run[run.len() - 1] != '/');
        }
        lemma_components_run(x, init, seq![run.last()] + cur);
        assert(init + (seq![run.last()] + cur) =~= run + cur);
    }
}

/// Joining a plain component to an absolute path gives an absolute path whose components
/// are those of the path followed by the component.
pub proof fn lemma_join_components(base: Seq<char>, name: Seq<char>)
    requires
        is_absolute(base),
        plain_component(name),
    ensures
        is_absolute(joined_path(base, name)),
        path_components(joined_path(base, name)) == path_components(base).push(name),
{
    let e = Seq::<char>::empty();
    assert(name + e =~= name);
    assert(component_of(name) =~= seq![name]);
    if base.last() == '/' {
        lemma_components_run(base, name, e);
        assert(joined_path(base, name) == base + name);
        assert(components_before(base, name) == components_before(base.drop_last(), e) + seq![name]);
        assert(components_before(base, e) == components_before(base.drop_last(), e) + component_of(e));
        assert(components_before(base.drop_last(), e) + component_of(e) =~= components_before(
            base.drop_last(),
            e,
        ));
    } else {
        let a = base.push('/');
        assert(joined_path(base, name) =~= a + name);
        lemma_components_run(a, name, e);
        assert(a.drop_last() =~= base);
        assert(components_before(a, name) == components_before(base, e) + seq![name]);
    }
}

} // verus!
