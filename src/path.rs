//! Paths as strings with `/` as the separator, and the lexical checks that
//! keep every touched path inside the storage root.
use vstd::prelude::*;
use vstd::string::*;

verus! {

/// `base` followed by a separator and `name`.
pub open spec fn join_spec(base: Seq<char>, name: Seq<char>) -> Seq<char> {
    base + seq!['/'] + name
}

/// A `..` component starts at index `i` of `p`.
pub open spec fn parent_segment_at(p: Seq<char>, i: int) -> bool {
    &&& 0 <= i
    &&& i + 2 <= p.len()
    &&& p[i] == '.'
    &&& p[i + 1] == '.'
    &&& (i == 0 || p[i - 1] == '/')
    &&& (i + 2 == p.len() || p[i + 2] == '/')
}

/// `p` holds a parent-directory (`..`) component.
pub open spec fn has_parent_segment(p: Seq<char>) -> bool {
    exists|i: int| parent_segment_at(p, i)
}

/// `p` is `root` or lies below it, compared component by component.
pub open spec fn is_under(p: Seq<char>, root: Seq<char>) -> bool {
    &&& root.len() <= p.len()
    &&& p.subrange(0, root.len() as int) == root
    &&& (p.len() == root.len() || p[root.len() as int] == '/' || (root.len() > 0
        && root.last() == '/'))
}

/// `p` splits into a directory `parent` and a last component `name`: the
/// name is not empty, holds no separator and is not `.`.
pub open spec fn splits_into(p: Seq<char>, parent: Seq<char>, name: Seq<char>) -> bool {
    &&& p == join_spec(parent, name)
    &&& name.len() > 0
    &&& name != seq!['.']
    &&& forall|i: int| 0 <= i < name.len() ==> name[i] != '/'
}

/// `p` has a last component that names a file, below some directory.
pub open spec fn has_file_name(p: Seq<char>) -> bool {
    exists|parent: Seq<char>, name: Seq<char>| splits_into(p, parent, name)
}

/// Appends a separator and `name` to `base`.
pub fn join(base: &String, name: &str) -> (r: String)
    ensures
        r@ == join_spec(base@, name@),
{
    let mut r = base.clone();
    proof {
        reveal_strlit("/");
    }
    r.append("/");
    r.append(name);
    r
}

/// Tells whether `p` holds a `..` component.
pub fn contains_parent_segment(p: &str) -> (r: bool)
    ensures
        r == has_parent_segment(p@),
{
    let n = p.unicode_len();
    if n < 2 {
        assert(!has_parent_segment(p@));
        return false;
    }
    let mut i: usize = 0;
    while i + 1 < n
        invariant
            n == p@.len(),
            n >= 2,
            i + 1 <= n,
            forall|j: int| 0 <= j < i ==> !parent_segment_at(p@, j),
        decreases n - i,
    {
        let starts = i == 0 || p.get_char(i - 1) == '/';
        let ends = i + 2 == n || p.get_char(i + 2) == '/';
        if starts && ends && p.get_char(i) == '.' && p.get_char(i + 1) == '.' {
            assert(parent_segment_at(p@, i as int));
            return true;
        }
        i = i + 1;
    }
    assert forall|j: int| !parent_segment_at(p@, j) by {
        if 0 <= j < i {
        }
    }
    false
}

/// Tells whether `p` is `root` or lies below it.
pub fn starts_with_root(p: &str, root: &str) -> (r: bool)
    ensures
        r == is_under(p@, root@),
{
    let n = p.unicode_len();
    let k = root.unicode_len();
    if k > n {
        return false;
    }
    let mut i: usize = 0;
    while i < k
        invariant
            n == p@.len(),
            k == root@.len(),
            k <= n,
            i <= k,
            forall|j: int| 0 <= j < i ==> p@[j] == root@[j],
        decreases k - i,
    {
        if p.get_char(i) != root.get_char(i) {
            assert(p@.subrange(0, k as int)[i as int] != root@[i as int]);
            return false;
        }
        i = i + 1;
    }
    assert(p@.subrange(0, k as int) =~= root@);
    if n == k {
        true
    } else if p.get_char(k) == '/' {
        true
    } else {
        k > 0 && root.get_char(k - 1) == '/'
    }
}

/// Splits `p` at its last separator into a directory and a file name, or
/// gives `None` where `p` has no such last component.
pub fn split_file_name(p: &str) -> (r: Option<(String, String)>)
    ensures
        r is Some <==> has_file_name(p@),
        r matches Some((parent, name)) ==> splits_into(p@, parent@, name@),
{
    let n = p.unicode_len();
    let mut k: usize = n;
    while k > 0
        invariant
            n == p@.len(),
            k <= n,
            forall|j: int| k <= j < n ==> p@[j] != '/',
        decreases k,
    {
        if p.get_char(k - 1) == '/' {
            let parent = p.substring_char(0, k - 1);
            let name = p.substring_char(k, n);
            let parent = String::from_str(parent);
            let name = String::from_str(name);
            assert(p@ =~= join_spec(parent@, name@));
            let dot = n - k == 1 && p.get_char(k) == '.';
            if k == n || dot {
                proof {
                    if dot {
                        assert(name@ =~= seq!['.']);
                    }
                    assert forall|a: Seq<char>, b: Seq<char>| !splits_into(p@, a, b) by {
                        if splits_into(p@, a, b) {
                            lemma_split_unique(p@, a, b, parent@, name@);
                        }
                    }
                }
                return None;
            }
            assert(splits_into(p@, parent@, name@));
            return Some((parent, name));
        }
        k = k - 1;
    }
    assert forall|a: Seq<char>, b: Seq<char>| !splits_into(p@, a, b) by {
        if splits_into(p@, a, b) {
            assert(p@[a.len() as int] == '/');
        }
    }
    None
}

/// A path that ends in a name free of separators splits in one way only:
/// at its last separator.
proof fn lemma_split_unique(p: Seq<char>, a: Seq<char>, b: Seq<char>, c: Seq<char>, d: Seq<char>)
    requires
        p == join_spec(a, b),
        p == join_spec(c, d),
        forall|i: int| 0 <= i < b.len() ==> b[i] != '/',
        forall|i: int| 0 <= i < d.len() ==> d[i] != '/',
    ensures
        a == c,
        b == d,
{
    if a.len() < c.len() {
        let j = c.len() as int;
        assert(p[j] == '/');
        assert((a + seq!['/']).len() == a.len() + 1);
        assert(p.len() == a.len() + 1 + b.len());
        assert((a + seq!['/'] + b)[j] == b[j - a.len() - 1]);
    } else if a.len() > c.len() {
        let j = a.len() as int;
        assert(p[j] == '/');
        assert((c + seq!['/']).len() == c.len() + 1);
        assert(p.len() == c.len() + 1 + d.len());
        assert((c + seq!['/'] + d)[j] == d[j - c.len() - 1]);
    }
    assert(a =~= p.subrange(0, a.len() as int));
    assert(c =~= p.subrange(0, c.len() as int));
    assert(b =~= p.subrange(a.len() as int + 1, p.len() as int));
    assert(d =~= p.subrange(c.len() as int + 1, p.len() as int));
}

} // verus!
