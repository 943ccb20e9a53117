//! An absolute filesystem path, modeled as the sequence of its components
//! (each a byte string), ordered from the root downward. The root directory
//! itself is the empty sequence. A total lexicographic order over paths backs
//! the deterministic ordering of discovery results.
use vstd::prelude::*;

use crate::bytestr::{
    bytes_cmp, bytes_cmp_exec, bytes_cmp_from, bytes_eq, ext_ers, ext_rs, lemma_bytes_cmp_eq,
    lemma_bytes_cmp_from_flip, lemma_bytes_cmp_from_refl, lemma_bytes_cmp_trans,
};

verus! {

/// An absolute path: the components below the filesystem root, in order.
#[derive(Clone, Debug, PartialEq, Eq)]
pub struct AbsPath {
    pub components: Vec<Vec<u8>>,
}

impl View for AbsPath {
    type V = Seq<Seq<u8>>;

    open spec fn view(&self) -> Seq<Seq<u8>> {
        self.components@.map_values(|c: Vec<u8>| c@)
    }
}

impl AbsPath {
    /// The final component equals `name`; false for the root path.
    pub open spec fn spec_ends_with(self, name: Seq<u8>) -> bool {
        self@.len() > 0 && self@.last() == name
    }

    /// Whether the final component of the path equals `name`.
    pub fn ends_with_name(&self, name: &Vec<u8>) -> (r: bool)
        ensures
            r == self.spec_ends_with(name@),
    {
        let n = self.components.len();
        if n == 0 {
            return false;
        }
        let r = bytes_eq(&self.components[n - 1], name);
        proof {
            assert(self@.last() == self.components@[n - 1]@);
        }
        r
    }

    /// A deep copy with an equal view.
    pub fn duplicate(&self) -> (r: AbsPath)
        ensures
            r@ == self@,
    {
        self.prefix(self.components.len())
    }

    /// A deep copy of the first `keep` components.
    pub fn prefix(&self, keep: usize) -> (r: AbsPath)
        requires
            keep <= self@.len(),
        ensures
            r@ == self@.take(keep as int),
    {
        let mut components: Vec<Vec<u8>> = Vec::new();
        let mut i: usize = 0;
        while i < keep
            invariant
                0 <= i <= keep <= self@.len(),
                self@.len() == self.components@.len(),
                components@.len() == i as int,
                forall|j: int| 0 <= j < i ==> components@[j]@ == self@[j],
            decreases keep - i,
        {
            components.push(copy_bytes(&self.components[i]));
            i += 1;
        }
        let r = AbsPath { components };
        proof {
            assert(r@ =~= self@.take(keep as int));
        }
        r
    }

    /// The path extended by one further component.
    pub fn join(&self, name: &Vec<u8>) -> (r: AbsPath)
        ensures
            r@ == self@.push(name@),
    {
        let mut r = self.duplicate();
        r.components.push(copy_bytes(name));
        proof {
            assert(r@ =~= self@.push(name@));
        }
        r
    }
}

/// A deep copy of a byte vector.
pub fn copy_bytes(a: &Vec<u8>) -> (r: Vec<u8>)
    ensures
        r@ == a@,
{
    let mut r: Vec<u8> = Vec::new();
    let mut i: usize = 0;
    while i < a.len()
        invariant
            0 <= i <= a@.len(),
            r@ =~= a@.take(i as int),
        decreases a@.len() - i,
    {
        r.push(a[i]);
        proof {
            assert(r@ =~= a@.take(i + 1));
        }
        i += 1;
    }
    proof {
        assert(a@.take(a@.len() as int) =~= a@);
    }
    r
}

/// Three-way lexicographic comparison of two component sequences, starting at
/// component index `i`: components are compared by the byte order, a shorter
/// path that is a prefix of a longer one comes first.
pub open spec fn path_cmp_from(a: Seq<Seq<u8>>, b: Seq<Seq<u8>>, i: int) -> int
    decreases a.len() + b.len() - 2 * i,
{
    if i < 0 {
        0
    } else if i >= a.len() && i >= b.len() {
        0
    } else if i >= a.len() {
        -1
    } else if i >= b.len() {
        1
    } else if bytes_cmp(a[i], b[i]) < 0 {
        -1
    } else if bytes_cmp(a[i], b[i]) > 0 {
        1
    } else {
        path_cmp_from(a, b, i + 1)
    }
}

/// Three-way lexicographic comparison of two component sequences.
pub open spec fn path_cmp(a: Seq<Seq<u8>>, b: Seq<Seq<u8>>) -> int {
    path_cmp_from(a, b, 0)
}

/// The path comparison is antisymmetric: swapping the arguments flips the
/// sign.
pub proof fn lemma_path_cmp_from_flip(a: Seq<Seq<u8>>, b: Seq<Seq<u8>>, i: int)
    ensures
        path_cmp_from(a, b, i) == -path_cmp_from(b, a, i),
    decreases a.len() + b.len() - 2 * i,
{
    if 0 <= i && (i < a.len() || i < b.len()) {
        if i < a.len() && i < b.len() {
            lemma_bytes_cmp_from_flip(a[i], b[i], 0);
            if bytes_cmp(a[i], b[i]) == 0 {
                lemma_path_cmp_from_flip(a, b, i + 1);
            }
        }
    }
}

/// A path compares equal to itself.
pub proof fn lemma_path_cmp_from_refl(a: Seq<Seq<u8>>, i: int)
    requires
        0 <= i,
    ensures
        path_cmp_from(a, a, i) == 0,
    decreases a.len() - i,
{
    if i < a.len() {
        lemma_bytes_cmp_from_refl(a[i], 0);
        lemma_path_cmp_from_refl(a, i + 1);
    }
}

/// A zero comparison of whole component sequences means equality.
pub proof fn lemma_path_cmp_eq(a: Seq<Seq<u8>>, b: Seq<Seq<u8>>)
    requires
        path_cmp(a, b) == 0,
    ensures
        a == b,
{
    lemma_path_cmp_from_zero(a, b, 0);
    assert(a =~= b);
}

proof fn lemma_path_cmp_from_zero(a: Seq<Seq<u8>>, b: Seq<Seq<u8>>, i: int)
    requires
        0 <= i,
        path_cmp_from(a, b, i) == 0,
    ensures
        a.len() >= i && b.len() >= i ==> a.len() == b.len(),
        forall|j: int| i <= j < a.len() && j < b.len() ==> a[j] == b[j],
    decreases a.len() + b.len() - 2 * i,
{
    if i >= a.len() && i >= b.len() {
    } else if i < a.len() && i < b.len() && bytes_cmp(a[i], b[i]) == 0 {
        lemma_bytes_cmp_eq(a[i], b[i]);
        lemma_path_cmp_from_zero(a, b, i + 1);
    }
}

/// The path order is transitive; a tie forces ties on both sides.
pub proof fn lemma_path_cmp_trans(a: Seq<Seq<u8>>, b: Seq<Seq<u8>>, c: Seq<Seq<u8>>)
    requires
        path_cmp(a, b) <= 0,
        path_cmp(b, c) <= 0,
    ensures
        path_cmp(a, c) <= 0,
        path_cmp(a, c) == 0 ==> path_cmp(a, b) == 0 && path_cmp(b, c) == 0,
{
    lemma_path_cmp_from_trans(a, b, c, 0);
}

proof fn lemma_path_cmp_from_trans(a: Seq<Seq<u8>>, b: Seq<Seq<u8>>, c: Seq<Seq<u8>>, i: int)
    requires
        0 <= i,
        path_cmp_from(a, b, i) <= 0,
        path_cmp_from(b, c, i) <= 0,
    ensures
        path_cmp_from(a, c, i) <= 0,
        path_cmp_from(a, c, i) == 0 ==> path_cmp_from(a, b, i) == 0 && path_cmp_from(b, c, i)
            == 0,
    decreases a.len() + b.len() + c.len() - 3 * i,
{
    if i >= a.len() {
    } else if i < b.len() && i < c.len() {
        lemma_bytes_cmp_trans(a[i], b[i], c[i]);
        if bytes_cmp(a[i], b[i]) == 0 && bytes_cmp(b[i], c[i]) == 0 {
            lemma_bytes_cmp_eq(a[i], b[i]);
            lemma_bytes_cmp_eq(b[i], c[i]);
            lemma_path_cmp_from_trans(a, b, c, i + 1);
        }
    }
}

/// Executable three-way comparison of two paths, agreeing with `path_cmp`.
pub fn path_cmp_exec(a: &AbsPath, b: &AbsPath) -> (r: i8)
    ensures
        r < 0 <==> path_cmp(a@, b@) < 0,
        r == 0 <==> path_cmp(a@, b@) == 0,
        r > 0 <==> path_cmp(a@, b@) > 0,
{
    let mut i: usize = 0;
    loop
        invariant
            0 <= i <= a@.len() || 0 <= i <= b@.len(),
            a@.len() == a.components@.len(),
            b@.len() == b.components@.len(),
            path_cmp(a@, b@) == path_cmp_from(a@, b@, i as int),
        decreases a@.len() + b@.len() - i,
    {
        if i >= a.components.len() && i >= b.components.len() {
            return 0;
        } else if i >= a.components.len() {
            return -1;
        } else if i >= b.components.len() {
            return 1;
        }
        let c = bytes_cmp_exec(&a.components[i], &b.components[i]);
        if c < 0 {
            return -1;
        } else if c > 0 {
            return 1;
        }
        i = i + 1;
    }
}

/// The position of the last `.` byte strictly before index `i` of `f`, if
/// any.
pub open spec fn last_dot_before(f: Seq<u8>, i: int) -> Option<int>
    decreases i,
{
    if i <= 0 {
        None
    } else if f[i - 1] == 46 {
        Some(i - 1)
    } else {
        last_dot_before(f, i - 1)
    }
}

/// The extension of a file name: the bytes after the last `.`, provided that
/// dot is not the leading byte (a leading dot marks a hidden file, not an
/// extension).
pub open spec fn extension_of(f: Seq<u8>) -> Option<Seq<u8>> {
    match last_dot_before(f, f.len() as int) {
        Some(j) => if j > 0 {
            Some(f.subrange(j + 1, f.len() as int))
        } else {
            None
        },
        None => None,
    }
}

/// The file name carries one of the two recognized source-file extensions,
/// `rs` or `ers`.
pub open spec fn has_script_extension(f: Seq<u8>) -> bool {
    extension_of(f) == Some(ext_rs()) || extension_of(f) == Some(ext_ers())
}

/// Whether the file name has one of the two recognized source-file
/// extensions.
pub fn has_script_extension_exec(f: &Vec<u8>) -> (r: bool)
    ensures
        r == has_script_extension(f@),
{
    let n = f.len();
    let mut i: usize = n;
    let mut found: bool = false;
    while i > 0 && !found
        invariant
            0 <= i <= n,
            n == f@.len(),
            !found ==> last_dot_before(f@, n as int) == last_dot_before(f@, i as int),
            found ==> 1 <= i && last_dot_before(f@, n as int) == Some(i - 1),
        decreases i, (if found { 0int } else { 1int }),
    {
        if f[i - 1] == 46 {
            found = true;
        } else {
            i -= 1;
        }
    }
    if !found {
        // No dot anywhere in the name.
        return false;
    }
    if i == 1 {
        // The only dot is the leading byte: a hidden file, not an extension.
        return false;
    }
    let j = i - 1;
    assert(last_dot_before(f@, n as int) == Some(j as int));
    let ext_len = n - i;
    if ext_len == 2 {
        let r = f[i] == 114 && f[i + 1] == 115;
        proof {
            let ext = f@.subrange(j + 1, n as int);
            assert(ext.len() == 2);
            assert(ext[0] == f@[j + 1] && ext[1] == f@[j + 2]);
            if f@[i as int] == 114 && f@[i + 1] == 115 {
                assert(ext =~= ext_rs());
            } else {
                assert(ext != ext_rs());
            }
            assert(ext.len() != ext_ers().len());
            assert(ext != ext_ers());
        }
        r
    } else if ext_len == 3 {
        let r = f[i] == 101 && f[i + 1] == 114 && f[i + 2] == 115;
        proof {
            let ext = f@.subrange(j + 1, n as int);
            assert(ext.len() == 3);
            assert(ext[0] == f@[j + 1] && ext[1] == f@[j + 2] && ext[2] == f@[j + 3]);
            if f@[i as int] == 101 && f@[i + 1] == 114 && f@[i + 2] == 115 {
                assert(ext =~= ext_ers());
            } else {
                assert(ext != ext_ers());
            }
            assert(ext.len() != ext_rs().len());
            assert(ext != ext_rs());
        }
        r
    } else {
        proof {
            let ext = f@.subrange(j + 1, n as int);
            assert(ext.len() != ext_rs().len() && ext.len() != ext_ers().len());
            assert(ext != ext_rs() && ext != ext_ers());
        }
        false
    }
}

} // verus!
