//! Byte-string utilities: equality, a total lexicographic order, substring
//! search, and the recognized manifest file names as byte sequences.
use vstd::prelude::*;

verus! {

/// Three-way lexicographic comparison of two byte sequences, starting at
/// index `i`: negative means `a` comes first, zero means they are equal from
/// `i` on, positive means `b` comes first.
pub open spec fn bytes_cmp_from(a: Seq<u8>, b: Seq<u8>, i: int) -> int
    decreases a.len() + b.len() - 2 * i,
{
    if i < 0 {
        0
    } else if i >= a.len() && i >= b.len() {
        0
    } else if i >= a.len() {
        -1
    } else if i >= b.len() {
        1
    } else if a[i] < b[i] {
        -1
    } else if a[i] > b[i] {
        1
    } else {
        bytes_cmp_from(a, b, i + 1)
    }
}

/// Three-way lexicographic comparison of two byte sequences.
pub open spec fn bytes_cmp(a: Seq<u8>, b: Seq<u8>) -> int {
    bytes_cmp_from(a, b, 0)
}

/// The comparison is antisymmetric: swapping the arguments flips the sign.
pub proof fn lemma_bytes_cmp_from_flip(a: Seq<u8>, b: Seq<u8>, i: int)
    ensures
        bytes_cmp_from(a, b, i) == -bytes_cmp_from(b, a, i),
    decreases a.len() + b.len() - 2 * i,
{
    if 0 <= i && (i < a.len() || i < b.len()) {
        if i < a.len() && i < b.len() && a[i] == b[i] {
            lemma_bytes_cmp_from_flip(a, b, i + 1);
        }
    }
}

/// Comparing equal from index `i` on means the tails agree pointwise; with
/// `i == 0` and extensionality the sequences are equal.
pub proof fn lemma_bytes_cmp_from_zero(a: Seq<u8>, b: Seq<u8>, i: int)
    requires
        0 <= i,
        bytes_cmp_from(a, b, i) == 0,
    ensures
        a.len() >= i && b.len() >= i ==> a.len() == b.len(),
        forall|j: int| i <= j < a.len() && j < b.len() ==> a[j] == b[j],
    decreases a.len() + b.len() - 2 * i,
{
    if i >= a.len() && i >= b.len() {
    } else if i < a.len() && i < b.len() && a[i] == b[i] {
        lemma_bytes_cmp_from_zero(a, b, i + 1);
    }
}

/// A zero comparison of whole sequences means equality.
pub proof fn lemma_bytes_cmp_eq(a: Seq<u8>, b: Seq<u8>)
    requires
        bytes_cmp(a, b) == 0,
    ensures
        a == b,
{
    lemma_bytes_cmp_from_zero(a, b, 0);
    assert(a =~= b);
}

/// A sequence compares equal to itself.
pub proof fn lemma_bytes_cmp_from_refl(a: Seq<u8>, i: int)
    requires
        0 <= i,
    ensures
        bytes_cmp_from(a, a, i) == 0,
    decreases a.len() - i,
{
    if i < a.len() {
        lemma_bytes_cmp_from_refl(a, i + 1);
    }
}

/// The order is transitive.
pub proof fn lemma_bytes_cmp_from_trans(a: Seq<u8>, b: Seq<u8>, c: Seq<u8>, i: int)
    requires
        0 <= i,
        bytes_cmp_from(a, b, i) <= 0,
        bytes_cmp_from(b, c, i) <= 0,
    ensures
        bytes_cmp_from(a, c, i) <= 0,
        bytes_cmp_from(a, c, i) == 0 ==> bytes_cmp_from(a, b, i) == 0 && bytes_cmp_from(b, c, i)
            == 0,
    decreases a.len() + b.len() + c.len() - 3 * i,
{
    if i >= a.len() {
    } else {
        // a has a byte at i; from bytes_cmp_from(a, b, i) <= 0, so does b,
        // and likewise c.
        if i < b.len() && i < c.len() {
            if a[i] == b[i] && b[i] == c[i] {
                lemma_bytes_cmp_from_trans(a, b, c, i + 1);
            }
        }
    }
}

pub proof fn lemma_bytes_cmp_trans(a: Seq<u8>, b: Seq<u8>, c: Seq<u8>)
    requires
        bytes_cmp(a, b) <= 0,
        bytes_cmp(b, c) <= 0,
    ensures
        bytes_cmp(a, c) <= 0,
        bytes_cmp(a, c) == 0 ==> bytes_cmp(a, b) == 0 && bytes_cmp(b, c) == 0,
{
    lemma_bytes_cmp_from_trans(a, b, c, 0);
}

/// Executable three-way comparison, agreeing with `bytes_cmp`.
pub fn bytes_cmp_exec(a: &Vec<u8>, b: &Vec<u8>) -> (r: i8)
    ensures
        r < 0 <==> bytes_cmp(a@, b@) < 0,
        r == 0 <==> bytes_cmp(a@, b@) == 0,
        r > 0 <==> bytes_cmp(a@, b@) > 0,
{
    let mut i: usize = 0;
    loop
        invariant
            0 <= i <= a@.len() || 0 <= i <= b@.len(),
            bytes_cmp(a@, b@) == bytes_cmp_from(a@, b@, i as int),
        decreases a@.len() + b@.len() - i,
    {
        if i >= a.len() && i >= b.len() {
            return 0;
        } else if i >= a.len() {
            return -1;
        } else if i >= b.len() {
            return 1;
        } else if a[i] < b[i] {
            return -1;
        } else if a[i] > b[i] {
            return 1;
        }
        i = i + 1;
    }
}

/// Executable equality of byte vectors.
pub fn bytes_eq(a: &Vec<u8>, b: &Vec<u8>) -> (r: bool)
    ensures
        r == (a@ == b@),
{
    let c = bytes_cmp_exec(a, b);
    if c == 0 {
        proof {
            lemma_bytes_cmp_eq(a@, b@);
        }
        true
    } else {
        proof {
            lemma_bytes_cmp_from_refl(a@, 0);
        }
        false
    }
}

/// `needle` occurs as a contiguous subrange of `hay` at position `i`.
pub open spec fn occurs_at(hay: Seq<u8>, needle: Seq<u8>, i: int) -> bool {
    0 <= i && i + needle.len() <= hay.len() && hay.subrange(i, i + needle.len()) == needle
}

/// `needle` occurs somewhere in `hay` as a contiguous subrange.
pub open spec fn contains_bytes(hay: Seq<u8>, needle: Seq<u8>) -> bool {
    exists|i: int| occurs_at(hay, needle, i)
}

/// Whether `needle` matches `hay` at position `i`, checked byte by byte.
fn matches_at(hay: &Vec<u8>, needle: &Vec<u8>, i: usize) -> (r: bool)
    requires
        i + needle@.len() <= hay@.len(),
    ensures
        r == occurs_at(hay@, needle@, i as int),
{
    let hay_len: usize = hay.len();
    let mut j: usize = 0;
    while j < needle.len()
        invariant
            0 <= j <= needle@.len(),
            i + needle@.len() <= hay@.len(),
            hay_len == hay@.len(),
            forall|k: int| 0 <= k < j ==> hay@[i + k] == needle@[k],
        decreases needle@.len() - j,
    {
        assert(i + j < hay@.len());
        if hay[i + j] != needle[j] {
            assert(hay@.subrange(i as int, i + needle@.len())[j as int] != needle@[j as int]);
            return false;
        }
        j += 1;
    }
    proof {
        assert(hay@.subrange(i as int, i + needle@.len()) =~= needle@);
    }
    true
}

/// Executable substring search, agreeing with `contains_bytes`.
pub fn contains_bytes_exec(hay: &Vec<u8>, needle: &Vec<u8>) -> (r: bool)
    ensures
        r == contains_bytes(hay@, needle@),
{
    if needle.len() > hay.len() {
        assert(forall|i: int| !occurs_at(hay@, needle@, i));
        return false;
    }
    let last: usize = hay.len() - needle.len();
    let mut i: usize = 0;
    while i < last
        invariant
            0 <= i <= last,
            last + needle@.len() == hay@.len(),
            forall|k: int| 0 <= k < i ==> !occurs_at(hay@, needle@, k),
        decreases last - i,
    {
        if matches_at(hay, needle, i) {
            return true;
        }
        i += 1;
    }
    if matches_at(hay, needle, last) {
        return true;
    }
    assert(forall|k: int| occurs_at(hay@, needle@, k) ==> 0 <= k <= last);
    false
}

/// The file name of a structured project description, `rust-project.json`.
pub open spec fn structured_project_name() -> Seq<u8> {
    seq![
        114u8,
        117u8,
        115u8,
        116u8,
        45u8,
        112u8,
        114u8,
        111u8,
        106u8,
        101u8,
        99u8,
        116u8,
        46u8,
        106u8,
        115u8,
        111u8,
        110u8,
    ]
}

/// The file name of a package manifest, `Cargo.toml`.
pub open spec fn package_manifest_name() -> Seq<u8> {
    seq![67u8, 97u8, 114u8, 103u8, 111u8, 46u8, 116u8, 111u8, 109u8, 108u8]
}

/// The marker substring, `rust-script`, that the first line of a standalone
/// script must contain.
pub open spec fn script_marker() -> Seq<u8> {
    seq![114u8, 117u8, 115u8, 116u8, 45u8, 115u8, 99u8, 114u8, 105u8, 112u8, 116u8]
}

/// The `rs` source-file extension.
pub open spec fn ext_rs() -> Seq<u8> {
    seq![114u8, 115u8]
}

/// The `ers` source-file extension.
pub open spec fn ext_ers() -> Seq<u8> {
    seq![101u8, 114u8, 115u8]
}

/// Builds the structured-project file name at run time.
pub fn structured_project_name_exec() -> (r: Vec<u8>)
    ensures
        r@ == structured_project_name(),
{
    let r: Vec<u8> = vec![
        114u8,
        117u8,
        115u8,
        116u8,
        45u8,
        112u8,
        114u8,
        111u8,
        106u8,
        101u8,
        99u8,
        116u8,
        46u8,
        106u8,
        115u8,
        111u8,
        110u8,
    ];
    proof {
        assert(r@ =~= structured_project_name());
    }
    r
}

/// Builds the package-manifest file name at run time.
pub fn package_manifest_name_exec() -> (r: Vec<u8>)
    ensures
        r@ == package_manifest_name(),
{
    let r: Vec<u8> = vec![67u8, 97u8, 114u8, 103u8, 111u8, 46u8, 116u8, 111u8, 109u8, 108u8];
    proof {
        assert(r@ =~= package_manifest_name());
    }
    r
}

/// Builds the script marker substring at run time.
pub fn script_marker_exec() -> (r: Vec<u8>)
    ensures
        r@ == script_marker(),
{
    let r: Vec<u8> = vec![
        114u8,
        117u8,
        115u8,
        116u8,
        45u8,
        115u8,
        99u8,
        114u8,
        105u8,
        112u8,
        116u8,
    ];
    proof {
        assert(r@ =~= script_marker());
    }
    r
}

} // verus!
