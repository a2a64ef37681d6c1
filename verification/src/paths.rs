//! Names of archives and the order in which input paths are taken.

use vstd::prelude::*;
use vstd::relations::*;
use vstd::seq_lib::*;
use vstd::string::*;
use vstd::utf8::*;

verus! {

/// The suffix that every archive name carries before the codec's own.
pub open spec fn archive_suffix() -> Seq<char> {
    ".tar"@
}

/// The name of the archive made from the input `path` alone: the path, then
/// the archive suffix, then the codec's suffix.
pub open spec fn archive_name_of(path: Seq<char>, codec: crate::codec::Codec) -> Seq<char> {
    path + archive_suffix() + codec.suffix()
}

/// Derives the name of the archive made from the input `path` alone.
pub fn archive_name(path: &str, codec: crate::codec::Codec) -> (r: String)
    ensures
        r@ == archive_name_of(path@, codec),
{
    let mut name = String::from_str(path);
    name.append(".tar");
    let suffix = codec.extension();
    name.append(suffix.as_str());
    name
}

/// `a` comes no later than `b` when both are read byte by byte: at the first
/// place where they differ `a` has the smaller byte, or `a` ends first.
pub open spec fn bytes_le(a: Seq<u8>, b: Seq<u8>) -> bool
    decreases a.len(),
{
    if a.len() == 0 {
        true
    } else if b.len() == 0 {
        false
    } else if a[0] != b[0] {
        a[0] < b[0]
    } else {
        bytes_le(a.drop_first(), b.drop_first())
    }
}

/// The order of input paths: that of their UTF-8 bytes.
pub open spec fn path_le(a: Seq<char>, b: Seq<char>) -> bool {
    bytes_le(encode_utf8(a), encode_utf8(b))
}

/// No path in `paths` is followed by one that comes strictly before it.
pub open spec fn in_order(paths: Seq<Seq<char>>) -> bool {
    forall|i: int, j: int| 0 <= i <= j < paths.len() ==> path_le(paths[i], paths[j])
}

/// Of two byte strings, one comes no later than the other.
pub proof fn bytes_le_total(a: Seq<u8>, b: Seq<u8>)
    ensures
        bytes_le(a, b) || bytes_le(b, a),
    decreases a.len(),
{
    if a.len() > 0 && b.len() > 0 && a[0] == b[0] {
        bytes_le_total(a.drop_first(), b.drop_first());
    }
}

/// The byte order passes along a chain.
pub proof fn bytes_le_transitive(a: Seq<u8>, b: Seq<u8>, c: Seq<u8>)
    requires
        bytes_le(a, b),
        bytes_le(b, c),
    ensures
        bytes_le(a, c),
    decreases a.len(),
{
    if a.len() > 0 && b.len() > 0 && c.len() > 0 && a[0] == b[0] && b[0] == c[0] {
        bytes_le_transitive(a.drop_first(), b.drop_first(), c.drop_first());
    }
}

/// Two byte strings that each come no later than the other are the same.
pub proof fn bytes_le_antisymmetric(a: Seq<u8>, b: Seq<u8>)
    requires
        bytes_le(a, b),
        bytes_le(b, a),
    ensures
        a == b,
    decreases a.len(),
{
    if a.len() > 0 && b.len() > 0 {
        bytes_le_antisymmetric(a.drop_first(), b.drop_first());
        assert(a =~= seq![a[0]] + a.drop_first());
        assert(b =~= seq![b[0]] + b.drop_first());
    } else {
        assert(a =~= b);
    }
}

fn slice_le(a: &[u8], b: &[u8]) -> (r: bool)
    ensures
        r == bytes_le(a@, b@),
{
    let mut i: usize = 0;
    assert(a@.skip(0) =~= a@ && b@.skip(0) =~= b@);
    while i < a.len() && i < b.len() && a[i] == b[i]
        invariant
            i <= a.len(),
            i <= b.len(),
            bytes_le(a@, b@) == bytes_le(a@.skip(i as int), b@.skip(i as int)),
        decreases a.len() - i,
    {
        assert(a@.skip(i as int).drop_first() =~= a@.skip(i + 1));
        assert(b@.skip(i as int).drop_first() =~= b@.skip(i + 1));
        i += 1;
    }
    if i == a.len() {
        true
    } else if i == b.len() {
        false
    } else {
        a[i] < b[i]
    }
}

/// Whether `a` comes no later than `b` in the order of input paths.
pub fn precedes(a: &str, b: &str) -> (r: bool)
    ensures
        r == path_le(a@, b@),
{
    slice_le(a.as_bytes(), b.as_bytes())
}

/// Puts `paths` in order. The result holds the same paths, each as often as
/// `paths` does.
pub fn sorted(paths: &Vec<String>) -> (r: Vec<String>)
    ensures
        in_order(r.deep_view()),
        r.deep_view().to_multiset() == paths.deep_view().to_multiset(),
{
    let mut out: Vec<String> = Vec::new();
    let mut i: usize = 0;
    assert(paths.deep_view().take(0) =~= out.deep_view());
    while i < paths.len()
        invariant
            i <= paths.len(),
            in_order(out.deep_view()),
            out.deep_view().to_multiset() == paths.deep_view().take(i as int).to_multiset(),
        decreases paths.len() - i,
    {
        let ghost before = out.deep_view();
        let ghost item = paths[i as int]@;
        let mut j: usize = 0;
        while j < out.len() && precedes(out[j].as_str(), paths[i].as_str())
            invariant
                i < paths.len(),
                j <= out.len(),
                before == out.deep_view(),
                item == paths[i as int]@,
                forall|k: int| 0 <= k < j ==> path_le(#[trigger] before[k], item),
            decreases out.len() - j,
        {
            j += 1;
        }
        out.insert(j, paths[i].clone());
        proof {
            let after = out.deep_view();
            assert(after =~= before.insert(j as int, item));
            to_multiset_insert(before, j as int, item);
            let taken = paths.deep_view().take(i as int);
            assert(paths.deep_view().take(i + 1) =~= taken.push(item));
            to_multiset_insert(taken, i as int, item);
            assert(taken.insert(i as int, item) =~= taken.push(item));
            assert forall|x: int, y: int| 0 <= x <= y < after.len() implies path_le(
                after[x],
                after[y],
            ) by {
                if y < j {
                    assert(after[x] == before[x] && after[y] == before[y]);
                } else if y == j {
                    if x < j {
                        assert(after[x] == before[x]);
                    } else {
                        bytes_le_total(encode_utf8(item), encode_utf8(item));
                    }
                } else {
                    assert(after[y] == before[y - 1]);
                    if x < j {
                        assert(after[x] == before[x]);
                    } else {
                        // the item went in before the first path that does not precede it
                        assert(!path_le(before[j as int], item));
                        bytes_le_total(encode_utf8(before[j as int]), encode_utf8(item));
                        assert(path_le(before[j as int], before[y - 1]));
                        if x == j {
                            bytes_le_transitive(
                                encode_utf8(item),
                                encode_utf8(before[j as int]),
                                encode_utf8(before[y - 1]),
                            );
                        } else {
                            assert(after[x] == before[x - 1]);
                        }
                    }
                }
            }
        }
        i += 1;
    }
    assert(paths.deep_view().take(paths.len() as int) =~= paths.deep_view());
    out
}

/// Two paths that each come no later than the other are the same path.
pub proof fn path_le_antisymmetric(a: Seq<char>, b: Seq<char>)
    requires
        path_le(a, b),
        path_le(b, a),
    ensures
        a == b,
{
    bytes_le_antisymmetric(encode_utf8(a), encode_utf8(b));
    encode_utf8_decode_utf8(a);
    encode_utf8_decode_utf8(b);
}

/// There is one way only to put given paths in order: two ordered sequences
/// that hold the same paths equally often are the same sequence.
pub proof fn order_is_unique(a: Seq<Seq<char>>, b: Seq<Seq<char>>)
    requires
        in_order(a),
        in_order(b),
        a.to_multiset() == b.to_multiset(),
    ensures
        a == b,
{
    let leq = |p: Seq<char>, q: Seq<char>| path_le(p, q);
    assert forall|x: Seq<char>| #[trigger] leq(x, x) by {
        bytes_le_total(encode_utf8(x), encode_utf8(x));
    }
    assert forall|x: Seq<char>, y: Seq<char>| #[trigger] leq(x, y) && #[trigger] leq(
        y,
        x,
    ) implies x == y by {
        path_le_antisymmetric(x, y);
    }
    assert forall|x: Seq<char>, y: Seq<char>, z: Seq<char>| #[trigger] leq(x, y) && #[trigger] leq(
        y,
        z,
    ) implies leq(x, z) by {
        bytes_le_transitive(encode_utf8(x), encode_utf8(y), encode_utf8(z));
    }
    assert forall|x: Seq<char>, y: Seq<char>| #[trigger] leq(x, y) || #[trigger] leq(y, x) by {
        bytes_le_total(encode_utf8(x), encode_utf8(y));
    }
    assert(total_ordering(leq));
    assert(sorted_by(a, leq));
    assert(sorted_by(b, leq));
    lemma_sorted_unique(a, b, leq);
}

} // verus!
