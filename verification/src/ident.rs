//! The composite identifier of a package: name, version, architecture and
//! origin tag, in this order, with a separator between them.

use crate::text::{lemma_text_bytes_terminated, text_bytes};
use vstd::prelude::*;

verus! {

/// The byte that stands between the parts of an identifier, a semicolon.
pub const SEPARATOR: u8 = 59;

/// The identifier made of four parts.
pub open spec fn joined(parts: Seq<Seq<u8>>) -> Seq<u8>
    recommends
        parts.len() == 4,
{
    parts[0] + seq![SEPARATOR] + parts[1] + seq![SEPARATOR] + parts[2] + seq![SEPARATOR]
        + parts[3]
}

/// Whether `id` is a well-formed identifier with the parts `parts`: there
/// are four of them, none holds a separator, the name is not empty, and `id`
/// is the four joined.
pub open spec fn splits_into(id: Seq<u8>, parts: Seq<Seq<u8>>) -> bool {
    &&& parts.len() == 4
    &&& forall|i: int, k: int|
        0 <= i < 4 && 0 <= k < parts[i].len() ==> #[trigger] parts[i][k] != SEPARATOR
    &&& parts[0].len() > 0
    &&& id == joined(parts)
}

/// The contents of a sequence of parts.
pub open spec fn part_views(parts: Seq<Vec<u8>>) -> Seq<Seq<u8>> {
    Seq::new(parts.len(), |i: int| parts[i]@)
}

/// Where the separators of a well-formed identifier stand, and what lies
/// between them.
proof fn lemma_separators(id: Seq<u8>, parts: Seq<Seq<u8>>)
    requires
        splits_into(id, parts),
    ensures
        ({
            let a = parts[0].len() as int;
            let b = a + 1 + parts[1].len();
            let c = b + 1 + parts[2].len();
            &&& 0 < a < b < c < id.len()
            &&& id.len() == c + 1 + parts[3].len()
            &&& forall|k: int|
                0 <= k < id.len() ==> ((#[trigger] id[k] == SEPARATOR) <==> (k == a || k == b || k
                    == c))
            &&& parts[0] == id.subrange(0, a)
            &&& parts[1] == id.subrange(a + 1, b)
            &&& parts[2] == id.subrange(b + 1, c)
            &&& parts[3] == id.subrange(c + 1, id.len() as int)
        }),
{
    let a = parts[0].len() as int;
    let b = a + 1 + parts[1].len();
    let c = b + 1 + parts[2].len();
    assert forall|k: int| 0 <= k < id.len() implies ((#[trigger] id[k] == SEPARATOR) <==> (k == a
        || k == b || k == c)) by {
        if k < a {
            assert(id[k] == parts[0][k]);
        } else if a < k < b {
            assert(id[k] == parts[1][k - a - 1]);
        } else if b < k < c {
            assert(id[k] == parts[2][k - b - 1]);
        } else if c < k {
            assert(id[k] == parts[3][k - c - 1]);
        }
    }
    assert(parts[0] =~= id.subrange(0, a));
    assert(parts[1] =~= id.subrange(a + 1, b));
    assert(parts[2] =~= id.subrange(b + 1, c));
    assert(parts[3] =~= id.subrange(c + 1, id.len() as int));
}

/// An identifier has its parts in one way only: splitting the join of four
/// parts recovers exactly these four, in order.
pub proof fn lemma_split_unique(id: Seq<u8>, p: Seq<Seq<u8>>, q: Seq<Seq<u8>>)
    requires
        splits_into(id, p),
        splits_into(id, q),
    ensures
        p == q,
{
    lemma_separators(id, p);
    lemma_separators(id, q);
    let a = p[0].len() as int;
    let b = a + 1 + p[1].len();
    let c = b + 1 + p[2].len();
    let a2 = q[0].len() as int;
    let b2 = a2 + 1 + q[1].len();
    let c2 = b2 + 1 + q[2].len();
    assert(id[a] == SEPARATOR && id[b] == SEPARATOR && id[c] == SEPARATOR);
    assert(id[a2] == SEPARATOR && id[b2] == SEPARATOR && id[c2] == SEPARATOR);
    assert(a == a2 && b == b2 && c == c2);
    assert(p =~= q);
}

/// A byte that an identifier does not hold stands in none of its parts.
pub proof fn lemma_parts_without(id: Seq<u8>, parts: Seq<Seq<u8>>, byte: u8)
    requires
        splits_into(id, parts),
        !id.contains(byte),
    ensures
        forall|i: int| 0 <= i < 4 ==> !(#[trigger] parts[i]).contains(byte),
{
    lemma_separators(id, parts);
    assert forall|i: int| 0 <= i < 4 implies !(#[trigger] parts[i]).contains(byte) by {
        if parts[i].contains(byte) {
            let k = choose|k: int| 0 <= k < parts[i].len() && parts[i][k] == byte;
            let a = parts[0].len() as int;
            let b = a + 1 + parts[1].len();
            let c = b + 1 + parts[2].len();
            let at = if i == 0 {
                k
            } else if i == 1 {
                a + 1 + k
            } else if i == 2 {
                b + 1 + k
            } else {
                c + 1 + k
            };
            assert(id[at] == byte);
            assert(id.contains(byte));
        }
    }
}

/// Reading an identifier out of its native buffer and splitting it recovers
/// exactly the four parts that it was joined from, in order, provided that
/// the parts are those of a well-formed identifier and hold no zero byte.
pub proof fn lemma_decode_then_split(parts: Seq<Seq<u8>>, found: Seq<Seq<u8>>)
    requires
        splits_into(joined(parts), parts),
        !joined(parts).contains(0u8),
        splits_into(text_bytes(joined(parts).push(0u8)), found),
    ensures
        found == parts,
{
    lemma_text_bytes_terminated(joined(parts));
    lemma_split_unique(joined(parts), parts, found);
}

/// The first place at or after `from` where `id` holds a separator, or the
/// length of `id` where there is none.
fn find_separator(id: &Vec<u8>, from: usize) -> (r: usize)
    requires
        from <= id.len(),
    ensures
        from <= r <= id.len(),
        forall|k: int| from <= k < r ==> id@[k] != SEPARATOR,
        r < id.len() ==> id@[r as int] == SEPARATOR,
{
    let mut i: usize = from;
    while i < id.len() && id[i] != SEPARATOR
        invariant
            from <= i <= id.len(),
            forall|k: int| from <= k < i ==> id@[k] != SEPARATOR,
        decreases id.len() - i,
    {
        i += 1;
    }
    i
}

/// Copies the bytes of `id` from `from` up to `to`.
fn copy_range(id: &Vec<u8>, from: usize, to: usize) -> (r: Vec<u8>)
    requires
        from <= to <= id.len(),
    ensures
        r@ == id@.subrange(from as int, to as int),
{
    let mut out: Vec<u8> = Vec::new();
    let mut i: usize = from;
    while i < to
        invariant
            from <= i <= to <= id.len(),
            out@ == id@.subrange(from as int, i as int),
        decreases to - i,
    {
        out.push(id[i]);
        i += 1;
        assert(out@ =~= id@.subrange(from as int, i as int));
    }
    out
}

/// Splits an identifier into its four parts. Gives the parts where `id` is
/// well formed, and nothing where it is not: where it does not hold exactly
/// three separators, or its name is empty.
pub fn split_id(id: &Vec<u8>) -> (r: Option<Vec<Vec<u8>>>)
    ensures
        match r {
            Some(parts) => splits_into(id@, part_views(parts@)),
            None => forall|q: Seq<Seq<u8>>| !splits_into(id@, q),
        },
{
    let n = id.len();
    let a = find_separator(id, 0);
    if a == 0 || a == n {
        proof {
            assert forall|q: Seq<Seq<u8>>| !splits_into(id@, q) by {
                if splits_into(id@, q) {
                    lemma_separators(id@, q);
                    assert(id@[q[0].len() as int] == SEPARATOR);
                }
            }
        }
        return None;
    }
    let b = find_separator(id, a + 1);
    if b == n {
        proof {
            assert forall|q: Seq<Seq<u8>>| !splits_into(id@, q) by {
                if splits_into(id@, q) {
                    lemma_separators(id@, q);
                    assert(id@[q[0].len() as int] == SEPARATOR);
                    assert(id@[q[0].len() as int + 1 + q[1].len()] == SEPARATOR);
                }
            }
        }
        return None;
    }
    let c = find_separator(id, b + 1);
    if c == n {
        proof {
            assert forall|q: Seq<Seq<u8>>| !splits_into(id@, q) by {
                if splits_into(id@, q) {
                    lemma_separators(id@, q);
                    assert(id@[q[0].len() as int] == SEPARATOR);
                    assert(id@[q[0].len() as int + 1 + q[1].len()] == SEPARATOR);
                    assert(id@[q[0].len() as int + 1 + q[1].len() + 1 + q[2].len()] == SEPARATOR);
                }
            }
        }
        return None;
    }
    let d = find_separator(id, c + 1);
    if d != n {
        proof {
            assert forall|q: Seq<Seq<u8>>| !splits_into(id@, q) by {
                if splits_into(id@, q) {
                    lemma_separators(id@, q);
                    assert(id@[a as int] == SEPARATOR);
                    assert(id@[b as int] == SEPARATOR);
                    assert(id@[c as int] == SEPARATOR);
                    assert(id@[d as int] == SEPARATOR);
                }
            }
        }
        return None;
    }
    let mut parts: Vec<Vec<u8>> = Vec::new();
    parts.push(copy_range(id, 0, a));
    parts.push(copy_range(id, a + 1, b));
    parts.push(copy_range(id, b + 1, c));
    parts.push(copy_range(id, c + 1, n));
    proof {
        let p = part_views(parts@);
        assert(p[0] == id@.subrange(0, a as int));
        assert(p[1] == id@.subrange(a + 1, b as int));
        assert(p[2] == id@.subrange(b + 1, c as int));
        assert(p[3] == id@.subrange(c + 1, n as int));
        assert(id@ =~= joined(p));
    }
    Some(parts)
}

} // verus!
