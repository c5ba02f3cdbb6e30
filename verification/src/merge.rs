//! Matching two name-sorted lists entry by entry.
//!
//! Every section of a model comparison — variables, constraints, objectives,
//! coefficients, and the rows of two solve results — is compared the same
//! way: both sides are sorted by name and walked together, so each name is
//! found on one side only (removed or added) or on both (a pair to compare).
//! This module computes that walk.
use vstd::prelude::*;
use vstd::relations::{sorted_by, total_ordering};
use vstd::seq_lib::lemma_sorted_unique;
use vstd::utf8::encode_utf8;

verus! {

/// One step of a merge of two name lists.
#[derive(Debug, Clone, Copy, PartialEq, Eq, Structural)]
pub enum Pairing {
    /// The name at this index of the old list has no counterpart in the new one.
    OnlyOld(usize),
    /// The name at this index of the new list has no counterpart in the old one.
    OnlyNew(usize),
    /// The same name at these indices of the old and new lists.
    Both(usize, usize),
}

/// How two names order against each other.
#[derive(Debug, Clone, Copy, PartialEq, Eq, Structural)]
pub enum NameOrder {
    Less,
    Equal,
    Greater,
}

/// Byte-wise lexicographic "less than" from position `i` on, given that the
/// two sequences agree before `i`.
pub open spec fn bytes_lt_from(a: Seq<u8>, b: Seq<u8>, i: int) -> bool
    decreases a.len() - i,
{
    if i < 0 || i >= a.len() {
        i >= 0 && i < b.len()
    } else if i >= b.len() {
        false
    } else if a[i] != b[i] {
        a[i] < b[i]
    } else {
        bytes_lt_from(a, b, i + 1)
    }
}

/// Byte-wise lexicographic order, the order in which Rust compares strings.
pub open spec fn bytes_lt(a: Seq<u8>, b: Seq<u8>) -> bool {
    bytes_lt_from(a, b, 0)
}

/// The bytes of a name, as a string stores them.
pub open spec fn name_bytes(name: Seq<char>) -> Seq<u8> {
    encode_utf8(name)
}

/// The names of a list, as byte sequences.
pub open spec fn names_bytes(names: Seq<String>) -> Seq<Seq<u8>> {
    names.map_values(|s: String| name_bytes(s@))
}

/// Compare two byte strings the way Rust orders strings.
pub fn compare_bytes(a: &[u8], b: &[u8]) -> (res: NameOrder)
    ensures
        res == NameOrder::Less <==> bytes_lt(a@, b@),
        res == NameOrder::Greater <==> bytes_lt(b@, a@),
        res == NameOrder::Equal <==> a@ == b@,
{
    let mut i: usize = 0;
    while i < a.len() && i < b.len()
        invariant
            i <= a@.len(),
            i <= b@.len(),
            forall|k: int| 0 <= k < i ==> a@[k] == b@[k],
            bytes_lt(a@, b@) == bytes_lt_from(a@, b@, i as int),
            bytes_lt(b@, a@) == bytes_lt_from(b@, a@, i as int),
        decreases a@.len() - i,
    {
        if a[i] < b[i] {
            return NameOrder::Less;
        }
        if b[i] < a[i] {
            return NameOrder::Greater;
        }
        i = i + 1;
    }
    if a.len() < b.len() {
        NameOrder::Less
    } else if b.len() < a.len() {
        NameOrder::Greater
    } else {
        assert(a@ =~= b@);
        NameOrder::Equal
    }
}

/// Compare two names the way Rust orders strings (byte-wise).
pub fn compare_names(a: &String, b: &String) -> (res: NameOrder)
    ensures
        res == NameOrder::Less <==> bytes_lt(name_bytes(a@), name_bytes(b@)),
        res == NameOrder::Greater <==> bytes_lt(name_bytes(b@), name_bytes(a@)),
        res == NameOrder::Equal <==> name_bytes(a@) == name_bytes(b@),
{
    compare_bytes(a.as_str().as_bytes(), b.as_str().as_bytes())
}

/// The merge of two name lists from positions `i` and `j` on: the smaller
/// head is emitted alone, and equal heads are emitted as a pair.
pub open spec fn merge_from(old: Seq<Seq<u8>>, new: Seq<Seq<u8>>, i: int, j: int) -> Seq<Pairing>
    decreases old.len() - i + new.len() - j,
{
    if i < 0 || j < 0 || i > old.len() || j > new.len() || (i == old.len() && j == new.len()) {
        Seq::empty()
    } else if j >= new.len() || (i < old.len() && bytes_lt(old[i], new[j])) {
        seq![Pairing::OnlyOld(i as usize)] + merge_from(old, new, i + 1, j)
    } else if i >= old.len() || bytes_lt(new[j], old[i]) {
        seq![Pairing::OnlyNew(j as usize)] + merge_from(old, new, i, j + 1)
    } else {
        seq![Pairing::Both(i as usize, j as usize)] + merge_from(old, new, i + 1, j + 1)
    }
}

/// The merge of two whole name lists.
pub open spec fn merge(old: Seq<Seq<u8>>, new: Seq<Seq<u8>>) -> Seq<Pairing> {
    merge_from(old, new, 0, 0)
}

/// Walk two name lists together, pairing equal names and reporting the rest
/// as present on one side only.
///
/// Each list is expected in ascending name order, as the sections of a model
/// are before they are compared; on such lists every name of either side
/// appears exactly once, in order (see [`lemma_merge_covers_both_lists`]).
pub fn merge_names(old: &Vec<String>, new: &Vec<String>) -> (res: Vec<Pairing>)
    ensures
        res@ == merge(names_bytes(old@), names_bytes(new@)),
{
    let ghost a = names_bytes(old@);
    let ghost b = names_bytes(new@);
    let mut res: Vec<Pairing> = Vec::new();
    let mut i: usize = 0;
    let mut j: usize = 0;
    while i < old.len() || j < new.len()
        invariant
            a == names_bytes(old@),
            b == names_bytes(new@),
            i <= old@.len(),
            j <= new@.len(),
            res@ + merge_from(a, b, i as int, j as int) == merge(a, b),
        decreases old@.len() - i + new@.len() - j,
    {
        let ghost before = res@;
        let step = if j >= new.len() {
            Pairing::OnlyOld(i)
        } else if i >= old.len() {
            Pairing::OnlyNew(j)
        } else {
            match compare_names(&old[i], &new[j]) {
                NameOrder::Less => Pairing::OnlyOld(i),
                NameOrder::Greater => Pairing::OnlyNew(j),
                NameOrder::Equal => {
                    proof {
                        assert(!bytes_lt(a[i as int], b[j as int]));
                        assert(!bytes_lt(b[j as int], a[i as int])) by {
                            assert(a[i as int] == b[j as int]);
                        }
                    }
                    Pairing::Both(i, j)
                },
            }
        };
        res.push(step);
        match step {
            Pairing::OnlyOld(_) => { i = i + 1; },
            Pairing::OnlyNew(_) => { j = j + 1; },
            Pairing::Both(_, _) => { i = i + 1; j = j + 1; },
        }
        assert(res@ + merge_from(a, b, i as int, j as int) =~= before + merge_from(a, b, (if step is OnlyNew { i } else { (i - 1) as usize }) as int, (if step is OnlyOld { j } else { (j - 1) as usize }) as int));
    }
    assert(merge_from(a, b, i as int, j as int) =~= Seq::<Pairing>::empty());
    assert(res@ =~= res@ + Seq::<Pairing>::empty());
    res
}

/// Lexicographic order from a common prefix: two sequences that agree before
/// `i` are equal, or one is below the other, and never both ways.
proof fn lemma_bytes_lt_from_total(a: Seq<u8>, b: Seq<u8>, i: int)
    requires
        0 <= i <= a.len(),
        i <= b.len(),
        forall|k: int| 0 <= k < i ==> a[k] == b[k],
    ensures
        a == b || bytes_lt_from(a, b, i) || bytes_lt_from(b, a, i),
        !(bytes_lt_from(a, b, i) && bytes_lt_from(b, a, i)),
        a == b ==> !bytes_lt_from(a, b, i),
    decreases a.len() - i,
{
    if i < a.len() && i < b.len() && a[i] == b[i] {
        lemma_bytes_lt_from_total(a, b, i + 1);
    } else if i == a.len() && i == b.len() {
        assert(a =~= b);
    }
}

/// Lexicographic order is transitive from a common prefix.
proof fn lemma_bytes_lt_from_transitive(a: Seq<u8>, b: Seq<u8>, c: Seq<u8>, i: int)
    requires
        0 <= i <= a.len(),
        i <= b.len(),
        i <= c.len(),
        forall|k: int| 0 <= k < i ==> a[k] == b[k] && b[k] == c[k],
        bytes_lt_from(a, b, i),
        bytes_lt_from(b, c, i),
    ensures
        bytes_lt_from(a, c, i),
    decreases a.len() - i,
{
    if i < a.len() && i < b.len() && i < c.len() && a[i] == b[i] && b[i] == c[i] {
        lemma_bytes_lt_from_transitive(a, b, c, i + 1);
    }
}

/// Byte-wise order is a strict total order: irreflexive, asymmetric,
/// transitive, and any two different sequences are ordered one way.
pub proof fn lemma_bytes_lt_strict_total(a: Seq<u8>, b: Seq<u8>, c: Seq<u8>)
    ensures
        !bytes_lt(a, a),
        a != b ==> (bytes_lt(a, b) || bytes_lt(b, a)),
        !(bytes_lt(a, b) && bytes_lt(b, a)),
        bytes_lt(a, b) && bytes_lt(b, c) ==> bytes_lt(a, c),
{
    lemma_bytes_lt_from_total(a, a, 0);
    lemma_bytes_lt_from_total(a, b, 0);
    if bytes_lt(a, b) && bytes_lt(b, c) {
        lemma_bytes_lt_from_transitive(a, b, c, 0);
    }
}

/// `a` comes no later than `b` in byte order.
pub open spec fn bytes_le(a: Seq<u8>, b: Seq<u8>) -> bool {
    !bytes_lt(b, a)
}

/// Byte order, as a relation.
pub open spec fn byte_order() -> spec_fn(Seq<u8>, Seq<u8>) -> bool {
    |a: Seq<u8>, b: Seq<u8>| bytes_le(a, b)
}

/// Byte order with equality is a total order.
proof fn lemma_byte_order_total()
    ensures
        total_ordering(byte_order()),
{
    assert forall|a: Seq<u8>, b: Seq<u8>, c: Seq<u8>|
        #[trigger] byte_order()(a, b) && #[trigger] byte_order()(b, c) implies byte_order()(a, c) by {
        lemma_bytes_lt_strict_total(a, b, c);
        lemma_bytes_lt_strict_total(c, a, b);
        lemma_bytes_lt_strict_total(b, c, a);
    }
    assert forall|a: Seq<u8>, b: Seq<u8>|
        #[trigger] byte_order()(a, b) && #[trigger] byte_order()(b, a) implies a == b by {
        lemma_bytes_lt_strict_total(a, b, a);
    }
    assert forall|a: Seq<u8>, b: Seq<u8>| #[trigger] byte_order()(a, b) || #[trigger] byte_order()(b, a) by {
        lemma_bytes_lt_strict_total(a, b, a);
    }
    assert forall|a: Seq<u8>| #[trigger] byte_order()(a, a) by {
        lemma_bytes_lt_strict_total(a, a, a);
    }
}

/// Sort names in byte order.
///
/// Wraps `slice::sort` on `String`s. Its documentation says the slice ends up
/// in ascending order, rearranged only; strings order lexicographically by
/// their bytes. The contract says that: the same names, as a multiset of
/// byte strings, in non-decreasing byte order.
#[verifier::external_body]
fn sort_names(names: &mut Vec<String>)
    ensures
        names_bytes(final(names)@).to_multiset() == names_bytes(old(names)@).to_multiset(),
        sorted_by(names_bytes(final(names)@), byte_order()),
{
    names.sort();
}

/// Whether `(a, i)` comes before `(b, j)`: by name, then by index.
pub open spec fn tagged_lt(a: Seq<u8>, i: int, b: Seq<u8>, j: int) -> bool {
    bytes_lt(a, b) || (a == b && i < j)
}

/// Sort names, each tagged with its position, in byte order.
///
/// Wraps `slice::sort` on `(String, usize)` pairs. Its documentation says the
/// slice ends up in ascending order, its elements only rearranged; pairs
/// order by their first field, then their second, and strings by their
/// bytes. With every pair tagged by its own position, no two are equal, so
/// the contract says: each pair is still the one at its tag's position, and
/// the pairs strictly ascend by name, then tag.
#[verifier::external_body]
fn sort_tagged(pairs: &mut Vec<(String, usize)>)
    requires
        forall|k: int| 0 <= k < old(pairs)@.len() ==> (#[trigger] old(pairs)@[k]).1 == k,
    ensures
        final(pairs)@.len() == old(pairs)@.len(),
        forall|k: int|
            0 <= k < final(pairs)@.len() ==> (#[trigger] final(pairs)@[k]).1 < old(pairs)@.len() && final(pairs)@[k]
                == old(pairs)@[final(pairs)@[k].1 as int],
        forall|p: int, q: int|
            0 <= p < q < final(pairs)@.len() ==> tagged_lt(
                name_bytes((#[trigger] final(pairs)@[p]).0@),
                final(pairs)@[p].1 as int,
                name_bytes((#[trigger] final(pairs)@[q]).0@),
                final(pairs)@[q].1 as int,
            ),
{
    pairs.sort();
}

/// The names in byte order, each with the position it came from; names that
/// are equal keep their original order.
pub fn sort_by_name(names: &Vec<String>) -> (res: (Vec<String>, Vec<usize>))
    ensures
        res.0@.len() == names@.len(),
        res.1@.len() == names@.len(),
        forall|k: int|
            0 <= k < names@.len() ==> (#[trigger] res.1@[k]) < names@.len() && res.0@[k]@ == names@[res.1@[k] as int]@,
        forall|p: int, q: int|
            0 <= p < q < names@.len() ==> tagged_lt(
                name_bytes((#[trigger] res.0@[p])@),
                res.1@[p] as int,
                name_bytes((#[trigger] res.0@[q])@),
                res.1@[q] as int,
            ),
        forall|p: int, q: int| 0 <= p < q < names@.len() ==> #[trigger] res.1@[p] != #[trigger] res.1@[q],
{
    let mut pairs: Vec<(String, usize)> = Vec::new();
    let mut i: usize = 0;
    while i < names.len()
        invariant
            i <= names@.len(),
            pairs@.len() == i,
            forall|k: int| 0 <= k < i ==> (#[trigger] pairs@[k]).1 == k && pairs@[k].0@ == names@[k]@,
        decreases names@.len() - i,
    {
        pairs.push((names[i].clone(), i));
        i = i + 1;
    }
    let ghost before = pairs@;
    sort_tagged(&mut pairs);
    let mut sorted: Vec<String> = Vec::new();
    let mut order: Vec<usize> = Vec::new();
    let mut j: usize = 0;
    while j < pairs.len()
        invariant
            j <= pairs@.len(),
            pairs@.len() == names@.len(),
            before.len() == names@.len(),
            forall|k: int| 0 <= k < before.len() ==> (#[trigger] before[k]).1 == k && before[k].0@ == names@[k]@,
            forall|k: int|
                0 <= k < pairs@.len() ==> (#[trigger] pairs@[k]).1 < before.len() && pairs@[k] == before[pairs@[k].1 as int],
            sorted@.len() == j,
            order@.len() == j,
            forall|k: int| 0 <= k < j ==> (#[trigger] sorted@[k])@ == pairs@[k].0@ && order@[k] == pairs@[k].1,
        decreases pairs@.len() - j,
    {
        let name = pairs[j].0.clone();
        sorted.push(name);
        order.push(pairs[j].1);
        j = j + 1;
    }
    proof {
        assert forall|k: int| 0 <= k < names@.len() implies (#[trigger] order@[k]) < names@.len() && sorted@[k]@
            == names@[order@[k] as int]@ by {
            assert(sorted@[k]@ == pairs@[k].0@);
            let at = pairs@[k].1 as int;
            assert(pairs@[k] == before[at]);
            assert(before[at].0@ == names@[at]@);
        }
        assert forall|p: int, q: int| 0 <= p < q < names@.len() implies tagged_lt(
            name_bytes((#[trigger] sorted@[p])@),
            order@[p] as int,
            name_bytes((#[trigger] sorted@[q])@),
            order@[q] as int,
        ) by {
            assert(sorted@[p]@ == pairs@[p].0@);
            assert(sorted@[q]@ == pairs@[q].0@);
        }
        assert forall|p: int, q: int| 0 <= p < q < names@.len() implies #[trigger] order@[p] != #[trigger] order@[q] by {
            assert(sorted@[p]@ == pairs@[p].0@);
            assert(sorted@[q]@ == pairs@[q].0@);
            let a = name_bytes(sorted@[p]@);
            lemma_bytes_lt_strict_total(a, a, a);
            if order@[p] == order@[q] {
                let at = pairs@[p].1 as int;
                assert(pairs@[p] == before[at]);
                assert(pairs@[q] == before[at]);
            }
        }
    }
    (sorted, order)
}

/// Whether two name lists hold the same names, as often each, in a
/// different order.
pub open spec fn spec_reordered(old: Seq<Seq<u8>>, new: Seq<Seq<u8>>) -> bool {
    old.len() == new.len() && old != new && old.to_multiset() == new.to_multiset()
}

fn copy_names(names: &Vec<String>) -> (res: Vec<String>)
    ensures
        res@ == names@,
{
    let mut res: Vec<String> = Vec::new();
    let mut i: usize = 0;
    while i < names.len()
        invariant
            i <= names@.len(),
            res@ == names@.take(i as int),
        decreases names@.len() - i,
    {
        res.push(names[i].clone());
        i = i + 1;
        assert(res@ =~= names@.take(i as int));
    }
    assert(names@.take(i as int) =~= names@);
    res
}

/// Whether the first `n` names of two lists are the same, position by
/// position; if not, the first position where they differ.
fn first_difference(a: &Vec<String>, b: &Vec<String>) -> (res: Option<usize>)
    requires
        a@.len() == b@.len(),
    ensures
        res is None ==> names_bytes(a@) == names_bytes(b@),
        res matches Some(k) ==> k < a@.len() && names_bytes(a@)[k as int] != names_bytes(b@)[k as int],
{
    let mut i: usize = 0;
    while i < a.len()
        invariant
            i <= a@.len(),
            a@.len() == b@.len(),
            forall|k: int| 0 <= k < i ==> names_bytes(a@)[k] == names_bytes(b@)[k],
        decreases a@.len() - i,
    {
        match compare_names(&a[i], &b[i]) {
            NameOrder::Equal => {},
            _ => return Some(i),
        }
        i = i + 1;
    }
    assert(names_bytes(a@) =~= names_bytes(b@));
    None
}

/// Whether two coefficient lists name the same terms, as often each, in a
/// different order: same length, some position differs, and sorted they
/// agree.
pub fn names_reordered(old: &Vec<String>, new: &Vec<String>) -> (res: bool)
    ensures
        res == spec_reordered(names_bytes(old@), names_bytes(new@)),
{
    let ghost old_bytes = names_bytes(old@);
    let ghost new_bytes = names_bytes(new@);
    if old.len() != new.len() {
        return false;
    }
    if first_difference(old, new).is_none() {
        return false;
    }
    let mut sorted_old = copy_names(old);
    let mut sorted_new = copy_names(new);
    sort_names(&mut sorted_old);
    sort_names(&mut sorted_new);
    proof {
        old_bytes.to_multiset_ensures();
        new_bytes.to_multiset_ensures();
        names_bytes(sorted_old@).to_multiset_ensures();
        names_bytes(sorted_new@).to_multiset_ensures();
    }
    let same = first_difference(&sorted_old, &sorted_new).is_none();
    proof {
        if !same && old_bytes.to_multiset() == new_bytes.to_multiset() {
            lemma_byte_order_total();
            lemma_sorted_unique(names_bytes(sorted_old@), names_bytes(sorted_new@), byte_order());
        }
    }
    same
}

/// Each list strictly ascending: no name occurs twice.
pub open spec fn strictly_sorted(names: Seq<Seq<u8>>) -> bool {
    forall|p: int, q: int| 0 <= p < q < names.len() ==> bytes_lt(#[trigger] names[p], #[trigger] names[q])
}

/// The old-list indices a merge visits, in the order it visits them.
pub open spec fn old_side(steps: Seq<Pairing>) -> Seq<int>
    decreases steps.len(),
{
    if steps.len() == 0 {
        Seq::empty()
    } else {
        let head: Seq<int> = match steps[0] {
            Pairing::OnlyOld(i) => seq![i as int],
            Pairing::Both(i, _) => seq![i as int],
            Pairing::OnlyNew(_) => Seq::empty(),
        };
        head + old_side(steps.drop_first())
    }
}

/// The new-list indices a merge visits, in the order it visits them.
pub open spec fn new_side(steps: Seq<Pairing>) -> Seq<int>
    decreases steps.len(),
{
    if steps.len() == 0 {
        Seq::empty()
    } else {
        let head: Seq<int> = match steps[0] {
            Pairing::OnlyNew(j) => seq![j as int],
            Pairing::Both(_, j) => seq![j as int],
            Pairing::OnlyOld(_) => Seq::empty(),
        };
        head + new_side(steps.drop_first())
    }
}

/// The consecutive indices `from, from + 1, ..., to - 1`.
pub open spec fn index_range(from: int, to: int) -> Seq<int> {
    Seq::new((to - from) as nat, |k: int| from + k)
}

proof fn lemma_merge_from_covers(a: Seq<Seq<u8>>, b: Seq<Seq<u8>>, i: int, j: int)
    requires
        a.len() <= usize::MAX,
        b.len() <= usize::MAX,
        0 <= i <= a.len(),
        0 <= j <= b.len(),
    ensures
        old_side(merge_from(a, b, i, j)) == index_range(i, a.len() as int),
        new_side(merge_from(a, b, i, j)) == index_range(j, b.len() as int),
    decreases a.len() - i + b.len() - j,
{
    let m = merge_from(a, b, i, j);
    if i == a.len() && j == b.len() {
        assert(index_range(i, a.len() as int) =~= Seq::<int>::empty());
        assert(index_range(j, b.len() as int) =~= Seq::<int>::empty());
    } else if j >= b.len() || (i < a.len() && bytes_lt(a[i], b[j])) {
        lemma_merge_from_covers(a, b, i + 1, j);
        assert(m.drop_first() =~= merge_from(a, b, i + 1, j));
        assert(m[0] == Pairing::OnlyOld(i as usize));
        assert(index_range(i, a.len() as int) =~= seq![i] + index_range(i + 1, a.len() as int));
        assert(old_side(m) =~= seq![i] + old_side(m.drop_first()));
        assert(new_side(m) =~= new_side(m.drop_first()));
    } else if i >= a.len() || bytes_lt(b[j], a[i]) {
        lemma_merge_from_covers(a, b, i, j + 1);
        assert(m.drop_first() =~= merge_from(a, b, i, j + 1));
        assert(m[0] == Pairing::OnlyNew(j as usize));
        assert(index_range(j, b.len() as int) =~= seq![j] + index_range(j + 1, b.len() as int));
        assert(new_side(m) =~= seq![j] + new_side(m.drop_first()));
        assert(old_side(m) =~= old_side(m.drop_first()));
    } else {
        lemma_merge_from_covers(a, b, i + 1, j + 1);
        assert(m.drop_first() =~= merge_from(a, b, i + 1, j + 1));
        assert(m[0] == Pairing::Both(i as usize, j as usize));
        assert(index_range(i, a.len() as int) =~= seq![i] + index_range(i + 1, a.len() as int));
        assert(index_range(j, b.len() as int) =~= seq![j] + index_range(j + 1, b.len() as int));
        assert(old_side(m) =~= seq![i] + old_side(m.drop_first()));
        assert(new_side(m) =~= seq![j] + new_side(m.drop_first()));
    }
}

/// Whatever the two lists hold, a merge visits every index of the old list
/// exactly once and in ascending order, and likewise every index of the new
/// list: no entry of either side is lost or reported twice.
pub proof fn lemma_merge_covers_both_lists(old: Seq<Seq<u8>>, new: Seq<Seq<u8>>)
    requires
        old.len() <= usize::MAX,
        new.len() <= usize::MAX,
    ensures
        old_side(merge(old, new)) == index_range(0, old.len() as int),
        new_side(merge(old, new)) == index_range(0, new.len() as int),
{
    lemma_merge_from_covers(old, new, 0, 0);
}

/// What a step of a merge claims about the two lists: a pair holds the same
/// name, and a one-sided entry's name occurs nowhere on the other side.
pub open spec fn pairing_sound(old: Seq<Seq<u8>>, new: Seq<Seq<u8>>, step: Pairing) -> bool {
    match step {
        Pairing::Both(i, j) => i < old.len() && j < new.len() && old[i as int] == new[j as int],
        Pairing::OnlyOld(i) => i < old.len() && forall|q: int| 0 <= q < new.len() ==> new[q] != old[i as int],
        Pairing::OnlyNew(j) => j < new.len() && forall|p: int| 0 <= p < old.len() ==> old[p] != new[j as int],
    }
}

proof fn lemma_merge_from_sound(a: Seq<Seq<u8>>, b: Seq<Seq<u8>>, i: int, j: int)
    requires
        a.len() <= usize::MAX,
        b.len() <= usize::MAX,
        strictly_sorted(a),
        strictly_sorted(b),
        0 <= i <= a.len(),
        0 <= j <= b.len(),
        forall|p: int, q: int| 0 <= p < i && j <= q < b.len() ==> bytes_lt(#[trigger] a[p], #[trigger] b[q]),
        forall|p: int, q: int| 0 <= q < j && i <= p < a.len() ==> bytes_lt(#[trigger] b[q], #[trigger] a[p]),
    ensures
        forall|k: int| 0 <= k < merge_from(a, b, i, j).len() ==> pairing_sound(a, b, #[trigger] merge_from(a, b, i, j)[k]),
    decreases a.len() - i + b.len() - j,
{
    let m = merge_from(a, b, i, j);
    if i == a.len() && j == b.len() {
    } else if j >= b.len() || (i < a.len() && bytes_lt(a[i], b[j])) {
        assert forall|p: int, q: int| 0 <= p < i + 1 && j <= q < b.len() implies bytes_lt(#[trigger] a[p], #[trigger] b[q]) by {
            if p == i {
                if q > j {
                    lemma_bytes_lt_strict_total(a[i], b[j], b[q]);
                }
            }
        }
        lemma_merge_from_sound(a, b, i + 1, j);
        assert(m.drop_first() =~= merge_from(a, b, i + 1, j));
        assert forall|q: int| 0 <= q < b.len() implies b[q] != a[i] by {
            if q < j {
                lemma_bytes_lt_strict_total(b[q], a[i], a[i]);
            } else {
                lemma_bytes_lt_strict_total(a[i], b[q], a[i]);
            }
        }
        assert forall|k: int| 0 <= k < m.len() implies pairing_sound(a, b, #[trigger] m[k]) by {
            if k > 0 {
                assert(m[k] == merge_from(a, b, i + 1, j)[k - 1]);
            }
        }
    } else if i >= a.len() || bytes_lt(b[j], a[i]) {
        assert forall|p: int, q: int| 0 <= q < j + 1 && i <= p < a.len() implies bytes_lt(#[trigger] b[q], #[trigger] a[p]) by {
            if q == j {
                if p > i {
                    lemma_bytes_lt_strict_total(b[j], a[i], a[p]);
                }
            }
        }
        lemma_merge_from_sound(a, b, i, j + 1);
        assert(m.drop_first() =~= merge_from(a, b, i, j + 1));
        assert forall|p: int| 0 <= p < a.len() implies a[p] != b[j] by {
            if p < i {
                lemma_bytes_lt_strict_total(a[p], b[j], b[j]);
            } else {
                lemma_bytes_lt_strict_total(b[j], a[p], b[j]);
            }
        }
        assert forall|k: int| 0 <= k < m.len() implies pairing_sound(a, b, #[trigger] m[k]) by {
            if k > 0 {
                assert(m[k] == merge_from(a, b, i, j + 1)[k - 1]);
            }
        }
    } else {
        lemma_bytes_lt_strict_total(a[i], b[j], a[i]);
        assert(a[i] == b[j]);
        assert forall|p: int, q: int| 0 <= p < i + 1 && j + 1 <= q < b.len() implies bytes_lt(#[trigger] a[p], #[trigger] b[q]) by {
            if p == i {
                assert(bytes_lt(b[j], b[q]));
            }
        }
        assert forall|p: int, q: int| 0 <= q < j + 1 && i + 1 <= p < a.len() implies bytes_lt(#[trigger] b[q], #[trigger] a[p]) by {
            if q == j {
                assert(bytes_lt(a[i], a[p]));
            }
        }
        lemma_merge_from_sound(a, b, i + 1, j + 1);
        assert(m.drop_first() =~= merge_from(a, b, i + 1, j + 1));
        assert forall|k: int| 0 <= k < m.len() implies pairing_sound(a, b, #[trigger] m[k]) by {
            if k > 0 {
                assert(m[k] == merge_from(a, b, i + 1, j + 1)[k - 1]);
            }
        }
    }
}

/// On two lists each in ascending order without repeats, a merge pairs
/// exactly the names both lists hold: every pair joins equal names, and every
/// entry reported on one side only has no equal name on the other.
pub proof fn lemma_merge_pairs_equal_names(old: Seq<Seq<u8>>, new: Seq<Seq<u8>>)
    requires
        old.len() <= usize::MAX,
        new.len() <= usize::MAX,
        strictly_sorted(old),
        strictly_sorted(new),
    ensures
        forall|k: int| 0 <= k < merge(old, new).len() ==> pairing_sound(old, new, #[trigger] merge(old, new)[k]),
{
    lemma_merge_from_sound(old, new, 0, 0);
}

} // verus!
