//! The order in which results are listed: by status, major updates first and
//! unknown results last, and by reference within a status.

use crate::image::{Image, ImageModel};
use crate::text::{char_code, chars_of};
use crate::update::{Update, UpdateModel};
use vstd::prelude::*;

verus! {

/// `a` comes no later than `b` in the order of the dictionary, going by the
/// characters from position `i` on. A text comes before every text that it
/// is a proper prefix of.
pub open spec fn le_from(a: Seq<char>, b: Seq<char>, i: int) -> bool
    decreases a.len() - i,
{
    if i < 0 || i >= a.len() {
        true
    } else if i >= b.len() {
        false
    } else if a[i] != b[i] {
        (a[i] as int) < (b[i] as int)
    } else {
        le_from(a, b, i + 1)
    }
}

/// `a` comes no later than `b` in the order of the dictionary.
pub open spec fn text_le(a: Seq<char>, b: Seq<char>) -> bool {
    le_from(a, b, 0)
}

/// What a result is listed by: the rank of its status and its reference.
pub struct KeyModel {
    pub rank: nat,
    pub name: Seq<char>,
}

/// `a` is listed no later than `b`.
pub open spec fn key_le(a: KeyModel, b: KeyModel) -> bool {
    a.rank < b.rank || (a.rank == b.rank && text_le(a.name, b.name))
}

/// `p` names each of the positions below `n` once.
pub open spec fn arrangement(p: Seq<usize>, n: nat) -> bool {
    &&& p.len() == n
    &&& forall|i: int| 0 <= i < p.len() ==> (#[trigger] p[i]) < n
    &&& forall|i: int, j: int| 0 <= i < j < p.len() ==> p[i] != p[j]
}

/// Taken in the order `p`, the keys never go down.
pub open spec fn ordered(p: Seq<usize>, keys: Seq<KeyModel>) -> bool {
    forall|a: int, b: int|
        0 <= a < b < p.len() ==> key_le(#[trigger] keys[p[a] as int], #[trigger] keys[p[b] as int])
}

/// The order `p` leaves results with the same key in the order they came in.
pub open spec fn stable(p: Seq<usize>, keys: Seq<KeyModel>) -> bool {
    forall|a: int, b: int|
        0 <= a < b < p.len() && key_le(#[trigger] keys[p[b] as int], #[trigger] keys[p[a] as int])
            ==> p[a] < p[b]
}

/// `p` is the order that sorts `keys`.
pub open spec fn sorts(p: Seq<usize>, keys: Seq<KeyModel>) -> bool {
    &&& arrangement(p, keys.len())
    &&& ordered(p, keys)
    &&& stable(p, keys)
}

/// Any two texts compare one way or the other.
pub proof fn lemma_le_total(a: Seq<char>, b: Seq<char>, i: int)
    requires
        0 <= i,
    ensures
        le_from(a, b, i) || le_from(b, a, i),
    decreases a.len() - i,
{
    if i < a.len() && i < b.len() && a[i] == b[i] {
        lemma_le_total(a, b, i + 1);
    }
}

/// The order of the dictionary is transitive.
pub proof fn lemma_le_trans(a: Seq<char>, b: Seq<char>, c: Seq<char>, i: int)
    requires
        0 <= i,
        le_from(a, b, i),
        le_from(b, c, i),
    ensures
        le_from(a, c, i),
    decreases a.len() - i,
{
    if i < a.len() {
        if a[i] == b[i] && b[i] == c[i] {
            lemma_le_trans(a, b, c, i + 1);
        }
    }
}

/// Any two keys compare one way or the other.
pub proof fn lemma_key_total(a: KeyModel, b: KeyModel)
    ensures
        key_le(a, b) || key_le(b, a),
{
    lemma_le_total(a.name, b.name, 0);
}

/// The order of keys is transitive.
pub proof fn lemma_key_trans(a: KeyModel, b: KeyModel, c: KeyModel)
    requires
        key_le(a, b),
        key_le(b, c),
    ensures
        key_le(a, c),
{
    if a.rank == b.rank && b.rank == c.rank {
        lemma_le_trans(a.name, b.name, c.name, 0);
    }
}

/// What a result is listed by.
pub struct Key {
    pub rank: u8,
    pub name: Vec<char>,
}

impl View for Key {
    type V = KeyModel;

    open spec fn view(&self) -> KeyModel {
        KeyModel { rank: self.rank as nat, name: self.name@ }
    }
}

/// The keys of a vector of keys.
pub open spec fn key_models(keys: Seq<Key>) -> Seq<KeyModel> {
    keys.map_values(|k: Key| k@)
}

/// Whether `a` comes no later than `b` in the order of the dictionary.
pub fn text_le_chars(a: &Vec<char>, b: &Vec<char>) -> (r: bool)
    ensures
        r == text_le(a@, b@),
{
    let mut i: usize = 0;
    while i < a.len()
        invariant
            i <= a.len(),
            text_le(a@, b@) == le_from(a@, b@, i as int),
        decreases a.len() - i,
    {
        if i >= b.len() {
            return false;
        }
        if a[i] != b[i] {
            let ca: char = a[i];
            let cb: char = b[i];
            let x: u32 = char_code(ca);
            let y: u32 = char_code(cb);
            assert(le_from(a@, b@, i as int) == ((ca as int) < (cb as int)));
            return x < y;
        }
        i += 1;
    }
    true
}

/// Whether `a` is listed no later than `b`.
pub fn key_le_exec(a: &Key, b: &Key) -> (r: bool)
    ensures
        r == key_le(a@, b@),
{
    a.rank < b.rank || (a.rank == b.rank && text_le_chars(&a.name, &b.name))
}

/// The order that sorts `keys`.
pub fn sorted_positions(keys: &Vec<Key>) -> (order: Vec<usize>)
    ensures
        sorts(order@, key_models(keys@)),
{
    let ghost ks = key_models(keys@);
    let mut order: Vec<usize> = Vec::new();
    let mut i: usize = 0;
    while i < keys.len()
        invariant
            i <= keys.len(),
            ks == key_models(keys@),
            order.len() == i,
            forall|k: int| 0 <= k < order.len() ==> (#[trigger] order@[k]) < i,
            forall|a: int, b: int| 0 <= a < b < order.len() ==> order@[a] != order@[b],
            ordered(order@, ks),
            stable(order@, ks),
        decreases keys.len() - i,
    {
        let mut j: usize = 0;
        while j < order.len() && key_le_exec(&keys[order[j]], &keys[i])
            invariant
                i < keys.len(),
                ks == key_models(keys@),
                j <= order.len(),
                order.len() == i,
                forall|k: int| 0 <= k < order.len() ==> (#[trigger] order@[k]) < i,
                forall|a: int| 0 <= a < j ==> key_le(#[trigger] ks[order@[a] as int], ks[i as int]),
            decreases order.len() - j,
        {
            j += 1;
        }
        let ghost p = order@;
        order.insert(j, i);
        proof {
            let q = order@;
            assert(q == p.insert(j as int, i));
            assert forall|k: int| 0 <= k < q.len() implies (#[trigger] q[k]) < i + 1 by {
                if k < j {
                    assert(q[k] == p[k]);
                } else if k > j {
                    assert(q[k] == p[k - 1]);
                }
            }
            assert forall|a: int, b: int| 0 <= a < b < q.len() implies q[a] != q[b] by {
                let a0 = if a < j { a } else { a - 1 };
                let b0 = if b < j { b } else { b - 1 };
                if a != j {
                    assert(q[a] == p[a0]);
                }
                if b != j {
                    assert(q[b] == p[b0]);
                }
            }
            assert forall|a: int, b: int| 0 <= a < b < q.len() implies key_le(
                #[trigger] ks[q[a] as int],
                #[trigger] ks[q[b] as int],
            ) by {
                let a0 = if a < j { a } else { a - 1 };
                let b0 = if b < j { b } else { b - 1 };
                if a != j {
                    assert(q[a] == p[a0]);
                }
                if b != j {
                    assert(q[b] == p[b0]);
                }
                if a == j {
                    lemma_key_total(ks[p[j as int] as int], ks[i as int]);
                    if b0 > j {
                        assert(key_le(ks[p[j as int] as int], ks[p[b0] as int]));
                        lemma_key_trans(ks[i as int], ks[p[j as int] as int], ks[p[b0] as int]);
                    }
                } else if b == j {
                } else {
                    assert(key_le(ks[p[a0] as int], ks[p[b0] as int]));
                }
            }
            assert forall|a: int, b: int|
                0 <= a < b < q.len() && key_le(
                    #[trigger] ks[q[b] as int],
                    #[trigger] ks[q[a] as int],
                ) implies q[a] < q[b] by {
                let a0 = if a < j { a } else { a - 1 };
                let b0 = if b < j { b } else { b - 1 };
                if a != j {
                    assert(q[a] == p[a0]);
                }
                if b != j {
                    assert(q[b] == p[b0]);
                }
                if a == j {
                    if b0 > j {
                        assert(key_le(ks[p[j as int] as int], ks[p[b0] as int]));
                        lemma_key_trans(ks[p[j as int] as int], ks[p[b0] as int], ks[i as int]);
                    }
                } else if b == j {
                } else {
                    assert(key_le(ks[p[b0] as int], ks[p[a0] as int]));
                }
            }
        }
        i += 1;
    }
    order
}

impl UpdateModel {
    /// What the report is listed by.
    pub open spec fn key(self) -> KeyModel {
        KeyModel { rank: self.status().rank(), name: self.reference }
    }
}

impl ImageModel {
    /// What the image is listed by.
    pub open spec fn key(self) -> KeyModel {
        KeyModel { rank: self.status().rank(), name: self.reference }
    }
}

/// The reports of a vector of reports.
pub open spec fn update_models(v: Seq<Update>) -> Seq<UpdateModel> {
    v.map_values(|u: Update| u@)
}

/// The images of a vector of images.
pub open spec fn image_models(v: Seq<Image>) -> Seq<ImageModel> {
    v.map_values(|i: Image| i@)
}

/// The keys of reports.
pub open spec fn update_keys(v: Seq<UpdateModel>) -> Seq<KeyModel> {
    v.map_values(|u: UpdateModel| u.key())
}

/// The keys of images.
pub open spec fn image_keys(v: Seq<ImageModel>) -> Seq<KeyModel> {
    v.map_values(|i: ImageModel| i.key())
}

/// `out` holds the items of `src` in the order `p`.
pub open spec fn arranged<T>(out: Seq<T>, src: Seq<T>, p: Seq<usize>) -> bool {
    &&& out.len() == p.len()
    &&& forall|k: int| 0 <= k < p.len() ==> #[trigger] out[k] == src[p[k] as int]
}

/// The keys of `v` never go down.
pub open spec fn listed(v: Seq<KeyModel>) -> bool {
    forall|a: int, b: int| 0 <= a < b < v.len() ==> key_le(#[trigger] v[a], #[trigger] v[b])
}

/// Sorts reports by status and, within a status, by reference. The result
/// holds the same reports; reports with the same status and reference stay
/// in the order they came in.
pub fn sort_update_vec(updates: &[Update]) -> (sorted: Vec<Update>)
    requires
        forall|i: int| 0 <= i < updates.len() ==> (#[trigger] updates@[i])@.well_formed(),
    ensures
        exists|p: Seq<usize>|
            sorts(p, update_keys(update_models(updates@))) && arranged(
                update_models(sorted@),
                update_models(updates@),
                p,
            ),
        listed(update_keys(update_models(sorted@))),
{
    let ghost src = update_models(updates@);
    let mut keys: Vec<Key> = Vec::new();
    let mut i: usize = 0;
    while i < updates.len()
        invariant
            i <= updates.len(),
            keys.len() == i,
            forall|k: int| 0 <= k < updates.len() ==> (#[trigger] updates@[k])@.well_formed(),
            forall|k: int| 0 <= k < i ==> (#[trigger] keys@[k])@ == updates@[k]@.key(),
        decreases updates.len() - i,
    {
        let status = updates[i].get_status();
        keys.push(Key { rank: status.rank(), name: chars_of(updates[i].reference.as_str()) });
        i += 1;
    }
    assert(key_models(keys@) =~= update_keys(src));
    let order = sorted_positions(&keys);
    let mut sorted: Vec<Update> = Vec::new();
    let mut k: usize = 0;
    while k < order.len()
        invariant
            k <= order.len(),
            sorted.len() == k,
            order.len() == updates.len(),
            forall|j: int| 0 <= j < order.len() ==> (#[trigger] order@[j]) < updates.len(),
            forall|j: int| 0 <= j < k ==> (#[trigger] sorted@[j])@ == updates@[order@[j] as int]@,
        decreases order.len() - k,
    {
        sorted.push(updates[order[k]].duplicate());
        k += 1;
    }
    proof {
        let out = update_models(sorted@);
        assert(arranged(out, src, order@));
        assert forall|a: int, b: int| 0 <= a < b < out.len() implies key_le(
            #[trigger] update_keys(out)[a],
            #[trigger] update_keys(out)[b],
        ) by {
            assert(out[a] == src[order@[a] as int]);
            assert(out[b] == src[order@[b] as int]);
            assert(key_le(
                update_keys(src)[order@[a] as int],
                update_keys(src)[order@[b] as int],
            ));
        }
    }
    sorted
}

/// Sorts checked images by status and, within a status, by reference. The
/// result holds the same images; images with the same status and reference
/// stay in the order they came in.
pub fn sort_image_vec(updates: &[Image]) -> (sorted: Vec<Image>)
    requires
        forall|i: int| 0 <= i < updates.len() ==> (#[trigger] updates@[i])@.checked(),
    ensures
        exists|p: Seq<usize>|
            sorts(p, image_keys(image_models(updates@))) && arranged(
                image_models(sorted@),
                image_models(updates@),
                p,
            ),
        listed(image_keys(image_models(sorted@))),
{
    let ghost src = image_models(updates@);
    let mut keys: Vec<Key> = Vec::new();
    let mut i: usize = 0;
    while i < updates.len()
        invariant
            i <= updates.len(),
            keys.len() == i,
            forall|k: int| 0 <= k < updates.len() ==> (#[trigger] updates@[k])@.checked(),
            forall|k: int| 0 <= k < i ==> (#[trigger] keys@[k])@ == updates@[k]@.key(),
        decreases updates.len() - i,
    {
        let status = updates[i].has_update();
        keys.push(Key { rank: status.rank(), name: chars_of(updates[i].reference.as_str()) });
        i += 1;
    }
    assert(key_models(keys@) =~= image_keys(src));
    let order = sorted_positions(&keys);
    let mut sorted: Vec<Image> = Vec::new();
    let mut k: usize = 0;
    while k < order.len()
        invariant
            k <= order.len(),
            sorted.len() == k,
            order.len() == updates.len(),
            forall|j: int| 0 <= j < order.len() ==> (#[trigger] order@[j]) < updates.len(),
            forall|j: int| 0 <= j < k ==> (#[trigger] sorted@[j])@ == updates@[order@[j] as int]@,
        decreases order.len() - k,
    {
        sorted.push(updates[order[k]].duplicate());
        k += 1;
    }
    proof {
        let out = image_models(sorted@);
        assert(arranged(out, src, order@));
        assert forall|a: int, b: int| 0 <= a < b < out.len() implies key_le(
            #[trigger] image_keys(out)[a],
            #[trigger] image_keys(out)[b],
        ) by {
            assert(out[a] == src[order@[a] as int]);
            assert(out[b] == src[order@[b] as int]);
            assert(key_le(image_keys(src)[order@[a] as int], image_keys(src)[order@[b] as int]));
        }
    }
    sorted
}

/// In a sorted listing no result stands before one of a better rank, and of
/// two results of the same rank the one whose reference comes first in the
/// dictionary stands first.
pub proof fn lemma_listed(v: Seq<KeyModel>, a: int, b: int)
    requires
        listed(v),
        0 <= a < b < v.len(),
    ensures
        v[a].rank <= v[b].rank,
        v[a].rank == v[b].rank ==> text_le(v[a].name, v[b].name),
{
    assert(key_le(v[a], v[b]));
}

} // verus!
