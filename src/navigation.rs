//! Moving through a catalog: to the nearest photo still to be rated, forward
//! or backward with wraparound, and to the first one.

use crate::models::{ImageInfo, Rating};
use vstd::arithmetic::div_mod::{lemma_add_mod_noop_right, lemma_mod_self_0, lemma_small_mod};
use vstd::prelude::*;

verus! {

pub open spec fn is_unrated(photos: Seq<ImageInfo>, k: int) -> bool {
    photos[k].rating == Rating::Unrated
}

/// Number of forward steps, wrapping from the last index to 0, that lead
/// from `from` to `to` in a catalog of `n` photos: between 1 and `n`, and `n`
/// when `to == from`.
pub open spec fn forward_distance(n: int, from: int, to: int) -> int {
    if to > from {
        to - from
    } else {
        to - from + n
    }
}

/// Number of backward steps, wrapping from 0 to the last index, that lead
/// from `from` to `to`: between 1 and `n`, and `n` when `to == from`.
pub open spec fn backward_distance(n: int, from: int, to: int) -> int {
    if to < from {
        from - to
    } else {
        from - to + n
    }
}

/// `k` is the unrated photo that the fewest forward steps reach from `start`.
pub open spec fn is_nearest_forward(photos: Seq<ImageInfo>, start: int, k: int) -> bool {
    &&& 0 <= k < photos.len()
    &&& is_unrated(photos, k)
    &&& forall|j: int|
        0 <= j < photos.len() && #[trigger] is_unrated(photos, j) ==> forward_distance(
            photos.len() as int,
            start,
            k,
        ) <= forward_distance(photos.len() as int, start, j)
}

/// `k` is the unrated photo that the fewest backward steps reach from `start`.
pub open spec fn is_nearest_backward(photos: Seq<ImageInfo>, start: int, k: int) -> bool {
    &&& 0 <= k < photos.len()
    &&& is_unrated(photos, k)
    &&& forall|j: int|
        0 <= j < photos.len() && #[trigger] is_unrated(photos, j) ==> backward_distance(
            photos.len() as int,
            start,
            k,
        ) <= backward_distance(photos.len() as int, start, j)
}

/// The next photo to review after `start`: the nearest unrated one going
/// forward (`start` itself only when it is the one unrated photo), or none
/// when every photo is rated.
pub open spec fn next_unrated(photos: Seq<ImageInfo>, start: int) -> Option<int> {
    if exists|k: int| is_nearest_forward(photos, start, k) {
        Some(choose|k: int| is_nearest_forward(photos, start, k))
    } else {
        None
    }
}

/// The previous photo to review before `start`, going backward.
pub open spec fn previous_unrated(photos: Seq<ImageInfo>, start: int) -> Option<int> {
    if exists|k: int| is_nearest_backward(photos, start, k) {
        Some(choose|k: int| is_nearest_backward(photos, start, k))
    } else {
        None
    }
}

pub open spec fn index_option(r: Option<usize>) -> Option<int> {
    match r {
        Some(k) => Some(k as int),
        None => None,
    }
}

proof fn lemma_nearest_forward_unique(photos: Seq<ImageInfo>, start: int, a: int, b: int)
    requires
        0 <= start < photos.len(),
        is_nearest_forward(photos, start, a),
        is_nearest_forward(photos, start, b),
    ensures
        a == b,
{
    assert(forward_distance(photos.len() as int, start, a) <= forward_distance(
        photos.len() as int,
        start,
        b,
    ));
    assert(forward_distance(photos.len() as int, start, b) <= forward_distance(
        photos.len() as int,
        start,
        a,
    ));
}

proof fn lemma_nearest_backward_unique(photos: Seq<ImageInfo>, start: int, a: int, b: int)
    requires
        0 <= start < photos.len(),
        is_nearest_backward(photos, start, a),
        is_nearest_backward(photos, start, b),
    ensures
        a == b,
{
    assert(backward_distance(photos.len() as int, start, a) <= backward_distance(
        photos.len() as int,
        start,
        b,
    ));
    assert(backward_distance(photos.len() as int, start, b) <= backward_distance(
        photos.len() as int,
        start,
        a,
    ));
}

/// When `k` is the nearest unrated photo forward, it is what `next_unrated`
/// gives.
pub proof fn lemma_next_unrated_is(photos: Seq<ImageInfo>, start: int, k: int)
    requires
        0 <= start < photos.len(),
        is_nearest_forward(photos, start, k),
    ensures
        next_unrated(photos, start) == Some(k),
{
    let c = choose|c: int| is_nearest_forward(photos, start, c);
    lemma_nearest_forward_unique(photos, start, c, k);
}

/// When `k` is the nearest unrated photo backward, it is what
/// `previous_unrated` gives.
pub proof fn lemma_previous_unrated_is(photos: Seq<ImageInfo>, start: int, k: int)
    requires
        0 <= start < photos.len(),
        is_nearest_backward(photos, start, k),
    ensures
        previous_unrated(photos, start) == Some(k),
{
    let c = choose|c: int| is_nearest_backward(photos, start, c);
    lemma_nearest_backward_unique(photos, start, c, k);
}

/// Index of the next photo to review after `starting_index`, scanning
/// forward and wrapping to 0 past the end; `None` once every photo is rated
/// or the catalog is empty.
pub fn get_next_picture_index(starting_index: usize, photos: &[ImageInfo]) -> (r: Option<usize>)
    requires
        photos@.len() == 0 || starting_index < photos@.len(),
    ensures
        photos@.len() == 0 ==> r is None,
        photos@.len() > 0 ==> index_option(r) == next_unrated(photos@, starting_index as int),
{
    let n = photos.len();
    if n == 0 {
        return None;
    }
    let ghost s = starting_index as int;
    let mut candidate = starting_index;
    let ghost mut d: int = 0;
    loop
        invariant
            n == photos@.len(),
            0 <= s < n,
            s == starting_index,
            0 <= candidate < n,
            0 <= d < n,
            d == 0 ==> candidate == s,
            d > 0 ==> forward_distance(n as int, s, candidate as int) == d,
            forall|j: int|
                0 <= j < n && forward_distance(n as int, s, j) <= d ==> !#[trigger] is_unrated(
                    photos@,
                    j,
                ),
        decreases n - d,
    {
        if candidate + 1 >= n {
            candidate = 0;
        } else {
            candidate = candidate + 1;
        }
        proof {
            d = d + 1;
        }
        if photos[candidate].rating == Rating::Unrated {
            proof {
                assert(is_nearest_forward(photos@, s, candidate as int));
                lemma_next_unrated_is(photos@, s, candidate as int);
            }
            return Some(candidate);
        }
        if candidate == starting_index {
            proof {
                assert forall|k: int| !is_nearest_forward(photos@, s, k) by {
                    if 0 <= k < n {
                        assert(forward_distance(n as int, s, k) <= d);
                    }
                }
            }
            return None;
        }
    }
}

/// Index of the previous photo to review before `starting_index`, scanning
/// backward and wrapping to the last index past 0; `None` once every photo is
/// rated or the catalog is empty.
pub fn get_previous_picture_index(starting_index: usize, photos: &[ImageInfo]) -> (r: Option<
    usize,
>)
    requires
        photos@.len() == 0 || starting_index < photos@.len(),
    ensures
        photos@.len() == 0 ==> r is None,
        photos@.len() > 0 ==> index_option(r) == previous_unrated(photos@, starting_index as int),
{
    let n = photos.len();
    if n == 0 {
        return None;
    }
    let ghost s = starting_index as int;
    let mut candidate = starting_index;
    let ghost mut d: int = 0;
    loop
        invariant
            n == photos@.len(),
            0 <= s < n,
            s == starting_index,
            0 <= candidate < n,
            0 <= d < n,
            d == 0 ==> candidate == s,
            d > 0 ==> backward_distance(n as int, s, candidate as int) == d,
            forall|j: int|
                0 <= j < n && backward_distance(n as int, s, j) <= d ==> !#[trigger] is_unrated(
                    photos@,
                    j,
                ),
        decreases n - d,
    {
        if candidate == 0 {
            candidate = n - 1;
        } else {
            candidate = candidate - 1;
        }
        proof {
            d = d + 1;
        }
        if photos[candidate].rating == Rating::Unrated {
            proof {
                assert(is_nearest_backward(photos@, s, candidate as int));
                lemma_previous_unrated_is(photos@, s, candidate as int);
            }
            return Some(candidate);
        }
        if candidate == starting_index {
            proof {
                assert forall|k: int| !is_nearest_backward(photos@, s, k) by {
                    if 0 <= k < n {
                        assert(backward_distance(n as int, s, k) <= d);
                    }
                }
            }
            return None;
        }
    }
}

/// `k` is the lowest index of an unrated photo.
pub open spec fn is_first_unrated(photos: Seq<ImageInfo>, k: int) -> bool {
    &&& 0 <= k < photos.len()
    &&& is_unrated(photos, k)
    &&& forall|j: int| 0 <= j < k ==> !#[trigger] is_unrated(photos, j)
}

/// The lowest index of an unrated photo, or the catalog's length (one past
/// the end) when every photo is rated.
pub open spec fn first_unrated(photos: Seq<ImageInfo>) -> int {
    if exists|k: int| is_first_unrated(photos, k) {
        choose|k: int| is_first_unrated(photos, k)
    } else {
        photos.len() as int
    }
}

/// The number of unrated photos.
pub open spec fn unrated_count(photos: Seq<ImageInfo>) -> nat
    decreases photos.len(),
{
    if photos.len() == 0 {
        0
    } else {
        unrated_count(photos.drop_last()) + if photos.last().rating == Rating::Unrated {
            1nat
        } else {
            0nat
        }
    }
}

/// Index of the first unrated photo; the catalog's length when there is
/// none, which callers must not use as an index.
pub fn get_first_unrated_image_index(photos: &[ImageInfo]) -> (r: usize)
    ensures
        r as int == first_unrated(photos@),
        r <= photos@.len(),
        forall|j: int| 0 <= j < r ==> !#[trigger] is_unrated(photos@, j),
        r < photos@.len() ==> is_unrated(photos@, r as int),
{
    let mut counter: usize = 0;
    while counter < photos.len()
        invariant
            counter <= photos@.len(),
            forall|j: int| 0 <= j < counter ==> !#[trigger] is_unrated(photos@, j),
        decreases photos@.len() - counter,
    {
        if photos[counter].rating == Rating::Unrated {
            proof {
                assert(is_first_unrated(photos@, counter as int));
                let c = choose|c: int| is_first_unrated(photos@, c);
                assert(!(c < counter));
                assert(!(counter < c));
            }
            return counter;
        }
        counter = counter + 1;
    }
    counter
}

/// How many photos are still unrated.
pub fn number_of_unrated_images(photos: &[ImageInfo]) -> (r: usize)
    ensures
        r == unrated_count(photos@),
{
    let mut counter: usize = 0;
    let mut i: usize = 0;
    while i < photos.len()
        invariant
            i <= photos@.len(),
            counter == unrated_count(photos@.subrange(0, i as int)),
            counter <= i,
        decreases photos@.len() - i,
    {
        assert(photos@.subrange(0, i as int + 1).drop_last() =~= photos@.subrange(0, i as int));
        if photos[i].rating == Rating::Unrated {
            counter = counter + 1;
        }
        i = i + 1;
    }
    assert(photos@.subrange(0, i as int) =~= photos@);
    counter
}

/// Where `next_unrated` leads after `m` steps from `start`.
pub open spec fn next_unrated_iterated(photos: Seq<ImageInfo>, start: int, m: nat) -> Option<int>
    decreases m,
{
    if m == 0 {
        Some(start)
    } else {
        match next_unrated_iterated(photos, start, (m - 1) as nat) {
            Some(j) => next_unrated(photos, j),
            None => None,
        }
    }
}

pub open spec fn all_unrated(photos: Seq<ImageInfo>) -> bool {
    forall|j: int| 0 <= j < photos.len() ==> #[trigger] is_unrated(photos, j)
}

pub open spec fn all_rated(photos: Seq<ImageInfo>) -> bool {
    forall|j: int| 0 <= j < photos.len() ==> !#[trigger] is_unrated(photos, j)
}

/// In a catalog where no photo is rated yet, the next photo after `i` is
/// `(i + 1) mod n`.
pub proof fn lemma_all_unrated_next_is_successor(photos: Seq<ImageInfo>, i: int)
    requires
        0 <= i < photos.len(),
        all_unrated(photos),
    ensures
        next_unrated(photos, i) == Some((i + 1) % (photos.len() as int)),
{
    let n = photos.len() as int;
    let k = (i + 1) % n;
    if i + 1 < n {
        lemma_small_mod((i + 1) as nat, n as nat);
    } else {
        lemma_mod_self_0(n);
    }
    assert(is_unrated(photos, k));
    assert(is_nearest_forward(photos, i, k));
    lemma_next_unrated_is(photos, i, k);
}

/// In a catalog where no photo is rated yet, `m` steps forward from `i`
/// lead to `(i + m) mod n`.
pub proof fn lemma_all_unrated_steps(photos: Seq<ImageInfo>, i: int, m: nat)
    requires
        0 <= i < photos.len(),
        all_unrated(photos),
    ensures
        next_unrated_iterated(photos, i, m) == Some((i + m) % (photos.len() as int)),
    decreases m,
{
    let n = photos.len() as int;
    if m == 0 {
        lemma_small_mod(i as nat, n as nat);
    } else {
        lemma_all_unrated_steps(photos, i, (m - 1) as nat);
        let j = (i + m - 1) % n;
        lemma_all_unrated_next_is_successor(photos, j);
        lemma_add_mod_noop_right(1, i + m - 1, n);
    }
}

/// In a catalog of `n` photos where none is rated yet, the next photo after
/// `i` is `(i + 1) mod n`, and `n` such steps lead back to `i`.
pub proof fn lemma_all_unrated_cycle(photos: Seq<ImageInfo>, i: int)
    requires
        0 <= i < photos.len(),
        all_unrated(photos),
    ensures
        next_unrated(photos, i) == Some((i + 1) % (photos.len() as int)),
        next_unrated_iterated(photos, i, photos.len()) == Some(i),
{
    let n = photos.len() as int;
    lemma_all_unrated_next_is_successor(photos, i);
    lemma_all_unrated_steps(photos, i, photos.len());
    lemma_add_mod_noop_right(i, n, n);
    lemma_mod_self_0(n);
    lemma_small_mod(i as nat, n as nat);
}

/// In a catalog where every photo is rated, there is no next and no
/// previous photo to review, from any starting index.
pub proof fn lemma_all_rated_no_neighbour(photos: Seq<ImageInfo>, i: int)
    requires
        0 <= i < photos.len(),
        all_rated(photos),
    ensures
        next_unrated(photos, i) is None,
        previous_unrated(photos, i) is None,
{
}

/// In a catalog where the photo at `k` is the only unrated one, both the
/// next and the previous photo from any other index `i` are `k`.
pub proof fn lemma_single_unrated_found(photos: Seq<ImageInfo>, k: int, i: int)
    requires
        0 <= k < photos.len(),
        0 <= i < photos.len(),
        i != k,
        is_unrated(photos, k),
        forall|j: int| 0 <= j < photos.len() && j != k ==> !#[trigger] is_unrated(photos, j),
    ensures
        next_unrated(photos, i) == Some(k),
        previous_unrated(photos, i) == Some(k),
{
    assert(is_nearest_forward(photos, i, k));
    assert(is_nearest_backward(photos, i, k));
    lemma_next_unrated_is(photos, i, k);
    lemma_previous_unrated_is(photos, i, k);
}

/// In a catalog where every photo is rated, the first unrated index is the
/// catalog's length, which is no valid index.
pub proof fn lemma_first_unrated_all_rated(photos: Seq<ImageInfo>)
    requires
        all_rated(photos),
    ensures
        first_unrated(photos) == photos.len(),
{
}

} // verus!
