//! Circular navigation over a list of fixed length.

use crate::error::GalleryError;
use crate::pixels::Pixels;
use vstd::arithmetic::div_mod::{
    lemma_add_mod_noop, lemma_fundamental_div_mod, lemma_fundamental_div_mod_converse_mod,
    lemma_mod_add_multiples_vanish, lemma_mod_bound, lemma_mod_twice, lemma_small_mod,
};
use vstd::prelude::*;

verus! {

/// How far on each side of the cursor images are requested ahead of need.
pub const PRELOAD_REACH: usize = 5;

/// The number of entries in a preload window: the cursor's own and
/// `PRELOAD_REACH` on each side.
pub const PRELOAD_WINDOW: usize = 11;

/// The way an advance walks the list.
#[derive(Debug, Clone, Copy, PartialEq, Eq, Structural)]
pub enum Direction {
    Forward,
    Backward,
}

impl Direction {
    /// The offset of `hops` steps in this direction.
    pub open spec fn times(self, hops: int) -> int {
        match self {
            Direction::Forward => hops,
            Direction::Backward => -hops,
        }
    }

    /// The other direction.
    pub open spec fn turned(self) -> Direction {
        match self {
            Direction::Forward => Direction::Backward,
            Direction::Backward => Direction::Forward,
        }
    }

    /// The other direction.
    pub fn opposite(self) -> (other: Direction)
        ensures
            other == self.turned(),
    {
        match self {
            Direction::Forward => Direction::Backward,
            Direction::Backward => Direction::Forward,
        }
    }

    /// The offset of one step in this direction.
    pub fn offset(self) -> (offset: i64)
        ensures
            offset == self.times(1),
    {
        match self {
            Direction::Forward => 1,
            Direction::Backward => -1,
        }
    }
}

/// The index reached from `i` by `k` steps round a list of `n` entries.
/// Negative `k` walks backwards; the result wraps at both ends.
pub open spec fn step(i: int, k: int, n: int) -> int {
    ((i + k) % n + n) % n
}

/// `step` always names an entry of the list, and is the remainder of `i + k`.
pub proof fn step_in_range(i: int, k: int, n: int)
    requires
        n > 0,
    ensures
        0 <= step(i, k, n) < n,
        step(i, k, n) == (i + k) % n,
{
    lemma_mod_bound(i + k, n);
    lemma_mod_add_multiples_vanish((i + k) % n, n);
    lemma_mod_twice(i + k, n);
}

/// Stepping is periodic in the offset: only `k` modulo `n` matters.
pub proof fn step_periodic(i: int, k: int, n: int)
    requires
        n > 0,
    ensures
        step(i, k, n) == step(i, k % n, n),
{
    step_in_range(i, k, n);
    step_in_range(i, k % n, n);
    lemma_add_mod_noop(i, k, n);
    lemma_add_mod_noop(i, k % n, n);
    lemma_mod_twice(k, n);
}

/// Two walks in a row are one walk of the summed offsets.
pub proof fn step_composes(i: int, j: int, k: int, n: int)
    requires
        n > 0,
    ensures
        step(step(i, j, n), k, n) == step(i, j + k, n),
{
    step_in_range(i, j, n);
    step_in_range((i + j) % n, k, n);
    step_in_range(i, j + k, n);
    lemma_add_mod_noop(i + j, k, n);
    lemma_add_mod_noop((i + j) % n, k, n);
    lemma_mod_twice(i + j, n);
}

/// A full turn, in either direction, comes back to where it started.
pub proof fn step_full_turn(i: int, n: int)
    requires
        n > 0,
        0 <= i < n,
    ensures
        step(i, 0, n) == i,
        step(i, n, n) == i,
        step(i, -n, n) == i,
{
    step_in_range(i, 0, n);
    step_in_range(i, n, n);
    step_in_range(i, -n, n);
    lemma_small_mod(i as nat, n as nat);
    lemma_mod_add_multiples_vanish(i, n);
    lemma_mod_add_multiples_vanish(i - n, n);
}

/// One step forward and one step back, in either order, restore the index.
pub proof fn step_there_and_back(i: int, n: int)
    requires
        n > 0,
        0 <= i < n,
    ensures
        step(step(i, 1, n), -1, n) == i,
        step(step(i, -1, n), 1, n) == i,
{
    step_composes(i, 1, -1, n);
    step_composes(i, -1, 1, n);
    step_full_turn(i, n);
}

/// The index `offset` entries away from `current` in a circular list of
/// `len` entries.
pub fn get_index_at(offset: i64, len: usize, current: usize) -> (index: usize)
    requires
        len > 0,
    ensures
        index == step(current as int, offset as int, len as int),
        index < len,
{
    let n: u128 = len as u128;
    let base: u128 = (current as u128) % n;
    let shift: u128 = if offset >= 0 {
        (offset as u128) % n
    } else {
        let back: u128 = ((-(offset as i128)) as u128) % n;
        if back == 0 {
            0
        } else {
            n - back
        }
    };
    let index: u128 = (base + shift) % n;
    proof {
        let i = current as int;
        let k = offset as int;
        let m = len as int;
        step_in_range(i, k, m);
        lemma_add_mod_noop(i, k, m);
        if offset < 0 {
            lemma_fundamental_div_mod(-k, m);
            lemma_fundamental_div_mod(k, m);
            lemma_mod_bound(-k, m);
            lemma_mod_bound(k, m);
            assert(shift as int == k % m) by {
                let q = (-k) / m;
                let back = (-k) % m;
                if back == 0 {
                    assert(k == (-q) * m + 0) by (nonlinear_arith)
                        requires
                            -k == m * q + back,
                            back == 0,
                    ;
                    lemma_fundamental_div_mod_converse_mod(k, m, -q, 0);
                } else {
                    assert(k == (-q - 1) * m + (m - back)) by (nonlinear_arith)
                        requires
                            -k == m * q + back,
                    ;
                    lemma_fundamental_div_mod_converse_mod(k, m, -q - 1, m - back);
                }
            }
        }
    }
    index as usize
}

/// `requests` is the preload window round `cursor`: the entries at offsets
/// `-PRELOAD_REACH` to `PRELOAD_REACH`, in that order. In a short list the
/// walk wraps and names an entry more than once.
pub open spec fn is_window(requests: Seq<usize>, cursor: int, n: int) -> bool {
    &&& requests.len() == PRELOAD_WINDOW
    &&& forall|j: int|
        0 <= j < PRELOAD_WINDOW ==> #[trigger] requests[j] == step(cursor, j - PRELOAD_REACH, n)
}

/// Computes the preload window round `cursor`.
pub fn preload_window(cursor: usize, len: usize) -> (requests: Vec<usize>)
    requires
        len > 0,
    ensures
        is_window(requests@, cursor as int, len as int),
        forall|j: int| 0 <= j < requests@.len() ==> requests@[j] < len,
{
    let mut requests: Vec<usize> = Vec::new();
    let mut j: usize = 0;
    while j < PRELOAD_WINDOW
        invariant
            len > 0,
            j <= PRELOAD_WINDOW,
            requests@.len() == j,
            forall|t: int|
                0 <= t < j ==> #[trigger] requests@[t] == step(
                    cursor as int,
                    t - PRELOAD_REACH,
                    len as int,
                ),
            forall|t: int| 0 <= t < j ==> requests@[t] < len,
        decreases PRELOAD_WINDOW - j,
    {
        let offset: i64 = j as i64 - PRELOAD_REACH as i64;
        requests.push(get_index_at(offset, len, cursor));
        j += 1;
    }
    requests
}

/// Where a navigator stands: on entry `cursor` of `len`.
pub struct Place {
    pub cursor: int,
    pub len: int,
}

/// The entry `hops` steps away from `cursor`, walking in `direction`.
pub open spec fn reached(place: Place, direction: Direction, hops: int) -> int {
    step(place.cursor, direction.times(hops), place.len)
}

/// `visit` may answer `image` when it is handed entry `index` of a list of
/// `len` entries together with the preload window round that entry.
pub open spec fn visited<V: Fn(usize, Vec<usize>) -> Option<Pixels>>(
    visit: V,
    index: int,
    len: int,
    image: Option<Pixels>,
) -> bool {
    exists|requests: Vec<usize>|
        is_window(requests@, index, len) && #[trigger] call_ensures(
            visit,
            (index as usize, requests),
            image,
        )
}

/// An advance from `from` came to rest after `hops` steps on entry
/// `cursor`, where `visit` gave `pixels`; at every entry passed on the way
/// `visit` found no image.
pub open spec fn landed<V: Fn(usize, Vec<usize>) -> Option<Pixels>>(
    visit: V,
    from: Place,
    direction: Direction,
    hops: int,
    cursor: int,
    pixels: Pixels,
) -> bool {
    &&& 1 <= hops <= from.len
    &&& cursor == reached(from, direction, hops)
    &&& visited(visit, cursor, from.len, Some(pixels))
    &&& forall|j: int|
        1 <= j < hops ==> visited(visit, #[trigger] reached(from, direction, j), from.len, None)
}

/// An advance from `from` went one full turn round the list and `visit`
/// found no image at any entry.
pub open spec fn exhausted<V: Fn(usize, Vec<usize>) -> Option<Pixels>>(
    visit: V,
    from: Place,
    direction: Direction,
) -> bool {
    forall|j: int|
        1 <= j <= from.len ==> visited(visit, #[trigger] reached(from, direction, j), from.len, None)
}

impl Place {
    /// The cursor names an entry of a list that is not empty.
    pub open spec fn valid(self) -> bool {
        0 <= self.cursor < self.len
    }
}

/// Where an advance comes to rest when `viewable[i]` tells whether entry `i`
/// holds an image: on the first such entry that the walk meets, at most one
/// full turn away. `None` where no entry holds an image.
pub open spec fn landing(viewable: Seq<bool>, from: Place, direction: Direction) -> Option<int> {
    landing_after(viewable, from, direction, 0)
}

/// The rest of an advance that has passed `passed` entries without an
/// image.
pub open spec fn landing_after(
    viewable: Seq<bool>,
    from: Place,
    direction: Direction,
    passed: int,
) -> Option<int>
    decreases from.len - passed,
{
    if passed < 0 || passed >= from.len {
        None
    } else if viewable[reached(from, direction, passed + 1)] {
        Some(reached(from, direction, passed + 1))
    } else {
        landing_after(viewable, from, direction, passed + 1)
    }
}

/// `viewable` tells of each entry what `visit` answers there: an image
/// where it is set, none where it is not.
pub open spec fn agrees<V: Fn(usize, Vec<usize>) -> Option<Pixels>>(
    visit: V,
    viewable: Seq<bool>,
) -> bool {
    forall|index: usize, requests: Vec<usize>, image: Option<Pixels>|
        index < viewable.len() && #[trigger] call_ensures(visit, (index, requests), image) ==> (
        image is Some <==> viewable[index as int])
}

proof fn landing_after_found(
    viewable: Seq<bool>,
    from: Place,
    direction: Direction,
    passed: int,
    hops: int,
)
    requires
        0 <= passed < hops <= from.len,
        viewable[reached(from, direction, hops)],
        forall|j: int| passed < j < hops ==> !viewable[#[trigger] reached(from, direction, j)],
    ensures
        landing_after(viewable, from, direction, passed) == Some(reached(from, direction, hops)),
    decreases hops - passed,
{
    if passed + 1 < hops {
        assert(!viewable[reached(from, direction, passed + 1)]);
        landing_after_found(viewable, from, direction, passed + 1, hops);
    }
}

proof fn landing_after_missed(viewable: Seq<bool>, from: Place, direction: Direction, passed: int)
    requires
        0 <= passed <= from.len,
        forall|j: int| passed < j <= from.len ==> !viewable[#[trigger] reached(from, direction, j)],
    ensures
        landing_after(viewable, from, direction, passed) is None,
    decreases from.len - passed,
{
    if passed < from.len {
        assert(!viewable[reached(from, direction, passed + 1)]);
        landing_after_missed(viewable, from, direction, passed + 1);
    }
}

proof fn landing_after_hops(
    viewable: Seq<bool>,
    from: Place,
    direction: Direction,
    passed: int,
) -> (hops: int)
    requires
        0 <= passed,
        landing_after(viewable, from, direction, passed) is Some,
    ensures
        passed < hops <= from.len,
        landing_after(viewable, from, direction, passed) == Some(reached(from, direction, hops)),
        viewable[reached(from, direction, hops)],
        forall|j: int| passed < j < hops ==> !viewable[#[trigger] reached(from, direction, j)],
    decreases from.len - passed,
{
    if viewable[reached(from, direction, passed + 1)] {
        passed + 1
    } else {
        landing_after_hops(viewable, from, direction, passed + 1)
    }
}

/// An advance rests on the first entry with an image: if the entry `hops`
/// steps away holds one and none nearer does, that entry is the landing.
pub proof fn landing_is_first_viewable(
    viewable: Seq<bool>,
    from: Place,
    direction: Direction,
    hops: int,
)
    requires
        1 <= hops <= from.len,
        viewable[reached(from, direction, hops)],
        forall|j: int| 1 <= j < hops ==> !viewable[#[trigger] reached(from, direction, j)],
    ensures
        landing(viewable, from, direction) == Some(reached(from, direction, hops)),
{
    landing_after_found(viewable, from, direction, 0, hops);
}

/// There is no landing exactly when no entry holds an image.
pub proof fn landing_fails_on_nothing(viewable: Seq<bool>, from: Place, direction: Direction)
    requires
        from.valid(),
        viewable.len() == from.len,
    ensures
        landing(viewable, from, direction) is None <==> forall|index: int|
            0 <= index < from.len ==> !#[trigger] viewable[index],
{
    if forall|index: int| 0 <= index < from.len ==> !#[trigger] viewable[index] {
        assert forall|j: int| 0 < j <= from.len implies !viewable[#[trigger] reached(
            from,
            direction,
            j,
        )] by {
            step_in_range(from.cursor, direction.times(j), from.len);
        }
        landing_after_missed(viewable, from, direction, 0);
    }
    if landing(viewable, from, direction) is None {
        assert forall|index: int| 0 <= index < from.len implies !#[trigger] viewable[index] by {
            if viewable[index] {
                // Some number of hops between 1 and `len` leads to `index`.
                let away = match direction {
                    Direction::Forward => index - from.cursor,
                    Direction::Backward => from.cursor - index,
                };
                let hops = if away <= 0 {
                    away + from.len
                } else {
                    away
                };
                step_in_range(from.cursor, direction.times(hops), from.len);
                lemma_small_mod(index as nat, from.len as nat);
                lemma_mod_add_multiples_vanish(index - from.len, from.len);
                lemma_mod_add_multiples_vanish(index, from.len);
                assert(reached(from, direction, hops) == index);
                nearest_viewable(viewable, from, direction, hops);
            }
        }
    }
}

/// If some entry within reach holds an image, the advance lands.
proof fn nearest_viewable(viewable: Seq<bool>, from: Place, direction: Direction, hops: int)
    requires
        1 <= hops <= from.len,
        viewable[reached(from, direction, hops)],
    ensures
        landing(viewable, from, direction) is Some,
    decreases hops,
{
    if exists|j: int| 1 <= j < hops && viewable[#[trigger] reached(from, direction, j)] {
        let j = choose|j: int| 1 <= j < hops && viewable[#[trigger] reached(from, direction, j)];
        nearest_viewable(viewable, from, direction, j);
    } else {
        landing_is_first_viewable(viewable, from, direction, hops);
    }
}

/// The entry under the cursor after an advance: the landing, or the entry
/// from which the advance set out where it found no image.
pub open spec fn resting(viewable: Seq<bool>, from: Place, direction: Direction) -> int {
    match landing(viewable, from, direction) {
        Some(cursor) => cursor,
        None => from.cursor,
    }
}

/// Forward and back again: an advance followed by an advance the other way
/// brings the cursor back where it was, if the entry there holds an image
/// or no entry does. From an entry without an image, in a list that has
/// one, the cursor does not come back.
pub proof fn advance_round_trip(viewable: Seq<bool>, from: Place, direction: Direction)
    requires
        from.valid(),
        viewable.len() == from.len,
    ensures
        resting(
            viewable,
            (Place { cursor: resting(viewable, from, direction), len: from.len }),
            direction.turned(),
        ) == from.cursor <==> viewable[from.cursor] || forall|index: int|
            0 <= index < from.len ==> !#[trigger] viewable[index],
{
    let back = direction.turned();
    let there = Place { cursor: resting(viewable, from, direction), len: from.len };
    let nothing = forall|index: int| 0 <= index < from.len ==> !#[trigger] viewable[index];
    landing_fails_on_nothing(viewable, from, direction);
    if landing(viewable, from, direction) is None {
        assert(there == from);
        assert(resting(viewable, there, back) == from.cursor) by {
            landing_fails_on_nothing(viewable, from, back);
        }
    } else {
        let hops = landing_after_hops(viewable, from, direction, 0);
        step_in_range(from.cursor, direction.times(hops), from.len);
        landing_fails_on_nothing(viewable, there, back);
        assert(!nothing);
        if viewable[from.cursor] {
            step_full_turn(from.cursor, from.len);
            assert forall|j: int| 1 <= j <= hops implies #[trigger] reached(there, back, j)
                == reached(from, direction, hops - j) by {
                step_composes(from.cursor, direction.times(hops), back.times(j), from.len);
            }
            assert(reached(there, back, hops) == from.cursor);
            assert forall|j: int| 1 <= j < hops implies !viewable[#[trigger] reached(
                there,
                back,
                j,
            )] by {
                assert(!viewable[reached(from, direction, hops - j)]);
            }
            landing_is_first_viewable(viewable, there, back, hops);
        } else {
            assert(landing(viewable, there, back) is Some);
            let home = landing_after_hops(viewable, there, back, 0);
            assert(viewable[resting(viewable, there, back)]);
            assert(resting(viewable, there, back) != from.cursor);
        }
    }
}

/// What `advance` promises is the landing: where `viewable` tells what
/// `visit` answers, an advance that succeeded rests on
/// `landing(viewable, ..)`.
pub proof fn landed_on_landing<V: Fn(usize, Vec<usize>) -> Option<Pixels>>(
    visit: V,
    viewable: Seq<bool>,
    from: Place,
    direction: Direction,
    hops: int,
    cursor: int,
    pixels: Pixels,
)
    requires
        from.valid(),
        viewable.len() == from.len,
        from.len <= usize::MAX,
        agrees(visit, viewable),
        landed(visit, from, direction, hops, cursor, pixels),
    ensures
        landing(viewable, from, direction) == Some(cursor),
{
    assert forall|j: int| 1 <= j <= hops implies 0 <= #[trigger] reached(from, direction, j)
        < from.len by {
        step_in_range(from.cursor, direction.times(j), from.len);
    }
    assert(viewable[cursor]) by {
        assert(0 <= reached(from, direction, hops) < from.len);
        assert(visited(visit, cursor, from.len, Some(pixels)));
    }
    assert forall|j: int| 1 <= j < hops implies !viewable[#[trigger] reached(
        from,
        direction,
        j,
    )] by {
        assert(0 <= reached(from, direction, j) < from.len);
        assert(visited(visit, reached(from, direction, j), from.len, None));
    }
    landing_is_first_viewable(viewable, from, direction, hops);
}

/// Where `viewable` tells what `visit` answers, an advance that gave up had
/// no landing.
pub proof fn exhausted_without_landing<V: Fn(usize, Vec<usize>) -> Option<Pixels>>(
    visit: V,
    viewable: Seq<bool>,
    from: Place,
    direction: Direction,
)
    requires
        from.valid(),
        viewable.len() == from.len,
        from.len <= usize::MAX,
        agrees(visit, viewable),
        exhausted(visit, from, direction),
    ensures
        landing(viewable, from, direction) is None,
{
    assert forall|j: int| 0 < j <= from.len implies !viewable[#[trigger] reached(
        from,
        direction,
        j,
    )] by {
        step_in_range(from.cursor, direction.times(j), from.len);
        assert(visited(visit, reached(from, direction, j), from.len, None));
    }
    landing_after_missed(viewable, from, direction, 0);
}

/// The cursor over the list of images.
#[derive(Debug)]
pub struct Navigator {
    cursor: usize,
    len: usize,
}

impl View for Navigator {
    type V = Place;

    closed spec fn view(&self) -> Place {
        Place { cursor: self.cursor as int, len: self.len as int }
    }
}

impl Navigator {
    #[verifier::type_invariant]
    spec fn inv(self) -> bool {
        self.cursor < self.len
    }

    /// A navigator over `len` images. It stands on the last one, so that the
    /// first advance forward shows the first image. An empty list is
    /// refused.
    pub fn new(len: usize) -> (made: Result<Navigator, GalleryError>)
        ensures
            match made {
                Ok(navigator) => len > 0 && navigator@ == (Place {
                    cursor: len - 1,
                    len: len as int,
                }),
                Err(error) => len == 0 && error == GalleryError::EmptySet,
            },
    {
        if len == 0 {
            Err(GalleryError::EmptySet)
        } else {
            Ok(Navigator { cursor: len - 1, len })
        }
    }

    /// The index of the current image.
    pub fn cursor(&self) -> (cursor: usize)
        ensures
            cursor == self@.cursor,
            0 <= self@.cursor < self@.len,
    {
        proof {
            use_type_invariant(self);
        }
        self.cursor
    }

    /// The number of images.
    pub fn len(&self) -> (len: usize)
        ensures
            len == self@.len,
            0 <= self@.cursor < self@.len,
    {
        proof {
            use_type_invariant(self);
        }
        self.len
    }

    /// Moves the cursor one step in `direction` and names the entries to
    /// request ahead of need round its new place.
    pub fn move_index(&mut self, direction: Direction) -> (requests: Vec<usize>)
        ensures
            final(self)@.len == old(self)@.len,
            final(self)@.cursor == reached(old(self)@, direction, 1),
            0 <= final(self)@.cursor < final(self)@.len,
            is_window(requests@, final(self)@.cursor, final(self)@.len),
            forall|j: int| 0 <= j < requests@.len() ==> requests@[j] < final(self)@.len,
    {
        proof {
            use_type_invariant(&*self);
        }
        let next: usize = get_index_at(direction.offset(), self.len, self.cursor);
        self.cursor = next;
        preload_window(next, self.len)
    }

    /// The current image, as `load` gives it.
    pub fn current<L: Fn(usize) -> Option<Pixels>>(&self, load: &L) -> (image: Option<Pixels>)
        requires
            forall|index: usize| index < self@.len ==> call_requires(*load, (index,)),
        ensures
            call_ensures(*load, (self@.cursor as usize,), image),
    {
        proof {
            use_type_invariant(self);
        }
        load(self.cursor)
    }

    /// Steps in `direction` until an entry holds an image, and gives that
    /// image. At each step `visit` is handed the entry under the cursor and
    /// the preload window round it: it is to request the entries of the
    /// window and then to load the entry. After one full turn without an
    /// image the advance gives up, with the cursor back where it started.
    pub fn advance<V: Fn(usize, Vec<usize>) -> Option<Pixels>>(
        &mut self,
        direction: Direction,
        visit: &V,
    ) -> (shown: Result<Pixels, GalleryError>)
        requires
            forall|index: usize, requests: Vec<usize>|
                index < old(self)@.len && is_window(requests@, index as int, old(self)@.len)
                    ==> call_requires(*visit, (index, requests)),
        ensures
            final(self)@.len == old(self)@.len,
            0 <= final(self)@.cursor < final(self)@.len,
            match shown {
                Ok(pixels) => exists|steps: int|
                    landed(*visit, old(self)@, direction, steps, final(self)@.cursor, pixels),
                Err(error) => {
                    &&& error == GalleryError::NoViewableImages
                    &&& final(self)@.cursor == old(self)@.cursor
                    &&& exhausted(*visit, old(self)@, direction)
                },
            },
    {
        proof {
            use_type_invariant(&*self);
        }
        let ghost from = self@;
        let len: usize = self.len;
        let mut hops: usize = 0;
        proof {
            step_full_turn(from.cursor, from.len);
        }
        while hops < len
            invariant
                from == old(self)@,
                len == from.len,
                self@.len == from.len,
                0 <= from.cursor < from.len,
                hops <= len,
                self@.cursor == reached(from, direction, hops as int),
                forall|j: int|
                    1 <= j <= hops ==> visited(
                        *visit,
                        #[trigger] reached(from, direction, j),
                        from.len,
                        None,
                    ),
                forall|index: usize, requests: Vec<usize>|
                    index < from.len && is_window(requests@, index as int, from.len)
                        ==> call_requires(*visit, (index, requests)),
            decreases len - hops,
        {
            let requests: Vec<usize> = self.move_index(direction);
            proof {
                step_composes(from.cursor, direction.times(hops as int), direction.times(1), from.len);
            }
            hops += 1;
            let cursor: usize = self.cursor();
            let ghost handed = requests;
            let image: Option<Pixels> = visit(cursor, requests);
            assert(visited(*visit, cursor as int, from.len, image)) by {
                assert(is_window(handed@, cursor as int, from.len));
                assert(call_ensures(*visit, ((cursor as int) as usize, handed), image));
            }
            match image {
                Some(pixels) => {
                    let shown: Result<Pixels, GalleryError> = Ok(pixels);
                    assert(shown matches Ok(image) && landed(
                        *visit,
                        old(self)@,
                        direction,
                        hops as int,
                        self@.cursor,
                        image,
                    ));
                    return shown;
                },
                None => {},
            }
        }
        proof {
            step_full_turn(from.cursor, from.len);
        }
        Err(GalleryError::NoViewableImages)
    }
}

} // verus!
