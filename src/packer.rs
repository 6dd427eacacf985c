//! Shelf packing of glyph images into a fixed-size atlas.

use vstd::prelude::*;

use crate::rect::{IRectangle, overlaps, within};

verus! {

/// A horizontal strip of the atlas, filled from the left.
#[derive(Copy, Clone, Debug, PartialEq, Eq, Structural)]
pub struct Shelf {
    pub current_x: i32,
    pub start_y: i32,
    pub height: i32,
}

/// What a packer holds: the atlas size, its shelves in creation order, and
/// the top of the space that no shelf has taken yet.
pub ghost struct PackerState {
    pub width: int,
    pub height: int,
    pub shelves: Seq<Shelf>,
    pub next_y: int,
}

/// Packs images into an atlas with a first-fit shelf algorithm. Placed
/// regions never move, and no space is ever reclaimed.
pub struct ShelfPacker {
    width: i32,
    height: i32,
    shelves: Vec<Shelf>,
    next_y: i32,
}

/// An area of `w` by `h` fits on the shelf, to the right of what it holds.
pub open spec fn fits(s: Shelf, atlas_width: int, w: int, h: int) -> bool {
    s.height >= h && atlas_width - s.current_x >= w
}

/// Shelf `i` is the first one on which the area fits.
pub open spec fn is_first_fit(shelves: Seq<Shelf>, atlas_width: int, w: int, h: int, i: int) -> bool {
    &&& 0 <= i < shelves.len()
    &&& fits(shelves[i], atlas_width, w, h)
    &&& forall|j: int| 0 <= j < i ==> !fits(#[trigger] shelves[j], atlas_width, w, h)
}

/// Where an area of `w` by `h` goes, and the state after it: on the first
/// shelf where it fits; else on a new shelf below the others, if that one
/// ends above the atlas's bottom edge; else nowhere.
pub open spec fn place(s: PackerState, w: int, h: int) -> (PackerState, Option<IRectangle>) {
    if exists|i: int| is_first_fit(s.shelves, s.width, w, h, i) {
        let i = choose|i: int| is_first_fit(s.shelves, s.width, w, h, i);
        let shelf = s.shelves[i];
        (
            PackerState {
                shelves: s.shelves.update(i, Shelf { current_x: (shelf.current_x + w) as i32, ..shelf }),
                ..s
            },
            Some(IRectangle { x: shelf.current_x, y: shelf.start_y, width: w as i32, height: h as i32 }),
        )
    } else if s.next_y + h < s.height {
        (
            PackerState {
                shelves: s.shelves.push(Shelf { current_x: w as i32, start_y: s.next_y as i32, height: h as i32 }),
                next_y: s.next_y + h,
                ..s
            },
            Some(IRectangle { x: 0, y: s.next_y as i32, width: w as i32, height: h as i32 }),
        )
    } else {
        (s, None)
    }
}

/// The state of a packer that has placed nothing yet.
pub open spec fn fresh(width: int, height: int) -> PackerState {
    PackerState { width, height, shelves: seq![], next_y: 0 }
}

/// The shelves are stacked top-down inside the atlas without overlapping.
pub open spec fn state_wf(s: PackerState) -> bool {
    &&& 0 <= s.width <= i32::MAX
    &&& 0 <= s.height <= i32::MAX
    &&& 0 <= s.next_y <= s.height
    &&& forall|i: int| 0 <= i < s.shelves.len() ==> {
        &&& 0 <= (#[trigger] s.shelves[i]).current_x
        &&& 0 <= s.shelves[i].start_y
        &&& 0 <= s.shelves[i].height
        &&& s.shelves[i].start_y + s.shelves[i].height <= s.next_y
    }
    &&& forall|i: int, j: int| 0 <= i < j < s.shelves.len()
        ==> #[trigger] s.shelves[i].start_y + s.shelves[i].height <= #[trigger] s.shelves[j].start_y
}

/// The padded size that `insert` asks for does not overflow, and a glyph that
/// may land on a new shelf at the left edge fits the atlas's width there.
pub open spec fn insert_ok(s: PackerState, width: int, height: int, padding: int) -> bool {
    &&& 0 <= width
    &&& 0 <= height
    &&& 0 <= padding
    &&& width + 2 * padding <= i32::MAX
    &&& height + 2 * padding <= i32::MAX
    &&& (width + padding <= s.width || s.next_y + height + 2 * padding >= s.height)
}

/// Places each area of `sizes`, in order, starting from `s`; gives the final
/// state and what each placement returned.
pub open spec fn place_all(s: PackerState, sizes: Seq<(int, int)>) -> (PackerState, Seq<Option<IRectangle>>)
    decreases sizes.len(),
{
    if sizes.len() == 0 {
        (s, seq![])
    } else {
        let (prev, placed) = place_all(s, sizes.drop_last());
        let (next, r) = place(prev, sizes.last().0, sizes.last().1);
        (next, placed.push(r))
    }
}

/// Region `r` lies on shelf `i`, left of the shelf's fill cursor.
pub open spec fn housed_at(s: PackerState, r: IRectangle, i: int) -> bool {
    &&& 0 <= i < s.shelves.len()
    &&& r.y == s.shelves[i].start_y
    &&& 0 <= r.height <= s.shelves[i].height
    &&& 0 <= r.x
    &&& 0 <= r.width
    &&& r.x + r.width <= s.shelves[i].current_x
}

pub open spec fn sizes_ok(sizes: Seq<(int, int)>, width: int) -> bool {
    forall|k: int| 0 <= k < sizes.len() ==> 0 <= (#[trigger] sizes[k]).0 <= width && 0 <= sizes[k].1
}

proof fn lemma_place_all_housed(width: int, height: int, sizes: Seq<(int, int)>)
    requires
        0 <= width <= i32::MAX,
        0 <= height <= i32::MAX,
        sizes_ok(sizes, width),
    ensures
        ({
            let (s, placed) = place_all(fresh(width, height), sizes);
            &&& state_wf(s)
            &&& s.width == width
            &&& s.height == height
            &&& placed.len() == sizes.len()
            &&& forall|k: int| 0 <= k < placed.len() && (#[trigger] placed[k]) is Some ==> {
                &&& exists|i: int| housed_at(s, placed[k]->0, i)
                &&& within(placed[k]->0, width, height)
            }
            &&& forall|k: int, m: int| 0 <= k < m < placed.len() && (#[trigger] placed[k]) is Some
                && (#[trigger] placed[m]) is Some ==> !overlaps(placed[k]->0, placed[m]->0)
                && !overlaps(placed[m]->0, placed[k]->0)
        }),
    decreases sizes.len(),
{
    if sizes.len() > 0 {
        let prefix = sizes.drop_last();
        assert(sizes_ok(prefix, width)) by {
            assert forall|k: int| 0 <= k < prefix.len() implies 0 <= (#[trigger] prefix[k]).0 <= width
                && 0 <= prefix[k].1 by {
                assert(prefix[k] == sizes[k]);
            }
        }
        lemma_place_all_housed(width, height, prefix);
        let (s, placed) = place_all(fresh(width, height), prefix);
        let (w, h) = sizes.last();
        assert(sizes[sizes.len() - 1] == sizes.last());
        let (s2, r) = place(s, w, h);
        assert(place_all(fresh(width, height), sizes) == (s2, placed.push(r)));
        let all = placed.push(r);
        if exists|i: int| is_first_fit(s.shelves, s.width, w, h, i) {
            let i = choose|i: int| is_first_fit(s.shelves, s.width, w, h, i);
            let shelf = s.shelves[i];
            assert(state_wf(s2)) by {
                assert forall|a: int, b: int| 0 <= a < b < s2.shelves.len() implies
                    #[trigger] s2.shelves[a].start_y + s2.shelves[a].height <= #[trigger] s2.shelves[b].start_y by {
                    assert(s.shelves[a].start_y + s.shelves[a].height <= s.shelves[b].start_y);
                }
            }
            let nr = r->0;
            assert(housed_at(s2, nr, i));
            assert forall|k: int| 0 <= k < all.len() && (#[trigger] all[k]) is Some implies {
                &&& exists|j: int| housed_at(s2, all[k]->0, j)
                &&& within(all[k]->0, width, height)
            } by {
                if k < placed.len() {
                    assert(all[k] == placed[k]);
                    let j = choose|j: int| housed_at(s, placed[k]->0, j);
                    assert(housed_at(s2, placed[k]->0, j));
                }
            }
            assert forall|k: int, m: int| 0 <= k < m < all.len() && (#[trigger] all[k]) is Some
                && (#[trigger] all[m]) is Some implies !overlaps(all[k]->0, all[m]->0) && !overlaps(
                all[m]->0,
                all[k]->0,
            ) by {
                if m == placed.len() {
                    assert(all[k] == placed[k]);
                    let q = placed[k]->0;
                    let j = choose|j: int| housed_at(s, q, j);
                    if j < i {
                        assert(s.shelves[j].start_y + s.shelves[j].height <= s.shelves[i].start_y);
                    } else if i < j {
                        assert(s.shelves[i].start_y + s.shelves[i].height <= s.shelves[j].start_y);
                    }
                } else {
                    assert(all[k] == placed[k]);
                    assert(all[m] == placed[m]);
                }
            }
        } else if s.next_y + h < s.height {
            let n = s.shelves.len() as int;
            let nr = r->0;
            assert(housed_at(s2, nr, n));
            assert forall|k: int| 0 <= k < all.len() && (#[trigger] all[k]) is Some implies {
                &&& exists|j: int| housed_at(s2, all[k]->0, j)
                &&& within(all[k]->0, width, height)
            } by {
                if k < placed.len() {
                    assert(all[k] == placed[k]);
                    let j = choose|j: int| housed_at(s, placed[k]->0, j);
                    assert(housed_at(s2, placed[k]->0, j));
                }
            }
            assert forall|k: int, m: int| 0 <= k < m < all.len() && (#[trigger] all[k]) is Some
                && (#[trigger] all[m]) is Some implies !overlaps(all[k]->0, all[m]->0) && !overlaps(
                all[m]->0,
                all[k]->0,
            ) by {
                assert(all[k] == placed[k]);
                if m == placed.len() {
                    let q = placed[k]->0;
                    let j = choose|j: int| housed_at(s, q, j);
                    assert(s.shelves[j].start_y + s.shelves[j].height <= s.next_y);
                } else {
                    assert(all[m] == placed[m]);
                }
            }
        } else {
            assert forall|k: int| 0 <= k < all.len() && (#[trigger] all[k]) is Some implies {
                &&& exists|j: int| housed_at(s2, all[k]->0, j)
                &&& within(all[k]->0, width, height)
            } by {
                assert(all[k] == placed[k]);
            }
            assert forall|k: int, m: int| 0 <= k < m < all.len() && (#[trigger] all[k]) is Some
                && (#[trigger] all[m]) is Some implies !overlaps(all[k]->0, all[m]->0) && !overlaps(
                all[m]->0,
                all[k]->0,
            ) by {
                assert(all[k] == placed[k]);
                assert(all[m] == placed[m]);
            }
        }
    }
}

/// Every region that a fresh packer hands out lies inside the atlas, and no
/// two of them overlap, whatever the sequence of sizes; an area wider than
/// the atlas is left out, since a new shelf takes it at the left edge
/// without a check of its width.
pub proof fn lemma_placements_disjoint(width: int, height: int, sizes: Seq<(int, int)>)
    requires
        0 <= width <= i32::MAX,
        0 <= height <= i32::MAX,
        sizes_ok(sizes, width),
    ensures
        ({
            let placed = place_all(fresh(width, height), sizes).1;
            &&& forall|k: int| 0 <= k < placed.len() && (#[trigger] placed[k]) is Some
                ==> within(placed[k]->0, width, height)
            &&& forall|k: int, m: int| 0 <= k < placed.len() && 0 <= m < placed.len() && k != m
                && (#[trigger] placed[k]) is Some && (#[trigger] placed[m]) is Some
                ==> !overlaps(placed[k]->0, placed[m]->0)
        }),
{
    lemma_place_all_housed(width, height, sizes);
    let placed = place_all(fresh(width, height), sizes).1;
    assert forall|k: int, m: int| 0 <= k < placed.len() && 0 <= m < placed.len() && k != m
        && (#[trigger] placed[k]) is Some && (#[trigger] placed[m]) is Some implies !overlaps(
        placed[k]->0,
        placed[m]->0,
    ) by {
        if k < m {
        } else {
        }
    }
}

/// Two fresh packers of the same size, given the same sequence of sizes,
/// return the same regions: placement depends on nothing else.
pub proof fn lemma_placements_deterministic(
    a: PackerState,
    b: PackerState,
    width: int,
    height: int,
    sizes: Seq<(int, int)>,
)
    requires
        a == fresh(width, height),
        b == fresh(width, height),
    ensures
        place_all(a, sizes).1 == place_all(b, sizes).1,
        place_all(a, sizes).0 == place_all(b, sizes).0,
{
}

impl View for ShelfPacker {
    type V = PackerState;

    closed spec fn view(&self) -> PackerState {
        PackerState {
            width: self.width as int,
            height: self.height as int,
            shelves: self.shelves@,
            next_y: self.next_y as int,
        }
    }
}

impl ShelfPacker {
    pub open spec fn wf(&self) -> bool {
        state_wf(self@)
    }

    /// Creates an empty packer for an atlas of the given size.
    pub fn new(texture_width: i32, texture_height: i32) -> (r: ShelfPacker)
        requires
            texture_width >= 0,
            texture_height >= 0,
        ensures
            r.wf(),
            r@ == fresh(texture_width as int, texture_height as int),
    {
        ShelfPacker { width: texture_width, height: texture_height, shelves: Vec::new(), next_y: 0 }
    }

    pub fn width(&self) -> (r: i32)
        ensures
            r == self@.width,
    {
        self.width
    }

    pub fn height(&self) -> (r: i32)
        ensures
            r == self@.height,
    {
        self.height
    }

    /// Reserves a region for an image of `width` by `height` with `padding`
    /// free pixels on each side, and returns the padded region; `None` when
    /// no space is left. The image itself goes at the returned corner moved
    /// by `padding` in both directions.
    pub fn insert(&mut self, width: i32, height: i32, padding: i32) -> (r: Option<IRectangle>)
        requires
            old(self).wf(),
            insert_ok(old(self)@, width as int, height as int, padding as int),
        ensures
            final(self).wf(),
            (final(self)@, r) == place(old(self)@, width + 2 * padding, height + 2 * padding),
            r matches Some(region) ==> within(
                IRectangle { x: (region.x + padding) as i32, y: (region.y + padding) as i32, width, height },
                old(self)@.width,
                old(self)@.height,
            ),
    {
        let padded_width = width + padding * 2;
        let padded_height = height + padding * 2;
        self.find_space(padded_width, padded_height)
    }

    /// The first shelf on which an area of `w` by `h` fits.
    fn first_fit(&self, w: i32, h: i32) -> (r: Option<usize>)
        requires
            self.wf(),
        ensures
            r matches Some(i) ==> is_first_fit(self@.shelves, self@.width, w as int, h as int, i as int),
            r is None ==> forall|i: int| 0 <= i < self@.shelves.len()
                ==> !fits(#[trigger] self@.shelves[i], self@.width, w as int, h as int),
    {
        let n = self.shelves.len();
        let mut i: usize = 0;
        while i < n
            invariant
                self.wf(),
                n == self.shelves@.len(),
                0 <= i <= n,
                forall|j: int| 0 <= j < i ==> !fits(#[trigger] self@.shelves[j], self@.width, w as int, h as int),
            decreases n - i,
        {
            let shelf = self.shelves[i];
            assert(0 <= self@.shelves[i as int].current_x);
            if shelf.height >= h && self.width - shelf.current_x >= w {
                return Some(i);
            }
            i = i + 1;
        }
        None
    }

    /// Finds space for an area of `w` by `h`, making a new shelf if needed.
    fn find_space(&mut self, w: i32, h: i32) -> (r: Option<IRectangle>)
        requires
            old(self).wf(),
            0 <= w,
            0 <= h,
        ensures
            final(self).wf(),
            (final(self)@, r) == place(old(self)@, w as int, h as int),
    {
        match self.first_fit(w, h) {
            Some(i) => {
                let shelf = self.shelves[i];
                let region = IRectangle::new(shelf.current_x, shelf.start_y, w, h);
                self.shelves[i] = Shelf { current_x: shelf.current_x + w, ..shelf };
                proof {
                    let s = old(self)@;
                    let k = choose|k: int| is_first_fit(s.shelves, s.width, w as int, h as int, k);
                    if k < i {
                        assert(!fits(s.shelves[k], s.width, w as int, h as int));
                    } else if i < k {
                        assert(!fits(s.shelves[i as int], s.width, w as int, h as int));
                    }
                    assert(self@ == place(s, w as int, h as int).0);
                }
                Some(region)
            },
            None => {
                if h < self.height - self.next_y {
                    let region = IRectangle::new(0, self.next_y, w, h);
                    self.shelves.push(Shelf { current_x: w, start_y: self.next_y, height: h });
                    self.next_y = self.next_y + h;
                    proof {
                        assert(self@ == place(old(self)@, w as int, h as int).0);
                    }
                    Some(region)
                } else {
                    None
                }
            },
        }
    }
}

} // verus!
