//! Tiling layout engine: a forest of containers that partitions rectangles.
//!
//! Ratios are fixed-point shares out of `RATIO_SCALE`; a container's ratios
//! always sum to exactly `RATIO_SCALE`.
use vstd::prelude::*;

use crate::config::Config;
use crate::state::Geometry;
use crate::window::WindowId;

verus! {

/// Unique identifier for a layout container.
pub type ContainerId = u64;

/// The whole of a container's space, in ratio units (parts per million).
pub const RATIO_SCALE: u32 = 1000000;

/// The smallest share a resize may leave to a child (5%).
pub const MIN_RATIO: u32 = 50000;

/// Height of one tab header in pixels.
pub const TAB_HEIGHT: u32 = 24;

/// Direction for splits.
#[derive(Debug, Clone, Copy, PartialEq, Eq, Structural)]
pub enum SplitDirection {
    Horizontal,
    Vertical,
}

impl SplitDirection {
    pub fn toggle(self) -> (r: Self)
        ensures
            r == match self {
                SplitDirection::Horizontal => SplitDirection::Vertical,
                SplitDirection::Vertical => SplitDirection::Horizontal,
            },
    {
        match self {
            SplitDirection::Horizontal => SplitDirection::Vertical,
            SplitDirection::Vertical => SplitDirection::Horizontal,
        }
    }
}

/// Layout mode for containers.
#[derive(Debug, Clone, Copy, PartialEq, Eq, Structural)]
pub enum LayoutMode {
    Split,
    Tabbed,
    Stacked,
}

/// A node in the layout tree.
#[derive(Debug, Clone, Copy, PartialEq, Eq, Structural)]
pub enum LayoutNode {
    Container(ContainerId),
    Window(WindowId),
}

/// Sum of the first `k` ratios.
pub open spec fn ratio_prefix(r: Seq<u32>, k: int) -> int
    decreases k,
{
    if k <= 0 {
        0
    } else {
        ratio_prefix(r, k - 1) + r[k - 1]
    }
}

/// `n` equal shares of the scale; the last one takes the rounding remainder.
pub open spec fn equal_shares(n: nat) -> Seq<u32> {
    Seq::new(
        n,
        |i: int|
            if i + 1 < n {
                (RATIO_SCALE as int / n as int) as u32
            } else {
                (RATIO_SCALE as int - (n - 1) * (RATIO_SCALE as int / n as int)) as u32
            },
    )
}

proof fn lemma_equal_shares_one()
    ensures
        equal_shares(1) =~= seq![RATIO_SCALE],
{
    assert(RATIO_SCALE as int / 1int == RATIO_SCALE as int);
    assert((1 - 1) * (RATIO_SCALE as int / 1int) == 0);
    assert(equal_shares(1)[0] == RATIO_SCALE);
}

pub proof fn lemma_prefix_push(r: Seq<u32>, x: u32, k: int)
    requires
        0 <= k <= r.len(),
    ensures
        ratio_prefix(r.push(x), k) == ratio_prefix(r, k),
    decreases k,
{
    if k > 0 {
        lemma_prefix_push(r, x, k - 1);
    }
}

pub proof fn lemma_prefix_update(r: Seq<u32>, i: int, v: u32, k: int)
    requires
        0 <= i < r.len(),
        0 <= k <= r.len(),
    ensures
        ratio_prefix(r.update(i, v), k) == if k > i {
            ratio_prefix(r, k) - r[i] + v
        } else {
            ratio_prefix(r, k)
        },
    decreases k,
{
    if k > 0 {
        lemma_prefix_update(r, i, v, k - 1);
    }
}

pub proof fn lemma_prefix_mono(r: Seq<u32>, j: int, k: int)
    requires
        0 <= j <= k <= r.len(),
    ensures
        ratio_prefix(r, j) <= ratio_prefix(r, k),
    decreases k,
{
    if j < k {
        lemma_prefix_mono(r, j, k - 1);
    }
}

/// The share of `avail` given by ratio `r`, rounded down.
pub open spec fn share_len(avail: int, r: u32) -> int {
    (avail * r) / (RATIO_SCALE as int)
}

/// Space left along the split axis once the `n - 1` gaps are taken out.
pub open spec fn avail_len(length: int, gap: int, n: int) -> int {
    if length >= gap * (n - 1) {
        length - gap * (n - 1)
    } else {
        0
    }
}

/// Offset along the split axis of child `i` (clamped to the end).
pub open spec fn seg_pos(start: int, end: int, avail: int, gap: int, r: Seq<u32>, i: int) -> int
    decreases i,
{
    if i <= 0 {
        start
    } else {
        let p = seg_pos(start, end, avail, gap, r, i - 1);
        let s = if share_len(avail, r[i - 1]) <= end - p {
            share_len(avail, r[i - 1])
        } else {
            end - p
        };
        if p + s + gap <= end {
            p + s + gap
        } else {
            end
        }
    }
}

/// Length along the split axis of child `i`: its share, the last takes the rest.
pub open spec fn seg_size(start: int, end: int, avail: int, gap: int, r: Seq<u32>, i: int) -> int {
    let p = seg_pos(start, end, avail, gap, r, i);
    if i + 1 < r.len() {
        if share_len(avail, r[i]) <= end - p {
            share_len(avail, r[i])
        } else {
            end - p
        }
    } else {
        end - p
    }
}

pub proof fn lemma_seg_bounds(start: int, end: int, avail: int, gap: int, r: Seq<u32>, i: int)
    requires
        start <= end,
        avail >= 0,
        gap >= 0,
        0 <= i,
    ensures
        start <= seg_pos(start, end, avail, gap, r, i) <= end,
    decreases i,
{
    if i > 0 {
        lemma_seg_bounds(start, end, avail, gap, r, i - 1);
        assert(share_len(avail, r[i - 1]) >= 0) by (nonlinear_arith)
            requires avail >= 0;
    }
}

/// Sum of the shares of the first `k` children.
pub open spec fn share_prefix(avail: int, r: Seq<u32>, k: int) -> int
    decreases k,
{
    if k <= 0 {
        0
    } else {
        share_prefix(avail, r, k - 1) + share_len(avail, r[k - 1])
    }
}

proof fn lemma_share_prefix_bound(avail: int, r: Seq<u32>, k: int)
    requires
        avail >= 0,
        0 <= k <= r.len(),
    ensures
        share_prefix(avail, r, k) * (RATIO_SCALE as int) <= avail * ratio_prefix(r, k),
        share_prefix(avail, r, k) >= 0,
    decreases k,
{
    if k > 0 {
        lemma_share_prefix_bound(avail, r, k - 1);
        let x = avail * (r[k - 1] as int);
        let q = x / (RATIO_SCALE as int);
        assert(q * (RATIO_SCALE as int) <= x && q >= 0) by (nonlinear_arith)
            requires x >= 0, q == x / (RATIO_SCALE as int);
        assert(avail * ratio_prefix(r, k) == avail * ratio_prefix(r, k - 1) + x) by (nonlinear_arith)
            requires ratio_prefix(r, k) == ratio_prefix(r, k - 1) + r[k - 1], x == avail * (r[k - 1] as int);
        assert(share_prefix(avail, r, k) * (RATIO_SCALE as int) == share_prefix(avail, r, k - 1) * (RATIO_SCALE as int) + q * (RATIO_SCALE as int)) by (nonlinear_arith)
            requires share_prefix(avail, r, k) == share_prefix(avail, r, k - 1) + q;
    }
}

proof fn lemma_share_prefix_le_avail(avail: int, r: Seq<u32>, k: int)
    requires
        avail >= 0,
        0 <= k <= r.len(),
        ratio_prefix(r, r.len() as int) == RATIO_SCALE,
    ensures
        0 <= share_prefix(avail, r, k) <= avail,
{
    lemma_prefix_mono(r, k, r.len() as int);
    lemma_share_prefix_bound(avail, r, k);
    assert(share_prefix(avail, r, k) <= avail) by (nonlinear_arith)
        requires share_prefix(avail, r, k) * (RATIO_SCALE as int) <= avail * ratio_prefix(r, k),
            ratio_prefix(r, k) <= RATIO_SCALE, avail >= 0;
}

proof fn lemma_seg_pos_exact(start: int, length: int, gap: int, r: Seq<u32>, i: int)
    requires
        r.len() >= 1,
        length >= 0,
        gap >= 0,
        length >= gap * (r.len() - 1),
        ratio_prefix(r, r.len() as int) == RATIO_SCALE,
        0 <= i <= r.len() - 1,
    ensures
        seg_pos(start, start + length, avail_len(length, gap, r.len() as int), gap, r, i) == start
            + share_prefix(avail_len(length, gap, r.len() as int), r, i) + i * gap,
        i < r.len() - 1 ==> seg_pos(start, start + length, avail_len(length, gap, r.len() as int), gap, r, i)
            + share_len(avail_len(length, gap, r.len() as int), r[i]) + gap <= start + length,
    decreases i,
{
    let n = r.len() as int;
    let avail = avail_len(length, gap, n);
    let end = start + length;
    assert(gap * (n - 1) == (n - 1) * gap) by (nonlinear_arith);
    assert(avail == length - (n - 1) * gap);
    if i > 0 {
        lemma_seg_pos_exact(start, length, gap, r, i - 1);
        let p = seg_pos(start, end, avail, gap, r, i - 1);
        let sh = share_len(avail, r[i - 1]);
        assert((i - 1) * gap + gap == i * gap) by (nonlinear_arith);
        assert(share_prefix(avail, r, i) == share_prefix(avail, r, i - 1) + sh);
        assert(sh <= end - p);
        assert(p + sh + gap <= end);
    }
    if i < n - 1 {
        lemma_share_prefix_le_avail(avail, r, i + 1);
        assert(share_prefix(avail, r, i + 1) == share_prefix(avail, r, i) + share_len(avail, r[i]));
        assert((i + 1) * gap <= (n - 1) * gap) by (nonlinear_arith)
            requires i + 1 <= n - 1, gap >= 0;
        assert((i + 1) * gap == i * gap + gap) by (nonlinear_arith);
    }
}

/// Split-mode tiling: along the split axis the first child starts at the
/// container's start, every child but the last gets exactly its ratio's share
/// of the space left after the gaps and is followed by exactly one gap, and
/// the last child ends exactly at the container's end. Holds whenever the
/// ratios sum to the scale and the container is at least as long as its gaps.
pub proof fn lemma_split_tiles(start: int, length: int, gap: int, r: Seq<u32>)
    requires
        r.len() >= 1,
        length >= 0,
        gap >= 0,
        length >= gap * (r.len() - 1),
        ratio_prefix(r, r.len() as int) == RATIO_SCALE,
    ensures
        ({
            let n = r.len() as int;
            let end = start + length;
            let avail = avail_len(length, gap, n);
            &&& seg_pos(start, end, avail, gap, r, 0) == start
            &&& forall|i: int| 0 <= i < n - 1 ==> {
                &&& #[trigger] seg_size(start, end, avail, gap, r, i) == share_len(avail, r[i])
                &&& seg_pos(start, end, avail, gap, r, i + 1) == seg_pos(start, end, avail, gap, r, i)
                    + seg_size(start, end, avail, gap, r, i) + gap
            }
            &&& seg_pos(start, end, avail, gap, r, n - 1) + seg_size(start, end, avail, gap, r, n - 1) == end
            &&& seg_size(start, end, avail, gap, r, n - 1) >= 0
        }),
{
    let n = r.len() as int;
    let end = start + length;
    let avail = avail_len(length, gap, n);
    assert forall|i: int| 0 <= i < n - 1 implies {
        &&& #[trigger] seg_size(start, end, avail, gap, r, i) == share_len(avail, r[i])
        &&& seg_pos(start, end, avail, gap, r, i + 1) == seg_pos(start, end, avail, gap, r, i)
            + seg_size(start, end, avail, gap, r, i) + gap
    } by {
        lemma_seg_pos_exact(start, length, gap, r, i);
    }
    lemma_seg_bounds(start, end, avail, gap, r, n - 1);
}

/// The rectangle of child `i` of a split of `g` along `dir` with ratios `r`.
pub open spec fn split_rect(g: Geometry, dir: SplitDirection, gap: u32, r: Seq<u32>, i: int) -> Geometry {
    let n = r.len() as int;
    match dir {
        SplitDirection::Horizontal => {
            let start = g.x as int;
            let end = g.right();
            let avail = avail_len(g.width as int, gap as int, n);
            Geometry {
                x: seg_pos(start, end, avail, gap as int, r, i) as i32,
                y: g.y,
                width: seg_size(start, end, avail, gap as int, r, i) as u32,
                height: g.height,
            }
        },
        SplitDirection::Vertical => {
            let start = g.y as int;
            let end = g.bottom();
            let avail = avail_len(g.height as int, gap as int, n);
            Geometry {
                x: g.x,
                y: seg_pos(start, end, avail, gap as int, r, i) as i32,
                width: g.width,
                height: seg_size(start, end, avail, gap as int, r, i) as u32,
            }
        },
    }
}

/// Height of the header band of a tabbed or stacked container with `n` children.
pub open spec fn header_height(mode: LayoutMode, n: int) -> int {
    match mode {
        LayoutMode::Stacked => TAB_HEIGHT * n,
        _ => TAB_HEIGHT as int,
    }
}

/// The content rectangle below the header band, clamped to the container.
pub open spec fn content_rect(g: Geometry, mode: LayoutMode, n: int) -> Geometry {
    let h = header_height(mode, n);
    Geometry {
        x: g.x,
        y: (if g.y + h <= g.bottom() { g.y + h } else { g.bottom() }) as i32,
        width: g.width,
        height: (if g.height >= h { g.height - h } else { 0 }) as u32,
    }
}

/// A container in the layout tree.
#[derive(Debug, Clone)]
pub struct Container {
    pub id: ContainerId,
    pub parent: Option<ContainerId>,
    pub children: Vec<LayoutNode>,
    pub layout: LayoutMode,
    pub split_direction: SplitDirection,
    /// Share of each child, parallel to `children`, out of `RATIO_SCALE`.
    pub ratios: Vec<u32>,
    pub focused_child: usize,
    pub gap: u32,
}

impl Container {
    /// Ratios parallel to the children, each at most the scale, summing to the
    /// scale; the focused index is in range whenever there are children.
    pub open spec fn wf(&self) -> bool {
        &&& self.ratios@.len() == self.children@.len()
        &&& self.children@.len() <= u32::MAX
        &&& forall|i: int| 0 <= i < self.ratios@.len() ==> self.ratios@[i] <= RATIO_SCALE
        &&& self.children@.len() > 0 ==> ratio_prefix(self.ratios@, self.ratios@.len() as int)
            == RATIO_SCALE
        &&& self.children@.len() > 0 ==> self.focused_child < self.children@.len()
        &&& self.children@.len() == 0 ==> self.focused_child == 0
    }

    /// An empty container.
    pub fn new(id: ContainerId, layout: LayoutMode, split_direction: SplitDirection) -> (r: Self)
        ensures
            r.wf(),
            r.id == id,
            r.parent is None,
            r.children@.len() == 0,
            r.layout == layout,
            r.split_direction == split_direction,
            r.focused_child == 0,
            r.gap == 4,
    {
        Container {
            id,
            parent: None,
            children: Vec::new(),
            layout,
            split_direction,
            ratios: Vec::new(),
            focused_child: 0,
            gap: 4,
        }
    }

    /// An empty split container.
    pub fn new_split(id: ContainerId, direction: SplitDirection) -> (r: Self)
        ensures
            r.wf(),
            r.id == id,
            r.parent is None,
            r.children@.len() == 0,
            r.layout == LayoutMode::Split,
            r.split_direction == direction,
            r.focused_child == 0,
            r.gap == 4,
    {
        Self::new(id, LayoutMode::Split, direction)
    }

    fn recalculate_ratios(&mut self)
        requires
            old(self).children@.len() <= u32::MAX,
            old(self).children@.len() > 0 ==> old(self).focused_child < old(self).children@.len(),
            old(self).children@.len() == 0 ==> old(self).focused_child == 0,
        ensures
            final(self).ratios@ == equal_shares(old(self).children@.len()),
            final(self).wf(),
            final(self).children == old(self).children,
            final(self).id == old(self).id,
            final(self).parent == old(self).parent,
            final(self).layout == old(self).layout,
            final(self).split_direction == old(self).split_direction,
            final(self).focused_child == old(self).focused_child,
            final(self).gap == old(self).gap,
    {
        let n = self.children.len();
        let mut ratios: Vec<u32> = Vec::new();
        if n > 0 {
            let nn = n as u32;
            let share = RATIO_SCALE / nn;
            proof {
                assert((n - 1) * (RATIO_SCALE as int / n as int) <= RATIO_SCALE) by (nonlinear_arith)
                    requires n >= 1;
            }
            let mut i: usize = 0;
            while i + 1 < n
                invariant
                    n == self.children@.len(),
                    n >= 1,
                    nn == n,
                    share == RATIO_SCALE / nn,
                    i < n,
                    ratios@.len() == i,
                    forall|j: int| 0 <= j < i ==> ratios@[j] == share,
                    ratio_prefix(ratios@, i as int) == i * share,
                decreases n - i,
            {
                proof {
                    lemma_prefix_push(ratios@, share, i as int);
                    assert((i + 1) * (share as int) == i * share + share) by (nonlinear_arith);
                }
                ratios.push(share);
                assert(ratio_prefix(ratios@, i + 1) == ratio_prefix(ratios@, i as int) + share);
                i = i + 1;
            }
            proof {
                assert(i * (share as int) <= RATIO_SCALE) by (nonlinear_arith)
                    requires i == n - 1, share == RATIO_SCALE as int / n as int, n >= 1;
            }
            let last = RATIO_SCALE - (i as u32) * share;
            proof {
                lemma_prefix_push(ratios@, last, i as int);
                assert(share <= RATIO_SCALE) by (nonlinear_arith)
                    requires share == RATIO_SCALE as int / n as int, n >= 1;
            }
            ratios.push(last);
            assert(ratio_prefix(ratios@, i + 1) == ratio_prefix(ratios@, i as int) + last);
            assert(ratios@ =~= equal_shares(n as nat));
        } else {
            assert(ratios@ =~= equal_shares(0));
        }
        self.ratios = ratios;
    }

    /// Append a child; ratios return to equal shares.
    pub fn add_child(&mut self, node: LayoutNode)
        requires
            old(self).wf(),
            old(self).children@.len() < u32::MAX,
        ensures
            final(self).wf(),
            final(self).children@ == old(self).children@.push(node),
            final(self).ratios@ == equal_shares(final(self).children@.len()),
            final(self).focused_child == old(self).focused_child,
            final(self).id == old(self).id,
            final(self).parent == old(self).parent,
            final(self).layout == old(self).layout,
            final(self).split_direction == old(self).split_direction,
            final(self).gap == old(self).gap,
    {
        self.children.push(node);
        self.recalculate_ratios();
    }

    /// Insert a child at `index` (at most the end); ratios return to equal shares.
    pub fn insert_child(&mut self, index: usize, node: LayoutNode)
        requires
            old(self).wf(),
            old(self).children@.len() < u32::MAX,
        ensures
            final(self).wf(),
            final(self).children@ == old(self).children@.insert(
                if index <= old(self).children@.len() { index as int } else { old(self).children@.len() as int },
                node,
            ),
            final(self).ratios@ == equal_shares(final(self).children@.len()),
            final(self).focused_child == old(self).focused_child,
            final(self).id == old(self).id,
            final(self).parent == old(self).parent,
            final(self).layout == old(self).layout,
            final(self).split_direction == old(self).split_direction,
            final(self).gap == old(self).gap,
    {
        let len = self.children.len();
        let index = if index <= len { index } else { len };
        self.children.insert(index, node);
        self.recalculate_ratios();
    }

    /// Remove the child at `index`, if there is one; ratios return to equal
    /// shares and the focused index is pulled back into range.
    pub fn remove_child(&mut self, index: usize) -> (r: Option<LayoutNode>)
        requires
            old(self).wf(),
        ensures
            final(self).wf(),
            index < old(self).children@.len() ==> {
                &&& r == Some(old(self).children@[index as int])
                &&& final(self).children@ == old(self).children@.remove(index as int)
                &&& final(self).ratios@ == equal_shares(final(self).children@.len())
                &&& final(self).focused_child == if old(self).focused_child >= final(self).children@.len()
                    && final(self).children@.len() > 0 {
                    (final(self).children@.len() - 1) as usize
                } else {
                    old(self).focused_child
                }
            },
            index >= old(self).children@.len() ==> r is None && *final(self) == *old(self),
            final(self).id == old(self).id,
            final(self).parent == old(self).parent,
            final(self).layout == old(self).layout,
            final(self).split_direction == old(self).split_direction,
            final(self).gap == old(self).gap,
    {
        if index < self.children.len() {
            let node = self.children.remove(index);
            if self.focused_child >= self.children.len() && self.children.len() > 0 {
                self.focused_child = self.children.len() - 1;
            }
            self.recalculate_ratios();
            Some(node)
        } else {
            None
        }
    }

    /// Position of the first child equal to `node`.
    pub fn position_of(&self, node: LayoutNode) -> (r: Option<usize>)
        ensures
            match r {
                Some(i) => i < self.children@.len() && self.children@[i as int] == node
                    && forall|j: int| 0 <= j < i ==> self.children@[j] != node,
                None => forall|j: int| 0 <= j < self.children@.len() ==> self.children@[j] != node,
            },
    {
        let mut i: usize = 0;
        while i < self.children.len()
            invariant
                i <= self.children@.len(),
                forall|j: int| 0 <= j < i ==> self.children@[j] != node,
            decreases self.children@.len() - i,
        {
            if self.children[i] == node {
                return Some(i);
            }
            i = i + 1;
        }
        None
    }

    /// Remove the first child equal to `node`; true when one was removed.
    pub fn remove_node(&mut self, node: &LayoutNode) -> (r: bool)
        requires
            old(self).wf(),
        ensures
            final(self).wf(),
            r == old(self).children@.contains(*node),
            r ==> final(self).children@.len() == old(self).children@.len() - 1,
            r ==> final(self).ratios@ == equal_shares(final(self).children@.len()),
            r ==> exists|i: int| 0 <= i < old(self).children@.len() && old(self).children@[i] == *node
                && final(self).children@ == old(self).children@.remove(i),
            !r ==> *final(self) == *old(self),
            final(self).id == old(self).id,
            final(self).parent == old(self).parent,
            final(self).layout == old(self).layout,
            final(self).split_direction == old(self).split_direction,
            final(self).gap == old(self).gap,
    {
        match self.position_of(*node) {
            Some(pos) => {
                self.remove_child(pos);
                true
            },
            None => false,
        }
    }

    /// Move `delta` ratio units from child `index + 1` to child `index`
    /// (a negative delta moves them the other way), clamped so that neither
    /// share falls below `MIN_RATIO`. Other ratios are untouched.
    pub fn resize_child(&mut self, index: usize, delta: i64)
        requires
            old(self).wf(),
        ensures
            final(self).wf(),
            final(self).children == old(self).children,
            final(self).focused_child == old(self).focused_child,
            index + 1 < old(self).ratios@.len() && old(self).ratios@[index as int] >= MIN_RATIO
                && old(self).ratios@[index + 1] >= MIN_RATIO ==> {
                &&& final(self).ratios@[index as int] >= MIN_RATIO
                &&& final(self).ratios@[index + 1] >= MIN_RATIO
                &&& final(self).ratios@[index as int] + final(self).ratios@[index + 1]
                    == old(self).ratios@[index as int] + old(self).ratios@[index + 1]
            },
            ({
                let r0 = old(self).ratios@;
                let r1 = final(self).ratios@;
                if r0.len() < 2 || index + 1 >= r0.len() {
                    r1 == r0
                } else {
                    let lo = MIN_RATIO - r0[index as int];
                    let hi = if r0[index + 1] - MIN_RATIO <= RATIO_SCALE - MIN_RATIO - r0[index as int] {
                        r0[index + 1] - MIN_RATIO
                    } else {
                        RATIO_SCALE - MIN_RATIO - r0[index as int]
                    };
                    let d = if delta < lo { lo } else if delta > hi { hi } else { delta as int };
                    if lo > hi {
                        r1 == r0
                    } else {
                        r1 == r0.update(index as int, (r0[index as int] + d) as u32).update(
                            index + 1,
                            (r0[index + 1] - d) as u32,
                        )
                    }
                }
            }),
    {
        let n = self.children.len();
        if n < 2 || index >= n - 1 {
            return;
        }
        let a = self.ratios[index] as i64;
        let b = self.ratios[index + 1] as i64;
        let lo = MIN_RATIO as i64 - a;
        let hi1 = b - MIN_RATIO as i64;
        let hi2 = RATIO_SCALE as i64 - MIN_RATIO as i64 - a;
        let hi = if hi1 <= hi2 { hi1 } else { hi2 };
        if lo > hi {
            return;
        }
        let d = if delta < lo { lo } else if delta > hi { hi } else { delta };
        let na = (a + d) as u32;
        let nb = (b - d) as u32;
        proof {
            let r0 = self.ratios@;
            lemma_prefix_mono(r0, 0, index as int);
            lemma_prefix_mono(r0, index + 2, n as int);
            assert(ratio_prefix(r0, index + 1) == ratio_prefix(r0, index as int) + r0[index as int]);
            assert(ratio_prefix(r0, index + 2) == ratio_prefix(r0, index + 1) + r0[index + 1]);
            lemma_prefix_update(r0, index as int, na, n as int);
            lemma_prefix_update(r0.update(index as int, na), index + 1, nb, n as int);
        }
        self.ratios.set(index, na);
        self.ratios.set(index + 1, nb);
    }

    /// Advance the focused child, wrapping around.
    pub fn focus_next(&mut self)
        requires
            old(self).wf(),
        ensures
            final(self).wf(),
            final(self).children == old(self).children,
            final(self).ratios == old(self).ratios,
            final(self).focused_child == if old(self).children@.len() > 0 {
                ((old(self).focused_child + 1) % (old(self).children@.len() as int)) as usize
            } else {
                old(self).focused_child
            },
            final(self).id == old(self).id,
            final(self).parent == old(self).parent,
            final(self).layout == old(self).layout,
            final(self).split_direction == old(self).split_direction,
            final(self).gap == old(self).gap,
    {
        if self.children.len() > 0 {
            self.focused_child = (self.focused_child + 1) % self.children.len();
        }
    }

    /// Step the focused child back, wrapping around.
    pub fn focus_prev(&mut self)
        requires
            old(self).wf(),
        ensures
            final(self).wf(),
            final(self).children == old(self).children,
            final(self).ratios == old(self).ratios,
            final(self).focused_child == if old(self).children@.len() > 0 {
                if old(self).focused_child == 0 {
                    (old(self).children@.len() - 1) as usize
                } else {
                    (old(self).focused_child - 1) as usize
                }
            } else {
                old(self).focused_child
            },
            final(self).id == old(self).id,
            final(self).parent == old(self).parent,
            final(self).layout == old(self).layout,
            final(self).split_direction == old(self).split_direction,
            final(self).gap == old(self).gap,
    {
        if self.children.len() > 0 {
            self.focused_child = if self.focused_child == 0 {
                self.children.len() - 1
            } else {
                self.focused_child - 1
            };
        }
    }

    /// The focused child, if the index is in range.
    pub fn focused(&self) -> (r: Option<&LayoutNode>)
        ensures
            r == if self.focused_child < self.children@.len() {
                Some(&self.children@[self.focused_child as int])
            } else {
                None
            },
    {
        if self.focused_child < self.children.len() {
            Some(&self.children[self.focused_child])
        } else {
            None
        }
    }

    pub fn is_empty(&self) -> (r: bool)
        ensures
            r == (self.children@.len() == 0),
    {
        self.children.len() == 0
    }

    pub fn contains_window(&self, window_id: WindowId) -> (r: bool)
        ensures
            r == self.children@.contains(LayoutNode::Window(window_id)),
    {
        self.position_of(LayoutNode::Window(window_id)).is_some()
    }
}

/// Index of the first container with this id, searching from `i`.
pub open spec fn find_first(cs: Seq<Container>, id: ContainerId, i: int) -> Option<int>
    decreases cs.len() - i,
{
    if i < 0 || i >= cs.len() {
        None
    } else if cs[i].id == id {
        Some(i)
    } else {
        find_first(cs, id, i + 1)
    }
}

pub proof fn lemma_find_first(cs: Seq<Container>, id: ContainerId, i: int)
    requires
        0 <= i,
    ensures
        match find_first(cs, id, i) {
            Some(k) => i <= k < cs.len() && cs[k].id == id && forall|j: int| i <= j < k ==> cs[j].id != id,
            None => forall|j: int| i <= j < cs.len() ==> cs[j].id != id,
        },
    decreases cs.len() - i,
{
    if i < cs.len() && cs[i].id != id {
        lemma_find_first(cs, id, i + 1);
    }
}

/// Window rectangles produced by laying out `node` in `g`, in tree order.
pub open spec fn node_entries(cs: Seq<Container>, node: LayoutNode, g: Geometry, fuel: nat) -> Seq<(WindowId, Geometry)>
    decreases fuel, 0nat, 0nat,
{
    match node {
        LayoutNode::Window(w) => seq![(w, g)],
        LayoutNode::Container(id) => if fuel == 0 {
            Seq::empty()
        } else {
            match find_first(cs, id, 0) {
                Some(i) => if 0 <= i < cs.len() {
                    container_entries(cs, cs[i], g, (fuel - 1) as nat)
                } else {
                    Seq::empty()
                },
                None => Seq::empty(),
            }
        },
    }
}

/// Window rectangles produced by laying out container `c` in `g`.
pub open spec fn container_entries(cs: Seq<Container>, c: Container, g: Geometry, fuel: nat) -> Seq<(WindowId, Geometry)>
    decreases fuel, 2nat, 0nat,
{
    let n = c.children@.len();
    if n == 0 {
        Seq::empty()
    } else {
        match c.layout {
            LayoutMode::Split => split_entries(cs, c, g, fuel, n),
            _ => if c.focused_child < n {
                node_entries(cs, c.children@[c.focused_child as int], content_rect(g, c.layout, n as int), fuel)
            } else {
                Seq::empty()
            },
        }
    }
}

/// Rectangles of the first `k` children of a split container.
pub open spec fn split_entries(cs: Seq<Container>, c: Container, g: Geometry, fuel: nat, k: nat) -> Seq<(WindowId, Geometry)>
    decreases fuel, 1nat, k,
{
    if k == 0 {
        Seq::empty()
    } else {
        split_entries(cs, c, g, fuel, (k - 1) as nat) + node_entries(
            cs,
            c.children@[k - 1],
            split_rect(g, c.split_direction, c.gap, c.ratios@, k - 1),
            fuel,
        )
    }
}

/// The area inside the outer gap (clamped so that it stays within `g`).
pub open spec fn inner_rect(g: Geometry, outer_gap: u32) -> Geometry {
    Geometry {
        x: (if g.x + outer_gap <= g.right() { g.x + outer_gap } else { g.right() }) as i32,
        y: (if g.y + outer_gap <= g.bottom() { g.y + outer_gap } else { g.bottom() }) as i32,
        width: (if g.width >= 2 * outer_gap { g.width - 2 * outer_gap } else { 0 }) as u32,
        height: (if g.height >= 2 * outer_gap { g.height - 2 * outer_gap } else { 0 }) as u32,
    }
}

/// The last rectangle recorded for `w`, if any.
pub open spec fn lookup_geometry(entries: Seq<(WindowId, Geometry)>, w: WindowId) -> Option<Geometry>
    decreases entries.len(),
{
    if entries.len() == 0 {
        None
    } else if entries.last().0 == w {
        Some(entries.last().1)
    } else {
        lookup_geometry(entries.drop_last(), w)
    }
}

/// Index of the first container, from `i` on, that holds window `w` directly.
pub open spec fn find_holder(cs: Seq<Container>, w: WindowId, i: int) -> Option<int>
    decreases cs.len() - i,
{
    if i < 0 || i >= cs.len() {
        None
    } else if cs[i].children@.contains(LayoutNode::Window(w)) {
        Some(i)
    } else {
        find_holder(cs, w, i + 1)
    }
}

pub proof fn lemma_find_holder(cs: Seq<Container>, w: WindowId, i: int)
    requires
        0 <= i,
    ensures
        match find_holder(cs, w, i) {
            Some(k) => i <= k < cs.len() && cs[k].children@.contains(LayoutNode::Window(w)),
            None => forall|j: int| i <= j < cs.len() ==> !cs[j].children@.contains(LayoutNode::Window(w)),
        },
    decreases cs.len() - i,
{
    if i < cs.len() && !cs[i].children@.contains(LayoutNode::Window(w)) {
        lemma_find_holder(cs, w, i + 1);
    }
}

/// The window reached from container `id` by always descending into the first child.
pub open spec fn first_window(cs: Seq<Container>, id: ContainerId, fuel: nat) -> Option<WindowId>
    decreases fuel,
{
    if fuel == 0 {
        None
    } else {
        match find_first(cs, id, 0) {
            Some(k) => if 0 <= k < cs.len() && cs[k].children@.len() > 0 {
                match cs[k].children@[0] {
                    LayoutNode::Window(w) => Some(w),
                    LayoutNode::Container(sub) => first_window(cs, sub, (fuel - 1) as nat),
                }
            } else {
                None
            },
            None => None,
        }
    }
}

/// `after` is `before` with the container `id` pruned: taken out of the list;
/// the tree emptied if it was the root; else detached from its parent.
pub open spec fn pruned(before: LayoutTree, after: LayoutTree, id: ContainerId) -> bool {
    match find_first(before.containers@, id, 0) {
        None => after.containers@ == before.containers@ && after.root == before.root
            && after.focused_container == before.focused_container,
        Some(i) => {
            let rest = before.containers@.remove(i);
            let c = before.containers@[i];
            if before.root == Some(id) {
                &&& after.containers@ == rest
                &&& after.root is None
                &&& after.focused_container is None
            } else {
                &&& after.root == before.root
                &&& after.focused_container == before.focused_container
                &&& match c.parent {
                    Some(p) => match find_first(rest, p, 0) {
                        Some(q) => {
                            &&& after.containers@.len() == rest.len()
                            &&& forall|j: int| 0 <= j < rest.len() && j != q ==> after.containers@[j] == rest[j]
                            &&& after.containers@[q].id == rest[q].id
                            &&& (rest[q].children@.contains(LayoutNode::Container(id)) ==> exists|k: int|
                                0 <= k < rest[q].children@.len() && rest[q].children@[k] == LayoutNode::Container(id)
                                && after.containers@[q].children@ == rest[q].children@.remove(k))
                            &&& (!rest[q].children@.contains(LayoutNode::Container(id)) ==> after.containers@[q] == rest[q])
                        },
                        None => after.containers@ == rest,
                    },
                    None => after.containers@ == rest,
                }
            }
        },
    }
}

/// The layout tree of a workspace.
#[derive(Debug)]
pub struct LayoutTree {
    pub containers: Vec<Container>,
    pub root: Option<ContainerId>,
    pub focused_container: Option<ContainerId>,
    pub default_direction: SplitDirection,
    /// Window rectangles from the last layout pass, in tree order.
    pub window_geometries: Vec<(WindowId, Geometry)>,
    /// Id for the next container this tree creates.
    pub next_container_id: ContainerId,
}

/// The layout of a whole tree: everything under the root, inside the outer gap.
pub open spec fn tree_entries(cs: Seq<Container>, root: Option<ContainerId>, area: Geometry, outer_gap: u32) -> Seq<(WindowId, Geometry)> {
    match root {
        Some(r) => node_entries(cs, LayoutNode::Container(r), inner_rect(area, outer_gap), cs.len()),
        None => Seq::empty(),
    }
}

/// `after` is `before` with a layout pass over `area` done.
pub open spec fn laid_out(before: LayoutTree, after: LayoutTree, area: Geometry, outer_gap: u32) -> bool {
    &&& after.containers@ == before.containers@
    &&& after.root == before.root
    &&& after.focused_container == before.focused_container
    &&& after.default_direction == before.default_direction
    &&& after.next_container_id == before.next_container_id
    &&& after.window_geometries@ == tree_entries(before.containers@, before.root, area, outer_gap)
}

/// A second layout pass over the same area yields the same window rectangles.
pub proof fn lemma_layout_idempotent(t0: LayoutTree, t1: LayoutTree, t2: LayoutTree, area: Geometry, outer_gap: u32)
    requires
        laid_out(t0, t1, area, outer_gap),
        laid_out(t1, t2, area, outer_gap),
    ensures
        t2.window_geometries@ == t1.window_geometries@,
        forall|w: WindowId| lookup_geometry(t2.window_geometries@, w) == lookup_geometry(t1.window_geometries@, w),
{
}

/// Every node of the list is a window.
pub open spec fn all_windows(nodes: Seq<LayoutNode>) -> bool {
    forall|k: int| 0 <= k < nodes.len() ==> (#[trigger] nodes[k]) is Window
}

/// The window rectangles of a split of `g` over window children, in order.
pub open spec fn flat_entries(c: Container, g: Geometry, k: nat) -> Seq<(WindowId, Geometry)>
    decreases k,
{
    if k == 0 {
        Seq::empty()
    } else {
        flat_entries(c, g, (k - 1) as nat).push(
            (c.children@[k - 1]->Window_0, split_rect(g, c.split_direction, c.gap, c.ratios@, k - 1)),
        )
    }
}

proof fn lemma_flat_split_entries(cs: Seq<Container>, c: Container, g: Geometry, fuel: nat, k: nat)
    requires
        k <= c.children@.len(),
        all_windows(c.children@),
    ensures
        split_entries(cs, c, g, fuel, k) == flat_entries(c, g, k),
    decreases k,
{
    if k > 0 {
        lemma_flat_split_entries(cs, c, g, fuel, (k - 1) as nat);
        assert(c.children@[k - 1] is Window);
        let w = c.children@[k - 1]->Window_0;
        let rect = split_rect(g, c.split_direction, c.gap, c.ratios@, k - 1);
        assert(c.children@[k - 1] == LayoutNode::Window(w));
        assert(node_entries(cs, c.children@[k - 1], rect, fuel) == seq![(w, rect)]);
        let prev = split_entries(cs, c, g, fuel, (k - 1) as nat);
        assert(prev + seq![(w, rect)] =~= prev.push((w, rect)));
    }
}

proof fn lemma_flat_entries_index(c: Container, g: Geometry, k: nat, i: int)
    requires
        0 <= i < k,
    ensures
        flat_entries(c, g, k).len() == k,
        flat_entries(c, g, k)[i] == (c.children@[i]->Window_0, split_rect(g, c.split_direction, c.gap, c.ratios@, i)),
    decreases k,
{
    if i < k - 1 {
        lemma_flat_entries_index(c, g, (k - 1) as nat, i);
    }
    lemma_flat_entries_len(c, g, k);
}

proof fn lemma_flat_entries_len(c: Container, g: Geometry, k: nat)
    ensures
        flat_entries(c, g, k).len() == k,
    decreases k,
{
    if k > 0 {
        lemma_flat_entries_len(c, g, (k - 1) as nat);
    }
}

/// Tiling of whole trees. A tree built only by `add_window` and
/// `remove_window` lays out, for each window child of its root in order, the
/// corresponding child rectangle of a split of the area inside the outer
/// gap; along the split axis the first starts at that area's start, each is
/// followed by exactly one gap, and the last ends at the area's end (when
/// the area is at least as long as its gaps).
pub proof fn lemma_flat_tree_tiles(t: LayoutTree, area: Geometry, outer_gap: u32)
    requires
        t.wf(),
        t.flat(),
        t.root is Some,
    ensures
        ({
            let c = t.containers@[0];
            let n = c.children@.len();
            let g = inner_rect(area, outer_gap);
            let e = tree_entries(t.containers@, t.root, area, outer_gap);
            let (start, length) = match c.split_direction {
                SplitDirection::Horizontal => (g.x as int, g.width as int),
                SplitDirection::Vertical => (g.y as int, g.height as int),
            };
            let avail = avail_len(length, c.gap as int, n as int);
            &&& e.len() == n
            &&& forall|k: int| 0 <= k < n ==> #[trigger] e[k] == (c.children@[k]->Window_0,
                split_rect(g, c.split_direction, c.gap, c.ratios@, k))
            &&& length >= c.gap * (n - 1) ==> {
                &&& seg_pos(start, start + length, avail, c.gap as int, c.ratios@, 0) == start
                &&& forall|k: int| 0 <= k < n - 1 ==> #[trigger] seg_pos(start, start + length, avail, c.gap as int, c.ratios@, k + 1)
                    == seg_pos(start, start + length, avail, c.gap as int, c.ratios@, k)
                    + seg_size(start, start + length, avail, c.gap as int, c.ratios@, k) + c.gap
                &&& seg_pos(start, start + length, avail, c.gap as int, c.ratios@, n - 1)
                    + seg_size(start, start + length, avail, c.gap as int, c.ratios@, n - 1) == start + length
            }
        }),
{
    let cs = t.containers@;
    let c = cs[0];
    let n = c.children@.len();
    let g = inner_rect(area, outer_gap);
    assert(c.wf());
    assert(find_first(cs, t.root->0, 0) == Some(0int));
    assert(n > 0);
    lemma_flat_split_entries(cs, c, g, (cs.len() - 1) as nat, n);
    lemma_flat_entries_len(c, g, n);
    assert forall|k: int| 0 <= k < n implies #[trigger] tree_entries(cs, t.root, area, outer_gap)[k] == (
        c.children@[k]->Window_0,
        split_rect(g, c.split_direction, c.gap, c.ratios@, k),
    ) by {
        lemma_flat_entries_index(c, g, n, k);
    }
    let (start, length) = match c.split_direction {
        SplitDirection::Horizontal => (g.x as int, g.width as int),
        SplitDirection::Vertical => (g.y as int, g.height as int),
    };
    if length >= c.gap * (n - 1) {
        lemma_split_tiles(start, length, c.gap as int, c.ratios@);
    }
}

proof fn lemma_seg_size_bounds(start: int, end: int, avail: int, gap: int, r: Seq<u32>, i: int)
    requires
        start <= end,
        avail >= 0,
        gap >= 0,
        0 <= i,
    ensures
        0 <= seg_size(start, end, avail, gap, r, i) <= end - seg_pos(start, end, avail, gap, r, i),
{
    lemma_seg_bounds(start, end, avail, gap, r, i);
    if i + 1 < r.len() {
        assert(share_len(avail, r[i]) >= 0) by (nonlinear_arith)
            requires avail >= 0;
    }
}

/// Tiling of whole trees, on the window rectangles themselves: for a tree
/// built by adding and removing windows, the rectangle of each root child
/// spans the inner area across the split axis; along it the first starts at
/// the inner area's start, each following one starts exactly one gap after
/// the previous one ends, and the last ends at the inner area's end (when the
/// inner area is at least as long as the gaps).
pub proof fn lemma_flat_tree_rects(t: LayoutTree, area: Geometry, outer_gap: u32)
    requires
        t.wf(),
        t.flat(),
        t.root is Some,
        area.fits(),
    ensures
        ({
            let c = t.containers@[0];
            let n = c.children@.len() as int;
            let g = inner_rect(area, outer_gap);
            let e = tree_entries(t.containers@, t.root, area, outer_gap);
            let gap = c.gap as int;
            &&& e.len() == n
            &&& forall|k: int| 0 <= k < n ==> (#[trigger] e[k]).0 == c.children@[k]->Window_0
            &&& match c.split_direction {
                SplitDirection::Horizontal => {
                    &&& forall|k: int| 0 <= k < n ==> (#[trigger] e[k]).1.y == g.y && e[k].1.height == g.height
                    &&& g.width >= gap * (n - 1) ==> {
                        &&& e[0].1.x == g.x
                        &&& forall|k: int| 0 <= k < n - 1 ==> #[trigger] e[k + 1].1.x == e[k].1.x + e[k].1.width + gap
                        &&& e[n - 1].1.x + e[n - 1].1.width == g.x + g.width
                    }
                },
                SplitDirection::Vertical => {
                    &&& forall|k: int| 0 <= k < n ==> (#[trigger] e[k]).1.x == g.x && e[k].1.width == g.width
                    &&& g.height >= gap * (n - 1) ==> {
                        &&& e[0].1.y == g.y
                        &&& forall|k: int| 0 <= k < n - 1 ==> #[trigger] e[k + 1].1.y == e[k].1.y + e[k].1.height + gap
                        &&& e[n - 1].1.y + e[n - 1].1.height == g.y + g.height
                    }
                },
            }
        }),
{
    lemma_flat_tree_tiles(t, area, outer_gap);
    let c = t.containers@[0];
    let n = c.children@.len() as int;
    let g = inner_rect(area, outer_gap);
    let e = tree_entries(t.containers@, t.root, area, outer_gap);
    let gap = c.gap as int;
    let (start, length) = match c.split_direction {
        SplitDirection::Horizontal => (g.x as int, g.width as int),
        SplitDirection::Vertical => (g.y as int, g.height as int),
    };
    let avail = avail_len(length, gap, n);
    assert(avail >= 0);
    assert forall|k: int| 0 <= k < n implies {
        &&& (e[k].1.x as int) == (if c.split_direction is Horizontal { seg_pos(start, start + length, avail, gap, c.ratios@, k) } else { g.x as int })
        &&& (e[k].1.y as int) == (if c.split_direction is Vertical { seg_pos(start, start + length, avail, gap, c.ratios@, k) } else { g.y as int })
        &&& (e[k].1.width as int) == (if c.split_direction is Horizontal { seg_size(start, start + length, avail, gap, c.ratios@, k) } else { g.width as int })
        &&& (e[k].1.height as int) == (if c.split_direction is Vertical { seg_size(start, start + length, avail, gap, c.ratios@, k) } else { g.height as int })
    } by {
        lemma_seg_bounds(start, start + length, avail, gap, c.ratios@, k);
        lemma_seg_size_bounds(start, start + length, avail, gap, c.ratios@, k);
    }
    let sp = |k: int| seg_pos(start, start + length, avail, gap, c.ratios@, k);
    let sz = |k: int| seg_size(start, start + length, avail, gap, c.ratios@, k);
    if length >= gap * (n - 1) {
        assert(c.wf());
        assert(c.ratios@.len() == n);
        lemma_split_tiles(start, length, gap, c.ratios@);
        assert(sp(0) == start);
        assert(sp(n - 1) + sz(n - 1) == start + length);
        match c.split_direction {
            SplitDirection::Horizontal => {
                assert(e[0].1.x as int == sp(0));
                assert(e[n - 1].1.x + e[n - 1].1.width == sp(n - 1) + sz(n - 1));
                assert forall|k: int| 0 <= k < n - 1 implies #[trigger] e[k + 1].1.x == e[k].1.x + e[k].1.width + gap by {
                    assert(seg_pos(start, start + length, avail, gap, c.ratios@, k + 1) == seg_pos(start, start + length,
                        avail, gap, c.ratios@, k) + seg_size(start, start + length, avail, gap, c.ratios@, k) + c.gap);
                    assert(e[k + 1].1.x as int == sp(k + 1));
                    assert(e[k].1.x as int == sp(k));
                    assert(e[k].1.width as int == sz(k));
                }
            },
            SplitDirection::Vertical => {
                assert(e[0].1.y as int == sp(0));
                assert(e[n - 1].1.y + e[n - 1].1.height == sp(n - 1) + sz(n - 1));
                assert forall|k: int| 0 <= k < n - 1 implies #[trigger] e[k + 1].1.y == e[k].1.y + e[k].1.height + gap by {
                    assert(seg_pos(start, start + length, avail, gap, c.ratios@, k + 1) == seg_pos(start, start + length,
                        avail, gap, c.ratios@, k) + seg_size(start, start + length, avail, gap, c.ratios@, k) + c.gap);
                    assert(e[k + 1].1.y as int == sp(k + 1));
                    assert(e[k].1.y as int == sp(k));
                    assert(e[k].1.height as int == sz(k));
                }
            },
        }
    }
}

impl LayoutTree {
    pub open spec fn wf(&self) -> bool {
        forall|i: int| 0 <= i < self.containers@.len() ==> (#[trigger] self.containers@[i]).wf()
    }

    /// The shape that adding and removing windows keeps: no container, or a
    /// single split root container, focused, whose children are all windows.
    pub open spec fn flat(&self) -> bool {
        match self.root {
            None => self.containers@.len() == 0 && self.focused_container is None,
            Some(r) => {
                &&& self.containers@.len() == 1
                &&& self.containers@[0].id == r
                &&& self.containers@[0].layout == LayoutMode::Split
                &&& self.containers@[0].children@.len() > 0
                &&& all_windows(self.containers@[0].children@)
                &&& self.focused_container == Some(r)
            },
        }
    }

    pub fn new() -> (r: Self)
        ensures
            r.wf(),
            r.containers@.len() == 0,
            r.root is None,
            r.focused_container is None,
            r.default_direction == SplitDirection::Horizontal,
            r.window_geometries@.len() == 0,
            r.next_container_id == 1,
            r.flat(),
    {
        LayoutTree {
            containers: Vec::new(),
            root: None,
            focused_container: None,
            default_direction: SplitDirection::Horizontal,
            window_geometries: Vec::new(),
            next_container_id: 1,
        }
    }

    /// Index of the first container with this id.
    pub fn find_container(&self, id: ContainerId) -> (r: Option<usize>)
        ensures
            r == match find_first(self.containers@, id, 0) {
                Some(i) => Some(i as usize),
                None => None::<usize>,
            },
            r matches Some(i) ==> i < self.containers@.len() && self.containers@[i as int].id == id,
    {
        proof {
            lemma_find_first(self.containers@, id, 0);
        }
        let mut i: usize = 0;
        while i < self.containers.len()
            invariant
                i <= self.containers@.len(),
                find_first(self.containers@, id, 0) == find_first(self.containers@, id, i as int),
            decreases self.containers@.len() - i,
        {
            if self.containers[i].id == id {
                return Some(i);
            }
            i = i + 1;
        }
        None
    }

    /// Insert a window after the focused child of the focused (or root)
    /// container; the first window creates a split root container.
    pub fn add_window(&mut self, window_id: WindowId, config: &Config)
        requires
            old(self).wf(),
        ensures
            final(self).wf(),
            old(self).flat() ==> final(self).flat(),
            final(self).window_geometries == old(self).window_geometries,
            final(self).default_direction == old(self).default_direction,
            old(self).root is None ==> {
                let id = old(self).next_container_id;
                let c = final(self).containers@.last();
                &&& final(self).containers@.len() == old(self).containers@.len() + 1
                &&& final(self).containers@.drop_last() == old(self).containers@
                &&& c.id == id && c.parent is None
                &&& c.children@ == seq![LayoutNode::Window(window_id)]
                &&& c.ratios@ == seq![RATIO_SCALE]
                &&& c.layout == LayoutMode::Split && c.split_direction == old(self).default_direction
                &&& c.focused_child == 0 && c.gap == config.gaps.inner
                &&& final(self).root == Some(id)
                &&& final(self).focused_container == Some(id)
                &&& final(self).next_container_id == if id < u64::MAX { (id + 1) as u64 } else { id }
            },
            old(self).root matches Some(root) ==> {
                let target = match old(self).focused_container {
                    Some(f) => f,
                    None => root,
                };
                &&& final(self).root == old(self).root
                &&& final(self).focused_container == old(self).focused_container
                &&& final(self).next_container_id == old(self).next_container_id
                &&& final(self).containers@.len() == old(self).containers@.len()
                &&& match find_first(old(self).containers@, target, 0) {
                    Some(i) => {
                        let c0 = old(self).containers@[i];
                        let c1 = final(self).containers@[i];
                        &&& forall|j: int| 0 <= j < old(self).containers@.len() && j != i
                            ==> final(self).containers@[j] == old(self).containers@[j]
                        &&& c1.id == c0.id && c1.parent == c0.parent && c1.layout == c0.layout
                        &&& c1.split_direction == c0.split_direction && c1.gap == c0.gap
                        &&& if c0.children@.len() < u32::MAX {
                            let pos = if c0.children@.len() == 0 { 0 } else { c0.focused_child + 1 };
                            &&& c1.children@ == c0.children@.insert(pos, LayoutNode::Window(window_id))
                            &&& c1.ratios@ == equal_shares(c1.children@.len())
                            &&& c1.focused_child == pos
                        } else {
                            c1 == c0
                        }
                    },
                    None => final(self).containers@ == old(self).containers@,
                }
            },
    {
        let node = LayoutNode::Window(window_id);
        match self.root {
            None => {
                let id = self.next_container_id;
                let mut root = Container::new_split(id, self.default_direction);
                root.gap = config.gaps.inner;
                root.add_child(node);
                proof {
                    lemma_equal_shares_one();
                }
                assert(root.ratios@ =~= seq![RATIO_SCALE]);
                self.containers.push(root);
                assert(self.containers@.drop_last() =~= old(self).containers@);
                self.root = Some(id);
                self.focused_container = Some(id);
                self.next_container_id = if id < u64::MAX { id + 1 } else { id };
            },
            Some(root) => {
                let target = match self.focused_container {
                    Some(f) => f,
                    None => root,
                };
                if let Some(i) = self.find_container(target) {
                    proof {
                        lemma_find_first(self.containers@, target, 0);
                        assert(find_first(old(self).containers@, target, 0) == Some(i as int));
                    }
                    let len = self.containers[i].children.len();
                    if len < 4294967295 {
                        let pos = if len == 0 { 0 } else { self.containers[i].focused_child + 1 };
                        let ghost before = self.containers@;
                        let mut c = self.containers.remove(i);
                        c.insert_child(pos, node);
                        c.focused_child = pos;
                        let ghost cg = c;
                        self.containers.insert(i, c);
                        assert(self.containers@ =~= before.update(i as int, cg));
                        assert forall|j: int| 0 <= j < self.containers@.len() implies (#[trigger] self.containers@[j]).wf() by {
                            if j != i {
                                assert(self.containers@[j] == old(self).containers@[j]);
                            }
                        }
                    }
                }
            },
        }
    }

    fn layout_node(&self, node: LayoutNode, g: Geometry, fuel: usize, out: &mut Vec<(WindowId, Geometry)>)
        requires
            self.wf(),
            g.fits(),
        ensures
            final(out)@ == old(out)@ + node_entries(self.containers@, node, g, fuel as nat),
        decreases fuel, 0usize, 0usize,
    {
        match node {
            LayoutNode::Window(w) => {
                out.push((w, g));
                assert(out@ =~= old(out)@ + seq![(w, g)]);
            },
            LayoutNode::Container(id) => {
                if fuel == 0 {
                    assert(old(out)@ + node_entries(self.containers@, node, g, fuel as nat) =~= old(out)@);
                    return;
                }
                match self.find_container(id) {
                    Some(i) => {
                        proof {
                            lemma_find_first(self.containers@, id, 0);
                            assert(find_first(self.containers@, id, 0) == Some(i as int));
                        }
                        self.layout_container(i, g, fuel - 1, out);
                    },
                    None => {
                        assert(old(out)@ + node_entries(self.containers@, node, g, fuel as nat) =~= old(out)@);
                    },
                }
            },
        }
    }

    fn layout_container(&self, i: usize, g: Geometry, fuel: usize, out: &mut Vec<(WindowId, Geometry)>)
        requires
            self.wf(),
            i < self.containers@.len(),
            g.fits(),
        ensures
            final(out)@ == old(out)@ + container_entries(self.containers@, self.containers@[i as int], g, fuel as nat),
        decreases fuel, 2usize, 0usize,
    {
        let n = self.containers[i].children.len();
        if n == 0 {
            assert(old(out)@ + container_entries(self.containers@, self.containers@[i as int], g, fuel as nat) =~= old(out)@);
            return;
        }
        match self.containers[i].layout {
            LayoutMode::Split => {
                self.layout_split(i, g, fuel, out);
            },
            mode => {
                let f = self.containers[i].focused_child;
                if f < n {
                    let header: u64 = match mode {
                        LayoutMode::Stacked => 24 * (n as u64),
                        _ => 24,
                    };
                    let bottom = g.y as i64 + g.height as i64;
                    let y: i64 = if g.y as i64 + (header as i64) <= bottom { g.y as i64 + header as i64 } else { bottom };
                    let h: u64 = if g.height as u64 >= header { g.height as u64 - header } else { 0 };
                    let cg = Geometry::new(g.x, y as i32, g.width, h as u32);
                    assert(cg == content_rect(g, mode, n as int));
                    self.layout_node(self.containers[i].children[f], cg, fuel, out);
                } else {
                    assert(old(out)@ + container_entries(self.containers@, self.containers@[i as int], g, fuel as nat) =~= old(out)@);
                }
            },
        }
    }

    fn layout_split(&self, i: usize, g: Geometry, fuel: usize, out: &mut Vec<(WindowId, Geometry)>)
        requires
            self.wf(),
            i < self.containers@.len(),
            g.fits(),
            self.containers@[i as int].children@.len() > 0,
            self.containers@[i as int].layout == LayoutMode::Split,
        ensures
            final(out)@ == old(out)@ + container_entries(self.containers@, self.containers@[i as int], g, fuel as nat),
        decreases fuel, 1usize, 0usize,
    {
        let ghost cs = self.containers@;
        let ghost c = self.containers@[i as int];
        assert(c.wf());
        let n = self.containers[i].children.len();
        let gap = self.containers[i].gap;
        let dir = self.containers[i].split_direction;
        let horizontal = match dir {
            SplitDirection::Horizontal => true,
            SplitDirection::Vertical => false,
        };
        let start: i64 = if horizontal { g.x as i64 } else { g.y as i64 };
        let length: u64 = if horizontal { g.width as u64 } else { g.height as u64 };
        let end: i64 = start + length as i64;
        proof {
            assert((gap as int) * ((n - 1) as int) <= u64::MAX) by (nonlinear_arith)
                requires gap <= u32::MAX, n - 1 <= u32::MAX, n >= 1;
        }
        let total_gap: u64 = (gap as u64) * ((n - 1) as u64);
        let avail: u64 = if length >= total_gap { length - total_gap } else { 0 };
        assert(avail as int == avail_len(length as int, gap as int, n as int));
        let mut pos: i64 = start;
        let mut k: usize = 0;
        assert(old(out)@ + split_entries(cs, c, g, fuel as nat, 0) =~= old(out)@);
        while k < n
            invariant
                self.wf(),
                cs == self.containers@,
                c == cs[i as int],
                c.wf(),
                i < cs.len(),
                g.fits(),
                n == c.children@.len(),
                n > 0,
                gap == c.gap,
                dir == c.split_direction,
                horizontal == (dir == SplitDirection::Horizontal),
                start == if horizontal { g.x as int } else { g.y as int },
                end == if horizontal { g.right() } else { g.bottom() },
                length == end - start,
                avail as int == avail_len(length as int, gap as int, n as int),
                avail <= length,
                k <= n,
                pos == seg_pos(start as int, end as int, avail as int, gap as int, c.ratios@, k as int),
                out@ == old(out)@ + split_entries(cs, c, g, fuel as nat, k as nat),
            decreases n - k,
        {
            proof {
                lemma_seg_bounds(start as int, end as int, avail as int, gap as int, c.ratios@, k as int);
            }
            let r = self.containers[i].ratios[k];
            proof {
                assert((avail as int) * (r as int) <= (avail as int) * (RATIO_SCALE as int)) by (nonlinear_arith)
                    requires r <= RATIO_SCALE, avail >= 0;
                assert(((avail as int) * (r as int)) / (RATIO_SCALE as int) <= avail as int) by (nonlinear_arith)
                    requires (avail as int) * (r as int) <= (avail as int) * (RATIO_SCALE as int);
                assert(((avail as int) * (r as int)) / (RATIO_SCALE as int) >= 0) by (nonlinear_arith)
                    requires avail >= 0, r >= 0;
            }
            let share: u64 = (avail * (r as u64)) / (RATIO_SCALE as u64);
            let room: i64 = end - pos;
            let size: i64 = if k + 1 < n {
                if (share as i64) <= room { share as i64 } else { room }
            } else {
                room
            };
            assert(size == seg_size(start as int, end as int, avail as int, gap as int, c.ratios@, k as int));
            let child = if horizontal {
                Geometry::new(pos as i32, g.y, g.width, size as u32)
            } else {
                Geometry::new(g.x, pos as i32, g.width, size as u32)
            };
            let child = if horizontal {
                Geometry::new(pos as i32, g.y, size as u32, g.height)
            } else {
                child
            };
            assert(child == split_rect(g, dir, gap, c.ratios@, k as int));
            let node = self.containers[i].children[k];
            self.layout_node(node, child, fuel, out);
            proof {
                assert(split_entries(cs, c, g, fuel as nat, (k + 1) as nat) == split_entries(cs, c, g, fuel as nat, k as nat)
                    + node_entries(cs, node, child, fuel as nat));
                assert(out@ =~= old(out)@ + split_entries(cs, c, g, fuel as nat, (k + 1) as nat));
            }
            let step: i64 = if (share as i64) <= room { share as i64 } else { room };
            let next: i64 = pos + step + gap as i64;
            pos = if next <= end { next } else { end };
            k = k + 1;
        }
    }

    /// Recompute every window rectangle, top-down from the root, inside the
    /// outer gap. The cache is rebuilt from scratch; the tree is unchanged.
    pub fn calculate_layout(&mut self, available: Geometry, outer_gap: u32)
        requires
            old(self).wf(),
            available.fits(),
        ensures
            final(self).wf(),
            laid_out(*old(self), *final(self), available, outer_gap),
    {
        let o = outer_gap as i64;
        let right = available.x as i64 + available.width as i64;
        let bottom = available.y as i64 + available.height as i64;
        let x: i64 = if available.x as i64 + o <= right { available.x as i64 + o } else { right };
        let y: i64 = if available.y as i64 + o <= bottom { available.y as i64 + o } else { bottom };
        let w: u64 = if available.width as u64 >= 2 * (outer_gap as u64) { available.width as u64 - 2 * (outer_gap as u64) } else { 0 };
        let h: u64 = if available.height as u64 >= 2 * (outer_gap as u64) { available.height as u64 - 2 * (outer_gap as u64) } else { 0 };
        let inner = Geometry::new(x as i32, y as i32, w as u32, h as u32);
        assert(inner == inner_rect(available, outer_gap));
        let mut out: Vec<(WindowId, Geometry)> = Vec::new();
        match self.root {
            Some(r) => {
                self.layout_node(LayoutNode::Container(r), inner, self.containers.len(), &mut out);
                assert(out@ =~= tree_entries(self.containers@, self.root, available, outer_gap));
            },
            None => {
                assert(out@ =~= tree_entries(self.containers@, self.root, available, outer_gap));
            },
        }
        self.window_geometries = out;
    }

    /// The rectangle that the last layout pass gave a window.
    pub fn window_geometry(&self, window_id: WindowId) -> (r: Option<Geometry>)
        ensures
            r == lookup_geometry(self.window_geometries@, window_id),
    {
        let mut k: usize = self.window_geometries.len();
        assert(self.window_geometries@.subrange(0, k as int) =~= self.window_geometries@);
        while k > 0
            invariant
                k <= self.window_geometries@.len(),
                lookup_geometry(self.window_geometries@, window_id) == lookup_geometry(
                    self.window_geometries@.subrange(0, k as int),
                    window_id,
                ),
            decreases k,
        {
            let e = self.window_geometries[k - 1];
            let ghost pre = self.window_geometries@.subrange(0, k as int);
            assert(pre.drop_last() =~= self.window_geometries@.subrange(0, k - 1));
            if e.0 == window_id {
                return Some(e.1);
            }
            k = k - 1;
        }
        None
    }

    /// Index of the first container that holds the window directly.
    pub fn find_window_holder(&self, window_id: WindowId) -> (r: Option<usize>)
        ensures
            r == match find_holder(self.containers@, window_id, 0) {
                Some(i) => Some(i as usize),
                None => None::<usize>,
            },
    {
        proof {
            lemma_find_holder(self.containers@, window_id, 0);
        }
        let mut i: usize = 0;
        while i < self.containers.len()
            invariant
                i <= self.containers@.len(),
                find_holder(self.containers@, window_id, 0) == find_holder(self.containers@, window_id, i as int),
            decreases self.containers@.len() - i,
        {
            if self.containers[i].contains_window(window_id) {
                return Some(i);
            }
            i = i + 1;
        }
        None
    }

    /// Remove the container with this id. A removed root leaves the tree
    /// empty; otherwise the container is detached from its parent (one level,
    /// the parent is not pruned in turn).
    fn remove_empty_container(&mut self, container_id: ContainerId)
        requires
            old(self).wf(),
        ensures
            final(self).wf(),
            final(self).window_geometries == old(self).window_geometries,
            final(self).default_direction == old(self).default_direction,
            final(self).next_container_id == old(self).next_container_id,
            pruned(*old(self), *final(self), container_id),
    {
        let i = match self.find_container(container_id) {
            Some(i) => i,
            None => {
                return;
            },
        };
        proof {
            lemma_find_first(self.containers@, container_id, 0);
        }
        let container = self.containers.remove(i);
        assert forall|j: int| 0 <= j < self.containers@.len() implies (#[trigger] self.containers@[j]).wf() by {
            if j < i {
                assert(self.containers@[j] == old(self).containers@[j]);
            } else {
                assert(self.containers@[j] == old(self).containers@[j + 1]);
            }
        }
        if self.root == Some(container_id) {
            self.root = None;
            self.focused_container = None;
            return;
        }
        if let Some(parent_id) = container.parent {
            if let Some(q) = self.find_container(parent_id) {
                proof {
                    lemma_find_first(self.containers@, parent_id, 0);
                }
                let ghost before = self.containers@;
                let mut parent = self.containers.remove(q);
                parent.remove_node(&LayoutNode::Container(container_id));
                let ghost pg = parent;
                self.containers.insert(q, parent);
                assert(self.containers@ =~= before.update(q as int, pg));
                assert forall|j: int| 0 <= j < self.containers@.len() implies (#[trigger] self.containers@[j]).wf() by {
                    if j != q {
                        assert(self.containers@[j] == before[j]);
                    }
                }
            }
        }
    }

    /// Delete a window from the first container that holds it, rebalancing
    /// that container's ratios; a container left empty is removed. The layout
    /// cache is left for the next layout pass to rebuild.
    pub fn remove_window(&mut self, window_id: WindowId) -> (r: bool)
        requires
            old(self).wf(),
        ensures
            r,
            final(self).wf(),
            old(self).flat() ==> final(self).flat(),
            final(self).window_geometries == old(self).window_geometries,
            final(self).default_direction == old(self).default_direction,
            final(self).next_container_id == old(self).next_container_id,
            match find_holder(old(self).containers@, window_id, 0) {
                None => final(self).containers@ == old(self).containers@ && final(self).root == old(self).root
                    && final(self).focused_container == old(self).focused_container,
                Some(k) => {
                    let c0 = old(self).containers@[k];
                    if c0.children@.len() > 1 {
                        &&& final(self).root == old(self).root
                        &&& final(self).focused_container == old(self).focused_container
                        &&& final(self).containers@.len() == old(self).containers@.len()
                        &&& forall|j: int| 0 <= j < old(self).containers@.len() && j != k
                            ==> final(self).containers@[j] == old(self).containers@[j]
                        &&& exists|p: int| 0 <= p < c0.children@.len() && c0.children@[p] == LayoutNode::Window(window_id)
                            && final(self).containers@[k].children@ == c0.children@.remove(p)
                        &&& final(self).containers@[k].id == c0.id
                        &&& final(self).containers@[k].parent == c0.parent
                        &&& final(self).containers@[k].ratios@ == equal_shares(final(self).containers@[k].children@.len())
                    } else {
                        exists|mid: LayoutTree| #[trigger] mid.containers@.len() == old(self).containers@.len()
                            && mid.root == old(self).root
                            && mid.focused_container == old(self).focused_container
                            && mid.containers@[k].id == c0.id
                            && mid.containers@[k].children@.len() == 0
                            && (forall|j: int| 0 <= j < old(self).containers@.len() && j != k
                                ==> mid.containers@[j] == old(self).containers@[j])
                            && pruned(mid, *final(self), c0.id)
                    }
                },
            },
    {
        let node = LayoutNode::Window(window_id);
        let i = match self.find_window_holder(window_id) {
            Some(i) => i,
            None => {
                return true;
            },
        };
        let _n = self.containers.len();
        proof {
            lemma_find_holder(self.containers@, window_id, 0);
            let fh = find_holder(self.containers@, window_id, 0);
            assert(fh is Some);
            assert(0 <= fh->0 < self.containers@.len());
            assert(self.containers@.len() <= usize::MAX);
            assert(fh->0 as usize == i);
            assert(fh->0 == i as int);
            assert(fh == Some(i as int));
        }
        let ghost before = self.containers@;
        let mut c = self.containers.remove(i);
        c.remove_node(&node);
        let id = c.id;
        let empty = c.is_empty();
        let ghost cg = c;
        self.containers.insert(i, c);
        assert(self.containers@ =~= before.update(i as int, cg));
        assert forall|j: int| 0 <= j < self.containers@.len() implies (#[trigger] self.containers@[j]).wf() by {
            if j != i {
                assert(self.containers@[j] == before[j]);
            }
        }
        if empty {
            let ghost mid = *self;
            self.remove_empty_container(id);
            assert(mid.containers@.len() == old(self).containers@.len());
            assert(before[i as int].children@.len() <= 1);
        } else {
            assert(before[i as int].children@.len() > 1);
        }
        true
    }

    /// Move focus within the focused container (left/up: previous, right/down:
    /// next, wrapping) and return the newly focused window, descending into the
    /// first window of a focused child container.
    pub fn focus_direction(&mut self, direction: Direction) -> (r: Option<WindowId>)
        requires
            old(self).wf(),
        ensures
            final(self).wf(),
            final(self).root == old(self).root,
            final(self).focused_container == old(self).focused_container,
            final(self).window_geometries == old(self).window_geometries,
            final(self).containers@.len() == old(self).containers@.len(),
            match old(self).focused_container {
                None => r is None && final(self).containers@ == old(self).containers@,
                Some(cid) => match find_first(old(self).containers@, cid, 0) {
                    None => r is None && final(self).containers@ == old(self).containers@,
                    Some(k) => {
                        let c0 = old(self).containers@[k];
                        let c1 = final(self).containers@[k];
                        let n = c0.children@.len();
                        &&& forall|j: int| 0 <= j < old(self).containers@.len() && j != k
                            ==> final(self).containers@[j] == old(self).containers@[j]
                        &&& c1.children == c0.children && c1.ratios == c0.ratios && c1.id == c0.id
                        &&& c1.focused_child == if n == 0 {
                            c0.focused_child
                        } else if direction is Left || direction is Up {
                            if c0.focused_child == 0 { (n - 1) as usize } else { (c0.focused_child - 1) as usize }
                        } else {
                            ((c0.focused_child + 1) % (n as int)) as usize
                        }
                        &&& r == if n == 0 {
                            None
                        } else {
                            match c0.children@[c1.focused_child as int] {
                                LayoutNode::Window(w) => Some(w),
                                LayoutNode::Container(sub) => first_window(final(self).containers@, sub, final(self).containers@.len()),
                            }
                        }
                    },
                },
            },
    {
        let cid = match self.focused_container {
            Some(c) => c,
            None => {
                return None;
            },
        };
        let k = match self.find_container(cid) {
            Some(k) => k,
            None => {
                return None;
            },
        };
        proof {
            lemma_find_first(self.containers@, cid, 0);
        }
        let ghost before = self.containers@;
        let mut c = self.containers.remove(k);
        match direction {
            Direction::Left | Direction::Up => c.focus_prev(),
            Direction::Right | Direction::Down => c.focus_next(),
        }
        let ghost cg = c;
        self.containers.insert(k, c);
        assert(self.containers@ =~= before.update(k as int, cg));
        assert forall|j: int| 0 <= j < self.containers@.len() implies (#[trigger] self.containers@[j]).wf() by {
            if j != k {
                assert(self.containers@[j] == before[j]);
            }
        }
        match self.containers[k].focused() {
            Some(LayoutNode::Window(id)) => Some(*id),
            Some(LayoutNode::Container(id)) => self.first_window_in_container(*id, self.containers.len()),
            None => None,
        }
    }

    /// The window reached by always descending into the first child.
    fn first_window_in_container(&self, container_id: ContainerId, fuel: usize) -> (r: Option<WindowId>)
        ensures
            r == first_window(self.containers@, container_id, fuel as nat),
        decreases fuel,
    {
        if fuel == 0 {
            return None;
        }
        let k = match self.find_container(container_id) {
            Some(k) => k,
            None => {
                return None;
            },
        };
        proof {
            lemma_find_first(self.containers@, container_id, 0);
        }
        if self.containers[k].children.len() == 0 {
            return None;
        }
        match self.containers[k].children[0] {
            LayoutNode::Window(id) => Some(id),
            LayoutNode::Container(id) => self.first_window_in_container(id, fuel - 1),
        }
    }

    /// Flip the split direction of the focused container.
    pub fn toggle_split(&mut self)
        requires
            old(self).wf(),
        ensures
            final(self).wf(),
            final(self).root == old(self).root,
            final(self).focused_container == old(self).focused_container,
            final(self).containers@.len() == old(self).containers@.len(),
            forall|j: int| 0 <= j < old(self).containers@.len() ==> {
                let c0 = #[trigger] old(self).containers@[j];
                let c1 = final(self).containers@[j];
                &&& c1.children == c0.children && c1.ratios == c0.ratios && c1.id == c0.id
                &&& c1.focused_child == c0.focused_child && c1.layout == c0.layout
                &&& c1.split_direction == if old(self).focused_container is Some
                    && find_first(old(self).containers@, old(self).focused_container->0, 0) == Some(j) {
                    match c0.split_direction {
                        SplitDirection::Horizontal => SplitDirection::Vertical,
                        SplitDirection::Vertical => SplitDirection::Horizontal,
                    }
                } else {
                    c0.split_direction
                }
            },
    {
        if let Some(cid) = self.focused_container {
            if let Some(k) = self.find_container(cid) {
                proof {
                    lemma_find_first(self.containers@, cid, 0);
                }
                let ghost before = self.containers@;
                let mut c = self.containers.remove(k);
                c.split_direction = c.split_direction.toggle();
                let ghost cg = c;
                self.containers.insert(k, c);
                assert(self.containers@ =~= before.update(k as int, cg));
                assert forall|j: int| 0 <= j < self.containers@.len() implies (#[trigger] self.containers@[j]).wf() by {
                    if j != k {
                        assert(self.containers@[j] == before[j]);
                    }
                }
            }
        }
    }
}

/// Direction for focus and move operations.
#[derive(Debug, Clone, Copy, PartialEq, Eq, Structural)]
pub enum Direction {
    Left,
    Right,
    Up,
    Down,
}

impl Direction {
    pub fn opposite(self) -> (r: Self)
        ensures
            r == match self {
                Direction::Left => Direction::Right,
                Direction::Right => Direction::Left,
                Direction::Up => Direction::Down,
                Direction::Down => Direction::Up,
            },
    {
        match self {
            Direction::Left => Direction::Right,
            Direction::Right => Direction::Left,
            Direction::Up => Direction::Down,
            Direction::Down => Direction::Up,
        }
    }

    pub fn is_horizontal(self) -> (r: bool)
        ensures
            r == (self is Left || self is Right),
    {
        match self {
            Direction::Left | Direction::Right => true,
            _ => false,
        }
    }

    pub fn is_vertical(self) -> (r: bool)
        ensures
            r == (self is Up || self is Down),
    {
        match self {
            Direction::Up | Direction::Down => true,
            _ => false,
        }
    }
}

} // verus!
