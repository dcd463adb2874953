use vstd::prelude::*;
use crate::bounds::{spec_max, Anchor, Bounds};
use crate::keyed::KeyedList;
use crate::muxbox::MuxBox;

verus! {

/// Bounds by box id.
pub type BoundsMap = Map<Seq<char>, Bounds>;

/// `extend`, or `None` where it would overflow or leave the corners out of order.
pub open spec fn checked_extend(b: Bounds, h: usize, v: usize, anchor: Anchor) -> Option<Bounds> {
    if b.extend_fits(h, v, anchor) && b.spec_extended(h, v, anchor).wf() {
        Some(b.spec_extended(h, v, anchor))
    } else {
        None
    }
}

/// `contract`, or `None` where it would overflow or leave the corners out of order.
pub open spec fn checked_contract(b: Bounds, h: usize, v: usize, anchor: Anchor) -> Option<Bounds> {
    if b.contract_fits(h, v, anchor) && b.spec_contracted(h, v, anchor).wf() {
        Some(b.spec_contracted(h, v, anchor))
    } else {
        None
    }
}

/// Widens a box narrower than its minimum width.
pub open spec fn grow_width(ob: Option<Bounds>, limit: Option<usize>, anchor: Anchor) -> Option<Bounds> {
    match (ob, limit) {
        (Some(b), Some(m)) => if b.spec_width() < m {
            checked_extend(b, (m - b.spec_width()) as usize, 0, anchor)
        } else {
            Some(b)
        },
        _ => ob,
    }
}

/// Heightens a box lower than its minimum height.
pub open spec fn grow_height(ob: Option<Bounds>, limit: Option<usize>, anchor: Anchor) -> Option<Bounds> {
    match (ob, limit) {
        (Some(b), Some(m)) => if b.spec_height() < m {
            checked_extend(b, 0, (m - b.spec_height()) as usize, anchor)
        } else {
            Some(b)
        },
        _ => ob,
    }
}

/// Narrows a box wider than its maximum width.
pub open spec fn shrink_width(ob: Option<Bounds>, limit: Option<usize>, anchor: Anchor) -> Option<Bounds> {
    match (ob, limit) {
        (Some(b), Some(m)) => if b.spec_width() > m {
            checked_contract(b, (b.spec_width() - m) as usize, 0, anchor)
        } else {
            Some(b)
        },
        _ => ob,
    }
}

/// Lowers a box higher than its maximum height.
pub open spec fn shrink_height(ob: Option<Bounds>, limit: Option<usize>, anchor: Anchor) -> Option<Bounds> {
    match (ob, limit) {
        (Some(b), Some(m)) => if b.spec_height() > m {
            checked_contract(b, 0, (b.spec_height() - m) as usize, anchor)
        } else {
            Some(b)
        },
        _ => ob,
    }
}

/// The bounds after the box's limits are applied in turn: minimum width,
/// minimum height, maximum width, maximum height; `None` where a step would
/// overflow or leave the corners out of order.
pub open spec fn constrained(b: Bounds, node: MuxBox) -> Option<Bounds> {
    shrink_height(
        shrink_width(
            grow_height(grow_width(Some(b), node.min_width, node.anchor), node.min_height, node.anchor),
            node.max_width,
            node.anchor,
        ),
        node.max_height,
        node.anchor,
    )
}

/// `b` stretched to reach the right and bottom edges of `c`.
pub open spec fn stretched(b: Bounds, c: Bounds) -> Bounds {
    Bounds { x2: spec_max(b.x2, c.x2), y2: spec_max(b.y2, c.y2), ..b }
}

/// Visiting a box: its bounds are read from the map, constrained and stored
/// back; then its children are visited in order, and the box's bounds are
/// stretched over what each child answers. Answers the map and the
/// stretched bounds; `None` where a box has no bounds or a step would fail.
pub open spec fn visited(node: MuxBox, m: BoundsMap) -> Option<(BoundsMap, Bounds)>
    decreases node, node.children@.len() + 1,
{
    if m.contains_key(node.id@) {
        match constrained(m[node.id@], node) {
            Some(b) => visited_children(node, 0, m.insert(node.id@, b), b),
            None => None,
        }
    } else {
        None
    }
}

/// Visiting the children of `node` from the `i`-th on.
pub open spec fn visited_children(node: MuxBox, i: int, m: BoundsMap, b: Bounds) -> Option<(BoundsMap, Bounds)>
    decreases node, node.children@.len() - i,
{
    if 0 <= i < node.children@.len() {
        match visited(node.children@[i], m) {
            Some((m2, cb)) => visited_children(node, i + 1, m2, stretched(b, cb)),
            None => None,
        }
    } else {
        Some((m, b))
    }
}

/// `c` moved inside `p` side by side: right, bottom, left, then top.
pub open spec fn clamped(c: Bounds, p: Bounds) -> Bounds {
    Bounds {
        x1: if c.x1 < p.x1 { p.x1 } else { c.x1 },
        y1: if c.y1 < p.y1 { p.y1 } else { c.y1 },
        x2: if c.x2 > p.x2 { p.x2 } else { c.x2 },
        y2: if c.y2 > p.y2 { p.y2 } else { c.y2 },
    }
}

/// Clamping the bounds of every box below `node` (not `node` itself) into
/// `p`, children before their own children, in order.
pub open spec fn revalidated(node: MuxBox, m: BoundsMap, p: Bounds) -> BoundsMap
    decreases node, node.children@.len() + 1,
{
    revalidated_children(node, 0, m, p)
}

pub open spec fn revalidated_children(node: MuxBox, i: int, m: BoundsMap, p: Bounds) -> BoundsMap
    decreases node, node.children@.len() - i,
{
    if 0 <= i < node.children@.len() {
        let child = node.children@[i];
        let m1 = if m.contains_key(child.id@) {
            m.insert(child.id@, clamped(m[child.id@], p))
        } else {
            m
        };
        revalidated_children(node, i + 1, revalidated(child, m1, p), p)
    } else {
        m
    }
}

/// The sizing pass over the top-level boxes from the `i`-th on: each is
/// visited, then everything below it is clamped into its stretched bounds.
pub open spec fn adjusted_from(roots: Seq<MuxBox>, i: int, m: BoundsMap) -> Option<BoundsMap>
    decreases roots.len() - i,
{
    if 0 <= i < roots.len() {
        match visited(roots[i], m) {
            Some((m1, pb)) => adjusted_from(roots, i + 1, revalidated(roots[i], m1, pb)),
            None => None,
        }
    } else {
        Some(m)
    }
}

/// The sizing pass over a layout's top-level boxes.
pub open spec fn adjusted(roots: Seq<MuxBox>, m: BoundsMap) -> Option<BoundsMap> {
    adjusted_from(roots, 0, m)
}

fn apply_min_width(b: &mut Bounds, limit: Option<usize>, anchor: Anchor)
    requires
        grow_width(Some(*old(b)), limit, anchor) is Some,
    ensures
        grow_width(Some(*old(b)), limit, anchor) == Some(*final(b)),
{
    if let Some(m) = limit {
        let w = b.width();
        if w < m {
            b.extend(m - w, 0, anchor);
        }
    }
}

fn apply_min_height(b: &mut Bounds, limit: Option<usize>, anchor: Anchor)
    requires
        grow_height(Some(*old(b)), limit, anchor) is Some,
    ensures
        grow_height(Some(*old(b)), limit, anchor) == Some(*final(b)),
{
    if let Some(m) = limit {
        let h = b.height();
        if h < m {
            b.extend(0, m - h, anchor);
        }
    }
}

fn apply_max_width(b: &mut Bounds, limit: Option<usize>, anchor: Anchor)
    requires
        shrink_width(Some(*old(b)), limit, anchor) is Some,
    ensures
        shrink_width(Some(*old(b)), limit, anchor) == Some(*final(b)),
{
    if let Some(m) = limit {
        let w = b.width();
        if w > m {
            b.contract(w - m, 0, anchor);
        }
    }
}

fn apply_max_height(b: &mut Bounds, limit: Option<usize>, anchor: Anchor)
    requires
        shrink_height(Some(*old(b)), limit, anchor) is Some,
    ensures
        shrink_height(Some(*old(b)), limit, anchor) == Some(*final(b)),
{
    if let Some(m) = limit {
        let h = b.height();
        if h > m {
            b.contract(0, h - m, anchor);
        }
    }
}

/// Applies the box's size limits to `b`: minimum width, minimum height,
/// maximum width, then maximum height.
pub fn apply_constraints(node: &MuxBox, b: &mut Bounds)
    requires
        constrained(*old(b), *node) is Some,
    ensures
        constrained(*old(b), *node) == Some(*final(b)),
{
    let anchor = node.anchor;
    apply_min_width(b, node.min_width, anchor);
    apply_min_height(b, node.min_height, anchor);
    apply_max_width(b, node.max_width, anchor);
    apply_max_height(b, node.max_height, anchor);
}

fn stretch(b: &mut Bounds, c: &Bounds)
    ensures
        *final(b) == stretched(*old(b), *c),
{
    if c.x2 > b.x2 {
        b.x2 = c.x2;
    }
    if c.y2 > b.y2 {
        b.y2 = c.y2;
    }
}

/// Visits a box and its children; answers the box's stretched bounds.
fn visit(node: &MuxBox, map: &mut KeyedList<Bounds>) -> (r: Bounds)
    requires
        visited(*node, old(map)@) is Some,
    ensures
        visited(*node, old(map)@) == Some((final(map)@, r)),
    decreases node,
{
    let mut b = match map.get(node.id.as_str()) {
        Some(found) => *found,
        None => {
            return Bounds { x1: 0, y1: 0, x2: 0, y2: 0 };
        },
    };
    apply_constraints(node, &mut b);
    map.insert(node.id.as_str(), b);
    let ghost start = old(map)@;
    let mut i: usize = 0;
    while i < node.children.len()
        invariant
            i <= node.children@.len(),
            visited(*node, start) == visited_children(*node, i as int, map@, b),
            visited(*node, start) is Some,
        decreases node.children@.len() - i,
    {
        let child = &node.children[i];
        let cb = visit(child, map);
        stretch(&mut b, &cb);
        i = i + 1;
    }
    b
}

fn clamp(c: &mut Bounds, p: &Bounds)
    ensures
        *final(c) == clamped(*old(c), *p),
{
    if c.x2 > p.x2 {
        c.x2 = p.x2;
    }
    if c.y2 > p.y2 {
        c.y2 = p.y2;
    }
    if c.x1 < p.x1 {
        c.x1 = p.x1;
    }
    if c.y1 < p.y1 {
        c.y1 = p.y1;
    }
}

/// Clamps the bounds of every box below `node` into `p`.
fn revalidate_children(node: &MuxBox, map: &mut KeyedList<Bounds>, p: &Bounds)
    ensures
        final(map)@ == revalidated(*node, old(map)@, *p),
    decreases node,
{
    let ghost start = old(map)@;
    let mut i: usize = 0;
    while i < node.children.len()
        invariant
            i <= node.children@.len(),
            revalidated(*node, start, *p) == revalidated_children(*node, i as int, map@, *p),
        decreases node.children@.len() - i,
    {
        let child = &node.children[i];
        match map.get(child.id.as_str()) {
            Some(found) => {
                let mut c = *found;
                clamp(&mut c, p);
                map.insert(child.id.as_str(), c);
            },
            None => {},
        }
        revalidate_children(child, map, p);
        i = i + 1;
    }
}

/// Applies the size limits of the boxes of a layout (its top-level boxes
/// `roots` and everything below them) to their bounds in `bounds_map`, and
/// keeps each box below a top-level box inside that box's bounds.
pub fn adjust_bounds_with_constraints(roots: &Vec<MuxBox>, bounds_map: KeyedList<Bounds>) -> (r: KeyedList<
    Bounds,
>)
    requires
        adjusted(roots@, bounds_map@) is Some,
    ensures
        adjusted(roots@, bounds_map@) == Some(r@),
{
    let mut map = bounds_map;
    let ghost start = bounds_map@;
    let mut i: usize = 0;
    while i < roots.len()
        invariant
            i <= roots@.len(),
            adjusted(roots@, start) == adjusted_from(roots@, i as int, map@),
            adjusted(roots@, start) is Some,
        decreases roots@.len() - i,
    {
        let root = &roots[i];
        let parent_bounds = visit(root, &mut map);
        revalidate_children(root, &mut map, &parent_bounds);
        i = i + 1;
    }
    map
}

fn extend_amounts_of(h: usize, v: usize, anchor: Anchor) -> (r: (usize, usize, usize, usize))
    ensures
        r == Bounds::extend_amounts(h, v, anchor),
{
    let hh = h / 2;
    let hv = v / 2;
    match anchor {
        Anchor::TopLeft => (h, v, 0, 0),
        Anchor::TopRight => (0, v, h, 0),
        Anchor::BottomLeft => (h, 0, 0, v),
        Anchor::BottomRight => (0, 0, h, v),
        Anchor::Center => (hh, hv, hh, hv),
        Anchor::CenterTop => (hh, v, hh, 0),
        Anchor::CenterBottom => (hh, 0, hh, v),
        Anchor::CenterLeft => (h, hv, 0, hv),
        Anchor::CenterRight => (0, hv, h, hv),
    }
}

/// `extend`, or `None` where it would overflow or leave the corners out of
/// order.
fn try_extend(b: &Bounds, h: usize, v: usize, anchor: Anchor) -> (r: Option<Bounds>)
    ensures
        r == checked_extend(*b, h, v, anchor),
{
    let (l, t, rr, bb) = extend_amounts_of(h, v, anchor);
    if b.x2 > usize::MAX - rr || b.y2 > usize::MAX - bb {
        return None;
    }
    let c = Bounds { x1: b.x1.saturating_sub(l), y1: b.y1.saturating_sub(t), x2: b.x2 + rr, y2: b.y2 + bb };
    if c.x1 <= c.x2 && c.y1 <= c.y2 {
        Some(c)
    } else {
        None
    }
}

/// `contract`, or `None` where it would overflow or leave the corners out of
/// order.
fn try_contract(b: &Bounds, h: usize, v: usize, anchor: Anchor) -> (r: Option<Bounds>)
    ensures
        r == checked_contract(*b, h, v, anchor),
{
    let (l, t, rr, bb) = extend_amounts_of(h, v, anchor);
    if b.x1 > usize::MAX - l || b.y1 > usize::MAX - t {
        return None;
    }
    let c = Bounds { x1: b.x1 + l, y1: b.y1 + t, x2: b.x2.saturating_sub(rr), y2: b.y2.saturating_sub(bb) };
    if c.x1 <= c.x2 && c.y1 <= c.y2 {
        Some(c)
    } else {
        None
    }
}

/// The box's size limits applied to `b` (see `constrained`), or `None` where
/// a step would overflow or leave the corners out of order.
pub fn try_apply_constraints(node: &MuxBox, b: &Bounds) -> (r: Option<Bounds>)
    ensures
        r == constrained(*b, *node),
{
    let anchor = node.anchor;
    let mut c = *b;
    if let Some(m) = node.min_width {
        let w = c.width();
        if w < m {
            match try_extend(&c, m - w, 0, anchor) {
                Some(n) => c = n,
                None => return None,
            }
        }
    }
    if let Some(m) = node.min_height {
        let h = c.height();
        if h < m {
            match try_extend(&c, 0, m - h, anchor) {
                Some(n) => c = n,
                None => return None,
            }
        }
    }
    if let Some(m) = node.max_width {
        let w = c.width();
        if w > m {
            match try_contract(&c, w - m, 0, anchor) {
                Some(n) => c = n,
                None => return None,
            }
        }
    }
    if let Some(m) = node.max_height {
        let h = c.height();
        if h > m {
            match try_contract(&c, 0, h - m, anchor) {
                Some(n) => c = n,
                None => return None,
            }
        }
    }
    Some(c)
}

/// Like `visit`, but answers `None`, with the map partly updated, where the
/// box is missing from the map or its limits cannot be applied.
fn try_visit(node: &MuxBox, map: &mut KeyedList<Bounds>) -> (r: Option<Bounds>)
    ensures
        r is Some <==> visited(*node, old(map)@) is Some,
        r matches Some(b) ==> visited(*node, old(map)@) == Some((final(map)@, b)),
    decreases node,
{
    let found = match map.get(node.id.as_str()) {
        Some(found) => *found,
        None => {
            return None;
        },
    };
    let mut b = match try_apply_constraints(node, &found) {
        Some(c) => c,
        None => {
            return None;
        },
    };
    map.insert(node.id.as_str(), b);
    let ghost start = old(map)@;
    let mut i: usize = 0;
    while i < node.children.len()
        invariant
            i <= node.children@.len(),
            start == old(map)@,
            visited(*node, start) == visited_children(*node, i as int, map@, b),
        decreases node.children@.len() - i,
    {
        let child = &node.children[i];
        let ghost mb = map@;
        match try_visit(child, map) {
            Some(cb) => stretch(&mut b, &cb),
            None => {
                assert(visited_children(*node, i as int, mb, b) is None);
                return None;
            },
        }
        i = i + 1;
    }
    Some(b)
}

/// The sizing pass (see `adjust_bounds_with_constraints`), or `None` where
/// a box is missing from the map or its limits cannot be applied.
pub fn try_adjust_bounds_with_constraints(roots: &Vec<MuxBox>, bounds_map: KeyedList<Bounds>) -> (r: Option<
    KeyedList<Bounds>,
>)
    ensures
        match r {
            Some(m) => adjusted(roots@, bounds_map@) == Some(m@),
            None => adjusted(roots@, bounds_map@) is None,
        },
{
    let mut map = bounds_map;
    let ghost start = bounds_map@;
    let mut i: usize = 0;
    while i < roots.len()
        invariant
            i <= roots@.len(),
            start == bounds_map@,
            adjusted(roots@, start) == adjusted_from(roots@, i as int, map@),
        decreases roots@.len() - i,
    {
        let root = &roots[i];
        let ghost mb = map@;
        match try_visit(root, &mut map) {
            Some(parent_bounds) => revalidate_children(root, &mut map, &parent_bounds),
            None => {
                assert(adjusted_from(roots@, i as int, mb) is None);
                return None;
            },
        }
        i = i + 1;
    }
    Some(map)
}

/// Ids of the boxes below `node` (not `node` itself).
pub open spec fn below(node: MuxBox) -> Set<Seq<char>>
    decreases node, node.children@.len() + 1,
{
    below_from(node, 0)
}

/// Ids of the boxes in and below the children of `node` from the `i`-th on.
pub open spec fn below_from(node: MuxBox, i: int) -> Set<Seq<char>>
    decreases node, node.children@.len() - i,
{
    if 0 <= i < node.children@.len() {
        below_from(node, i + 1).insert(node.children@[i].id@).union(below(node.children@[i]))
    } else {
        Set::empty()
    }
}

/// `c` lies within `p`.
pub open spec fn inside(c: Bounds, p: Bounds) -> bool {
    p.x1 <= c.x1 && c.x2 <= p.x2 && p.y1 <= c.y1 && c.y2 <= p.y2
}

proof fn lemma_clamped_inside(c: Bounds, p: Bounds)
    ensures
        inside(clamped(c, p), p),
        inside(c, p) ==> clamped(c, p) == c,
{
}

proof fn lemma_revalidated(node: MuxBox, m: BoundsMap, p: Bounds)
    ensures
        revalidated(node, m, p).dom() == m.dom(),
        forall|k: Seq<char>| #[trigger] m.contains_key(k) ==> (revalidated(node, m, p)[k] == m[k] || inside(revalidated(node, m, p)[k], p)),
        forall|k: Seq<char>| #[trigger] m.contains_key(k) && !below(node).contains(k) ==> revalidated(node, m, p)[k] == m[k],
        forall|k: Seq<char>| #[trigger] m.contains_key(k) && below(node).contains(k) ==> inside(revalidated(node, m, p)[k], p),
    decreases node, node.children@.len() + 1,
{
    lemma_revalidated_children(node, 0, m, p);
}

proof fn lemma_revalidated_children(node: MuxBox, i: int, m: BoundsMap, p: Bounds)
    requires
        0 <= i,
    ensures
        revalidated_children(node, i, m, p).dom() == m.dom(),
        forall|k: Seq<char>| #[trigger] m.contains_key(k) ==> (revalidated_children(node, i, m, p)[k] == m[k] || inside(
            revalidated_children(node, i, m, p)[k],
            p,
        )),
        forall|k: Seq<char>| #[trigger] m.contains_key(k) && !below_from(node, i).contains(k) ==> revalidated_children(node, i, m, p)[k]
            == m[k],
        forall|k: Seq<char>| #[trigger] m.contains_key(k) && below_from(node, i).contains(k) ==> inside(
            revalidated_children(node, i, m, p)[k],
            p,
        ),
    decreases node, node.children@.len() - i,
{
    if i < node.children@.len() {
        let child = node.children@[i];
        let m1 = if m.contains_key(child.id@) {
            m.insert(child.id@, clamped(m[child.id@], p))
        } else {
            m
        };
        assert(m1.dom() =~= m.dom());
        lemma_clamped_inside(m[child.id@], p);
        lemma_revalidated(child, m1, p);
        let m2 = revalidated(child, m1, p);
        lemma_revalidated_children(node, i + 1, m2, p);
        let m3 = revalidated_children(node, i + 1, m2, p);
        assert(m3 == revalidated_children(node, i, m, p));
        assert forall|k: Seq<char>| #[trigger] m.contains_key(k) implies (m3[k] == m[k] || inside(m3[k], p)) by {
            assert(m1.contains_key(k));
            assert(m2.contains_key(k));
        }
        assert forall|k: Seq<char>| #[trigger] m.contains_key(k) && !below_from(node, i).contains(k) implies m3[k]
            == m[k] by {
            assert(m1.contains_key(k));
            assert(m2.contains_key(k));
        }
        assert forall|k: Seq<char>| #[trigger] m.contains_key(k) && below_from(node, i).contains(k) implies inside(
            m3[k],
            p,
        ) by {
            assert(m1.contains_key(k));
            assert(m2.contains_key(k));
            if below_from(node, i + 1).contains(k) {
            } else if below(child).contains(k) {
            } else {
                assert(k == child.id@);
            }
        }
    }
}

proof fn lemma_visited_dom(node: MuxBox, m: BoundsMap)
    ensures
        visited(node, m) matches Some((m2, _)) ==> m2.dom() == m.dom(),
    decreases node, node.children@.len() + 1,
{
    if m.contains_key(node.id@) {
        if let Some(b) = constrained(m[node.id@], node) {
            assert(m.insert(node.id@, b).dom() =~= m.dom());
            lemma_visited_children_dom(node, 0, m.insert(node.id@, b), b);
        }
    }
}

proof fn lemma_visited_children_dom(node: MuxBox, i: int, m: BoundsMap, b: Bounds)
    ensures
        visited_children(node, i, m, b) matches Some((m2, _)) ==> m2.dom() == m.dom(),
    decreases node, node.children@.len() - i,
{
    if 0 <= i < node.children@.len() {
        lemma_visited_dom(node.children@[i], m);
        if let Some((m2, cb)) = visited(node.children@[i], m) {
            lemma_visited_children_dom(node, i + 1, m2, stretched(b, cb));
        }
    }
}

proof fn lemma_adjusted_from_dom(roots: Seq<MuxBox>, i: int, m: BoundsMap)
    ensures
        adjusted_from(roots, i, m) matches Some(r) ==> r.dom() == m.dom(),
    decreases roots.len() - i,
{
    if 0 <= i < roots.len() {
        lemma_visited_dom(roots[i], m);
        if let Some((m1, pb)) = visited(roots[i], m) {
            lemma_revalidated(roots[i], m1, pb);
            lemma_adjusted_from_dom(roots, i + 1, revalidated(roots[i], m1, pb));
        }
    }
}

/// The sizing pass changes the bounds of boxes, never which boxes have
/// bounds.
pub proof fn law_adjust_keeps_boxes(roots: Seq<MuxBox>, m: BoundsMap)
    requires
        adjusted(roots, m) is Some,
    ensures
        adjusted(roots, m)->0.dom() == m.dom(),
{
    lemma_adjusted_from_dom(roots, 0, m);
}

/// Every box below a top-level box ends within the bounds of that top-level
/// box, as stretched over its children.
pub proof fn law_children_inside_top_box(root: MuxBox, m: BoundsMap, k: Seq<char>)
    requires
        adjusted(seq![root], m) is Some,
        below(root).contains(k),
        m.contains_key(k),
    ensures
        inside(adjusted(seq![root], m)->0[k], (visited(root, m)->0).1),
{
    let roots = seq![root];
    lemma_visited_dom(root, m);
    let (m1, pb) = visited(root, m)->0;
    lemma_revalidated(root, m1, pb);
    assert(adjusted_from(roots, 1, revalidated(root, m1, pb)) == Some(revalidated(root, m1, pb)));
    assert(m1.contains_key(k));
}

/// Ids of the boxes of a layout's top-level boxes from the `i`-th on, and of
/// everything below them.
pub open spec fn layout_ids(roots: Seq<MuxBox>, i: int) -> Set<Seq<char>>
    decreases roots.len() - i,
{
    if 0 <= i < roots.len() {
        layout_ids(roots, i + 1).union(below(roots[i]).insert(roots[i].id@))
    } else {
        Set::empty()
    }
}

proof fn lemma_visited_untouched(node: MuxBox, m: BoundsMap)
    ensures
        visited(node, m) matches Some((m2, _)) ==> forall|k: Seq<char>| #[trigger] m.contains_key(k) && k != node.id@
            && !below(node).contains(k) ==> m2[k] == m[k],
    decreases node, node.children@.len() + 1,
{
    if m.contains_key(node.id@) {
        if let Some(b) = constrained(m[node.id@], node) {
            let m1 = m.insert(node.id@, b);
            lemma_visited_children_untouched(node, 0, m1, b);
            if let Some((m2, _)) = visited_children(node, 0, m1, b) {
                assert forall|k: Seq<char>| #[trigger] m.contains_key(k) && k != node.id@ && !below(node).contains(k) implies m2[k]
                    == m[k] by {
                    assert(m1.contains_key(k));
                    assert(m1[k] == m[k]);
                }
            }
        }
    }
}

proof fn lemma_visited_children_untouched(node: MuxBox, i: int, m: BoundsMap, b: Bounds)
    requires
        0 <= i,
    ensures
        visited_children(node, i, m, b) matches Some((m2, _)) ==> forall|k: Seq<char>| #[trigger] m.contains_key(k)
            && !below_from(node, i).contains(k) ==> m2[k] == m[k],
    decreases node, node.children@.len() - i,
{
    if i < node.children@.len() {
        let child = node.children@[i];
        lemma_visited_untouched(child, m);
        lemma_visited_dom(child, m);
        if let Some((m2, cb)) = visited(child, m) {
            lemma_visited_children_untouched(node, i + 1, m2, stretched(b, cb));
            if let Some((m3, _)) = visited_children(node, i + 1, m2, stretched(b, cb)) {
                assert forall|k: Seq<char>| #[trigger] m.contains_key(k) && !below_from(node, i).contains(k) implies m3[k]
                    == m[k] by {
                    assert(m2.contains_key(k));
                }
            }
        }
    }
}

proof fn lemma_adjusted_from_untouched(roots: Seq<MuxBox>, i: int, m: BoundsMap, k: Seq<char>)
    requires
        0 <= i,
        m.contains_key(k),
        !layout_ids(roots, i).contains(k),
    ensures
        adjusted_from(roots, i, m) matches Some(r) ==> r[k] == m[k],
    decreases roots.len() - i,
{
    if i < roots.len() {
        lemma_visited_dom(roots[i], m);
        lemma_visited_untouched(roots[i], m);
        if let Some((m1, pb)) = visited(roots[i], m) {
            assert(m1.contains_key(k));
            lemma_revalidated(roots[i], m1, pb);
            let m2 = revalidated(roots[i], m1, pb);
            lemma_adjusted_from_untouched(roots, i + 1, m2, k);
        }
    }
}

/// The sizing pass leaves alone the bounds of ids that no box of the layout has.
pub proof fn law_adjust_leaves_other_boxes(roots: Seq<MuxBox>, m: BoundsMap, k: Seq<char>)
    requires
        adjusted(roots, m) is Some,
        m.contains_key(k),
        !layout_ids(roots, 0).contains(k),
    ensures
        adjusted(roots, m)->0[k] == m[k],
{
    lemma_adjusted_from_untouched(roots, 0, m, k);
}

/// Placing a box inside `parent`: its position gives its bounds, which are
/// stored under its id; its children are placed inside those bounds, in
/// order. `None` where a position does not resolve.
pub open spec fn placed(node: MuxBox, parent: Bounds, m: BoundsMap) -> Option<BoundsMap>
    decreases node, node.children@.len() + 1,
{
    if node.position.resolvable(parent) {
        let b = node.position.resolved(parent);
        placed_children(node, 0, b, m.insert(node.id@, b))
    } else {
        None
    }
}

/// Placing the children of `node` from the `i`-th on inside `b`.
pub open spec fn placed_children(node: MuxBox, i: int, b: Bounds, m: BoundsMap) -> Option<BoundsMap>
    decreases node, node.children@.len() - i,
{
    if 0 <= i < node.children@.len() {
        match placed(node.children@[i], b, m) {
            Some(m2) => placed_children(node, i + 1, b, m2),
            None => None,
        }
    } else {
        Some(m)
    }
}

/// Placing the top-level boxes from the `i`-th on inside the screen.
pub open spec fn placed_from(roots: Seq<MuxBox>, i: int, screen: Bounds, m: BoundsMap) -> Option<BoundsMap>
    decreases roots.len() - i,
{
    if 0 <= i < roots.len() {
        match placed(roots[i], screen, m) {
            Some(m2) => placed_from(roots, i + 1, screen, m2),
            None => None,
        }
    } else {
        Some(m)
    }
}

/// The bounds of every box of a layout, from its position inside its parent
/// (the screen for a top-level box).
pub open spec fn initial_bounds(roots: Seq<MuxBox>, screen: Bounds) -> Option<BoundsMap> {
    placed_from(roots, 0, screen, Map::empty())
}

/// Placed, then sized.
pub open spec fn bounds_map(roots: Seq<MuxBox>, screen: Bounds) -> Option<BoundsMap> {
    match initial_bounds(roots, screen) {
        Some(m) => adjusted(roots, m),
        None => None,
    }
}

fn place(node: &MuxBox, parent: &Bounds, map: &mut KeyedList<Bounds>)
    requires
        placed(*node, *parent, old(map)@) is Some,
    ensures
        placed(*node, *parent, old(map)@) == Some(final(map)@),
    decreases node,
{
    let b = node.position.to_bounds(parent);
    map.insert(node.id.as_str(), b);
    let ghost start = old(map)@;
    let mut i: usize = 0;
    while i < node.children.len()
        invariant
            i <= node.children@.len(),
            b == node.position.resolved(*parent),
            placed(*node, *parent, start) == placed_children(*node, i as int, b, map@),
            placed(*node, *parent, start) is Some,
        decreases node.children@.len() - i,
    {
        place(&node.children[i], &b, map);
        i = i + 1;
    }
}

/// The bounds of every box of a layout whose top-level boxes are `roots`,
/// each box placed inside its parent and the top-level ones inside `screen`.
pub fn calculate_initial_bounds(roots: &Vec<MuxBox>, screen: &Bounds) -> (r: KeyedList<Bounds>)
    requires
        initial_bounds(roots@, *screen) is Some,
    ensures
        initial_bounds(roots@, *screen) == Some(r@),
{
    let mut map: KeyedList<Bounds> = KeyedList::new();
    let mut i: usize = 0;
    while i < roots.len()
        invariant
            i <= roots@.len(),
            initial_bounds(roots@, *screen) == placed_from(roots@, i as int, *screen, map@),
            initial_bounds(roots@, *screen) is Some,
        decreases roots@.len() - i,
    {
        place(&roots[i], screen, &mut map);
        i = i + 1;
    }
    map
}

/// The bounds of every box of a layout: placed, then sized by their limits.
pub fn calculate_bounds_map(roots: &Vec<MuxBox>, screen: &Bounds) -> (r: KeyedList<Bounds>)
    requires
        bounds_map(roots@, *screen) is Some,
    ensures
        bounds_map(roots@, *screen) == Some(r@),
{
    let initial = calculate_initial_bounds(roots, screen);
    adjust_bounds_with_constraints(roots, initial)
}

/// Like `place`, but answers `false`, with the map partly updated, where a
/// position cannot be resolved.
fn try_place(node: &MuxBox, parent: &Bounds, map: &mut KeyedList<Bounds>) -> (r: bool)
    ensures
        r <==> placed(*node, *parent, old(map)@) is Some,
        r ==> placed(*node, *parent, old(map)@) == Some(final(map)@),
    decreases node,
{
    let b = match node.position.try_to_bounds(parent) {
        Some(b) => b,
        None => {
            return false;
        },
    };
    map.insert(node.id.as_str(), b);
    let ghost start = old(map)@;
    let mut i: usize = 0;
    while i < node.children.len()
        invariant
            i <= node.children@.len(),
            b == node.position.resolved(*parent),
            start == old(map)@,
            placed(*node, *parent, start) == placed_children(*node, i as int, b, map@),
        decreases node.children@.len() - i,
    {
        let ghost mb = map@;
        if !try_place(&node.children[i], &b, map) {
            assert(placed_children(*node, i as int, b, mb) is None);
            return false;
        }
        i = i + 1;
    }
    true
}

/// The bounds of every box of a layout (see `calculate_initial_bounds`), or
/// `None` where a position cannot be resolved.
pub fn try_calculate_initial_bounds(roots: &Vec<MuxBox>, screen: &Bounds) -> (r: Option<KeyedList<Bounds>>)
    ensures
        match r {
            Some(m) => initial_bounds(roots@, *screen) == Some(m@),
            None => initial_bounds(roots@, *screen) is None,
        },
{
    let mut map: KeyedList<Bounds> = KeyedList::new();
    let mut i: usize = 0;
    while i < roots.len()
        invariant
            i <= roots@.len(),
            initial_bounds(roots@, *screen) == placed_from(roots@, i as int, *screen, map@),
        decreases roots@.len() - i,
    {
        let ghost mb = map@;
        if !try_place(&roots[i], screen, &mut map) {
            assert(placed_from(roots@, i as int, *screen, mb) is None);
            return None;
        }
        i = i + 1;
    }
    Some(map)
}

/// The bounds of every box of a layout, placed then sized (see
/// `calculate_bounds_map`), or `None` where a position cannot be resolved or
/// a box's limits cannot be applied.
pub fn try_calculate_bounds_map(roots: &Vec<MuxBox>, screen: &Bounds) -> (r: Option<KeyedList<Bounds>>)
    ensures
        match r {
            Some(m) => bounds_map(roots@, *screen) == Some(m@),
            None => bounds_map(roots@, *screen) is None,
        },
{
    match try_calculate_initial_bounds(roots, screen) {
        Some(initial) => try_adjust_bounds_with_constraints(roots, initial),
        None => None,
    }
}

proof fn lemma_placed_dom(node: MuxBox, parent: Bounds, m: BoundsMap)
    ensures
        placed(node, parent, m) matches Some(m2) ==> m2.dom() == m.dom().insert(node.id@).union(below(node)),
    decreases node, node.children@.len() + 1,
{
    if node.position.resolvable(parent) {
        let b = node.position.resolved(parent);
        lemma_placed_children_dom(node, 0, b, m.insert(node.id@, b));
        if let Some(m2) = placed(node, parent, m) {
            assert(m2.dom() =~= m.dom().insert(node.id@).union(below(node)));
        }
    }
}

proof fn lemma_placed_children_dom(node: MuxBox, i: int, b: Bounds, m: BoundsMap)
    requires
        0 <= i,
    ensures
        placed_children(node, i, b, m) matches Some(m2) ==> m2.dom() == m.dom().union(below_from(node, i)),
    decreases node, node.children@.len() - i,
{
    if i < node.children@.len() {
        let child = node.children@[i];
        lemma_placed_dom(child, b, m);
        if let Some(m2) = placed(child, b, m) {
            lemma_placed_children_dom(node, i + 1, b, m2);
            if let Some(m3) = placed_children(node, i + 1, b, m2) {
                assert(m3.dom() =~= m.dom().union(below_from(node, i)));
            }
        }
    } else {
        assert(m.dom().union(below_from(node, i)) =~= m.dom());
    }
}

proof fn lemma_placed_from_dom(roots: Seq<MuxBox>, i: int, screen: Bounds, m: BoundsMap)
    requires
        0 <= i,
    ensures
        placed_from(roots, i, screen, m) matches Some(m2) ==> m2.dom() == m.dom().union(layout_ids(roots, i)),
    decreases roots.len() - i,
{
    if i < roots.len() {
        lemma_placed_dom(roots[i], screen, m);
        if let Some(m2) = placed(roots[i], screen, m) {
            lemma_placed_from_dom(roots, i + 1, screen, m2);
            if let Some(m3) = placed_from(roots, i + 1, screen, m2) {
                assert(m3.dom() =~= m.dom().union(layout_ids(roots, i)));
            }
        }
    } else {
        assert(m.dom().union(layout_ids(roots, i)) =~= m.dom());
    }
}

/// Placing gives bounds to exactly the boxes of the layout.
pub proof fn law_every_box_is_placed(roots: Seq<MuxBox>, screen: Bounds)
    requires
        initial_bounds(roots, screen) is Some,
    ensures
        initial_bounds(roots, screen)->0.dom() == layout_ids(roots, 0),
{
    lemma_placed_from_dom(roots, 0, screen, Map::empty());
    assert(Map::<Seq<char>, Bounds>::empty().dom().union(layout_ids(roots, 0)) =~= layout_ids(roots, 0));
}

/// After placing and sizing, exactly the boxes of the layout have bounds.
pub proof fn law_bounds_map_covers_layout(roots: Seq<MuxBox>, screen: Bounds)
    requires
        bounds_map(roots, screen) is Some,
    ensures
        bounds_map(roots, screen)->0.dom() == layout_ids(roots, 0),
{
    law_every_box_is_placed(roots, screen);
    law_adjust_keeps_boxes(roots, initial_bounds(roots, screen)->0);
}

} // verus!
