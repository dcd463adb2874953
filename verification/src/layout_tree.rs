use vstd::prelude::*;
use crate::bounds::Bounds;
use crate::muxbox::MuxBox;
use crate::text::str_eq;

verus! {

/// The boxes from the `i`-th on and everything below them, each box before
/// its children.
pub open spec fn boxes_from(boxes: Seq<MuxBox>, i: int) -> Seq<MuxBox>
    decreases boxes, boxes.len() - i,
{
    if 0 <= i < boxes.len() {
        seq![boxes[i]] + boxes_from(boxes[i].children@, 0) + boxes_from(boxes, i + 1)
    } else {
        Seq::empty()
    }
}

/// The selected boxes from the `i`-th on and below them, each box before its
/// children.
pub open spec fn selected_from(boxes: Seq<MuxBox>, i: int) -> Seq<MuxBox>
    decreases boxes, boxes.len() - i,
{
    if 0 <= i < boxes.len() {
        (if boxes[i].selected == Some(true) {
            seq![boxes[i]]
        } else {
            Seq::empty()
        }) + selected_from(boxes[i].children@, 0) + selected_from(boxes, i + 1)
    } else {
        Seq::empty()
    }
}

/// The boxes that a list of references points to.
pub open spec fn pointed(v: Seq<&MuxBox>) -> Seq<MuxBox> {
    v.map_values(|b: &MuxBox| *b)
}

/// The ids of some boxes, in order.
pub open spec fn box_ids(boxes: Seq<MuxBox>) -> Seq<Seq<char>> {
    boxes.map_values(|b: MuxBox| b.id@)
}

/// The first box with this id, each box looked at before its children.
pub open spec fn found_from(boxes: Seq<MuxBox>, i: int, id: Seq<char>) -> Option<MuxBox>
    decreases boxes, boxes.len() - i,
{
    if 0 <= i < boxes.len() {
        if boxes[i].id@ == id {
            Some(boxes[i])
        } else {
            match found_from(boxes[i].children@, 0, id) {
                Some(b) => Some(b),
                None => found_from(boxes, i + 1, id),
            }
        }
    } else {
        None
    }
}

/// `after` is `before` from the `i`-th box on with every box, at any depth,
/// selected exactly when its id is `id`, and nothing else changed.
pub open spec fn selection_from(before: Seq<MuxBox>, after: Seq<MuxBox>, i: int, id: Seq<char>) -> bool
    decreases before, before.len() - i,
{
    if 0 <= i < before.len() {
        &&& after[i] == MuxBox {
            selected: Some(before[i].id@ == id),
            children: after[i].children,
            ..before[i]
        }
        &&& after[i].children@.len() == before[i].children@.len()
        &&& selection_from(before[i].children@, after[i].children@, 0, id)
        &&& selection_from(before, after, i + 1, id)
    } else {
        true
    }
}

fn collect_boxes<'a>(boxes: &'a Vec<MuxBox>, out: &mut Vec<&'a MuxBox>)
    ensures
        pointed(final(out)@) == pointed(old(out)@) + boxes_from(boxes@, 0),
    decreases boxes@,
{
    let mut i: usize = 0;
    while i < boxes.len()
        invariant
            i <= boxes@.len(),
            pointed(out@) + boxes_from(boxes@, i as int) == pointed(old(out)@) + boxes_from(boxes@, 0),
        decreases boxes@.len() - i,
    {
        let ghost before = pointed(out@);
        let b = &boxes[i];
        out.push(b);
        assert(pointed(out@) =~= before.push(*b));
        collect_boxes(&b.children, out);
        let ghost after = pointed(out@);
        assert(after + boxes_from(boxes@, i + 1) =~= before + boxes_from(boxes@, i as int));
        i = i + 1;
    }
    assert(boxes_from(boxes@, i as int) =~= Seq::<MuxBox>::empty());
    assert(pointed(out@) =~= pointed(out@) + Seq::<MuxBox>::empty());
}

/// All the boxes of a layout whose top-level boxes are `roots`, each box
/// before its children.
pub fn all_boxes<'a>(roots: &'a Vec<MuxBox>) -> (r: Vec<&'a MuxBox>)
    ensures
        pointed(r@) == boxes_from(roots@, 0),
{
    let mut out: Vec<&'a MuxBox> = Vec::new();
    collect_boxes(roots, &mut out);
    assert(pointed(out@) =~= Seq::<MuxBox>::empty() + boxes_from(roots@, 0));
    out
}

fn collect_selected<'a>(boxes: &'a Vec<MuxBox>, out: &mut Vec<&'a MuxBox>)
    ensures
        pointed(final(out)@) == pointed(old(out)@) + selected_from(boxes@, 0),
    decreases boxes@,
{
    let mut i: usize = 0;
    while i < boxes.len()
        invariant
            i <= boxes@.len(),
            pointed(out@) + selected_from(boxes@, i as int) == pointed(old(out)@) + selected_from(boxes@, 0),
        decreases boxes@.len() - i,
    {
        let ghost before = pointed(out@);
        let b = &boxes[i];
        let is_selected = match b.selected {
            Some(v) => v,
            None => false,
        };
        if is_selected {
            out.push(b);
            assert(pointed(out@) =~= before + seq![*b]);
        } else {
            assert(pointed(out@) =~= before + Seq::<MuxBox>::empty());
        }
        collect_selected(&b.children, out);
        let ghost after = pointed(out@);
        assert(after + selected_from(boxes@, i + 1) =~= before + selected_from(boxes@, i as int));
        i = i + 1;
    }
    assert(selected_from(boxes@, i as int) =~= Seq::<MuxBox>::empty());
    assert(pointed(out@) =~= pointed(out@) + Seq::<MuxBox>::empty());
}

/// The selected boxes of a layout, each box before its children.
pub fn selected_boxes<'a>(roots: &'a Vec<MuxBox>) -> (r: Vec<&'a MuxBox>)
    ensures
        pointed(r@) == selected_from(roots@, 0),
{
    let mut out: Vec<&'a MuxBox> = Vec::new();
    collect_selected(roots, &mut out);
    assert(pointed(out@) =~= Seq::<MuxBox>::empty() + selected_from(roots@, 0));
    out
}

/// The first box with this id, each box looked at before its children.
pub fn find_box<'a>(boxes: &'a Vec<MuxBox>, id: &str) -> (r: Option<&'a MuxBox>)
    ensures
        r is None <==> found_from(boxes@, 0, id@) is None,
        r matches Some(b) ==> found_from(boxes@, 0, id@) == Some(*b),
    decreases boxes@,
{
    let mut i: usize = 0;
    while i < boxes.len()
        invariant
            i <= boxes@.len(),
            found_from(boxes@, 0, id@) == found_from(boxes@, i as int, id@),
        decreases boxes@.len() - i,
    {
        let b = &boxes[i];
        if str_eq(b.id.as_str(), id) {
            return Some(b);
        }
        match find_box(&b.children, id) {
            Some(found) => {
                return Some(found);
            },
            None => {},
        }
        i = i + 1;
    }
    None
}

/// Selects the boxes with this id, at any depth, and deselects all others.
pub fn select_only_box(boxes: &mut Vec<MuxBox>, id: &str)
    ensures
        final(boxes)@.len() == old(boxes)@.len(),
        selection_from(old(boxes)@, final(boxes)@, 0, id@),
    decreases old(boxes)@,
{
    let n = boxes.len();
    let mut i: usize = 0;
    while i < n
        invariant
            i <= n == boxes@.len() == old(boxes)@.len(),
            forall|j: int| i <= j < n ==> #[trigger] boxes@[j] == old(boxes)@[j],
            forall|j: int| 0 <= j < i ==> selected_box(#[trigger] old(boxes)@[j], boxes@[j], id@),
        decreases n - i,
    {
        let b = &mut boxes[i];
        let same = str_eq(b.id.as_str(), id);
        b.selected = Some(same);
        select_only_box(&mut b.children, id);
        i = i + 1;
    }
    proof {
        lemma_selection_from(old(boxes)@, boxes@, 0, id@);
    }
}

/// `after` is the box `before` with its selection (and that of all below it)
/// set by `id`.
pub open spec fn selected_box(before: MuxBox, after: MuxBox, id: Seq<char>) -> bool {
    &&& after == MuxBox { selected: Some(before.id@ == id), children: after.children, ..before }
    &&& after.children@.len() == before.children@.len()
    &&& selection_from(before.children@, after.children@, 0, id)
}

proof fn lemma_selection_from(before: Seq<MuxBox>, after: Seq<MuxBox>, i: int, id: Seq<char>)
    requires
        0 <= i,
        after.len() == before.len(),
        forall|j: int| 0 <= j < before.len() ==> selected_box(#[trigger] before[j], after[j], id),
    ensures
        selection_from(before, after, i, id),
    decreases before.len() - i,
{
    if i < before.len() {
        assert(selected_box(before[i], after[i], id));
        lemma_selection_from(before, after, i + 1, id);
    }
}

/// Whether the cell `(x, y)` lies in `b`, edges included, the corners taken
/// modulo 2^16 as terminal coordinates are.
pub open spec fn covers(b: Bounds, x: u16, y: u16) -> bool {
    (b.x1 as u16) <= x <= (b.x2 as u16) && (b.y1 as u16) <= y <= (b.y2 as u16)
}

/// Stacking order of a box (0 when it has none).
pub open spec fn z_of(b: MuxBox) -> i32 {
    match b.z_index {
        Some(z) => z,
        None => 0,
    }
}

/// The box at `k` is hit: its position, taken inside `screen`, covers the cell.
pub open spec fn hit(boxes: Seq<MuxBox>, k: int, screen: Bounds, x: u16, y: u16) -> bool {
    covers(boxes[k].position.resolved(screen), x, y)
}

/// The box at `k` is the one that takes a click among `boxes`: it is hit, no
/// hit box stacks above it, and every hit box before it stacks below it.
pub open spec fn top_hit(boxes: Seq<MuxBox>, k: int, screen: Bounds, x: u16, y: u16) -> bool {
    &&& 0 <= k < boxes.len()
    &&& hit(boxes, k, screen, x, y)
    &&& forall|j: int| 0 <= j < boxes.len() && hit(boxes, j, screen, x, y) ==> z_of(boxes[j]) <= z_of(boxes[k])
    &&& forall|j: int| 0 <= j < k && hit(boxes, j, screen, x, y) ==> z_of(boxes[j]) < z_of(boxes[k])
}

/// Every position among `boxes` resolves inside `screen`.
pub open spec fn all_resolvable(boxes: Seq<MuxBox>, screen: Bounds) -> bool {
    forall|j: int| 0 <= j < boxes.len() ==> (#[trigger] boxes[j]).position.resolvable(screen)
}

/// The box that takes a click at `(x, y)`: the top hit box at this level,
/// or, when one of its children takes the click, that child's answer. Every
/// box is placed inside `screen`, whatever its parent.
pub open spec fn box_at_spec(boxes: Seq<MuxBox>, screen: Bounds, x: u16, y: u16) -> Option<MuxBox>
    decreases boxes,
{
    if exists|k: int| top_hit(boxes, k, screen, x, y) {
        let k = choose|k: int| top_hit(boxes, k, screen, x, y);
        match box_at_spec(boxes[k].children@, screen, x, y) {
            Some(b) => Some(b),
            None => Some(boxes[k]),
        }
    } else {
        None
    }
}

/// The positions that finding the box at `(x, y)` resolves all resolve.
pub open spec fn box_at_defined(boxes: Seq<MuxBox>, screen: Bounds, x: u16, y: u16) -> bool
    decreases boxes,
{
    &&& all_resolvable(boxes, screen)
    &&& (exists|k: int| top_hit(boxes, k, screen, x, y)) ==> box_at_defined(
        boxes[choose|k: int| top_hit(boxes, k, screen, x, y)].children@,
        screen,
        x,
        y,
    )
}

proof fn lemma_top_hit_unique(boxes: Seq<MuxBox>, a: int, b: int, screen: Bounds, x: u16, y: u16)
    requires
        top_hit(boxes, a, screen, x, y),
        top_hit(boxes, b, screen, x, y),
    ensures
        a == b,
{
    if a < b {
        assert(z_of(boxes[a]) < z_of(boxes[b]));
    } else if b < a {
        assert(z_of(boxes[b]) < z_of(boxes[a]));
    }
}

fn top_hit_index(boxes: &Vec<MuxBox>, screen: &Bounds, x: u16, y: u16) -> (r: Option<usize>)
    requires
        all_resolvable(boxes@, *screen),
    ensures
        r matches Some(k) ==> top_hit(boxes@, k as int, *screen, x, y),
        r is None ==> !exists|k: int| top_hit(boxes@, k, *screen, x, y),
{
    let mut best: Option<usize> = None;
    let mut best_z: i32 = 0;
    let mut i: usize = 0;
    while i < boxes.len()
        invariant
            i <= boxes@.len(),
            all_resolvable(boxes@, *screen),
            best is None ==> forall|j: int| 0 <= j < i ==> !hit(boxes@, j, *screen, x, y),
            best matches Some(k) ==> {
                &&& k < i
                &&& hit(boxes@, k as int, *screen, x, y)
                &&& best_z == z_of(boxes@[k as int])
                &&& forall|j: int| 0 <= j < i && hit(boxes@, j, *screen, x, y) ==> z_of(boxes@[j]) <= best_z
                &&& forall|j: int| 0 <= j < k && hit(boxes@, j, *screen, x, y) ==> z_of(boxes@[j]) < best_z
            },
        decreases boxes@.len() - i,
    {
        let b = &boxes[i];
        assert(boxes@[i as int].position.resolvable(*screen));
        let bounds = b.position.to_bounds(screen);
        let covered = (bounds.x1 as u16) <= x && x <= (bounds.x2 as u16) && (bounds.y1 as u16) <= y && y <= (
        bounds.y2 as u16);
        if covered {
            let z = b.effective_z_index();
            match best {
                None => {
                    best = Some(i);
                    best_z = z;
                },
                Some(_) => {
                    if z > best_z {
                        best = Some(i);
                        best_z = z;
                    }
                },
            }
        }
        i = i + 1;
    }
    proof {
        if best is None {
            assert forall|k: int| !top_hit(boxes@, k, *screen, x, y) by {
                if 0 <= k < boxes@.len() {
                    assert(!hit(boxes@, k, *screen, x, y));
                }
            }
        }
    }
    best
}

/// The box that takes a click at `(x, y)`: among the boxes that cover the
/// cell, the one stacked highest (the first such on ties), or the box found
/// the same way among its children when one covers the cell.
pub fn box_at<'a>(boxes: &'a Vec<MuxBox>, screen: &Bounds, x: u16, y: u16) -> (r: Option<&'a MuxBox>)
    requires
        box_at_defined(boxes@, *screen, x, y),
    ensures
        (match r {
            Some(b) => Some(*b),
            None => None,
        }) == box_at_spec(boxes@, *screen, x, y),
    decreases boxes@,
{
    match top_hit_index(boxes, screen, x, y) {
        Some(k) => {
            proof {
                let c = choose|j: int| top_hit(boxes@, j, *screen, x, y);
                lemma_top_hit_unique(boxes@, c, k as int, *screen, x, y);
            }
            let b = &boxes[k];
            match box_at(&b.children, screen, x, y) {
                Some(found) => Some(found),
                None => Some(b),
            }
        },
        None => None,
    }
}

/// Whether a box has the id `id`.
pub open spec fn has_id(id: Seq<char>) -> spec_fn(MuxBox) -> bool {
    |b: MuxBox| b.id@ == id
}

proof fn lemma_filter_single<A>(x: A, p: spec_fn(A) -> bool)
    ensures
        seq![x].filter(p) == (if p(x) {
            seq![x]
        } else {
            Seq::<A>::empty()
        }),
{
    reveal_with_fuel(Seq::filter, 2);
    assert(seq![x].drop_last() =~= Seq::<A>::empty());
    if p(x) {
        assert(Seq::<A>::empty().push(x) =~= seq![x]);
    }
}

proof fn lemma_ids_of_concat(a: Seq<MuxBox>, b: Seq<MuxBox>, c: Seq<MuxBox>)
    ensures
        box_ids(a + b + c) == box_ids(a) + box_ids(b) + box_ids(c),
{
    assert(box_ids(a + b + c) =~= box_ids(a) + box_ids(b) + box_ids(c));
}

proof fn lemma_selection(before: Seq<MuxBox>, after: Seq<MuxBox>, i: int, id: Seq<char>)
    requires
        0 <= i,
        after.len() == before.len(),
        selection_from(before, after, i, id),
    ensures
        box_ids(boxes_from(after, i)) == box_ids(boxes_from(before, i)),
        selected_from(after, i) == boxes_from(after, i).filter(has_id(id)),
    decreases before, before.len() - i,
{
    broadcast use vstd::seq::Seq::filter_distributes_over_add;
    if i < before.len() {
        lemma_selection(before[i].children@, after[i].children@, 0, id);
        lemma_selection(before, after, i + 1, id);
        let head = seq![after[i]];
        let kids = boxes_from(after[i].children@, 0);
        let rest = boxes_from(after, i + 1);
        lemma_ids_of_concat(head, kids, rest);
        lemma_ids_of_concat(seq![before[i]], boxes_from(before[i].children@, 0), boxes_from(before, i + 1));
        assert(box_ids(head) =~= box_ids(seq![before[i]]));
        lemma_filter_single(after[i], has_id(id));
        assert((head + kids + rest).filter(has_id(id)) == (head + kids).filter(has_id(id)) + rest.filter(has_id(id)));
        assert((head + kids).filter(has_id(id)) == head.filter(has_id(id)) + kids.filter(has_id(id)));
        if after[i].id@ == id {
            assert(after[i].selected == Some(true));
        } else {
            assert(after[i].selected == Some(false));
        }
    } else {
        reveal_with_fuel(Seq::filter, 1);
        assert(box_ids(Seq::<MuxBox>::empty()) =~= Seq::<Seq<char>>::empty());
    }
}

/// Selecting by id keeps the boxes' ids, in order, and afterwards the
/// selected boxes are exactly those with that id.
pub proof fn law_select_only_selects_that_id(before: Seq<MuxBox>, after: Seq<MuxBox>, id: Seq<char>)
    requires
        after.len() == before.len(),
        selection_from(before, after, 0, id),
    ensures
        box_ids(boxes_from(after, 0)) == box_ids(boxes_from(before, 0)),
        selected_from(after, 0) == boxes_from(after, 0).filter(has_id(id)),
{
    lemma_selection(before, after, 0, id);
}

/// `after` is `before` with the first box (from the `i`-th on, each box
/// before its children) whose id is `rep`'s replaced by `rep`; such a box
/// exists.
pub open spec fn replaced_from(before: Seq<MuxBox>, after: Seq<MuxBox>, i: int, rep: MuxBox) -> bool
    decreases before, before.len() - i,
{
    if 0 <= i < before.len() {
        &&& after.len() == before.len()
        &&& if before[i].id@ == rep.id@ {
            after[i] == rep && forall|j: int| i < j < before.len() ==> after[j] == before[j]
        } else if found_from(before[i].children@, 0, rep.id@) is Some {
            &&& after[i] == MuxBox { children: after[i].children, ..before[i] }
            &&& after[i].children@.len() == before[i].children@.len()
            &&& replaced_from(before[i].children@, after[i].children@, 0, rep)
            &&& forall|j: int| i < j < before.len() ==> after[j] == before[j]
        } else {
            after[i] == before[i] && replaced_from(before, after, i + 1, rep)
        }
    } else {
        false
    }
}

proof fn lemma_found_from_skip(boxes: Seq<MuxBox>, i: int, id: Seq<char>)
    requires
        0 <= i < boxes.len(),
        boxes[i].id@ != id,
        found_from(boxes[i].children@, 0, id) is None,
    ensures
        found_from(boxes, i, id) == found_from(boxes, i + 1, id),
{
}

/// Neither `b` nor anything below it has the id `id`.
spec fn skipped(b: MuxBox, id: Seq<char>) -> bool {
    b.id@ != id && found_from(b.children@, 0, id) is None
}

proof fn lemma_replaced_prefix(before: Seq<MuxBox>, after: Seq<MuxBox>, k: int, i: int, rep: MuxBox)
    requires
        0 <= k <= i < before.len(),
        after.len() == before.len(),
        forall|j: int| k <= j < i ==> #[trigger] after[j] == before[j],
        forall|j: int| k <= j < i ==> #[trigger] skipped(before[j], rep.id@),
        replaced_from(before, after, i, rep),
    ensures
        replaced_from(before, after, k, rep),
    decreases i - k,
{
    if k < i {
        assert forall|j: int| k + 1 <= j < i implies #[trigger] skipped(before[j], rep.id@) by {
            assert(k <= j < i);
        }
        lemma_replaced_prefix(before, after, k + 1, i, rep);
        assert(after[k] == before[k]);
        assert(skipped(before[k], rep.id@));
    }
}

/// Puts `replacement` in the place of the first box with its id, each box
/// looked at before its children. Answers the replacement back when no box
/// has its id.
pub fn replace_box(boxes: &mut Vec<MuxBox>, replacement: MuxBox) -> (r: Option<MuxBox>)
    ensures
        found_from(old(boxes)@, 0, replacement.id@) is None ==> r == Some(replacement) && final(boxes)@ == old(boxes)@,
        found_from(old(boxes)@, 0, replacement.id@) is Some ==> r is None && replaced_from(
            old(boxes)@,
            final(boxes)@,
            0,
            replacement,
        ),
    decreases old(boxes)@,
{
    let ghost rep = replacement;
    assert(rep == replacement);
    let mut rep_now = replacement;
    let n = boxes.len();
    let mut i: usize = 0;
    while i < n
        invariant
            i <= n == boxes@.len() == old(boxes)@.len(),
            rep_now == rep,
            rep == replacement,
            boxes@ == old(boxes)@,
            found_from(old(boxes)@, 0, rep.id@) == found_from(old(boxes)@, i as int, rep.id@),
            forall|j: int| 0 <= j < i ==> #[trigger] skipped(old(boxes)@[j], rep.id@),
        decreases n - i,
    {
        if str_eq(boxes[i].id.as_str(), rep_now.id.as_str()) {
            let ghost before = boxes@;
            assert(found_from(old(boxes)@, i as int, rep.id@) is Some);
            let mut r = rep_now;
            std::mem::swap(&mut boxes[i], &mut r);
            proof {
                assert(boxes@ == before.update(i as int, rep));
                assert(replaced_from(old(boxes)@, boxes@, i as int, rep));
                lemma_replaced_prefix(old(boxes)@, boxes@, 0, i as int, rep);
                assert(replaced_from(old(boxes)@, boxes@, 0, replacement));
                assert(found_from(old(boxes)@, 0, replacement.id@) is Some);
            }
            return None;
        }
        if find_box(&boxes[i].children, rep_now.id.as_str()).is_some() {
            let ghost before = boxes@;
            assert(found_from(old(boxes)@, i as int, rep.id@) is Some);
            let b = &mut boxes[i];
            let _ = replace_box(&mut b.children, rep_now);
            proof {
                assert(boxes@[i as int] == MuxBox { children: boxes@[i as int].children, ..before[i as int] });
                assert(forall|j: int| i < j < n ==> boxes@[j] == before[j]);
                assert(replaced_from(old(boxes)@, boxes@, i as int, rep));
                assert(forall|j: int| 0 <= j < i ==> boxes@[j] == before[j]);
                lemma_replaced_prefix(old(boxes)@, boxes@, 0, i as int, rep);
                assert(replaced_from(old(boxes)@, boxes@, 0, replacement));
                assert(found_from(old(boxes)@, 0, replacement.id@) is Some);
            }
            return None;
        }
        proof {
            assert(old(boxes)@[i as int].id@ != rep.id@);
            assert(found_from(old(boxes)@[i as int].children@, 0, rep.id@) is None);
            lemma_found_from_skip(old(boxes)@, i as int, rep.id@);
            assert forall|j: int| 0 <= j < i + 1 implies #[trigger] skipped(old(boxes)@[j], rep.id@) by {
                if j < i {
                    assert(skipped(old(boxes)@[j], rep.id@));
                }
            }
        }
        i = i + 1;
    }
    Some(rep_now)
}

proof fn lemma_found_after_replace(before: Seq<MuxBox>, after: Seq<MuxBox>, i: int, rep: MuxBox)
    requires
        0 <= i,
        replaced_from(before, after, i, rep),
    ensures
        found_from(after, i, rep.id@) == Some(rep),
    decreases before, before.len() - i,
{
    if i < before.len() {
        if before[i].id@ == rep.id@ {
        } else if found_from(before[i].children@, 0, rep.id@) is Some {
            lemma_found_after_replace(before[i].children@, after[i].children@, 0, rep);
            assert(after[i].id@ == before[i].id@);
        } else {
            lemma_found_after_replace(before, after, i + 1, rep);
        }
    }
}

/// After a box is replaced, looking its id up finds the replacement.
pub proof fn law_find_after_replace(before: Seq<MuxBox>, after: Seq<MuxBox>, rep: MuxBox)
    requires
        replaced_from(before, after, 0, rep),
    ensures
        found_from(after, 0, rep.id@) == Some(rep),
{
    lemma_found_after_replace(before, after, 0, rep);
}

} // verus!
