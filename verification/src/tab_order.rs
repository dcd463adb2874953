use vstd::prelude::*;
use crate::focus::{
    law_next_then_previous_returns, next_focus_index, only_selected, previous_focus_index, spec_next_focus,
    spec_previous_focus,
};
use crate::layout_tree::{box_ids, boxes_from, find_box, found_from, pointed, selection_from};
use crate::layouts::Layout;
use crate::muxbox::{Choice, MuxBox};
use crate::text::{chars_of, str_eq};

verus! {

/// `a` comes before or with `b` in the order of strings: character by
/// character, a prefix first. (Comparing UTF-8 bytes, as `String` does, gives
/// the same order.)
pub open spec fn key_le(a: Seq<char>, b: Seq<char>) -> bool
    decreases a.len(),
{
    if a.len() == 0 {
        true
    } else if b.len() == 0 {
        false
    } else if (a[0] as u32) < (b[0] as u32) {
        true
    } else if (a[0] as u32) > (b[0] as u32) {
        false
    } else {
        key_le(a.drop_first(), b.drop_first())
    }
}

/// A box that takes part in the tab order, with its tab key.
pub type TabEntry = (Seq<char>, MuxBox);

/// The boxes from the `i`-th on, and below them, that have a tab key, each
/// box before its children.
pub open spec fn tab_entries_from(boxes: Seq<MuxBox>, i: int) -> Seq<TabEntry>
    decreases boxes, boxes.len() - i,
{
    if 0 <= i < boxes.len() {
        (match boxes[i].tab_order {
            Some(t) => seq![(t@, boxes[i])],
            None => Seq::empty(),
        }) + tab_entries_from(boxes[i].children@, 0) + tab_entries_from(boxes, i + 1)
    } else {
        Seq::empty()
    }
}

/// `x` put into the sorted `s` after every entry whose key comes before or
/// with its own.
pub open spec fn insert_sorted(s: Seq<TabEntry>, x: TabEntry) -> Seq<TabEntry>
    decreases s.len(),
{
    if s.len() == 0 {
        seq![x]
    } else if key_le(s.last().0, x.0) {
        s.push(x)
    } else {
        insert_sorted(s.drop_last(), x).push(s.last())
    }
}

/// The entries sorted by key, entries with equal keys kept in their order.
pub open spec fn stable_sorted(s: Seq<TabEntry>) -> Seq<TabEntry>
    decreases s.len(),
{
    if s.len() == 0 {
        s
    } else {
        insert_sorted(stable_sorted(s.drop_last()), s.last())
    }
}

/// The boxes of a layout in tab order.
pub open spec fn tab_order(roots: Seq<MuxBox>) -> Seq<TabEntry> {
    stable_sorted(tab_entries_from(roots, 0))
}

fn chars_le(a: &Vec<char>, b: &Vec<char>) -> (r: bool)
    ensures
        r == key_le(a@, b@),
{
    let mut i: usize = 0;
    assert(a@.skip(0) =~= a@);
    assert(b@.skip(0) =~= b@);
    while i < a.len() && i < b.len()
        invariant
            i <= a@.len(),
            i <= b@.len(),
            key_le(a@, b@) == key_le(a@.skip(i as int), b@.skip(i as int)),
        decreases a@.len() - i,
    {
        let x = a[i] as u32;
        let y = b[i] as u32;
        assert(a@.skip(i as int)[0] == a@[i as int]);
        assert(b@.skip(i as int)[0] == b@[i as int]);
        if x < y {
            return true;
        }
        if x > y {
            return false;
        }
        assert(a@.skip(i as int).drop_first() =~= a@.skip(i + 1));
        assert(b@.skip(i as int).drop_first() =~= b@.skip(i + 1));
        i = i + 1;
    }
    i == a.len()
}

/// An entry of the exec list: the tab key and the box.
struct Entry<'a> {
    key: Vec<char>,
    node: &'a MuxBox,
}

spec fn entry_view<'a>(e: Entry<'a>) -> TabEntry {
    (e.key@, *e.node)
}

spec fn entries_view<'a>(v: Seq<Entry<'a>>) -> Seq<TabEntry> {
    v.map_values(|e: Entry<'a>| entry_view(e))
}

fn collect_entries<'a>(boxes: &'a Vec<MuxBox>, out: &mut Vec<Entry<'a>>)
    ensures
        entries_view(final(out)@) == entries_view(old(out)@) + tab_entries_from(boxes@, 0),
    decreases boxes@,
{
    let mut i: usize = 0;
    while i < boxes.len()
        invariant
            i <= boxes@.len(),
            entries_view(out@) + tab_entries_from(boxes@, i as int) == entries_view(old(out)@) + tab_entries_from(
                boxes@,
                0,
            ),
        decreases boxes@.len() - i,
    {
        let ghost before = entries_view(out@);
        let b = &boxes[i];
        match &b.tab_order {
            Some(t) => {
                let key = chars_of(t.as_str());
                out.push(Entry { key, node: b });
                assert(entries_view(out@) =~= before + seq![(t@, *b)]);
            },
            None => {
                assert(entries_view(out@) =~= before + Seq::<TabEntry>::empty());
            },
        }
        collect_entries(&b.children, out);
        assert(entries_view(out@) + tab_entries_from(boxes@, i + 1) =~= before + tab_entries_from(boxes@, i as int));
        i = i + 1;
    }
    assert(tab_entries_from(boxes@, i as int) =~= Seq::<TabEntry>::empty());
    assert(entries_view(out@) =~= entries_view(out@) + Seq::<TabEntry>::empty());
}

proof fn lemma_insert_at(s: Seq<TabEntry>, x: TabEntry, j: int)
    requires
        0 <= j <= s.len(),
        j == 0 || key_le(s[j - 1].0, x.0),
        forall|k: int| j <= k < s.len() ==> !key_le(#[trigger] s[k].0, x.0),
    ensures
        insert_sorted(s, x) == s.take(j) + seq![x] + s.skip(j),
    decreases s.len(),
{
    if s.len() == 0 {
        assert(s.take(j) + seq![x] + s.skip(j) =~= seq![x]);
    } else if j == s.len() {
        assert(s.take(j) + seq![x] + s.skip(j) =~= s.push(x));
    } else {
        assert(!key_le(s.last().0, x.0));
        let t = s.drop_last();
        assert forall|k: int| j <= k < t.len() implies !key_le(#[trigger] t[k].0, x.0) by {
            assert(t[k] == s[k]);
        }
        if j > 0 {
            assert(t[j - 1] == s[j - 1]);
        }
        lemma_insert_at(t, x, j);
        assert(t.take(j) + seq![x] + t.skip(j) + seq![s.last()] =~= s.take(j) + seq![x] + s.skip(j));
    }
}

/// Inserts `x` into the sorted `v` after every entry whose key comes before
/// or with its own.
fn insert_entry<'a>(v: &mut Vec<Entry<'a>>, x: Entry<'a>)
    ensures
        entries_view(final(v)@) == insert_sorted(entries_view(old(v)@), entry_view(x)),
{
    let mut j: usize = v.len();
    while j > 0 && !chars_le(&v[j - 1].key, &x.key)
        invariant
            j <= v@.len(),
            forall|k: int| j <= k < v@.len() ==> !key_le(#[trigger] v@[k].key@, x.key@),
        decreases j,
    {
        j = j - 1;
    }
    let ghost s = entries_view(v@);
    proof {
        assert forall|k: int| j <= k < s.len() implies !key_le(#[trigger] s[k].0, entry_view(x).0) by {
            assert(s[k] == entry_view(v@[k]));
        }
        if j > 0 {
            assert(s[j - 1] == entry_view(v@[j - 1]));
        }
        lemma_insert_at(s, entry_view(x), j as int);
    }
    let ghost xv = entry_view(x);
    v.insert(j, x);
    assert(entries_view(v@) =~= s.take(j as int) + seq![xv] + s.skip(j as int));
}

fn sort_entries<'a>(v: Vec<Entry<'a>>) -> (r: Vec<Entry<'a>>)
    ensures
        entries_view(r@) == stable_sorted(entries_view(v@)),
{
    let mut out: Vec<Entry<'a>> = Vec::new();
    let mut rest = v;
    let ghost all = entries_view(rest@);
    let n = rest.len();
    let mut items: Vec<Entry<'a>> = Vec::new();
    while rest.len() > 0
        invariant
            rest@.len() + items@.len() == n,
            entries_view(rest@) + entries_view(items@).reverse() == all,
        decreases rest@.len(),
    {
        let ghost before_rest = rest@;
        let ghost before_items = items@;
        let e = rest.pop().unwrap();
        items.push(e);
        assert(before_rest == rest@.push(e));
        assert(entries_view(before_rest) =~= entries_view(rest@).push(entry_view(e)));
        assert(entries_view(items@) =~= entries_view(before_items).push(entry_view(e)));
        assert(entries_view(items@).reverse() =~= seq![entry_view(e)] + entries_view(before_items).reverse());
        assert(entries_view(rest@) + entries_view(items@).reverse() =~= entries_view(before_rest) + entries_view(
            before_items,
        ).reverse());
    }
    assert(entries_view(items@).reverse() =~= all);
    let mut k: usize = 0;
    while items.len() > 0
        invariant
            items@.len() + k == n,
            k <= n,
            all.len() == n,
            entries_view(items@).reverse() == all.skip(k as int),
            entries_view(out@) == stable_sorted(all.take(k as int)),
        decreases items@.len(),
    {
        let ghost before_items = items@;
        let e = items.pop().unwrap();
        proof {
            assert(before_items == items@.push(e));
            assert(entries_view(before_items) =~= entries_view(items@).push(entry_view(e)));
            assert(entries_view(before_items).reverse() =~= seq![entry_view(e)] + entries_view(items@).reverse());
            assert(all.skip(k as int)[0] == entry_view(e));
            assert(all[k as int] == entry_view(e));
            assert(all.skip(k as int).drop_first() =~= all.skip(k + 1));
            assert(all.take(k + 1).drop_last() =~= all.take(k as int));
            assert(all.take(k + 1).last() == all[k as int]);
        }
        insert_entry(&mut out, e);
        k = k + 1;
    }
    assert(all.take(n as int) =~= all);
    out
}

fn sorted_entries<'a>(roots: &'a Vec<MuxBox>) -> (r: Vec<Entry<'a>>)
    ensures
        entries_view(r@) == tab_order(roots@),
{
    let mut v: Vec<Entry<'a>> = Vec::new();
    collect_entries(roots, &mut v);
    assert(entries_view(v@) =~= Seq::<TabEntry>::empty() + tab_entries_from(roots@, 0));
    sort_entries(v)
}

/// Ids of the boxes of a layout that have a tab key, sorted by key; boxes
/// with equal keys in the order they appear, each box before its children.
pub fn tab_order_ids(roots: &Vec<MuxBox>) -> (r: Vec<String>)
    ensures
        r@.map_values(|s: String| s@) == tab_order(roots@).map_values(|e: TabEntry| e.1.id@),
{
    let entries = sorted_entries(roots);
    let mut r: Vec<String> = Vec::new();
    let mut i: usize = 0;
    while i < entries.len()
        invariant
            i <= entries@.len(),
            entries_view(entries@) == tab_order(roots@),
            r@.len() == i,
            r@.map_values(|s: String| s@) == entries_view(entries@).map_values(|e: TabEntry| e.1.id@).take(i as int),
        decreases entries@.len() - i,
    {
        let ghost prev = r@;
        let id = entries[i].node.id.clone();
        r.push(id);
        proof {
            assert(r@ == prev.push(id));
            let target = entries_view(entries@).map_values(|e: TabEntry| e.1.id@);
            assert(entries_view(entries@)[i as int] == entry_view(entries@[i as int]));
            assert(target[i as int] == entries@[i as int].node.id@);
            assert(prev.map_values(|s: String| s@) == target.take(i as int));
            let rv = r@.map_values(|s: String| s@);
            let pv = prev.map_values(|s: String| s@);
            assert forall|j: int| 0 <= j < i + 1 implies #[trigger] rv[j] == target.take(i + 1)[j] by {
                if j < i {
                    assert(pv[j] == target.take(i as int)[j]);
                    assert(r@[j] == prev[j]);
                }
            }
            assert(rv =~= target.take(i + 1));
        }
        i = i + 1;
    }
    assert(entries_view(entries@).map_values(|e: TabEntry| e.1.id@).take(i as int) =~= entries_view(entries@).map_values(
        |e: TabEntry| e.1.id@,
    ));
    r
}

/// The boxes of a layout that have a tab key, sorted by key; boxes with
/// equal keys in the order they appear, each box before its children.
pub fn tab_order_boxes<'a>(roots: &'a Vec<MuxBox>) -> (r: Vec<&'a MuxBox>)
    ensures
        pointed(r@) == tab_order(roots@).map_values(|e: TabEntry| e.1),
{
    let entries = sorted_entries(roots);
    let mut r: Vec<&'a MuxBox> = Vec::new();
    let mut i: usize = 0;
    while i < entries.len()
        invariant
            i <= entries@.len(),
            entries_view(entries@) == tab_order(roots@),
            r@.len() == i,
            pointed(r@) == entries_view(entries@).map_values(|e: TabEntry| e.1).take(i as int),
        decreases entries@.len() - i,
    {
        let ghost prev = r@;
        let node = entries[i].node;
        r.push(node);
        proof {
            let target = entries_view(entries@).map_values(|e: TabEntry| e.1);
            assert(r@ == prev.push(node));
            assert(entries_view(entries@)[i as int] == entry_view(entries@[i as int]));
            assert(target[i as int] == *node);
            assert(pointed(prev) == target.take(i as int));
            assert forall|j: int| 0 <= j < i + 1 implies #[trigger] pointed(r@)[j] == target.take(i + 1)[j] by {
                if j < i {
                    assert(pointed(prev)[j] == target.take(i as int)[j]);
                    assert(r@[j] == prev[j]);
                }
            }
            assert(pointed(r@) =~= target.take(i + 1));
        }
        i = i + 1;
    }
    assert(entries_view(entries@).map_values(|e: TabEntry| e.1).take(i as int) =~= entries_view(entries@).map_values(
        |e: TabEntry| e.1,
    ));
    r
}

/// The boxes found for each id in turn (the first box with that id, each
/// box looked at before its children), ids that no box has left out.
pub open spec fn found_each(boxes: Seq<MuxBox>, ids: Seq<Seq<char>>) -> Seq<MuxBox>
    decreases ids.len(),
{
    if ids.len() == 0 {
        Seq::empty()
    } else {
        found_each(boxes, ids.drop_last()) + match found_from(boxes, 0, ids.last()) {
            Some(b) => seq![b],
            None => Seq::empty(),
        }
    }
}

/// Whether each of some boxes is selected.
pub open spec fn box_flags(boxes: Seq<MuxBox>) -> Seq<bool> {
    boxes.map_values(|b: MuxBox| b.selected == Some(true))
}

impl Layout {
    /// The ids of the boxes in tab order: the list the layout keeps, or else
    /// the one its boxes' tab keys give.
    pub open spec fn tab_ids(self) -> Seq<Seq<char>> {
        match self.muxbox_ids_in_tab_order {
            Some(ids) => ids@.map_values(|s: String| s@),
            None => tab_order(self.children@).map_values(|e: TabEntry| e.1.id@),
        }
    }

    /// The boxes in tab order: the boxes with the ids of the list the layout
    /// keeps, or else its boxes that have a tab key, sorted by key.
    pub open spec fn tab_list(self) -> Seq<MuxBox> {
        match self.muxbox_ids_in_tab_order {
            Some(ids) => found_each(self.children@, ids@.map_values(|s: String| s@)),
            None => tab_order(self.children@).map_values(|e: TabEntry| e.1),
        }
    }

    /// The id of the first box in tab order, if any.
    pub open spec fn first_in_tab_order(self) -> Option<Seq<char>> {
        if self.tab_list().len() > 0 {
            Some(self.tab_list()[0].id@)
        } else {
            None
        }
    }
}

fn boxes_with_ids<'a>(boxes: &'a Vec<MuxBox>, ids: &Vec<String>) -> (r: Vec<&'a MuxBox>)
    ensures
        pointed(r@) == found_each(boxes@, ids@.map_values(|s: String| s@)),
{
    let ghost idsv = ids@.map_values(|s: String| s@);
    let mut r: Vec<&'a MuxBox> = Vec::new();
    let mut i: usize = 0;
    assert(idsv.take(0) =~= Seq::<Seq<char>>::empty());
    assert(pointed(r@) =~= Seq::<MuxBox>::empty());
    while i < ids.len()
        invariant
            i <= ids@.len(),
            idsv == ids@.map_values(|s: String| s@),
            pointed(r@) == found_each(boxes@, idsv.take(i as int)),
        decreases ids@.len() - i,
    {
        let ghost before = pointed(r@);
        proof {
            assert(idsv.take(i + 1).drop_last() =~= idsv.take(i as int));
            assert(idsv.take(i + 1).last() == ids@[i as int]@);
        }
        match find_box(boxes, ids[i].as_str()) {
            Some(b) => {
                r.push(b);
                assert(pointed(r@) =~= before + seq![*b]);
            },
            None => {
                assert(pointed(r@) =~= before + Seq::<MuxBox>::empty());
            },
        }
        i = i + 1;
    }
    assert(idsv.take(i as int) =~= idsv);
    r
}

/// The boxes of a layout in tab order.
fn tab_list_boxes<'a>(layout: &'a Layout) -> (r: Vec<&'a MuxBox>)
    ensures
        pointed(r@) == layout.tab_list(),
{
    match &layout.muxbox_ids_in_tab_order {
        Some(ids) => boxes_with_ids(&layout.children, ids),
        None => tab_order_boxes(&layout.children),
    }
}

fn selection_flags(list: &Vec<&MuxBox>) -> (r: Vec<bool>)
    ensures
        r@ == box_flags(pointed(list@)),
{
    let mut r: Vec<bool> = Vec::new();
    let mut i: usize = 0;
    while i < list.len()
        invariant
            i <= list@.len(),
            r@ == box_flags(pointed(list@)).take(i as int),
        decreases list@.len() - i,
    {
        let selected = match list[i].selected {
            Some(v) => v,
            None => false,
        };
        r.push(selected);
        i = i + 1;
        assert(r@ =~= box_flags(pointed(list@)).take(i as int));
    }
    assert(box_flags(pointed(list@)).take(i as int) =~= box_flags(pointed(list@)));
    r
}

/// `after` is the layout `before` with the box that `pick` picks from the
/// selection flags of its tab order selected (and every other box, at any
/// depth, deselected), nothing changing when no box is in the tab order;
/// the layout then keeps the tab order's ids.
pub open spec fn moved_by(before: Layout, after: Layout, pick: spec_fn(Seq<bool>) -> int) -> bool {
    &&& after == (Layout {
        muxbox_ids_in_tab_order: after.muxbox_ids_in_tab_order,
        children: after.children,
        ..before
    })
    &&& after.muxbox_ids_in_tab_order is Some
    &&& after.tab_ids() == before.tab_ids()
    &&& before.tab_list().len() == 0 ==> after.children == before.children
    &&& before.tab_list().len() > 0 ==> after.children@.len() == before.children@.len() && selection_from(
        before.children@,
        after.children@,
        0,
        before.tab_list()[pick(box_flags(before.tab_list()))].id@,
    )
}

/// `after` is the layout `before` with the selection moved forward in tab
/// order.
pub open spec fn moved_next(before: Layout, after: Layout) -> bool {
    moved_by(before, after, |flags: Seq<bool>| spec_next_focus(flags))
}

/// `after` is the layout `before` with the selection moved back in tab
/// order.
pub open spec fn moved_previous(before: Layout, after: Layout) -> bool {
    moved_by(before, after, |flags: Seq<bool>| spec_previous_focus(flags))
}

impl Layout {
    /// The boxes in tab order. The first time, when the layout keeps no list,
    /// these are its boxes that have a tab key, sorted by key (boxes with
    /// equal keys in the order they appear, each box before its children),
    /// and the layout keeps their ids; from then on they are the boxes with
    /// the kept ids.
    pub fn get_muxboxes_in_tab_order(&mut self) -> (r: Vec<&MuxBox>)
        ensures
            *final(self) == (Layout { muxbox_ids_in_tab_order: final(self).muxbox_ids_in_tab_order, ..*old(self) }),
            final(self).muxbox_ids_in_tab_order is Some,
            final(self).tab_ids() == old(self).tab_ids(),
            pointed(r@) == old(self).tab_list(),
    {
        if self.muxbox_ids_in_tab_order.is_none() {
            let ids = tab_order_ids(&self.children);
            self.muxbox_ids_in_tab_order = Some(ids);
            tab_order_boxes(&self.children)
        } else {
            tab_list_boxes(self)
        }
    }

    /// Moves the selection to the next box in tab order (the first one when
    /// none is selected, wrapping after the last); the selection stays when
    /// no box is in the tab order. The layout keeps the tab order's ids.
    pub fn select_next_muxbox(&mut self)
        ensures
            moved_next(*old(self), *final(self)),
    {
        let list = self.get_muxboxes_in_tab_order();
        let flags = selection_flags(&list);
        let chosen: Option<String> = match next_focus_index(&flags) {
            Some(k) => Some(list[k].id.clone()),
            None => None,
        };
        match chosen {
            Some(id) => {
                self.select_only_muxbox(id.as_str());
            },
            None => {},
        }
    }

    /// Moves the selection to the previous box in tab order (the last one
    /// when none is selected, wrapping before the first); the selection stays
    /// when no box is in the tab order. The layout keeps the tab order's ids.
    pub fn select_previous_muxbox(&mut self)
        ensures
            moved_previous(*old(self), *final(self)),
    {
        let list = self.get_muxboxes_in_tab_order();
        let flags = selection_flags(&list);
        let chosen: Option<String> = match previous_focus_index(&flags) {
            Some(k) => Some(list[k].id.clone()),
            None => None,
        };
        match chosen {
            Some(id) => {
                self.select_only_muxbox(id.as_str());
            },
            None => {},
        }
    }
}

/// A top-level box as a freshly loaded layout starts: selected when it is
/// the first box in tab order, and its first choice, if any, selected.
pub open spec fn initially_selected(before: MuxBox, after: MuxBox, first: Option<Seq<char>>) -> bool {
    &&& after == MuxBox {
        selected: if first == Some(before.id@) {
            Some(true)
        } else {
            before.selected
        },
        choices: after.choices,
        ..before
    }
    &&& match before.choices {
        Some(cs) => after.choices matches Some(ds) && ds@ == (if cs@.len() > 0 {
            cs@.update(0, Choice { selected: true, ..cs@[0] })
        } else {
            cs@
        }),
        None => after.choices is None,
    }
}

/// Sets the initial selection of a loaded layout's top-level boxes: the first
/// box in tab order is selected, and so is the first choice of every box.
pub fn set_initial_selection(layout: &mut Layout)
    ensures
        *final(layout) == (Layout { children: final(layout).children, ..*old(layout) }),
        final(layout).children@.len() == old(layout).children@.len(),
        forall|k: int| 0 <= k < old(layout).children@.len() ==> initially_selected(
            #[trigger] old(layout).children@[k],
            final(layout).children@[k],
            old(layout).first_in_tab_order(),
        ),
{
    let first: Option<String> = {
        let list = tab_list_boxes(layout);
        if list.len() > 0 {
            Some(list[0].id.clone())
        } else {
            None
        }
    };
    let ghost first_view = old(layout).first_in_tab_order();
    assert(match first {
        Some(f) => Some(f@),
        None => None,
    } == first_view);
    let n = layout.children.len();
    let mut i: usize = 0;
    while i < n
        invariant
            i <= n == layout.children@.len() == old(layout).children@.len(),
            *layout == (Layout { children: layout.children, ..*old(layout) }),
            (match first {
                Some(f) => Some(f@),
                None => None,
            }) == first_view,
            forall|k: int| i <= k < n ==> #[trigger] layout.children@[k] == old(layout).children@[k],
            forall|k: int| 0 <= k < i ==> initially_selected(#[trigger] old(layout).children@[k], layout.children@[k], first_view),
        decreases n - i,
    {
        let is_first = match &first {
            Some(f) => str_eq(layout.children[i].id.as_str(), f.as_str()),
            None => false,
        };
        let b = &mut layout.children[i];
        if is_first {
            b.selected = Some(true);
        }
        let mut choices: Option<Vec<Choice>> = None;
        std::mem::swap(&mut choices, &mut b.choices);
        match choices {
            Some(mut cs) => {
                if cs.len() > 0 {
                    let c = &mut cs[0];
                    c.selected = true;
                }
                b.choices = Some(cs);
            },
            None => {},
        }
        i = i + 1;
    }
}

/// The first of some boxes with the id `id`.
spec fn first_with_id(s: Seq<MuxBox>, id: Seq<char>) -> Option<MuxBox>
    decreases s.len(),
{
    if s.len() == 0 {
        None
    } else if s[0].id@ == id {
        Some(s[0])
    } else {
        first_with_id(s.drop_first(), id)
    }
}

/// No two of some boxes share an id.
pub open spec fn distinct_ids(s: Seq<MuxBox>) -> bool {
    forall|i: int, j: int| 0 <= i < s.len() && 0 <= j < s.len() && i != j ==> s[i].id@ != s[j].id@
}

proof fn lemma_first_with_id_concat(a: Seq<MuxBox>, b: Seq<MuxBox>, id: Seq<char>)
    ensures
        first_with_id(a + b, id) == (match first_with_id(a, id) {
            Some(x) => Some(x),
            None => first_with_id(b, id),
        }),
    decreases a.len(),
{
    if a.len() == 0 {
        assert(a + b =~= b);
    } else {
        assert((a + b)[0] == a[0]);
        assert((a + b).drop_first() =~= a.drop_first() + b);
        lemma_first_with_id_concat(a.drop_first(), b, id);
    }
}

proof fn lemma_found_is_first(boxes: Seq<MuxBox>, i: int, id: Seq<char>)
    requires
        0 <= i,
    ensures
        found_from(boxes, i, id) == first_with_id(boxes_from(boxes, i), id),
    decreases boxes, boxes.len() - i,
{
    if i < boxes.len() {
        lemma_found_is_first(boxes[i].children@, 0, id);
        lemma_found_is_first(boxes, i + 1, id);
        let head = seq![boxes[i]];
        let kids = boxes_from(boxes[i].children@, 0);
        let rest = boxes_from(boxes, i + 1);
        lemma_first_with_id_concat(head + kids, rest, id);
        lemma_first_with_id_concat(head, kids, id);
        assert(head.drop_first() =~= Seq::<MuxBox>::empty());
        assert(first_with_id(Seq::<MuxBox>::empty(), id) is None);
    } else {
        assert(boxes_from(boxes, i) =~= Seq::<MuxBox>::empty());
    }
}

proof fn lemma_first_with_own_id(s: Seq<MuxBox>, k: int)
    requires
        distinct_ids(s),
        0 <= k < s.len(),
    ensures
        first_with_id(s, s[k].id@) == Some(s[k]),
    decreases s.len(),
{
    if k > 0 {
        assert(s[0].id@ != s[k].id@);
        let t = s.drop_first();
        assert(t[k - 1] == s[k]);
        assert forall|i: int, j: int| 0 <= i < t.len() && 0 <= j < t.len() && i != j implies t[i].id@ != t[j].id@ by {
            assert(t[i] == s[i + 1] && t[j] == s[j + 1]);
        }
        lemma_first_with_own_id(t, k - 1);
    }
}

proof fn lemma_entries_in_tree(boxes: Seq<MuxBox>, i: int)
    requires
        0 <= i,
    ensures
        forall|k: int| 0 <= k < tab_entries_from(boxes, i).len() ==> boxes_from(boxes, i).contains(
            #[trigger] tab_entries_from(boxes, i)[k].1,
        ),
    decreases boxes, boxes.len() - i,
{
    if i < boxes.len() {
        lemma_entries_in_tree(boxes[i].children@, 0);
        lemma_entries_in_tree(boxes, i + 1);
        let head = match boxes[i].tab_order {
            Some(t) => seq![(t@, boxes[i])],
            None => Seq::<TabEntry>::empty(),
        };
        let kid_entries = tab_entries_from(boxes[i].children@, 0);
        let rest_entries = tab_entries_from(boxes, i + 1);
        let kids = boxes_from(boxes[i].children@, 0);
        let rest = boxes_from(boxes, i + 1);
        let all = boxes_from(boxes, i);
        let entries = tab_entries_from(boxes, i);
        assert(entries == head + kid_entries + rest_entries);
        assert(all == seq![boxes[i]] + kids + rest);
        assert forall|k: int| 0 <= k < entries.len() implies all.contains(#[trigger] entries[k].1) by {
            if k < head.len() {
                assert(entries[k] == head[k]);
                assert(all[0] == boxes[i]);
            } else if k < head.len() + kid_entries.len() {
                assert(entries[k] == kid_entries[k - head.len()]);
                assert(kids.contains(kid_entries[k - head.len()].1));
                let j = choose|j: int| 0 <= j < kids.len() && kids[j] == kid_entries[k - head.len()].1;
                assert(all[1 + j] == kids[j]);
            } else {
                let m = k - head.len() - kid_entries.len();
                assert(entries[k] == rest_entries[m]);
                assert(rest.contains(rest_entries[m].1));
                let j = choose|j: int| 0 <= j < rest.len() && rest[j] == rest_entries[m].1;
                assert(all[1 + kids.len() + j] == rest[j]);
            }
        }
    }
}

proof fn lemma_insert_members(s: Seq<TabEntry>, x: TabEntry)
    ensures
        forall|k: int| 0 <= k < insert_sorted(s, x).len() ==> #[trigger] insert_sorted(s, x)[k] == x || s.contains(
            insert_sorted(s, x)[k],
        ),
    decreases s.len(),
{
    if s.len() == 0 {
    } else if key_le(s.last().0, x.0) {
        assert forall|k: int| 0 <= k < insert_sorted(s, x).len() implies #[trigger] insert_sorted(s, x)[k] == x
            || s.contains(insert_sorted(s, x)[k]) by {
            if k < s.len() {
                assert(insert_sorted(s, x)[k] == s[k]);
            }
        }
    } else {
        let t = s.drop_last();
        lemma_insert_members(t, x);
        assert forall|k: int| 0 <= k < insert_sorted(s, x).len() implies #[trigger] insert_sorted(s, x)[k] == x
            || s.contains(insert_sorted(s, x)[k]) by {
            let r = insert_sorted(t, x);
            if k < r.len() {
                assert(insert_sorted(s, x)[k] == r[k]);
                if r[k] != x {
                    assert(t.contains(r[k]));
                    let j = choose|j: int| 0 <= j < t.len() && t[j] == r[k];
                    assert(s[j] == t[j]);
                }
            } else {
                assert(insert_sorted(s, x)[k] == s.last());
                assert(s[s.len() - 1] == s.last());
            }
        }
    }
}

proof fn lemma_sorted_members(s: Seq<TabEntry>)
    ensures
        forall|k: int| 0 <= k < stable_sorted(s).len() ==> s.contains(#[trigger] stable_sorted(s)[k]),
    decreases s.len(),
{
    if s.len() > 0 {
        let t = s.drop_last();
        lemma_sorted_members(t);
        lemma_insert_members(stable_sorted(t), s.last());
        assert forall|k: int| 0 <= k < stable_sorted(s).len() implies s.contains(#[trigger] stable_sorted(s)[k]) by {
            let e = stable_sorted(s)[k];
            assert(e == insert_sorted(stable_sorted(t), s.last())[k]);
            if e == s.last() {
                assert(s[s.len() - 1] == e);
            } else {
                assert(stable_sorted(t).contains(e));
                let j = choose|j: int| 0 <= j < stable_sorted(t).len() && stable_sorted(t)[j] == e;
                assert(t.contains(stable_sorted(t)[j]));
                let m = choose|m: int| 0 <= m < t.len() && t[m] == e;
                assert(s[m] == t[m]);
            }
        }
    }
}

proof fn lemma_found_each_own(boxes: Seq<MuxBox>, s: Seq<MuxBox>)
    requires
        forall|k: int| 0 <= k < s.len() ==> found_from(boxes, 0, (#[trigger] s[k]).id@) == Some(s[k]),
    ensures
        found_each(boxes, box_ids(s)) == s,
    decreases s.len(),
{
    if s.len() == 0 {
        assert(box_ids(s).len() == 0);
    } else {
        let t = s.drop_last();
        assert forall|k: int| 0 <= k < t.len() implies found_from(boxes, 0, (#[trigger] t[k]).id@) == Some(t[k]) by {
            assert(t[k] == s[k]);
        }
        lemma_found_each_own(boxes, t);
        assert(box_ids(s).drop_last() =~= box_ids(t));
        assert(box_ids(s).last() == s[s.len() - 1].id@);
        assert(found_from(boxes, 0, s[s.len() - 1].id@) == Some(s[s.len() - 1]));
        assert(t + seq![s.last()] =~= s);
    }
}

proof fn lemma_tab_list_by_ids(l: Layout)
    requires
        distinct_ids(boxes_from(l.children@, 0)),
    ensures
        l.tab_list() == found_each(l.children@, l.tab_ids()),
{
    if l.muxbox_ids_in_tab_order is None {
        let ch = l.children@;
        let all = boxes_from(ch, 0);
        let entries = tab_entries_from(ch, 0);
        let sorted = tab_order(ch);
        let list = sorted.map_values(|e: TabEntry| e.1);
        lemma_entries_in_tree(ch, 0);
        lemma_sorted_members(entries);
        assert forall|k: int| 0 <= k < list.len() implies found_from(ch, 0, (#[trigger] list[k]).id@) == Some(list[k]) by {
            assert(list[k] == sorted[k].1);
            assert(entries.contains(sorted[k]));
            let j = choose|j: int| 0 <= j < entries.len() && entries[j] == sorted[k];
            assert(all.contains(entries[j].1));
            let m = choose|m: int| 0 <= m < all.len() && all[m] == entries[j].1;
            lemma_first_with_own_id(all, m);
            lemma_found_is_first(ch, 0, list[k].id@);
        }
        lemma_found_each_own(ch, list);
        assert(box_ids(list) =~= sorted.map_values(|e: TabEntry| e.1.id@));
    }
}

/// Once a layout whose boxes have distinct ids has worked out and kept its
/// tab order, the tab order it gives is the same as before, as long as its
/// boxes stay the same.
pub proof fn law_kept_tab_order_unchanged(before: Layout, after: Layout)
    requires
        before.muxbox_ids_in_tab_order is None,
        distinct_ids(boxes_from(before.children@, 0)),
        after == (Layout { muxbox_ids_in_tab_order: after.muxbox_ids_in_tab_order, ..before }),
        after.muxbox_ids_in_tab_order is Some,
        after.tab_ids() == before.tab_ids(),
    ensures
        after.tab_list() == before.tab_list(),
{
    lemma_tab_list_by_ids(before);
}

proof fn lemma_found_after_selection(b0: Seq<MuxBox>, b1: Seq<MuxBox>, i: int, c: Seq<char>, id: Seq<char>)
    requires
        0 <= i,
        b1.len() == b0.len(),
        selection_from(b0, b1, i, c),
    ensures
        found_from(b1, i, id) is Some == found_from(b0, i, id) is Some,
        found_from(b0, i, id) matches Some(x) ==> found_from(b1, i, id)->0.id == x.id && found_from(b1, i, id)->0.selected
            == Some(x.id@ == c),
    decreases b0, b0.len() - i,
{
    if i < b0.len() {
        assert(b1[i].id == b0[i].id);
        lemma_found_after_selection(b0[i].children@, b1[i].children@, 0, c, id);
        lemma_found_after_selection(b0, b1, i + 1, c, id);
    }
}

proof fn lemma_found_each_after_selection(b0: Seq<MuxBox>, b1: Seq<MuxBox>, c: Seq<char>, ids: Seq<Seq<char>>)
    requires
        b1.len() == b0.len(),
        selection_from(b0, b1, 0, c),
    ensures
        found_each(b1, ids).len() == found_each(b0, ids).len(),
        forall|k: int| 0 <= k < found_each(b0, ids).len() ==> (#[trigger] found_each(b1, ids)[k]).id == found_each(b0, ids)[k].id
            && found_each(b1, ids)[k].selected == Some(found_each(b0, ids)[k].id@ == c),
    decreases ids.len(),
{
    if ids.len() > 0 {
        lemma_found_each_after_selection(b0, b1, c, ids.drop_last());
        lemma_found_after_selection(b0, b1, 0, c, ids.last());
        let p0 = found_each(b0, ids.drop_last());
        let p1 = found_each(b1, ids.drop_last());
        assert forall|k: int| 0 <= k < found_each(b0, ids).len() implies (#[trigger] found_each(b1, ids)[k]).id
            == found_each(b0, ids)[k].id && found_each(b1, ids)[k].selected == Some(found_each(b0, ids)[k].id@ == c) by {
            if k < p0.len() {
                assert(found_each(b0, ids)[k] == p0[k]);
                assert(found_each(b1, ids)[k] == p1[k]);
            }
        }
    }
}

proof fn lemma_flags_after_selection(t0: Seq<MuxBox>, t1: Seq<MuxBox>, q: int)
    requires
        distinct_ids(t0),
        0 <= q < t0.len(),
        t1.len() == t0.len(),
        forall|k: int| 0 <= k < t0.len() ==> (#[trigger] t1[k]).id == t0[k].id && t1[k].selected == Some(t0[k].id@ == t0[q].id@),
    ensures
        box_flags(t1) == only_selected(t0.len(), q),
{
    assert forall|k: int| 0 <= k < t0.len() implies #[trigger] box_flags(t1)[k] == only_selected(t0.len(), q)[k] by {
        assert(t1[k].selected == Some(t0[k].id@ == t0[q].id@));
        if k != q {
            assert(t0[k].id@ != t0[q].id@);
        }
    }
    assert(box_flags(t1) =~= only_selected(t0.len(), q));
}

/// In a layout whose boxes have distinct ids, and whose tab order holds
/// distinct boxes with exactly one of them selected, moving the selection
/// forward and then back selects again the box it started on, and only it
/// in the tab order.
pub proof fn law_next_then_previous_restores(l0: Layout, l1: Layout, l2: Layout, p: int)
    requires
        distinct_ids(boxes_from(l0.children@, 0)),
        distinct_ids(l0.tab_list()),
        0 <= p < l0.tab_list().len(),
        box_flags(l0.tab_list()) == only_selected(l0.tab_list().len(), p),
        moved_next(l0, l1),
        moved_previous(l1, l2),
    ensures
        box_ids(l2.tab_list()) == box_ids(l0.tab_list()),
        box_flags(l2.tab_list()) == only_selected(l0.tab_list().len(), p),
{
    let t0 = l0.tab_list();
    let n = t0.len();
    let ids = l0.tab_ids();
    lemma_tab_list_by_ids(l0);
    crate::focus::law_next_is_following_box(n, p);
    let q = spec_next_focus(box_flags(t0));
    assert(q == (p + 1) % (n as int));
    assert(0 <= q < n);
    let c1 = t0[q].id@;
    assert(selection_from(l0.children@, l1.children@, 0, c1));
    let t1 = l1.tab_list();
    assert(l1.tab_ids() == ids);
    assert(t1 == found_each(l1.children@, ids));
    lemma_found_each_after_selection(l0.children@, l1.children@, c1, ids);
    lemma_flags_after_selection(t0, t1, q);
    law_next_then_previous_returns(n, p);
    let r = spec_previous_focus(box_flags(t1));
    assert(r == p);
    let c2 = t1[r].id@;
    assert(c2 == t0[p].id@);
    assert(selection_from(l1.children@, l2.children@, 0, c2));
    let t2 = l2.tab_list();
    assert(l2.tab_ids() == ids);
    assert(t2 == found_each(l2.children@, ids));
    lemma_found_each_after_selection(l1.children@, l2.children@, c2, ids);
    assert forall|k: int| 0 <= k < n implies (#[trigger] t2[k]).id == t0[k].id && t2[k].selected == Some(t0[k].id@ == t0[p].id@) by {
        assert(t2[k].id == t1[k].id);
        assert(t1[k].id == t0[k].id);
    }
    lemma_flags_after_selection(t0, t2, p);
    assert(box_ids(t2) =~= box_ids(t0));
}

} // verus!
