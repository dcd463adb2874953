use vstd::prelude::*;
use serde_yaml::value::TaggedValue;
use serde_yaml::Number;
use crate::position::InputBounds;
use crate::text::str_eq;

verus! {

#[verifier::external_type_specification]
#[verifier::external_body]
pub struct ExNumber(serde_yaml::Number);

#[verifier::external_type_specification]
#[verifier::external_body]
pub struct ExTaggedValue(serde_yaml::value::TaggedValue);

/// `Number::clone`: a YAML number is a plain integer or float, and its clone
/// is the same number.
pub assume_specification[ <serde_yaml::Number as Clone>::clone ](n: &serde_yaml::Number) -> (r: serde_yaml::Number)
    ensures
        r == *n,
;

/// `TaggedValue::clone`: the derived clone of a tag and its value, the same
/// tagged value.
pub assume_specification[ <serde_yaml::value::TaggedValue as Clone>::clone ](t: &serde_yaml::value::TaggedValue) -> (r: serde_yaml::value::TaggedValue)
    ensures
        r == *t,
;

/// A node of a YAML document, as the editing of layout files sees it:
/// mappings keep their entries in order, numbers and tagged values are
/// carried through untouched.
#[derive(Debug)]
pub enum YamlNode {
    Null,
    Bool(bool),
    Number(Number),
    String(String),
    Sequence(Vec<YamlNode>),
    Mapping(Vec<(YamlNode, YamlNode)>),
    Tagged(Box<TaggedValue>),
}

/// An entry of a mapping: its key and its value.
pub type YamlPair = (YamlNode, YamlNode);

/// `a` and `b` are the same document: same kinds, texts, numbers, tags and
/// entries, in the same order.
pub open spec fn same(a: YamlNode, b: YamlNode) -> bool
    decreases a, 0int,
{
    match a {
        YamlNode::Null => b is Null,
        YamlNode::Bool(x) => b == YamlNode::Bool(x),
        YamlNode::Number(n) => b == YamlNode::Number(n),
        YamlNode::String(s) => b matches YamlNode::String(t) && t@ == s@,
        YamlNode::Sequence(items) => b matches YamlNode::Sequence(others) && others@.len() == items@.len() && same_items(
            items@,
            others@,
            0,
        ),
        YamlNode::Mapping(pairs) => b matches YamlNode::Mapping(others) && others@.len() == pairs@.len() && same_pairs(
            pairs@,
            others@,
            0,
        ),
        YamlNode::Tagged(t) => b == YamlNode::Tagged(t),
    }
}

/// The items from the `i`-th on are the same in `u` and `w`.
pub open spec fn same_items(u: Seq<YamlNode>, w: Seq<YamlNode>, i: int) -> bool
    decreases u, u.len() - i,
{
    if 0 <= i < u.len() {
        same(u[i], w[i]) && same_items(u, w, i + 1)
    } else {
        true
    }
}

/// The entries from the `i`-th on are the same in `u` and `w`.
pub open spec fn same_pairs(u: Seq<YamlPair>, w: Seq<YamlPair>, i: int) -> bool
    decreases u, u.len() - i,
{
    if 0 <= i < u.len() {
        same(u[i].0, w[i].0) && same(u[i].1, w[i].1) && same_pairs(u, w, i + 1)
    } else {
        true
    }
}

/// A copy of a document.
pub fn copy_node(v: &YamlNode) -> (r: YamlNode)
    ensures
        same(*v, r),
    decreases v,
{
    match v {
        YamlNode::Null => YamlNode::Null,
        YamlNode::Bool(b) => YamlNode::Bool(*b),
        YamlNode::Number(n) => YamlNode::Number(n.clone()),
        YamlNode::String(s) => YamlNode::String(s.clone()),
        YamlNode::Sequence(items) => {
            let mut out: Vec<YamlNode> = Vec::new();
            let mut i: usize = 0;
            while i < items.len()
                invariant
                    *v == YamlNode::Sequence(*items),
                    i <= items@.len(),
                    out@.len() == i,
                    forall|j: int| 0 <= j < i ==> same(#[trigger] items@[j], out@[j]),
                decreases items@.len() - i,
            {
                proof {
                    assert(decreases_to!(*v => (*v)->Sequence_0));
                    assert(decreases_to!(*items => items[i as int]));
                }
                let c = copy_node(&items[i]);
                out.push(c);
                i = i + 1;
            }
            proof {
                lemma_same_items_from(items@, out@, 0);
            }
            YamlNode::Sequence(out)
        },
        YamlNode::Mapping(pairs) => {
            let mut out: Vec<YamlPair> = Vec::new();
            let mut i: usize = 0;
            while i < pairs.len()
                invariant
                    *v == YamlNode::Mapping(*pairs),
                    i <= pairs@.len(),
                    out@.len() == i,
                    forall|j: int| 0 <= j < i ==> same((#[trigger] pairs@[j]).0, out@[j].0) && same(pairs@[j].1, out@[j].1),
                decreases pairs@.len() - i,
            {
                proof {
                    assert(decreases_to!(*v => (*v)->Mapping_0));
                    assert(decreases_to!(*pairs => pairs[i as int]));
                    assert(decreases_to!(pairs[i as int] => pairs[i as int].0));
                    assert(decreases_to!(pairs[i as int] => pairs[i as int].1));
                }
                let k = copy_node(&pairs[i].0);
                let x = copy_node(&pairs[i].1);
                out.push((k, x));
                i = i + 1;
            }
            proof {
                lemma_same_pairs_from(pairs@, out@, 0);
            }
            YamlNode::Mapping(out)
        },
        YamlNode::Tagged(t) => {
            let inner: TaggedValue = (**t).clone();
            YamlNode::Tagged(Box::new(inner))
        },
    }
}

proof fn lemma_same_items_from(u: Seq<YamlNode>, w: Seq<YamlNode>, i: int)
    requires
        0 <= i,
        w.len() == u.len(),
        forall|j: int| 0 <= j < u.len() ==> same(#[trigger] u[j], w[j]),
    ensures
        same_items(u, w, i),
    decreases u.len() - i,
{
    if i < u.len() {
        lemma_same_items_from(u, w, i + 1);
    }
}

proof fn lemma_same_pairs_from(u: Seq<YamlPair>, w: Seq<YamlPair>, i: int)
    requires
        0 <= i,
        w.len() == u.len(),
        forall|j: int| 0 <= j < u.len() ==> same((#[trigger] u[j]).0, w[j].0) && same(u[j].1, w[j].1),
    ensures
        same_pairs(u, w, i),
    decreases u.len() - i,
{
    if i < u.len() {
        lemma_same_pairs_from(u, w, i + 1);
    }
}

/// A key that is the text `name`.
pub open spec fn key_is(k: YamlNode, name: Seq<char>) -> bool {
    k matches YamlNode::String(s) && s@ == name
}

/// A text node holding `text`.
pub open spec fn text_is(text: Seq<char>) -> spec_fn(YamlNode) -> bool {
    |x: YamlNode| x matches YamlNode::String(s) && s@ == text
}

/// Position of the first entry from the `i`-th on whose key is the text
/// `name`.
pub open spec fn key_position_from(pairs: Seq<YamlPair>, name: Seq<char>, i: int) -> Option<int>
    decreases pairs.len() - i,
{
    if 0 <= i < pairs.len() {
        if key_is(pairs[i].0, name) {
            Some(i)
        } else {
            key_position_from(pairs, name, i + 1)
        }
    } else {
        None
    }
}

/// Position of the entry whose key is the text `name`.
pub open spec fn key_position(pairs: Seq<YamlPair>, name: Seq<char>) -> Option<int> {
    key_position_from(pairs, name, 0)
}

/// The value of the entry whose key is the text `name`.
pub open spec fn lookup(pairs: Seq<YamlPair>, name: Seq<char>) -> Option<YamlNode> {
    match key_position(pairs, name) {
        Some(k) => Some(pairs[k].1),
        None => None,
    }
}

/// `after` is the entries `before` with the key `key` set to a value that
/// `ok` accepts: in place of the old value when the key is there (the key
/// stays where it is), else as a new last entry.
pub open spec fn inserted(before: Seq<YamlPair>, after: Seq<YamlPair>, key: Seq<char>, ok: spec_fn(YamlNode) -> bool) -> bool {
    match key_position(before, key) {
        Some(k) => {
            &&& after.len() == before.len()
            &&& after[k].0 == before[k].0
            &&& ok(after[k].1)
            &&& forall|j: int| 0 <= j < before.len() && j != k ==> #[trigger] after[j] == before[j]
        },
        None => {
            &&& after.len() == before.len() + 1
            &&& forall|j: int| 0 <= j < before.len() ==> #[trigger] after[j] == before[j]
            &&& key_is(after[before.len() as int].0, key)
            &&& ok(after[before.len() as int].1)
        },
    }
}

fn key_index(pairs: &Vec<YamlPair>, name: &str) -> (r: Option<usize>)
    ensures
        (match r {
            Some(k) => Some(k as int),
            None => None,
        }) == key_position(pairs@, name@),
        r matches Some(k) ==> k < pairs@.len(),
{
    let mut i: usize = 0;
    while i < pairs.len()
        invariant
            i <= pairs@.len(),
            key_position(pairs@, name@) == key_position_from(pairs@, name@, i as int),
        decreases pairs@.len() - i,
    {
        let found = match &pairs[i].0 {
            YamlNode::String(s) => str_eq(s.as_str(), name),
            _ => false,
        };
        if found {
            return Some(i);
        }
        i = i + 1;
    }
    None
}

/// Sets the key `key` to `value`, in place when it is there, else as a new
/// last entry.
fn insert_pair(pairs: &mut Vec<YamlPair>, key: &str, value: YamlNode, ok: Ghost<spec_fn(YamlNode) -> bool>)
    requires
        ok@(value),
    ensures
        inserted(old(pairs)@, final(pairs)@, key@, ok@),
{
    match key_index(pairs, key) {
        Some(k) => {
            let entry = &mut pairs[k];
            entry.1 = value;
        },
        None => {
            pairs.push((YamlNode::String(String::from_str(key)), value));
        },
    }
}

/// A mapping whose `id` entry is the text `id`: the box an edit addresses.
pub open spec fn is_target(node: YamlNode, id: Seq<char>) -> bool {
    node matches YamlNode::Mapping(pairs) && lookup(pairs@, "id"@) matches Some(v) && key_is(v, id)
}

/// The box with the id `id` is `node` or lies somewhere inside it (in the
/// values of mappings and the items of sequences).
pub open spec fn contains_target(node: YamlNode, id: Seq<char>) -> bool
    decreases node, 0int,
{
    is_target(node, id) || match node {
        YamlNode::Mapping(pairs) => values_contain(pairs@, id, 0),
        YamlNode::Sequence(items) => items_contain(items@, id, 0),
        _ => false,
    }
}

/// One of the values from the `i`-th entry on holds the box.
pub open spec fn values_contain(pairs: Seq<YamlPair>, id: Seq<char>, i: int) -> bool
    decreases pairs, pairs.len() - i,
{
    if 0 <= i < pairs.len() {
        contains_target(pairs[i].1, id) || values_contain(pairs, id, i + 1)
    } else {
        false
    }
}

/// One of the items from the `i`-th on holds the box.
pub open spec fn items_contain(items: Seq<YamlNode>, id: Seq<char>, i: int) -> bool
    decreases items, items.len() - i,
{
    if 0 <= i < items.len() {
        contains_target(items[i], id) || items_contain(items, id, i + 1)
    } else {
        false
    }
}

/// What an edit does to the box it addresses.
pub enum TargetEdit<'a> {
    /// Sets a field of the box to a copy of a value.
    Field(&'a str, &'a YamlNode),
    /// Sets the box's position to these coordinates.
    Bounds(&'a InputBounds),
}

/// `after` is the position entries `before` with `x1`, `y1`, `x2` and `y2`
/// set, in this order, to the texts of `b`.
pub open spec fn position_written(before: Seq<YamlPair>, after: Seq<YamlPair>, b: InputBounds) -> bool {
    exists|p1: Seq<YamlPair>, p2: Seq<YamlPair>, p3: Seq<YamlPair>|
        {
            &&& #[trigger] inserted(before, p1, "x1"@, text_is(b.x1@))
            &&& #[trigger] inserted(p1, p2, "y1"@, text_is(b.y1@))
            &&& #[trigger] inserted(p2, p3, "x2"@, text_is(b.x2@))
            &&& inserted(p3, after, "y2"@, text_is(b.y2@))
        }
}

/// `after` is the entries `before` of a box with its position set to `b`:
/// written into the box's position mapping when it has one, else as a new
/// position mapping (in place of the old value, or as a new last entry).
pub open spec fn bounds_set(before: Seq<YamlPair>, after: Seq<YamlPair>, b: InputBounds) -> bool {
    let pos = key_position(before, "position"@);
    if pos is Some && before[pos->0].1 is Mapping {
        let k = pos->0;
        &&& after.len() == before.len()
        &&& after[k].0 == before[k].0
        &&& (after[k].1 matches YamlNode::Mapping(q) && position_written(before[k].1->Mapping_0@, q@, b))
        &&& forall|j: int| 0 <= j < before.len() && j != k ==> #[trigger] after[j] == before[j]
    } else {
        inserted(
            before,
            after,
            "position"@,
            |x: YamlNode| x matches YamlNode::Mapping(q) && position_written(Seq::empty(), q@, b),
        )
    }
}

/// `after` is the box `before` with the edit made.
pub open spec fn edit_applied<'a>(before: YamlNode, after: YamlNode, edit: TargetEdit<'a>) -> bool {
    match before {
        YamlNode::Mapping(bp) => after matches YamlNode::Mapping(ap) && match edit {
            TargetEdit::Field(name, v) => inserted(bp@, ap@, name@, |x: YamlNode| same(*v, x)),
            TargetEdit::Bounds(b) => bounds_set(bp@, ap@, *b),
        },
        _ => false,
    }
}

/// `after` is the document `before` with the edit made to the first box with
/// the id `id` (a mapping before what it holds, entries and items in order);
/// nothing else changes.
pub open spec fn edited<'a>(before: YamlNode, after: YamlNode, id: Seq<char>, edit: TargetEdit<'a>) -> bool
    decreases before, 0int,
{
    if is_target(before, id) {
        edit_applied(before, after, edit)
    } else {
        match before {
            YamlNode::Mapping(bp) => after matches YamlNode::Mapping(ap) && ap@.len() == bp@.len() && values_edited(
                bp@,
                ap@,
                0,
                id,
                edit,
            ),
            YamlNode::Sequence(bi) => after matches YamlNode::Sequence(ai) && ai@.len() == bi@.len() && items_edited(
                bi@,
                ai@,
                0,
                id,
                edit,
            ),
            _ => false,
        }
    }
}

/// The first value from the `i`-th entry on that holds the box is edited;
/// the other entries stay.
pub open spec fn values_edited<'a>(bp: Seq<YamlPair>, ap: Seq<YamlPair>, i: int, id: Seq<char>, edit: TargetEdit<'a>) -> bool
    decreases bp, bp.len() - i,
{
    if 0 <= i < bp.len() {
        if contains_target(bp[i].1, id) {
            &&& ap[i].0 == bp[i].0
            &&& edited(bp[i].1, ap[i].1, id, edit)
            &&& forall|j: int| i < j < bp.len() ==> ap[j] == bp[j]
        } else {
            ap[i] == bp[i] && values_edited(bp, ap, i + 1, id, edit)
        }
    } else {
        false
    }
}

/// The first item from the `i`-th on that holds the box is edited; the other
/// items stay.
pub open spec fn items_edited<'a>(bi: Seq<YamlNode>, ai: Seq<YamlNode>, i: int, id: Seq<char>, edit: TargetEdit<'a>) -> bool
    decreases bi, bi.len() - i,
{
    if 0 <= i < bi.len() {
        if contains_target(bi[i], id) {
            &&& edited(bi[i], ai[i], id, edit)
            &&& forall|j: int| i < j < bi.len() ==> ai[j] == bi[j]
        } else {
            ai[i] == bi[i] && items_edited(bi, ai, i + 1, id, edit)
        }
    } else {
        false
    }
}

fn is_target_exec(node: &YamlNode, id: &str) -> (r: bool)
    ensures
        r == is_target(*node, id@),
{
    match node {
        YamlNode::Mapping(pairs) => match key_index(pairs, "id") {
            Some(k) => match &pairs[k].1 {
                YamlNode::String(s) => str_eq(s.as_str(), id),
                _ => false,
            },
            None => false,
        },
        _ => false,
    }
}

fn contains_target_exec(node: &YamlNode, id: &str) -> (r: bool)
    ensures
        r == contains_target(*node, id@),
    decreases node,
{
    if is_target_exec(node, id) {
        return true;
    }
    match node {
        YamlNode::Mapping(pairs) => {
            let mut i: usize = 0;
            while i < pairs.len()
                invariant
                    *node == YamlNode::Mapping(*pairs),
                    i <= pairs@.len(),
                    values_contain(pairs@, id@, 0) == values_contain(pairs@, id@, i as int),
                decreases pairs@.len() - i,
            {
                proof {
                    assert(decreases_to!(*node => (*node)->Mapping_0));
                    assert(decreases_to!(*pairs => pairs[i as int]));
                    assert(decreases_to!(pairs[i as int] => pairs[i as int].1));
                }
                if contains_target_exec(&pairs[i].1, id) {
                    return true;
                }
                i = i + 1;
            }
            false
        },
        YamlNode::Sequence(items) => {
            let mut i: usize = 0;
            while i < items.len()
                invariant
                    *node == YamlNode::Sequence(*items),
                    i <= items@.len(),
                    items_contain(items@, id@, 0) == items_contain(items@, id@, i as int),
                decreases items@.len() - i,
            {
                proof {
                    assert(decreases_to!(*node => (*node)->Sequence_0));
                    assert(decreases_to!(*items => items[i as int]));
                }
                if contains_target_exec(&items[i], id) {
                    return true;
                }
                i = i + 1;
            }
            false
        },
        _ => false,
    }
}

/// Writes `x1`, `y1`, `x2` and `y2`, in this order, into position entries.
fn write_position(pp: &mut Vec<YamlPair>, b: &InputBounds)
    ensures
        position_written(old(pp)@, final(pp)@, *b),
{
    let ghost p0 = pp@;
    insert_pair(pp, "x1", YamlNode::String(b.x1.clone()), Ghost(text_is(b.x1@)));
    let ghost p1 = pp@;
    insert_pair(pp, "y1", YamlNode::String(b.y1.clone()), Ghost(text_is(b.y1@)));
    let ghost p2 = pp@;
    insert_pair(pp, "x2", YamlNode::String(b.x2.clone()), Ghost(text_is(b.x2@)));
    let ghost p3 = pp@;
    insert_pair(pp, "y2", YamlNode::String(b.y2.clone()), Ghost(text_is(b.y2@)));
    assert(inserted(p0, p1, "x1"@, text_is(b.x1@)));
    assert(inserted(p1, p2, "y1"@, text_is(b.y1@)));
    assert(inserted(p2, p3, "x2"@, text_is(b.x2@)));
    assert(inserted(p3, pp@, "y2"@, text_is(b.y2@)));
}

/// Makes the edit to the box `node`.
fn apply_edit<'a>(node: &mut YamlNode, edit: &TargetEdit<'a>)
    requires
        *old(node) is Mapping,
    ensures
        edit_applied(*old(node), *final(node), *edit),
{
    match node {
        YamlNode::Mapping(pairs) => match edit {
            TargetEdit::Field(name, v) => {
                let c = copy_node(v);
                insert_pair(pairs, name, c, Ghost(|x: YamlNode| same(**v, x)));
            },
            TargetEdit::Bounds(b) => {
                let pos = key_index(pairs, "position");
                let is_map = match pos {
                    Some(k) => match &pairs[k].1 {
                        YamlNode::Mapping(_) => true,
                        _ => false,
                    },
                    None => false,
                };
                if is_map {
                    let k = pos.unwrap();
                    let entry = &mut pairs[k];
                    match &mut entry.1 {
                        YamlNode::Mapping(pp) => {
                            write_position(pp, b);
                        },
                        _ => {},
                    }
                } else {
                    let mut fresh: Vec<YamlPair> = Vec::new();
                    write_position(&mut fresh, b);
                    insert_pair(
                        pairs,
                        "position",
                        YamlNode::Mapping(fresh),
                        Ghost(|x: YamlNode| x matches YamlNode::Mapping(q) && position_written(Seq::empty(), q@, **b)),
                    );
                }
            },
        },
        _ => {},
    }
}

/// An entry that neither holds the box nor changed.
spec fn untouched_pair(a: YamlPair, b: YamlPair, id: Seq<char>) -> bool {
    a == b && !contains_target(b.1, id)
}

/// An item that neither holds the box nor changed.
spec fn untouched_item(a: YamlNode, b: YamlNode, id: Seq<char>) -> bool {
    a == b && !contains_target(b, id)
}

proof fn lemma_key_position_in_range(pairs: Seq<YamlPair>, name: Seq<char>, i: int)
    requires
        0 <= i,
    ensures
        key_position_from(pairs, name, i) matches Some(k) ==> i <= k < pairs.len(),
    decreases pairs.len() - i,
{
    if i < pairs.len() {
        lemma_key_position_in_range(pairs, name, i + 1);
    }
}

proof fn lemma_values_edited_prefix<'a>(
    bp: Seq<YamlPair>,
    ap: Seq<YamlPair>,
    k: int,
    i: int,
    id: Seq<char>,
    edit: TargetEdit<'a>,
)
    requires
        0 <= k <= i < bp.len(),
        forall|j: int| k <= j < i ==> #[trigger] untouched_pair(ap[j], bp[j], id),
        values_edited(bp, ap, i, id, edit),
    ensures
        values_edited(bp, ap, k, id, edit),
    decreases i - k,
{
    if k < i {
        assert forall|j: int| k + 1 <= j < i implies #[trigger] untouched_pair(ap[j], bp[j], id) by {
            assert(k <= j < i);
        }
        lemma_values_edited_prefix(bp, ap, k + 1, i, id, edit);
        assert(untouched_pair(ap[k], bp[k], id));
    }
}

proof fn lemma_items_edited_prefix<'a>(
    bi: Seq<YamlNode>,
    ai: Seq<YamlNode>,
    k: int,
    i: int,
    id: Seq<char>,
    edit: TargetEdit<'a>,
)
    requires
        0 <= k <= i < bi.len(),
        forall|j: int| k <= j < i ==> #[trigger] untouched_item(ai[j], bi[j], id),
        items_edited(bi, ai, i, id, edit),
    ensures
        items_edited(bi, ai, k, id, edit),
    decreases i - k,
{
    if k < i {
        assert forall|j: int| k + 1 <= j < i implies #[trigger] untouched_item(ai[j], bi[j], id) by {
            assert(k <= j < i);
        }
        lemma_items_edited_prefix(bi, ai, k + 1, i, id, edit);
        assert(untouched_item(ai[k], bi[k], id));
    }
}

fn first_value_holding(pairs: &Vec<YamlPair>, id: &str) -> (r: Option<usize>)
    ensures
        r matches Some(k) ==> k < pairs@.len() && contains_target(pairs@[k as int].1, id@) && forall|j: int|
            0 <= j < k ==> !contains_target(#[trigger] pairs@[j].1, id@),
        r is None <==> !values_contain(pairs@, id@, 0),
{
    let mut i: usize = 0;
    while i < pairs.len()
        invariant
            i <= pairs@.len(),
            values_contain(pairs@, id@, 0) == values_contain(pairs@, id@, i as int),
            forall|j: int| 0 <= j < i ==> !contains_target(#[trigger] pairs@[j].1, id@),
        decreases pairs@.len() - i,
    {
        if contains_target_exec(&pairs[i].1, id) {
            return Some(i);
        }
        i = i + 1;
    }
    None
}

fn first_item_holding(items: &Vec<YamlNode>, id: &str) -> (r: Option<usize>)
    ensures
        r matches Some(k) ==> k < items@.len() && contains_target(items@[k as int], id@) && forall|j: int|
            0 <= j < k ==> !contains_target(#[trigger] items@[j], id@),
        r is None <==> !items_contain(items@, id@, 0),
{
    let mut i: usize = 0;
    while i < items.len()
        invariant
            i <= items@.len(),
            items_contain(items@, id@, 0) == items_contain(items@, id@, i as int),
            forall|j: int| 0 <= j < i ==> !contains_target(#[trigger] items@[j], id@),
        decreases items@.len() - i,
    {
        if contains_target_exec(&items[i], id) {
            return Some(i);
        }
        i = i + 1;
    }
    None
}

/// Makes the edit to the first box with the id `id` in the document;
/// answers whether there was one. Nothing changes when there is none.
fn edit_target<'a>(node: &mut YamlNode, id: &str, edit: &TargetEdit<'a>) -> (found: bool)
    ensures
        found == contains_target(*old(node), id@),
        !found ==> *final(node) == *old(node),
        found ==> edited(*old(node), *final(node), id@, *edit),
    decreases *old(node),
{
    if is_target_exec(node, id) {
        apply_edit(node, edit);
        return true;
    }
    match node {
        YamlNode::Mapping(pairs) => {
            let ghost bp = pairs@;
            match first_value_holding(pairs, id) {
                Some(k) => {
                    proof {
                        assert(decreases_to!(*old(node) => (*old(node))->Mapping_0));
                        assert(decreases_to!(*pairs => pairs[k as int]));
                        assert(decreases_to!(pairs[k as int] => pairs[k as int].1));
                    }
                    let entry = &mut pairs[k];
                    edit_target(&mut entry.1, id, edit);
                    proof {
                        let ap = pairs@;
                        assert(ap[k as int].0 == bp[k as int].0);
                        assert(forall|j: int| 0 <= j < bp.len() && j != k ==> #[trigger] ap[j] == bp[j]);
                        assert(values_edited(bp, ap, k as int, id@, *edit));
                        lemma_values_edited_prefix(bp, ap, 0, k as int, id@, *edit);
                    }
                    true
                },
                None => false,
            }
        },
        YamlNode::Sequence(items) => {
            let ghost bi = items@;
            match first_item_holding(items, id) {
                Some(k) => {
                    proof {
                        assert(decreases_to!(*old(node) => (*old(node))->Sequence_0));
                        assert(decreases_to!(*items => items[k as int]));
                    }
                    edit_target(&mut items[k], id, edit);
                    proof {
                        let ai = items@;
                        assert(forall|j: int| 0 <= j < bi.len() && j != k ==> #[trigger] ai[j] == bi[j]);
                        assert(items_edited(bi, ai, k as int, id@, *edit));
                        lemma_items_edited_prefix(bi, ai, 0, k as int, id@, *edit);
                    }
                    true
                },
                None => false,
            }
        },
        _ => false,
    }
}

/// Sets the field `field_name` of the first box with the id
/// `target_muxbox_id` in a layout document to a copy of `new_value`, and
/// answers whether there was such a box; it never fails. Nothing changes when
/// there is none.
pub fn update_muxbox_field_recursive(
    value: &mut YamlNode,
    target_muxbox_id: &str,
    field_name: &str,
    new_value: &YamlNode,
) -> (r: Result<bool, String>)
    ensures
        r matches Ok(found) && found == contains_target(*old(value), target_muxbox_id@),
        !contains_target(*old(value), target_muxbox_id@) ==> *final(value) == *old(value),
        contains_target(*old(value), target_muxbox_id@) ==> edited(
            *old(value),
            *final(value),
            target_muxbox_id@,
            TargetEdit::Field(field_name, new_value),
        ),
{
    let edit = TargetEdit::Field(field_name, new_value);
    Ok(edit_target(value, target_muxbox_id, &edit))
}

/// Sets the position of the first box with the id `target_muxbox_id` in a
/// layout document to `new_bounds` (into its position mapping when it has
/// one, else as a new one), and answers whether there was such a box; it
/// never fails. Nothing changes when there is none.
pub fn update_muxbox_bounds_recursive(
    value: &mut YamlNode,
    target_muxbox_id: &str,
    new_bounds: &InputBounds,
) -> (r: Result<bool, String>)
    ensures
        r matches Ok(found) && found == contains_target(*old(value), target_muxbox_id@),
        !contains_target(*old(value), target_muxbox_id@) ==> *final(value) == *old(value),
        contains_target(*old(value), target_muxbox_id@) ==> edited(
            *old(value),
            *final(value),
            target_muxbox_id@,
            TargetEdit::Bounds(new_bounds),
        ),
{
    let edit = TargetEdit::Bounds(new_bounds);
    Ok(edit_target(value, target_muxbox_id, &edit))
}

/// A layout entry marked for the layout `active_id`: a mapping with a text
/// `id` gets `active` set to whether that id is `active_id`; any other entry
/// stays as it is.
pub open spec fn layout_marked(before: YamlNode, after: YamlNode, active_id: Seq<char>) -> bool {
    match before {
        YamlNode::Mapping(bp) => match lookup(bp@, "id"@) {
            Some(YamlNode::String(s)) => after matches YamlNode::Mapping(ap) && inserted(
                bp@,
                ap@,
                "active"@,
                |x: YamlNode| x == YamlNode::Bool(s@ == active_id),
            ),
            _ => after == before,
        },
        _ => after == before,
    }
}

/// Positions of the `app` entry of a layout document and of the `layouts`
/// entry inside it, when the document is a mapping whose `app` is a mapping
/// whose `layouts` is a sequence.
pub open spec fn layouts_path(doc: YamlNode) -> Option<(int, int)> {
    match doc {
        YamlNode::Mapping(rp) => match key_position(rp@, "app"@) {
            Some(a) => match rp@[a].1 {
                YamlNode::Mapping(app) => match key_position(app@, "layouts"@) {
                    Some(l) => match app@[l].1 {
                        YamlNode::Sequence(_) => Some((a, l)),
                        _ => None,
                    },
                    None => None,
                },
                _ => None,
            },
            None => None,
        },
        _ => None,
    }
}

/// `after` is the layout document `before` with every layout of its
/// `app.layouts` marked for the layout `active_id`; a document without such
/// a list stays as it is.
pub open spec fn layouts_marked(before: YamlNode, after: YamlNode, active_id: Seq<char>) -> bool {
    match layouts_path(before) {
        Some((a, l)) => {
            let rp = before->Mapping_0@;
            let app = rp[a].1->Mapping_0@;
            let ls = app[l].1->Sequence_0@;
            &&& after matches YamlNode::Mapping(rq)
            &&& rq@.len() == rp.len()
            &&& rq@[a].0 == rp[a].0
            &&& forall|j: int| 0 <= j < rp.len() && j != a ==> #[trigger] rq@[j] == rp[j]
            &&& rq@[a].1 matches YamlNode::Mapping(appq)
            &&& appq@.len() == app.len()
            &&& appq@[l].0 == app[l].0
            &&& forall|j: int| 0 <= j < app.len() && j != l ==> #[trigger] appq@[j] == app[j]
            &&& appq@[l].1 matches YamlNode::Sequence(lq)
            &&& lq@.len() == ls.len()
            &&& forall|k: int| 0 <= k < ls.len() ==> layout_marked(#[trigger] ls[k], lq@[k], active_id)
        },
        None => after == before,
    }
}

fn find_layouts_path(doc: &YamlNode) -> (r: Option<(usize, usize)>)
    ensures
        (match r {
            Some((a, l)) => Some((a as int, l as int)),
            None => None,
        }) == layouts_path(*doc),
{
    match doc {
        YamlNode::Mapping(rp) => match key_index(rp, "app") {
            Some(a) => match &rp[a].1 {
                YamlNode::Mapping(app) => match key_index(app, "layouts") {
                    Some(l) => match &app[l].1 {
                        YamlNode::Sequence(_) => Some((a, l)),
                        _ => None,
                    },
                    None => None,
                },
                _ => None,
            },
            None => None,
        },
        _ => None,
    }
}

fn mark_layout(item: &mut YamlNode, active_id: &str)
    ensures
        layout_marked(*old(item), *final(item), active_id@),
{
    let flag: Option<bool> = match &*item {
        YamlNode::Mapping(bp) => match key_index(bp, "id") {
            Some(k) => match &bp[k].1 {
                YamlNode::String(s) => Some(str_eq(s.as_str(), active_id)),
                _ => None,
            },
            None => None,
        },
        _ => None,
    };
    match flag {
        Some(f) => {
            let ghost s = (*old(item))->Mapping_0@[key_position((*old(item))->Mapping_0@, "id"@)->0].1->String_0;
            match item {
                YamlNode::Mapping(bp) => {
                    insert_pair(bp, "active", YamlNode::Bool(f), Ghost(|x: YamlNode| x == YamlNode::Bool(f)));
                    assert((|x: YamlNode| x == YamlNode::Bool(f)) =~= (|x: YamlNode| x == YamlNode::Bool(s@ == active_id@)));
                },
                _ => {},
            }
        },
        None => {},
    }
}

fn mark_layouts(ls: &mut Vec<YamlNode>, active_id: &str)
    ensures
        final(ls)@.len() == old(ls)@.len(),
        forall|j: int| 0 <= j < old(ls)@.len() ==> layout_marked(#[trigger] old(ls)@[j], final(ls)@[j], active_id@),
{
    let n = ls.len();
    let mut k: usize = 0;
    while k < n
        invariant
            k <= n == ls@.len() == old(ls)@.len(),
            forall|j: int| k <= j < n ==> #[trigger] ls@[j] == old(ls)@[j],
            forall|j: int| 0 <= j < k ==> layout_marked(#[trigger] old(ls)@[j], ls@[j], active_id@),
        decreases n - k,
    {
        let item = &mut ls[k];
        mark_layout(item, active_id);
        k = k + 1;
    }
}

/// Marks, in a layout document, which layout is active: every layout of its
/// `app.layouts` list that has an id gets `active` set to whether the id is
/// `active_layout_id`. A document without such a list stays as it is.
pub fn set_active_layout_in_yaml(value: &mut YamlNode, active_layout_id: &str)
    ensures
        layouts_marked(*old(value), *final(value), active_layout_id@),
{
    match find_layouts_path(value) {
        Some((a, l)) => {
            proof {
                lemma_key_position_in_range((*value)->Mapping_0@, "app"@, 0);
                let app = (*value)->Mapping_0@[a as int].1->Mapping_0@;
                lemma_key_position_in_range(app, "layouts"@, 0);
            }
            match value {
                YamlNode::Mapping(rp) => {
                    let app_entry = &mut rp[a];
                    match &mut app_entry.1 {
                        YamlNode::Mapping(app) => {
                            let layouts_entry = &mut app[l];
                            match &mut layouts_entry.1 {
                                YamlNode::Sequence(ls) => {
                                    mark_layouts(ls, active_layout_id);
                                },
                                _ => {},
                            }
                        },
                        _ => {},
                    }
                },
                _ => {},
            }
        },
        None => {},
    }
}

/// The first box with the id `id` in a document (a mapping before what it
/// holds, entries and items in order).
pub open spec fn first_target(node: YamlNode, id: Seq<char>) -> Option<YamlNode>
    decreases node, 0int,
{
    if is_target(node, id) {
        Some(node)
    } else {
        match node {
            YamlNode::Mapping(pairs) => first_target_values(pairs@, id, 0),
            YamlNode::Sequence(items) => first_target_items(items@, id, 0),
            _ => None,
        }
    }
}

/// The first box with the id `id` in the values from the `i`-th entry on.
pub open spec fn first_target_values(pairs: Seq<YamlPair>, id: Seq<char>, i: int) -> Option<YamlNode>
    decreases pairs, pairs.len() - i,
{
    if 0 <= i < pairs.len() {
        match first_target(pairs[i].1, id) {
            Some(t) => Some(t),
            None => first_target_values(pairs, id, i + 1),
        }
    } else {
        None
    }
}

/// The first box with the id `id` in the items from the `i`-th on.
pub open spec fn first_target_items(items: Seq<YamlNode>, id: Seq<char>, i: int) -> Option<YamlNode>
    decreases items, items.len() - i,
{
    if 0 <= i < items.len() {
        match first_target(items[i], id) {
            Some(t) => Some(t),
            None => first_target_items(items, id, i + 1),
        }
    } else {
        None
    }
}

proof fn lemma_first_target_found(node: YamlNode, id: Seq<char>)
    ensures
        first_target(node, id) is Some == contains_target(node, id),
    decreases node, 0int,
{
    if !is_target(node, id) {
        match node {
            YamlNode::Mapping(pairs) => lemma_first_target_values_found(pairs@, id, 0),
            YamlNode::Sequence(items) => lemma_first_target_items_found(items@, id, 0),
            _ => {},
        }
    }
}

proof fn lemma_first_target_values_found(pairs: Seq<YamlPair>, id: Seq<char>, i: int)
    requires
        0 <= i,
    ensures
        first_target_values(pairs, id, i) is Some == values_contain(pairs, id, i),
    decreases pairs, pairs.len() - i,
{
    if i < pairs.len() {
        lemma_first_target_found(pairs[i].1, id);
        lemma_first_target_values_found(pairs, id, i + 1);
    }
}

proof fn lemma_first_target_items_found(items: Seq<YamlNode>, id: Seq<char>, i: int)
    requires
        0 <= i,
    ensures
        first_target_items(items, id, i) is Some == items_contain(items, id, i),
    decreases items, items.len() - i,
{
    if i < items.len() {
        lemma_first_target_found(items[i], id);
        lemma_first_target_items_found(items, id, i + 1);
    }
}

proof fn lemma_same_keys_position(a: Seq<YamlPair>, b: Seq<YamlPair>, name: Seq<char>, i: int)
    requires
        0 <= i,
        a.len() == b.len(),
        forall|j: int| 0 <= j < a.len() ==> (#[trigger] a[j]).0 == b[j].0,
    ensures
        key_position_from(a, name, i) == key_position_from(b, name, i),
    decreases a.len() - i,
{
    if i < a.len() {
        lemma_same_keys_position(a, b, name, i + 1);
    }
}

proof fn lemma_appended_key_position(b: Seq<YamlPair>, a: Seq<YamlPair>, name: Seq<char>, i: int)
    requires
        0 <= i <= b.len(),
        a.len() == b.len() + 1,
        forall|j: int| 0 <= j < b.len() ==> (#[trigger] a[j]) == b[j],
    ensures
        key_position_from(a, name, i) == (match key_position_from(b, name, i) {
            Some(k) => Some(k),
            None => if key_is(a[b.len() as int].0, name) {
                Some(b.len() as int)
            } else {
                None
            },
        }),
    decreases b.len() - i,
{
    if i < b.len() {
        lemma_appended_key_position(b, a, name, i + 1);
    } else {
        assert(key_position_from(b, name, i) is None);
        assert(key_position_from(a, name, i + 1) is None);
    }
}

proof fn lemma_key_position_is(pairs: Seq<YamlPair>, name: Seq<char>, i: int)
    requires
        0 <= i,
    ensures
        key_position_from(pairs, name, i) matches Some(k) ==> i <= k < pairs.len() && key_is(pairs[k].0, name),
    decreases pairs.len() - i,
{
    if i < pairs.len() {
        lemma_key_position_is(pairs, name, i + 1);
    }
}

/// What inserting a field leaves: every other key's lookup, and the field's
/// new value.
proof fn lemma_inserted_lookup(
    bp: Seq<YamlPair>,
    ap: Seq<YamlPair>,
    field: Seq<char>,
    ok: spec_fn(YamlNode) -> bool,
    name: Seq<char>,
)
    requires
        inserted(bp, ap, field, ok),
        field != name,
    ensures
        lookup(ap, name) == lookup(bp, name),
        lookup(ap, field) matches Some(x) && ok(x),
{
    lemma_key_position_is(bp, name, 0);
    lemma_key_position_is(bp, field, 0);
    lemma_key_position_in_range(bp, field, 0);
    match key_position(bp, field) {
        Some(k) => {
            assert forall|j: int| 0 <= j < ap.len() implies (#[trigger] ap[j]).0 == bp[j].0 by {
                if j != k {
                    assert(ap[j] == bp[j]);
                }
            }
            lemma_same_keys_position(ap, bp, name, 0);
            lemma_same_keys_position(ap, bp, field, 0);
            if key_position(bp, name) == Some(k) {
                assert(key_is(bp[k].0, name));
                assert(key_is(bp[k].0, field));
                assert(false);
            }
        },
        None => {
            lemma_appended_key_position(bp, ap, name, 0);
            lemma_appended_key_position(bp, ap, field, 0);
            if key_is(ap[bp.len() as int].0, name) {
                assert(key_is(ap[bp.len() as int].0, field));
                assert(false);
            }
        },
    }
}

/// The texts of a position mapping are those of `b`.
pub open spec fn position_visible(q: Seq<YamlPair>, b: InputBounds) -> bool {
    &&& lookup(q, "x1"@) matches Some(x) && text_is(b.x1@)(x)
    &&& lookup(q, "y1"@) matches Some(x) && text_is(b.y1@)(x)
    &&& lookup(q, "x2"@) matches Some(x) && text_is(b.x2@)(x)
    &&& lookup(q, "y2"@) matches Some(x) && text_is(b.y2@)(x)
}

proof fn lemma_position_visible(p0: Seq<YamlPair>, q: Seq<YamlPair>, b: InputBounds)
    requires
        position_written(p0, q, b),
    ensures
        position_visible(q, b),
{
    reveal_strlit("x1");
    reveal_strlit("y1");
    reveal_strlit("x2");
    reveal_strlit("y2");
    assert("x1"@ != "y1"@) by {
        assert("x1"@[0] != "y1"@[0]);
    }
    assert("x1"@ != "x2"@) by {
        assert("x1"@[1] != "x2"@[1]);
    }
    assert("x1"@ != "y2"@) by {
        assert("x1"@[0] != "y2"@[0]);
    }
    assert("y1"@ != "x2"@) by {
        assert("y1"@[0] != "x2"@[0]);
    }
    assert("y1"@ != "y2"@) by {
        assert("y1"@[1] != "y2"@[1]);
    }
    assert("x2"@ != "y2"@) by {
        assert("x2"@[0] != "y2"@[0]);
    }
    let (p1, p2, p3) = choose|p1: Seq<YamlPair>, p2: Seq<YamlPair>, p3: Seq<YamlPair>|
        {
            &&& #[trigger] inserted(p0, p1, "x1"@, text_is(b.x1@))
            &&& #[trigger] inserted(p1, p2, "y1"@, text_is(b.y1@))
            &&& #[trigger] inserted(p2, p3, "x2"@, text_is(b.x2@))
            &&& inserted(p3, q, "y2"@, text_is(b.y2@))
        };
    lemma_inserted_lookup(p0, p1, "x1"@, text_is(b.x1@), "y1"@);
    lemma_inserted_lookup(p1, p2, "y1"@, text_is(b.y1@), "x1"@);
    lemma_inserted_lookup(p2, p3, "x2"@, text_is(b.x2@), "x1"@);
    lemma_inserted_lookup(p2, p3, "x2"@, text_is(b.x2@), "y1"@);
    lemma_inserted_lookup(p3, q, "y2"@, text_is(b.y2@), "x1"@);
    lemma_inserted_lookup(p3, q, "y2"@, text_is(b.y2@), "y1"@);
    lemma_inserted_lookup(p3, q, "y2"@, text_is(b.y2@), "x2"@);
}

/// The edit can be seen on the box `t`: the field holds a copy of the new
/// value, or the position mapping holds the new texts.
pub open spec fn edit_visible<'a>(t: YamlNode, edit: TargetEdit<'a>) -> bool {
    t matches YamlNode::Mapping(tp) && match edit {
        TargetEdit::Field(field, v) => lookup(tp@, field@) matches Some(x) && same(*v, x),
        TargetEdit::Bounds(b) => lookup(tp@, "position"@) matches Some(YamlNode::Mapping(q)) && position_visible(q@, *b),
    }
}

/// The edit leaves the box's `id` as it is: it is no edit of the `id` field.
pub open spec fn keeps_id<'a>(edit: TargetEdit<'a>) -> bool {
    match edit {
        TargetEdit::Field(field, _) => field@ != "id"@,
        TargetEdit::Bounds(_) => true,
    }
}

proof fn lemma_applied_visible<'a>(before: YamlNode, after: YamlNode, id: Seq<char>, edit: TargetEdit<'a>)
    requires
        is_target(before, id),
        keeps_id(edit),
        edit_applied(before, after, edit),
    ensures
        is_target(after, id),
        edit_visible(after, edit),
{
    let bp = before->Mapping_0@;
    let ap = after->Mapping_0@;
    match edit {
        TargetEdit::Field(field, v) => {
            lemma_inserted_lookup(bp, ap, field@, |x: YamlNode| same(*v, x), "id"@);
        },
        TargetEdit::Bounds(b) => {
            reveal_strlit("id");
            reveal_strlit("position");
            assert("position"@ != "id"@) by {
                assert("position"@[0] != "id"@[0]);
            }
            let pos = key_position(bp, "position"@);
            lemma_key_position_in_range(bp, "position"@, 0);
            if pos is Some && bp[pos->0].1 is Mapping {
                let k = pos->0;
                assert forall|j: int| 0 <= j < ap.len() implies (#[trigger] ap[j]).0 == bp[j].0 by {
                    if j != k {
                        assert(ap[j] == bp[j]);
                    }
                }
                lemma_same_keys_position(ap, bp, "id"@, 0);
                lemma_same_keys_position(ap, bp, "position"@, 0);
                lemma_key_position_is(bp, "id"@, 0);
                lemma_key_position_is(bp, "position"@, 0);
                lemma_key_position_in_range(bp, "id"@, 0);
                if key_position(bp, "id"@) == Some(k) {
                    assert(key_is(bp[k].0, "id"@));
                    assert(key_is(bp[k].0, "position"@));
                    assert(false);
                }
                let q = ap[k].1->Mapping_0@;
                lemma_position_visible(bp[k].1->Mapping_0@, q, *b);
            } else {
                let pred = |x: YamlNode| x matches YamlNode::Mapping(q) && position_written(Seq::empty(), q@, *b);
                lemma_inserted_lookup(bp, ap, "position"@, pred, "id"@);
                let x = lookup(ap, "position"@)->0;
                lemma_position_visible(Seq::empty(), x->Mapping_0@, *b);
            }
        },
    }
}

proof fn lemma_edited_kind<'a>(before: YamlNode, after: YamlNode, id: Seq<char>, edit: TargetEdit<'a>)
    requires
        edited(before, after, id, edit),
    ensures
        before is Mapping ==> after is Mapping,
        before is Sequence ==> after is Sequence,
        before is Mapping || before is Sequence,
{
}

proof fn lemma_values_edited_shape<'a>(bp: Seq<YamlPair>, ap: Seq<YamlPair>, i: int, id: Seq<char>, edit: TargetEdit<'a>)
    requires
        0 <= i,
        ap.len() == bp.len(),
        values_edited(bp, ap, i, id, edit),
        forall|j: int| 0 <= j < i ==> #[trigger] ap[j] == bp[j],
    ensures
        forall|j: int| 0 <= j < bp.len() ==> (#[trigger] ap[j]).0 == bp[j].0 && (ap[j] == bp[j] || (!(ap[j].1 is String)
            && !(bp[j].1 is String))),
    decreases bp.len() - i,
{
    if contains_target(bp[i].1, id) {
        lemma_edited_kind(bp[i].1, ap[i].1, id, edit);
    } else {
        lemma_values_edited_shape(bp, ap, i + 1, id, edit);
    }
}

/// After an edit that leaves the `id` field alone is made to the box with the
/// id `id`, the first box with that id shows it: the field holds a copy of
/// the new value, or the position holds the new coordinates.
pub proof fn law_read_after_edit<'a>(before: YamlNode, after: YamlNode, id: Seq<char>, edit: TargetEdit<'a>)
    requires
        contains_target(before, id),
        keeps_id(edit),
        edited(before, after, id, edit),
    ensures
        first_target(after, id) matches Some(t) && edit_visible(t, edit),
    decreases before, 0int,
{
    if is_target(before, id) {
        lemma_applied_visible(before, after, id, edit);
    } else {
        match before {
            YamlNode::Mapping(bpv) => {
                let bp = bpv@;
                let ap = after->Mapping_0@;
                lemma_values_read_after(bp, ap, 0, id, edit);
                lemma_values_edited_shape(bp, ap, 0, id, edit);
                lemma_same_keys_position(ap, bp, "id"@, 0);
                lemma_key_position_in_range(bp, "id"@, 0);
                assert(!is_target(after, id));
            },
            YamlNode::Sequence(biv) => {
                let bi = biv@;
                let ai = after->Sequence_0@;
                lemma_items_read_after(bi, ai, 0, id, edit);
            },
            _ => {},
        }
    }
}

proof fn lemma_values_read_after<'a>(bp: Seq<YamlPair>, ap: Seq<YamlPair>, i: int, id: Seq<char>, edit: TargetEdit<'a>)
    requires
        0 <= i,
        keeps_id(edit),
        ap.len() == bp.len(),
        values_contain(bp, id, i),
        values_edited(bp, ap, i, id, edit),
    ensures
        first_target_values(ap, id, i) matches Some(t) && edit_visible(t, edit),
    decreases bp, bp.len() - i,
{
    if contains_target(bp[i].1, id) {
        law_read_after_edit(bp[i].1, ap[i].1, id, edit);
    } else {
        lemma_first_target_found(ap[i].1, id);
        lemma_values_read_after(bp, ap, i + 1, id, edit);
    }
}

proof fn lemma_items_read_after<'a>(bi: Seq<YamlNode>, ai: Seq<YamlNode>, i: int, id: Seq<char>, edit: TargetEdit<'a>)
    requires
        0 <= i,
        keeps_id(edit),
        ai.len() == bi.len(),
        items_contain(bi, id, i),
        items_edited(bi, ai, i, id, edit),
    ensures
        first_target_items(ai, id, i) matches Some(t) && edit_visible(t, edit),
    decreases bi, bi.len() - i,
{
    if contains_target(bi[i], id) {
        law_read_after_edit(bi[i], ai[i], id, edit);
    } else {
        lemma_first_target_found(ai[i], id);
        lemma_items_read_after(bi, ai, i + 1, id, edit);
    }
}

} // verus!
