use vstd::prelude::*;
use crate::box_variables::{box_error, box_substituted, subst, apply_muxbox_variable_substitution, text_error, text_substituted, Table};
use crate::muxbox::MuxBox;
use crate::bounds::Bounds;
use crate::layout_tree::{
    all_boxes, box_at, box_at_defined, box_at_spec, boxes_from, find_box, found_from, pointed, replace_box, replaced_from,
    select_only_box, selected_boxes, selected_from, selection_from,
};
use crate::tab_order::{initially_selected, set_initial_selection};
use crate::text::{chars_of, push_chars, str_eq, string_from_chars};
use crate::variables::{table_view, VarTable, VariableContext};

verus! {

/// A layout of an application: its id and title, whether it is the root and
/// whether it is shown, its top-level boxes, the ids of its boxes in tab
/// order once they have been worked out (or given in the layout file), and
/// the display settings its boxes inherit (fill, border, colours, overflow,
/// refresh interval), and its key bindings.
#[derive(Debug)]
pub struct Layout {
    pub id: String,
    pub title: Option<String>,
    pub root: Option<bool>,
    pub active: Option<bool>,
    pub children: Vec<MuxBox>,
    pub muxbox_ids_in_tab_order: Option<Vec<String>>,
    pub refresh_interval: Option<u64>,
    pub fill: Option<bool>,
    pub fill_char: Option<char>,
    pub selected_fill_char: Option<char>,
    pub border: Option<bool>,
    pub border_color: Option<String>,
    pub selected_border_color: Option<String>,
    pub bg_color: Option<String>,
    pub selected_bg_color: Option<String>,
    pub fg_color: Option<String>,
    pub selected_fg_color: Option<String>,
    pub title_fg_color: Option<String>,
    pub title_bg_color: Option<String>,
    pub title_position: Option<String>,
    pub selected_title_bg_color: Option<String>,
    pub selected_title_fg_color: Option<String>,
    pub menu_fg_color: Option<String>,
    pub menu_bg_color: Option<String>,
    pub selected_menu_fg_color: Option<String>,
    pub selected_menu_bg_color: Option<String>,
    pub error_border_color: Option<String>,
    pub error_bg_color: Option<String>,
    pub error_fg_color: Option<String>,
    pub error_title_bg_color: Option<String>,
    pub error_title_fg_color: Option<String>,
    pub error_selected_border_color: Option<String>,
    pub error_selected_bg_color: Option<String>,
    pub error_selected_fg_color: Option<String>,
    pub error_selected_title_bg_color: Option<String>,
    pub error_selected_title_fg_color: Option<String>,
    pub overflow_behavior: Option<String>,
    pub on_keypress: Option<Vec<(String, Vec<String>)>>,
}

/// An application as its layouts and variables make it up.
#[derive(Debug)]
pub struct App {
    pub layouts: Vec<Layout>,
    pub variables: Option<VarTable>,
}

/// A flag that is set.
pub open spec fn is_set(flag: Option<bool>) -> bool {
    flag == Some(true)
}

/// How many of the first `n` layouts are marked root.
pub open spec fn root_count(layouts: Seq<Layout>, n: int) -> int
    decreases n,
{
    if n <= 0 {
        0
    } else {
        root_count(layouts, n - 1) + if is_set(layouts[n - 1].root) {
            1int
        } else {
            0int
        }
    }
}

/// How many of the first `n` layouts are marked active.
pub open spec fn active_count(layouts: Seq<Layout>, n: int) -> int
    decreases n,
{
    if n <= 0 {
        0
    } else {
        active_count(layouts, n - 1) + if is_set(layouts[n - 1].active) {
            1int
        } else {
            0int
        }
    }
}

/// Position of the first layout with this id.
pub open spec fn layout_position(layouts: Seq<Layout>, id: Seq<char>) -> Option<int> {
    if exists|k: int| 0 <= k < layouts.len() && layouts[k].id@ == id {
        Some(choose|k: int| 0 <= k < layouts.len() && layouts[k].id@ == id && forall|j: int| 0 <= j < k ==> layouts[j].id@ != id)
    } else {
        None
    }
}

proof fn lemma_first_position(layouts: Seq<Layout>, id: Seq<char>, k: int)
    requires
        0 <= k < layouts.len(),
        layouts[k].id@ == id,
        forall|j: int| 0 <= j < k ==> layouts[j].id@ != id,
    ensures
        layout_position(layouts, id) == Some(k),
{
    let c = choose|c: int| 0 <= c < layouts.len() && layouts[c].id@ == id && forall|j: int| 0 <= j < c ==> layouts[j].id@ != id;
    assert(0 <= c < layouts.len() && layouts[c].id@ == id && forall|j: int| 0 <= j < c ==> layouts[j].id@ != id);
    if c < k {
        assert(layouts[c].id@ != id);
    } else if k < c {
        assert(layouts[k].id@ != id);
    }
}

/// The position of the first layout with this id.
fn layout_index(layouts: &Vec<Layout>, id: &str) -> (r: Option<usize>)
    ensures
        r matches Some(k) ==> k < layouts@.len(),
        (match r {
            Some(k) => Some(k as int),
            None => None,
        }) == layout_position(layouts@, id@),
{
    let mut i: usize = 0;
    while i < layouts.len()
        invariant
            i <= layouts@.len(),
            forall|j: int| 0 <= j < i ==> layouts@[j].id@ != id@,
        decreases layouts@.len() - i,
    {
        if str_eq(layouts[i].id.as_str(), id) {
            proof {
                lemma_first_position(layouts@, id@, i as int);
            }
            return Some(i);
        }
        i = i + 1;
    }
    None
}

/// The root layout's position: `None` when no layout is marked root. More
/// than one root is refused by the caller's precondition.
fn root_layout_index(layouts: &Vec<Layout>) -> (r: Option<usize>)
    requires
        root_count(layouts@, layouts@.len() as int) <= 1,
    ensures
        r is None <==> root_count(layouts@, layouts@.len() as int) == 0,
        r matches Some(k) ==> k < layouts@.len() && is_set(layouts@[k as int].root),
{
    let mut found: Option<usize> = None;
    let mut i: usize = 0;
    while i < layouts.len()
        invariant
            i <= layouts@.len(),
            root_count(layouts@, layouts@.len() as int) <= 1,
            found is None <==> root_count(layouts@, i as int) == 0,
            found matches Some(k) ==> k < i && is_set(layouts@[k as int].root),
            root_count(layouts@, i as int) >= 0,
        decreases layouts@.len() - i,
    {
        let is_root = match layouts[i].root {
            Some(v) => v,
            None => false,
        };
        if is_root && found.is_none() {
            found = Some(i);
        }
        i = i + 1;
    }
    found
}

/// The shown layout's position: `None` when no layout is marked active. More
/// than one is refused by the caller's precondition.
fn active_layout_index(layouts: &Vec<Layout>) -> (r: Option<usize>)
    requires
        active_count(layouts@, layouts@.len() as int) <= 1,
    ensures
        r is None <==> active_count(layouts@, layouts@.len() as int) == 0,
        r matches Some(k) ==> k < layouts@.len() && is_set(layouts@[k as int].active),
{
    let mut found: Option<usize> = None;
    let mut i: usize = 0;
    while i < layouts.len()
        invariant
            i <= layouts@.len(),
            active_count(layouts@, layouts@.len() as int) <= 1,
            found is None <==> active_count(layouts@, i as int) == 0,
            found matches Some(k) ==> k < i && is_set(layouts@[k as int].active),
            active_count(layouts@, i as int) >= 0,
        decreases layouts@.len() - i,
    {
        let is_active = match layouts[i].active {
            Some(v) => v,
            None => false,
        };
        if is_active && found.is_none() {
            found = Some(i);
        }
        i = i + 1;
    }
    found
}

/// Shows the layouts with this id and hides all others.
fn show_only(layouts: &mut Vec<Layout>, layout_id: &str)
    ensures
        final(layouts)@.len() == old(layouts)@.len(),
        forall|k: int| 0 <= k < old(layouts)@.len() ==> #[trigger] final(layouts)@[k] == (Layout {
            active: Some(old(layouts)@[k].id@ == layout_id@),
            ..old(layouts)@[k]
        }),
{
    let n = layouts.len();
    let mut i: usize = 0;
    while i < n
        invariant
            i <= n == layouts@.len() == old(layouts)@.len(),
            forall|k: int| i <= k < n ==> #[trigger] layouts@[k] == old(layouts)@[k],
            forall|k: int| 0 <= k < i ==> #[trigger] layouts@[k] == (Layout {
                active: Some(old(layouts)@[k].id@ == layout_id@),
                ..old(layouts)@[k]
            }),
        decreases n - i,
    {
        let same = str_eq(layouts[i].id.as_str(), layout_id);
        let l = &mut layouts[i];
        l.active = Some(same);
        i = i + 1;
    }
}

/// The id of the layout that becomes the root once an application is
/// loaded: the last one marked root, else the first layout.
pub open spec fn chosen_root(layouts: Seq<Layout>) -> Option<Seq<char>> {
    if exists|k: int| 0 <= k < layouts.len() && is_set(layouts[k].root) {
        let k = choose|k: int|
            0 <= k < layouts.len() && is_set(layouts[k].root) && forall|j: int| k < j < layouts.len() ==> !is_set(layouts[j].root);
        Some(layouts[k].id@)
    } else if layouts.len() > 0 {
        Some(layouts[0].id@)
    } else {
        None
    }
}

proof fn lemma_last_root(layouts: Seq<Layout>, k: int)
    requires
        0 <= k < layouts.len(),
        is_set(layouts[k].root),
        forall|j: int| k < j < layouts.len() ==> !is_set(layouts[j].root),
    ensures
        chosen_root(layouts) == Some(layouts[k].id@),
{
    let c = choose|c: int|
        0 <= c < layouts.len() && is_set(layouts[c].root) && forall|j: int| c < j < layouts.len() ==> !is_set(layouts[j].root);
    assert(0 <= c < layouts.len() && is_set(layouts[c].root) && forall|j: int| c < j < layouts.len() ==> !is_set(
        layouts[j].root,
    ));
    if c < k {
        assert(!is_set(layouts[k].root));
    } else if k < c {
        assert(!is_set(layouts[c].root));
    }
}

proof fn lemma_has_first(layouts: Seq<Layout>, id: Seq<char>, k: int)
    requires
        0 <= k < layouts.len(),
        layouts[k].id@ == id,
    ensures
        layout_position(layouts, id) is Some,
    decreases k,
{
    if exists|j: int| 0 <= j < k && layouts[j].id@ == id {
        let j = choose|j: int| 0 <= j < k && layouts[j].id@ == id;
        lemma_has_first(layouts, id, j);
    } else {
        lemma_first_position(layouts, id, k);
    }
}

proof fn lemma_chosen_root_present(layouts: Seq<Layout>)
    ensures
        chosen_root(layouts) matches Some(r) ==> layout_position(layouts, r) is Some,
{
    if exists|k: int| 0 <= k < layouts.len() && is_set(layouts[k].root) {
        let k = choose|k: int|
            0 <= k < layouts.len() && is_set(layouts[k].root) && forall|j: int| k < j < layouts.len() ==> !is_set(layouts[j].root);
        if 0 <= k < layouts.len() && is_set(layouts[k].root) && forall|j: int| k < j < layouts.len() ==> !is_set(layouts[j].root) {
            lemma_has_first(layouts, layouts[k].id@, k);
        } else {
            lemma_last_exists(layouts);
        }
    } else if layouts.len() > 0 {
        lemma_has_first(layouts, layouts[0].id@, 0);
    }
}

proof fn lemma_last_exists(layouts: Seq<Layout>)
    requires
        exists|k: int| 0 <= k < layouts.len() && is_set(layouts[k].root),
    ensures
        exists|k: int|
            0 <= k < layouts.len() && is_set(layouts[k].root) && forall|j: int| k < j < layouts.len() ==> !is_set(layouts[j].root),
    decreases layouts.len(),
{
    let n = layouts.len() as int;
    if is_set(layouts[n - 1].root) {
        assert(forall|j: int| n - 1 < j < n ==> !is_set(layouts[j].root));
    } else {
        let shorter = layouts.drop_last();
        let w = choose|k: int| 0 <= k < layouts.len() && is_set(layouts[k].root);
        assert(shorter[w].root == layouts[w].root);
        lemma_last_exists(shorter);
        let k = choose|k: int|
            0 <= k < shorter.len() && is_set(shorter[k].root) && forall|j: int| k < j < shorter.len() ==> !is_set(shorter[j].root);
        assert(is_set(layouts[k].root));
        assert forall|j: int| k < j < layouts.len() implies !is_set(layouts[j].root) by {
            if j < n - 1 {
                assert(shorter[j] == layouts[j]);
            }
        }
    }
}

fn chosen_root_id(layouts: &Vec<Layout>) -> (r: Option<String>)
    ensures
        (match r {
            Some(s) => Some(s@),
            None => None,
        }) == chosen_root(layouts@),
{
    let mut last: Option<usize> = None;
    let mut i: usize = 0;
    while i < layouts.len()
        invariant
            i <= layouts@.len(),
            last is None ==> forall|j: int| 0 <= j < i ==> !is_set(layouts@[j].root),
            last matches Some(k) ==> k < i && is_set(layouts@[k as int].root) && forall|j: int|
                k < j < i ==> !is_set(layouts@[j].root),
        decreases layouts@.len() - i,
    {
        let is_root = match layouts[i].root {
            Some(v) => v,
            None => false,
        };
        if is_root {
            last = Some(i);
        }
        i = i + 1;
    }
    match last {
        Some(k) => {
            proof {
                lemma_last_root(layouts@, k as int);
            }
            Some(layouts[k].id.clone())
        },
        None => {
            if layouts.len() > 0 {
                Some(layouts[0].id.clone())
            } else {
                None
            }
        },
    }
}

/// What loading does to the root and active marks: the chosen root layout
/// (the first with the chosen id) becomes root and active, every layout with
/// another id neither; other layouts with the chosen id keep their marks.
pub open spec fn settled(before: Seq<Layout>, after: Seq<Layout>) -> bool {
    &&& after.len() == before.len()
    &&& match chosen_root(before) {
        Some(rid) => forall|k: int| 0 <= k < before.len() ==> #[trigger] after[k] == (if layout_position(before, rid) == Some(k) {
            Layout { active: Some(true), root: Some(true), ..before[k] }
        } else if before[k].id@ != rid {
            Layout { active: Some(false), root: Some(false), ..before[k] }
        } else {
            before[k]
        }),
        None => after == before,
    }
}

/// Settles which layout is the root and is shown, as loading an application
/// does once it has been validated.
fn settle_root_layout(layouts: &mut Vec<Layout>)
    ensures
        settled(old(layouts)@, final(layouts)@),
{
    let rid = match chosen_root_id(layouts) {
        Some(r) => r,
        None => {
            return;
        },
    };
    let pos = match layout_index(layouts, rid.as_str()) {
        Some(p) => p,
        None => {
            proof {
                lemma_chosen_root_present(layouts@);
            }
            return;
        },
    };
    let ghost start = layouts@;
    let n = layouts.len();
    let mut i: usize = 0;
    while i < n
        invariant
            i <= n == layouts@.len() == start.len(),
            start == old(layouts)@,
            chosen_root(start) == Some(rid@),
            layout_position(start, rid@) == Some(pos as int),
            forall|k: int| i <= k < n ==> #[trigger] layouts@[k] == start[k],
            forall|k: int| 0 <= k < i ==> #[trigger] layouts@[k] == (if layout_position(start, rid@) == Some(k) {
                Layout { active: Some(true), root: Some(true), ..start[k] }
            } else if start[k].id@ != rid@ {
                Layout { active: Some(false), root: Some(false), ..start[k] }
            } else {
                start[k]
            }),
        decreases n - i,
    {
        if i == pos {
            let l = &mut layouts[i];
            l.active = Some(true);
            l.root = Some(true);
        } else if !str_eq(layouts[i].id.as_str(), rid.as_str()) {
            let l = &mut layouts[i];
            l.active = Some(false);
            l.root = Some(false);
        }
        i = i + 1;
    }
}

/// The first box with this id in the layouts, in order.
pub open spec fn found_in_layouts(layouts: Seq<Layout>, i: int, id: Seq<char>) -> Option<MuxBox>
    decreases layouts.len() - i,
{
    if 0 <= i < layouts.len() {
        match found_from(layouts[i].children@, 0, id) {
            Some(b) => Some(b),
            None => found_in_layouts(layouts, i + 1, id),
        }
    } else {
        None
    }
}

/// The first box with this id, looking through the layouts in order.
fn find_box_in_layouts<'a>(layouts: &'a Vec<Layout>, id: &str) -> (r: Option<&'a MuxBox>)
    ensures
        r is None <==> found_in_layouts(layouts@, 0, id@) is None,
        r matches Some(b) ==> found_in_layouts(layouts@, 0, id@) == Some(*b),
{
    let mut i: usize = 0;
    while i < layouts.len()
        invariant
            i <= layouts@.len(),
            found_in_layouts(layouts@, 0, id@) == found_in_layouts(layouts@, i as int, id@),
        decreases layouts@.len() - i,
    {
        match find_box(&layouts[i].children, id) {
            Some(b) => {
                return Some(b);
            },
            None => {},
        }
        i = i + 1;
    }
    None
}

/// The message of a failed substitution in a layout's title.
pub open spec fn layout_title_error(id: Seq<char>, e: Seq<char>) -> Seq<char> {
    "Error in layout '"@ + id + "' title: "@ + e
}

/// The first error of substituting in a layout: its title, then its boxes.
pub open spec fn layout_error(l: Layout, app: Table, layout: Table, env: Table) -> Option<Seq<char>> {
    match text_error(l.title, app, layout, env) {
        Some(e) => Some(layout_title_error(l.id@, e)),
        None => boxes_error(l.children@, 0, app, layout, env),
    }
}

pub open spec fn boxes_error(boxes: Seq<MuxBox>, i: int, app: Table, layout: Table, env: Table) -> Option<Seq<char>>
    decreases boxes.len() - i,
{
    if 0 <= i < boxes.len() {
        match box_error(boxes[i], app, layout, env) {
            Some(e) => Some(e),
            None => boxes_error(boxes, i + 1, app, layout, env),
        }
    } else {
        None
    }
}

/// The first error of substituting in the layouts from the `i`-th on.
pub open spec fn layouts_error(ls: Seq<Layout>, i: int, app: Table, layout: Table, env: Table) -> Option<Seq<char>>
    decreases ls.len() - i,
{
    if 0 <= i < ls.len() {
        match layout_error(ls[i], app, layout, env) {
            Some(e) => Some(e),
            None => layouts_error(ls, i + 1, app, layout, env),
        }
    } else {
        None
    }
}

/// `after` is the layout `before` with the variables of its title and boxes
/// substituted.
pub open spec fn layout_substituted(before: Layout, after: Layout, app: Table, layout: Table, env: Table) -> bool {
    &&& after.id == before.id
    &&& after.root == before.root
    &&& after.active == before.active
    &&& after.muxbox_ids_in_tab_order == before.muxbox_ids_in_tab_order
    &&& text_substituted(before.title, after.title, app, layout, env)
    &&& after.children@.len() == before.children@.len()
    &&& forall|i: int| 0 <= i < before.children@.len() ==> box_substituted(
        #[trigger] before.children@[i],
        after.children@[i],
        app,
        layout,
        env,
    )
}

fn layout_title_message(id: &str, e: &String) -> (r: String)
    ensures
        r@ == layout_title_error(id@, e@),
{
    let mut out = chars_of("Error in layout '");
    let idc = chars_of(id);
    push_chars(&mut out, &idc);
    let mid = chars_of("' title: ");
    push_chars(&mut out, &mid);
    let ec = chars_of(e.as_str());
    push_chars(&mut out, &ec);
    string_from_chars(&out)
}

fn apply_layout_variable_substitution(l: &mut Layout, context: &VariableContext, env: &VarTable) -> (r: Result<(), String>)
    ensures
        r is Ok <==> layout_error(*old(l), context.app_vars(), context.layout_vars(), table_view(env@)) is None,
        r matches Err(e) ==> layout_error(*old(l), context.app_vars(), context.layout_vars(), table_view(env@)) == Some(e@),
        r is Ok ==> layout_substituted(*old(l), *final(l), context.app_vars(), context.layout_vars(), table_view(env@)),
{
    let ghost app = context.app_vars();
    let ghost lay = context.layout_vars();
    let ghost envt = table_view(env@);
    match &l.title {
        Some(t) => {
            let hierarchy: Vec<VarTable> = Vec::new();
            let res = context.substitute_in_string(t.as_str(), &hierarchy, env);
            proof {
                assert(hierarchy@.map_values(|t: VarTable| table_view(t@)) =~= Seq::<Table>::empty());
            }
            match res {
                Ok(s) => {
                    l.title = Some(s);
                },
                Err(e) => {
                    return Err(layout_title_message(l.id.as_str(), &e));
                },
            }
        },
        None => {},
    }
    let ghost mid = *l;
    let n = l.children.len();
    let mut i: usize = 0;
    while i < n
        invariant
            i <= n == l.children@.len() == old(l).children@.len(),
            app == context.app_vars(),
            lay == context.layout_vars(),
            envt == table_view(env@),
            l.id == old(l).id,
            l.root == old(l).root,
            l.active == old(l).active,
            l.muxbox_ids_in_tab_order == old(l).muxbox_ids_in_tab_order,
            l.title == mid.title,
            text_substituted(old(l).title, mid.title, app, lay, envt),
            layout_error(*old(l), app, lay, envt) == boxes_error(old(l).children@, 0, app, lay, envt),
            boxes_error(old(l).children@, 0, app, lay, envt) == boxes_error(old(l).children@, i as int, app, lay, envt),
            forall|j: int| 0 <= j < i ==> box_substituted(#[trigger] old(l).children@[j], l.children@[j], app, lay, envt),
            forall|j: int| i <= j < n ==> #[trigger] l.children@[j] == old(l).children@[j],
        decreases n - i,
    {
        let child = &mut l.children[i];
        match apply_muxbox_variable_substitution(child, context, env) {
            Ok(()) => {},
            Err(e) => {
                return Err(e);
            },
        }
        i = i + 1;
    }
    Ok(())
}

/// Substitutes the variables of an application's layouts: each layout's
/// title, then its boxes, with the application's variables; stops at the
/// first failure.
pub fn apply_variable_substitution(app: &mut App, env: &VarTable) -> (r: Result<(), String>)
    ensures
        final(app).variables == old(app).variables,
        final(app).layouts@.len() == old(app).layouts@.len(),
        r is Ok <==> layouts_error(old(app).layouts@, 0, app_table(old(app).variables), Seq::empty(), table_view(env@)) is None,
        r matches Err(e) ==> layouts_error(old(app).layouts@, 0, app_table(old(app).variables), Seq::empty(), table_view(env@))
            == Some(e@),
        r is Ok ==> forall|i: int| 0 <= i < old(app).layouts@.len() ==> layout_substituted(
            #[trigger] old(app).layouts@[i],
            final(app).layouts@[i],
            app_table(old(app).variables),
            Seq::empty(),
            table_view(env@),
        ),
{
    let context = match &app.variables {
        Some(t) => VariableContext::new(Some(t), None),
        None => VariableContext::new(None, None),
    };
    let ghost vars = app_table(old(app).variables);
    let ghost envt = table_view(env@);
    assert(context.app_vars() == vars);
    let n = app.layouts.len();
    let mut i: usize = 0;
    while i < n
        invariant
            i <= n == app.layouts@.len() == old(app).layouts@.len(),
            app.variables == old(app).variables,
            context.app_vars() == vars,
            vars == app_table(old(app).variables),
            context.layout_vars() == Seq::<(Seq<char>, Seq<char>)>::empty(),
            envt == table_view(env@),
            layouts_error(old(app).layouts@, 0, vars, Seq::empty(), envt) == layouts_error(
                old(app).layouts@,
                i as int,
                vars,
                Seq::empty(),
                envt,
            ),
            forall|j: int| 0 <= j < i ==> layout_substituted(#[trigger] old(app).layouts@[j], app.layouts@[j], vars, Seq::empty(), envt),
            forall|j: int| i <= j < n ==> #[trigger] app.layouts@[j] == old(app).layouts@[j],
        decreases n - i,
    {
        let l = &mut app.layouts[i];
        match apply_layout_variable_substitution(l, &context, env) {
            Ok(()) => {},
            Err(e) => {
                return Err(e);
            },
        }
        i = i + 1;
    }
    Ok(())
}

/// The application's variables as a table (empty when it has none).
pub open spec fn app_table(vars: Option<VarTable>) -> Table {
    match vars {
        Some(t) => table_view(t@),
        None => Seq::empty(),
    }
}

/// No two layouts share an id.
pub open spec fn unique_layout_ids(layouts: Seq<Layout>) -> bool {
    forall|i: int, j: int| 0 <= i < layouts.len() && 0 <= j < layouts.len() && i != j ==> layouts[i].id@ != layouts[j].id@
}

proof fn lemma_active_count_single(layouts: Seq<Layout>, p: int, n: int)
    requires
        0 <= n <= layouts.len(),
        forall|k: int| 0 <= k < layouts.len() ==> (is_set(#[trigger] layouts[k].active) <==> k == p),
    ensures
        active_count(layouts, n) == (if 0 <= p < n { 1int } else { 0int }),
    decreases n,
{
    if n > 0 {
        lemma_active_count_single(layouts, p, n - 1);
    }
}

proof fn lemma_root_count_single(layouts: Seq<Layout>, p: int, n: int)
    requires
        0 <= n <= layouts.len(),
        forall|k: int| 0 <= k < layouts.len() ==> (is_set(#[trigger] layouts[k].root) <==> k == p),
    ensures
        root_count(layouts, n) == (if 0 <= p < n { 1int } else { 0int }),
    decreases n,
{
    if n > 0 {
        lemma_root_count_single(layouts, p, n - 1);
    }
}

/// Showing a layout of an application whose layout ids are distinct leaves
/// exactly that layout shown.
pub proof fn law_set_active_shows_only_that_layout(
    before: Seq<Layout>,
    after: Seq<Layout>,
    layout_id: Seq<char>,
    p: int,
)
    requires
        unique_layout_ids(before),
        0 <= p < before.len(),
        before[p].id@ == layout_id,
        after.len() == before.len(),
        forall|k: int| 0 <= k < before.len() ==> #[trigger] after[k] == (Layout {
            active: Some(before[k].id@ == layout_id),
            ..before[k]
        }),
    ensures
        active_count(after, after.len() as int) == 1,
        is_set(after[p].active),
{
    assert forall|k: int| 0 <= k < after.len() implies (is_set(#[trigger] after[k].active) <==> k == p) by {
        assert(after[k].active == Some(before[k].id@ == layout_id));
    }
    lemma_active_count_single(after, p, after.len() as int);
}

proof fn lemma_settled_one_root(before: Seq<Layout>, after: Seq<Layout>)
    requires
        unique_layout_ids(before),
        before.len() > 0,
        settled(before, after),
    ensures
        root_count(after, after.len() as int) == 1,
        active_count(after, after.len() as int) == 1,
        exists|p: int| 0 <= p < after.len() && is_set(after[p].root) && is_set(after[p].active) && Some(after[p].id@)
            == chosen_root(before),
{
    lemma_chosen_root_present(before);
    let rid = chosen_root(before)->0;
    let p = layout_position(before, rid)->0;
    let q = choose|k: int| 0 <= k < before.len() && before[k].id@ == rid && forall|j: int| 0 <= j < k ==> before[j].id@ != rid;
    assert(0 <= q < before.len() && before[q].id@ == rid);
    assert(p == q);
    assert forall|k: int| 0 <= k < after.len() implies (is_set(#[trigger] after[k].root) <==> k == p) by {
        if k != p {
            assert(before[k].id@ != rid);
        }
    }
    assert forall|k: int| 0 <= k < after.len() implies (is_set(#[trigger] after[k].active) <==> k == p) by {
        if k != p {
            assert(before[k].id@ != rid);
        }
    }
    lemma_root_count_single(after, p, after.len() as int);
    lemma_active_count_single(after, p, after.len() as int);
    assert(after[p].id@ == rid);
}

proof fn lemma_same_marks(before: Seq<Layout>, mid: Seq<Layout>)
    requires
        initially_set(before, mid),
    ensures
        chosen_root(mid) == chosen_root(before),
        unique_layout_ids(before) ==> unique_layout_ids(mid),
{
    assert forall|k: int| 0 <= k < before.len() implies #[trigger] mid[k].id == before[k].id && mid[k].root == before[k].root by {
        assert(mid[k] == (Layout { children: mid[k].children, ..before[k] }));
    }
    if exists|k: int| 0 <= k < before.len() && is_set(before[k].root) {
        lemma_last_exists(before);
        let k = choose|k: int|
            0 <= k < before.len() && is_set(before[k].root) && forall|j: int| k < j < before.len() ==> !is_set(before[j].root);
        lemma_last_root(before, k);
        assert forall|j: int| k < j < mid.len() implies !is_set(mid[j].root) by {
            assert(mid[j].root == before[j].root);
        }
        lemma_last_root(mid, k);
    } else if before.len() > 0 {
        assert(!exists|k: int| 0 <= k < mid.len() && is_set(mid[k].root)) by {
            if exists|k: int| 0 <= k < mid.len() && is_set(mid[k].root) {
                let k = choose|k: int| 0 <= k < mid.len() && is_set(mid[k].root);
                assert(mid[k].root == before[k].root);
            }
        }
        assert(mid[0].id == before[0].id);
    }
}

/// Once an application with layouts of distinct ids is set up after
/// validation, exactly one layout is the root and exactly one is shown: the
/// same one, the last marked root or else the first.
pub proof fn law_loading_settles_one_root(before: Seq<Layout>, mid: Seq<Layout>, after: Seq<Layout>)
    requires
        unique_layout_ids(before),
        before.len() > 0,
        initially_set(before, mid),
        settled(mid, after),
    ensures
        root_count(after, after.len() as int) == 1,
        active_count(after, after.len() as int) == 1,
        exists|p: int| 0 <= p < after.len() && is_set(after[p].root) && is_set(after[p].active) && Some(after[p].id@)
            == chosen_root(before),
{
    lemma_same_marks(before, mid);
    lemma_settled_one_root(mid, after);
}

/// `after` is the layouts `before` with the first box whose id is `rep`'s
/// (looking through the layouts in order) replaced by `rep`: the layout that
/// holds it has its boxes changed so, and no other layout changes.
pub open spec fn replaced_in_layouts(before: Seq<Layout>, after: Seq<Layout>, rep: MuxBox) -> bool {
    exists|k: int|
        0 <= k < before.len() && found_in_layouts(before, 0, rep.id@) == found_from(before[k].children@, 0, rep.id@) && (
        forall|j: int| 0 <= j < before.len() && j != k ==> #[trigger] after[j] == before[j]) && after[k] == (Layout {
            children: after[k].children,
            ..before[k]
        }) && replaced_from(before[k].children@, after[k].children@, 0, rep)
}

/// Puts `replacement` in the place of the first box with its id, looking
/// through the layouts in order. Answers the replacement back when no box
/// has its id.
fn replace_box_in_layouts(layouts: &mut Vec<Layout>, replacement: MuxBox) -> (r: Option<MuxBox>)
    ensures
        final(layouts)@.len() == old(layouts)@.len(),
        found_in_layouts(old(layouts)@, 0, replacement.id@) is None ==> r == Some(replacement) && final(layouts)@ == old(
            layouts,
        )@,
        found_in_layouts(old(layouts)@, 0, replacement.id@) is Some ==> r is None && replaced_in_layouts(
            old(layouts)@,
            final(layouts)@,
            replacement,
        ),
{
    let ghost rep = replacement;
    let n = layouts.len();
    let mut i: usize = 0;
    while i < n
        invariant
            i <= n == layouts@.len() == old(layouts)@.len(),
            rep == replacement,
            layouts@ == old(layouts)@,
            found_in_layouts(old(layouts)@, 0, rep.id@) == found_in_layouts(old(layouts)@, i as int, rep.id@),
        decreases n - i,
    {
        if find_box(&layouts[i].children, replacement.id.as_str()).is_some() {
            let ghost before = layouts@;
            let l = &mut layouts[i];
            let _ = replace_box(&mut l.children, replacement);
            proof {
                assert(layouts@[i as int] == Layout { children: layouts@[i as int].children, ..before[i as int] });
                assert(forall|j: int| 0 <= j < n && j != i ==> #[trigger] layouts@[j] == old(layouts)@[j]);
                assert(found_in_layouts(old(layouts)@, 0, rep.id@) == found_from(old(layouts)@[i as int].children@, 0, rep.id@));
            }
            return None;
        }
        i = i + 1;
    }
    Some(replacement)
}

impl Default for Layout {
    /// A layout with nothing set: no id, title, boxes or display settings,
    /// and neither root nor active marked.
    fn default() -> (l: Self)
        ensures
            l.id@ == Seq::<char>::empty(),
            l.title is None,
            l.root is None,
            l.active is None,
            l.children@.len() == 0,
            l.muxbox_ids_in_tab_order is None,
            l.refresh_interval is None,
            l.fill is None,
            l.fill_char is None,
            l.selected_fill_char is None,
            l.border is None,
            l.border_color is None,
            l.selected_border_color is None,
            l.bg_color is None,
            l.selected_bg_color is None,
            l.fg_color is None,
            l.selected_fg_color is None,
            l.title_fg_color is None,
            l.title_bg_color is None,
            l.title_position is None,
            l.selected_title_bg_color is None,
            l.selected_title_fg_color is None,
            l.menu_fg_color is None,
            l.menu_bg_color is None,
            l.selected_menu_fg_color is None,
            l.selected_menu_bg_color is None,
            l.error_border_color is None,
            l.error_bg_color is None,
            l.error_fg_color is None,
            l.error_title_bg_color is None,
            l.error_title_fg_color is None,
            l.error_selected_border_color is None,
            l.error_selected_bg_color is None,
            l.error_selected_fg_color is None,
            l.error_selected_title_bg_color is None,
            l.error_selected_title_fg_color is None,
            l.overflow_behavior is None,
            l.on_keypress is None,
    {
        Layout {
            id: String::new(),
            title: None,
            root: None,
            active: None,
            children: Vec::new(),
            muxbox_ids_in_tab_order: None,
            refresh_interval: None,
            fill: None,
            fill_char: None,
            selected_fill_char: None,
            border: None,
            border_color: None,
            selected_border_color: None,
            bg_color: None,
            selected_bg_color: None,
            fg_color: None,
            selected_fg_color: None,
            title_fg_color: None,
            title_bg_color: None,
            title_position: None,
            selected_title_bg_color: None,
            selected_title_fg_color: None,
            menu_fg_color: None,
            menu_bg_color: None,
            selected_menu_fg_color: None,
            selected_menu_bg_color: None,
            error_border_color: None,
            error_bg_color: None,
            error_fg_color: None,
            error_title_bg_color: None,
            error_title_fg_color: None,
            error_selected_border_color: None,
            error_selected_bg_color: None,
            error_selected_fg_color: None,
            error_selected_title_bg_color: None,
            error_selected_title_fg_color: None,
            overflow_behavior: None,
            on_keypress: None,
        }
    }
}

impl Default for App {
    /// An application with no layouts and no variables.
    fn default() -> (a: Self)
        ensures
            a.layouts@.len() == 0,
            a.variables is None,
    {
        App::new()
    }
}

impl Layout {
    /// A layout with no id, title, boxes or display settings, neither the
    /// root nor shown.
    pub fn new() -> (l: Layout)
        ensures
            l.id@ == Seq::<char>::empty(),
            l.title is None,
            l.root == Some(false),
            l.active == Some(false),
            l.children@.len() == 0,
            l.muxbox_ids_in_tab_order is None,
            l.refresh_interval is None,
            l.fill is None,
            l.fill_char is None,
            l.selected_fill_char is None,
            l.border is None,
            l.border_color is None,
            l.selected_border_color is None,
            l.bg_color is None,
            l.selected_bg_color is None,
            l.fg_color is None,
            l.selected_fg_color is None,
            l.title_fg_color is None,
            l.title_bg_color is None,
            l.title_position is None,
            l.selected_title_bg_color is None,
            l.selected_title_fg_color is None,
            l.menu_fg_color is None,
            l.menu_bg_color is None,
            l.selected_menu_fg_color is None,
            l.selected_menu_bg_color is None,
            l.error_border_color is None,
            l.error_bg_color is None,
            l.error_fg_color is None,
            l.error_title_bg_color is None,
            l.error_title_fg_color is None,
            l.error_selected_border_color is None,
            l.error_selected_bg_color is None,
            l.error_selected_fg_color is None,
            l.error_selected_title_bg_color is None,
            l.error_selected_title_fg_color is None,
            l.overflow_behavior is None,
            l.on_keypress is None,
    {
        Layout {
            id: String::new(),
            title: None,
            root: Some(false),
            active: Some(false),
            children: Vec::new(),
            muxbox_ids_in_tab_order: None,
            refresh_interval: None,
            fill: None,
            fill_char: None,
            selected_fill_char: None,
            border: None,
            border_color: None,
            selected_border_color: None,
            bg_color: None,
            selected_bg_color: None,
            fg_color: None,
            selected_fg_color: None,
            title_fg_color: None,
            title_bg_color: None,
            title_position: None,
            selected_title_bg_color: None,
            selected_title_fg_color: None,
            menu_fg_color: None,
            menu_bg_color: None,
            selected_menu_fg_color: None,
            selected_menu_bg_color: None,
            error_border_color: None,
            error_bg_color: None,
            error_fg_color: None,
            error_title_bg_color: None,
            error_title_fg_color: None,
            error_selected_border_color: None,
            error_selected_bg_color: None,
            error_selected_fg_color: None,
            error_selected_title_bg_color: None,
            error_selected_title_fg_color: None,
            overflow_behavior: None,
            on_keypress: None,
        }
    }

    /// The first box with this id, each box looked at before its children.
    pub fn get_muxbox_by_id(&self, id: &str) -> (r: Option<&MuxBox>)
        ensures
            (match r {
                Some(b) => Some(*b),
                None => None,
            }) == found_from(self.children@, 0, id@),
    {
        find_box(&self.children, id)
    }

    /// The selected boxes, each box before its children.
    pub fn get_selected_muxboxes(&self) -> (r: Vec<&MuxBox>)
        ensures
            pointed(r@) == selected_from(self.children@, 0),
    {
        selected_boxes(&self.children)
    }

    /// Selects the boxes with this id, at any depth, and deselects all others.
    pub fn select_only_muxbox(&mut self, id: &str)
        ensures
            *final(self) == (Layout { children: final(self).children, ..*old(self) }),
            final(self).children@.len() == old(self).children@.len(),
            selection_from(old(self).children@, final(self).children@, 0, id@),
    {
        select_only_box(&mut self.children, id);
    }

    /// All the boxes, each box before its children.
    pub fn get_all_muxboxes(&self) -> (r: Vec<&MuxBox>)
        ensures
            pointed(r@) == boxes_from(self.children@, 0),
    {
        all_boxes(&self.children)
    }

    /// Deselects the top-level boxes; the boxes below them keep their
    /// selection.
    pub fn deselect_all_muxboxes(&mut self)
        ensures
            *final(self) == (Layout { children: final(self).children, ..*old(self) }),
            final(self).children@.len() == old(self).children@.len(),
            forall|k: int| 0 <= k < old(self).children@.len() ==> #[trigger] final(self).children@[k] == (MuxBox {
                selected: Some(false),
                ..old(self).children@[k]
            }),
    {
        let n = self.children.len();
        let mut i: usize = 0;
        while i < n
            invariant
                i <= n == self.children@.len() == old(self).children@.len(),
                *self == (Layout { children: self.children, ..*old(self) }),
                forall|k: int| i <= k < n ==> #[trigger] self.children@[k] == old(self).children@[k],
                forall|k: int| 0 <= k < i ==> #[trigger] self.children@[k] == (MuxBox {
                    selected: Some(false),
                    ..old(self).children@[k]
                }),
            decreases n - i,
        {
            let b = &mut self.children[i];
            b.selected = Some(false);
            i = i + 1;
        }
    }

    /// Puts `replacement` in the place of the first box with its id, each box
    /// looked at before its children; answers whether there was one.
    pub fn replace_muxbox_recursive(&mut self, replacement: MuxBox) -> (r: Option<bool>)
        ensures
            r == Some(found_from(old(self).children@, 0, replacement.id@) is Some),
            *final(self) == (Layout { children: final(self).children, ..*old(self) }),
            found_from(old(self).children@, 0, replacement.id@) is None ==> final(self).children@ == old(self).children@,
            found_from(old(self).children@, 0, replacement.id@) is Some ==> replaced_from(
                old(self).children@,
                final(self).children@,
                0,
                replacement,
            ),
    {
        let back = replace_box(&mut self.children, replacement);
        Some(back.is_none())
    }

    /// The box that takes a click at `(x, y)` when the layout is drawn on
    /// `screen`: among the top-level boxes covering the cell, the one stacked
    /// highest (the first such on ties), or the box found the same way among
    /// its children when one covers the cell.
    pub fn find_muxbox_at_coordinates(&self, screen: &Bounds, x: u16, y: u16) -> (r: Option<&MuxBox>)
        requires
            box_at_defined(self.children@, *screen, x, y),
        ensures
            (match r {
                Some(b) => Some(*b),
                None => None,
            }) == box_at_spec(self.children@, *screen, x, y),
    {
        box_at(&self.children, screen, x, y)
    }
}

impl App {
    /// An application with no layouts and no variables.
    pub fn new() -> (a: App)
        ensures
            a.layouts@.len() == 0,
            a.variables is None,
    {
        App { layouts: Vec::new(), variables: None }
    }

    /// The first layout with this id.
    pub fn get_layout_by_id(&self, id: &str) -> (r: Option<&Layout>)
        ensures
            (match r {
                Some(l) => Some(*l),
                None => None,
            }) == (match layout_position(self.layouts@, id@) {
                Some(k) => Some(self.layouts@[k]),
                None => None,
            }),
    {
        match layout_index(&self.layouts, id) {
            Some(k) => Some(&self.layouts[k]),
            None => None,
        }
    }

    /// The layout marked root, if any; an application with more than one is
    /// refused by the precondition.
    pub fn get_root_layout(&self) -> (r: Option<&Layout>)
        requires
            root_count(self.layouts@, self.layouts@.len() as int) <= 1,
        ensures
            r is None <==> root_count(self.layouts@, self.layouts@.len() as int) == 0,
            r matches Some(l) ==> exists|k: int| 0 <= k < self.layouts@.len() && self.layouts@[k] == *l && is_set(l.root),
    {
        match root_layout_index(&self.layouts) {
            Some(k) => Some(&self.layouts[k]),
            None => None,
        }
    }

    /// The layout marked active, if any; an application with more than one is
    /// refused by the precondition.
    pub fn get_active_layout(&self) -> (r: Option<&Layout>)
        requires
            active_count(self.layouts@, self.layouts@.len() as int) <= 1,
        ensures
            r is None <==> active_count(self.layouts@, self.layouts@.len() as int) == 0,
            r matches Some(l) ==> exists|k: int| 0 <= k < self.layouts@.len() && self.layouts@[k] == *l && is_set(l.active),
    {
        match active_layout_index(&self.layouts) {
            Some(k) => Some(&self.layouts[k]),
            None => None,
        }
    }

    /// Shows the layouts with this id and hides all others (all of them when
    /// none has the id).
    pub fn set_active_layout(&mut self, layout_id: &str)
        ensures
            final(self).variables == old(self).variables,
            final(self).layouts@.len() == old(self).layouts@.len(),
            forall|k: int| 0 <= k < old(self).layouts@.len() ==> #[trigger] final(self).layouts@[k] == (Layout {
                active: Some(old(self).layouts@[k].id@ == layout_id@),
                ..old(self).layouts@[k]
            }),
    {
        show_only(&mut self.layouts, layout_id);
    }

    /// The first box with this id, looking through the layouts in order.
    pub fn get_muxbox_by_id(&self, id: &str) -> (r: Option<&MuxBox>)
        ensures
            (match r {
                Some(b) => Some(*b),
                None => None,
            }) == found_in_layouts(self.layouts@, 0, id@),
    {
        find_box_in_layouts(&self.layouts, id)
    }

    /// Puts `muxbox` in the place of the first box with its id, looking
    /// through the layouts in order; nothing changes when no box has its id.
    pub fn replace_muxbox(&mut self, muxbox: MuxBox)
        ensures
            final(self).variables == old(self).variables,
            final(self).layouts@.len() == old(self).layouts@.len(),
            found_in_layouts(old(self).layouts@, 0, muxbox.id@) is None ==> final(self).layouts@ == old(self).layouts@,
            found_in_layouts(old(self).layouts@, 0, muxbox.id@) is Some ==> replaced_in_layouts(
                old(self).layouts@,
                final(self).layouts@,
                muxbox,
            ),
    {
        let _ = replace_box_in_layouts(&mut self.layouts, muxbox);
    }
}

/// `after` is the layouts `before` with the initial selection of each one's
/// top-level boxes set: the first box in tab order selected, and the first
/// choice of every box.
pub open spec fn initially_set(before: Seq<Layout>, after: Seq<Layout>) -> bool {
    &&& after.len() == before.len()
    &&& forall|k: int| 0 <= k < before.len() ==> {
        &&& #[trigger] after[k] == (Layout { children: after[k].children, ..before[k] })
        &&& after[k].children@.len() == before[k].children@.len()
        &&& forall|j: int| 0 <= j < before[k].children@.len() ==> initially_selected(
            #[trigger] before[k].children@[j],
            after[k].children@[j],
            before[k].first_in_tab_order(),
        )
    }
}

/// Sets up a validated application: the initial selection of each layout,
/// then which layout is the root and is shown (the last one marked root,
/// else the first layout).
pub fn apply_post_validation_setup(app: &mut App) -> (r: Result<(), String>)
    ensures
        r is Ok,
        final(app).variables == old(app).variables,
        exists|mid: Seq<Layout>| initially_set(old(app).layouts@, mid) && settled(mid, final(app).layouts@),
{
    let n = app.layouts.len();
    let mut i: usize = 0;
    while i < n
        invariant
            i <= n == app.layouts@.len() == old(app).layouts@.len(),
            app.variables == old(app).variables,
            forall|k: int| i <= k < n ==> #[trigger] app.layouts@[k] == old(app).layouts@[k],
            forall|k: int| 0 <= k < i ==> {
                &&& #[trigger] app.layouts@[k] == (Layout { children: app.layouts@[k].children, ..old(app).layouts@[k] })
                &&& app.layouts@[k].children@.len() == old(app).layouts@[k].children@.len()
                &&& forall|j: int| 0 <= j < old(app).layouts@[k].children@.len() ==> initially_selected(
                    #[trigger] old(app).layouts@[k].children@[j],
                    app.layouts@[k].children@[j],
                    old(app).layouts@[k].first_in_tab_order(),
                )
            },
        decreases n - i,
    {
        let l = &mut app.layouts[i];
        set_initial_selection(l);
        i = i + 1;
    }
    let ghost mid = app.layouts@;
    assert(initially_set(old(app).layouts@, mid));
    settle_root_layout(&mut app.layouts);
    assert(settled(mid, app.layouts@));
    Ok(())
}

} // verus!
