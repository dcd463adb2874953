use vstd::prelude::*;
use crate::muxbox::MuxBox;
use crate::muxbox::Choice;
use crate::text::{chars_of, decimal, push_chars, push_decimal, string_from_chars};
use crate::variables::{substitute_spec, table_view, VarTable, VariableContext};

verus! {

/// A table of variables as its names and values.
pub type Table = Seq<(Seq<char>, Seq<char>)>;

/// Substitution in one text of a box: the box hierarchy is not consulted,
/// the box's variables having been merged into the application's.
pub open spec fn subst(s: Seq<char>, app: Table, layout: Table, env: Table) -> Result<Seq<char>, Seq<char>> {
    substitute_spec(s, Seq::empty(), layout, app, env)
}

/// The application variables seen inside a box: its own, which override,
/// then those seen around it.
pub open spec fn scope_of(node: MuxBox, app: Table) -> Table {
    match node.variables {
        Some(v) => table_view(v@) + app,
        None => app,
    }
}

/// The message of a failed substitution in a box's field.
pub open spec fn box_field_error(id: Seq<char>, what: Seq<char>, e: Seq<char>) -> Seq<char> {
    "Error in muxbox '"@ + id + "' "@ + what + ": "@ + e
}

/// Name of the `i`-th (from 0) script line in messages, numbered from 1.
pub open spec fn line_what(prefix: Seq<char>, i: int) -> Seq<char> {
    prefix + "script line "@ + decimal((i + 1) as nat)
}

/// The error of substituting in an optional text.
pub open spec fn text_error(t: Option<String>, app: Table, layout: Table, env: Table) -> Option<Seq<char>> {
    match t {
        Some(s) => match subst(s@, app, layout, env) {
            Err(e) => Some(e),
            Ok(_) => None,
        },
        None => None,
    }
}

/// Position and error of the first line from the `i`-th on whose substitution fails.
pub open spec fn lines_error(lines: Seq<String>, i: int, app: Table, layout: Table, env: Table) -> Option<(int, Seq<char>)>
    decreases lines.len() - i,
{
    if 0 <= i < lines.len() {
        match subst(lines[i]@, app, layout, env) {
            Err(e) => Some((i, e)),
            Ok(_) => lines_error(lines, i + 1, app, layout, env),
        }
    } else {
        None
    }
}

pub open spec fn opt_lines_error(lines: Option<Vec<String>>, app: Table, layout: Table, env: Table) -> Option<(int, Seq<char>)> {
    match lines {
        Some(v) => lines_error(v@, 0, app, layout, env),
        None => None,
    }
}

/// The first error among the choices from the `i`-th on of the box `id`:
/// each choice's content, then its script lines.
pub open spec fn choices_error(id: Seq<char>, cs: Seq<Choice>, i: int, app: Table, layout: Table, env: Table) -> Option<Seq<char>>
    decreases cs.len() - i,
{
    if 0 <= i < cs.len() {
        let what = "choice '"@ + cs[i].id@ + "' "@;
        match text_error(cs[i].content, app, layout, env) {
            Some(e) => Some(box_field_error(id, what + "content"@, e)),
            None => match opt_lines_error(cs[i].script, app, layout, env) {
                Some((j, e)) => Some(box_field_error(id, line_what(what, j), e)),
                None => choices_error(id, cs, i + 1, app, layout, env),
            },
        }
    } else {
        None
    }
}

/// The first error met when substituting in a box and below it, in the order
/// title, content, script lines, redirect target, choices, then the children.
pub open spec fn box_error(node: MuxBox, app: Table, layout: Table, env: Table) -> Option<Seq<char>>
    decreases node, node.children@.len() + 1,
{
    let scope = scope_of(node, app);
    let id = node.id@;
    match text_error(node.title, scope, layout, env) {
        Some(e) => Some(box_field_error(id, "title"@, e)),
        None => match text_error(node.content, scope, layout, env) {
            Some(e) => Some(box_field_error(id, "content"@, e)),
            None => match opt_lines_error(node.script, scope, layout, env) {
                Some((j, e)) => Some(box_field_error(id, line_what(Seq::empty(), j), e)),
                None => match text_error(node.redirect_output, scope, layout, env) {
                    Some(e) => Some(box_field_error(id, "redirect_output"@, e)),
                    None => match choices_error(
                        id,
                        match node.choices {
                            Some(cs) => cs@,
                            None => Seq::empty(),
                        },
                        0,
                        scope,
                        layout,
                        env,
                    ) {
                        Some(e) => Some(e),
                        None => children_error(node, 0, scope, layout, env),
                    },
                },
            },
        },
    }
}

/// The first error among the children of `node` from the `i`-th on.
pub open spec fn children_error(node: MuxBox, i: int, app: Table, layout: Table, env: Table) -> Option<Seq<char>>
    decreases node, node.children@.len() - i,
{
    if 0 <= i < node.children@.len() {
        match box_error(node.children@[i], app, layout, env) {
            Some(e) => Some(e),
            None => children_error(node, i + 1, app, layout, env),
        }
    } else {
        None
    }
}

/// `after` is `before` with its variables substituted.
pub open spec fn text_substituted(before: Option<String>, after: Option<String>, app: Table, layout: Table, env: Table) -> bool {
    match before {
        Some(s) => after matches Some(t) && subst(s@, app, layout, env) == Ok::<Seq<char>, Seq<char>>(t@),
        None => after is None,
    }
}

pub open spec fn lines_substituted(
    before: Option<Vec<String>>,
    after: Option<Vec<String>>,
    app: Table,
    layout: Table,
    env: Table,
) -> bool {
    match before {
        Some(v) => after matches Some(w) && w@.len() == v@.len() && forall|i: int|
            0 <= i < v@.len() ==> subst(#[trigger] v@[i]@, app, layout, env) == Ok::<Seq<char>, Seq<char>>(w@[i]@),
        None => after is None,
    }
}

pub open spec fn choice_substituted(before: Choice, after: Choice, app: Table, layout: Table, env: Table) -> bool {
    &&& after.id == before.id
    &&& after.redirect_output == before.redirect_output
    &&& after.append_output == before.append_output
    &&& after.execution_mode == before.execution_mode
    &&& after.selected == before.selected
    &&& after.waiting == before.waiting
    &&& text_substituted(before.content, after.content, app, layout, env)
    &&& lines_substituted(before.script, after.script, app, layout, env)
}

pub open spec fn choices_substituted(before: Seq<Choice>, after: Seq<Choice>, app: Table, layout: Table, env: Table) -> bool {
    after.len() == before.len() && forall|i: int|
        0 <= i < before.len() ==> choice_substituted(#[trigger] before[i], after[i], app, layout, env)
}

/// `after` is the box `before`, and everything below it, with the variables
/// of its texts substituted: a box sees its own variables first, then those
/// seen around it; the layout's and the environment's come after.
pub open spec fn box_substituted(before: MuxBox, after: MuxBox, app: Table, layout: Table, env: Table) -> bool
    decreases before, before.children@.len() + 1,
{
    let scope = scope_of(before, app);
    &&& after.id == before.id
    &&& after.position == before.position
    &&& after.anchor == before.anchor
    &&& after.min_width == before.min_width
    &&& after.min_height == before.min_height
    &&& after.max_width == before.max_width
    &&& after.max_height == before.max_height
    &&& after.variables == before.variables
    &&& text_substituted(before.title, after.title, scope, layout, env)
    &&& text_substituted(before.content, after.content, scope, layout, env)
    &&& lines_substituted(before.script, after.script, scope, layout, env)
    &&& text_substituted(before.redirect_output, after.redirect_output, scope, layout, env)
    &&& match before.choices {
        Some(cs) => after.choices matches Some(ds) && choices_substituted(cs@, ds@, scope, layout, env),
        None => after.choices is None,
    }
    &&& after.children@.len() == before.children@.len()
    &&& children_substituted(before, after, 0, scope, layout, env)
}

pub open spec fn children_substituted(before: MuxBox, after: MuxBox, i: int, app: Table, layout: Table, env: Table) -> bool
    decreases before, before.children@.len() - i,
{
    if 0 <= i < before.children@.len() {
        box_substituted(before.children@[i], after.children@[i], app, layout, env) && children_substituted(
            before,
            after,
            i + 1,
            app,
            layout,
            env,
        )
    } else {
        true
    }
}

fn subst_text(context: &VariableContext, s: &String, env: &VarTable) -> (r: Result<String, String>)
    ensures
        (match r {
            Ok(t) => Ok(t@),
            Err(e) => Err(e@),
        }) == subst(s@, context.app_vars(), context.layout_vars(), table_view(env@)),
{
    let hierarchy: Vec<VarTable> = Vec::new();
    let r = context.substitute_in_string(s.as_str(), &hierarchy, env);
    proof {
        assert(hierarchy@.map_values(|t: VarTable| table_view(t@)) =~= Seq::<Table>::empty());
    }
    r
}

fn subst_opt(context: &VariableContext, t: &Option<String>, env: &VarTable) -> (r: Result<Option<String>, String>)
    ensures
        r matches Ok(a) ==> text_error(*t, context.app_vars(), context.layout_vars(), table_view(env@)) is None
            && text_substituted(*t, a, context.app_vars(), context.layout_vars(), table_view(env@)),
        r matches Err(e) ==> text_error(*t, context.app_vars(), context.layout_vars(), table_view(env@)) == Some(e@),
{
    match t {
        Some(s) => match subst_text(context, s, env) {
            Ok(v) => Ok(Some(v)),
            Err(e) => Err(e),
        },
        None => Ok(None),
    }
}

fn subst_lines(context: &VariableContext, lines: &Option<Vec<String>>, env: &VarTable) -> (r: Result<
    Option<Vec<String>>,
    (usize, String),
>)
    ensures
        r matches Ok(a) ==> opt_lines_error(*lines, context.app_vars(), context.layout_vars(), table_view(env@)) is None
            && lines_substituted(*lines, a, context.app_vars(), context.layout_vars(), table_view(env@)),
        r matches Err((i, e)) ==> opt_lines_error(*lines, context.app_vars(), context.layout_vars(), table_view(env@))
            == Some((i as int, e@)),
        r matches Err((i, _)) ==> i < usize::MAX,
{
    let ghost app = context.app_vars();
    let ghost layout = context.layout_vars();
    let ghost envt = table_view(env@);
    match lines {
        Some(v) => {
            assert(opt_lines_error(*lines, app, layout, envt) == lines_error(v@, 0, app, layout, envt));
            let mut out: Vec<String> = Vec::new();
            let mut i: usize = 0;
            while i < v.len()
                invariant
                    i <= v@.len(),
                    opt_lines_error(*lines, app, layout, envt) == lines_error(v@, 0, app, layout, envt),
                    out@.len() == i,
                    app == context.app_vars(),
                    layout == context.layout_vars(),
                    envt == table_view(env@),
                    lines_error(v@, 0, app, layout, envt) == lines_error(v@, i as int, app, layout, envt),
                    forall|j: int| 0 <= j < i ==> subst(#[trigger] v@[j]@, app, layout, envt) == Ok::<
                        Seq<char>,
                        Seq<char>,
                    >(out@[j]@),
                decreases v@.len() - i,
            {
                match subst_text(context, &v[i], env) {
                    Ok(s) => {
                        out.push(s);
                    },
                    Err(e) => {
                        assert(lines_error(v@, i as int, app, layout, envt) == Some((i as int, e@)));
                        return Err((i, e));
                    },
                }
                i = i + 1;
            }
            Ok(Some(out))
        },
        None => Ok(None),
    }
}

/// The message of a failed substitution in a box's field.
fn field_error(id: &str, what: &Vec<char>, e: &String) -> (r: String)
    ensures
        r@ == box_field_error(id@, what@, e@),
{
    let mut out = chars_of("Error in muxbox '");
    let idc = chars_of(id);
    push_chars(&mut out, &idc);
    let sep = chars_of("' ");
    push_chars(&mut out, &sep);
    push_chars(&mut out, what);
    let colon = chars_of(": ");
    push_chars(&mut out, &colon);
    let ec = chars_of(e.as_str());
    push_chars(&mut out, &ec);
    string_from_chars(&out)
}

fn line_name(prefix: &Vec<char>, i: usize) -> (r: Vec<char>)
    requires
        i < usize::MAX,
    ensures
        r@ == line_what(prefix@, i as int),
{
    let mut out: Vec<char> = Vec::new();
    push_chars(&mut out, prefix);
    let s = chars_of("script line ");
    push_chars(&mut out, &s);
    push_decimal(&mut out, (i + 1) as u64);
    out
}

fn subst_choices(context: &VariableContext, id: &str, choices: &mut Vec<Choice>, env: &VarTable) -> (r: Result<(), String>)
    ensures
        r is Ok <==> choices_error(id@, old(choices)@, 0, context.app_vars(), context.layout_vars(), table_view(env@)) is None,
        r matches Err(e) ==> choices_error(id@, old(choices)@, 0, context.app_vars(), context.layout_vars(), table_view(env@))
            == Some(e@),
        r is Ok ==> choices_substituted(old(choices)@, final(choices)@, context.app_vars(), context.layout_vars(), table_view(env@)),
{
    let ghost app = context.app_vars();
    let ghost layout = context.layout_vars();
    let ghost envt = table_view(env@);
    let ghost start = choices@;
    let mut i: usize = 0;
    while i < choices.len()
        invariant
            i <= choices@.len() == start.len(),
            app == context.app_vars(),
            layout == context.layout_vars(),
            envt == table_view(env@),
            start == old(choices)@,
            choices_error(id@, start, 0, app, layout, envt) == choices_error(id@, start, i as int, app, layout, envt),
            forall|j: int| 0 <= j < i ==> choice_substituted(#[trigger] start[j], choices@[j], app, layout, envt),
            forall|j: int| i <= j < start.len() ==> #[trigger] choices@[j] == start[j],
        decreases start.len() - i,
    {
        let mut what = chars_of("choice '");
        let cid = chars_of(choices[i].id.as_str());
        push_chars(&mut what, &cid);
        let q = chars_of("' ");
        push_chars(&mut what, &q);
        let content = match subst_opt(context, &choices[i].content, env) {
            Ok(c) => c,
            Err(e) => {
                let mut w = what;
                let c = chars_of("content");
                push_chars(&mut w, &c);
                return Err(field_error(id, &w, &e));
            },
        };
        let script = match subst_lines(context, &choices[i].script, env) {
            Ok(s) => s,
            Err((j, e)) => {
                proof {
                    lemma_lines_error_index(match start[i as int].script {
                        Some(v) => v@,
                        None => Seq::empty(),
                    }, 0, app, layout, envt);
                }
                let w = line_name(&what, j);
                return Err(field_error(id, &w, &e));
            },
        };
        let ghost before_all = choices@;
        let ch = &mut choices[i];
        ch.content = content;
        ch.script = script;
        proof {
            assert(choices@ == before_all.update(i as int, choices@[i as int]));
        }
        i = i + 1;
    }
    Ok(())
}

proof fn lemma_lines_error_index(lines: Seq<String>, i: int, app: Table, layout: Table, env: Table)
    requires
        0 <= i,
    ensures
        lines_error(lines, i, app, layout, env) matches Some((j, _)) ==> i <= j < lines.len(),
    decreases lines.len() - i,
{
    if i < lines.len() {
        lemma_lines_error_index(lines, i + 1, app, layout, env);
    }
}

/// Substitutes the variables in the texts of a box and of everything below
/// it, each box seeing its own variables over those of the context; stops at
/// the first failure with a message that says where it happened.
pub fn apply_muxbox_variable_substitution(node: &mut MuxBox, context: &VariableContext, env: &VarTable) -> (r: Result<(), String>)
    ensures
        r is Ok <==> box_error(*old(node), context.app_vars(), context.layout_vars(), table_view(env@)) is None,
        r matches Err(e) ==> box_error(*old(node), context.app_vars(), context.layout_vars(), table_view(env@)) == Some(e@),
        r is Ok ==> box_substituted(*old(node), *final(node), context.app_vars(), context.layout_vars(), table_view(env@)),
    decreases *old(node),
{
    let local = match &node.variables {
        Some(vars) => context.with_box_variables(vars),
        None => context.copy(),
    };
    let ghost scope = local.app_vars();
    let ghost layout = local.layout_vars();
    let ghost envt = table_view(env@);
    assert(scope == scope_of(*old(node), context.app_vars()));
    let title = match subst_opt(&local, &node.title, env) {
        Ok(t) => t,
        Err(e) => {
            let w = chars_of("title");
            return Err(field_error(node.id.as_str(), &w, &e));
        },
    };
    let content = match subst_opt(&local, &node.content, env) {
        Ok(t) => t,
        Err(e) => {
            let w = chars_of("content");
            return Err(field_error(node.id.as_str(), &w, &e));
        },
    };
    let script = match subst_lines(&local, &node.script, env) {
        Ok(s) => s,
        Err((j, e)) => {
            proof {
                lemma_lines_error_index(match old(node).script {
                    Some(v) => v@,
                    None => Seq::empty(),
                }, 0, scope, layout, envt);
            }
            let none: Vec<char> = Vec::new();
            let w = line_name(&none, j);
            return Err(field_error(node.id.as_str(), &w, &e));
        },
    };
    let redirect = match subst_opt(&local, &node.redirect_output, env) {
        Ok(t) => t,
        Err(e) => {
            let w = chars_of("redirect_output");
            return Err(field_error(node.id.as_str(), &w, &e));
        },
    };
    node.title = title;
    node.content = content;
    node.script = script;
    node.redirect_output = redirect;
    let mut choices: Option<Vec<Choice>> = None;
    std::mem::swap(&mut choices, &mut node.choices);
    match choices {
        Some(mut cs) => {
            let res = subst_choices(&local, node.id.as_str(), &mut cs, env);
            node.choices = Some(cs);
            match res {
                Ok(()) => {},
                Err(e) => {
                    return Err(e);
                },
            }
        },
        None => {},
    }
    let ghost mid = *node;
    assert(box_error(*old(node), context.app_vars(), context.layout_vars(), envt) == children_error(
        *old(node),
        0,
        scope,
        layout,
        envt,
    ));
    let n = node.children.len();
    let mut i: usize = 0;
    while i < n
        invariant
            i <= n == node.children@.len() == old(node).children@.len(),
            scope == local.app_vars(),
            layout == local.layout_vars(),
            envt == table_view(env@),
            scope == scope_of(*old(node), context.app_vars()),
            layout == context.layout_vars(),
            node.id == old(node).id,
            node.id == mid.id,
            node.position == mid.position,
            node.anchor == mid.anchor,
            node.min_width == mid.min_width,
            node.min_height == mid.min_height,
            node.max_width == mid.max_width,
            node.max_height == mid.max_height,
            node.variables == mid.variables,
            node.title == mid.title,
            node.content == mid.content,
            node.script == mid.script,
            node.redirect_output == mid.redirect_output,
            node.choices == mid.choices,
            box_error(*old(node), context.app_vars(), context.layout_vars(), envt) == children_error(
                *old(node),
                0,
                scope,
                layout,
                envt,
            ),
            children_error(*old(node), 0, scope, layout, envt) == children_error(*old(node), i as int, scope, layout, envt),
            forall|j: int| 0 <= j < i ==> box_substituted(#[trigger] old(node).children@[j], node.children@[j], scope, layout, envt),
            forall|j: int| i <= j < n ==> #[trigger] node.children@[j] == old(node).children@[j],
        decreases n - i,
    {
        let child = &mut node.children[i];
        match apply_muxbox_variable_substitution(child, &local, env) {
            Ok(()) => {},
            Err(e) => {
                return Err(e);
            },
        }
        i = i + 1;
    }
    proof {
        lemma_children_substituted(*old(node), *node, 0, scope, layout, envt);
    }
    Ok(())
}

proof fn lemma_children_substituted(before: MuxBox, after: MuxBox, i: int, app: Table, layout: Table, env: Table)
    requires
        0 <= i,
        after.children@.len() == before.children@.len(),
        forall|j: int| 0 <= j < before.children@.len() ==> box_substituted(#[trigger] before.children@[j], after.children@[j], app, layout, env),
    ensures
        children_substituted(before, after, i, app, layout, env),
    decreases before.children@.len() - i,
{
    if i < before.children@.len() {
        lemma_children_substituted(before, after, i + 1, app, layout, env);
    }
}

} // verus!
