use vstd::prelude::*;
use crate::common::ExecutionMode;
use crate::muxbox::Choice;
use crate::position::InputBounds;
use crate::text::{chars_eq, chars_of};

verus! {

/// An optional text by its characters.
pub open spec fn text_of(o: Option<String>) -> Option<Seq<char>> {
    match o {
        Some(s) => Some(s@),
        None => None,
    }
}

/// Two positions with the same four coordinates.
pub open spec fn same_place(p: InputBounds, q: InputBounds) -> bool {
    p.x1@ == q.x1@ && p.y1@ == q.y1@ && p.x2@ == q.x2@ && p.y2@ == q.y2@
}

/// Lines by their characters.
pub open spec fn lines_of(v: Vec<String>) -> Seq<Seq<char>> {
    v@.map_values(|s: String| s@)
}

/// Optional lines by their characters.
pub open spec fn opt_lines(o: Option<Vec<String>>) -> Option<Seq<Seq<char>>> {
    match o {
        Some(v) => Some(lines_of(v)),
        None => None,
    }
}

/// What is known of a menu choice: its texts by their characters and its
/// flags.
pub struct ChoiceView {
    pub id: Seq<char>,
    pub content: Option<Seq<char>>,
    pub script: Option<Seq<Seq<char>>>,
    pub redirect_output: Option<Seq<char>>,
    pub append_output: Option<bool>,
    pub execution_mode: ExecutionMode,
    pub selected: bool,
    pub waiting: bool,
}

pub open spec fn choice_view(c: Choice) -> ChoiceView {
    ChoiceView {
        id: c.id@,
        content: text_of(c.content),
        script: opt_lines(c.script),
        redirect_output: text_of(c.redirect_output),
        append_output: c.append_output,
        execution_mode: c.execution_mode,
        selected: c.selected,
        waiting: c.waiting,
    }
}

/// Menu choices by what is known of each.
pub open spec fn choices_of(v: Vec<Choice>) -> Seq<ChoiceView> {
    v@.map_values(|c: Choice| choice_view(c))
}

pub open spec fn opt_choices(o: Option<Vec<Choice>>) -> Option<Seq<ChoiceView>> {
    match o {
        Some(v) => Some(choices_of(v)),
        None => None,
    }
}

/// Key bindings, in order, by their characters.
pub open spec fn pairs_of(v: Vec<(String, Vec<String>)>) -> Seq<(Seq<char>, Seq<Seq<char>>)> {
    v@.map_values(|p: (String, Vec<String>)| (p.0@, lines_of(p.1)))
}

/// Whether `i` is the first binding of key `k`.
pub open spec fn key_at(v: Seq<(String, Vec<String>)>, k: Seq<char>, i: int) -> bool {
    &&& 0 <= i < v.len()
    &&& v[i].0@ == k
    &&& forall|j: int| 0 <= j < i ==> v[j].0@ != k
}

pub open spec fn binds(v: Seq<(String, Vec<String>)>, k: Seq<char>) -> bool {
    exists|i: int| 0 <= i < v.len() && v[i].0@ == k
}

/// Key bindings as a map from a key to its commands: the first binding of a
/// key counts.
pub open spec fn keys_map(v: Vec<(String, Vec<String>)>) -> Map<Seq<char>, Seq<Seq<char>>> {
    Map::new(
        |k: Seq<char>| binds(v@, k),
        |k: Seq<char>| lines_of(v@[choose|i: int| key_at(v@, k, i)].1),
    )
}

pub open spec fn opt_pairs(o: Option<Vec<(String, Vec<String>)>>) -> Option<Seq<(Seq<char>, Seq<Seq<char>>)>> {
    match o {
        Some(v) => Some(pairs_of(v)),
        None => None,
    }
}

pub open spec fn opt_keys(o: Option<Vec<(String, Vec<String>)>>) -> Option<Map<Seq<char>, Seq<Seq<char>>>> {
    match o {
        Some(v) => Some(keys_map(v)),
        None => None,
    }
}

/// Variables, in order, by their characters.
pub open spec fn vars_of(v: Vec<(String, String)>) -> Seq<(Seq<char>, Seq<char>)> {
    v@.map_values(|p: (String, String)| (p.0@, p.1@))
}

pub open spec fn opt_vars(o: Option<Vec<(String, String)>>) -> Option<Seq<(Seq<char>, Seq<char>)>> {
    match o {
        Some(v) => Some(vars_of(v)),
        None => None,
    }
}

pub proof fn lemma_key_at_unique(v: Seq<(String, Vec<String>)>, k: Seq<char>, i: int, j: int)
    requires
        key_at(v, k, i),
        key_at(v, k, j),
    ensures
        i == j,
{
}

proof fn lemma_keys_map_at(v: Vec<(String, Vec<String>)>, k: Seq<char>, i: int)
    requires
        key_at(v@, k, i),
    ensures
        keys_map(v).contains_key(k),
        keys_map(v)[k] == lines_of(v@[i].1),
{
    assert(binds(v@, k));
    let c = choose|c: int| key_at(v@, k, c);
    lemma_key_at_unique(v@, k, i, c);
}

/// A bound key has a first binding.
proof fn lemma_first_binding(v: Seq<(String, Vec<String>)>, k: Seq<char>) -> (i: int)
    requires
        binds(v, k),
    ensures
        key_at(v, k, i),
    decreases v.len(),
{
    if v[v.len() - 1].0@ == k && !binds(v.drop_last(), k) {
        assert forall|j: int| 0 <= j < v.len() - 1 implies v[j].0@ != k by {
            if v[j].0@ == k {
                assert(v.drop_last()[j].0@ == k);
            }
        }
        v.len() - 1
    } else {
        assert(binds(v.drop_last(), k)) by {
            let w = choose|w: int| 0 <= w < v.len() && v[w].0@ == k;
            if w == v.len() - 1 {
            } else {
                assert(v.drop_last()[w].0@ == k);
            }
        }
        let i = lemma_first_binding(v.drop_last(), k);
        assert(v.drop_last()[i] == v[i]);
        assert forall|j: int| 0 <= j < i implies v[j].0@ != k by {
            assert(v.drop_last()[j] == v[j]);
        }
        i
    }
}

pub(crate) fn same_text(p: &Option<String>, q: &Option<String>) -> (r: bool)
    ensures
        r == (text_of(*p) == text_of(*q)),
{
    match (p, q) {
        (Some(x), Some(y)) => same_string(x, y),
        (None, None) => true,
        _ => false,
    }
}

pub(crate) fn same_string(x: &String, y: &String) -> (r: bool)
    ensures
        r == (x@ == y@),
{
    let cx = chars_of(x.as_str());
    let cy = chars_of(y.as_str());
    chars_eq(&cx, &cy)
}

pub(crate) fn same_position(p: &InputBounds, q: &InputBounds) -> (r: bool)
    ensures
        r == same_place(*p, *q),
{
    same_string(&p.x1, &q.x1) && same_string(&p.y1, &q.y1) && same_string(&p.x2, &q.x2) && same_string(
        &p.y2,
        &q.y2,
    )
}

pub(crate) fn copy_position(p: &InputBounds) -> (r: InputBounds)
    ensures
        r == *p,
{
    InputBounds { x1: p.x1.clone(), y1: p.y1.clone(), x2: p.x2.clone(), y2: p.y2.clone() }
}

pub(crate) fn copy_text(o: &Option<String>) -> (r: Option<String>)
    ensures
        r == *o,
{
    match o {
        Some(s) => Some(s.clone()),
        None => None,
    }
}

pub(crate) fn same_lines(x: &Vec<String>, y: &Vec<String>) -> (r: bool)
    ensures
        r == (lines_of(*x) == lines_of(*y)),
{
    if x.len() != y.len() {
        assert(lines_of(*x).len() != lines_of(*y).len());
        return false;
    }
    let mut i: usize = 0;
    while i < x.len()
        invariant
            i <= x@.len() == y@.len(),
            forall|t: int| 0 <= t < i ==> x@[t]@ == y@[t]@,
        decreases x@.len() - i,
    {
        if !same_string(&x[i], &y[i]) {
            assert(lines_of(*x)[i as int] != lines_of(*y)[i as int]);
            return false;
        }
        i = i + 1;
    }
    assert(lines_of(*x) =~= lines_of(*y));
    true
}

pub(crate) fn same_opt_lines(x: &Option<Vec<String>>, y: &Option<Vec<String>>) -> (r: bool)
    ensures
        r == (opt_lines(*x) == opt_lines(*y)),
{
    match (x, y) {
        (Some(a), Some(b)) => same_lines(a, b),
        (None, None) => true,
        _ => false,
    }
}

pub(crate) fn copy_lines(v: &Vec<String>) -> (r: Vec<String>)
    ensures
        lines_of(r) == lines_of(*v),
{
    let mut out: Vec<String> = Vec::new();
    let mut i: usize = 0;
    while i < v.len()
        invariant
            i <= v@.len(),
            out@.len() == i,
            forall|t: int| 0 <= t < i ==> out@[t] == v@[t],
        decreases v@.len() - i,
    {
        out.push(v[i].clone());
        i = i + 1;
    }
    assert(lines_of(out) =~= lines_of(*v));
    out
}

pub(crate) fn copy_opt_lines(o: &Option<Vec<String>>) -> (r: Option<Vec<String>>)
    ensures
        opt_lines(r) == opt_lines(*o),
{
    match o {
        Some(v) => Some(copy_lines(v)),
        None => None,
    }
}

fn same_choice(c: &Choice, d: &Choice) -> (r: bool)
    ensures
        r == (choice_view(*c) == choice_view(*d)),
{
    same_string(&c.id, &d.id) && same_text(&c.content, &d.content) && same_opt_lines(&c.script, &d.script)
        && same_text(&c.redirect_output, &d.redirect_output) && c.append_output == d.append_output
        && c.execution_mode == d.execution_mode && c.selected == d.selected && c.waiting == d.waiting
}

pub(crate) fn same_choices(x: &Vec<Choice>, y: &Vec<Choice>) -> (r: bool)
    ensures
        r == (choices_of(*x) == choices_of(*y)),
{
    if x.len() != y.len() {
        assert(choices_of(*x).len() != choices_of(*y).len());
        return false;
    }
    let mut i: usize = 0;
    while i < x.len()
        invariant
            i <= x@.len() == y@.len(),
            forall|t: int| 0 <= t < i ==> choice_view(x@[t]) == choice_view(y@[t]),
        decreases x@.len() - i,
    {
        if !same_choice(&x[i], &y[i]) {
            assert(choices_of(*x)[i as int] != choices_of(*y)[i as int]);
            return false;
        }
        i = i + 1;
    }
    assert(choices_of(*x) =~= choices_of(*y));
    true
}

pub(crate) fn same_opt_choices(x: &Option<Vec<Choice>>, y: &Option<Vec<Choice>>) -> (r: bool)
    ensures
        r == (opt_choices(*x) == opt_choices(*y)),
{
    match (x, y) {
        (Some(a), Some(b)) => same_choices(a, b),
        (None, None) => true,
        _ => false,
    }
}

fn copy_choice(c: &Choice) -> (r: Choice)
    ensures
        choice_view(r) == choice_view(*c),
{
    Choice {
        id: c.id.clone(),
        content: copy_text(&c.content),
        script: copy_opt_lines(&c.script),
        redirect_output: copy_text(&c.redirect_output),
        append_output: c.append_output,
        execution_mode: c.execution_mode,
        selected: c.selected,
        waiting: c.waiting,
    }
}

pub(crate) fn copy_choices(v: &Vec<Choice>) -> (r: Vec<Choice>)
    ensures
        choices_of(r) == choices_of(*v),
{
    let mut out: Vec<Choice> = Vec::new();
    let mut i: usize = 0;
    while i < v.len()
        invariant
            i <= v@.len(),
            out@.len() == i,
            forall|t: int| 0 <= t < i ==> choice_view(out@[t]) == choice_view(v@[t]),
        decreases v@.len() - i,
    {
        out.push(copy_choice(&v[i]));
        i = i + 1;
    }
    assert(choices_of(out) =~= choices_of(*v));
    out
}

pub(crate) fn copy_opt_choices(o: &Option<Vec<Choice>>) -> (r: Option<Vec<Choice>>)
    ensures
        opt_choices(r) == opt_choices(*o),
{
    match o {
        Some(v) => Some(copy_choices(v)),
        None => None,
    }
}

/// The first binding of `key`, if any.
fn first_binding(v: &Vec<(String, Vec<String>)>, key: &String) -> (r: Option<usize>)
    ensures
        r matches Some(i) ==> key_at(v@, key@, i as int),
        r is None ==> !binds(v@, key@),
{
    let mut i: usize = 0;
    while i < v.len()
        invariant
            i <= v@.len(),
            forall|j: int| 0 <= j < i ==> v@[j].0@ != key@,
        decreases v@.len() - i,
    {
        if same_string(&v[i].0, key) {
            return Some(i);
        }
        i = i + 1;
    }
    None
}

/// Whether two lists of key bindings bind the same keys to the same commands.
pub(crate) fn same_keys(x: &Vec<(String, Vec<String>)>, y: &Vec<(String, Vec<String>)>) -> (r: bool)
    ensures
        r == (keys_map(*x) == keys_map(*y)),
{
    let mut i: usize = 0;
    while i < x.len()
        invariant
            i <= x@.len(),
            forall|t: int| 0 <= t < i ==> keys_map(*y).contains_key(#[trigger] x@[t].0@) && keys_map(*x)[x@[t].0@]
                == keys_map(*y)[x@[t].0@],
        decreases x@.len() - i,
    {
        let k = &x[i].0;
        proof {
            assert(binds(x@, k@));
        }
        match (first_binding(x, k), first_binding(y, k)) {
            (Some(p), Some(q)) => {
                proof {
                    lemma_keys_map_at(*x, k@, p as int);
                    lemma_keys_map_at(*y, k@, q as int);
                }
                if !same_lines(&x[p].1, &y[q].1) {
                    return false;
                }
            },
            (_, None) => {
                assert(keys_map(*x).contains_key(k@));
                assert(!keys_map(*y).contains_key(k@));
                return false;
            },
            (None, Some(_)) => {
                return false;
            },
        }
        i = i + 1;
    }
    let mut j: usize = 0;
    while j < y.len()
        invariant
            j <= y@.len(),
            forall|t: int| 0 <= t < x@.len() ==> keys_map(*y).contains_key(#[trigger] x@[t].0@) && keys_map(*x)[x@[t].0@]
                == keys_map(*y)[x@[t].0@],
            forall|t: int| 0 <= t < j ==> keys_map(*x).contains_key(#[trigger] y@[t].0@),
        decreases y@.len() - j,
    {
        let k = &y[j].0;
        proof {
            assert(binds(y@, k@));
        }
        match first_binding(x, k) {
            Some(_) => {},
            None => {
                assert(keys_map(*y).contains_key(k@));
                assert(!keys_map(*x).contains_key(k@));
                return false;
            },
        }
        j = j + 1;
    }
    proof {
        assert forall|k: Seq<char>| keys_map(*x).contains_key(k) implies keys_map(*y).contains_key(k) && keys_map(*x)[k]
            == keys_map(*y)[k] by {
            let w = choose|w: int| 0 <= w < x@.len() && x@[w].0@ == k;
            assert(keys_map(*y).contains_key(x@[w].0@));
        }
        assert forall|k: Seq<char>| keys_map(*y).contains_key(k) implies keys_map(*x).contains_key(k) by {
            let w = choose|w: int| 0 <= w < y@.len() && y@[w].0@ == k;
            assert(keys_map(*x).contains_key(y@[w].0@));
        }
        assert(keys_map(*x) =~= keys_map(*y));
    }
    true
}

pub(crate) fn same_opt_keys(x: &Option<Vec<(String, Vec<String>)>>, y: &Option<Vec<(String, Vec<String>)>>) -> (r: bool)
    ensures
        r == (opt_keys(*x) == opt_keys(*y)),
{
    match (x, y) {
        (Some(a), Some(b)) => same_keys(a, b),
        (None, None) => true,
        _ => false,
    }
}

pub(crate) fn copy_keys(v: &Vec<(String, Vec<String>)>) -> (r: Vec<(String, Vec<String>)>)
    ensures
        pairs_of(r) == pairs_of(*v),
        keys_map(r) == keys_map(*v),
{
    let mut out: Vec<(String, Vec<String>)> = Vec::new();
    let mut i: usize = 0;
    while i < v.len()
        invariant
            i <= v@.len(),
            out@.len() == i,
            forall|t: int| 0 <= t < i ==> out@[t].0 == v@[t].0 && lines_of(out@[t].1) == lines_of(v@[t].1),
        decreases v@.len() - i,
    {
        out.push((v[i].0.clone(), copy_lines(&v[i].1)));
        i = i + 1;
    }
    assert(pairs_of(out) =~= pairs_of(*v));
    proof {
        assert forall|k: Seq<char>| binds(out@, k) == binds(v@, k) by {
            if binds(out@, k) {
                let w = choose|w: int| 0 <= w < out@.len() && out@[w].0@ == k;
                assert(v@[w].0@ == k);
            }
            if binds(v@, k) {
                let w = choose|w: int| 0 <= w < v@.len() && v@[w].0@ == k;
                assert(out@[w].0@ == k);
            }
        }
        assert forall|k: Seq<char>| keys_map(out).contains_key(k) implies keys_map(out)[k] == keys_map(*v)[k] by {
            let i = lemma_first_binding(v@, k);
            assert(key_at(out@, k, i));
            lemma_keys_map_at(out, k, i);
            lemma_keys_map_at(*v, k, i);
        }
        assert(keys_map(out) =~= keys_map(*v));
    }
    out
}

pub(crate) fn copy_opt_keys(o: &Option<Vec<(String, Vec<String>)>>) -> (r: Option<Vec<(String, Vec<String>)>>)
    ensures
        opt_keys(r) == opt_keys(*o),
        opt_pairs(r) == opt_pairs(*o),
{
    match o {
        Some(v) => Some(copy_keys(v)),
        None => None,
    }
}

pub(crate) fn copy_opt_vars(o: &Option<Vec<(String, String)>>) -> (r: Option<Vec<(String, String)>>)
    ensures
        opt_vars(r) == opt_vars(*o),
{
    match o {
        Some(v) => {
            let mut out: Vec<(String, String)> = Vec::new();
            let mut i: usize = 0;
            while i < v.len()
                invariant
                    i <= v@.len(),
                    out@.len() == i,
                    forall|t: int| 0 <= t < i ==> out@[t] == v@[t],
                decreases v@.len() - i,
            {
                out.push((v[i].0.clone(), v[i].1.clone()));
                i = i + 1;
            }
            assert(vars_of(out) =~= vars_of(*v));
            Some(out)
        },
        None => None,
    }
}

} // verus!
