use vstd::prelude::*;
use crate::text::{chars_eq, chars_of, push_chars, string_from_chars};

verus! {

/// A table of variables: name and value, first binding wins.
pub type VarTable = Vec<(String, String)>;

pub open spec fn table_view(t: Seq<(String, String)>) -> Seq<(Seq<char>, Seq<char>)> {
    t.map_values(|e: (String, String)| (e.0@, e.1@))
}

/// Value of the first binding of `name` in a table.
pub open spec fn lookup(t: Seq<(Seq<char>, Seq<char>)>, name: Seq<char>) -> Option<Seq<char>>
    decreases t.len(),
{
    if t.len() == 0 {
        None
    } else if t[0].0 == name {
        Some(t[0].1)
    } else {
        lookup(t.drop_first(), name)
    }
}

/// Value of `name` in the first table of a box hierarchy (child first) that binds it.
pub open spec fn lookup_hierarchy(h: Seq<Seq<(Seq<char>, Seq<char>)>>, name: Seq<char>) -> Option<Seq<char>>
    decreases h.len(),
{
    if h.len() == 0 {
        None
    } else {
        match lookup(h[0], name) {
            Some(v) => Some(v),
            None => lookup_hierarchy(h.drop_first(), name),
        }
    }
}

/// Value of a variable: the box hierarchy (child first), then the layout's
/// variables, the application's, the environment's, and finally the default.
pub open spec fn resolve(
    hierarchy: Seq<Seq<(Seq<char>, Seq<char>)>>,
    layout: Seq<(Seq<char>, Seq<char>)>,
    app: Seq<(Seq<char>, Seq<char>)>,
    env: Seq<(Seq<char>, Seq<char>)>,
    name: Seq<char>,
    default: Seq<char>,
) -> Seq<char> {
    match lookup_hierarchy(hierarchy, name) {
        Some(v) => v,
        None => match lookup(layout, name) {
            Some(v) => v,
            None => match lookup(app, name) {
                Some(v) => v,
                None => match lookup(env, name) {
                    Some(v) => v,
                    None => default,
                },
            },
        },
    }
}

fn lookup_exec(t: &VarTable, name: &Vec<char>) -> (r: Option<String>)
    ensures
        r matches Some(v) ==> lookup(table_view(t@), name@) == Some(v@),
        r is None ==> lookup(table_view(t@), name@) is None,
{
    let ghost tv = table_view(t@);
    assert(tv.skip(0) =~= tv);
    let mut i: usize = 0;
    while i < t.len()
        invariant
            i <= t@.len(),
            tv == table_view(t@),
            lookup(tv, name@) == lookup(tv.skip(i as int), name@),
        decreases t@.len() - i,
    {
        let key = chars_of(t[i].0.as_str());
        proof {
            assert(tv.skip(i as int)[0] == tv[i as int]);
            assert(tv.skip(i as int).drop_first() =~= tv.skip(i + 1));
        }
        if chars_eq(&key, name) {
            return Some(t[i].1.clone());
        }
        i = i + 1;
    }
    proof {
        assert(tv.skip(i as int).len() == 0);
    }
    None
}

/// Variables of the application and of the active layout, as seen while
/// expanding the scripts and texts of boxes.
#[derive(Debug, Clone)]
pub struct VariableContext {
    app_vars: VarTable,
    layout_vars: VarTable,
}

/// Text that the nested-variable check reports for a match.
pub open spec fn nested_error(found: Seq<char>) -> Seq<char> {
    "Nested variable substitution is not supported. Found: '"@ + found + "' - Use simple variables only."@
}

/// Text that replaces a variable whose default holds the start of another variable.
pub open spec fn malformed_default_error(name: Seq<char>) -> Seq<char> {
    "error: malformed nested variable in default for '"@ + name + seq!['\'']
}

/// First index at or after `from` that holds a `}`, or the length.
pub open spec fn first_close(s: Seq<char>, from: int) -> int
    decreases s.len() - from,
{
    if from >= s.len() || from < 0 {
        s.len() as int
    } else if s[from] == '}' {
        from
    } else {
        first_close(s, from + 1)
    }
}

/// First index at or after `from` that holds `}` or `:`, or the length.
pub open spec fn first_stop(s: Seq<char>, from: int) -> int
    decreases s.len() - from,
{
    if from >= s.len() || from < 0 {
        s.len() as int
    } else if s[from] == '}' || s[from] == ':' {
        from
    } else {
        first_stop(s, from + 1)
    }
}

pub open spec fn opens_at(s: Seq<char>, k: int) -> bool {
    0 <= k && k + 1 < s.len() && s[k] == '$' && s[k + 1] == '{'
}

/// A nested variable starts at `i`: `${`, then another `${` before the first `}`
/// that follows, and that `}` exists.
pub open spec fn nested_at(s: Seq<char>, i: int) -> bool {
    &&& opens_at(s, i)
    &&& first_close(s, i + 2) < s.len()
    &&& exists|k: int| i + 2 <= k && k + 2 <= first_close(s, i + 2) && #[trigger] opens_at(s, k)
}

/// Start of the leftmost nested variable at or after `i`.
pub open spec fn first_nested(s: Seq<char>, i: int) -> Option<int>
    decreases s.len() - i,
{
    if i >= s.len() || i < 0 {
        None
    } else if nested_at(s, i) {
        Some(i)
    } else {
        first_nested(s, i + 1)
    }
}

/// `${name}` or `${name:default}` at `i`: the name, the default and the index
/// of the closing brace.
pub open spec fn var_at(s: Seq<char>, i: int) -> Option<(Seq<char>, Seq<char>, int)> {
    if opens_at(s, i) {
        let e = first_stop(s, i + 2);
        if e > i + 2 && e < s.len() {
            if s[e] == '}' {
                Some((s.subrange(i + 2, e), Seq::empty(), e))
            } else {
                let c = first_close(s, e + 1);
                if c < s.len() {
                    Some((s.subrange(i + 2, e), s.subrange(e + 1, c), c))
                } else {
                    None
                }
            }
        } else {
            None
        }
    } else {
        None
    }
}

pub open spec fn contains_open(s: Seq<char>) -> bool {
    exists|k: int| #[trigger] opens_at(s, k)
}

pub open spec fn is_env_start(c: char) -> bool {
    ('A' <= c <= 'Z') || c == '_'
}

pub open spec fn is_env_char(c: char) -> bool {
    ('A' <= c <= 'Z') || ('0' <= c <= '9') || c == '_'
}

/// First index at or after `from` that does not hold an upper-case letter, a
/// digit or `_`, or the length.
pub open spec fn env_name_end(s: Seq<char>, from: int) -> int
    decreases s.len() - from,
{
    if from >= s.len() || from < 0 {
        s.len() as int
    } else if !is_env_char(s[from]) {
        from
    } else {
        env_name_end(s, from + 1)
    }
}

/// The `${...}` pass from `i` on: each variable replaced, other characters kept.
pub open spec fn braces_from(
    s: Seq<char>,
    i: int,
    hierarchy: Seq<Seq<(Seq<char>, Seq<char>)>>,
    layout: Seq<(Seq<char>, Seq<char>)>,
    app: Seq<(Seq<char>, Seq<char>)>,
    env: Seq<(Seq<char>, Seq<char>)>,
) -> Seq<char>
    decreases s.len() - i,
{
    if i >= s.len() || i < 0 {
        Seq::empty()
    } else {
        match var_at(s, i) {
            Some((name, default, close)) => {
                let replacement = if contains_open(default) {
                    malformed_default_error(name)
                } else {
                    resolve(hierarchy, layout, app, env, name, default)
                };
                if close + 1 > i {
                    replacement + braces_from(s, close + 1, hierarchy, layout, app, env)
                } else {
                    replacement
                }
            },
            None => seq![s[i]] + braces_from(s, i + 1, hierarchy, layout, app, env),
        }
    }
}

/// The `$NAME` pass from `i` on: each upper-case name after `$` replaced by
/// its value, or kept as written when it has none.
pub open spec fn dollars_from(
    s: Seq<char>,
    i: int,
    hierarchy: Seq<Seq<(Seq<char>, Seq<char>)>>,
    layout: Seq<(Seq<char>, Seq<char>)>,
    app: Seq<(Seq<char>, Seq<char>)>,
    env: Seq<(Seq<char>, Seq<char>)>,
) -> Seq<char>
    decreases s.len() - i,
{
    if i >= s.len() || i < 0 {
        Seq::empty()
    } else if s[i] == '$' && i + 1 < s.len() && is_env_start(s[i + 1]) {
        let e = env_name_end(s, i + 2);
        let name = s.subrange(i + 1, e);
        if i < e <= s.len() {
            resolve(hierarchy, layout, app, env, name, seq!['$'] + name) + dollars_from(s, e, hierarchy, layout, app, env)
        } else {
            Seq::empty()
        }
    } else {
        seq![s[i]] + dollars_from(s, i + 1, hierarchy, layout, app, env)
    }
}

/// Result of substitution: an error naming the leftmost nested variable,
/// or the text after the `${...}` pass and then the `$NAME` pass.
pub open spec fn substitute_spec(
    s: Seq<char>,
    hierarchy: Seq<Seq<(Seq<char>, Seq<char>)>>,
    layout: Seq<(Seq<char>, Seq<char>)>,
    app: Seq<(Seq<char>, Seq<char>)>,
    env: Seq<(Seq<char>, Seq<char>)>,
) -> Result<Seq<char>, Seq<char>> {
    match first_nested(s, 0) {
        Some(i) => Err(nested_error(s.subrange(i, first_close(s, i + 2) + 1))),
        None => {
            let braces = braces_from(s, 0, hierarchy, layout, app, env);
            Ok(dollars_from(braces, 0, hierarchy, layout, app, env))
        },
    }
}


impl VariableContext {
    pub closed spec fn app_vars(&self) -> Seq<(Seq<char>, Seq<char>)> {
        table_view(self.app_vars@)
    }

    pub closed spec fn layout_vars(&self) -> Seq<(Seq<char>, Seq<char>)> {
        table_view(self.layout_vars@)
    }

    pub open spec fn spec_resolve(
        &self,
        hierarchy: Seq<Seq<(Seq<char>, Seq<char>)>>,
        env: Seq<(Seq<char>, Seq<char>)>,
        name: Seq<char>,
        default: Seq<char>,
    ) -> Seq<char> {
        resolve(hierarchy, self.layout_vars(), self.app_vars(), env, name, default)
    }

    /// Result of substitution with this context's tables.
    pub open spec fn spec_substitute(
        &self,
        s: Seq<char>,
        hierarchy: Seq<Seq<(Seq<char>, Seq<char>)>>,
        env: Seq<(Seq<char>, Seq<char>)>,
    ) -> Result<Seq<char>, Seq<char>> {
        substitute_spec(s, hierarchy, self.layout_vars(), self.app_vars(), env)
    }

    /// A context over copies of the given tables (empty when absent).
    pub fn new(app_vars: Option<&VarTable>, layout_vars: Option<&VarTable>) -> (c: Self)
        ensures
            c.app_vars() == (match app_vars {
                Some(t) => table_view(t@),
                None => Seq::empty(),
            }),
            c.layout_vars() == (match layout_vars {
                Some(t) => table_view(t@),
                None => Seq::empty(),
            }),
    {
        let a = match app_vars {
            Some(t) => copy_table(t),
            None => Vec::new(),
        };
        let l = match layout_vars {
            Some(t) => copy_table(t),
            None => Vec::new(),
        };
        let c = VariableContext { app_vars: a, layout_vars: l };
        proof {
            if app_vars is None {
                assert(c.app_vars() =~= Seq::<(Seq<char>, Seq<char>)>::empty());
            }
            if layout_vars is None {
                assert(c.layout_vars() =~= Seq::<(Seq<char>, Seq<char>)>::empty());
            }
        }
        c
    }

    /// Value of a variable: the box hierarchy (child first), then the layout,
    /// the application, the environment snapshot `env`, and finally `default`.
    pub fn resolve_variable(
        &self,
        name: &str,
        default: &str,
        muxbox_hierarchy: &Vec<VarTable>,
        env: &VarTable,
    ) -> (r: String)
        ensures
            r@ == self.spec_resolve(
                muxbox_hierarchy@.map_values(|t: VarTable| table_view(t@)),
                table_view(env@),
                name@,
                default@,
            ),
    {
        let n = chars_of(name);
        let d = chars_of(default);
        let v = self.resolve_chars(&n, &d, muxbox_hierarchy, env);
        string_from_chars(&v)
    }

    fn resolve_chars(&self, name: &Vec<char>, default: &Vec<char>, hierarchy: &Vec<VarTable>, env: &VarTable) -> (r: Vec<char>)
        ensures
            r@ == self.spec_resolve(
                hierarchy@.map_values(|t: VarTable| table_view(t@)),
                table_view(env@),
                name@,
                default@,
            ),
    {
        let ghost hv = hierarchy@.map_values(|t: VarTable| table_view(t@));
        assert(hv.skip(0) =~= hv);
        let mut i: usize = 0;
        while i < hierarchy.len()
            invariant
                i <= hierarchy@.len(),
                hv == hierarchy@.map_values(|t: VarTable| table_view(t@)),
                lookup_hierarchy(hv, name@) == lookup_hierarchy(hv.skip(i as int), name@),
            decreases hierarchy@.len() - i,
        {
            proof {
                assert(hv.skip(i as int)[0] == hv[i as int]);
                assert(hv.skip(i as int).drop_first() =~= hv.skip(i + 1));
            }
            match lookup_exec(&hierarchy[i], name) {
                Some(v) => {
                    return chars_of(v.as_str());
                },
                None => {},
            }
            i = i + 1;
        }
        proof {
            assert(hv.skip(i as int).len() == 0);
        }
        match lookup_exec(&self.layout_vars, name) {
            Some(v) => {
                return chars_of(v.as_str());
            },
            None => {},
        }
        match lookup_exec(&self.app_vars, name) {
            Some(v) => {
                return chars_of(v.as_str());
            },
            None => {},
        }
        match lookup_exec(env, name) {
            Some(v) => {
                return chars_of(v.as_str());
            },
            None => {},
        }
        let mut out: Vec<char> = Vec::new();
        push_chars(&mut out, default);
        out
    }
}

fn first_close_exec(s: &Vec<char>, from: usize) -> (r: usize)
    ensures
        r == first_close(s@, from as int),
        from <= s@.len() ==> from <= r <= s@.len(),
        from > s@.len() ==> r == s@.len(),
{
    if from >= s.len() {
        return s.len();
    }
    let mut i = from;
    while i < s.len() && s[i] != '}'
        invariant
            from <= i <= s@.len(),
            first_close(s@, from as int) == first_close(s@, i as int),
        decreases s@.len() - i,
    {
        i = i + 1;
    }
    i
}

fn first_stop_exec(s: &Vec<char>, from: usize) -> (r: usize)
    ensures
        r == first_stop(s@, from as int),
        from <= s@.len() ==> from <= r <= s@.len(),
        from > s@.len() ==> r == s@.len(),
{
    if from >= s.len() {
        return s.len();
    }
    let mut i = from;
    while i < s.len() && s[i] != '}' && s[i] != ':'
        invariant
            from <= i <= s@.len(),
            first_stop(s@, from as int) == first_stop(s@, i as int),
        decreases s@.len() - i,
    {
        i = i + 1;
    }
    i
}

fn env_char(c: char) -> (r: bool)
    ensures
        r == is_env_char(c),
{
    ('A' <= c && c <= 'Z') || ('0' <= c && c <= '9') || c == '_'
}

fn env_name_end_exec(s: &Vec<char>, from: usize) -> (r: usize)
    ensures
        r == env_name_end(s@, from as int),
        from <= s@.len() ==> from <= r <= s@.len(),
        from > s@.len() ==> r == s@.len(),
{
    if from >= s.len() {
        return s.len();
    }
    let mut i = from;
    while i < s.len() && env_char(s[i])
        invariant
            from <= i <= s@.len(),
            env_name_end(s@, from as int) == env_name_end(s@, i as int),
        decreases s@.len() - i,
    {
        i = i + 1;
    }
    i
}

fn opens_at_exec(s: &Vec<char>, k: usize) -> (r: bool)
    ensures
        r == opens_at(s@, k as int),
{
    k < s.len() && k + 1 < s.len() && s[k] == '$' && s[k + 1] == '{'
}

fn nested_at_exec(s: &Vec<char>, i: usize) -> (r: bool)
    requires
        i < s@.len(),
    ensures
        r == nested_at(s@, i as int),
{
    if !opens_at_exec(s, i) {
        return false;
    }
    let len = s.len();
    assert(i + 2 <= len);
    let start: usize = i + 2;
    let c = first_close_exec(s, start);
    if c >= s.len() {
        return false;
    }
    let mut k = i + 2;
    while k < c && c - k >= 2
        invariant
            i + 2 <= k,
            opens_at(s@, i as int),
            c == first_close(s@, i + 2),
            c < s@.len(),
            forall|m: int| i + 2 <= m < k ==> !opens_at(s@, m),
        decreases c - k,
    {
        if opens_at_exec(s, k) {
            assert(i + 2 <= k && k + 2 <= first_close(s@, i + 2) && opens_at(s@, k as int));
            return true;
        }
        k = k + 1;
    }
    proof {
        assert forall|m: int| i + 2 <= m && m + 2 <= c implies !#[trigger] opens_at(s@, m) by {
            assert(m < k);
        }
    }
    false
}

fn contains_open_exec(s: &Vec<char>) -> (r: bool)
    ensures
        r == contains_open(s@),
{
    let mut k: usize = 0;
    while k < s.len()
        invariant
            k <= s@.len(),
            forall|m: int| 0 <= m < k ==> !opens_at(s@, m),
        decreases s@.len() - k,
    {
        if opens_at_exec(s, k) {
            return true;
        }
        k = k + 1;
    }
    proof {
        assert forall|m: int| !#[trigger] opens_at(s@, m) by {
            if 0 <= m < s@.len() {
                assert(m < k);
            }
        }
    }
    false
}

proof fn lemma_first_nested_found(s: Seq<char>, j: int, i: int)
    requires
        first_nested(s, j) == Some(i),
    ensures
        nested_at(s, i),
        0 <= i < s.len(),
    decreases s.len() - j,
{
    if !(j >= s.len() || j < 0) && !nested_at(s, j) {
        lemma_first_nested_found(s, j + 1, i);
    }
}

fn first_nested_exec(s: &Vec<char>) -> (r: Option<usize>)
    ensures
        r matches Some(i) ==> first_nested(s@, 0) == Some(i as int) && i < s@.len(),
        r is None ==> first_nested(s@, 0) is None,
{
    let mut i: usize = 0;
    while i < s.len()
        invariant
            i <= s@.len(),
            first_nested(s@, 0) == first_nested(s@, i as int),
        decreases s@.len() - i,
    {
        if nested_at_exec(s, i) {
            return Some(i);
        }
        i = i + 1;
    }
    None
}

fn subrange_vec(s: &Vec<char>, from: usize, to: usize) -> (r: Vec<char>)
    requires
        from <= to <= s@.len(),
    ensures
        r@ == s@.subrange(from as int, to as int),
{
    let mut r: Vec<char> = Vec::new();
    let mut i = from;
    while i < to
        invariant
            from <= i <= to <= s@.len(),
            r@ == s@.subrange(from as int, i as int),
        decreases to - i,
    {
        r.push(s[i]);
        i = i + 1;
        assert(r@ =~= s@.subrange(from as int, i as int));
    }
    r
}

impl VariableContext {
    fn braces_pass(&self, s: &Vec<char>, hierarchy: &Vec<VarTable>, env: &VarTable) -> (out: Vec<char>)
        ensures
            out@ == braces_from(
                s@,
                0,
                hierarchy@.map_values(|t: VarTable| table_view(t@)),
                self.layout_vars(),
                self.app_vars(),
                table_view(env@),
            ),
    {
        let ghost hv = hierarchy@.map_values(|t: VarTable| table_view(t@));
        let ghost ev = table_view(env@);
        let mut out: Vec<char> = Vec::new();
        let mut i: usize = 0;
        while i < s.len()
            invariant
                i <= s@.len(),
                hv == hierarchy@.map_values(|t: VarTable| table_view(t@)),
                ev == table_view(env@),
                braces_from(s@, 0, hv, self.layout_vars(), self.app_vars(), ev) == out@ + braces_from(s@, i as int, hv, self.layout_vars(), self.app_vars(), ev),
            decreases s@.len() - i,
        {
            let ghost before = out@;
            let mut matched = false;
            if opens_at_exec(s, i) {
                let e = first_stop_exec(s, i + 2);
                if e > i + 2 && e < s.len() {
                    let close = if s[e] == '}' {
                        e
                    } else {
                        first_close_exec(s, e + 1)
                    };
                    if close < s.len() {
                        let name = subrange_vec(s, i + 2, e);
                        let default = if s[e] == '}' {
                            Vec::new()
                        } else {
                            subrange_vec(s, e + 1, close)
                        };
                        proof {
                            if s[e as int] == '}' {
                                assert(default@ =~= Seq::<char>::empty());
                            }
                            assert(var_at(s@, i as int) == Some((name@, default@, close as int)));
                        }
                        let replacement = if contains_open_exec(&default) {
                            let mut msg = chars_of("error: malformed nested variable in default for '");
                            push_chars(&mut msg, &name);
                            msg.push('\'');
                            msg
                        } else {
                            self.resolve_chars(&name, &default, hierarchy, env)
                        };
                        push_chars(&mut out, &replacement);
                        proof {
                            assert(out@ == before + replacement@);
                            assert(out@ + braces_from(s@, close + 1, hv, self.layout_vars(), self.app_vars(), ev) =~= before + (replacement@
                                + braces_from(s@, close + 1, hv, self.layout_vars(), self.app_vars(), ev)));
                        }
                        i = close + 1;
                        matched = true;
                    }
                }
            }
            if !matched {
                proof {
                    assert(var_at(s@, i as int) is None);
                }
                out.push(s[i]);
                proof {
                    assert(out@ + braces_from(s@, i + 1, hv, self.layout_vars(), self.app_vars(), ev) =~= before + (seq![s@[i as int]]
                        + braces_from(s@, i + 1, hv, self.layout_vars(), self.app_vars(), ev)));
                }
                i = i + 1;
            }
        }
        proof {
            assert(out@ + Seq::<char>::empty() =~= out@);
        }
        out
    }

    fn dollars_pass(&self, s: &Vec<char>, hierarchy: &Vec<VarTable>, env: &VarTable) -> (out: Vec<char>)
        ensures
            out@ == dollars_from(
                s@,
                0,
                hierarchy@.map_values(|t: VarTable| table_view(t@)),
                self.layout_vars(),
                self.app_vars(),
                table_view(env@),
            ),
    {
        let ghost hv = hierarchy@.map_values(|t: VarTable| table_view(t@));
        let ghost ev = table_view(env@);
        let mut out: Vec<char> = Vec::new();
        let mut i: usize = 0;
        while i < s.len()
            invariant
                i <= s@.len(),
                hv == hierarchy@.map_values(|t: VarTable| table_view(t@)),
                ev == table_view(env@),
                dollars_from(s@, 0, hv, self.layout_vars(), self.app_vars(), ev) == out@ + dollars_from(s@, i as int, hv, self.layout_vars(), self.app_vars(), ev),
            decreases s@.len() - i,
        {
            let ghost before = out@;
            let c = s[i];
            if c == '$' && i + 1 < s.len() && (('A' <= s[i + 1] && s[i + 1] <= 'Z') || s[i + 1] == '_') {
                let e = env_name_end_exec(s, i + 2);
                let name = subrange_vec(s, i + 1, e);
                let mut default: Vec<char> = Vec::new();
                default.push('$');
                push_chars(&mut default, &name);
                let value = self.resolve_chars(&name, &default, hierarchy, env);
                push_chars(&mut out, &value);
                proof {
                    assert(default@ =~= seq!['$'] + name@);
                    assert(out@ + dollars_from(s@, e as int, hv, self.layout_vars(), self.app_vars(), ev) =~= before + (value@
                        + dollars_from(s@, e as int, hv, self.layout_vars(), self.app_vars(), ev)));
                }
                i = e;
            } else {
                out.push(c);
                proof {
                    assert(out@ + dollars_from(s@, i + 1, hv, self.layout_vars(), self.app_vars(), ev) =~= before + (seq![c]
                        + dollars_from(s@, i + 1, hv, self.layout_vars(), self.app_vars(), ev)));
                }
                i = i + 1;
            }
        }
        proof {
            assert(out@ + Seq::<char>::empty() =~= out@);
        }
        out
    }

    /// Expands `${NAME}`, `${NAME:default}` and `$NAME` in `content`. A variable
    /// nested in another (`${A:${B}}`) is refused with an error that quotes it.
    pub fn substitute_in_string(
        &self,
        content: &str,
        muxbox_hierarchy: &Vec<VarTable>,
        env: &VarTable,
    ) -> (r: Result<String, String>)
        ensures
            (match r {
                Ok(s) => Ok(s@),
                Err(e) => Err(e@),
            }) == self.spec_substitute(
                content@,
                muxbox_hierarchy@.map_values(|t: VarTable| table_view(t@)),
                table_view(env@),
            ),
    {
        let s = chars_of(content);
        match first_nested_exec(&s) {
            Some(i) => {
                proof {
                    lemma_first_nested_found(s@, 0, i as int);
                }
                let c = first_close_exec(&s, i + 2);
                assert(c < s.len());
                let found = subrange_vec(&s, i, c + 1);
                let mut msg = chars_of("Nested variable substitution is not supported. Found: '");
                push_chars(&mut msg, &found);
                let tail = chars_of("' - Use simple variables only.");
                push_chars(&mut msg, &tail);
                Err(string_from_chars(&msg))
            },
            None => {
                let braces = self.braces_pass(&s, muxbox_hierarchy, env);
                let out = self.dollars_pass(&braces, muxbox_hierarchy, env);
                Ok(string_from_chars(&out))
            },
        }
    }
}

/// Expands variables with no application, layout or box variables: only the
/// environment snapshot `env` and the defaults written in the text are used.
pub fn substitute_variables(content: &str, env: &VarTable) -> (r: Result<String, String>)
    ensures
        (match r {
            Ok(s) => Ok(s@),
            Err(e) => Err(e@),
        }) == substitute_spec(content@, Seq::empty(), Seq::empty(), Seq::empty(), table_view(env@)),
{
    let context = VariableContext::new(None, None);
    let hierarchy: Vec<VarTable> = Vec::new();
    let r = context.substitute_in_string(content, &hierarchy, env);
    proof {
        assert(hierarchy@.map_values(|t: VarTable| table_view(t@)) =~= Seq::<Seq<(Seq<char>, Seq<char>)>>::empty());
    }
    r
}

proof fn lemma_no_dollar_braces(
    s: Seq<char>,
    i: int,
    h: Seq<Seq<(Seq<char>, Seq<char>)>>,
    layout: Seq<(Seq<char>, Seq<char>)>,
    app: Seq<(Seq<char>, Seq<char>)>,
    env: Seq<(Seq<char>, Seq<char>)>,
)
    requires
        0 <= i <= s.len(),
        forall|k: int| 0 <= k < s.len() ==> s[k] != '$',
    ensures
        braces_from(s, i, h, layout, app, env) == s.skip(i),
        dollars_from(s, i, h, layout, app, env) == s.skip(i),
    decreases s.len() - i,
{
    if i < s.len() {
        lemma_no_dollar_braces(s, i + 1, h, layout, app, env);
        assert(s.skip(i) =~= seq![s[i]] + s.skip(i + 1));
    } else {
        assert(s.skip(i) =~= Seq::<char>::empty());
    }
}

proof fn lemma_no_dollar_no_nested(s: Seq<char>, i: int)
    requires
        0 <= i,
        forall|k: int| 0 <= k < s.len() ==> s[k] != '$',
    ensures
        first_nested(s, i) is None,
    decreases s.len() - i,
{
    if i < s.len() {
        lemma_no_dollar_no_nested(s, i + 1);
    }
}

proof fn lemma_first_stop_at(s: Seq<char>, from: int, to: int)
    requires
        0 <= from <= to < s.len(),
        s[to] == '}' || s[to] == ':',
        forall|k: int| from <= k < to ==> s[k] != '}' && s[k] != ':',
    ensures
        first_stop(s, from) == to,
    decreases to - from,
{
    if from < to {
        lemma_first_stop_at(s, from + 1, to);
    }
}

proof fn lemma_first_close_at(s: Seq<char>, from: int, to: int)
    requires
        0 <= from <= to < s.len(),
        s[to] == '}',
        forall|k: int| from <= k < to ==> s[k] != '}',
    ensures
        first_close(s, from) == to,
    decreases to - from,
{
    if from < to {
        lemma_first_close_at(s, from + 1, to);
    }
}

proof fn lemma_no_nested_from(s: Seq<char>, i: int)
    requires
        0 <= i,
        forall|k: int| 1 <= k < s.len() ==> s[k] != '$',
    ensures
        first_nested(s, i) is None,
    decreases s.len() - i,
{
    if i < s.len() {
        assert(!nested_at(s, i)) by {
            if nested_at(s, i) {
                let k = choose|k: int| i + 2 <= k && k + 2 <= first_close(s, i + 2) && #[trigger] opens_at(s, k);
                assert(s[k] == '$');
            }
        }
        lemma_no_nested_from(s, i + 1);
    }
}

/// `${NAME:fallback}`, with `NAME` bound in no table and in the
/// environment, gives the fallback, when the text holds nothing else to
/// substitute.
pub proof fn law_unset_variable_gives_fallback(
    name: Seq<char>,
    fallback: Seq<char>,
    env: Seq<(Seq<char>, Seq<char>)>,
)
    requires
        name.len() > 0,
        forall|k: int| 0 <= k < name.len() ==> name[k] != '}' && name[k] != ':' && name[k] != '$',
        forall|k: int| 0 <= k < fallback.len() ==> fallback[k] != '}' && fallback[k] != '$',
        lookup(env, name) is None,
    ensures
        substitute_spec(
            seq!['$', '{'] + name + seq![':'] + fallback + seq!['}'],
            Seq::empty(),
            Seq::empty(),
            Seq::empty(),
            env,
        ) == Ok::<Seq<char>, Seq<char>>(fallback),
{
    let s = seq!['$', '{'] + name + seq![':'] + fallback + seq!['}'];
    let n = name.len() as int;
    let f = fallback.len() as int;
    let e: Seq<(Seq<char>, Seq<char>)> = Seq::empty();
    let h: Seq<Seq<(Seq<char>, Seq<char>)>> = Seq::empty();
    assert(s.len() == n + f + 4);
    assert forall|k: int| 2 <= k < 2 + n implies s[k] == name[k - 2] by {}
    assert forall|k: int| 3 + n <= k < 3 + n + f implies s[k] == fallback[k - 3 - n] by {}
    assert(s[2 + n] == ':');
    assert(s[3 + n + f] == '}');
    assert forall|k: int| 1 <= k < s.len() implies s[k] != '$' by {
        if 2 <= k < 2 + n {
            assert(s[k] == name[k - 2]);
        } else if 3 + n <= k < 3 + n + f {
            assert(s[k] == fallback[k - 3 - n]);
        }
    }
    lemma_no_nested_from(s, 0);
    assert(!nested_at(s, 0)) by {
        if nested_at(s, 0) {
            let k = choose|k: int| 2 <= k && k + 2 <= first_close(s, 2) && #[trigger] opens_at(s, k);
            assert(s[k] == '$');
        }
    }
    assert(first_nested(s, 0) is None) by {
        lemma_no_nested_from(s, 1);
    }
    lemma_first_stop_at(s, 2, 2 + n);
    lemma_first_close_at(s, 3 + n, 3 + n + f);
    assert(s.subrange(2, 2 + n) =~= name);
    assert(s.subrange(3 + n, 3 + n + f) =~= fallback);
    assert(opens_at(s, 0));
    assert(var_at(s, 0) == Some((name, fallback, 3 + n + f)));
    assert(!contains_open(fallback)) by {
        if contains_open(fallback) {
            let k = choose|k: int| #[trigger] opens_at(fallback, k);
            assert(fallback[k] == '$');
        }
    }
    assert(resolve(h, e, e, env, name, fallback) == fallback);
    assert(braces_from(s, 4 + n + f, h, e, e, env) == Seq::<char>::empty());
    assert(braces_from(s, 0, h, e, e, env) =~= fallback);
    lemma_no_dollar_braces(fallback, 0, h, e, e, env);
    assert(fallback.skip(0) =~= fallback);
}

/// A text with a nested variable (a `${` opened inside another `${...}`) is
/// refused: the error names the leftmost one, from its `${` to the first `}`
/// after it, and nothing is substituted.
pub proof fn law_nested_variable_is_refused(
    s: Seq<char>,
    hierarchy: Seq<Seq<(Seq<char>, Seq<char>)>>,
    layout: Seq<(Seq<char>, Seq<char>)>,
    app: Seq<(Seq<char>, Seq<char>)>,
    env: Seq<(Seq<char>, Seq<char>)>,
    i: int,
)
    requires
        nested_at(s, i),
        forall|j: int| 0 <= j < i ==> !nested_at(s, j),
    ensures
        substitute_spec(s, hierarchy, layout, app, env) == Err::<Seq<char>, Seq<char>>(
            nested_error(s.subrange(i, first_close(s, i + 2) + 1)),
        ),
{
    lemma_first_nested_is(s, 0, i);
}

proof fn lemma_first_nested_is(s: Seq<char>, from: int, i: int)
    requires
        0 <= from <= i,
        nested_at(s, i),
        forall|j: int| from <= j < i ==> !nested_at(s, j),
    ensures
        first_nested(s, from) == Some(i),
    decreases i - from,
{
    if from < i {
        lemma_first_nested_is(s, from + 1, i);
    }
}

proof fn lemma_braces_keep(
    s: Seq<char>,
    i: int,
    h: Seq<Seq<(Seq<char>, Seq<char>)>>,
    layout: Seq<(Seq<char>, Seq<char>)>,
    app: Seq<(Seq<char>, Seq<char>)>,
    env: Seq<(Seq<char>, Seq<char>)>,
)
    requires
        0 <= i <= s.len(),
        forall|k: int| i <= k < s.len() ==> s[k] != '$',
    ensures
        braces_from(s, i, h, layout, app, env) == s.skip(i),
    decreases s.len() - i,
{
    if i < s.len() {
        lemma_braces_keep(s, i + 1, h, layout, app, env);
        assert(s.skip(i) =~= seq![s[i]] + s.skip(i + 1));
    } else {
        assert(s.skip(i) =~= Seq::<char>::empty());
    }
}

proof fn lemma_env_name_end_all(s: Seq<char>, from: int)
    requires
        0 <= from <= s.len(),
        forall|k: int| from <= k < s.len() ==> is_env_char(s[k]),
    ensures
        env_name_end(s, from) == s.len(),
    decreases s.len() - from,
{
    if from < s.len() {
        lemma_env_name_end_all(s, from + 1);
    }
}

/// `$NAME` and `${NAME}` resolve the same way: for a name of upper-case
/// letters, digits and `_` that does not start with a digit, bound in a box
/// table, the layout, the application or the environment to a value without
/// `$`, both give that value, looked up in the same order.
pub proof fn law_dollar_form_resolves_like_braces(
    name: Seq<char>,
    hierarchy: Seq<Seq<(Seq<char>, Seq<char>)>>,
    layout: Seq<(Seq<char>, Seq<char>)>,
    app: Seq<(Seq<char>, Seq<char>)>,
    env: Seq<(Seq<char>, Seq<char>)>,
)
    requires
        name.len() > 0,
        is_env_start(name[0]),
        forall|k: int| 0 <= k < name.len() ==> is_env_char(name[k]),
        lookup_hierarchy(hierarchy, name) is Some || lookup(layout, name) is Some || lookup(app, name) is Some
            || lookup(env, name) is Some,
        forall|k: int|
            0 <= k < resolve(hierarchy, layout, app, env, name, Seq::empty()).len() ==> resolve(
                hierarchy,
                layout,
                app,
                env,
                name,
                Seq::empty(),
            )[k] != '$',
    ensures
        substitute_spec(seq!['$'] + name, hierarchy, layout, app, env) == substitute_spec(
            seq!['$', '{'] + name + seq!['}'],
            hierarchy,
            layout,
            app,
            env,
        ),
        substitute_spec(seq!['$'] + name, hierarchy, layout, app, env) == Ok::<Seq<char>, Seq<char>>(
            resolve(hierarchy, layout, app, env, name, Seq::empty()),
        ),
{
    let n = name.len() as int;
    let v = resolve(hierarchy, layout, app, env, name, Seq::empty());
    assert(resolve(hierarchy, layout, app, env, name, seq!['$'] + name) == v);
    // `$NAME`
    let s1 = seq!['$'] + name;
    assert forall|k: int| 1 <= k < s1.len() implies s1[k] != '$' && is_env_char(s1[k]) by {
        assert(s1[k] == name[k - 1]);
    }
    lemma_no_nested_from(s1, 0);
    assert(s1[1] == name[0]);
    assert(var_at(s1, 0) is None);
    lemma_braces_keep(s1, 1, hierarchy, layout, app, env);
    assert(braces_from(s1, 0, hierarchy, layout, app, env) =~= s1);
    lemma_env_name_end_all(s1, 2);
    assert(s1.subrange(1, s1.len() as int) =~= name);
    assert(dollars_from(s1, s1.len() as int, hierarchy, layout, app, env) == Seq::<char>::empty());
    assert(dollars_from(s1, 0, hierarchy, layout, app, env) =~= v);
    // `${NAME}`
    let s2 = seq!['$', '{'] + name + seq!['}'];
    assert(s2.len() == n + 3);
    assert forall|k: int| 2 <= k < 2 + n implies s2[k] == name[k - 2] by {}
    assert(s2[2 + n] == '}');
    assert forall|k: int| 1 <= k < s2.len() implies s2[k] != '$' by {
        if 2 <= k < 2 + n {
            assert(s2[k] == name[k - 2]);
        }
    }
    lemma_no_nested_from(s2, 0);
    assert forall|k: int| 2 <= k < 2 + n implies s2[k] != '}' && s2[k] != ':' by {
        assert(s2[k] == name[k - 2]);
    }
    lemma_first_stop_at(s2, 2, 2 + n);
    assert(s2.subrange(2, 2 + n) =~= name);
    assert(opens_at(s2, 0));
    assert(var_at(s2, 0) == Some((name, Seq::<char>::empty(), 2 + n)));
    assert(!contains_open(Seq::<char>::empty()));
    assert(braces_from(s2, 3 + n, hierarchy, layout, app, env) == Seq::<char>::empty());
    assert(braces_from(s2, 0, hierarchy, layout, app, env) =~= v);
    lemma_no_dollar_braces(v, 0, hierarchy, layout, app, env);
    assert(v.skip(0) =~= v);
}

/// A text without `$` comes back unchanged.
pub proof fn law_text_without_dollar_unchanged(
    s: Seq<char>,
    hierarchy: Seq<Seq<(Seq<char>, Seq<char>)>>,
    layout: Seq<(Seq<char>, Seq<char>)>,
    app: Seq<(Seq<char>, Seq<char>)>,
    env: Seq<(Seq<char>, Seq<char>)>,
)
    requires
        forall|k: int| 0 <= k < s.len() ==> s[k] != '$',
    ensures
        substitute_spec(s, hierarchy, layout, app, env) == Ok::<Seq<char>, Seq<char>>(s),
{
    lemma_no_dollar_no_nested(s, 0);
    lemma_no_dollar_braces(s, 0, hierarchy, layout, app, env);
    assert(s.skip(0) =~= s);
}

/// A variable bound by the innermost box wins over every other binding; with
/// no box binding, the layout wins over the application, the application over
/// the environment, and the environment over the default.
pub proof fn law_resolution_precedence(
    hierarchy: Seq<Seq<(Seq<char>, Seq<char>)>>,
    layout: Seq<(Seq<char>, Seq<char>)>,
    app: Seq<(Seq<char>, Seq<char>)>,
    env: Seq<(Seq<char>, Seq<char>)>,
    name: Seq<char>,
    default: Seq<char>,
)
    ensures
        hierarchy.len() > 0 && lookup(hierarchy[0], name) is Some ==> resolve(hierarchy, layout, app, env, name, default)
            == lookup(hierarchy[0], name)->0,
        lookup_hierarchy(hierarchy, name) is None && lookup(layout, name) is Some ==> resolve(
            hierarchy,
            layout,
            app,
            env,
            name,
            default,
        ) == lookup(layout, name)->0,
        lookup_hierarchy(hierarchy, name) is None && lookup(layout, name) is None && lookup(app, name) is Some
            ==> resolve(hierarchy, layout, app, env, name, default) == lookup(app, name)->0,
        lookup_hierarchy(hierarchy, name) is None && lookup(layout, name) is None && lookup(app, name) is None
            && lookup(env, name) is Some ==> resolve(hierarchy, layout, app, env, name, default) == lookup(env, name)->0,
        lookup_hierarchy(hierarchy, name) is None && lookup(layout, name) is None && lookup(app, name) is None
            && lookup(env, name) is None ==> resolve(hierarchy, layout, app, env, name, default) == default,
{
}

fn copy_table(t: &VarTable) -> (r: VarTable)
    ensures
        table_view(r@) == table_view(t@),
{
    let mut r: VarTable = Vec::new();
    let mut i: usize = 0;
    while i < t.len()
        invariant
            i <= t@.len(),
            table_view(r@) == table_view(t@).take(i as int),
        decreases t@.len() - i,
    {
        let k = t[i].0.clone();
        let v = t[i].1.clone();
        let ghost before = r@;
        r.push((k, v));
        proof {
            assert(r@ == before.push((k, v)));
            assert(table_view(r@) =~= table_view(before).push((k@, v@)));
            assert(table_view(t@)[i as int] == (t@[i as int].0@, t@[i as int].1@));
            assert(table_view(t@).take(i + 1) =~= table_view(t@).take(i as int).push(table_view(t@)[i as int]));
        }
        i = i + 1;
    }
    assert(table_view(t@).take(t@.len() as int) =~= table_view(t@));
    r
}

fn append_table(a: &mut VarTable, b: &VarTable)
    ensures
        table_view(final(a)@) == table_view(old(a)@) + table_view(b@),
{
    let mut i: usize = 0;
    while i < b.len()
        invariant
            i <= b@.len(),
            table_view(a@) == table_view(old(a)@) + table_view(b@).take(i as int),
        decreases b@.len() - i,
    {
        let k = b[i].0.clone();
        let v = b[i].1.clone();
        let ghost before = a@;
        a.push((k, v));
        proof {
            assert(a@ == before.push((k, v)));
            assert(table_view(a@) =~= table_view(before).push((k@, v@)));
            assert(table_view(b@)[i as int] == (b@[i as int].0@, b@[i as int].1@));
            assert(table_view(b@).take(i + 1) =~= table_view(b@).take(i as int).push(table_view(b@)[i as int]));
        }
        i = i + 1;
    }
    assert(table_view(b@).take(b@.len() as int) =~= table_view(b@));
}

impl VariableContext {
    /// A context with the same tables.
    pub fn copy(&self) -> (c: Self)
        ensures
            c.app_vars() == self.app_vars(),
            c.layout_vars() == self.layout_vars(),
    {
        VariableContext { app_vars: copy_table(&self.app_vars), layout_vars: copy_table(&self.layout_vars) }
    }

    /// The context inside a box with these variables: the box's own come
    /// first, so they override the application's; the layout's are kept.
    pub fn with_box_variables(&self, box_vars: &VarTable) -> (c: Self)
        ensures
            c.app_vars() == table_view(box_vars@) + self.app_vars(),
            c.layout_vars() == self.layout_vars(),
    {
        let mut a = copy_table(box_vars);
        append_table(&mut a, &self.app_vars);
        VariableContext { app_vars: a, layout_vars: copy_table(&self.layout_vars) }
    }
}

} // verus!
