use vstd::prelude::*;

verus! {

/// Position of the first selected box at or after `i`, in tab order.
pub open spec fn first_selected_from(selected: Seq<bool>, i: int) -> Option<int>
    decreases selected.len() - i,
{
    if 0 <= i < selected.len() {
        if selected[i] {
            Some(i)
        } else {
            first_selected_from(selected, i + 1)
        }
    } else {
        None
    }
}

/// Position of the first selected box, in tab order.
pub open spec fn first_selected(selected: Seq<bool>) -> Option<int> {
    first_selected_from(selected, 0)
}

/// The box that gets the focus when it moves forward: the one after the
/// selected box, wrapping around, or the first box when none is selected.
pub open spec fn spec_next_focus(selected: Seq<bool>) -> int {
    match first_selected(selected) {
        Some(i) => (i + 1) % (selected.len() as int),
        None => 0,
    }
}

/// The box that gets the focus when it moves backward: the one before the
/// selected box, wrapping around, or the last box when none is selected.
pub open spec fn spec_previous_focus(selected: Seq<bool>) -> int {
    match first_selected(selected) {
        Some(i) => if i == 0 {
            selected.len() - 1
        } else {
            i - 1
        },
        None => selected.len() - 1,
    }
}

/// Selection flags when only the box at `index` is selected.
pub open spec fn only_selected(count: nat, index: int) -> Seq<bool> {
    Seq::new(count, |j: int| j == index)
}

/// The position of the first selected flag.
pub fn first_selected_index(selected: &Vec<bool>) -> (r: Option<usize>)
    ensures
        r matches Some(i) ==> first_selected(selected@) == Some(i as int) && i < selected@.len(),
        r is None ==> first_selected(selected@) is None,
{
    let mut i: usize = 0;
    while i < selected.len()
        invariant
            i <= selected@.len(),
            first_selected(selected@) == first_selected_from(selected@, i as int),
        decreases selected@.len() - i,
    {
        if selected[i] {
            return Some(i);
        }
        i = i + 1;
    }
    None
}

/// Where the focus goes when it moves to the next box in tab order; `None`
/// when there is no box to focus.
pub fn next_focus_index(selected: &Vec<bool>) -> (r: Option<usize>)
    ensures
        r is None <==> selected@.len() == 0,
        r matches Some(n) ==> n == spec_next_focus(selected@) && n < selected@.len(),
{
    if selected.len() == 0 {
        return None;
    }
    match first_selected_index(selected) {
        Some(i) => {
            proof {
                lemma_first_selected_in_range(selected@, 0);
            }
            Some((i + 1) % selected.len())
        },
        None => Some(0),
    }
}

/// Where the focus goes when it moves to the previous box in tab order;
/// `None` when there is no box to focus.
pub fn previous_focus_index(selected: &Vec<bool>) -> (r: Option<usize>)
    ensures
        r is None <==> selected@.len() == 0,
        r matches Some(n) ==> n == spec_previous_focus(selected@) && n < selected@.len(),
{
    if selected.len() == 0 {
        return None;
    }
    match first_selected_index(selected) {
        Some(i) => {
            if i == 0 {
                Some(selected.len() - 1)
            } else {
                Some(i - 1)
            }
        },
        None => Some(selected.len() - 1),
    }
}

/// The selection flags after focusing the box at `index` alone.
pub fn select_only(count: usize, index: usize) -> (r: Vec<bool>)
    ensures
        r@ == only_selected(count as nat, index as int),
{
    let mut r: Vec<bool> = Vec::new();
    let mut j: usize = 0;
    while j < count
        invariant
            j <= count,
            r@ == only_selected(j as nat, index as int),
        decreases count - j,
    {
        r.push(j == index);
        j = j + 1;
        assert(r@ =~= only_selected(j as nat, index as int));
    }
    r
}

proof fn lemma_first_selected_in_range(selected: Seq<bool>, i: int)
    requires
        0 <= i,
    ensures
        first_selected_from(selected, i) matches Some(k) ==> i <= k < selected.len() && selected[k],
    decreases selected.len() - i,
{
    if 0 <= i < selected.len() && !selected[i] {
        lemma_first_selected_in_range(selected, i + 1);
    }
}

proof fn lemma_first_selected_is(selected: Seq<bool>, i: int, k: int)
    requires
        0 <= i <= k < selected.len(),
        selected[k],
        forall|j: int| i <= j < k ==> !selected[j],
    ensures
        first_selected_from(selected, i) == Some(k),
    decreases k - i,
{
    if i < k {
        lemma_first_selected_is(selected, i + 1, k);
    }
}

/// When a single box has the focus, moving the focus forward and then back
/// returns it to that box.
pub proof fn law_next_then_previous_returns(count: nat, index: int)
    requires
        0 <= index < count,
    ensures
        ({
            let after = only_selected(count, spec_next_focus(only_selected(count, index)));
            spec_previous_focus(after) == index
        }),
{
    let s = only_selected(count, index);
    lemma_first_selected_is(s, 0, index);
    let n = spec_next_focus(s);
    if index + 1 < count {
        vstd::arithmetic::div_mod::lemma_small_mod((index + 1) as nat, count);
        assert(n == index + 1);
    } else {
        vstd::arithmetic::div_mod::lemma_mod_self_0(count as int);
        assert(n == 0);
    }
    let t = only_selected(count, n);
    lemma_first_selected_is(t, 0, n);
}

/// When a single box has the focus, moving the focus back and then forward
/// returns it to that box.
pub proof fn law_previous_then_next_returns(count: nat, index: int)
    requires
        0 <= index < count,
    ensures
        ({
            let after = only_selected(count, spec_previous_focus(only_selected(count, index)));
            spec_next_focus(after) == index
        }),
{
    let s = only_selected(count, index);
    lemma_first_selected_is(s, 0, index);
    let p = spec_previous_focus(s);
    assert(0 <= p < count);
    let t = only_selected(count, p);
    lemma_first_selected_is(t, 0, p);
    if index == 0 {
        assert(p == count - 1);
        vstd::arithmetic::div_mod::lemma_mod_self_0(count as int);
    } else {
        assert(p == index - 1);
        vstd::arithmetic::div_mod::lemma_small_mod(index as nat, count);
    }
}

/// With a single focused box, moving forward focuses the next box in tab
/// order, and the first one after the last.
pub proof fn law_next_is_following_box(count: nat, index: int)
    requires
        0 <= index < count,
    ensures
        spec_next_focus(only_selected(count, index)) == (index + 1) % (count as int),
{
    lemma_first_selected_is(only_selected(count, index), 0, index);
}

/// With no box focused, moving forward focuses the first box and moving back
/// focuses the last one.
pub proof fn law_no_focus_starts_at_ends(count: nat)
    requires
        count > 0,
    ensures
        spec_next_focus(Seq::new(count, |j: int| false)) == 0,
        spec_previous_focus(Seq::new(count, |j: int| false)) == count - 1,
{
    let s = Seq::new(count, |j: int| false);
    lemma_none_selected(s, 0);
}

proof fn lemma_none_selected(selected: Seq<bool>, i: int)
    requires
        0 <= i,
        forall|j: int| i <= j < selected.len() ==> !selected[j],
    ensures
        first_selected_from(selected, i) is None,
    decreases selected.len() - i,
{
    if i < selected.len() {
        lemma_none_selected(selected, i + 1);
    }
}

} // verus!
