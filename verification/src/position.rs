use vstd::prelude::*;
use crate::bounds::Bounds;
use crate::text::chars_of;

verus! {

/// Position of a box as written in a layout file: each coordinate is either a
/// number of cells (`"12"`) or a percentage of the parent (`"25%"`, `"33.5%"`).
#[derive(Debug, Clone, PartialEq, Eq, Hash)]
pub struct InputBounds {
    pub x1: String,
    pub y1: String,
    pub x2: String,
    pub y2: String,
}

pub open spec fn is_digit(c: char) -> bool {
    '0' <= c <= '9'
}

pub open spec fn digit_value(c: char) -> nat {
    (c as int - '0' as int) as nat
}

pub open spec fn all_digits(s: Seq<char>) -> bool {
    forall|i: int| 0 <= i < s.len() ==> is_digit(#[trigger] s[i])
}

/// Value of a string of decimal digits.
pub open spec fn digits_value(s: Seq<char>) -> nat
    decreases s.len(),
{
    if s.len() == 0 {
        0
    } else {
        digits_value(s.drop_last()) * 10 + digit_value(s.last())
    }
}

pub open spec fn pow10(k: nat) -> nat
    decreases k,
{
    if k == 0 {
        1
    } else {
        10 * pow10((k - 1) as nat)
    }
}

/// A percentage body split into its integer and fraction digits: `"25"` or `"33.5"`.
pub open spec fn percent_parts(b: Seq<char>) -> Option<(Seq<char>, Seq<char>)> {
    if b.len() > 0 && all_digits(b) {
        Some((b, Seq::empty()))
    } else if exists|p: int|
        0 < p < b.len() - 1 && b[p] == '.' && all_digits(b.take(p)) && all_digits(
            b.skip(p + 1),
        ) {
        let p = choose|p: int|
            0 < p < b.len() - 1 && b[p] == '.' && all_digits(b.take(p)) && all_digits(
                b.skip(p + 1),
            );
        Some((b.take(p), b.skip(p + 1)))
    } else {
        None
    }
}

/// `round(num * extent / den)`, halves rounded up.
pub open spec fn round_div(num: nat, den: nat) -> nat
    recommends
        den > 0,
{
    ((2 * num + den) / (2 * den)) as nat
}

/// Offset of a coordinate from the start of a parent of `extent` cells: a plain
/// number is taken as is; a percentage `p%` is `p` hundredths of the last
/// cell index `extent - 1`, rounded to the nearest cell.
pub open spec fn coordinate_offset(s: Seq<char>, extent: usize) -> Option<nat> {
    if s.len() > 0 && s.last() == '%' {
        match percent_parts(s.drop_last()) {
            Some((int_part, frac_part)) => {
                let scale = pow10(frac_part.len());
                let num = digits_value(int_part) * scale + digits_value(frac_part);
                let last = if extent == 0 { 0nat } else { (extent - 1) as nat };
                Some(round_div(num * last, 100 * scale))
            },
            None => None,
        }
    } else if s.len() > 0 && all_digits(s) {
        Some(digits_value(s))
    } else {
        None
    }
}

proof fn lemma_digits_prefix_le(s: Seq<char>, i: int)
    requires
        0 <= i <= s.len(),
    ensures
        digits_value(s.take(i)) <= digits_value(s),
    decreases s.len() - i,
{
    if i < s.len() {
        lemma_digits_prefix_le(s, i + 1);
        assert(s.take(i + 1).drop_last() =~= s.take(i));
    } else {
        assert(s.take(i) =~= s);
    }
}

proof fn lemma_pow10_positive(k: nat)
    ensures
        pow10(k) >= 1,
    decreases k,
{
    if k > 0 {
        lemma_pow10_positive((k - 1) as nat);
    }
}

/// Value of the digits `v[from..to]`, or `None` when one is not a digit or the
/// value exceeds `u128`.
fn parse_digits(v: &Vec<char>, from: usize, to: usize) -> (r: Option<u128>)
    requires
        from <= to <= v@.len(),
    ensures
        r matches Some(n) ==> all_digits(v@.subrange(from as int, to as int)) && n == digits_value(
            v@.subrange(from as int, to as int),
        ),
        r is None ==> !all_digits(v@.subrange(from as int, to as int)) || digits_value(
            v@.subrange(from as int, to as int),
        ) > u128::MAX,
{
    let ghost s = v@.subrange(from as int, to as int);
    let mut acc: u128 = 0;
    let mut i: usize = from;
    while i < to
        invariant
            from <= i <= to <= v@.len(),
            s == v@.subrange(from as int, to as int),
            all_digits(s.take(i - from)),
            acc == digits_value(s.take(i - from)),
        decreases to - i,
    {
        let c = v[i];
        if !('0' <= c && c <= '9') {
            assert(!is_digit(s[i - from]));
            return None;
        }
        let d: u128 = (c as u32 - '0' as u32) as u128;
        proof {
            assert(s.take(i - from + 1).drop_last() =~= s.take(i - from));
            assert(s.take(i - from + 1).last() == c);
        }
        match acc.checked_mul(10) {
            Some(m) => match m.checked_add(d) {
                Some(n) => {
                    acc = n;
                },
                None => {
                    proof {
                        lemma_digits_prefix_le(s, i - from + 1);
                    }
                    return None;
                },
            },
            None => {
                proof {
                    lemma_digits_prefix_le(s, i - from + 1);
                }
                return None;
            },
        }
        i = i + 1;
        proof {
            assert forall|j: int| 0 <= j < s.take(i - from).len() implies is_digit(
                #[trigger] s.take(i - from)[j],
            ) by {
                if j < i - from - 1 {
                    assert(s.take(i - from)[j] == s.take(i - from - 1)[j]);
                }
            }
        }
    }
    assert(s.take(to - from) =~= s);
    Some(acc)
}

fn pow10_exec(k: usize) -> (r: Option<u128>)
    ensures
        r matches Some(n) ==> n == pow10(k as nat),
        r is None ==> pow10(k as nat) > u128::MAX,
{
    let mut acc: u128 = 1;
    let mut i: usize = 0;
    while i < k
        invariant
            i <= k,
            acc == pow10(i as nat),
        decreases k - i,
    {
        match acc.checked_mul(10) {
            Some(n) => {
                acc = n;
            },
            None => {
                proof {
                    lemma_pow10_mono(i as nat + 1, k as nat);
                }
                return None;
            },
        }
        i = i + 1;
    }
    Some(acc)
}

proof fn lemma_pow10_mono(a: nat, b: nat)
    requires
        a <= b,
    ensures
        pow10(a) <= pow10(b),
    decreases b - a,
{
    if a < b {
        lemma_pow10_mono(a, (b - 1) as nat);
        lemma_pow10_positive((b - 1) as nat);
    }
}

/// Whether the integer computation of a coordinate's offset stays within
/// `u128` and the offset within `usize`.
pub open spec fn offset_computable(s: Seq<char>, extent: usize) -> bool {
    if s.len() > 0 && s.last() == '%' {
        match percent_parts(s.drop_last()) {
            Some((int_part, frac_part)) => {
                let scale = pow10(frac_part.len());
                let num = digits_value(int_part) * scale + digits_value(frac_part);
                let last = if extent == 0 { 0nat } else { (extent - 1) as nat };
                &&& digits_value(int_part) <= u128::MAX
                &&& digits_value(frac_part) <= u128::MAX
                &&& 200 * scale <= u128::MAX
                &&& digits_value(int_part) * scale <= u128::MAX
                &&& num <= u128::MAX
                &&& 2 * (num * last) + 100 * scale <= u128::MAX
                &&& round_div(num * last, 100 * scale) <= usize::MAX
            },
            None => false,
        }
    } else {
        match coordinate_offset(s, extent) {
            Some(n) => n <= usize::MAX,
            None => false,
        }
    }
}

/// Offset of a coordinate inside a parent of `extent` cells, or `None` when the
/// coordinate is not a number or a percentage, or is too large.
pub fn parse_coordinate(value: &str, extent: usize) -> (r: Option<usize>)
    ensures
        r matches Some(n) ==> coordinate_offset(value@, extent) == Some(n as nat),
        r is Some <==> (coordinate_offset(value@, extent) is Some && offset_computable(
            value@,
            extent,
        )),
{
    let v = chars_of(value);
    let len = v.len();
    if len > 0 && v[len - 1] == '%' {
        let ghost b = v@.drop_last();
        assert(v@.subrange(0, (len - 1) as int) =~= b);
        // Split at the first '.', if any.
        let mut p: usize = 0;
        while p < len - 1 && v[p] != '.'
            invariant
                p <= len - 1,
                len == v@.len(),
                forall|j: int| 0 <= j < p ==> v@[j] != '.',
            decreases len - 1 - p,
        {
            p = p + 1;
        }
        let int_digits: Option<u128>;
        let frac_digits: Option<u128>;
        let frac_len: usize;
        if p == len - 1 {
            // No dot: the whole body is the integer part.
            if len - 1 == 0 {
                proof {
                    assert(b.len() == 0);
                }
                return None;
            }
            int_digits = parse_digits(&v, 0, len - 1);
            frac_digits = Some(0);
            frac_len = 0;
            proof {
                if int_digits is Some {
                    assert(percent_parts(b) == Some((b, Seq::<char>::empty())));
                } else if all_digits(b) {
                    assert(percent_parts(b) == Some((b, Seq::<char>::empty())));
                } else {
                    assert forall|q: int| 0 < q < b.len() - 1 implies b[q] != '.' by {
                        assert(v@[q] == b[q]);
                    }
                    assert(percent_parts(b) is None);
                }
            }
        } else {
            // A dot at p: digits before it and after it.
            if p == 0 || p + 1 >= len - 1 {
                proof {
                    assert(b[p as int] == '.');
                    assert(!all_digits(b));
                    assert forall|q: int|
                        0 < q < b.len() - 1 && b[q] == '.' && all_digits(b.take(q)) implies !all_digits(
                        b.skip(q + 1),
                    ) by {
                        if q < p {
                            assert(v@[q] == b[q]);
                        } else if q > p {
                            assert(b.take(q)[p as int] == '.');
                        } else {
                        }
                    }
                }
                return None;
            }
            int_digits = parse_digits(&v, 0, p);
            frac_digits = parse_digits(&v, p + 1, len - 1);
            frac_len = len - 1 - (p + 1);
            proof {
                assert(v@.subrange(0, p as int) =~= b.take(p as int));
                assert(v@.subrange(p + 1, (len - 1) as int) =~= b.skip(p + 1));
                assert(b[p as int] == '.');
                assert(!all_digits(b));
                if all_digits(b.take(p as int)) && all_digits(b.skip(p + 1)) {
                    assert forall|q: int|
                        0 < q < b.len() - 1 && b[q] == '.' && all_digits(b.take(q)) && all_digits(
                            b.skip(q + 1),
                        ) implies q == p by {
                        if q < p {
                            assert(v@[q] == b[q]);
                        } else if q > p {
                            assert(b.take(q)[p as int] == '.');
                        }
                    }
                    assert(percent_parts(b) == Some((b.take(p as int), b.skip(p + 1))));
                } else {
                    assert forall|q: int|
                        0 < q < b.len() - 1 && b[q] == '.' && all_digits(b.take(q)) implies !all_digits(
                        b.skip(q + 1),
                    ) by {
                        if q < p {
                            assert(v@[q] == b[q]);
                        } else if q > p {
                            assert(b.take(q)[p as int] == '.');
                        }
                    }
                    assert(percent_parts(b) is None);
                }
            }
        }
        let ghost parts = percent_parts(b);
        let iv = match int_digits {
            Some(n) => n,
            None => {
                return None;
            },
        };
        let fv = match frac_digits {
            Some(n) => n,
            None => {
                return None;
            },
        };
        proof {
            assert(parts is Some);
            let (ip, fp) = parts.unwrap();
            assert(fp.len() == frac_len);
            assert(digits_value(ip) == iv);
            if frac_len == 0 {
                assert(fp =~= Seq::<char>::empty());
            }
            assert(digits_value(fp) == fv);
        }
        let scale = match pow10_exec(frac_len) {
            Some(s) => s,
            None => {
                return None;
            },
        };
        let den2 = match scale.checked_mul(200) {
            Some(d) => d,
            None => {
                return None;
            },
        };
        let den = scale * 100;
        let scaled_int = match iv.checked_mul(scale) {
            Some(n) => n,
            None => {
                return None;
            },
        };
        let num = match scaled_int.checked_add(fv) {
            Some(n) => n,
            None => {
                return None;
            },
        };
        let last: u128 = if extent == 0 {
            0
        } else {
            (extent - 1) as u128
        };
        let prod = match num.checked_mul(last) {
            Some(n) => n,
            None => {
                proof {
                    assert(num * last <= 2 * (num * last)) by (nonlinear_arith)
                        requires
                            num >= 0,
                            last >= 0,
                    ;
                }
                return None;
            },
        };
        let twice = match prod.checked_mul(2) {
            Some(n) => n,
            None => {
                return None;
            },
        };
        let top = match twice.checked_add(den) {
            Some(n) => n,
            None => {
                return None;
            },
        };
        proof {
            lemma_pow10_positive(frac_len as nat);
        }
        let q = top / den2;
        proof {
            lemma_pow10_positive(frac_len as nat);
            assert(den2 == 2 * (100 * scale));
        }
        if q > usize::MAX as u128 {
            return None;
        }
        Some(q as usize)
    } else {
        let n = parse_digits(&v, 0, len);
        proof {
            assert(v@.subrange(0, len as int) =~= v@);
        }
        match n {
            Some(n) => {
                if len == 0 {
                    return None;
                }
                if n > usize::MAX as u128 {
                    return None;
                }
                Some(n as usize)
            },
            None => None,
        }
    }
}

/// The rectangle that an input position denotes inside `parent`.
pub open spec fn spec_input_to_bounds(
    x1: Seq<char>,
    y1: Seq<char>,
    x2: Seq<char>,
    y2: Seq<char>,
    parent: Bounds,
) -> Option<(int, int, int, int)> {
    match (
        coordinate_offset(x1, parent.spec_width()),
        coordinate_offset(y1, parent.spec_height()),
        coordinate_offset(x2, parent.spec_width()),
        coordinate_offset(y2, parent.spec_height()),
    ) {
        (Some(a), Some(b), Some(c), Some(d)) => Some(
            (parent.x1 + a, parent.y1 + b, parent.x1 + c, parent.y1 + d),
        ),
        _ => None,
    }
}

/// Whether every coordinate parses and the resulting corners fit in `usize`.
pub open spec fn input_bounds_resolvable(
    x1: Seq<char>,
    y1: Seq<char>,
    x2: Seq<char>,
    y2: Seq<char>,
    parent: Bounds,
) -> bool {
    &&& offset_computable(x1, parent.spec_width())
    &&& offset_computable(y1, parent.spec_height())
    &&& offset_computable(x2, parent.spec_width())
    &&& offset_computable(y2, parent.spec_height())
    &&& spec_input_to_bounds(x1, y1, x2, y2, parent) matches Some((a, b, c, d)) && a <= usize::MAX
        && b <= usize::MAX && c <= usize::MAX && d <= usize::MAX
}

impl InputBounds {
    pub open spec fn resolvable(self, parent: Bounds) -> bool {
        input_bounds_resolvable(self.x1@, self.y1@, self.x2@, self.y2@, parent)
    }

    pub open spec fn resolved(self, parent: Bounds) -> Bounds {
        let (a, b, c, d) = spec_input_to_bounds(self.x1@, self.y1@, self.x2@, self.y2@, parent)->0;
        Bounds { x1: a as usize, y1: b as usize, x2: c as usize, y2: d as usize }
    }

    /// The absolute rectangle inside `parent`, or `None` when a coordinate is
    /// malformed or too large.
    pub fn try_to_bounds(&self, parent_bounds: &Bounds) -> (r: Option<Bounds>)
        ensures
            r is Some <==> self.resolvable(*parent_bounds),
            r matches Some(b) ==> b == self.resolved(*parent_bounds),
    {
        let w = parent_bounds.width();
        let h = parent_bounds.height();
        let a = parse_coordinate(&self.x1, w);
        let b = parse_coordinate(&self.y1, h);
        let c = parse_coordinate(&self.x2, w);
        let d = parse_coordinate(&self.y2, h);
        match (a, b, c, d) {
            (Some(a), Some(b), Some(c), Some(d)) => {
                let x1 = parent_bounds.x1.checked_add(a);
                let y1 = parent_bounds.y1.checked_add(b);
                let x2 = parent_bounds.x1.checked_add(c);
                let y2 = parent_bounds.y1.checked_add(d);
                match (x1, y1, x2, y2) {
                    (Some(x1), Some(y1), Some(x2), Some(y2)) => Some(Bounds { x1, y1, x2, y2 }),
                    _ => None,
                }
            },
            _ => None,
        }
    }

    /// The absolute rectangle inside `parent`; the coordinates must be well formed.
    pub fn to_bounds(&self, parent_bounds: &Bounds) -> (r: Bounds)
        requires
            self.resolvable(*parent_bounds),
        ensures
            r == self.resolved(*parent_bounds),
    {
        match self.try_to_bounds(parent_bounds) {
            Some(b) => b,
            None => {
                proof {
                    assert(false);
                }
                Bounds { x1: 0, y1: 0, x2: 0, y2: 0 }
            },
        }
    }
}

} // verus!
