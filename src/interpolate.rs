//! Interpolation of `%|EXPR|%` tokens in the serialized form of a step.
//!
//! A token opens with `%|`, holds an expression of at least one character
//! without a line break, and closes at the first `|%` after that: the
//! shortest match. Tokens are taken from left to right, each search resuming
//! after the previous token.
use vstd::prelude::*;

verus! {

pub open spec fn opens_at(s: Seq<char>, i: int) -> bool {
    0 <= i && i + 1 < s.len() && s[i] == '%' && s[i + 1] == '|'
}

pub open spec fn closes_at(s: Seq<char>, j: int) -> bool {
    0 <= j && j + 1 < s.len() && s[j] == '|' && s[j + 1] == '%'
}

/// The first index at or after `j` where `|%` stands, provided no line break
/// comes first; -1 when there is none.
pub open spec fn close_from(s: Seq<char>, j: int) -> int
    decreases s.len() - j,
{
    if j < 0 || j + 1 >= s.len() {
        -1
    } else if s[j] == '\n' {
        -1
    } else if closes_at(s, j) {
        j
    } else {
        close_from(s, j + 1)
    }
}

/// For a token that starts at `p`, the index of its closing `|%`; -1 when
/// no token starts at `p`.
pub open spec fn token_end(s: Seq<char>, p: int) -> int {
    if opens_at(s, p) && p + 2 < s.len() && s[p + 2] != '\n' {
        close_from(s, p + 3)
    } else {
        -1
    }
}

/// A token starts at `p`, and its end lies inside `s`.
pub open spec fn token_at(s: Seq<char>, p: int) -> bool {
    p + 3 <= token_end(s, p) && token_end(s, p) + 2 <= s.len()
}

/// The expression of the token that starts at `p`.
pub open spec fn token_expr(s: Seq<char>, p: int) -> Seq<char> {
    s.subrange(p + 2, token_end(s, p))
}

/// Whether `s` holds any token.
pub open spec fn has_token(s: Seq<char>) -> bool {
    exists|p: int| 0 <= p < s.len() && #[trigger] token_at(s, p)
}

/// The expressions of the tokens of `s` found from `p` on, in order.
pub open spec fn token_exprs(s: Seq<char>, p: int) -> Seq<Seq<char>>
    decreases s.len() - p,
{
    if p < 0 || p >= s.len() {
        Seq::empty()
    } else if token_at(s, p) {
        seq![token_expr(s, p)] + token_exprs(s, token_end(s, p) + 2)
    } else {
        token_exprs(s, p + 1)
    }
}

/// What replaces an expression that could not be evaluated.
pub open spec fn missing_value(e: Seq<char>) -> Seq<char> {
    "NO_SUCH_VARIABLE:"@ + e
}

/// The text that replaces the expression `e`: the value paired with its
/// first occurrence in `exprs`, or the missing-value text.
pub open spec fn substitution(exprs: Seq<String>, values: Seq<Option<String>>, e: Seq<char>) -> Seq<
    char,
>
    decreases exprs.len(),
{
    if exprs.len() == 0 || values.len() == 0 {
        missing_value(e)
    } else if exprs[0]@ == e {
        match values[0] {
            Some(v) => v@,
            None => missing_value(e),
        }
    } else {
        substitution(exprs.drop_first(), values.drop_first(), e)
    }
}

/// The part of `s` from `p` on with every token replaced.
pub open spec fn interpolated(
    s: Seq<char>,
    p: int,
    exprs: Seq<String>,
    values: Seq<Option<String>>,
) -> Seq<char>
    decreases s.len() - p,
{
    if p < 0 || p >= s.len() {
        Seq::empty()
    } else if token_at(s, p) {
        substitution(exprs, values, token_expr(s, p)) + interpolated(
            s,
            token_end(s, p) + 2,
            exprs,
            values,
        )
    } else {
        seq![s[p]] + interpolated(s, p + 1, exprs, values)
    }
}

proof fn lemma_close_from(s: Seq<char>, j: int)
    ensures
        close_from(s, j) == -1 || (j <= close_from(s, j) && closes_at(s, close_from(s, j))),
    decreases s.len() - j,
{
    if !(j < 0 || j + 1 >= s.len()) && s[j] != '\n' && !closes_at(s, j) {
        lemma_close_from(s, j + 1);
    }
}

proof fn lemma_token_end(s: Seq<char>, p: int)
    ensures
        token_end(s, p) >= 0 ==> token_at(s, p),
{
    lemma_close_from(s, p + 3);
}

/// The suffix of `s` from `p` on, when no token starts there or later.
proof fn lemma_no_token_suffix(
    s: Seq<char>,
    p: int,
    exprs: Seq<String>,
    values: Seq<Option<String>>,
)
    requires
        0 <= p <= s.len(),
        !has_token(s),
    ensures
        interpolated(s, p, exprs, values) == s.subrange(p, s.len() as int),
    decreases s.len() - p,
{
    if p < s.len() {
        assert(!token_at(s, p));
        lemma_no_token_suffix(s, p + 1, exprs, values);
        assert(s.subrange(p, s.len() as int) =~= seq![s[p]] + s.subrange(p + 1, s.len() as int));
    } else {
        assert(s.subrange(p, s.len() as int) =~= Seq::<char>::empty());
    }
}

/// Interpolating a text that holds no `%|…|%` token gives the text back
/// unchanged, whatever the expressions evaluate to.
pub proof fn lemma_interpolation_identity(
    s: Seq<char>,
    exprs: Seq<String>,
    values: Seq<Option<String>>,
)
    requires
        !has_token(s),
    ensures
        interpolated(s, 0, exprs, values) == s,
{
    lemma_no_token_suffix(s, 0, exprs, values);
    assert(s.subrange(0, s.len() as int) =~= s);
}

/// The characters of `s`, one per element.
pub fn to_chars(s: &str) -> (r: Vec<char>)
    ensures
        r@ == s@,
{
    let n = s.unicode_len();
    let mut r: Vec<char> = Vec::new();
    let mut i: usize = 0;
    while i < n
        invariant
            n == s@.len(),
            i <= n,
            r@ == s@.subrange(0, i as int),
        decreases n - i,
    {
        r.push(s.get_char(i));
        i = i + 1;
        assert(r@ =~= s@.subrange(0, i as int));
    }
    assert(r@ =~= s@);
    r
}

fn find_close(c: &Vec<char>, from: usize) -> (r: Option<usize>)
    ensures
        match r {
            Some(k) => close_from(c@, from as int) == k,
            None => close_from(c@, from as int) == -1,
        },
{
    let mut j = from;
    while j < c.len()
        invariant
            from <= j,
            close_from(c@, from as int) == close_from(c@, j as int),
        decreases c.len() - j,
    {
        if j + 1 >= c.len() || c[j] == '\n' {
            return None;
        }
        if c[j] == '|' && c[j + 1] == '%' {
            return Some(j);
        }
        j = j + 1;
    }
    None
}

fn find_token_end(c: &Vec<char>, p: usize) -> (r: Option<usize>)
    requires
        p < c.len(),
    ensures
        match r {
            Some(k) => token_end(c@, p as int) == k && token_at(c@, p as int),
            None => token_end(c@, p as int) == -1,
        },
{
    proof {
        lemma_token_end(c@, p as int);
    }
    if c.len() - p > 2 && c[p] == '%' && c[p + 1] == '|' && c[p + 2] != '\n' {
        find_close(c, p + 3)
    } else {
        None
    }
}

fn contains_string(v: &Vec<String>, x: &String) -> (r: bool)
    ensures
        r == exists|i: int| 0 <= i < v.len() && v@[i]@ == x@,
{
    let mut i: usize = 0;
    while i < v.len()
        invariant
            i <= v.len(),
            forall|j: int| 0 <= j < i ==> v@[j]@ != x@,
        decreases v.len() - i,
    {
        if v[i] == *x {
            return true;
        }
        i = i + 1;
    }
    false
}

/// The distinct expressions of the tokens of `input`, in order of first
/// appearance: each one is evaluated once.
pub fn expressions(input: &str) -> (r: Vec<String>)
    ensures
        forall|e: Seq<char>| #[trigger] token_exprs(input@, 0).contains(e) <==> exists|i: int|
            0 <= i < r.len() && r@[i]@ == e,
        forall|i: int, j: int|
            0 <= i < r.len() && 0 <= j < r.len() && i != j ==> #[trigger] r@[i]@
                != #[trigger] r@[j]@,
{
    let c = to_chars(input);
    let ghost s = input@;
    let n = c.len();
    let mut r: Vec<String> = Vec::new();
    let ghost mut acc: Seq<Seq<char>> = Seq::empty();
    let mut p: usize = 0;
    while p < n
        invariant
            s == input@,
            c@ == s,
            n == s.len(),
            p <= n,
            token_exprs(s, 0) == acc + token_exprs(s, p as int),
            forall|e: Seq<char>| #[trigger] acc.contains(e) <==> exists|i: int|
                0 <= i < r.len() && r@[i]@ == e,
            forall|i: int, j: int|
                0 <= i < r.len() && 0 <= j < r.len() && i != j ==> #[trigger] r@[i]@
                    != #[trigger] r@[j]@,
        decreases n - p,
    {
        match find_token_end(&c, p) {
            Some(k) => {
                assert(p + 3 <= k && k + 2 <= n);
                assert(input@.len() == n);
                let e = String::from_str(input.substring_char(p + 2, k));
                assert(e@ == token_expr(s, p as int));
                let ghost old_acc = acc;
                proof {
                    acc = acc.push(e@);
                    assert(token_exprs(s, 0) =~= acc + token_exprs(s, k + 2));
                }
                let ghost old_r = r@;
                let ghost e_view = e@;
                if !contains_string(&r, &e) {
                    r.push(e);
                    assert(r@ == old_r.push(r@[old_r.len() as int]));
                }
                proof {
                    assert(exists|i: int| 0 <= i < r.len() && r@[i]@ == e_view);
                    assert forall|i: int| 0 <= i < old_r.len() implies r@[i] == old_r[i] by {}
                    assert forall|x: Seq<char>| #[trigger] acc.contains(x) <==> exists|i: int|
                        0 <= i < r.len() && r@[i]@ == x by {
                        if acc.contains(x) {
                            let t = choose|t: int| 0 <= t < acc.len() && acc[t] == x;
                            if t < old_acc.len() {
                                assert(old_acc[t] == x);
                                assert(old_acc.contains(x));
                                let i = choose|i: int| 0 <= i < old_r.len() && old_r[i]@ == x;
                                assert(r@[i]@ == x);
                            }
                        }
                        if exists|i: int| 0 <= i < r.len() && r@[i]@ == x {
                            let i = choose|i: int| 0 <= i < r.len() && r@[i]@ == x;
                            if x != e_view {
                                assert(i < old_r.len());
                                assert(old_r[i]@ == x);
                                assert(old_acc.contains(x));
                                let t = choose|t: int| 0 <= t < old_acc.len() && old_acc[t] == x;
                                assert(acc[t] == x);
                            } else {
                                assert(acc[old_acc.len() as int] == x);
                            }
                        }
                    }
                }
                p = k + 2;
            },
            None => {
                p = p + 1;
            },
        }
    }
    assert(acc =~= token_exprs(s, 0));
    r
}

/// The text that replaces the expression `e`.
pub fn lookup(exprs: &Vec<String>, values: &Vec<Option<String>>, e: &str) -> (r: String)
    requires
        exprs.len() == values.len(),
    ensures
        r@ == substitution(exprs@, values@, e@),
{
    let key = String::from_str(e);
    let n = exprs.len();
    assert(exprs@.subrange(0, n as int) =~= exprs@);
    assert(values@.subrange(0, n as int) =~= values@);
    let mut i: usize = 0;
    while i < n
        invariant
            key@ == e@,
            n == exprs.len() == values.len(),
            i <= n,
            substitution(exprs@, values@, e@) == substitution(
                exprs@.subrange(i as int, n as int),
                values@.subrange(i as int, n as int),
                e@,
            ),
        decreases n - i,
    {
        assert(exprs@.subrange(i as int, n as int).drop_first() =~= exprs@.subrange(
            i + 1,
            n as int,
        ));
        assert(values@.subrange(i as int, n as int).drop_first() =~= values@.subrange(
            i + 1,
            n as int,
        ));
        if exprs[i] == key {
            match &values[i] {
                Some(v) => {
                    return v.clone();
                },
                None => {
                    return missing(e);
                },
            }
        }
        i = i + 1;
    }
    missing(e)
}

fn missing(e: &str) -> (r: String)
    ensures
        r@ == missing_value(e@),
{
    let mut r = String::from_str("NO_SUCH_VARIABLE:");
    r.append(e);
    r
}

/// Replaces every token of `input` by the value paired with its expression
/// (`values[i]` for `exprs[i]`), or by the missing-value text where there is
/// none.
pub fn interpolate_with(input: &str, exprs: &Vec<String>, values: &Vec<Option<String>>) -> (r:
    String)
    requires
        exprs.len() == values.len(),
    ensures
        r@ == interpolated(input@, 0, exprs@, values@),
        !has_token(input@) ==> r@ == input@,
{
    let c = to_chars(input);
    let ghost s = input@;
    let n = c.len();
    let mut out = String::new();
    let mut lit: usize = 0;
    let mut p: usize = 0;
    while p < n
        invariant
            s == input@,
            c@ == s,
            n == s.len(),
            exprs.len() == values.len(),
            lit <= p <= n,
            interpolated(s, 0, exprs@, values@) == out@ + s.subrange(lit as int, p as int)
                + interpolated(s, p as int, exprs@, values@),
        decreases n - p,
    {
        match find_token_end(&c, p) {
            Some(k) => {
                assert(p + 3 <= k && k + 2 <= n);
                let ghost before = out@;
                out.append(input.substring_char(lit, p));
                let e = input.substring_char(p + 2, k);
                let v = lookup(exprs, values, e);
                out.append(v.as_str());
                proof {
                    assert(out@ =~= before + s.subrange(lit as int, p as int) + substitution(
                        exprs@,
                        values@,
                        token_expr(s, p as int),
                    ));
                    assert(s.subrange(k + 2, k + 2) =~= Seq::<char>::empty());
                }
                p = k + 2;
                lit = p;
                assert(interpolated(s, 0, exprs@, values@) =~= out@ + s.subrange(
                    lit as int,
                    p as int,
                ) + interpolated(s, p as int, exprs@, values@));
            },
            None => {
                proof {
                    lemma_token_end(s, p as int);
                    assert(s.subrange(lit as int, p + 1) =~= s.subrange(lit as int, p as int)
                        + seq![s[p as int]]);
                }
                p = p + 1;
                assert(interpolated(s, 0, exprs@, values@) =~= out@ + s.subrange(
                    lit as int,
                    p as int,
                ) + interpolated(s, p as int, exprs@, values@));
            },
        }
    }
    out.append(input.substring_char(lit, n));
    assert(out@ =~= interpolated(s, 0, exprs@, values@));
    proof {
        if !has_token(s) {
            lemma_interpolation_identity(s, exprs@, values@);
        }
    }
    out
}

} // verus!
