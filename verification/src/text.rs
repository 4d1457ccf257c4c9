//! Character-sequence helpers: whitespace trimming, prefixes, replacement
//! and decimal formatting, all over `Seq<char>`.

use vstd::prelude::*;

verus! {

/// Unicode White_Space, the set that `str::trim` strips.
pub open spec fn is_white_space(c: char) -> bool {
    ||| ('\u{9}' <= c && c <= '\u{d}')
    ||| c == ' '
    ||| c == '\u{85}'
    ||| c == '\u{a0}'
    ||| c == '\u{1680}'
    ||| ('\u{2000}' <= c && c <= '\u{200a}')
    ||| c == '\u{2028}'
    ||| c == '\u{2029}'
    ||| c == '\u{202f}'
    ||| c == '\u{205f}'
    ||| c == '\u{3000}'
}

/// `s` without its leading white space.
pub open spec fn trim_start(s: Seq<char>) -> Seq<char>
    decreases s.len(),
{
    if s.len() > 0 && is_white_space(s[0]) {
        trim_start(s.drop_first())
    } else {
        s
    }
}

/// `s` without its trailing white space.
pub open spec fn trim_end(s: Seq<char>) -> Seq<char>
    decreases s.len(),
{
    if s.len() > 0 && is_white_space(s.last()) {
        trim_end(s.drop_last())
    } else {
        s
    }
}

/// `s` without leading and trailing white space.
pub open spec fn trim(s: Seq<char>) -> Seq<char> {
    trim_end(trim_start(s))
}

/// Every character of `s` is white space.
pub open spec fn all_white_space(s: Seq<char>) -> bool {
    forall|i: int| 0 <= i < s.len() ==> is_white_space(#[trigger] s[i])
}

proof fn lemma_trim_start_skips_white(pre: Seq<char>, x: Seq<char>)
    requires
        all_white_space(pre),
    ensures
        trim_start(pre + x) == trim_start(x),
    decreases pre.len(),
{
    if pre.len() == 0 {
        assert(pre + x =~= x);
    } else {
        assert((pre + x)[0] == pre[0]);
        assert((pre + x).drop_first() =~= pre.drop_first() + x);
        lemma_trim_start_skips_white(pre.drop_first(), x);
    }
}

proof fn lemma_trim_end_skips_white(x: Seq<char>, post: Seq<char>)
    requires
        all_white_space(post),
    ensures
        trim_end(x + post) == trim_end(x),
    decreases post.len(),
{
    if post.len() == 0 {
        assert(x + post =~= x);
    } else {
        assert((x + post).last() == post.last());
        assert((x + post).drop_last() =~= x + post.drop_last());
        lemma_trim_end_skips_white(x, post.drop_last());
    }
}

proof fn lemma_trim_start_concat(x: Seq<char>, y: Seq<char>)
    ensures
        all_white_space(x) ==> trim_start(x + y) == trim_start(y),
        !all_white_space(x) ==> trim_start(x + y) == trim_start(x) + y,
    decreases x.len(),
{
    if x.len() == 0 {
        assert(x + y =~= y);
    } else if is_white_space(x[0]) {
        assert((x + y)[0] == x[0]);
        assert((x + y).drop_first() =~= x.drop_first() + y);
        lemma_trim_start_concat(x.drop_first(), y);
        if !all_white_space(x) {
            let i = choose|i: int| 0 <= i < x.len() && !is_white_space(#[trigger] x[i]);
            assert(x.drop_first()[i - 1] == x[i]);
        }
        if !all_white_space(x.drop_first()) {
            let i = choose|i: int| 0 <= i < x.drop_first().len() && !is_white_space(#[trigger] x.drop_first()[i]);
            assert(x[i + 1] == x.drop_first()[i]);
        }
    } else {
        assert((x + y)[0] == x[0]);
    }
}

/// Trimming ignores white space around the text: `pre + t + post` trims to
/// what `t` trims to when `pre` and `post` are white space.
pub proof fn lemma_trim_ignores_padding(pre: Seq<char>, t: Seq<char>, post: Seq<char>)
    requires
        all_white_space(pre),
        all_white_space(post),
    ensures
        trim(pre + t + post) == trim(t),
{
    assert(pre + t + post =~= pre + (t + post));
    lemma_trim_start_skips_white(pre, t + post);
    lemma_trim_start_concat(t, post);
    if all_white_space(t) {
        lemma_trim_start_skips_white(post, Seq::<char>::empty());
        assert(post + Seq::<char>::empty() =~= post);
        lemma_trim_start_skips_white(t, Seq::<char>::empty());
        assert(t + Seq::<char>::empty() =~= t);
    } else {
        lemma_trim_end_skips_white(trim_start(t), post);
    }
}

proof fn lemma_trim_start_cut(s: Seq<char>) -> (a: int)
    ensures
        0 <= a <= s.len(),
        trim_start(s) == s.subrange(a, s.len() as int),
        forall|i: int| 0 <= i < a ==> is_white_space(#[trigger] s[i]),
        a < s.len() ==> !is_white_space(s[a]),
    decreases s.len(),
{
    if s.len() > 0 && is_white_space(s[0]) {
        let a1 = lemma_trim_start_cut(s.drop_first());
        assert(s.drop_first().subrange(a1, s.drop_first().len() as int) =~= s.subrange(
            a1 + 1,
            s.len() as int,
        ));
        assert forall|i: int| 0 <= i < a1 + 1 implies is_white_space(#[trigger] s[i]) by {
            if i > 0 {
                assert(s[i] == s.drop_first()[i - 1]);
            }
        }
        if a1 + 1 < s.len() {
            assert(s[a1 + 1] == s.drop_first()[a1]);
        }
        a1 + 1
    } else {
        assert(s.subrange(0, s.len() as int) =~= s);
        0
    }
}

proof fn lemma_trim_end_cut(s: Seq<char>) -> (b: int)
    ensures
        0 <= b <= s.len(),
        trim_end(s) == s.subrange(0, b),
        forall|i: int| b <= i < s.len() ==> is_white_space(#[trigger] s[i]),
        b > 0 ==> !is_white_space(s[b - 1]),
    decreases s.len(),
{
    if s.len() > 0 && is_white_space(s.last()) {
        let b1 = lemma_trim_end_cut(s.drop_last());
        assert(s.drop_last().subrange(0, b1) =~= s.subrange(0, b1));
        assert forall|i: int| b1 <= i < s.len() implies is_white_space(#[trigger] s[i]) by {
            if i < s.len() - 1 {
                assert(s[i] == s.drop_last()[i]);
            }
        }
        if b1 > 0 {
            assert(s[b1 - 1] == s.drop_last()[b1 - 1]);
        }
        b1
    } else {
        assert(s.subrange(0, s.len() as int) =~= s);
        s.len() as int
    }
}

/// Trimming keeps a contiguous piece of the text: it removes exactly the
/// white space before the first and after the last other character (all of
/// the text when it is white space only), and nothing else.
pub proof fn lemma_trim_keeps_inner_text(s: Seq<char>)
    ensures
        exists|a: int, b: int|
            #![trigger s.subrange(a, b)]
            0 <= a <= b <= s.len() && trim(s) == s.subrange(a, b) && (forall|i: int|
                0 <= i < a ==> is_white_space(#[trigger] s[i])) && (forall|i: int|
                b <= i < s.len() ==> is_white_space(#[trigger] s[i])) && (a < b ==> !is_white_space(
                s[a],
            ) && !is_white_space(s[b - 1])),
{
    let a = lemma_trim_start_cut(s);
    let t = s.subrange(a, s.len() as int);
    let b1 = lemma_trim_end_cut(t);
    let b = a + b1;
    assert(t.subrange(0, b1) =~= s.subrange(a, b));
    assert forall|i: int| b <= i < s.len() implies is_white_space(#[trigger] s[i]) by {
        assert(s[i] == t[i - a]);
    }
    if a < b {
        assert(s[a] == t[0]);
        assert(s[b - 1] == t[b1 - 1]);
    }
    assert(trim(s) == s.subrange(a, b));
}

/// `p` is a prefix of `s`.
pub open spec fn has_prefix(s: Seq<char>, p: Seq<char>) -> bool {
    p.len() <= s.len() && s.subrange(0, p.len() as int) == p
}

/// Every non-overlapping occurrence of `pat`, scanned from the left, replaced
/// by `rep` (what `str::replace` does for a non-empty pattern).
pub open spec fn replace_all(s: Seq<char>, pat: Seq<char>, rep: Seq<char>) -> Seq<char>
    decreases s.len(),
{
    if pat.len() == 0 || s.len() < pat.len() {
        s
    } else if s.subrange(0, pat.len() as int) == pat {
        rep + replace_all(s.subrange(pat.len() as int, s.len() as int), pat, rep)
    } else {
        seq![s[0]] + replace_all(s.drop_first(), pat, rep)
    }
}

/// `q` occurs somewhere in `s`.
pub open spec fn occurs_in(s: Seq<char>, q: Seq<char>) -> bool {
    exists|i: int| 0 <= i && i + q.len() <= s.len() && #[trigger] s.subrange(i, i + q.len()) == q
}

/// Where the pattern does not occur, replacement leaves the text as it is.
pub proof fn lemma_replace_absent(s: Seq<char>, pat: Seq<char>, rep: Seq<char>)
    requires
        pat.len() > 0,
        !occurs_in(s, pat),
    ensures
        replace_all(s, pat, rep) == s,
    decreases s.len(),
{
    if s.len() >= pat.len() {
        if s.subrange(0, pat.len() as int) == pat {
            assert(s.subrange(0, 0 + pat.len() as int) == pat);
            assert(false);
        }
        let s1 = s.drop_first();
        if occurs_in(s1, pat) {
            let j = choose|j: int| 0 <= j && j + pat.len() <= s1.len() && #[trigger] s1.subrange(j, j + pat.len()) == pat;
            assert(s.subrange(j + 1, j + 1 + pat.len()) =~= s1.subrange(j, j + pat.len()));
            assert(false);
        }
        lemma_replace_absent(s1, pat, rep);
        assert(seq![s[0]] + s1 =~= s);
    }
}

/// A character that does not begin the pattern passes through unchanged.
pub proof fn lemma_replace_passes_char(c: char, s: Seq<char>, pat: Seq<char>, rep: Seq<char>)
    requires
        pat.len() > 0,
        c != pat[0],
    ensures
        replace_all(seq![c] + s, pat, rep) == seq![c] + replace_all(s, pat, rep),
{
    let t = seq![c] + s;
    if t.len() >= pat.len() {
        assert(t.subrange(0, pat.len() as int)[0] == c);
        assert(t.drop_first() =~= s);
    } else {
        lemma_replace_short(s, pat, rep);
    }
}

proof fn lemma_replace_short(s: Seq<char>, pat: Seq<char>, rep: Seq<char>)
    requires
        s.len() < pat.len(),
    ensures
        replace_all(s, pat, rep) == s,
{
}

/// Up to the first character of the replacement, the output of a
/// replacement agrees with its input.
proof fn lemma_replace_keeps_prefix(t: Seq<char>, pat: Seq<char>, rep: Seq<char>, k: int)
    requires
        pat.len() > 0,
        rep.len() > 0,
        0 <= k <= replace_all(t, pat, rep).len(),
        forall|j: int| 0 <= j < k ==> #[trigger] replace_all(t, pat, rep)[j] != rep[0],
    ensures
        k <= t.len(),
        replace_all(t, pat, rep).subrange(0, k) == t.subrange(0, k),
    decreases t.len(),
{
    let r = replace_all(t, pat, rep);
    if t.len() < pat.len() {
    } else if t.subrange(0, pat.len() as int) == pat {
        if k > 0 {
            assert(r[0] == rep[0]);
        }
        assert(r.subrange(0, k) =~= t.subrange(0, k));
    } else if k > 0 {
        let t1 = t.drop_first();
        let r1 = replace_all(t1, pat, rep);
        assert(r == seq![t[0]] + r1);
        assert forall|j: int| 0 <= j < k - 1 implies #[trigger] r1[j] != rep[0] by {
            assert(r1[j] == r[j + 1]);
        }
        lemma_replace_keeps_prefix(t1, pat, rep, k - 1);
        assert(r.subrange(0, k) =~= seq![t[0]] + r1.subrange(0, k - 1));
        assert(t.subrange(0, k) =~= seq![t[0]] + t1.subrange(0, k - 1));
    } else {
        assert(r.subrange(0, k) =~= t.subrange(0, k));
    }
}

/// A replacement creates no occurrence of a text `q` that does not contain
/// the replacement's first character, that begins with none of the
/// replacement's other characters and is longer than the replacement:
/// `q` occurs in the output only where it already occurred in the input, and
/// the pattern itself never occurs in the output.
pub proof fn lemma_replace_occurrences(s: Seq<char>, pat: Seq<char>, rep: Seq<char>, q: Seq<char>)
    requires
        pat.len() > 0,
        rep.len() > 0,
        rep.len() < q.len(),
        forall|k: int| 0 <= k < q.len() ==> #[trigger] q[k] != rep[0],
        forall|j: int| 0 < j < rep.len() ==> #[trigger] rep[j] != q[0],
    ensures
        occurs_in(replace_all(s, pat, rep), q) ==> occurs_in(s, q) && q != pat,
    decreases s.len(),
{
    let r = replace_all(s, pat, rep);
    let n = q.len() as int;
    if occurs_in(r, q) {
        let i = choose|i: int| 0 <= i && i + n <= r.len() && #[trigger] r.subrange(i, i + n) == q;
        assert(r.subrange(i, i + n)[0] == q[0]);
        if s.len() < pat.len() {
            assert(s.subrange(i, i + n) == q);
        } else if s.subrange(0, pat.len() as int) == pat {
            let s1 = s.subrange(pat.len() as int, s.len() as int);
            let r1 = replace_all(s1, pat, rep);
            assert(r == rep + r1);
            if i < rep.len() {
                assert(q[0] == r[i]);
                assert(r[i] == rep[i]);
                assert(false);
            } else {
                let i1 = i - rep.len();
                assert(r1.subrange(i1, i1 + n) =~= r.subrange(i, i + n));
                lemma_replace_occurrences(s1, pat, rep, q);
                let j = choose|j: int| 0 <= j && j + n <= s1.len() && #[trigger] s1.subrange(j, j + n) == q;
                assert(s.subrange(pat.len() + j, pat.len() + j + n) =~= s1.subrange(j, j + n));
            }
        } else {
            let s1 = s.drop_first();
            let r1 = replace_all(s1, pat, rep);
            assert(r == seq![s[0]] + r1);
            if i >= 1 {
                assert(r1.subrange(i - 1, i - 1 + n) =~= r.subrange(i, i + n));
                lemma_replace_occurrences(s1, pat, rep, q);
                let j = choose|j: int| 0 <= j && j + n <= s1.len() && #[trigger] s1.subrange(j, j + n) == q;
                assert(s.subrange(1 + j, 1 + j + n) =~= s1.subrange(j, j + n));
            } else {
                assert forall|j: int| 0 <= j < n - 1 implies #[trigger] r1[j] != rep[0] by {
                    assert(r1[j] == r[j + 1]);
                    assert(r[j + 1] == r.subrange(0, n)[j + 1]);
                    assert(q[j + 1] != rep[0]);
                }
                lemma_replace_keeps_prefix(s1, pat, rep, n - 1);
                assert(s.subrange(0, n) =~= seq![s[0]] + s1.subrange(0, n - 1));
                assert(r.subrange(0, n) =~= seq![s[0]] + r1.subrange(0, n - 1));
                assert(s.subrange(0, n) == q);
                if q == pat {
                    assert(false);
                }
            }
        }
    }
}

/// The decimal digit for `d` (below ten).
pub open spec fn digit_char(d: nat) -> char {
    if d == 0 { '0' }
    else if d == 1 { '1' }
    else if d == 2 { '2' }
    else if d == 3 { '3' }
    else if d == 4 { '4' }
    else if d == 5 { '5' }
    else if d == 6 { '6' }
    else if d == 7 { '7' }
    else if d == 8 { '8' }
    else { '9' }
}

/// The decimal notation of `n`, without leading zeros.
pub open spec fn decimal(n: nat) -> Seq<char>
    decreases n,
{
    if n < 10 {
        seq![digit_char(n)]
    } else {
        decimal(n / 10).push(digit_char(n % 10))
    }
}

/// `n` in decimal, padded on the left with zeros to at least `width` digits.
pub open spec fn decimal_padded(n: nat, width: nat) -> Seq<char> {
    let d = decimal(n);
    if d.len() >= width {
        d
    } else {
        Seq::new((width - d.len()) as nat, |i: int| '0') + d
    }
}

/// `c` is a decimal digit.
pub open spec fn is_digit(c: char) -> bool {
    '0' <= c && c <= '9'
}

/// The value of the decimal digit `c`.
pub open spec fn digit_value(c: char) -> int {
    c as int - '0' as int
}

/// The number that the digits `s` write in base ten (leading zeros allowed).
pub open spec fn digits_value(s: Seq<char>) -> int
    decreases s.len(),
{
    if s.len() == 0 {
        0
    } else {
        digits_value(s.drop_last()) * 10 + digit_value(s.last())
    }
}

/// Ten to the power `k`.
pub open spec fn pow10(k: nat) -> nat
    decreases k,
{
    if k == 0 {
        1
    } else {
        10 * pow10((k - 1) as nat)
    }
}

proof fn lemma_digit_char(d: nat)
    requires
        d < 10,
    ensures
        is_digit(digit_char(d)),
        digit_value(digit_char(d)) == d,
        (digit_char(d) == '0') == (d == 0),
{
}

/// `decimal(n)` writes `n` in base ten: one or more digits whose value is
/// `n`, with no leading zero except for `0` itself, and at most `k` digits
/// when `n` is below `10^k`.
pub proof fn lemma_decimal_writes_value(n: nat, k: nat)
    ensures
        decimal(n).len() >= 1,
        forall|i: int| 0 <= i < decimal(n).len() ==> is_digit(#[trigger] decimal(n)[i]),
        digits_value(decimal(n)) == n,
        decimal(n)[0] == '0' ==> n == 0,
        k >= 1 && n < pow10(k) ==> decimal(n).len() <= k,
    decreases n,
{
    if n < 10 {
        lemma_digit_char(n);
        let d = decimal(n);
        assert(d.drop_last() =~= Seq::<char>::empty());
        assert(digits_value(d.drop_last()) == 0);
        assert(d.last() == digit_char(n));
        assert(digits_value(d) == digits_value(d.drop_last()) * 10 + digit_value(d.last()));
    } else {
        let q = n / 10;
        let r = n % 10;
        lemma_digit_char(r);
        if k >= 1 && n < pow10(k) {
            if k == 1 {
                assert(pow10(1) == 10) by {
                    assert(pow10(0) == 1);
                }
            }
            let pk = pow10((k - 1) as nat);
            assert(pow10(k) == 10 * pk);
            assert(q < pk) by (nonlinear_arith)
                requires
                    n < 10 * pk,
                    q == n / 10,
            ;
            lemma_decimal_writes_value(q, (k - 1) as nat);
            if k == 1 {
                assert(false);
            }
        } else {
            lemma_decimal_writes_value(q, 0);
        }
        let dq = decimal(q);
        let d = decimal(n);
        assert(d == dq.push(digit_char(r)));
        assert(d.drop_last() =~= dq);
        assert forall|i: int| 0 <= i < d.len() implies is_digit(#[trigger] d[i]) by {
            if i < dq.len() {
                assert(d[i] == dq[i]);
            }
        }
        assert(d[0] == dq[0]);
        assert(d.last() == digit_char(r));
        assert(digits_value(d) == digits_value(dq) * 10 + digit_value(digit_char(r)));
        assert(n == q * 10 + r);
    }
}

proof fn lemma_digits_value_leading_zeros(z: Seq<char>, d: Seq<char>)
    requires
        forall|i: int| 0 <= i < z.len() ==> #[trigger] z[i] == '0',
    ensures
        digits_value(z + d) == digits_value(d),
    decreases d.len() + z.len(),
{
    if d.len() == 0 {
        assert(z + d =~= z);
        if z.len() > 0 {
            assert(z.drop_last() + d =~= z.drop_last());
            lemma_digits_value_leading_zeros(z.drop_last(), d);
            assert(z.last() == '0');
        }
    } else {
        assert((z + d).drop_last() =~= z + d.drop_last());
        assert((z + d).last() == d.last());
        lemma_digits_value_leading_zeros(z, d.drop_last());
    }
}

/// `decimal_padded(n, w)` is `decimal(n)` with just enough zeros in front
/// to make `w` characters (none when `decimal(n)` is that long already):
/// its length is the larger of the two, it ends with `decimal(n)`, and it
/// still writes the value `n`; when `n < 10^w` it is exactly `w` long.
pub proof fn lemma_decimal_padded_layout(n: nat, w: nat)
    ensures
        ({
            let p = decimal_padded(n, w);
            let d = decimal(n);
            &&& p.len() == if d.len() >= w {
                d.len()
            } else {
                w
            }
            &&& p.subrange(p.len() - d.len(), p.len() as int) == d
            &&& forall|i: int| 0 <= i < p.len() - d.len() ==> #[trigger] p[i] == '0'
            &&& forall|i: int| 0 <= i < p.len() ==> is_digit(#[trigger] p[i])
            &&& digits_value(p) == n
            &&& (w >= 1 && n < pow10(w) ==> p.len() == w)
        }),
{
    lemma_decimal_writes_value(n, w);
    let p = decimal_padded(n, w);
    let d = decimal(n);
    if d.len() >= w {
        assert(p.subrange(0, p.len() as int) =~= d);
    } else {
        let z = Seq::new((w - d.len()) as nat, |i: int| '0');
        assert(p == z + d);
        assert(p.subrange(p.len() - d.len(), p.len() as int) =~= d);
        lemma_digits_value_leading_zeros(z, d);
        assert forall|i: int| 0 <= i < p.len() implies is_digit(#[trigger] p[i]) by {
            if i >= z.len() {
                assert(p[i] == d[i - z.len()]);
            }
        }
    }
}

/// The characters of `s`, in order.
pub fn str_chars(s: &str) -> (r: Vec<char>)
    ensures
        r@ == s@,
{
    let mut r: Vec<char> = Vec::new();
    for c in it: s.chars()
        invariant
            it.seq() == s@,
            r@ == s@.take(it.index() as int),
    {
        r.push(c);
    }
    assert(s@.take(s@.len() as int) =~= s@);
    r
}

/// Appends `c` to `s` with `String::push`.
#[verifier::external_body]
fn string_push(s: &mut String, c: char)
    ensures
        final(s)@ == old(s)@.push(c),
{
    s.push(c);
}

/// The string made of the characters `cs`, in order.
pub fn string_from_chars(cs: &[char]) -> (r: String)
    ensures
        r@ == cs@,
{
    let mut r = String::new();
    let mut i: usize = 0;
    while i < cs.len()
        invariant
            0 <= i <= cs@.len(),
            r@ == cs@.take(i as int),
        decreases cs@.len() - i,
    {
        string_push(&mut r, cs[i]);
        assert(cs@.take(i + 1) =~= cs@.take(i as int).push(cs@[i as int]));
        i = i + 1;
    }
    assert(cs@.take(cs@.len() as int) =~= cs@);
    r
}

/// Whether `c` is Unicode white space.
pub fn char_is_white_space(c: char) -> (r: bool)
    ensures
        r == is_white_space(c),
{
    ('\u{9}' <= c && c <= '\u{d}') || c == ' ' || c == '\u{85}' || c == '\u{a0}' || c
        == '\u{1680}' || ('\u{2000}' <= c && c <= '\u{200a}') || c == '\u{2028}' || c
        == '\u{2029}' || c == '\u{202f}' || c == '\u{205f}' || c == '\u{3000}'
}

proof fn lemma_trim_start_from(s: Seq<char>, i: int)
    requires
        0 <= i <= s.len(),
        forall|j: int| 0 <= j < i ==> is_white_space(#[trigger] s[j]),
    ensures
        trim_start(s) == trim_start(s.subrange(i, s.len() as int)),
    decreases i,
{
    if i > 0 {
        assert(s.drop_first().subrange(i - 1, s.drop_first().len() as int) =~= s.subrange(
            i,
            s.len() as int,
        ));
        lemma_trim_start_from(s.drop_first(), i - 1);
    } else {
        assert(s.subrange(0, s.len() as int) =~= s);
    }
}

proof fn lemma_trim_end_to(s: Seq<char>, k: int)
    requires
        0 <= k <= s.len(),
        forall|j: int| k <= j < s.len() ==> is_white_space(#[trigger] s[j]),
    ensures
        trim_end(s) == trim_end(s.subrange(0, k)),
    decreases s.len() - k,
{
    if k < s.len() {
        assert(s.drop_last().subrange(0, k) =~= s.subrange(0, k));
        lemma_trim_end_to(s.drop_last(), k);
    } else {
        assert(s.subrange(0, s.len() as int) =~= s);
    }
}

/// `s` with leading and trailing white space removed.
pub fn trim_chars(s: &Vec<char>) -> (r: Vec<char>)
    ensures
        r@ == trim(s@),
{
    let n = s.len();
    let mut i: usize = 0;
    while i < n && char_is_white_space(s[i])
        invariant
            0 <= i <= n,
            n == s.len(),
            forall|j: int| 0 <= j < i ==> is_white_space(#[trigger] s@[j]),
        decreases n - i,
    {
        i = i + 1;
    }
    proof {
        lemma_trim_start_from(s@, i as int);
    }
    let ghost t = s@.subrange(i as int, n as int);
    assert(i < n ==> !is_white_space(t[0]));
    assert(trim_start(t) == t);
    let mut k: usize = n;
    while k > i && char_is_white_space(s[k - 1])
        invariant
            i <= k <= n,
            n == s.len(),
            forall|j: int| k <= j < n ==> is_white_space(#[trigger] s@[j]),
        decreases k,
    {
        k = k - 1;
    }
    proof {
        assert forall|j: int| k - i <= j < t.len() implies is_white_space(#[trigger] t[j]) by {
            assert(t[j] == s@[i + j]);
        }
        lemma_trim_end_to(t, k - i);
        let u = t.subrange(0, k - i);
        if u.len() > 0 {
            assert(u.last() == s@[k - 1]);
        }
        assert(trim_end(u) == u);
        assert(u =~= s@.subrange(i as int, k as int));
    }
    let mut r: Vec<char> = Vec::new();
    let mut j: usize = i;
    while j < k
        invariant
            i <= j <= k <= n,
            n == s.len(),
            r@ =~= s@.subrange(i as int, j as int),
        decreases k - j,
    {
        r.push(s[j]);
        j = j + 1;
    }
    r
}

/// Whether the characters `p` begin `s`.
pub fn chars_have_prefix(s: &Vec<char>, p: &Vec<char>) -> (r: bool)
    ensures
        r == has_prefix(s@, p@),
{
    if p.len() > s.len() {
        return false;
    }
    let mut i: usize = 0;
    while i < p.len()
        invariant
            p.len() <= s.len(),
            0 <= i <= p.len(),
            forall|j: int| 0 <= j < i ==> s@[j] == p@[j],
        decreases p.len() - i,
    {
        if s[i] != p[i] {
            assert(s@.subrange(0, p@.len() as int)[i as int] != p@[i as int]);
            return false;
        }
        i = i + 1;
    }
    assert(s@.subrange(0, p@.len() as int) =~= p@);
    true
}

/// Whether `s` begins with the text `p`.
pub fn chars_start_with(s: &Vec<char>, p: &str) -> (r: bool)
    ensures
        r == has_prefix(s@, p@),
{
    let pc = str_chars(p);
    chars_have_prefix(s, &pc)
}

/// Whether `s` is exactly the text `p`.
pub fn chars_equal(s: &Vec<char>, p: &str) -> (r: bool)
    ensures
        r == (s@ == p@),
{
    let pc = str_chars(p);
    if s.len() != pc.len() {
        return false;
    }
    let b = chars_have_prefix(s, &pc);
    proof {
        assert(s@.subrange(0, s@.len() as int) =~= s@);
    }
    b
}

/// Whether the string `s` is exactly the text `p`.
pub fn string_equals(s: &String, p: &str) -> (r: bool)
    ensures
        r == (s@ == p@),
{
    let sc = str_chars(s.as_str());
    chars_equal(&sc, p)
}

/// The characters of `s` from index `start` on.
pub fn chars_from(s: &Vec<char>, start: usize) -> (r: Vec<char>)
    requires
        start <= s.len(),
    ensures
        r@ == s@.subrange(start as int, s@.len() as int),
{
    let mut r: Vec<char> = Vec::new();
    let mut j: usize = start;
    while j < s.len()
        invariant
            start <= j <= s.len(),
            r@ =~= s@.subrange(start as int, j as int),
        decreases s.len() - j,
    {
        r.push(s[j]);
        j = j + 1;
    }
    r
}

/// Appends the characters `s` to `out`.
pub fn push_all(out: &mut Vec<char>, s: &Vec<char>)
    ensures
        final(out)@ == old(out)@ + s@,
{
    let ghost o = out@;
    let mut i: usize = 0;
    while i < s.len()
        invariant
            0 <= i <= s.len(),
            out@ =~= o + s@.subrange(0, i as int),
        decreases s.len() - i,
    {
        out.push(s[i]);
        i = i + 1;
    }
    assert(s@.subrange(0, s@.len() as int) =~= s@);
}

/// Appends the characters of `s` to `out`.
pub fn push_str(out: &mut Vec<char>, s: &str)
    ensures
        final(out)@ == old(out)@ + s@,
{
    let cs = str_chars(s);
    push_all(out, &cs);
}

/// Whether `pat` occurs in `s` at index `i`.
fn occurs_at(s: &Vec<char>, i: usize, pat: &Vec<char>) -> (r: bool)
    requires
        i <= s.len(),
        pat.len() <= s.len() - i,
    ensures
        r == (s@.subrange(i as int, i + pat.len()) == pat@),
{
    let mut j: usize = 0;
    while j < pat.len()
        invariant
            i <= s.len(),
            pat.len() <= s.len() - i,
            0 <= j <= pat.len(),
            forall|k: int| 0 <= k < j ==> s@[i + k] == pat@[k],
        decreases pat.len() - j,
    {
        if s[i + j] != pat[j] {
            assert(s@.subrange(i as int, i + pat.len())[j as int] != pat@[j as int]);
            return false;
        }
        j = j + 1;
    }
    assert(s@.subrange(i as int, i + pat.len()) =~= pat@);
    true
}

/// `s` with every non-overlapping occurrence of `pat`, scanned from the left,
/// replaced by `rep`.
pub fn replace_chars(s: &Vec<char>, pat: &Vec<char>, rep: &Vec<char>) -> (r: Vec<char>)
    requires
        pat.len() > 0,
    ensures
        r@ == replace_all(s@, pat@, rep@),
{
    let n = s.len();
    let m = pat.len();
    let mut out: Vec<char> = Vec::new();
    let mut i: usize = 0;
    assert(s@.subrange(0, n as int) =~= s@);
    while i < n
        invariant
            n == s.len(),
            m == pat.len(),
            m > 0,
            0 <= i <= n,
            out@ + replace_all(s@.subrange(i as int, n as int), pat@, rep@) == replace_all(
                s@,
                pat@,
                rep@,
            ),
        decreases n - i,
    {
        let ghost rest = s@.subrange(i as int, n as int);
        if n - i < m {
            assert(replace_all(rest, pat@, rep@) == rest);
            let mut j: usize = i;
            while j < n
                invariant
                    i <= j <= n,
                    n == s.len(),
                    out@ + s@.subrange(j as int, n as int) == replace_all(s@, pat@, rep@),
                decreases n - j,
            {
                proof {
                    assert(s@.subrange(j as int, n as int) =~= seq![s@[j as int]] + s@.subrange(
                        j + 1,
                        n as int,
                    ));
                }
                out.push(s[j]);
                j = j + 1;
            }
            assert(s@.subrange(n as int, n as int) =~= Seq::<char>::empty());
            assert(out@ =~= out@ + s@.subrange(n as int, n as int));
            return out;
        }
        if occurs_at(s, i, pat) {
            assert(rest.subrange(0, m as int) =~= s@.subrange(i as int, i + m));
            assert(rest.subrange(m as int, rest.len() as int) =~= s@.subrange(i + m, n as int));
            let mut k: usize = 0;
            let ghost out0 = out@;
            while k < rep.len()
                invariant
                    0 <= k <= rep.len(),
                    out@ =~= out0 + rep@.subrange(0, k as int),
                decreases rep.len() - k,
            {
                out.push(rep[k]);
                k = k + 1;
            }
            assert(rep@.subrange(0, rep@.len() as int) =~= rep@);
            assert(out@ =~= out0 + rep@);
            assert(out@ + replace_all(s@.subrange(i + m, n as int), pat@, rep@) =~= out0 + (
            rep@ + replace_all(s@.subrange(i + m, n as int), pat@, rep@)));
            i = i + m;
        } else {
            assert(rest.subrange(0, m as int) =~= s@.subrange(i as int, i + m));
            assert(rest.drop_first() =~= s@.subrange(i + 1, n as int));
            let ghost out0 = out@;
            out.push(s[i]);
            assert(out@ + replace_all(s@.subrange(i + 1, n as int), pat@, rep@) =~= out0 + (seq![
                s@[i as int],
            ] + replace_all(s@.subrange(i + 1, n as int), pat@, rep@)));
            i = i + 1;
        }
    }
    assert(s@.subrange(n as int, n as int) =~= Seq::<char>::empty());
    assert(out@ + replace_all(s@.subrange(n as int, n as int), pat@, rep@) =~= out@);
    out
}

/// `s` with every non-overlapping occurrence of `pat`, scanned from the left,
/// replaced by `rep`.
pub fn replace_text(s: &str, pat: &str, rep: &str) -> (r: String)
    requires
        pat@.len() > 0,
    ensures
        r@ == replace_all(s@, pat@, rep@),
{
    let sc = str_chars(s);
    let pc = str_chars(pat);
    let rc = str_chars(rep);
    let out = replace_chars(&sc, &pc, &rc);
    string_from_chars(out.as_slice())
}

/// The decimal digit for `d`.
pub fn digit_for(d: u64) -> (c: char)
    requires
        d < 10,
    ensures
        c == digit_char(d as nat),
{
    if d == 0 { '0' }
    else if d == 1 { '1' }
    else if d == 2 { '2' }
    else if d == 3 { '3' }
    else if d == 4 { '4' }
    else if d == 5 { '5' }
    else if d == 6 { '6' }
    else if d == 7 { '7' }
    else if d == 8 { '8' }
    else { '9' }
}

/// The decimal notation of `n`.
pub fn decimal_chars(n: u64) -> (r: Vec<char>)
    ensures
        r@ == decimal(n as nat),
    decreases n,
{
    if n < 10 {
        let mut v: Vec<char> = Vec::new();
        v.push(digit_for(n));
        assert(v@ =~= seq![digit_char(n as nat)]);
        v
    } else {
        let mut v = decimal_chars(n / 10);
        v.push(digit_for(n % 10));
        v
    }
}

/// The decimal notation of `n`, zero-padded on the left to `width` digits.
pub fn decimal_padded_chars(n: u64, width: usize) -> (r: Vec<char>)
    ensures
        r@ == decimal_padded(n as nat, width as nat),
{
    let d = decimal_chars(n);
    if d.len() >= width {
        return d;
    }
    let mut r: Vec<char> = Vec::new();
    let pad = width - d.len();
    let mut i: usize = 0;
    while i < pad
        invariant
            0 <= i <= pad,
            r@ =~= Seq::new(i as nat, |k: int| '0'),
        decreases pad - i,
    {
        r.push('0');
        i = i + 1;
    }
    let ghost r0 = r@;
    let mut j: usize = 0;
    while j < d.len()
        invariant
            0 <= j <= d.len(),
            r@ =~= r0 + d@.subrange(0, j as int),
        decreases d.len() - j,
    {
        r.push(d[j]);
        j = j + 1;
    }
    assert(d@.subrange(0, d@.len() as int) =~= d@);
    r
}

} // verus!
