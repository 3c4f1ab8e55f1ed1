//! A small JSON codec, specialised to the documents this library reads and
//! writes: the persistent state document and the patch-check wire messages.
//! Every parser is verified against a specification function over `Seq<char>`,
//! and the renderers come with inversion lemmas, so that parsing a rendered
//! document gives the original value back.

use vstd::prelude::*;

use crate::text::{
    chars_to_string, digit_val, is_digit_char, render_uint_into, spec_uint_chars,
    lemma_uint_chars_digits,
};

verus! {

// ---------------------------------------------------------------------------
// Unsigned integers
// ---------------------------------------------------------------------------
/// The first position at or after `i` that does not hold a digit.
pub open spec fn spec_digits_end(s: Seq<char>, i: int) -> int
    decreases s.len() - i when 0 <= i <= s.len()
{
    if i < s.len() && is_digit_char(s[i]) {
        spec_digits_end(s, i + 1)
    } else {
        i
    }
}

/// The value of the digits `s[i .. j)`, read in base ten.
pub open spec fn spec_digits_val(s: Seq<char>, i: int, j: int) -> nat
    decreases j - i when i <= j
{
    if j <= i {
        0
    } else {
        spec_digits_val(s, i, j - 1) * 10 + digit_val(s[j - 1])
    }
}

/// An unsigned decimal number: one or more digits, valued below `usize::MAX`.
pub open spec fn spec_parse_uint(s: Seq<char>, i: int) -> Option<(usize, int)> {
    let j = spec_digits_end(s, i);
    if j == i {
        None
    } else if spec_digits_val(s, i, j) > usize::MAX {
        None
    } else {
        Some((spec_digits_val(s, i, j) as usize, j))
    }
}

proof fn lemma_digits_end_bounds(s: Seq<char>, i: int)
    requires
        0 <= i <= s.len(),
    ensures
        i <= spec_digits_end(s, i) <= s.len(),
        forall|k: int| i <= k < spec_digits_end(s, i) ==> is_digit_char(#[trigger] s[k]),
        spec_digits_end(s, i) < s.len() ==> !is_digit_char(s[spec_digits_end(s, i)]),
    decreases s.len() - i,
{
    if i < s.len() && is_digit_char(s[i]) {
        lemma_digits_end_bounds(s, i + 1);
    }
}

/// Within a block of digits the end does not depend on the start.
proof fn lemma_digits_end_same(s: Seq<char>, i: int, j: int)
    requires
        0 <= i <= j <= s.len(),
        forall|k: int| i <= k < j ==> is_digit_char(#[trigger] s[k]),
    ensures
        spec_digits_end(s, i) == spec_digits_end(s, j),
    decreases j - i,
{
    if i < j {
        lemma_digits_end_same(s, i + 1, j);
    }
}

/// The value of a digit block grows (weakly) with its length.
proof fn lemma_digits_val_monotone(s: Seq<char>, i: int, j: int, k: int)
    requires
        i <= j <= k,
    ensures
        spec_digits_val(s, i, j) <= spec_digits_val(s, i, k),
    decreases k - j,
{
    if j < k {
        lemma_digits_val_monotone(s, i, j, k - 1);
        assert(spec_digits_val(s, i, k - 1) * 10 >= spec_digits_val(s, i, k - 1)) by (nonlinear_arith);
    }
}

/// The value of a digit block depends only on the characters it spans.
proof fn lemma_digits_val_congruent(s1: Seq<char>, i1: int, s2: Seq<char>, i2: int, n: int)
    requires
        0 <= n,
        0 <= i1,
        0 <= i2,
        i1 + n <= s1.len(),
        i2 + n <= s2.len(),
        forall|k: int| 0 <= k < n ==> #[trigger] s1[i1 + k] == s2[i2 + k],
    ensures
        spec_digits_val(s1, i1, i1 + n) == spec_digits_val(s2, i2, i2 + n),
    decreases n,
{
    if n > 0 {
        lemma_digits_val_congruent(s1, i1, s2, i2, n - 1);
        assert(s1[i1 + (n - 1)] == s2[i2 + (n - 1)]);
    }
}

/// The digits of `n` evaluate back to `n`.
proof fn lemma_uint_chars_val(n: nat)
    ensures
        spec_digits_val(spec_uint_chars(n), 0, spec_uint_chars(n).len() as int) == n,
    decreases n,
{
    let s = spec_uint_chars(n);
    if n < 10 {
        assert(spec_digits_val(s, 0, 1) == spec_digits_val(s, 0, 0) * 10 + digit_val(s[0]));
    } else {
        let pre = spec_uint_chars(n / 10);
        lemma_uint_chars_val(n / 10);
        let m = pre.len() as int;
        assert(forall|k: int| 0 <= k < m ==> #[trigger] s[0 + k] == pre[0 + k]);
        lemma_digits_val_congruent(s, 0, pre, 0, m);
        assert(spec_digits_val(s, 0, m + 1) == spec_digits_val(s, 0, m) * 10 + digit_val(s[m]));
        assert(digit_val(s[m]) == n % 10) by {
            assert(s[m] == crate::text::digit_char(n % 10));
        }
        assert((n / 10) * 10 + n % 10 == n) by (nonlinear_arith);
    }
}

/// Parsing right after rendering: at a position where the digits of `n` stand,
/// followed by a non-digit (or the end), the number parser returns `n`.
pub proof fn lemma_parse_uint_render(s: Seq<char>, i: int, n: usize)
    requires
        0 <= i,
        i + spec_uint_chars(n as nat).len() <= s.len(),
        s.subrange(i, i + spec_uint_chars(n as nat).len() as int) == spec_uint_chars(n as nat),
        i + spec_uint_chars(n as nat).len() == s.len() || !is_digit_char(
            s[i + spec_uint_chars(n as nat).len()],
        ),
    ensures
        spec_parse_uint(s, i) == Some((n, i + spec_uint_chars(n as nat).len())),
{
    let d = spec_uint_chars(n as nat);
    let m = i + d.len() as int;
    lemma_uint_chars_digits(n as nat);
    assert(forall|k: int| i <= k < m ==> is_digit_char(#[trigger] s[k])) by {
        assert(forall|k: int| i <= k < m ==> s[k] == d[k - i]);
    }
    lemma_digits_end_same(s, i, m);
    assert(spec_digits_end(s, m) == m) by {
        lemma_digits_end_bounds(s, m);
        if m < s.len() {
            assert(!is_digit_char(s[m]));
        }
    }
    assert(spec_digits_end(s, i) == m);
    assert(forall|k: int| 0 <= k < d.len() ==> #[trigger] s[i + k] == d[0 + k]);
    lemma_digits_val_congruent(s, i, d, 0, d.len() as int);
    lemma_uint_chars_val(n as nat);
    assert(spec_digits_val(s, i, m) == n as nat);
}

/// Parse an unsigned decimal number at position `i`.
pub fn parse_uint(v: &Vec<char>, i: usize) -> (r: Option<(usize, usize)>)
    requires
        i <= v@.len(),
    ensures
        match r {
            Some((n, j)) => spec_parse_uint(v@, i as int) == Some((n, j as int)) && i < j <= v@.len(),
            None => spec_parse_uint(v@, i as int) is None,
        },
{
    let ghost s = v@;
    let len = v.len();
    let mut j: usize = i;
    let mut val: usize = 0;
    proof {
        lemma_digits_end_bounds(s, i as int);
    }
    while j < len && is_digit_exec(v[j])
        invariant
            i <= j <= len,
            len == s.len(),
            s == v@,
            forall|k: int| i <= k < j ==> is_digit_char(#[trigger] s[k]),
            val == spec_digits_val(s, i as int, j as int),
        decreases len - j,
    {
        let d = digit_val_exec(v[j]);
        if val > (usize::MAX - d) / 10 {
            proof {
                let e = spec_digits_end(s, i as int);
                lemma_digits_end_bounds(s, i as int);
                lemma_digits_end_same(s, i as int, j as int);
                assert(e == spec_digits_end(s, j as int));
                lemma_digits_end_bounds(s, j as int + 1);
                assert(j < e);
                assert(spec_digits_val(s, i as int, j as int + 1) == val * 10 + digit_val(s[j as int]));
                assert(val * 10 + d > usize::MAX) by (nonlinear_arith)
                    requires val > (usize::MAX - d) / 10 && d < 10;
                lemma_digits_val_monotone(s, i as int, j as int + 1, e);
            }
            return None;
        }
        proof {
            assert(val * 10 + d <= usize::MAX) by (nonlinear_arith)
                requires val <= (usize::MAX - d) / 10 && d < 10;
        }
        val = val * 10 + d;
        j = j + 1;
    }
    proof {
        lemma_digits_end_same(s, i as int, j as int);
        assert(spec_digits_end(s, j as int) == j as int);
    }
    if j == i {
        None
    } else {
        Some((val, j))
    }
}

// ---------------------------------------------------------------------------
// Strings
// ---------------------------------------------------------------------------
/// The body of a JSON string: quotes and backslashes get a backslash escape,
/// every other character stands for itself.
pub open spec fn spec_escape(q: Seq<char>) -> Seq<char>
    decreases q.len(),
{
    if q.len() == 0 {
        Seq::empty()
    } else if q[0] == '"' || q[0] == '\\' {
        seq!['\\', q[0]] + spec_escape(q.skip(1))
    } else {
        seq![q[0]] + spec_escape(q.skip(1))
    }
}

/// A JSON string: the escaped body between double quotes.
pub open spec fn spec_jstring(q: Seq<char>) -> Seq<char> {
    seq!['"'] + spec_escape(q) + seq!['"']
}

/// Parse the body of a JSON string up to its closing quote, undoing the
/// escapes that `spec_escape` writes; any other use of a backslash fails.
pub open spec fn spec_parse_jstring_body(s: Seq<char>, i: int) -> Option<(Seq<char>, int)>
    decreases s.len() - i when 0 <= i <= s.len()
{
    if i >= s.len() {
        None
    } else if s[i] == '"' {
        Some((Seq::empty(), i + 1))
    } else if s[i] == '\\' {
        if i + 1 < s.len() && (s[i + 1] == '"' || s[i + 1] == '\\') {
            match spec_parse_jstring_body(s, i + 2) {
                Some((q, j)) => Some((seq![s[i + 1]] + q, j)),
                None => None,
            }
        } else {
            None
        }
    } else {
        match spec_parse_jstring_body(s, i + 1) {
            Some((q, j)) => Some((seq![s[i]] + q, j)),
            None => None,
        }
    }
}

/// A JSON string at position `i`: an opening quote, then the body.
pub open spec fn spec_parse_jstring(s: Seq<char>, i: int) -> Option<(Seq<char>, int)> {
    if 0 <= i < s.len() && s[i] == '"' {
        spec_parse_jstring_body(s, i + 1)
    } else {
        None
    }
}

/// Pointwise reading of a subrange equality: each character of `s` from `i`
/// on equals the corresponding character of `p`.
pub proof fn lemma_subrange_pointwise(s: Seq<char>, i: int, p: Seq<char>)
    requires
        0 <= i,
        i + p.len() <= s.len(),
        s.subrange(i, i + p.len() as int) == p,
    ensures
        forall|k: int| i <= k < i + p.len() ==> #[trigger] s[k] == p[k - i],
{
    assert forall|k: int| i <= k < i + p.len() implies #[trigger] s[k] == p[k - i] by {
        assert(p[k - i] == s.subrange(i, i + p.len() as int)[k - i]);
    }
}

proof fn lemma_parse_escape_body(s: Seq<char>, i: int, q: Seq<char>)
    requires
        0 <= i,
        i + spec_escape(q).len() + 1 <= s.len(),
        forall|k: int| i <= k < i + spec_escape(q).len() + 1 ==> #[trigger] s[k] == (spec_escape(q)
            + seq!['"'])[k - i],
    ensures
        spec_parse_jstring_body(s, i) == Some((q, i + spec_escape(q).len() + 1)),
    decreases q.len(),
{
    let e = spec_escape(q);
    let piece = e + seq!['"'];
    if q.len() == 0 {
        assert(s[i] == piece[0]);
        assert(s[i] == '"');
    } else if q[0] == '"' || q[0] == '\\' {
        let etail = spec_escape(q.skip(1));
        assert(e == seq!['\\', q[0]] + etail);
        assert(s[i] == piece[0]);
        assert(s[i] == '\\');
        assert(s[i + 1] == piece[1]);
        assert(s[i + 1] == q[0]);
        assert forall|k: int| i + 2 <= k < i + 2 + (etail.len() + 1) implies #[trigger] s[k] == (
        etail + seq!['"'])[k - (i + 2)] by {
            assert(s[k] == piece[k - i]);
            let m = k - i;
            if m < e.len() {
                assert(piece[m] == e[m]);
                assert(e[m] == etail[m - 2]);
                assert((etail + seq!['"'])[m - 2] == etail[m - 2]);
            } else {
                assert(piece[m] == '"');
                assert((etail + seq!['"'])[m - 2] == '"');
            }
        }
        lemma_parse_escape_body(s, i + 2, q.skip(1));
        assert(seq![s[i + 1]] + q.skip(1) =~= q);
    } else {
        let etail = spec_escape(q.skip(1));
        assert(e == seq![q[0]] + etail);
        assert(s[i] == piece[0]);
        assert(s[i] == q[0]);
        assert(s[i] != '"' && s[i] != '\\');
        assert forall|k: int| i + 1 <= k < i + 1 + (etail.len() + 1) implies #[trigger] s[k] == (
        etail + seq!['"'])[k - (i + 1)] by {
            assert(s[k] == piece[k - i]);
            let m = k - i;
            if m < e.len() {
                assert(piece[m] == e[m]);
                assert(e[m] == etail[m - 1]);
                assert((etail + seq!['"'])[m - 1] == etail[m - 1]);
            } else {
                assert(piece[m] == '"');
                assert((etail + seq!['"'])[m - 1] == '"');
            }
        }
        lemma_parse_escape_body(s, i + 1, q.skip(1));
        assert(seq![s[i]] + q.skip(1) =~= q);
    }
}

/// Parsing right after rendering, for strings: where a rendered JSON string
/// stands, the string parser returns the original characters.
pub proof fn lemma_parse_jstring_render(s: Seq<char>, i: int, q: Seq<char>)
    requires
        0 <= i,
        i + spec_jstring(q).len() <= s.len(),
        s.subrange(i, i + spec_jstring(q).len() as int) == spec_jstring(q),
    ensures
        spec_parse_jstring(s, i) == Some((q, i + spec_jstring(q).len())),
{
    let e = spec_escape(q);
    let piece = spec_jstring(q);
    lemma_subrange_pointwise(s, i, piece);
    assert(s[i] == piece[0]);
    assert(s[i] == '"');
    assert forall|k: int| i + 1 <= k < i + 1 + (e.len() + 1) implies #[trigger] s[k] == (e
        + seq!['"'])[k - (i + 1)] by {
        assert(s[k] == piece[k - i]);
        let m = k - i;
        assert(piece[m] == (e + seq!['"'])[m - 1]) by {
            assert(piece =~= seq!['"'] + (e + seq!['"']));
        }
    }
    lemma_parse_escape_body(s, i + 1, q);
}

/// Append the JSON rendering of the string `q`, quotes and escapes included.
pub fn render_jstring_into(out: &mut Vec<char>, q: &str)
    ensures
        final(out)@ == old(out)@ + spec_jstring(q@),
{
    let len = q.unicode_len();
    out.push('"');
    let mut i: usize = 0;
    while i < len
        invariant
            i <= len,
            len == q@.len(),
            out@ == old(out)@ + seq!['"'] + spec_escape(q@.take(i as int)),
        decreases len - i,
    {
        let c = q.get_char(i);
        if c == '"' || c == '\\' {
            out.push('\\');
            out.push(c);
        } else {
            out.push(c);
        }
        i = i + 1;
        proof {
            lemma_escape_take_step(q@, i as int);
            assert(out@ =~= old(out)@ + seq!['"'] + spec_escape(q@.take(i as int)));
        }
    }
    out.push('"');
    proof {
        assert(q@.take(len as int) =~= q@);
        assert(out@ =~= old(out)@ + spec_jstring(q@));
    }
}

/// Escaping one more character appends its escape.
proof fn lemma_escape_take_step(q: Seq<char>, i: int)
    requires
        0 < i <= q.len(),
    ensures
        spec_escape(q.take(i)) == spec_escape(q.take(i - 1)) + (if q[i - 1] == '"' || q[i - 1]
            == '\\' {
            seq!['\\', q[i - 1]]
        } else {
            seq![q[i - 1]]
        }),
    decreases i,
{
    let a = q.take(i);
    let b = q.take(i - 1);
    if i == 1 {
        assert(a =~= seq![q[0]]);
        assert(b =~= Seq::<char>::empty());
        assert(a[0] == q[0]);
        assert(a.skip(1) =~= Seq::<char>::empty());
        assert(spec_escape(a.skip(1)) =~= Seq::<char>::empty());
        if q[0] == '"' || q[0] == '\\' {
            assert(spec_escape(a) =~= seq!['\\', q[0]]);
        } else {
            assert(spec_escape(a) =~= seq![q[0]]);
        }
    } else {
        assert(a[0] == q[0]);
        assert(b[0] == q[0]);
        assert(a.skip(1) =~= q.skip(1).take(i - 1));
        assert(b.skip(1) =~= q.skip(1).take(i - 2));
        lemma_escape_take_step(q.skip(1), i - 1);
        assert(q.skip(1)[i - 2] == q[i - 1]);
        if q[0] == '"' || q[0] == '\\' {
            assert(spec_escape(a) =~= spec_escape(b) + (if q[i - 1] == '"' || q[i - 1] == '\\' {
                seq!['\\', q[i - 1]]
            } else {
                seq![q[i - 1]]
            }));
        } else {
            assert(spec_escape(a) =~= spec_escape(b) + (if q[i - 1] == '"' || q[i - 1] == '\\' {
                seq!['\\', q[i - 1]]
            } else {
                seq![q[i - 1]]
            }));
        }
    }
}

/// Parse a JSON string at position `i`, returning its unescaped contents.
pub fn parse_jstring(v: &Vec<char>, i: usize) -> (r: Option<(String, usize)>)
    requires
        i <= v@.len(),
    ensures
        match r {
            Some((q, j)) => spec_parse_jstring(v@, i as int) matches Some((qs, js)) && q@ == qs && j
                == js && i < j <= v@.len(),
            None => spec_parse_jstring(v@, i as int) is None,
        },
{
    let ghost s = v@;
    let len = v.len();
    if i >= len || v[i] != '"' {
        return None;
    }
    let mut j: usize = i + 1;
    let mut acc: Vec<char> = Vec::new();
    proof {
        if let Some((q0, e0)) = spec_parse_jstring_body(s, i as int + 1) {
            assert(acc@ + q0 =~= q0);
        }
    }
    loop
        invariant
            i + 1 <= j <= len,
            len == s.len(),
            s == v@,
            i < len && s[i as int] == '"',
            spec_parse_jstring_body(s, i as int + 1) matches Some((q, e)) ==> (
            spec_parse_jstring_body(s, j as int) matches Some((qt, et)) && q == acc@ + qt && e
                == et),
            spec_parse_jstring_body(s, i as int + 1) is None ==> spec_parse_jstring_body(
                s,
                j as int,
            ) is None,
        decreases len - j,
    {
        if j >= len {
            return None;
        }
        let c = v[j];
        if c == '"' {
            proof {
                assert(spec_parse_jstring_body(s, j as int) == Some::<(Seq<char>, int)>((
                    Seq::empty(),
                    j as int + 1,
                )));
                if let Some((q, e)) = spec_parse_jstring_body(s, i as int + 1) {
                    assert(q =~= acc@);
                }
            }
            let q = chars_to_string(&acc);
            return Some((q, j + 1));
        } else if c == '\\' {
            if j + 1 < len && (v[j + 1] == '"' || v[j + 1] == '\\') {
                acc.push(v[j + 1]);
                proof {
                    if let Some((qt, et)) = spec_parse_jstring_body(s, j as int + 2) {
                        assert(acc@ + qt =~= acc@.drop_last() + (seq![s[j as int + 1]] + qt));
                    }
                }
                j = j + 2;
            } else {
                return None;
            }
        } else {
            acc.push(c);
            proof {
                if let Some((qt, et)) = spec_parse_jstring_body(s, j as int + 1) {
                    assert(acc@ + qt =~= acc@.drop_last() + (seq![s[j as int]] + qt));
                }
            }
            j = j + 1;
        }
    }
}

// ---------------------------------------------------------------------------
// Fixed text and whitespace
// ---------------------------------------------------------------------------
/// Does the text `lit` stand at position `i` of `s`?
pub open spec fn spec_match_lit(s: Seq<char>, i: int, lit: Seq<char>) -> bool {
    0 <= i && i + lit.len() <= s.len() && s.subrange(i, i + lit.len() as int) == lit
}

/// Check whether the text `lit` stands at position `i`.
pub fn match_lit(v: &Vec<char>, i: usize, lit: &str) -> (b: bool)
    requires
        i <= v@.len(),
    ensures
        b == spec_match_lit(v@, i as int, lit@),
{
    let n = lit.unicode_len();
    let vlen = v.len();
    if n > vlen - i {
        proof {
            assert(!spec_match_lit(v@, i as int, lit@));
        }
        return false;
    }
    let mut k: usize = 0;
    while k < n
        invariant
            0 <= k <= n,
            i + n <= vlen,
            vlen == v@.len(),
            n == lit@.len(),
            forall|t: int| 0 <= t < k ==> #[trigger] v@[i + t] == lit@[t],
        decreases n - k,
    {
        if v[i + k] != lit.get_char(k) {
            proof {
                assert(v@.subrange(i as int, i + n as int)[k as int] == v@[i + k]);
            }
            return false;
        }
        k = k + 1;
    }
    proof {
        assert(v@.subrange(i as int, i + n as int) =~= lit@) by {
            assert(forall|t: int| 0 <= t < n ==> #[trigger] v@.subrange(i as int, i + n as int)[t]
                == v@[i + t]);
        }
    }
    true
}

/// Is `c` JSON whitespace?
pub open spec fn is_ws_char(c: char) -> bool {
    c == ' ' || c == '\n' || c == '\r' || c == '\t'
}

/// The first position at or after `i` that holds no whitespace.
pub open spec fn spec_skip_ws(s: Seq<char>, i: int) -> int
    decreases s.len() - i when 0 <= i <= s.len()
{
    if i < s.len() && is_ws_char(s[i]) {
        spec_skip_ws(s, i + 1)
    } else {
        i
    }
}

/// Advance past whitespace.
pub fn skip_ws(v: &Vec<char>, i: usize) -> (j: usize)
    requires
        i <= v@.len(),
    ensures
        j as int == spec_skip_ws(v@, i as int),
        i <= j <= v@.len(),
{
    let mut j: usize = i;
    while j < v.len() && (v[j] == ' ' || v[j] == '\n' || v[j] == '\r' || v[j] == '\t')
        invariant
            i <= j <= v@.len(),
            spec_skip_ws(v@, i as int) == spec_skip_ws(v@, j as int),
        decreases v@.len() - j,
    {
        j = j + 1;
    }
    j
}

fn is_digit_exec(c: char) -> (b: bool)
    ensures
        b == is_digit_char(c),
{
    '0' <= c && c <= '9'
}

fn digit_val_exec(c: char) -> (d: usize)
    requires
        is_digit_char(c),
    ensures
        d == digit_val(c),
        d < 10,
{
    (c as u8 - '0' as u8) as usize
}

} // verus!
