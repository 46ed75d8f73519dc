//! Whitespace before a filter changes nothing: a filter text with
//! whitespace put before it denotes what the text alone denotes.

use vstd::prelude::*;

use super::ast::ExpressionModel;
use super::grammar::{
    and_word, expression_rest, false_upper, false_word, filter_syntax, is_digit_char,
    is_ident_char, is_ident_start, is_ws, member_tail, not_word, null_upper, null_word,
    number_end, or_word, parse_comparator, parse_expression, parse_factor, parse_group,
    parse_member, parse_restriction, parse_sequence, parse_string, parse_term, parse_value,
    sequence_rest, skip_digits, skip_ident_chars, skip_ws, string_close, term_rest, true_upper,
    true_word, word_at, word_at_any_case,
};

use super::round_trip::{lemma_member_tail_range, lemma_skip_digits_range, lemma_skip_ident_range};

verus! {

/// `s2` is `s` with `k` whitespace characters put before it.
pub open spec fn ws_prefixed(s2: Seq<char>, s: Seq<char>, k: int) -> bool {
    &&& 0 <= k
    &&& s2.len() == s.len() + k
    &&& forall|i: int| 0 <= i < k ==> is_ws(#[trigger] s2[i])
    &&& forall|i: int| 0 <= i < s.len() ==> #[trigger] s2[k + i] == s[i]
}

/// A parse result with its end position moved by `k`.
pub open spec fn shifted<X>(r: Option<(X, int)>, k: int) -> Option<(X, int)> {
    match r {
        Some((x, q)) => Some((x, q + k)),
        None => None,
    }
}

proof fn lemma_skip_ident_shift(s2: Seq<char>, s: Seq<char>, k: int, p: int)
    requires
        ws_prefixed(s2, s, k),
        0 <= p <= s.len(),
    ensures
        skip_ident_chars(s2, p + k) == skip_ident_chars(s, p) + k,
    decreases s.len() - p,
{
    if p < s.len() {
        assert(s2[k + p] == s[p]);
        if is_ident_char(s[p]) {
            lemma_skip_ident_shift(s2, s, k, p + 1);
        }
    }
}

proof fn lemma_skip_digits_shift(s2: Seq<char>, s: Seq<char>, k: int, p: int)
    requires
        ws_prefixed(s2, s, k),
        0 <= p <= s.len(),
    ensures
        skip_digits(s2, p + k) == skip_digits(s, p) + k,
    decreases s.len() - p,
{
    if p < s.len() {
        assert(s2[k + p] == s[p]);
        if is_digit_char(s[p]) {
            lemma_skip_digits_shift(s2, s, k, p + 1);
        }
    }
}

proof fn lemma_skip_ws_shift(s2: Seq<char>, s: Seq<char>, k: int, p: int)
    requires
        ws_prefixed(s2, s, k),
        0 <= p <= s.len(),
    ensures
        skip_ws(s2, p + k) == skip_ws(s, p) + k,
    decreases s.len() - p,
{
    if p < s.len() {
        assert(s2[k + p] == s[p]);
        if is_ws(s[p]) {
            lemma_skip_ws_shift(s2, s, k, p + 1);
        }
    }
}

/// Skipping whitespace from inside the put-before whitespace goes on into
/// `s` as skipping from its start does.
proof fn lemma_skip_ws_prefix(s2: Seq<char>, s: Seq<char>, k: int, i: int)
    requires
        ws_prefixed(s2, s, k),
        0 <= i <= k,
    ensures
        skip_ws(s2, i) == skip_ws(s, 0) + k,
    decreases k - i,
{
    if i < k {
        assert(is_ws(s2[i]));
        lemma_skip_ws_prefix(s2, s, k, i + 1);
    } else {
        lemma_skip_ws_shift(s2, s, k, 0);
    }
}

proof fn lemma_member_tail_shift(s2: Seq<char>, s: Seq<char>, k: int, q: int)
    requires
        ws_prefixed(s2, s, k),
        0 <= q <= s.len(),
    ensures
        member_tail(s2, q + k) == member_tail(s, q) + k,
    decreases s.len() - q,
{
    if q + 1 < s.len() {
        assert(s2[k + q] == s[q]);
        assert(s2[k + (q + 1)] == s[q + 1]);
        if s[q] == '.' && is_ident_start(s[q + 1]) {
            lemma_skip_ident_shift(s2, s, k, q + 2);
            lemma_skip_ident_range(s, q + 2);
            let r = skip_ident_chars(s, q + 2);
            if q < r <= s.len() {
                lemma_member_tail_shift(s2, s, k, r);
            }
        }
    }
}

/// The same characters stand at `p..q` in `s` and at `p + k..q + k` in
/// `s2`.
proof fn lemma_subrange_shift(s2: Seq<char>, s: Seq<char>, k: int, p: int, q: int)
    requires
        ws_prefixed(s2, s, k),
        0 <= p <= q <= s.len(),
    ensures
        s2.subrange(p + k, q + k) == s.subrange(p, q),
{
    assert forall|i: int| 0 <= i < q - p implies #[trigger] s2.subrange(p + k, q + k)[i]
        == s.subrange(p, q)[i] by {
        assert(s2[k + (p + i)] == s[p + i]);
    }
    assert(s2.subrange(p + k, q + k) =~= s.subrange(p, q));
}

proof fn lemma_member_shift(s2: Seq<char>, s: Seq<char>, k: int, p: int)
    requires
        ws_prefixed(s2, s, k),
        0 <= p <= s.len(),
    ensures
        parse_member(s2, p + k) == shifted(parse_member(s, p), k),
        parse_member(s, p) matches Some((m, q)) ==> p < q <= s.len(),
{
    if p < s.len() {
        assert(s2[k + p] == s[p]);
        if is_ident_start(s[p]) {
            lemma_skip_ident_shift(s2, s, k, p + 1);
            lemma_skip_ident_range(s, p + 1);
            lemma_member_tail_shift(s2, s, k, skip_ident_chars(s, p + 1));
            lemma_member_tail_range(s, skip_ident_chars(s, p + 1));
            let q = member_tail(s, skip_ident_chars(s, p + 1));
            if p < q <= s.len() {
                lemma_subrange_shift(s2, s, k, p, q);
            }
        }
    }
}

proof fn lemma_comparator_shift(s2: Seq<char>, s: Seq<char>, k: int, p: int)
    requires
        ws_prefixed(s2, s, k),
        0 <= p,
    ensures
        parse_comparator(s2, p + k) == shifted(parse_comparator(s, p), k),
        parse_comparator(s, p) matches Some((c, q)) ==> p < q <= s.len(),
{
    if p < s.len() {
        assert(s2[k + p] == s[p]);
    }
    if p + 1 < s.len() {
        assert(s2[k + (p + 1)] == s[p + 1]);
    }
}

proof fn lemma_string_close_shift(s2: Seq<char>, s: Seq<char>, k: int, i: int, quote: char)
    requires
        ws_prefixed(s2, s, k),
        0 <= i,
    ensures
        string_close(s2, i + k, quote) == match string_close(s, i, quote) {
            Some(e) => Some(e + k),
            None => None,
        },
        string_close(s, i, quote) matches Some(e) ==> i <= e < s.len(),
    decreases s.len() - i,
{
    if i < s.len() {
        assert(s2[k + i] == s[i]);
        if s[i] != quote {
            lemma_string_close_shift(s2, s, k, i + 1, quote);
        }
    }
}

proof fn lemma_string_shift(s2: Seq<char>, s: Seq<char>, k: int, p: int)
    requires
        ws_prefixed(s2, s, k),
        0 <= p,
    ensures
        parse_string(s2, p + k) == shifted(parse_string(s, p), k),
        parse_string(s, p) matches Some((x, q)) ==> p < q <= s.len(),
{
    if p < s.len() {
        assert(s2[k + p] == s[p]);
        if s[p] == '"' || s[p] == '\'' {
            lemma_string_close_shift(s2, s, k, p + 1, s[p]);
            match string_close(s, p + 1, s[p]) {
                Some(e) => {
                    if p < e < s.len() {
                        lemma_subrange_shift(s2, s, k, p + 1, e);
                    }
                },
                None => {},
            }
        }
    }
}

proof fn lemma_number_shift(s2: Seq<char>, s: Seq<char>, k: int, p: int)
    requires
        ws_prefixed(s2, s, k),
        0 <= p <= s.len(),
    ensures
        number_end(s2, p + k) == match number_end(s, p) {
            Some(q) => Some(q + k),
            None => None,
        },
        number_end(s, p) matches Some(q) ==> p < q <= s.len(),
{
    if p < s.len() {
        assert(s2[k + p] == s[p]);
    }
    let a = if p < s.len() && s[p] == '-' {
        p + 1
    } else {
        p
    };
    lemma_skip_digits_shift(s2, s, k, a);
    lemma_skip_digits_range(s, a);
    let b = skip_digits(s, a);
    if b < s.len() {
        assert(s2[k + b] == s[b]);
    }
    if b + 1 < s.len() {
        assert(s2[k + (b + 1)] == s[b + 1]);
    }
    if b + 1 < s.len() && s[b] == '.' && is_digit_char(s[b + 1]) {
        lemma_skip_digits_shift(s2, s, k, b + 1);
        lemma_skip_digits_range(s, b + 1);
    }
    let c = if b + 1 < s.len() && s[b] == '.' && is_digit_char(s[b + 1]) {
        skip_digits(s, b + 1)
    } else {
        b
    };
    if c < s.len() {
        assert(s2[k + c] == s[c]);
    }
    if c + 1 < s.len() {
        assert(s2[k + (c + 1)] == s[c + 1]);
    }
    if c < s.len() && (s[c] == 'e' || s[c] == 'E') {
        let e = if c + 1 < s.len() && (s[c + 1] == '+' || s[c + 1] == '-') {
            c + 2
        } else {
            c + 1
        };
        lemma_skip_digits_shift(s2, s, k, e);
        lemma_skip_digits_range(s, e);
    }
}

proof fn lemma_word_shift(s2: Seq<char>, s: Seq<char>, k: int, p: int, w: Seq<char>)
    requires
        ws_prefixed(s2, s, k),
        0 <= p,
    ensures
        word_at(s2, p + k, w) == word_at(s, p, w),
{
    if p + w.len() <= s.len() {
        lemma_subrange_shift(s2, s, k, p, p + w.len());
        if p + w.len() < s.len() {
            assert(s2[k + (p + w.len())] == s[p + w.len()]);
        }
    }
}

proof fn lemma_word_any_case_shift(
    s2: Seq<char>,
    s: Seq<char>,
    k: int,
    p: int,
    lower: Seq<char>,
    upper: Seq<char>,
)
    requires
        ws_prefixed(s2, s, k),
        0 <= p,
    ensures
        word_at_any_case(s2, p + k, lower, upper) == word_at_any_case(s, p, lower, upper),
{
    let n = lower.len() as int;
    if p + n <= s.len() {
        assert forall|i: int| 0 <= i < n implies #[trigger] s2[p + k + i] == s[p + i] by {
            assert(s2[k + (p + i)] == s[p + i]);
        }
        if p + n < s.len() {
            assert(s2[k + (p + n)] == s[p + n]);
        }
        if word_at_any_case(s, p, lower, upper) {
            assert forall|i: int| 0 <= i < n implies #[trigger] s2[p + k + i] == lower[i]
                || s2[p + k + i] == upper[i] by {
                assert(s[p + i] == lower[i] || s[p + i] == upper[i]);
            }
        }
        if word_at_any_case(s2, p + k, lower, upper) {
            assert forall|i: int| 0 <= i < n implies #[trigger] s[p + i] == lower[i] || s[p + i]
                == upper[i] by {
                assert(s2[p + k + i] == lower[i] || s2[p + k + i] == upper[i]);
            }
        }
    }
}

proof fn lemma_value_shift(s2: Seq<char>, s: Seq<char>, k: int, p: int)
    requires
        ws_prefixed(s2, s, k),
        0 <= p <= s.len(),
    ensures
        parse_value(s2, p + k) == shifted(parse_value(s, p), k),
        parse_value(s, p) matches Some((v, q)) ==> p < q <= s.len(),
{
    lemma_string_shift(s2, s, k, p);
    lemma_number_shift(s2, s, k, p);
    lemma_word_any_case_shift(s2, s, k, p, true_word(), true_upper());
    lemma_word_any_case_shift(s2, s, k, p, false_word(), false_upper());
    lemma_word_any_case_shift(s2, s, k, p, null_word(), null_upper());
    match number_end(s, p) {
        Some(q) => {
            lemma_subrange_shift(s2, s, k, p, q);
        },
        None => {},
    }
}

proof fn lemma_restriction_shift(s2: Seq<char>, s: Seq<char>, k: int, p: int)
    requires
        ws_prefixed(s2, s, k),
        0 <= p <= s.len(),
    ensures
        parse_restriction(s2, p + k) == shifted(parse_restriction(s, p), k),
        parse_restriction(s, p) matches Some((x, q)) ==> p < q <= s.len(),
{
    lemma_member_shift(s2, s, k, p);
    match parse_member(s, p) {
        Some((f, q)) => {
            lemma_skip_ws_shift(s2, s, k, q);
            lemma_skip_ws_range(s, q);
            let c1 = skip_ws(s, q);
            lemma_comparator_shift(s2, s, k, c1);
            match parse_comparator(s, c1) {
                Some((c, q2)) => {
                    lemma_skip_ws_shift(s2, s, k, q2);
                    lemma_skip_ws_range(s, q2);
                    lemma_value_shift(s2, s, k, skip_ws(s, q2));
                },
                None => {},
            }
        },
        None => {},
    }
}

/// Skipping whitespace moves forward, within the text.
proof fn lemma_skip_ws_range(s: Seq<char>, i: int)
    requires
        0 <= i <= s.len(),
    ensures
        i <= skip_ws(s, i) <= s.len(),
    decreases s.len() - i,
{
    if i < s.len() && is_ws(s[i]) {
        lemma_skip_ws_range(s, i + 1);
    }
}

proof fn lemma_sequence_rest_shift(s2: Seq<char>, s: Seq<char>, k: int, q: int, acc: Seq<Seq<char>>)
    requires
        ws_prefixed(s2, s, k),
        0 <= q <= s.len(),
    ensures
        sequence_rest(s2, q + k, acc) == (sequence_rest(s, q, acc).0, sequence_rest(s, q, acc).1 + k),
        q <= sequence_rest(s, q, acc).1 <= s.len(),
    decreases s.len() - q,
{
    lemma_skip_ws_shift(s2, s, k, q);
    lemma_skip_ws_range(s, q);
    lemma_member_shift(s2, s, k, skip_ws(s, q));
    match parse_member(s, skip_ws(s, q)) {
        Some((m, q2)) => {
            if q < q2 <= s.len() {
                lemma_sequence_rest_shift(s2, s, k, q2, acc.push(m));
            }
        },
        None => {},
    }
}

proof fn lemma_sequence_shift(s2: Seq<char>, s: Seq<char>, k: int, p: int)
    requires
        ws_prefixed(s2, s, k),
        0 <= p <= s.len(),
    ensures
        parse_sequence(s2, p + k) == shifted(parse_sequence(s, p), k),
        parse_sequence(s, p) matches Some((x, q)) ==> p < q <= s.len(),
{
    lemma_member_shift(s2, s, k, p);
    match parse_member(s, p) {
        Some((m, q)) => {
            lemma_sequence_rest_shift(s2, s, k, q, seq![m]);
        },
        None => {},
    }
}

proof fn lemma_expression_shift(s2: Seq<char>, s: Seq<char>, k: int, p: int)
    requires
        ws_prefixed(s2, s, k),
        0 <= p <= s.len(),
    ensures
        parse_expression(s2, p + k) == shifted(parse_expression(s, p), k),
        parse_expression(s, p) matches Some((e, q)) ==> p <= q <= s.len(),
    decreases s.len() - p, 5int,
{
    lemma_term_shift(s2, s, k, p);
    match parse_term(s, p) {
        Some((t, q)) => {
            lemma_expression_rest_shift(s2, s, k, q, t);
        },
        None => {},
    }
}

proof fn lemma_expression_rest_shift(s2: Seq<char>, s: Seq<char>, k: int, q: int, acc: ExpressionModel)
    requires
        ws_prefixed(s2, s, k),
        0 <= q <= s.len(),
    ensures
        expression_rest(s2, q + k, acc) == shifted(expression_rest(s, q, acc), k),
        expression_rest(s, q, acc) matches Some((e, q2)) ==> q <= q2 <= s.len(),
    decreases s.len() - q, 4int,
{
    lemma_skip_ws_shift(s2, s, k, q);
    lemma_skip_ws_range(s, q);
    let r = skip_ws(s, q);
    lemma_word_shift(s2, s, k, r, or_word());
    if word_at(s, r, or_word()) {
        lemma_skip_ws_shift(s2, s, k, r + 2);
        lemma_skip_ws_range(s, r + 2);
        let r2 = skip_ws(s, r + 2);
        lemma_term_shift(s2, s, k, r2);
        match parse_term(s, r2) {
            Some((t, q2)) => {
                if r2 <= q2 <= s.len() {
                    lemma_expression_rest_shift(
                        s2,
                        s,
                        k,
                        q2,
                        ExpressionModel::Or(Box::new(acc), Box::new(t)),
                    );
                }
            },
            None => {},
        }
    }
}

proof fn lemma_term_shift(s2: Seq<char>, s: Seq<char>, k: int, p: int)
    requires
        ws_prefixed(s2, s, k),
        0 <= p <= s.len(),
    ensures
        parse_term(s2, p + k) == shifted(parse_term(s, p), k),
        parse_term(s, p) matches Some((e, q)) ==> p <= q <= s.len(),
    decreases s.len() - p, 3int,
{
    lemma_factor_shift(s2, s, k, p);
    match parse_factor(s, p) {
        Some((f, q)) => {
            lemma_term_rest_shift(s2, s, k, q, f);
        },
        None => {},
    }
}

proof fn lemma_term_rest_shift(s2: Seq<char>, s: Seq<char>, k: int, q: int, acc: ExpressionModel)
    requires
        ws_prefixed(s2, s, k),
        0 <= q <= s.len(),
    ensures
        term_rest(s2, q + k, acc) == shifted(term_rest(s, q, acc), k),
        term_rest(s, q, acc) matches Some((e, q2)) ==> q <= q2 <= s.len(),
    decreases s.len() - q, 2int,
{
    lemma_skip_ws_shift(s2, s, k, q);
    lemma_skip_ws_range(s, q);
    let r = skip_ws(s, q);
    lemma_word_shift(s2, s, k, r, and_word());
    if word_at(s, r, and_word()) {
        lemma_skip_ws_shift(s2, s, k, r + 3);
        lemma_skip_ws_range(s, r + 3);
        let r2 = skip_ws(s, r + 3);
        lemma_factor_shift(s2, s, k, r2);
        match parse_factor(s, r2) {
            Some((f, q2)) => {
                if r2 <= q2 <= s.len() {
                    lemma_term_rest_shift(
                        s2,
                        s,
                        k,
                        q2,
                        ExpressionModel::And(Box::new(acc), Box::new(f)),
                    );
                }
            },
            None => {},
        }
    }
}

proof fn lemma_factor_shift(s2: Seq<char>, s: Seq<char>, k: int, p: int)
    requires
        ws_prefixed(s2, s, k),
        0 <= p <= s.len(),
    ensures
        parse_factor(s2, p + k) == shifted(parse_factor(s, p), k),
        parse_factor(s, p) matches Some((e, q)) ==> p <= q <= s.len(),
    decreases s.len() - p, 1int,
{
    lemma_word_shift(s2, s, k, p, not_word());
    if word_at(s, p, not_word()) {
        lemma_skip_ws_shift(s2, s, k, p + 3);
        lemma_skip_ws_range(s, p + 3);
        let r = skip_ws(s, p + 3);
        lemma_restriction_shift(s2, s, k, r);
        lemma_group_shift(s2, s, k, r);
    }
    lemma_restriction_shift(s2, s, k, p);
    lemma_sequence_shift(s2, s, k, p);
    lemma_group_shift(s2, s, k, p);
}

#[verifier::rlimit(80)]
#[verifier::spinoff_prover]
proof fn lemma_group_shift(s2: Seq<char>, s: Seq<char>, k: int, p: int)
    requires
        ws_prefixed(s2, s, k),
        0 <= p <= s.len(),
    ensures
        parse_group(s2, p + k) == shifted(parse_group(s, p), k),
        parse_group(s, p) matches Some((e, q)) ==> p < q <= s.len(),
    decreases s.len() - p, 0int,
{
    if p < s.len() {
        assert(s2[k + p] == s[p]);
        if s[p] == '(' {
            lemma_skip_ws_shift(s2, s, k, p + 1);
            lemma_skip_ws_range(s, p + 1);
            let r = skip_ws(s, p + 1);
            lemma_expression_shift(s2, s, k, r);
            match parse_expression(s, r) {
                Some((e, q)) => {
                    lemma_skip_ws_shift(s2, s, k, q);
                    lemma_skip_ws_range(s, q);
                    let q1 = skip_ws(s, q);
                    if q1 < s.len() {
                        assert(s2[k + q1] == s[q1]);
                    }
                },
                None => {},
            }
        }
    }
}

/// Whitespace before a filter text changes nothing: the text with any
/// whitespace put before it denotes exactly what the text alone denotes,
/// the same expression where it parses, nothing where it is empty, and an
/// error where it does not follow the grammar.
pub proof fn lemma_leading_whitespace(w: Seq<char>, s: Seq<char>)
    requires
        forall|i: int| 0 <= i < w.len() ==> is_ws(#[trigger] w[i]),
    ensures
        filter_syntax(w + s) == filter_syntax(s),
{
    let s2 = w + s;
    let k = w.len() as int;
    assert forall|i: int| 0 <= i < k implies is_ws(#[trigger] s2[i]) by {
        assert(s2[i] == w[i]);
    }
    assert forall|i: int| 0 <= i < s.len() implies #[trigger] s2[k + i] == s[i] by {}
    assert(ws_prefixed(s2, s, k));
    lemma_skip_ws_prefix(s2, s, k, 0);
    lemma_skip_ws_range(s, 0);
    let p = skip_ws(s, 0);
    if p < s.len() {
        lemma_expression_shift(s2, s, k, p);
        match parse_expression(s, p) {
            Some((e, q)) => {
                lemma_skip_ws_shift(s2, s, k, q);
            },
            None => {},
        }
    }
}

} // verus!
