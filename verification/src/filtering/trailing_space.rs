//! Whitespace after a filter changes nothing: a filter text with
//! whitespace appended denotes what the text alone denotes.

use vstd::prelude::*;

use super::ast::ExpressionModel;
use super::grammar::{
    and_word, expression_rest, filter_syntax, not_word, or_word, parse_expression, parse_factor,
    parse_group, parse_term, term_rest,
    false_upper, false_word, is_digit_char, is_ident_char, is_ident_start, is_ws, member_tail,
    null_upper, null_word, number_end, parse_comparator, parse_member, parse_restriction,
    parse_sequence, parse_string, parse_value, sequence_rest,
    skip_digits, skip_ident_chars, skip_ws, string_close, true_upper, true_word, word_at,
    word_at_any_case,
};

use super::round_trip::{lemma_member_tail_range, lemma_skip_digits_range, lemma_skip_ident_range};

verus! {

/// `s2` is `s` with whitespace appended.
pub open spec fn ws_extends(s2: Seq<char>, s: Seq<char>) -> bool {
    &&& s.len() <= s2.len()
    &&& forall|i: int| 0 <= i < s.len() ==> #[trigger] s2[i] == s[i]
    &&& forall|i: int| s.len() <= i < s2.len() ==> is_ws(#[trigger] s2[i])
}

proof fn lemma_skip_ident_ext(s2: Seq<char>, s: Seq<char>, p: int)
    requires
        ws_extends(s2, s),
        0 <= p <= s.len(),
    ensures
        skip_ident_chars(s2, p) == skip_ident_chars(s, p),
    decreases s.len() - p,
{
    if p < s.len() {
        assert(s2[p] == s[p]);
        if is_ident_char(s[p]) {
            lemma_skip_ident_ext(s2, s, p + 1);
        }
    } else if p < s2.len() {
        assert(is_ws(s2[p]));
    }
}

proof fn lemma_skip_digits_ext(s2: Seq<char>, s: Seq<char>, p: int)
    requires
        ws_extends(s2, s),
        0 <= p <= s.len(),
    ensures
        skip_digits(s2, p) == skip_digits(s, p),
    decreases s.len() - p,
{
    if p < s.len() {
        assert(s2[p] == s[p]);
        if is_digit_char(s[p]) {
            lemma_skip_digits_ext(s2, s, p + 1);
        }
    } else if p < s2.len() {
        assert(is_ws(s2[p]));
    }
}

/// Skipping whitespace in the tail reaches the end.
proof fn lemma_skip_ws_tail(s2: Seq<char>, s: Seq<char>, p: int)
    requires
        ws_extends(s2, s),
        s.len() <= p <= s2.len(),
    ensures
        skip_ws(s2, p) == s2.len(),
    decreases s2.len() - p,
{
    if p < s2.len() {
        assert(is_ws(s2[p]));
        lemma_skip_ws_tail(s2, s, p + 1);
    }
}

/// Skipping whitespace goes as in `s` where it stops inside `s`, and to the
/// end of `s2` where it reaches the end of `s`.
proof fn lemma_skip_ws_ext(s2: Seq<char>, s: Seq<char>, p: int)
    requires
        ws_extends(s2, s),
        0 <= p <= s.len(),
    ensures
        skip_ws(s, p) < s.len() ==> skip_ws(s2, p) == skip_ws(s, p),
        skip_ws(s, p) >= s.len() ==> skip_ws(s, p) == s.len() && skip_ws(s2, p) == s2.len(),
        p <= skip_ws(s, p) <= s.len(),
    decreases s.len() - p,
{
    if p < s.len() {
        assert(s2[p] == s[p]);
        if is_ws(s[p]) {
            lemma_skip_ws_ext(s2, s, p + 1);
        }
    } else {
        lemma_skip_ws_tail(s2, s, p);
    }
}

proof fn lemma_member_tail_ext(s2: Seq<char>, s: Seq<char>, q: int)
    requires
        ws_extends(s2, s),
        0 <= q <= s.len(),
    ensures
        member_tail(s2, q) == member_tail(s, q),
    decreases s.len() - q,
{
    if q + 1 < s.len() {
        assert(s2[q] == s[q]);
        assert(s2[q + 1] == s[q + 1]);
        if s[q] == '.' && is_ident_start(s[q + 1]) {
            lemma_skip_ident_ext(s2, s, q + 2);
            lemma_skip_ident_range(s, q + 2);
            let r = skip_ident_chars(s, q + 2);
            if q < r <= s.len() {
                lemma_member_tail_ext(s2, s, r);
            }
        }
    } else if q + 1 == s.len() {
        assert(s2[q] == s[q]);
        if q + 1 < s2.len() {
            assert(is_ws(s2[q + 1]));
        }
    } else if q < s2.len() {
        assert(is_ws(s2[q]));
    }
}

/// A member is read as in `s` from inside `s`, and none starts in the tail.
proof fn lemma_member_ext(s2: Seq<char>, s: Seq<char>, p: int)
    requires
        ws_extends(s2, s),
        0 <= p <= s2.len(),
    ensures
        p <= s.len() ==> parse_member(s2, p) == parse_member(s, p),
        p >= s.len() ==> parse_member(s2, p) is None,
        parse_member(s, p) matches Some((m, q)) ==> p < q <= s.len(),
{
    if p < s.len() {
        assert(s2[p] == s[p]);
        if is_ident_start(s[p]) {
            lemma_skip_ident_ext(s2, s, p + 1);
            lemma_skip_ident_range(s, p + 1);
            lemma_member_tail_ext(s2, s, skip_ident_chars(s, p + 1));
            lemma_member_tail_range(s, skip_ident_chars(s, p + 1));
            let q = member_tail(s, skip_ident_chars(s, p + 1));
            if p < q <= s.len() {
                assert(s2.subrange(p, q) =~= s.subrange(p, q));
            }
        }
    } else if p < s2.len() {
        assert(is_ws(s2[p]));
    }
}

/// A comparator is read as in `s` from inside `s`, and none in the tail.
proof fn lemma_comparator_ext(s2: Seq<char>, s: Seq<char>, p: int)
    requires
        ws_extends(s2, s),
        0 <= p,
    ensures
        p <= s.len() ==> parse_comparator(s2, p) == parse_comparator(s, p),
        p >= s.len() ==> parse_comparator(s2, p) is None,
        parse_comparator(s, p) matches Some((c, q)) ==> p < q <= s.len(),
{
    if p < s.len() {
        assert(s2[p] == s[p]);
    } else if p < s2.len() {
        assert(is_ws(s2[p]));
    }
    if p + 1 < s.len() {
        assert(s2[p + 1] == s[p + 1]);
    } else if p + 1 < s2.len() && p + 1 >= s.len() {
        assert(is_ws(s2[p + 1]));
    }
}

proof fn lemma_string_close_ext(s2: Seq<char>, s: Seq<char>, i: int, quote: char)
    requires
        ws_extends(s2, s),
        0 <= i,
        !is_ws(quote),
    ensures
        string_close(s2, i, quote) == string_close(s, i, quote),
        string_close(s, i, quote) matches Some(e) ==> i <= e < s.len(),
    decreases s2.len() - i,
{
    if i < s.len() {
        assert(s2[i] == s[i]);
        if s[i] != quote {
            lemma_string_close_ext(s2, s, i + 1, quote);
        }
    } else if i < s2.len() {
        assert(is_ws(s2[i]));
        lemma_string_close_ext(s2, s, i + 1, quote);
    }
}

proof fn lemma_string_ext(s2: Seq<char>, s: Seq<char>, p: int)
    requires
        ws_extends(s2, s),
        0 <= p,
    ensures
        p <= s.len() ==> parse_string(s2, p) == parse_string(s, p),
        p >= s.len() ==> parse_string(s2, p) is None,
        parse_string(s, p) matches Some((x, q)) ==> p < q <= s.len(),
{
    if p < s.len() {
        assert(s2[p] == s[p]);
        if s[p] == '"' || s[p] == '\'' {
            lemma_string_close_ext(s2, s, p + 1, s[p]);
            match string_close(s, p + 1, s[p]) {
                Some(e) => {
                    if p < e < s.len() {
                        assert(s2.subrange(p + 1, e) =~= s.subrange(p + 1, e));
                    }
                },
                None => {},
            }
        }
    } else if p < s2.len() {
        assert(is_ws(s2[p]));
    }
}

proof fn lemma_number_ext(s2: Seq<char>, s: Seq<char>, p: int)
    requires
        ws_extends(s2, s),
        0 <= p,
    ensures
        p <= s.len() ==> number_end(s2, p) == number_end(s, p),
        p >= s.len() ==> number_end(s2, p) is None,
        number_end(s, p) matches Some(q) ==> p < q <= s.len(),
{
    if p >= s.len() {
        if p < s2.len() {
            assert(is_ws(s2[p]));
            if p + 1 < s2.len() {
                assert(is_ws(s2[p + 1]));
            }
        }
        if p <= s2.len() {
            lemma_skip_digits_tail(s2, s, p);
            if p + 1 <= s2.len() {
                lemma_skip_digits_tail(s2, s, p + 1);
            }
        }
    } else {
        assert(s2[p] == s[p]);
        let a = if s[p] == '-' {
            p + 1
        } else {
            p
        };
        lemma_skip_digits_ext(s2, s, a);
        lemma_skip_digits_range(s, a);
        let b = skip_digits(s, a);
        if b < s.len() {
            assert(s2[b] == s[b]);
        } else if b < s2.len() {
            assert(is_ws(s2[b]));
        }
        if b + 1 < s.len() {
            assert(s2[b + 1] == s[b + 1]);
        } else if b + 1 < s2.len() {
            assert(is_ws(s2[b + 1]));
        }
        if b + 1 < s.len() && s[b] == '.' && is_digit_char(s[b + 1]) {
            lemma_skip_digits_ext(s2, s, b + 1);
            lemma_skip_digits_range(s, b + 1);
        }
        let c = if b + 1 < s.len() && s[b] == '.' && is_digit_char(s[b + 1]) {
            skip_digits(s, b + 1)
        } else {
            b
        };
        if c < s.len() {
            assert(s2[c] == s[c]);
        } else if c < s2.len() {
            assert(is_ws(s2[c]));
        }
        if c + 1 < s.len() {
            assert(s2[c + 1] == s[c + 1]);
        } else if c + 1 < s2.len() {
            assert(is_ws(s2[c + 1]));
        }
        if c < s.len() && (s[c] == 'e' || s[c] == 'E') {
            let e = if c + 1 < s.len() && (s[c + 1] == '+' || s[c + 1] == '-') {
                c + 2
            } else {
                c + 1
            };
            lemma_skip_digits_ext(s2, s, e);
            lemma_skip_digits_range(s, e);
        }
    }
}

/// No digits in the tail.
proof fn lemma_skip_digits_tail(s2: Seq<char>, s: Seq<char>, p: int)
    requires
        ws_extends(s2, s),
        s.len() <= p <= s2.len(),
    ensures
        skip_digits(s2, p) == p,
{
    if p < s2.len() {
        assert(is_ws(s2[p]));
    }
}

/// A word whose letters are not whitespace is found as in `s` from inside
/// `s`, and not in the tail.
proof fn lemma_word_ext(s2: Seq<char>, s: Seq<char>, p: int, w: Seq<char>)
    requires
        ws_extends(s2, s),
        0 <= p,
        w.len() > 0,
        forall|i: int| 0 <= i < w.len() ==> !is_ws(#[trigger] w[i]),
    ensures
        p <= s.len() ==> word_at(s2, p, w) == word_at(s, p, w),
        p >= s.len() ==> !word_at(s2, p, w),
{
    if p + w.len() <= s.len() {
        assert(s2.subrange(p, p + w.len()) =~= s.subrange(p, p + w.len()));
        if p + w.len() < s.len() {
            assert(s2[p + w.len()] == s[p + w.len()]);
        } else if p + w.len() < s2.len() {
            assert(is_ws(s2[p + w.len()]));
        }
    } else if p + w.len() <= s2.len() {
        let k = if p >= s.len() {
            0
        } else {
            s.len() - p
        };
        assert(is_ws(s2[p + k]));
        assert(s2.subrange(p, p + w.len())[k] == s2[p + k]);
        assert(!is_ws(w[k]));
    }
}

/// A value word in either case is found as in `s` from inside `s`, and
/// not in the tail.
proof fn lemma_word_any_case_ext(s2: Seq<char>, s: Seq<char>, p: int, lower: Seq<char>, upper: Seq<char>)
    requires
        ws_extends(s2, s),
        0 <= p,
        lower.len() > 0,
        lower.len() == upper.len(),
        forall|i: int| 0 <= i < lower.len() ==> !is_ws(#[trigger] lower[i]) && !is_ws(upper[i]),
    ensures
        p <= s.len() ==> word_at_any_case(s2, p, lower, upper) == word_at_any_case(s, p, lower, upper),
        p >= s.len() ==> !word_at_any_case(s2, p, lower, upper),
{
    let n = lower.len() as int;
    if p + n <= s.len() {
        assert forall|i: int| 0 <= i < n implies #[trigger] s2[p + i] == s[p + i] by {}
        if p + n < s.len() {
            assert(s2[p + n] == s[p + n]);
        } else if p + n < s2.len() {
            assert(is_ws(s2[p + n]));
        }
        if word_at_any_case(s, p, lower, upper) {
            assert forall|i: int| 0 <= i < n implies #[trigger] s2[p + i] == lower[i] || s2[p + i]
                == upper[i] by {
                assert(s[p + i] == lower[i] || s[p + i] == upper[i]);
            }
        }
        if word_at_any_case(s2, p, lower, upper) {
            assert forall|i: int| 0 <= i < n implies #[trigger] s[p + i] == lower[i] || s[p + i]
                == upper[i] by {
                assert(s2[p + i] == lower[i] || s2[p + i] == upper[i]);
            }
        }
    } else if p + n <= s2.len() {
        let k = if p >= s.len() {
            0
        } else {
            s.len() - p
        };
        assert(is_ws(s2[p + k]));
        assert(!is_ws(lower[k]) && !is_ws(upper[k]));
        if word_at_any_case(s2, p, lower, upper) {
            assert(s2[p + k] == lower[k] || s2[p + k] == upper[k]);
        }
    }
}

/// The letters of the value words are not whitespace.
proof fn lemma_value_words_not_ws()
    ensures
        forall|i: int| 0 <= i < 4 ==> !is_ws(#[trigger] true_word()[i]) && !is_ws(true_upper()[i]),
        forall|i: int| 0 <= i < 5 ==> !is_ws(#[trigger] false_word()[i]) && !is_ws(false_upper()[i]),
        forall|i: int| 0 <= i < 4 ==> !is_ws(#[trigger] null_word()[i]) && !is_ws(null_upper()[i]),
{
    assert forall|i: int| 0 <= i < 4 implies !is_ws(#[trigger] true_word()[i]) && !is_ws(true_upper()[i]) by {
        if i == 0 {} else if i == 1 {} else if i == 2 {} else {}
    }
    assert forall|i: int| 0 <= i < 5 implies !is_ws(#[trigger] false_word()[i]) && !is_ws(false_upper()[i]) by {
        if i == 0 {} else if i == 1 {} else if i == 2 {} else if i == 3 {} else {}
    }
    assert forall|i: int| 0 <= i < 4 implies !is_ws(#[trigger] null_word()[i]) && !is_ws(null_upper()[i]) by {
        if i == 0 {} else if i == 1 {} else if i == 2 {} else {}
    }
}

proof fn lemma_value_ext(s2: Seq<char>, s: Seq<char>, p: int)
    requires
        ws_extends(s2, s),
        0 <= p,
    ensures
        p <= s.len() ==> parse_value(s2, p) == parse_value(s, p),
        p >= s.len() ==> parse_value(s2, p) is None,
        parse_value(s, p) matches Some((v, q)) ==> p < q <= s.len(),
{
    lemma_string_ext(s2, s, p);
    lemma_number_ext(s2, s, p);
    lemma_value_words_not_ws();
    lemma_word_any_case_ext(s2, s, p, true_word(), true_upper());
    lemma_word_any_case_ext(s2, s, p, false_word(), false_upper());
    lemma_word_any_case_ext(s2, s, p, null_word(), null_upper());
    if p <= s.len() {
        match number_end(s, p) {
            Some(q) => {
                assert(s2.subrange(p, q) =~= s.subrange(p, q));
            },
            None => {},
        }
    }
}

proof fn lemma_restriction_ext(s2: Seq<char>, s: Seq<char>, p: int)
    requires
        ws_extends(s2, s),
        0 <= p <= s2.len(),
    ensures
        p <= s.len() ==> parse_restriction(s2, p) == parse_restriction(s, p),
        p >= s.len() ==> parse_restriction(s2, p) is None,
        parse_restriction(s, p) matches Some((x, q)) ==> p < q <= s.len(),
{
    lemma_member_ext(s2, s, p);
    if p <= s.len() {
        match parse_member(s, p) {
            Some((f, q)) => {
                lemma_skip_ws_ext(s2, s, q);
                let c1 = skip_ws(s, q);
                lemma_comparator_ext(s2, s, c1);
                lemma_comparator_ext(s2, s, skip_ws(s2, q));
                match parse_comparator(s, c1) {
                    Some((c, q2)) => {
                        lemma_skip_ws_ext(s2, s, q2);
                        let v0 = skip_ws(s, q2);
                        lemma_value_ext(s2, s, v0);
                        lemma_value_ext(s2, s, skip_ws(s2, q2));
                    },
                    None => {},
                }
            },
            None => {},
        }
    }
}

proof fn lemma_sequence_rest_ext(s2: Seq<char>, s: Seq<char>, q: int, acc: Seq<Seq<char>>)
    requires
        ws_extends(s2, s),
        0 <= q <= s.len(),
    ensures
        sequence_rest(s2, q, acc) == sequence_rest(s, q, acc),
        q <= sequence_rest(s, q, acc).1 <= s.len(),
    decreases s.len() - q,
{
    lemma_skip_ws_ext(s2, s, q);
    lemma_member_ext(s2, s, skip_ws(s, q));
    lemma_member_ext(s2, s, skip_ws(s2, q));
    match parse_member(s, skip_ws(s, q)) {
        Some((m, q2)) => {
            if q < q2 <= s.len() {
                lemma_sequence_rest_ext(s2, s, q2, acc.push(m));
            }
        },
        None => {},
    }
}

proof fn lemma_sequence_ext(s2: Seq<char>, s: Seq<char>, p: int)
    requires
        ws_extends(s2, s),
        0 <= p <= s2.len(),
    ensures
        p <= s.len() ==> parse_sequence(s2, p) == parse_sequence(s, p),
        p >= s.len() ==> parse_sequence(s2, p) is None,
        parse_sequence(s, p) matches Some((x, q)) ==> p < q <= s.len(),
{
    lemma_member_ext(s2, s, p);
    if p <= s.len() {
        match parse_member(s, p) {
            Some((m, q)) => {
                lemma_sequence_rest_ext(s2, s, q, seq![m]);
            },
            None => {},
        }
    }
}

/// The letters of the keywords are not whitespace.
proof fn lemma_keywords_not_ws()
    ensures
        forall|i: int| 0 <= i < 3 ==> !is_ws(#[trigger] and_word()[i]),
        forall|i: int| 0 <= i < 2 ==> !is_ws(#[trigger] or_word()[i]),
        forall|i: int| 0 <= i < 3 ==> !is_ws(#[trigger] not_word()[i]),
{
    assert forall|i: int| 0 <= i < 3 implies !is_ws(#[trigger] and_word()[i]) by {
        if i == 0 {} else if i == 1 {} else {}
    }
    assert forall|i: int| 0 <= i < 2 implies !is_ws(#[trigger] or_word()[i]) by {
        if i == 0 {} else {}
    }
    assert forall|i: int| 0 <= i < 3 implies !is_ws(#[trigger] not_word()[i]) by {
        if i == 0 {} else if i == 1 {} else {}
    }
}

/// Nothing is read in the tail.
proof fn lemma_tail_reads_nothing(s2: Seq<char>, s: Seq<char>, p: int)
    requires
        ws_extends(s2, s),
        s.len() <= p,
    ensures
        parse_factor(s2, p) is None,
        parse_group(s2, p) is None,
        parse_term(s2, p) is None,
        parse_expression(s2, p) is None,
{
    lemma_keywords_not_ws();
    lemma_word_ext(s2, s, p, not_word());
    if p <= s2.len() {
        lemma_restriction_ext(s2, s, p);
        lemma_sequence_ext(s2, s, p);
    }
    if p < s2.len() {
        assert(is_ws(s2[p]));
    }
    assert(parse_group(s2, p) is None);
    assert(parse_factor(s2, p) is None);
    assert(parse_term(s2, p) is None);
}

proof fn lemma_expression_ext(s2: Seq<char>, s: Seq<char>, p: int)
    requires
        ws_extends(s2, s),
        0 <= p <= s.len(),
    ensures
        parse_expression(s2, p) == parse_expression(s, p),
        parse_expression(s, p) matches Some((e, q)) ==> p <= q <= s.len(),
    decreases s.len() - p, 5int,
{
    lemma_term_ext(s2, s, p);
    match parse_term(s, p) {
        Some((t, q)) => {
            lemma_expression_rest_ext(s2, s, q, t);
        },
        None => {},
    }
}

proof fn lemma_expression_rest_ext(s2: Seq<char>, s: Seq<char>, q: int, acc: ExpressionModel)
    requires
        ws_extends(s2, s),
        0 <= q <= s.len(),
    ensures
        expression_rest(s2, q, acc) == expression_rest(s, q, acc),
        expression_rest(s, q, acc) matches Some((e, q2)) ==> q <= q2 <= s.len(),
    decreases s.len() - q, 4int,
{
    lemma_keywords_not_ws();
    lemma_skip_ws_ext(s2, s, q);
    let r = skip_ws(s, q);
    lemma_word_ext(s2, s, r, or_word());
    lemma_word_ext(s2, s, skip_ws(s2, q), or_word());
    if r < s.len() && word_at(s, r, or_word()) {
        lemma_skip_ws_ext(s2, s, r + 2);
        let r2 = skip_ws(s, r + 2);
        if r2 < s.len() {
            lemma_term_ext(s2, s, r2);
            match parse_term(s, r2) {
                Some((t, q2)) => {
                    lemma_expression_rest_ext(
                        s2,
                        s,
                        q2,
                        ExpressionModel::Or(Box::new(acc), Box::new(t)),
                    );
                },
                None => {},
            }
        } else {
            lemma_tail_reads_nothing(s, s, r2);
            lemma_tail_reads_nothing(s2, s, skip_ws(s2, r + 2));
        }
    }
}

proof fn lemma_term_ext(s2: Seq<char>, s: Seq<char>, p: int)
    requires
        ws_extends(s2, s),
        0 <= p <= s.len(),
    ensures
        parse_term(s2, p) == parse_term(s, p),
        parse_term(s, p) matches Some((e, q)) ==> p <= q <= s.len(),
    decreases s.len() - p, 3int,
{
    lemma_factor_ext(s2, s, p);
    match parse_factor(s, p) {
        Some((f, q)) => {
            lemma_term_rest_ext(s2, s, q, f);
        },
        None => {},
    }
}

proof fn lemma_term_rest_ext(s2: Seq<char>, s: Seq<char>, q: int, acc: ExpressionModel)
    requires
        ws_extends(s2, s),
        0 <= q <= s.len(),
    ensures
        term_rest(s2, q, acc) == term_rest(s, q, acc),
        term_rest(s, q, acc) matches Some((e, q2)) ==> q <= q2 <= s.len(),
    decreases s.len() - q, 2int,
{
    lemma_keywords_not_ws();
    lemma_skip_ws_ext(s2, s, q);
    let r = skip_ws(s, q);
    lemma_word_ext(s2, s, r, and_word());
    lemma_word_ext(s2, s, skip_ws(s2, q), and_word());
    if r < s.len() && word_at(s, r, and_word()) {
        lemma_skip_ws_ext(s2, s, r + 3);
        let r2 = skip_ws(s, r + 3);
        if r2 < s.len() {
            lemma_factor_ext(s2, s, r2);
            match parse_factor(s, r2) {
                Some((f, q2)) => {
                    lemma_term_rest_ext(
                        s2,
                        s,
                        q2,
                        ExpressionModel::And(Box::new(acc), Box::new(f)),
                    );
                },
                None => {},
            }
        } else {
            lemma_tail_reads_nothing(s, s, r2);
            lemma_tail_reads_nothing(s2, s, skip_ws(s2, r + 3));
        }
    }
}

#[verifier::rlimit(80)]
#[verifier::spinoff_prover]
proof fn lemma_factor_ext(s2: Seq<char>, s: Seq<char>, p: int)
    requires
        ws_extends(s2, s),
        0 <= p <= s.len(),
    ensures
        parse_factor(s2, p) == parse_factor(s, p),
        parse_factor(s, p) matches Some((e, q)) ==> p <= q <= s.len(),
    decreases s.len() - p, 1int,
{
    lemma_keywords_not_ws();
    lemma_word_ext(s2, s, p, not_word());
    if word_at(s, p, not_word()) {
        lemma_skip_ws_ext(s2, s, p + 3);
        let r = skip_ws(s, p + 3);
        if r < s.len() {
            lemma_restriction_ext(s2, s, r);
            lemma_group_ext(s2, s, r);
        } else {
            lemma_restriction_ext(s2, s, r);
            lemma_tail_reads_nothing(s, s, r);
            lemma_restriction_ext(s2, s, skip_ws(s2, p + 3));
            lemma_tail_reads_nothing(s2, s, skip_ws(s2, p + 3));
        }
    }
    lemma_restriction_ext(s2, s, p);
    lemma_sequence_ext(s2, s, p);
    lemma_group_ext(s2, s, p);
}

#[verifier::rlimit(80)]
#[verifier::spinoff_prover]
proof fn lemma_group_ext(s2: Seq<char>, s: Seq<char>, p: int)
    requires
        ws_extends(s2, s),
        0 <= p <= s.len(),
    ensures
        parse_group(s2, p) == parse_group(s, p),
        parse_group(s, p) matches Some((e, q)) ==> p < q <= s.len(),
    decreases s.len() - p, 0int,
{
    if p < s.len() {
        assert(s2[p] == s[p]);
        if s[p] == '(' {
            lemma_skip_ws_ext(s2, s, p + 1);
            let r = skip_ws(s, p + 1);
            if r < s.len() {
                lemma_expression_ext(s2, s, r);
                match parse_expression(s, r) {
                    Some((e, q)) => {
                        lemma_skip_ws_ext(s2, s, q);
                        let q1 = skip_ws(s, q);
                        if q1 < s.len() {
                            assert(s2[q1] == s[q1]);
                        }
                    },
                    None => {},
                }
            } else {
                lemma_tail_reads_nothing(s, s, r);
                lemma_tail_reads_nothing(s2, s, skip_ws(s2, p + 1));
            }
        }
    } else if p < s2.len() {
        assert(is_ws(s2[p]));
    }
}

/// Whitespace after a filter text changes nothing: the text with any
/// whitespace appended denotes exactly what the text alone denotes, the
/// same expression where it parses, nothing where it is empty, and an
/// error where it does not follow the grammar.
pub proof fn lemma_trailing_whitespace(s: Seq<char>, w: Seq<char>)
    requires
        forall|i: int| 0 <= i < w.len() ==> is_ws(#[trigger] w[i]),
    ensures
        filter_syntax(s + w) == filter_syntax(s),
{
    let s2 = s + w;
    assert forall|i: int| s.len() <= i < s2.len() implies is_ws(#[trigger] s2[i]) by {
        assert(s2[i] == w[i - s.len()]);
    }
    assert(ws_extends(s2, s));
    lemma_skip_ws_ext(s2, s, 0);
    let p = skip_ws(s, 0);
    if p < s.len() {
        lemma_expression_ext(s2, s, p);
        match parse_expression(s, p) {
            Some((e, q)) => {
                lemma_skip_ws_ext(s2, s, q);
            },
            None => {},
        }
    }
}

} // verus!
