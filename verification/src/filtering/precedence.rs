//! How `AND`, `OR` and `NOT` group: `AND` binds tighter than `OR`, both
//! group from the left, and `NOT` applies to the restriction right after
//! it; for any restriction texts joined by the keywords.

use vstd::prelude::*;

use super::ast::{expression_text, ExpressionModel, RestrictionModel, ValueModel};
use super::grammar::{
    filter_syntax, parse_factor, parse_term, FilterSyntax,
    false_upper, false_word, is_digit_char, is_ident_char, is_ident_start, is_keyword, is_ws,
    member_tail, not_word, null_upper, null_word, number_end, parse_comparator, parse_group,
    parse_member, parse_restriction, parse_string, parse_value, skip_digits, skip_ident_chars,
    skip_ws, string_close, true_upper, true_word, word_at, word_at_any_case,
};
use super::round_trip::{
    and_sep, lemma_five_placed, lemma_separator_follows, lemma_three_factors, printable,
    three_joined, factor_follows, lemma_expression_rest_or, lemma_follows_stop, lemma_placed_concat,
    lemma_rest_stop, lemma_term_rest_and, lemma_ws_step, or_sep, lemma_member_tail_local, lemma_member_tail_range, lemma_placed_index, lemma_skip_digits_local,
    lemma_skip_digits_range, lemma_skip_ident_local, lemma_skip_ident_range, placed, token_stop,
};

verus! {

/// Skipping whitespace in `s` from inside a placed `t` goes as it goes in
/// `t`, where it stops inside `t`.
proof fn lemma_skip_ws_at(s: Seq<char>, t: Seq<char>, p: int, i: int)
    requires
        placed(s, t, p),
        0 <= i <= t.len(),
        skip_ws(t, i) < t.len(),
    ensures
        skip_ws(s, p + i) == p + skip_ws(t, i),
    decreases t.len() - i,
{
    if i < t.len() {
        lemma_placed_index(s, t, p, i);
        if is_ws(t[i]) {
            lemma_skip_ws_at(s, t, p, i + 1);
        }
    }
}

/// A member read in a placed `t` is read the same in `s`.
proof fn lemma_member_at(s: Seq<char>, t: Seq<char>, p: int, m: Seq<char>, q: int)
    requires
        placed(s, t, p),
        token_stop(s, p + t.len()),
        parse_member(t, 0) == Some((m, q)),
    ensures
        parse_member(s, p) == Some((m, p + q)),
{
    lemma_placed_index(s, t, p, 0);
    lemma_skip_ident_local(s, t, p, 1);
    lemma_skip_ident_range(t, 1);
    lemma_member_tail_local(s, t, p, skip_ident_chars(t, 1));
    lemma_member_tail_range(t, skip_ident_chars(t, 1));
    assert(s.subrange(p, p + q) =~= t.subrange(0, q)) by {
        assert forall|k: int| 0 <= k < q implies #[trigger] s.subrange(p, p + q)[k] == t.subrange(0, q)[k] by {
            lemma_placed_index(s, t, p, k);
        }
    }
}

/// A comparator read in a placed `t`, with a character of `t` after its
/// first one, is read the same in `s`.
proof fn lemma_comparator_at(s: Seq<char>, t: Seq<char>, p: int, i: int)
    requires
        placed(s, t, p),
        0 <= i,
        i + 1 < t.len(),
    ensures
        parse_comparator(s, p + i) == match parse_comparator(t, i) {
            Some((c, j)) => Some((c, p + j)),
            None => None,
        },
{
    lemma_placed_index(s, t, p, i);
    lemma_placed_index(s, t, p, i + 1);
}

/// The closing quote found in a placed `t` is found the same in `s`.
proof fn lemma_string_close_at(s: Seq<char>, t: Seq<char>, p: int, i: int, quote: char, e: int)
    requires
        placed(s, t, p),
        0 <= i,
        string_close(t, i, quote) == Some(e),
    ensures
        string_close(s, p + i, quote) == Some(p + e),
        i <= e < t.len(),
    decreases t.len() - i,
{
    if i < t.len() {
        lemma_placed_index(s, t, p, i);
        if t[i] != quote {
            lemma_string_close_at(s, t, p, i + 1, quote, e);
        }
    }
}

/// A number that a placed `t` ends with, followed in `s` by a token stop,
/// is read the same in `s`.
proof fn lemma_number_at(s: Seq<char>, t: Seq<char>, p: int, i: int)
    requires
        placed(s, t, p),
        token_stop(s, p + t.len()),
        0 <= i < t.len(),
        number_end(t, i) == Some(t.len() as int),
    ensures
        number_end(s, p + i) == Some(p + t.len()),
{
    lemma_placed_index(s, t, p, i);
    let a = if t[i] == '-' {
        i + 1
    } else {
        i
    };
    lemma_skip_digits_local(s, t, p, a);
    lemma_skip_digits_range(t, a);
    let b = skip_digits(t, a);
    if b + 1 < t.len() {
        lemma_placed_index(s, t, p, b);
        lemma_placed_index(s, t, p, b + 1);
    } else if b + 1 == t.len() {
        lemma_placed_index(s, t, p, b);
    }
    let c = if b + 1 < t.len() && t[b] == '.' && is_digit_char(t[b + 1]) {
        lemma_skip_digits_local(s, t, p, b + 1);
        lemma_skip_digits_range(t, b + 1);
        skip_digits(t, b + 1)
    } else {
        b
    };
    if c < t.len() {
        lemma_placed_index(s, t, p, c);
        if t[c] == 'e' || t[c] == 'E' {
            if c + 1 < t.len() {
                lemma_placed_index(s, t, p, c + 1);
            }
            let e = if c + 1 < t.len() && (t[c + 1] == '+' || t[c + 1] == '-') {
                c + 2
            } else {
                c + 1
            };
            if e <= t.len() {
                lemma_skip_digits_local(s, t, p, e);
                lemma_skip_digits_range(t, e);
            }
        }
    }
}

/// The value that a placed `t` ends with from position `i`, followed in
/// `s` by a token stop, is read the same in `s`.
#[verifier::rlimit(80)]
#[verifier::spinoff_prover]
proof fn lemma_value_at(s: Seq<char>, t: Seq<char>, p: int, i: int, v: ValueModel)
    requires
        placed(s, t, p),
        token_stop(s, p + t.len()),
        0 <= i,
        parse_value(t, i) == Some((v, t.len() as int)),
    ensures
        parse_value(s, p + i) == Some((v, p + t.len())),
        i < t.len(),
{
    let n = t.len() as int;
    match parse_string(t, i) {
        Some((x, q)) => {
            lemma_placed_index(s, t, p, i);
            let e = q - 1;
            lemma_string_close_at(s, t, p, i + 1, t[i], e);
            assert(s.subrange(p + i + 1, p + e) =~= t.subrange(i + 1, e)) by {
                assert forall|k: int| 0 <= k < e - i - 1 implies #[trigger] s.subrange(p + i + 1, p + e)[k]
                    == t.subrange(i + 1, e)[k] by {
                    lemma_placed_index(s, t, p, i + 1 + k);
                }
            }
        },
        None => {
            if i < n {
                lemma_placed_index(s, t, p, i);
            }
            if t[i] == '"' || t[i] == '\'' {
                assert(number_end(t, i) is None) by {
                    lemma_skip_digits_range(t, i);
                }
                assert(t[i + 0] == t[i]);
                assert(!word_at_any_case(t, i, true_word(), true_upper()));
                assert(!word_at_any_case(t, i, false_word(), false_upper()));
                assert(!word_at_any_case(t, i, null_word(), null_upper()));
                assert(false);
            }
            match number_end(t, i) {
                Some(q) => {
                    lemma_number_at(s, t, p, i);
                    assert(s.subrange(p + i, p + n) =~= t.subrange(i, n)) by {
                        assert forall|k: int| 0 <= k < n - i implies #[trigger] s.subrange(p + i, p + n)[k]
                            == t.subrange(i, n)[k] by {
                            lemma_placed_index(s, t, p, i + k);
                        }
                    }
                },
                None => {
                    lemma_skip_digits_range(s, p + i);
                    lemma_skip_digits_range(t, i);
                    if word_at_any_case(t, i, true_word(), true_upper()) {
                        assert forall|k: int| 0 <= k < 4 implies #[trigger] s[p + i + k]
                            == true_word()[k] || s[p + i + k] == true_upper()[k] by {
                            lemma_placed_index(s, t, p, i + k);
                        }
                        assert(word_at_any_case(s, p + i, true_word(), true_upper()));
                    } else if word_at_any_case(t, i, false_word(), false_upper()) {
                        assert forall|k: int| 0 <= k < 5 implies #[trigger] s[p + i + k]
                            == false_word()[k] || s[p + i + k] == false_upper()[k] by {
                            lemma_placed_index(s, t, p, i + k);
                        }
                        assert(word_at_any_case(s, p + i, false_word(), false_upper()));
                        assert(!word_at_any_case(s, p + i, true_word(), true_upper()));
                    } else {
                        assert(word_at_any_case(t, i, null_word(), null_upper()));
                        assert forall|k: int| 0 <= k < 4 implies #[trigger] s[p + i + k]
                            == null_word()[k] || s[p + i + k] == null_upper()[k] by {
                            lemma_placed_index(s, t, p, i + k);
                        }
                        assert(word_at_any_case(s, p + i, null_word(), null_upper()));
                        assert(!word_at_any_case(s, p + i, true_word(), true_upper()));
                        assert(!word_at_any_case(s, p + i, false_word(), false_upper()));
                    }
                },
            }
        },
    }
}

/// `t` reads wholly as the restriction `x`.
pub open spec fn restriction_text_of(t: Seq<char>, x: RestrictionModel) -> bool {
    parse_restriction(t, 0) == Some((x, t.len() as int))
}

/// A restriction that a placed `t` reads as wholly, followed in `s` by a
/// token stop, is read the same in `s`.
#[verifier::rlimit(80)]
#[verifier::spinoff_prover]
proof fn lemma_restriction_at(s: Seq<char>, t: Seq<char>, p: int, x: RestrictionModel)
    requires
        placed(s, t, p),
        token_stop(s, p + t.len()),
        restriction_text_of(t, x),
    ensures
        parse_restriction(s, p) == Some((x, p + t.len())),
{
    let n = t.len() as int;
    let (f, q) = parse_member(t, 0)->Some_0;
    lemma_member_at(s, t, p, f, q);
    let c1 = skip_ws(t, q);
    let (c, q2) = parse_comparator(t, c1)->Some_0;
    let v0 = skip_ws(t, q2);
    let (v, q3) = parse_value(t, v0)->Some_0;
    lemma_value_at(s, t, p, v0, v);
    assert(q2 <= v0) by {
        lemma_skip_ws_range(t, q2);
    }
    assert(c1 < q2);
    lemma_skip_ws_range(t, q);
    lemma_skip_ws_at(s, t, p, q);
    lemma_comparator_at(s, t, p, c1);
    lemma_skip_ws_at(s, t, p, q2);
}

/// Skipping whitespace moves forward.
proof fn lemma_skip_ws_range(s: Seq<char>, i: int)
    ensures
        i <= skip_ws(s, i),
        0 <= i <= s.len() ==> skip_ws(s, i) <= s.len(),
    decreases s.len() - i,
{
    if 0 <= i < s.len() && is_ws(s[i]) {
        lemma_skip_ws_range(s, i + 1);
    }
}

/// Where a member starts with the word `NOT`, a dot follows the word.
proof fn lemma_member_after_not(s: Seq<char>, p: int)
    requires
        parse_member(s, p) is Some,
        word_at(s, p, not_word()),
    ensures
        p + 3 < s.len(),
        s[p + 3] == '.',
{
    assert(s.subrange(p, p + 3)[1] == s[p + 1]);
    assert(s.subrange(p, p + 3)[2] == s[p + 2]);
    assert(skip_ident_chars(s, p + 3) == p + 3);
    assert(skip_ident_chars(s, p + 2) == p + 3);
    assert(skip_ident_chars(s, p + 1) == p + 3);
    if !(p + 3 < s.len() && s[p + 3] == '.') {
        assert(member_tail(s, p + 3) == p + 3);
        assert(s.subrange(p, p + 3) =~= not_word());
        assert(is_keyword(s.subrange(p, p + 3)));
    }
}

/// A restriction text placed in `s`, followed by what may follow a factor,
/// is read there as a factor.
proof fn lemma_restriction_factor(s: Seq<char>, t: Seq<char>, x: RestrictionModel, p: int)
    requires
        restriction_text_of(t, x),
        placed(s, t, p),
        factor_follows(s, p + t.len()),
    ensures
        parse_factor(s, p) == Some((ExpressionModel::Restriction(x), p + t.len())),
        !is_ws(s[p]),
{
    lemma_follows_stop(s, p + t.len());
    lemma_restriction_at(s, t, p, x);
    lemma_placed_index(s, t, p, 0);
    if word_at(s, p, not_word()) {
        lemma_member_after_not(s, p);
        assert(skip_ws(s, p + 3) == p + 3);
        assert(parse_restriction(s, p + 3) is None);
        assert(parse_group(s, p + 3) is None);
    }
}

/// `NOT ` followed by a restriction text, placed in `s` and followed by
/// what may follow a factor, is read there as the negated restriction.
proof fn lemma_not_restriction_factor(s: Seq<char>, t: Seq<char>, x: RestrictionModel, p: int)
    requires
        restriction_text_of(t, x),
        placed(s, seq!['N', 'O', 'T', ' '] + t, p),
        factor_follows(s, p + 4 + t.len()),
    ensures
        parse_factor(s, p) == Some(
            (
                ExpressionModel::Not(Box::new(ExpressionModel::Restriction(x))),
                p + 4 + t.len(),
            ),
        ),
{
    let head = seq!['N', 'O', 'T', ' '];
    lemma_placed_concat(s, head, t, p);
    assert forall|i: int| 0 <= i < 4 implies s[p + i] == head[i] by {
        lemma_placed_index(s, head, p, i);
    }
    assert(s.subrange(p, p + 3) =~= not_word());
    assert(word_at(s, p, not_word()));
    lemma_follows_stop(s, p + 4 + t.len());
    lemma_restriction_at(s, t, p + 4, x);
    lemma_placed_index(s, t, p + 4, 0);
    lemma_ws_step(s, p + 3);
}

/// Three factors `e1`, `e2`, `e3` stand in `s` one after the other, the
/// first at the start and the last up to the end, with the separator `o1`
/// after the first (which ends at `q1`) and `o2` after the second (which
/// ends at `q2`).
pub open spec fn three_factor_layout(
    s: Seq<char>,
    e1: ExpressionModel,
    o1: Seq<char>,
    e2: ExpressionModel,
    o2: Seq<char>,
    e3: ExpressionModel,
    q1: int,
    q2: int,
) -> bool {
    let p2 = q1 + o1.len();
    let p3 = q2 + o2.len();
    &&& 0 <= q1
    &&& p2 <= q2
    &&& p3 < s.len()
    &&& skip_ws(s, 0) == 0
    &&& parse_factor(s, 0) == Some((e1, q1))
    &&& parse_factor(s, p2) == Some((e2, q2))
    &&& parse_factor(s, p3) == Some((e3, s.len() as int))
    &&& s.subrange(q1, p2) == o1
    &&& s.subrange(q2, p3) == o2
    &&& !is_ws(s[p2])
    &&& !is_ws(s[p3])
}

proof fn lemma_compose_and_or(
    s: Seq<char>,
    e1: ExpressionModel,
    e2: ExpressionModel,
    e3: ExpressionModel,
    q1: int,
    q2: int,
)
    requires
        three_factor_layout(s, e1, and_sep(), e2, or_sep(), e3, q1, q2),
    ensures
        filter_syntax(s) == FilterSyntax::Parsed(
            ExpressionModel::Or(
                Box::new(ExpressionModel::And(Box::new(e1), Box::new(e2))),
                Box::new(e3),
            ),
        ),
{
    let n = s.len() as int;
    let a = ExpressionModel::And(Box::new(e1), Box::new(e2));
    lemma_term_rest_and(s, q1, e1, e2, q2);
    lemma_rest_stop(s, n, e3);
    assert(parse_term(s, q2 + 4) == Some((e3, n)));
    lemma_expression_rest_or(s, q2, a, e3, n);
    lemma_rest_stop(s, n, ExpressionModel::Or(Box::new(a), Box::new(e3)));
    assert(parse_term(s, 0) == Some((a, q2)));
}

proof fn lemma_compose_or_and(
    s: Seq<char>,
    e1: ExpressionModel,
    e2: ExpressionModel,
    e3: ExpressionModel,
    q1: int,
    q2: int,
)
    requires
        three_factor_layout(s, e1, or_sep(), e2, and_sep(), e3, q1, q2),
    ensures
        filter_syntax(s) == FilterSyntax::Parsed(
            ExpressionModel::Or(
                Box::new(e1),
                Box::new(ExpressionModel::And(Box::new(e2), Box::new(e3))),
            ),
        ),
{
    let n = s.len() as int;
    let a = ExpressionModel::And(Box::new(e2), Box::new(e3));
    lemma_term_rest_and(s, q2, e2, e3, n);
    lemma_rest_stop(s, n, a);
    assert(parse_term(s, q1 + 4) == Some((a, n)));
    lemma_expression_rest_or(s, q1, e1, a, n);
    lemma_rest_stop(s, n, ExpressionModel::Or(Box::new(e1), Box::new(a)));
    assert(parse_term(s, 0) == Some((e1, q1)));
}

proof fn lemma_compose_and_and(
    s: Seq<char>,
    e1: ExpressionModel,
    e2: ExpressionModel,
    e3: ExpressionModel,
    q1: int,
    q2: int,
)
    requires
        three_factor_layout(s, e1, and_sep(), e2, and_sep(), e3, q1, q2),
    ensures
        filter_syntax(s) == FilterSyntax::Parsed(
            ExpressionModel::And(
                Box::new(ExpressionModel::And(Box::new(e1), Box::new(e2))),
                Box::new(e3),
            ),
        ),
{
    let n = s.len() as int;
    let a = ExpressionModel::And(Box::new(e1), Box::new(e2));
    let b = ExpressionModel::And(Box::new(a), Box::new(e3));
    lemma_term_rest_and(s, q1, e1, e2, q2);
    lemma_term_rest_and(s, q2, a, e3, n);
    lemma_rest_stop(s, n, b);
    assert(parse_term(s, 0) == Some((b, n)));
}

proof fn lemma_compose_or_or(
    s: Seq<char>,
    e1: ExpressionModel,
    e2: ExpressionModel,
    e3: ExpressionModel,
    q1: int,
    q2: int,
)
    requires
        three_factor_layout(s, e1, or_sep(), e2, or_sep(), e3, q1, q2),
    ensures
        filter_syntax(s) == FilterSyntax::Parsed(
            ExpressionModel::Or(
                Box::new(ExpressionModel::Or(Box::new(e1), Box::new(e2))),
                Box::new(e3),
            ),
        ),
{
    let n = s.len() as int;
    let a = ExpressionModel::Or(Box::new(e1), Box::new(e2));
    let b = ExpressionModel::Or(Box::new(a), Box::new(e3));
    lemma_rest_stop(s, n, e3);
    assert(parse_term(s, q2 + 4) == Some((e3, n)));
    lemma_expression_rest_or(s, q2, e2, e3, n);
    assert(parse_term(s, q1 + 4) == Some((e2, q2)));
    lemma_expression_rest_or(s, q1, e1, e2, q2);
    lemma_expression_rest_or(s, q2, a, e3, n);
    lemma_rest_stop(s, n, b);
    assert(parse_term(s, 0) == Some((e1, q1)));
}

/// Three restriction texts joined by the separators `o1` and `o2`.
pub open spec fn restrictions_joined(
    t1: Seq<char>,
    o1: Seq<char>,
    t2: Seq<char>,
    o2: Seq<char>,
    t3: Seq<char>,
) -> Seq<char> {
    t1 + o1 + t2 + o2 + t3
}

/// Three restriction texts joined by ` AND ` or ` OR ` stand as factors
/// one after the other.
#[verifier::rlimit(80)]
#[verifier::spinoff_prover]
proof fn lemma_three_restrictions(
    t1: Seq<char>,
    o1: Seq<char>,
    t2: Seq<char>,
    o2: Seq<char>,
    t3: Seq<char>,
    x1: RestrictionModel,
    x2: RestrictionModel,
    x3: RestrictionModel,
)
    requires
        restriction_text_of(t1, x1),
        restriction_text_of(t2, x2),
        restriction_text_of(t3, x3),
        o1 == and_sep() || o1 == or_sep(),
        o2 == and_sep() || o2 == or_sep(),
    ensures
        three_factor_layout(
            restrictions_joined(t1, o1, t2, o2, t3),
            ExpressionModel::Restriction(x1),
            o1,
            ExpressionModel::Restriction(x2),
            o2,
            ExpressionModel::Restriction(x3),
            t1.len() as int,
            (t1.len() + o1.len() + t2.len()) as int,
        ),
{
    let s = restrictions_joined(t1, o1, t2, o2, t3);
    let q1 = t1.len() as int;
    let p2 = q1 + o1.len();
    let q2 = p2 + t2.len();
    let p3 = q2 + o2.len();
    lemma_five_placed(t1, o1, t2, o2, t3);
    lemma_separator_follows(s, o1, q1);
    lemma_separator_follows(s, o2, q2);
    lemma_restriction_factor(s, t1, x1, 0);
    lemma_restriction_factor(s, t2, x2, p2);
    lemma_restriction_factor(s, t3, x3, p3);
    lemma_placed_index(s, t1, 0, 0);
    lemma_placed_index(s, t2, p2, 0);
    assert(skip_ws(s, 0) == 0);
}

/// `AND` binds tighter than `OR`: `a AND b OR c` reads as `(a AND b) OR c`, for any restriction texts `a`, `b`, `c`.
pub proof fn lemma_and_before_or(
    t1: Seq<char>,
    t2: Seq<char>,
    t3: Seq<char>,
    x1: RestrictionModel,
    x2: RestrictionModel,
    x3: RestrictionModel,
)
    requires
        restriction_text_of(t1, x1),
        restriction_text_of(t2, x2),
        restriction_text_of(t3, x3),
    ensures
        filter_syntax(restrictions_joined(t1, and_sep(), t2, or_sep(), t3)) == FilterSyntax::Parsed(
            ExpressionModel::Or(
                Box::new(ExpressionModel::And(Box::new(ExpressionModel::Restriction(x1)), Box::new(ExpressionModel::Restriction(x2)))),
                Box::new(ExpressionModel::Restriction(x3)),
            ),
        ),
{
    lemma_three_restrictions(t1, and_sep(), t2, or_sep(), t3, x1, x2, x3);
    lemma_compose_and_or(
        restrictions_joined(t1, and_sep(), t2, or_sep(), t3),
        ExpressionModel::Restriction(x1),
        ExpressionModel::Restriction(x2),
        ExpressionModel::Restriction(x3),
        t1.len() as int,
        (t1.len() + and_sep().len() + t2.len()) as int,
    );
}

/// `AND` binds tighter than `OR` on the right too: `a OR b AND c` reads as
/// `a OR (b AND c)`, for any restriction texts `a`, `b`, `c`.
pub proof fn lemma_or_before_and(
    t1: Seq<char>,
    t2: Seq<char>,
    t3: Seq<char>,
    x1: RestrictionModel,
    x2: RestrictionModel,
    x3: RestrictionModel,
)
    requires
        restriction_text_of(t1, x1),
        restriction_text_of(t2, x2),
        restriction_text_of(t3, x3),
    ensures
        filter_syntax(restrictions_joined(t1, or_sep(), t2, and_sep(), t3)) == FilterSyntax::Parsed(
            ExpressionModel::Or(
                Box::new(ExpressionModel::Restriction(x1)),
                Box::new(ExpressionModel::And(Box::new(ExpressionModel::Restriction(x2)), Box::new(ExpressionModel::Restriction(x3)))),
            ),
        ),
{
    lemma_three_restrictions(t1, or_sep(), t2, and_sep(), t3, x1, x2, x3);
    lemma_compose_or_and(
        restrictions_joined(t1, or_sep(), t2, and_sep(), t3),
        ExpressionModel::Restriction(x1),
        ExpressionModel::Restriction(x2),
        ExpressionModel::Restriction(x3),
        t1.len() as int,
        (t1.len() + or_sep().len() + t2.len()) as int,
    );
}

/// `AND` groups from the left: `a AND b AND c` reads as `(a AND b) AND c`, for any restriction texts `a`, `b`, `c`.
pub proof fn lemma_and_groups_left(
    t1: Seq<char>,
    t2: Seq<char>,
    t3: Seq<char>,
    x1: RestrictionModel,
    x2: RestrictionModel,
    x3: RestrictionModel,
)
    requires
        restriction_text_of(t1, x1),
        restriction_text_of(t2, x2),
        restriction_text_of(t3, x3),
    ensures
        filter_syntax(restrictions_joined(t1, and_sep(), t2, and_sep(), t3)) == FilterSyntax::Parsed(
            ExpressionModel::And(
                Box::new(ExpressionModel::And(Box::new(ExpressionModel::Restriction(x1)), Box::new(ExpressionModel::Restriction(x2)))),
                Box::new(ExpressionModel::Restriction(x3)),
            ),
        ),
{
    lemma_three_restrictions(t1, and_sep(), t2, and_sep(), t3, x1, x2, x3);
    lemma_compose_and_and(
        restrictions_joined(t1, and_sep(), t2, and_sep(), t3),
        ExpressionModel::Restriction(x1),
        ExpressionModel::Restriction(x2),
        ExpressionModel::Restriction(x3),
        t1.len() as int,
        (t1.len() + and_sep().len() + t2.len()) as int,
    );
}

/// `OR` groups from the left: `a OR b OR c` reads as `(a OR b) OR c`, for any restriction texts `a`, `b`, `c`.
pub proof fn lemma_or_groups_left(
    t1: Seq<char>,
    t2: Seq<char>,
    t3: Seq<char>,
    x1: RestrictionModel,
    x2: RestrictionModel,
    x3: RestrictionModel,
)
    requires
        restriction_text_of(t1, x1),
        restriction_text_of(t2, x2),
        restriction_text_of(t3, x3),
    ensures
        filter_syntax(restrictions_joined(t1, or_sep(), t2, or_sep(), t3)) == FilterSyntax::Parsed(
            ExpressionModel::Or(
                Box::new(ExpressionModel::Or(Box::new(ExpressionModel::Restriction(x1)), Box::new(ExpressionModel::Restriction(x2)))),
                Box::new(ExpressionModel::Restriction(x3)),
            ),
        ),
{
    lemma_three_restrictions(t1, or_sep(), t2, or_sep(), t3, x1, x2, x3);
    lemma_compose_or_or(
        restrictions_joined(t1, or_sep(), t2, or_sep(), t3),
        ExpressionModel::Restriction(x1),
        ExpressionModel::Restriction(x2),
        ExpressionModel::Restriction(x3),
        t1.len() as int,
        (t1.len() + or_sep().len() + t2.len()) as int,
    );
}

/// `AND` binds tighter than `OR`: `a AND b OR c` reads as `(a AND b) OR c`, for any printable expressions as printed.
pub proof fn lemma_and_before_or_printed(e1: ExpressionModel, e2: ExpressionModel, e3: ExpressionModel)
    requires
        printable(e1),
        printable(e2),
        printable(e3),
    ensures
        filter_syntax(three_joined(e1, and_sep(), e2, or_sep(), e3)) == FilterSyntax::Parsed(
            ExpressionModel::Or(
                Box::new(ExpressionModel::And(Box::new(e1), Box::new(e2))),
                Box::new(e3),
            ),
        ),
{
    lemma_three_factors(e1, and_sep(), e2, or_sep(), e3);
    lemma_compose_and_or(
        three_joined(e1, and_sep(), e2, or_sep(), e3),
        e1,
        e2,
        e3,
        expression_text(e1).len() as int,
        (expression_text(e1).len() + and_sep().len() + expression_text(e2).len()) as int,
    );
}

/// `AND` binds tighter than `OR` on the right too: `a OR b AND c` reads as
/// `a OR (b AND c)`, for any printable expressions as printed.
pub proof fn lemma_or_before_and_printed(e1: ExpressionModel, e2: ExpressionModel, e3: ExpressionModel)
    requires
        printable(e1),
        printable(e2),
        printable(e3),
    ensures
        filter_syntax(three_joined(e1, or_sep(), e2, and_sep(), e3)) == FilterSyntax::Parsed(
            ExpressionModel::Or(
                Box::new(e1),
                Box::new(ExpressionModel::And(Box::new(e2), Box::new(e3))),
            ),
        ),
{
    lemma_three_factors(e1, or_sep(), e2, and_sep(), e3);
    lemma_compose_or_and(
        three_joined(e1, or_sep(), e2, and_sep(), e3),
        e1,
        e2,
        e3,
        expression_text(e1).len() as int,
        (expression_text(e1).len() + or_sep().len() + expression_text(e2).len()) as int,
    );
}

/// `AND` groups from the left: `a AND b AND c` reads as `(a AND b) AND c`, for any printable expressions as printed.
pub proof fn lemma_and_groups_left_printed(e1: ExpressionModel, e2: ExpressionModel, e3: ExpressionModel)
    requires
        printable(e1),
        printable(e2),
        printable(e3),
    ensures
        filter_syntax(three_joined(e1, and_sep(), e2, and_sep(), e3)) == FilterSyntax::Parsed(
            ExpressionModel::And(
                Box::new(ExpressionModel::And(Box::new(e1), Box::new(e2))),
                Box::new(e3),
            ),
        ),
{
    lemma_three_factors(e1, and_sep(), e2, and_sep(), e3);
    lemma_compose_and_and(
        three_joined(e1, and_sep(), e2, and_sep(), e3),
        e1,
        e2,
        e3,
        expression_text(e1).len() as int,
        (expression_text(e1).len() + and_sep().len() + expression_text(e2).len()) as int,
    );
}

/// `OR` groups from the left: `a OR b OR c` reads as `(a OR b) OR c`, for any printable expressions as printed.
pub proof fn lemma_or_groups_left_printed(e1: ExpressionModel, e2: ExpressionModel, e3: ExpressionModel)
    requires
        printable(e1),
        printable(e2),
        printable(e3),
    ensures
        filter_syntax(three_joined(e1, or_sep(), e2, or_sep(), e3)) == FilterSyntax::Parsed(
            ExpressionModel::Or(
                Box::new(ExpressionModel::Or(Box::new(e1), Box::new(e2))),
                Box::new(e3),
            ),
        ),
{
    lemma_three_factors(e1, or_sep(), e2, or_sep(), e3);
    lemma_compose_or_or(
        three_joined(e1, or_sep(), e2, or_sep(), e3),
        e1,
        e2,
        e3,
        expression_text(e1).len() as int,
        (expression_text(e1).len() + or_sep().len() + expression_text(e2).len()) as int,
    );
}

/// Where the four texts stand in their concatenation.
proof fn lemma_four_placed(a: Seq<char>, b: Seq<char>, c: Seq<char>, d: Seq<char>)
    ensures
        ({
            let s = a + b + c + d;
            &&& placed(s, a + b, 0)
            &&& placed(s, c, (a.len() + b.len()) as int)
            &&& placed(s, d, (a.len() + b.len() + c.len()) as int)
            &&& a.len() + b.len() + c.len() + d.len() == s.len()
        }),
{
    let s = a + b + c + d;
    assert(s.subrange(0, s.len() as int) =~= s);
    lemma_placed_concat(s, a + b + c, d, 0);
    lemma_placed_concat(s, a + b, c, 0);
}

/// In `NOT a AND b`, `NOT a` and `b` stand as factors one after the other.
#[verifier::rlimit(80)]
#[verifier::spinoff_prover]
proof fn lemma_not_and_factors(t1: Seq<char>, t2: Seq<char>, x1: RestrictionModel, x2: RestrictionModel)
    requires
        restriction_text_of(t1, x1),
        restriction_text_of(t2, x2),
    ensures
        ({
            let s = seq!['N', 'O', 'T', ' '] + t1 + and_sep() + t2;
            let q1 = 4 + t1.len() as int;
            &&& skip_ws(s, 0) == 0
            &&& parse_factor(s, 0) == Some(
                (ExpressionModel::Not(Box::new(ExpressionModel::Restriction(x1))), q1),
            )
            &&& s.subrange(q1, q1 + 5) == and_sep()
            &&& q1 + 5 < s.len()
            &&& !is_ws(s[q1 + 5])
            &&& parse_factor(s, q1 + 5) == Some(
                (ExpressionModel::Restriction(x2), s.len() as int),
            )
        }),
{
    let head = seq!['N', 'O', 'T', ' '];
    let s = head + t1 + and_sep() + t2;
    let q1 = 4 + t1.len() as int;
    lemma_four_placed(head, t1, and_sep(), t2);
    lemma_separator_follows(s, and_sep(), q1);
    lemma_not_restriction_factor(s, t1, x1, 0);
    lemma_restriction_factor(s, t2, x2, q1 + 5);
    lemma_placed_index(s, head + t1, 0, 0);
    assert(skip_ws(s, 0) == 0);
}

/// `NOT` applies to the restriction right after it: `NOT a AND b` reads
/// as `(NOT a) AND b`, for any restriction texts `a`, `b`.
pub proof fn lemma_not_before_and(
    t1: Seq<char>,
    t2: Seq<char>,
    x1: RestrictionModel,
    x2: RestrictionModel,
)
    requires
        restriction_text_of(t1, x1),
        restriction_text_of(t2, x2),
    ensures
        filter_syntax(seq!['N', 'O', 'T', ' '] + t1 + and_sep() + t2) == FilterSyntax::Parsed(
            ExpressionModel::And(
                Box::new(ExpressionModel::Not(Box::new(ExpressionModel::Restriction(x1)))),
                Box::new(ExpressionModel::Restriction(x2)),
            ),
        ),
{
    let s = seq!['N', 'O', 'T', ' '] + t1 + and_sep() + t2;
    let n = s.len() as int;
    let q1 = 4 + t1.len() as int;
    let a = ExpressionModel::Not(Box::new(ExpressionModel::Restriction(x1)));
    let b = ExpressionModel::And(Box::new(a), Box::new(ExpressionModel::Restriction(x2)));
    lemma_not_and_factors(t1, t2, x1, x2);
    lemma_term_rest_and(s, q1, a, ExpressionModel::Restriction(x2), n);
    lemma_rest_stop(s, n, b);
    assert(parse_term(s, 0) == Some((b, n)));
}

} // verus!
