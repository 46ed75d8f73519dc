//! Printing a filter and parsing the text again gives the same filter.

use vstd::prelude::*;

use super::ast::{
    comparator_text, dotted, expression_text, value_text, Comparator, ExpressionModel,
    RestrictionModel, ValueModel,
};
use super::grammar::{
    false_upper, false_word, is_digit_char, is_ident_char, is_ident_start, is_keyword, is_ws,
    member_tail, null_upper, null_word, number_end, parse_comparator, parse_member,
    parse_restriction, parse_string, parse_value, skip_digits, skip_ident_chars, skip_ws,
    string_close, true_upper, true_word, word_at_any_case, and_word, expression_rest,
    filter_syntax, not_word, or_word, parse_expression, parse_factor, parse_group, parse_sequence,
    parse_term, sequence_rest, term_rest, word_at, FilterSyntax,
};

verus! {

/// `t` stands in `s` from position `p`.
pub open spec fn placed(s: Seq<char>, t: Seq<char>, p: int) -> bool {
    0 <= p && p + t.len() <= s.len() && s.subrange(p, p + t.len()) == t
}

/// Position `e` of `s` ends a token: the end of `s`, a space or `)`.
pub open spec fn token_stop(s: Seq<char>, e: int) -> bool {
    e == s.len() || (0 <= e < s.len() && (s[e] == ' ' || s[e] == ')'))
}

pub(crate) proof fn lemma_placed_index(s: Seq<char>, t: Seq<char>, p: int, i: int)
    requires
        placed(s, t, p),
        0 <= i < t.len(),
    ensures
        s[p + i] == t[i],
{
    assert(s.subrange(p, p + t.len())[i] == s[p + i]);
}

pub(crate) proof fn lemma_placed_concat(s: Seq<char>, a: Seq<char>, b: Seq<char>, p: int)
    requires
        placed(s, a + b, p),
    ensures
        placed(s, a, p),
        placed(s, b, p + a.len()),
{
    let w = s.subrange(p, p + (a + b).len());
    assert(w == a + b);
    assert(s.subrange(p, p + a.len()) =~= w.subrange(0, a.len() as int));
    assert(w.subrange(0, a.len() as int) =~= a);
    assert(s.subrange(p + a.len(), p + a.len() + b.len()) =~= w.subrange(
        a.len() as int,
        w.len() as int,
    ));
    assert(w.subrange(a.len() as int, w.len() as int) =~= b);
}

pub(crate) proof fn lemma_skip_ident_range(s: Seq<char>, i: int)
    requires
        0 <= i <= s.len(),
    ensures
        i <= skip_ident_chars(s, i) <= s.len(),
        forall|k: int| i <= k < skip_ident_chars(s, i) ==> is_ident_char(#[trigger] s[k]),
    decreases s.len() - i,
{
    if i < s.len() && is_ident_char(s[i]) {
        lemma_skip_ident_range(s, i + 1);
    }
}

pub(crate) proof fn lemma_skip_digits_range(s: Seq<char>, i: int)
    requires
        0 <= i <= s.len(),
    ensures
        i <= skip_digits(s, i) <= s.len(),
        forall|k: int| i <= k < skip_digits(s, i) ==> is_digit_char(#[trigger] s[k]),
    decreases s.len() - i,
{
    if i < s.len() && is_digit_char(s[i]) {
        lemma_skip_digits_range(s, i + 1);
    }
}

pub(crate) proof fn lemma_member_tail_range(s: Seq<char>, q: int)
    requires
        0 <= q <= s.len(),
    ensures
        q <= member_tail(s, q) <= s.len(),
        forall|k: int| q <= k < member_tail(s, q) ==> is_ident_char(#[trigger] s[k]) || s[k] == '.',
    decreases s.len() - q,
{
    if q + 1 < s.len() && s[q] == '.' && is_ident_start(s[q + 1]) {
        let r = skip_ident_chars(s, q + 2);
        lemma_skip_ident_range(s, q + 2);
        if q < r <= s.len() {
            lemma_member_tail_range(s, r);
        }
    }
}

/// Skipping identifier characters in `s` from inside a placed `t` goes as
/// it goes in `t`, when a token stop follows `t`.
pub(crate) proof fn lemma_skip_ident_local(s: Seq<char>, t: Seq<char>, p: int, i: int)
    requires
        placed(s, t, p),
        token_stop(s, p + t.len()),
        0 <= i <= t.len(),
    ensures
        skip_ident_chars(s, p + i) == p + skip_ident_chars(t, i),
    decreases t.len() - i,
{
    if i < t.len() {
        lemma_placed_index(s, t, p, i);
        if is_ident_char(t[i]) {
            lemma_skip_ident_local(s, t, p, i + 1);
        }
    }
}

pub(crate) proof fn lemma_skip_digits_local(s: Seq<char>, t: Seq<char>, p: int, i: int)
    requires
        placed(s, t, p),
        token_stop(s, p + t.len()),
        0 <= i <= t.len(),
    ensures
        skip_digits(s, p + i) == p + skip_digits(t, i),
    decreases t.len() - i,
{
    if i < t.len() {
        lemma_placed_index(s, t, p, i);
        if is_digit_char(t[i]) {
            lemma_skip_digits_local(s, t, p, i + 1);
        }
    }
}

pub(crate) proof fn lemma_member_tail_local(s: Seq<char>, t: Seq<char>, p: int, q: int)
    requires
        placed(s, t, p),
        token_stop(s, p + t.len()),
        0 <= q <= t.len(),
    ensures
        member_tail(s, p + q) == p + member_tail(t, q),
    decreases t.len() - q,
{
    if q + 1 < t.len() {
        lemma_placed_index(s, t, p, q);
        lemma_placed_index(s, t, p, q + 1);
        if t[q] == '.' && is_ident_start(t[q + 1]) {
            lemma_skip_ident_local(s, t, p, q + 2);
            lemma_skip_ident_range(t, q + 2);
            let r = skip_ident_chars(t, q + 2);
            lemma_member_tail_local(s, t, p, r);
        }
    } else if q + 1 == t.len() {
        lemma_placed_index(s, t, p, q);
    }
}

/// A member written on its own reads back as all of itself.
pub open spec fn valid_member(t: Seq<char>) -> bool {
    parse_member(t, 0) == Some((t, t.len() as int))
}

/// A valid member consists of identifier characters and dots and starts
/// with an identifier start.
proof fn lemma_valid_member_chars(t: Seq<char>)
    requires
        valid_member(t),
    ensures
        t.len() > 0,
        is_ident_start(t[0]),
        forall|k: int| 0 <= k < t.len() ==> is_ident_char(#[trigger] t[k]) || t[k] == '.',
        !is_keyword(t),
{
    lemma_skip_ident_range(t, 1);
    let q0 = skip_ident_chars(t, 1);
    lemma_member_tail_range(t, q0);
    assert(t.subrange(0, t.len() as int) =~= t);
}

/// A valid member placed in `s` and followed by a token stop is read as
/// a member there.
proof fn lemma_member_local(s: Seq<char>, t: Seq<char>, p: int)
    requires
        valid_member(t),
        placed(s, t, p),
        token_stop(s, p + t.len()),
    ensures
        parse_member(s, p) == Some((t, p + t.len())),
{
    lemma_valid_member_chars(t);
    lemma_placed_index(s, t, p, 0);
    lemma_skip_ident_local(s, t, p, 1);
    lemma_skip_ident_range(t, 1);
    lemma_member_tail_local(s, t, p, skip_ident_chars(t, 1));
}

/// A number written on its own reads back as all of itself.
pub open spec fn valid_number(n: Seq<char>) -> bool {
    number_end(n, 0) == Some(n.len() as int)
}

/// A valid number placed in `s` and followed by a token stop is read as a
/// number there.
proof fn lemma_number_local(s: Seq<char>, n: Seq<char>, p: int)
    requires
        valid_number(n),
        placed(s, n, p),
        token_stop(s, p + n.len()),
    ensures
        number_end(s, p) == Some(p + n.len()),
        is_digit_char(n[0]) || n[0] == '-',
{
    let a = if 0 < n.len() && n[0] == '-' {
        1int
    } else {
        0int
    };
    if 0 < n.len() {
        lemma_placed_index(s, n, p, 0);
    }
    lemma_skip_digits_local(s, n, p, a);
    lemma_skip_digits_range(n, a);
    let b = skip_digits(n, a);
    if b + 1 < n.len() {
        lemma_placed_index(s, n, p, b);
        lemma_placed_index(s, n, p, b + 1);
    } else if b + 1 == n.len() {
        lemma_placed_index(s, n, p, b);
    }
    let c = if b + 1 < n.len() && n[b] == '.' && is_digit_char(n[b + 1]) {
        lemma_skip_digits_local(s, n, p, b + 1);
        lemma_skip_digits_range(n, b + 1);
        skip_digits(n, b + 1)
    } else {
        b
    };
    if c < n.len() {
        lemma_placed_index(s, n, p, c);
        if n[c] == 'e' || n[c] == 'E' {
            if c + 1 < n.len() {
                lemma_placed_index(s, n, p, c + 1);
            }
            let e = if c + 1 < n.len() && (n[c + 1] == '+' || n[c + 1] == '-') {
                c + 2
            } else {
                c + 1
            };
            if e <= n.len() {
                lemma_skip_digits_local(s, n, p, e);
                lemma_skip_digits_range(n, e);
            }
        }
    }
}

/// A value that reads back as itself: strings without a double quote and
/// valid numbers; booleans and null always do.
pub open spec fn printable_value(v: ValueModel) -> bool {
    match v {
        ValueModel::Str(s) => !s.contains('"'),
        ValueModel::Number(n) => valid_number(n),
        _ => true,
    }
}

proof fn lemma_string_close(s: Seq<char>, t: Seq<char>, p: int, i: int)
    requires
        placed(s, seq!['"'] + t + seq!['"'], p),
        !t.contains('"'),
        p + 1 <= i <= p + 1 + t.len(),
    ensures
        string_close(s, i, '"') == Some(p + 1 + t.len()),
    decreases p + 1 + t.len() - i,
{
    let w = seq!['"'] + t + seq!['"'];
    lemma_placed_index(s, w, p, i - p);
    if i < p + 1 + t.len() {
        assert(w[i - p] == t[i - p - 1]);
        if s[i] == '"' {
            assert(t.contains('"'));
        }
        lemma_string_close(s, t, p, i + 1);
    }
}

pub(crate) proof fn lemma_ws_step(s: Seq<char>, q: int)
    requires
        0 <= q < s.len(),
        s[q] == ' ',
        q + 1 == s.len() || !is_ws(s[q + 1]),
    ensures
        skip_ws(s, q) == q + 1,
{
    assert(skip_ws(s, q + 1) == q + 1);
}

/// The first character of how a printable value is written.
proof fn lemma_value_first(v: ValueModel)
    requires
        printable_value(v),
    ensures
        value_text(v).len() > 0,
        !is_ws(value_text(v)[0]),
{
    if let ValueModel::Number(n) = v {
        let s = n;
        assert(s.subrange(0, n.len() as int) =~= n);
        lemma_number_local(s, n, 0);
    }
}

/// A printable value, placed in `s` and followed by a token stop, is read
/// back as itself.
proof fn lemma_value_local(s: Seq<char>, v: ValueModel, p: int)
    requires
        printable_value(v),
        placed(s, value_text(v), p),
        token_stop(s, p + value_text(v).len()),
    ensures
        parse_value(s, p) == Some((v, p + value_text(v).len())),
{
    let t = value_text(v);
    lemma_value_first(v);
    lemma_placed_index(s, t, p, 0);
    match v {
        ValueModel::Str(x) => {
            lemma_string_close(s, x, p, p + 1);
            assert(s.subrange(p + 1, p + 1 + x.len()) =~= x) by {
                assert forall|k: int| 0 <= k < x.len() implies s.subrange(p + 1, p + 1 + x.len())[k] == x[k] by {
                    lemma_placed_index(s, t, p, k + 1);
                }
            }
        },
        ValueModel::Number(n) => {
            lemma_number_local(s, n, p);
            assert(s[p] != '"' && s[p] != '\'');
        },
        ValueModel::Boolean(b) => {
            lemma_skip_digits_range(s, p);
            if b {
                assert forall|i: int| 0 <= i < true_word().len() implies #[trigger] s[p + i] == true_word()[i] || s[p + i] == true_upper()[i] by {
                    lemma_placed_index(s, t, p, i);
                }
                assert(word_at_any_case(s, p, true_word(), true_upper()));
            } else {
                assert forall|i: int| 0 <= i < false_word().len() implies #[trigger] s[p + i] == false_word()[i] || s[p + i] == false_upper()[i] by {
                    lemma_placed_index(s, t, p, i);
                }
                assert(word_at_any_case(s, p, false_word(), false_upper()));
                assert(!word_at_any_case(s, p, true_word(), true_upper()));
            }
        },
        ValueModel::Null => {
            lemma_skip_digits_range(s, p);
            assert forall|i: int| 0 <= i < null_word().len() implies #[trigger] s[p + i] == null_word()[i] || s[p + i] == null_upper()[i] by {
                lemma_placed_index(s, t, p, i);
            }
            assert(word_at_any_case(s, p, null_word(), null_upper()));
            assert(!word_at_any_case(s, p, true_word(), true_upper()));
            assert(!word_at_any_case(s, p, false_word(), false_upper()));
        },
    }
}

/// How a restriction is written.
pub open spec fn restriction_text(r: RestrictionModel) -> Seq<char> {
    r.field + seq![' '] + comparator_text(r.comparator) + seq![' '] + value_text(r.value)
}

/// A restriction that reads back as itself.
pub open spec fn printable_restriction(r: RestrictionModel) -> bool {
    valid_member(r.field) && printable_value(r.value)
}

/// A printable restriction, placed in `s` and followed by a token stop, is
/// read back as itself.
proof fn lemma_restriction_local(s: Seq<char>, r: RestrictionModel, p: int)
    requires
        printable_restriction(r),
        placed(s, restriction_text(r), p),
        token_stop(s, p + restriction_text(r).len()),
    ensures
        parse_restriction(s, p) == Some((r, p + restriction_text(r).len())),
{
    let f = r.field;
    let op = comparator_text(r.comparator);
    let vt = value_text(r.value);
    let a1 = f + seq![' '];
    let a2 = a1 + op;
    let a3 = a2 + seq![' '];
    lemma_placed_concat(s, a3, vt, p);
    lemma_placed_concat(s, a2, seq![' '], p);
    lemma_placed_concat(s, a1, op, p);
    lemma_placed_concat(s, f, seq![' '], p);
    let q1 = p + f.len();
    let q2 = q1 + 1;
    let q3 = q2 + op.len();
    let q4 = q3 + 1;
    lemma_placed_index(s, seq![' '], q1, 0);
    lemma_placed_index(s, seq![' '], q3, 0);
    lemma_member_local(s, f, p);
    lemma_placed_index(s, op, q2, 0);
    lemma_ws_step(s, q1);
    if op.len() == 2 {
        lemma_placed_index(s, op, q2, 1);
    }
    assert(parse_comparator(s, q2) == Some((r.comparator, q3)));
    lemma_value_first(r.value);
    lemma_placed_index(s, vt, q4, 0);
    lemma_ws_step(s, q3);
    lemma_value_local(s, r.value, q4);
}

/// An expression that reads back as itself once printed: its restrictions
/// are printable, its sequences have a single valid member, and what `NOT`
/// applies to is a restriction, an `AND` or an `OR`.
pub open spec fn printable(e: ExpressionModel) -> bool
    decreases e,
{
    match e {
        ExpressionModel::And(l, r) => printable(*l) && printable(*r),
        ExpressionModel::Or(l, r) => printable(*l) && printable(*r),
        ExpressionModel::Not(x) => (*x is Restriction || *x is And || *x is Or) && printable(*x),
        ExpressionModel::Restriction(r) => printable_restriction(r),
        ExpressionModel::Sequence(parts) => parts.len() == 1 && valid_member(parts[0]),
    }
}

/// Position `q` of `s` is followed by what may follow a factor in printed
/// text: the end, `)`, ` AND ` or ` OR `.
pub open spec fn factor_follows(s: Seq<char>, q: int) -> bool {
    ||| q == s.len()
    ||| 0 <= q < s.len() && s[q] == ')'
    ||| 0 <= q && q + 5 <= s.len() && s.subrange(q, q + 5) == seq![' ', 'A', 'N', 'D', ' ']
    ||| 0 <= q && q + 4 <= s.len() && s.subrange(q, q + 4) == seq![' ', 'O', 'R', ' ']
}

pub(crate) proof fn lemma_follows_stop(s: Seq<char>, q: int)
    requires
        factor_follows(s, q),
    ensures
        token_stop(s, q),
{
    if 0 <= q && q + 5 <= s.len() && s.subrange(q, q + 5) == seq![' ', 'A', 'N', 'D', ' '] {
        assert(s.subrange(q, q + 5)[0] == s[q]);
    } else if 0 <= q && q + 4 <= s.len() && s.subrange(q, q + 4) == seq![' ', 'O', 'R', ' '] {
        assert(s.subrange(q, q + 4)[0] == s[q]);
    }
}

/// How a printable expression starts.
pub(crate) proof fn lemma_text_first(e: ExpressionModel)
    requires
        printable(e),
    ensures
        expression_text(e).len() > 0,
        is_ident_start(expression_text(e)[0]) || expression_text(e)[0] == '(',
{
    match e {
        ExpressionModel::Restriction(r) => {
            lemma_valid_member_chars(r.field);
        },
        ExpressionModel::Sequence(parts) => {
            lemma_valid_member_chars(parts[0]);
        },
        _ => {},
    }
}

/// `AND` or `OR` followed by a space is not read as a member.
proof fn lemma_keyword_not_member(s: Seq<char>, w: Seq<char>, q: int)
    requires
        w == and_word() || w == or_word(),
        placed(s, w + seq![' '], q),
    ensures
        parse_member(s, q) is None,
{
    let t = w + seq![' '];
    let n = w.len() as int;
    let e = q + n;
    lemma_placed_index(s, t, q, n);
    assert(t[n] == ' ');
    assert(skip_ident_chars(s, e) == e);
    assert(member_tail(s, e) == e);
    if w == and_word() {
        lemma_placed_index(s, t, q, 2);
        lemma_placed_index(s, t, q, 1);
        lemma_placed_index(s, t, q, 0);
        assert(t[2] == 'D' && t[1] == 'N' && t[0] == 'A');
        assert(skip_ident_chars(s, q + 2) == e);
        assert(skip_ident_chars(s, q + 1) == e);
    } else {
        lemma_placed_index(s, t, q, 1);
        lemma_placed_index(s, t, q, 0);
        assert(t[1] == 'R' && t[0] == 'O');
        assert(skip_ident_chars(s, q + 1) == e);
    }
    assert(s.subrange(q, e) =~= w) by {
        assert forall|i: int| 0 <= i < n implies s.subrange(q, e)[i] == w[i] by {
            lemma_placed_index(s, t, q, i);
        }
    }
}

/// Where a valid member placed in `s` and followed by a token stop starts
/// with the word `NOT`, a dot comes right after it.
proof fn lemma_member_not_word(s: Seq<char>, t: Seq<char>, p: int)
    requires
        valid_member(t),
        placed(s, t, p),
        token_stop(s, p + t.len()),
        word_at(s, p, not_word()),
    ensures
        p + 3 < s.len(),
        s[p + 3] == '.',
{
    lemma_valid_member_chars(t);
    if t.len() < 3 {
        assert(s.subrange(p, p + 3)[t.len() as int] == s[p + t.len()]);
    } else if t.len() == 3 {
        assert forall|i: int| 0 <= i < 3 implies t[i] == not_word()[i] by {
            lemma_placed_index(s, t, p, i);
            assert(s.subrange(p, p + 3)[i] == s[p + i]);
        }
        assert(t =~= not_word());
    } else {
        lemma_placed_index(s, t, p, 3);
    }
}

/// The negation branch of a factor fails at a member that is followed by
/// a token stop.
proof fn lemma_no_negation(s: Seq<char>, t: Seq<char>, p: int)
    requires
        valid_member(t),
        placed(s, t, p),
        token_stop(s, p + t.len()),
        word_at(s, p, not_word()),
    ensures
        skip_ws(s, p + 3) == p + 3,
        parse_restriction(s, p + 3) is None,
        parse_group(s, p + 3) is None,
{
    lemma_member_not_word(s, t, p);
}

/// After a factor neither a comparator nor a further member follows.
proof fn lemma_after_factor(s: Seq<char>, q: int)
    requires
        factor_follows(s, q),
    ensures
        parse_comparator(s, skip_ws(s, q)) is None,
        parse_member(s, skip_ws(s, q)) is None,
{
    if 0 <= q < s.len() && s[q] == ')' {
        assert(skip_ws(s, q) == q);
    } else if 0 <= q && q + 5 <= s.len() && s.subrange(q, q + 5) == seq![' ', 'A', 'N', 'D', ' '] {
        assert(s.subrange(q, q + 5)[0] == s[q]);
        assert(s.subrange(q, q + 5)[1] == s[q + 1]);
        lemma_ws_step(s, q);
        assert(s.subrange(q + 1, q + 5) =~= and_word() + seq![' ']);
        lemma_keyword_not_member(s, and_word(), q + 1);
    } else if 0 <= q && q + 4 <= s.len() && s.subrange(q, q + 4) == seq![' ', 'O', 'R', ' '] {
        assert(s.subrange(q, q + 4)[0] == s[q]);
        assert(s.subrange(q, q + 4)[1] == s[q + 1]);
        lemma_ws_step(s, q);
        assert(s.subrange(q + 1, q + 4) =~= or_word() + seq![' ']);
        lemma_keyword_not_member(s, or_word(), q + 1);
    } else {
        assert(q == s.len());
    }
}

/// Where a term or an expression meets the end of the text or `)`, it
/// ends there.
pub(crate) proof fn lemma_rest_stop(s: Seq<char>, q: int, acc: ExpressionModel)
    requires
        q == s.len() || (0 <= q < s.len() && s[q] == ')'),
    ensures
        skip_ws(s, q) == q,
        term_rest(s, q, acc) == Some((acc, q)),
        expression_rest(s, q, acc) == Some((acc, q)),
{
    assert(skip_ws(s, q) == q);
    assert(!word_at(s, q, and_word()));
    assert(!word_at(s, q, or_word()));
}

/// ` AND ` after a term that is followed by a factor: the term goes on.
pub(crate) proof fn lemma_term_rest_and(s: Seq<char>, q: int, acc: ExpressionModel, f: ExpressionModel, q2: int)
    requires
        0 <= q,
        q + 5 < s.len(),
        s.subrange(q, q + 5) == seq![' ', 'A', 'N', 'D', ' '],
        !is_ws(s[q + 5]),
        parse_factor(s, q + 5) == Some((f, q2)),
        q + 5 <= q2 <= s.len(),
    ensures
        term_rest(s, q, acc) == term_rest(s, q2, ExpressionModel::And(Box::new(acc), Box::new(f))),
{
    let w = s.subrange(q, q + 5);
    assert(w[0] == s[q] && w[1] == s[q + 1] && w[2] == s[q + 2]);
    assert(w[3] == s[q + 3] && w[4] == s[q + 4]);
    lemma_ws_step(s, q);
    assert(s.subrange(q + 1, q + 4) =~= and_word());
    assert(word_at(s, q + 1, and_word()));
    lemma_ws_step(s, q + 4);
}

/// ` OR ` after an expression that is followed by a term: the term ends
/// before it and the expression goes on.
pub(crate) proof fn lemma_expression_rest_or(
    s: Seq<char>,
    q: int,
    acc: ExpressionModel,
    t: ExpressionModel,
    q2: int,
)
    requires
        0 <= q,
        q + 4 < s.len(),
        s.subrange(q, q + 4) == seq![' ', 'O', 'R', ' '],
        !is_ws(s[q + 4]),
        parse_term(s, q + 4) == Some((t, q2)),
        q + 4 <= q2 <= s.len(),
    ensures
        term_rest(s, q, acc) == Some((acc, q)),
        expression_rest(s, q, acc) == expression_rest(
            s,
            q2,
            ExpressionModel::Or(Box::new(acc), Box::new(t)),
        ),
{
    let w = s.subrange(q, q + 4);
    assert(w[0] == s[q] && w[1] == s[q + 1] && w[2] == s[q + 2] && w[3] == s[q + 3]);
    lemma_ws_step(s, q);
    assert(s.subrange(q + 1, q + 3) =~= or_word());
    assert(word_at(s, q + 1, or_word()));
    assert(!word_at(s, q + 1, and_word()));
    lemma_ws_step(s, q + 3);
}

/// A printable restriction is read back as a factor.
proof fn lemma_factor_restriction(s: Seq<char>, r: RestrictionModel, p: int)
    requires
        printable_restriction(r),
        placed(s, restriction_text(r), p),
        factor_follows(s, p + restriction_text(r).len()),
    ensures
        parse_factor(s, p) == Some(
            (ExpressionModel::Restriction(r), p + restriction_text(r).len()),
        ),
{
    let f = r.field;
    let op = comparator_text(r.comparator);
    let vt = value_text(r.value);
    lemma_follows_stop(s, p + restriction_text(r).len());
    lemma_placed_concat(s, f + seq![' '] + op + seq![' '], vt, p);
    lemma_placed_concat(s, f + seq![' '] + op, seq![' '], p);
    lemma_placed_concat(s, f + seq![' '], op, p);
    lemma_placed_concat(s, f, seq![' '], p);
    lemma_placed_index(s, seq![' '], p + f.len(), 0);
    lemma_restriction_local(s, r, p);
    if word_at(s, p, not_word()) {
        lemma_no_negation(s, f, p);
    }
}

/// A single valid member is read back as a sequence factor.
proof fn lemma_factor_sequence(s: Seq<char>, parts: Seq<Seq<char>>, p: int)
    requires
        parts.len() == 1,
        valid_member(parts[0]),
        placed(s, parts[0], p),
        factor_follows(s, p + parts[0].len()),
    ensures
        parse_factor(s, p) == Some((ExpressionModel::Sequence(parts), p + parts[0].len())),
{
    let m = parts[0];
    let end = p + m.len();
    lemma_follows_stop(s, end);
    lemma_member_local(s, m, p);
    if word_at(s, p, not_word()) {
        lemma_no_negation(s, m, p);
    }
    lemma_after_factor(s, end);
    assert(parse_restriction(s, p) is None);
    assert(sequence_rest(s, end, seq![m]) == (seq![m], end));
    assert(parts =~= seq![m]);
}

/// A printable expression placed in `s`, followed by what may follow a
/// factor, is read back there as a factor.
pub(crate) proof fn lemma_factor(s: Seq<char>, e: ExpressionModel, p: int)
    requires
        printable(e),
        placed(s, expression_text(e), p),
        factor_follows(s, p + expression_text(e).len()),
    ensures
        parse_factor(s, p) == Some((e, p + expression_text(e).len())),
    decreases e, 3int,
{
    match e {
        ExpressionModel::Restriction(r) => {
            lemma_factor_restriction(s, r, p);
        },
        ExpressionModel::Sequence(parts) => {
            lemma_factor_sequence(s, parts, p);
        },
        ExpressionModel::Not(x) => {
            lemma_factor_not(s, e, p);
        },
        _ => {
            let t = expression_text(e);
            lemma_placed_index(s, t, p, 0);
            assert(!word_at(s, p, not_word()));
            lemma_group(s, e, p);
        },
    }
}

/// `NOT` before a printable restriction or group is read back as a
/// negation.
proof fn lemma_factor_not(s: Seq<char>, e: ExpressionModel, p: int)
    requires
        e is Not,
        printable(e),
        placed(s, expression_text(e), p),
        factor_follows(s, p + expression_text(e).len()),
    ensures
        parse_factor(s, p) == Some((e, p + expression_text(e).len())),
    decreases e, 2int,
{
    if let ExpressionModel::Not(x) = e {
        let tx = expression_text(*x);
        let head = seq!['N', 'O', 'T', ' '];
        assert(expression_text(e) == head + tx);
        lemma_placed_concat(s, head, tx, p);
        assert forall|i: int| 0 <= i < 4 implies s[p + i] == head[i] by {
            lemma_placed_index(s, head, p, i);
        }
        assert(s.subrange(p, p + 3) =~= not_word());
        assert(word_at(s, p, not_word()));
        assert(printable(*x));
        lemma_text_first(*x);
        lemma_placed_index(s, tx, p + 4, 0);
        lemma_ws_step(s, p + 3);
        match *x {
            ExpressionModel::Restriction(xr) => {
                assert(printable_restriction(xr));
                lemma_follows_stop(s, p + expression_text(e).len());
                lemma_restriction_local(s, xr, p + 4);
            },
            _ => {
                assert(parse_member(s, p + 4) is None);
                assert(parse_restriction(s, p + 4) is None);
                lemma_group(s, *x, p + 4);
            },
        }
    }
}

/// A printable `AND` or `OR` placed in `s`, followed by what may follow a
/// factor, is read back there as a parenthesized group.
proof fn lemma_group(s: Seq<char>, e: ExpressionModel, p: int)
    requires
        printable(e),
        e is And || e is Or,
        placed(s, expression_text(e), p),
        factor_follows(s, p + expression_text(e).len()),
    ensures
        parse_group(s, p) == Some((e, p + expression_text(e).len())),
    decreases e, 1int,
{
    match e {
        ExpressionModel::And(l, r) => {
            lemma_group_and(s, e, p);
        },
        _ => {
            lemma_group_or(s, e, p);
        },
    }
}

/// What a group reads when the expression inside it is read.
proof fn lemma_group_close(s: Seq<char>, e: ExpressionModel, p: int, q: int)
    requires
        0 <= p,
        p + 1 < q < s.len(),
        s[p] == '(',
        !is_ws(s[p + 1]),
        s[q] == ')',
        parse_expression(s, p + 1) == Some((e, q)),
    ensures
        parse_group(s, p) == Some((e, q + 1)),
{
    assert(skip_ws(s, p + 1) == p + 1);
    assert(skip_ws(s, q) == q);
}

/// `(l AND r)` is read back as a group.
#[verifier::rlimit(80)]
#[verifier::spinoff_prover]
proof fn lemma_group_and(s: Seq<char>, e: ExpressionModel, p: int)
    requires
        e is And,
        printable(e),
        placed(s, expression_text(e), p),
        factor_follows(s, p + expression_text(e).len()),
    ensures
        parse_group(s, p) == Some((e, p + expression_text(e).len())),
    decreases e, 0int,
{
    if let ExpressionModel::And(l, r) = e {
        let tl = expression_text(*l);
        let tr = expression_text(*r);
        let op = seq![' ', 'A', 'N', 'D', ' '];
        assert(expression_text(e) == seq!['('] + tl + op + tr + seq![')']);
        lemma_placed_concat(s, seq!['('] + tl + op + tr, seq![')'], p);
        lemma_placed_concat(s, seq!['('] + tl + op, tr, p);
        lemma_placed_concat(s, seq!['('] + tl, op, p);
        lemma_placed_concat(s, seq!['('], tl, p);
        let pl = p + 1;
        let ql = pl + tl.len();
        let pr = ql + 5;
        let qr = pr + tr.len();
        lemma_placed_index(s, seq!['('], p, 0);
        lemma_placed_index(s, seq![')'], qr, 0);
        assert(s.subrange(ql, ql + 5) =~= op) by {
            assert forall|i: int| 0 <= i < 5 implies s.subrange(ql, ql + 5)[i] == op[i] by {
                lemma_placed_index(s, op, ql, i);
            }
        }
        lemma_text_first(*l);
        lemma_text_first(*r);
        lemma_placed_index(s, tl, pl, 0);
        lemma_placed_index(s, tr, pr, 0);
        lemma_factor(s, *l, pl);
        lemma_factor(s, *r, pr);
        lemma_term_rest_and(s, ql, *l, *r, qr);
        lemma_rest_stop(s, qr, e);
        assert(parse_term(s, pl) == Some((e, qr)));
        assert(parse_expression(s, pl) == Some((e, qr)));
        lemma_group_close(s, e, p, qr);
    }
}

/// `(l OR r)` is read back as a group.
#[verifier::rlimit(80)]
#[verifier::spinoff_prover]
proof fn lemma_group_or(s: Seq<char>, e: ExpressionModel, p: int)
    requires
        e is Or,
        printable(e),
        placed(s, expression_text(e), p),
        factor_follows(s, p + expression_text(e).len()),
    ensures
        parse_group(s, p) == Some((e, p + expression_text(e).len())),
    decreases e, 0int,
{
    if let ExpressionModel::Or(l, r) = e {
        let tl = expression_text(*l);
        let tr = expression_text(*r);
        let op = seq![' ', 'O', 'R', ' '];
        assert(expression_text(e) == seq!['('] + tl + op + tr + seq![')']);
        lemma_placed_concat(s, seq!['('] + tl + op + tr, seq![')'], p);
        lemma_placed_concat(s, seq!['('] + tl + op, tr, p);
        lemma_placed_concat(s, seq!['('] + tl, op, p);
        lemma_placed_concat(s, seq!['('], tl, p);
        let pl = p + 1;
        let ql = pl + tl.len();
        let pr = ql + 4;
        let qr = pr + tr.len();
        lemma_placed_index(s, seq!['('], p, 0);
        lemma_placed_index(s, seq![')'], qr, 0);
        assert(s.subrange(ql, ql + 4) =~= op) by {
            assert forall|i: int| 0 <= i < 4 implies s.subrange(ql, ql + 4)[i] == op[i] by {
                lemma_placed_index(s, op, ql, i);
            }
        }
        lemma_text_first(*l);
        lemma_text_first(*r);
        lemma_placed_index(s, tl, pl, 0);
        lemma_placed_index(s, tr, pr, 0);
        lemma_factor(s, *l, pl);
        lemma_factor(s, *r, pr);
        lemma_rest_stop(s, qr, *r);
        assert(parse_term(s, pr) == Some((*r, qr)));
        lemma_expression_rest_or(s, ql, *l, *r, qr);
        assert(parse_term(s, pl) == Some((*l, ql)));
        lemma_rest_stop(s, qr, e);
        assert(parse_expression(s, pl) == Some((e, qr)));
        lemma_group_close(s, e, p, qr);
    }
}

/// Printing and parsing again: the text that a printable expression is
/// printed as (by `Expression::to_string`) parses (by `parse_filter`)
/// back to that very expression.
pub proof fn lemma_print_parse_round_trip(e: ExpressionModel)
    requires
        printable(e),
    ensures
        filter_syntax(expression_text(e)) == FilterSyntax::Parsed(e),
{
    let s = expression_text(e);
    assert(s.subrange(0, s.len() as int) =~= s);
    lemma_factor(s, e, 0);
    lemma_text_first(e);
    assert(skip_ws(s, 0) == 0);
    lemma_rest_stop(s, s.len() as int, e);
    assert(parse_term(s, 0) == Some((e, s.len() as int)));
    assert(parse_expression(s, 0) == Some((e, s.len() as int)));
}

/// ` AND ` between two factors.
pub open spec fn and_sep() -> Seq<char> {
    seq![' ', 'A', 'N', 'D', ' ']
}

/// ` OR ` between two factors.
pub open spec fn or_sep() -> Seq<char> {
    seq![' ', 'O', 'R', ' ']
}

/// The text of three printable expressions joined by the separators `o1`
/// and `o2`.
pub open spec fn three_joined(
    e1: ExpressionModel,
    o1: Seq<char>,
    e2: ExpressionModel,
    o2: Seq<char>,
    e3: ExpressionModel,
) -> Seq<char> {
    expression_text(e1) + o1 + expression_text(e2) + o2 + expression_text(e3)
}

/// Where the five texts stand in their concatenation.
pub(crate) proof fn lemma_five_placed(t1: Seq<char>, o1: Seq<char>, t2: Seq<char>, o2: Seq<char>, t3: Seq<char>)
    ensures
        ({
            let s = t1 + o1 + t2 + o2 + t3;
            let q1 = t1.len() as int;
            let p2 = q1 + o1.len();
            let q2 = p2 + t2.len();
            let p3 = q2 + o2.len();
            &&& placed(s, t1, 0)
            &&& placed(s, o1, q1)
            &&& placed(s, t2, p2)
            &&& placed(s, o2, q2)
            &&& placed(s, t3, p3)
            &&& p3 + t3.len() == s.len()
        }),
{
    let s = t1 + o1 + t2 + o2 + t3;
    assert(s.subrange(0, s.len() as int) =~= s);
    lemma_placed_concat(s, t1 + o1 + t2 + o2, t3, 0);
    lemma_placed_concat(s, t1 + o1 + t2, o2, 0);
    lemma_placed_concat(s, t1 + o1, t2, 0);
    lemma_placed_concat(s, t1, o1, 0);
}

/// What may follow a factor: the end of the text, or a separator placed
/// right there.
pub(crate) proof fn lemma_separator_follows(s: Seq<char>, o: Seq<char>, q: int)
    requires
        o == and_sep() || o == or_sep(),
        placed(s, o, q),
    ensures
        factor_follows(s, q),
{
}

/// In three printable expressions joined by ` AND ` or ` OR `, each is read
/// as a factor where it stands, and the text starts without whitespace.
#[verifier::rlimit(80)]
#[verifier::spinoff_prover]
pub(crate) proof fn lemma_three_factors(
    e1: ExpressionModel,
    o1: Seq<char>,
    e2: ExpressionModel,
    o2: Seq<char>,
    e3: ExpressionModel,
)
    requires
        printable(e1),
        printable(e2),
        printable(e3),
        o1 == and_sep() || o1 == or_sep(),
        o2 == and_sep() || o2 == or_sep(),
    ensures
        ({
            let s = three_joined(e1, o1, e2, o2, e3);
            let q1 = expression_text(e1).len() as int;
            let p2 = q1 + o1.len();
            let q2 = p2 + expression_text(e2).len();
            let p3 = q2 + o2.len();
            &&& skip_ws(s, 0) == 0
            &&& parse_factor(s, 0) == Some((e1, q1))
            &&& parse_factor(s, p2) == Some((e2, q2))
            &&& parse_factor(s, p3) == Some((e3, s.len() as int))
            &&& s.subrange(q1, p2) == o1
            &&& s.subrange(q2, p3) == o2
            &&& !is_ws(s[p2])
            &&& !is_ws(s[p3])
            &&& p3 < s.len()
        }),
{
    let s = three_joined(e1, o1, e2, o2, e3);
    let t1 = expression_text(e1);
    let t2 = expression_text(e2);
    let t3 = expression_text(e3);
    let q1 = t1.len() as int;
    let p2 = q1 + o1.len();
    let q2 = p2 + t2.len();
    let p3 = q2 + o2.len();
    lemma_five_placed(t1, o1, t2, o2, t3);
    lemma_separator_follows(s, o1, q1);
    lemma_separator_follows(s, o2, q2);
    lemma_text_first(e1);
    lemma_text_first(e2);
    lemma_text_first(e3);
    lemma_placed_index(s, t1, 0, 0);
    lemma_placed_index(s, t2, p2, 0);
    lemma_placed_index(s, t3, p3, 0);
    assert(skip_ws(s, 0) == 0);
    lemma_factor(s, e1, 0);
    lemma_factor(s, e2, p2);
    lemma_factor(s, e3, p3);
}

} // verus!
