//! Parser for AIP-160 filter expressions.

use vstd::prelude::*;

use super::ast::{Comparator, Expression, ExpressionModel, Filter, Restriction, Sequence, Value};
use super::error::FilterError;
use super::grammar::{
    is_ident_start, is_ident_char, skip_ws, skip_ident_chars, skip_digits, member_tail, and_word, or_word, not_word, is_keyword, parse_member, word_at, true_upper, false_upper, null_upper, word_at_any_case, parse_comparator, string_close, parse_string, number_end, true_word, false_word, null_word, parse_value, parse_restriction, sequence_rest, parse_sequence, parse_expression, expression_rest, parse_term, term_rest, parse_factor, parse_group, filter_syntax, FilterSyntax,
};
use crate::text::{chars_of, string_from_chars};

verus! {

/// How a parse result corresponds to what the grammar gives.
pub open spec fn agrees<T: View>(r: Option<(T, usize)>, m: Option<(T::V, int)>) -> bool {
    match r {
        Some((x, q)) => m == Some((x@, q as int)),
        None => m is None,
    }
}

fn skip_ws_at(s: &Vec<char>, p: usize) -> (r: usize)
    requires
        p <= s@.len(),
    ensures
        r == skip_ws(s@, p as int),
        p <= r <= s@.len(),
{
    let mut i = p;
    while i < s.len() && (s[i] == ' ' || s[i] == '\t' || s[i] == '\n' || s[i] == '\r')
        invariant
            p <= i <= s@.len(),
            skip_ws(s@, i as int) == skip_ws(s@, p as int),
        decreases s.len() - i,
    {
        i = i + 1;
    }
    i
}

fn skip_ident_chars_at(s: &Vec<char>, p: usize) -> (r: usize)
    requires
        p <= s@.len(),
    ensures
        r == skip_ident_chars(s@, p as int),
        p <= r <= s@.len(),
{
    let mut i = p;
    while i < s.len() && is_ident_char_exec(s[i])
        invariant
            p <= i <= s@.len(),
            skip_ident_chars(s@, i as int) == skip_ident_chars(s@, p as int),
        decreases s.len() - i,
    {
        i = i + 1;
    }
    i
}

fn skip_digits_at(s: &Vec<char>, p: usize) -> (r: usize)
    requires
        p <= s@.len(),
    ensures
        r == skip_digits(s@, p as int),
        p <= r <= s@.len(),
{
    let mut i = p;
    while i < s.len() && '0' <= s[i] && s[i] <= '9'
        invariant
            p <= i <= s@.len(),
            skip_digits(s@, i as int) == skip_digits(s@, p as int),
        decreases s.len() - i,
    {
        i = i + 1;
    }
    i
}

fn is_ident_start_exec(c: char) -> (r: bool)
    ensures
        r == is_ident_start(c),
{
    ('a' <= c && c <= 'z') || ('A' <= c && c <= 'Z') || c == '_'
}

fn is_ident_char_exec(c: char) -> (r: bool)
    ensures
        r == is_ident_char(c),
{
    ('a' <= c && c <= 'z') || ('A' <= c && c <= 'Z') || ('0' <= c && c <= '9') || c == '_'
}

fn member_tail_at(s: &Vec<char>, q: usize) -> (r: usize)
    requires
        q <= s@.len(),
    ensures
        r == member_tail(s@, q as int),
        q <= r <= s@.len(),
{
    let mut i = q;
    loop
        invariant
            q <= i <= s@.len(),
            member_tail(s@, i as int) == member_tail(s@, q as int),
        decreases s.len() - i,
    {
        if i < s.len() && s.len() - i > 1 && s[i] == '.' && is_ident_start_exec(s[i + 1]) {
            let r = skip_ident_chars_at(s, i + 2);
            if i < r && r <= s.len() {
                i = r;
            } else {
                return i;
            }
        } else {
            return i;
        }
    }
}

/// Tells whether `s[p..q]` is a keyword.
fn is_keyword_at(s: &Vec<char>, p: usize, q: usize) -> (r: bool)
    requires
        p <= q <= s@.len(),
    ensures
        r == is_keyword(s@.subrange(p as int, q as int)),
{
    let ghost t = s@.subrange(p as int, q as int);
    let n = q - p;
    let is_and = n == 3 && s[p] == 'A' && s[p + 1] == 'N' && s[p + 2] == 'D';
    let is_or = n == 2 && s[p] == 'O' && s[p + 1] == 'R';
    let is_not = n == 3 && s[p] == 'N' && s[p + 1] == 'O' && s[p + 2] == 'T';
    proof {
        assert(t.len() == n);
        assert(forall|k: int| 0 <= k < n ==> #[trigger] t[k] == s@[p + k]);
        if is_and {
            assert(t =~= and_word());
        } else if t == and_word() {
            assert(t[0] == 'A' && t[1] == 'N' && t[2] == 'D');
        }
        if is_or {
            assert(t =~= or_word());
        } else if t == or_word() {
            assert(t[0] == 'O' && t[1] == 'R');
        }
        if is_not {
            assert(t =~= not_word());
        } else if t == not_word() {
            assert(t[0] == 'N' && t[1] == 'O' && t[2] == 'T');
        }
    }
    let r = is_and || is_or || is_not;
    r
}

fn parse_member_at(s: &Vec<char>, p: usize) -> (r: Option<(String, usize)>)
    requires
        p <= s@.len(),
    ensures
        match r {
            Some((t, q)) => parse_member(s@, p as int) == Some((t@, q as int)) && p < q <= s@.len(),
            None => parse_member(s@, p as int) is None,
        },
{
    if p < s.len() && is_ident_start_exec(s[p]) {
        let q = member_tail_at(s, skip_ident_chars_at(s, p + 1));
        if p < q && q <= s.len() && !is_keyword_at(s, p, q) {
            Some((string_from_chars(s, p, q), q))
        } else {
            None
        }
    } else {
        None
    }
}

/// Tells whether the word `w` is at `p`, with no identifier character
/// right after it.
fn word_at_exec(s: &Vec<char>, p: usize, w: &Vec<char>) -> (r: bool)
    requires
        p <= s@.len(),
    ensures
        r == word_at(s@, p as int, w@),
        r ==> p + w@.len() <= s@.len(),
{
    if w.len() > s.len() - p {
        return false;
    }
    let end = p + w.len();
    let mut i: usize = 0;
    while i < w.len()
        invariant
            p + w@.len() <= s@.len(),
            end == p + w@.len(),
            0 <= i <= w@.len(),
            forall|j: int| 0 <= j < i ==> s@[p + j] == w@[j],
        decreases w.len() - i,
    {
        if s[p + i] != w[i] {
            proof {
                assert(s@.subrange(p as int, end as int)[i as int] != w@[i as int]);
            }
            return false;
        }
        i = i + 1;
    }
    assert(s@.subrange(p as int, end as int) =~= w@);
    end == s.len() || !is_ident_char_exec(s[end])
}

/// Tells whether the word spelled `lower` in lowercase and `upper` in
/// uppercase is at `p`, each letter in either case, with no identifier
/// character right after it.
fn word_at_any_case_exec(s: &Vec<char>, p: usize, lower: &Vec<char>, upper: &Vec<char>) -> (r: bool)
    requires
        p <= s@.len(),
        lower@.len() == upper@.len(),
    ensures
        r == word_at_any_case(s@, p as int, lower@, upper@),
        r ==> p + lower@.len() <= s@.len(),
{
    if lower.len() > s.len() - p {
        return false;
    }
    let end = p + lower.len();
    let mut i: usize = 0;
    while i < lower.len()
        invariant
            p + lower@.len() <= s@.len(),
            lower@.len() == upper@.len(),
            end == p + lower@.len(),
            0 <= i <= lower@.len(),
            forall|j: int| 0 <= j < i ==> #[trigger] s@[p + j] == lower@[j] || s@[p + j] == upper@[j],
        decreases lower.len() - i,
    {
        let c = s[p + i];
        if !(c == lower[i] || c == upper[i]) {
            return false;
        }
        i = i + 1;
    }
    end == s.len() || !is_ident_char_exec(s[end])
}

fn parse_comparator_at(s: &Vec<char>, p: usize) -> (r: Option<(Comparator, usize)>)
    requires
        p <= s@.len(),
    ensures
        match r {
            Some((c, q)) => parse_comparator(s@, p as int) == Some((c, q as int)) && p < q <= s@.len(),
            None => parse_comparator(s@, p as int) is None,
        },
{
    let n = s.len();
    if n - p > 1 && s[p] == '<' && s[p + 1] == '=' {
        Some((Comparator::LessThanOrEqual, p + 2))
    } else if n - p > 1 && s[p] == '>' && s[p + 1] == '=' {
        Some((Comparator::GreaterThanOrEqual, p + 2))
    } else if n - p > 1 && s[p] == '!' && s[p + 1] == '=' {
        Some((Comparator::NotEqual, p + 2))
    } else if p < n && s[p] == '<' {
        Some((Comparator::LessThan, p + 1))
    } else if p < n && s[p] == '>' {
        Some((Comparator::GreaterThan, p + 1))
    } else if p < n && s[p] == '=' {
        Some((Comparator::Equal, p + 1))
    } else if p < n && s[p] == ':' {
        Some((Comparator::Has, p + 1))
    } else {
        None
    }
}

fn string_close_at(s: &Vec<char>, i: usize, quote: char) -> (r: Option<usize>)
    requires
        i <= s@.len(),
    ensures
        match r {
            Some(e) => string_close(s@, i as int, quote) == Some(e as int) && i <= e < s@.len(),
            None => string_close(s@, i as int, quote) is None,
        },
{
    let mut j = i;
    while j < s.len()
        invariant
            i <= j <= s@.len(),
            string_close(s@, j as int, quote) == string_close(s@, i as int, quote),
        decreases s.len() - j,
    {
        if s[j] == quote {
            return Some(j);
        }
        j = j + 1;
    }
    None
}

fn parse_string_at(s: &Vec<char>, p: usize) -> (r: Option<(String, usize)>)
    requires
        p <= s@.len(),
    ensures
        match r {
            Some((t, q)) => parse_string(s@, p as int) == Some((t@, q as int)) && p < q <= s@.len(),
            None => parse_string(s@, p as int) is None,
        },
{
    if p < s.len() && (s[p] == '"' || s[p] == '\'') {
        match string_close_at(s, p + 1, s[p]) {
            Some(e) => {
                if p < e && e < s.len() {
                    Some((string_from_chars(s, p + 1, e), e + 1))
                } else {
                    None
                }
            },
            None => None,
        }
    } else {
        None
    }
}

fn number_end_at(s: &Vec<char>, p: usize) -> (r: Option<usize>)
    requires
        p <= s@.len(),
    ensures
        match r {
            Some(q) => number_end(s@, p as int) == Some(q as int) && p < q <= s@.len(),
            None => number_end(s@, p as int) is None,
        },
{
    let n = s.len();
    let a = if p < n && s[p] == '-' {
        p + 1
    } else {
        p
    };
    let b = skip_digits_at(s, a);
    if !(a < b && b <= n) {
        return None;
    }
    let c = if n - b > 1 && s[b] == '.' && '0' <= s[b + 1] && s[b + 1] <= '9' {
        skip_digits_at(s, b + 1)
    } else {
        b
    };
    let d = if c < n && (s[c] == 'e' || s[c] == 'E') {
        let e = if n - c > 1 && (s[c + 1] == '+' || s[c + 1] == '-') {
            c + 2
        } else {
            c + 1
        };
        let f = skip_digits_at(s, e);
        if e < f {
            f
        } else {
            c
        }
    } else {
        c
    };
    if b <= c && c <= d && d <= n {
        Some(d)
    } else {
        None
    }
}

fn parse_value_at(s: &Vec<char>, p: usize) -> (r: Option<(Value, usize)>)
    requires
        p <= s@.len(),
    ensures
        agrees(r, parse_value(s@, p as int)),
        r matches Some((_, q)) ==> p < q <= s@.len(),
{
    match parse_string_at(s, p) {
        Some((t, q)) => Some((Value::String(t), q)),
        None => match number_end_at(s, p) {
            Some(q) => Some((Value::Number(string_from_chars(s, p, q)), q)),
            None => {
                let true_w = vec!['t', 'r', 'u', 'e'];
                let false_w = vec!['f', 'a', 'l', 's', 'e'];
                let null_w = vec!['n', 'u', 'l', 'l'];
                let true_u = vec!['T', 'R', 'U', 'E'];
                let false_u = vec!['F', 'A', 'L', 'S', 'E'];
                let null_u = vec!['N', 'U', 'L', 'L'];
                assert(true_w@ =~= true_word() && true_u@ =~= true_upper());
                assert(false_w@ =~= false_word() && false_u@ =~= false_upper());
                assert(null_w@ =~= null_word() && null_u@ =~= null_upper());
                let n = s.len();
                if word_at_any_case_exec(s, p, &true_w, &true_u) {
                    assert(p + 4 <= s@.len());
                    Some((Value::Boolean(true), p + 4))
                } else if word_at_any_case_exec(s, p, &false_w, &false_u) {
                    assert(p + 5 <= s@.len());
                    Some((Value::Boolean(false), p + 5))
                } else if word_at_any_case_exec(s, p, &null_w, &null_u) {
                    Some((Value::Null, p + 4))
                } else {
                    None
                }
            },
        },
    }
}

fn parse_restriction_at(s: &Vec<char>, p: usize) -> (r: Option<(Restriction, usize)>)
    requires
        p <= s@.len(),
    ensures
        agrees(r, parse_restriction(s@, p as int)),
        r matches Some((_, q)) ==> p < q <= s@.len(),
{
    match parse_member_at(s, p) {
        Some((f, q)) => {
            proof {
                assert(q <= s@.len());
            }
            match parse_comparator_at(s, skip_ws_at(s, q)) {
                Some((c, q2)) => match parse_value_at(s, skip_ws_at(s, q2)) {
                    Some((v, q3)) => Some((Restriction { field: f, comparator: c, value: v }, q3)),
                    None => None,
                },
                None => None,
            }
        },
        None => None,
    }
}

fn parse_sequence_at(s: &Vec<char>, p: usize) -> (r: Option<(Sequence, usize)>)
    requires
        p <= s@.len(),
    ensures
        agrees(r, parse_sequence(s@, p as int)),
        r matches Some((_, q)) ==> p < q <= s@.len(),
{
    match parse_member_at(s, p) {
        Some((m, q0)) => {
            let ghost target = sequence_rest(s@, q0 as int, seq![m@]);
            let mut parts: Vec<String> = Vec::new();
            parts.push(m);
            let mut q = q0;
            proof {
                assert(parts@.map_values(|x: String| x@) =~= seq![m@]);
            }
            assert(parse_sequence(s@, p as int) == Some(target));
            loop
                invariant
                    p < q0 <= q <= s@.len(),
                    sequence_rest(s@, q as int, parts@.map_values(|x: String| x@)) == target,
                    parse_sequence(s@, p as int) == Some(target),
                decreases s.len() - q,
            {
                let r = skip_ws_at(s, q);
                match parse_member_at(s, r) {
                    Some((m2, q2)) => {
                        if q < q2 && q2 <= s.len() {
                            let ghost before = parts@;
                            parts.push(m2);
                            proof {
                                assert(parts@.map_values(|x: String| x@) =~= before.map_values(
                                    |x: String| x@,
                                ).push(m2@));
                            }
                            q = q2;
                        } else {
                            return Some((Sequence { parts }, q));
                        }
                    },
                    None => {
                        return Some((Sequence { parts }, q));
                    },
                }
            }
        },
        None => None,
    }
}

fn parse_group_at(s: &Vec<char>, p: usize) -> (r: Option<(Expression, usize)>)
    requires
        p <= s@.len(),
    ensures
        agrees(r, parse_group(s@, p as int)),
        r matches Some((_, q)) ==> p < q <= s@.len(),
    decreases s@.len() - p, 0nat,
{
    if p < s.len() && s[p] == '(' {
        let r = skip_ws_at(s, p + 1);
        match parse_expression_at(s, r) {
            Some((e, q)) => {
                if r <= q && q <= s.len() {
                    let q1 = skip_ws_at(s, q);
                    if q1 < s.len() && s[q1] == ')' {
                        Some((e, q1 + 1))
                    } else {
                        None
                    }
                } else {
                    None
                }
            },
            None => None,
        }
    } else {
        None
    }
}

fn parse_factor_at(s: &Vec<char>, p: usize) -> (r: Option<(Expression, usize)>)
    requires
        p <= s@.len(),
    ensures
        agrees(r, parse_factor(s@, p as int)),
        r matches Some((_, q)) ==> p < q <= s@.len(),
    decreases s@.len() - p, 1nat,
{
    let not_w = vec!['N', 'O', 'T'];
    assert(not_w@ =~= not_word());
    assert(not_word().len() == 3);
    let n = s.len();
    if word_at_exec(s, p, &not_w) {
        let r = skip_ws_at(s, p + 3);
        if p < r {
            match parse_restriction_at(s, r) {
                Some((x, q)) => {
                    let e = Expression::Restriction(x);
                    assert(e@ == ExpressionModel::Restriction(x@));
                    let n = Expression::Not(Box::new(e));
                    assert(n@ == ExpressionModel::Not(Box::new(e@)));
                    return Some((n, q));
                },
                None => match parse_group_at(s, r) {
                    Some((e, q)) => {
                        let n = Expression::Not(Box::new(e));
                        assert(n@ == ExpressionModel::Not(Box::new(e@)));
                        return Some((n, q));
                    },
                    None => {},
                },
            }
        }
    }
    match parse_restriction_at(s, p) {
        Some((x, q)) => Some((Expression::Restriction(x), q)),
        None => match parse_sequence_at(s, p) {
            Some((parts, q)) => Some((Expression::Sequence(parts), q)),
            None => parse_group_at(s, p),
        },
    }
}

fn parse_term_at(s: &Vec<char>, p: usize) -> (r: Option<(Expression, usize)>)
    requires
        p <= s@.len(),
    ensures
        agrees(r, parse_term(s@, p as int)),
        r matches Some((_, q)) ==> p < q <= s@.len(),
    decreases s@.len() - p, 3nat,
{
    match parse_factor_at(s, p) {
        Some((f, q0)) => {
            if !(p <= q0 && q0 <= s.len()) {
                return None;
            }
            let ghost target = term_rest(s@, q0 as int, f@);
            assert(parse_term(s@, p as int) == target);
            let mut acc = f;
            let mut q = q0;
            let and_w = vec!['A', 'N', 'D'];
            assert(and_w@ =~= and_word());
            loop
                invariant
                    p < q <= s@.len(),
                    and_w@ == and_word(),
                    term_rest(s@, q as int, acc@) == target,
                    parse_term(s@, p as int) == target,
                decreases s.len() - q,
            {
                let r = skip_ws_at(s, q);
                if word_at_exec(s, r, &and_w) {
                    let r2 = skip_ws_at(s, r + 3);
                    if q < r2 {
                        match parse_factor_at(s, r2) {
                            Some((f2, q2)) => {
                                if r2 <= q2 && q2 <= s.len() {
                                    acc = Expression::And(Box::new(acc), Box::new(f2));
                                    q = q2;
                                } else {
                                    return None;
                                }
                            },
                            None => {
                                return Some((acc, q));
                            },
                        }
                    } else {
                        return None;
                    }
                } else {
                    return Some((acc, q));
                }
            }
        },
        None => None,
    }
}

fn parse_expression_at(s: &Vec<char>, p: usize) -> (r: Option<(Expression, usize)>)
    requires
        p <= s@.len(),
    ensures
        agrees(r, parse_expression(s@, p as int)),
        r matches Some((_, q)) ==> p < q <= s@.len(),
    decreases s@.len() - p, 5nat,
{
    match parse_term_at(s, p) {
        Some((t, q0)) => {
            if !(p <= q0 && q0 <= s.len()) {
                return None;
            }
            let ghost target = expression_rest(s@, q0 as int, t@);
            assert(parse_expression(s@, p as int) == target);
            let mut acc = t;
            let mut q = q0;
            let or_w = vec!['O', 'R'];
            assert(or_w@ =~= or_word());
            loop
                invariant
                    p < q <= s@.len(),
                    or_w@ == or_word(),
                    expression_rest(s@, q as int, acc@) == target,
                    parse_expression(s@, p as int) == target,
                decreases s.len() - q,
            {
                let r = skip_ws_at(s, q);
                if word_at_exec(s, r, &or_w) {
                    let r2 = skip_ws_at(s, r + 2);
                    if q < r2 {
                        match parse_term_at(s, r2) {
                            Some((t2, q2)) => {
                                if r2 <= q2 && q2 <= s.len() {
                                    acc = Expression::Or(Box::new(acc), Box::new(t2));
                                    q = q2;
                                } else {
                                    return None;
                                }
                            },
                            None => {
                                return Some((acc, q));
                            },
                        }
                    } else {
                        return None;
                    }
                } else {
                    return Some((acc, q));
                }
            }
        },
        None => None,
    }
}

/// The message of the error for a filter with no expression.
pub open spec fn no_expression_message() -> Seq<char> {
    "No expression found"@
}

/// The message of the error for a filter that does not follow the grammar.
pub open spec fn invalid_filter_message() -> Seq<char> {
    "the filter does not follow the AIP-160 grammar"@
}

/// Parses a filter string into an AST.
///
/// The result follows [`filter_syntax`]: the expression the text denotes,
/// or a parse error saying that there is no expression (the text is empty
/// or only whitespace) or that the text does not follow the grammar.
pub fn parse_filter(input: &str) -> (r: Result<Filter, FilterError>)
    ensures
        match filter_syntax(input@) {
            FilterSyntax::Parsed(e) => r matches Ok(f) && f@ == e,
            FilterSyntax::Empty => r matches Err(FilterError::ParseError(m)) && m@
                == no_expression_message(),
            FilterSyntax::Invalid => r matches Err(FilterError::ParseError(m)) && m@
                == invalid_filter_message(),
        },
{
    let s = chars_of(input);
    let p = skip_ws_at(&s, 0);
    if p >= s.len() {
        return Err(FilterError::ParseError("No expression found".to_owned()));
    }
    match parse_expression_at(&s, p) {
        Some((expression, q)) => {
            if skip_ws_at(&s, q) == s.len() {
                Ok(Filter { expression })
            } else {
                Err(
                    FilterError::ParseError(
                        "the filter does not follow the AIP-160 grammar".to_owned(),
                    ),
                )
            }
        },
        None => Err(
            FilterError::ParseError("the filter does not follow the AIP-160 grammar".to_owned()),
        ),
    }
}

/// The parser of the AIP-160 filter grammar.
pub struct FilterParser;

impl FilterParser {
    /// Parses a filter string; the same as [`parse_filter`].
    pub fn parse(input: &str) -> (r: Result<Filter, FilterError>)
        ensures
            match filter_syntax(input@) {
                FilterSyntax::Parsed(e) => r matches Ok(f) && f@ == e,
                FilterSyntax::Empty => r matches Err(FilterError::ParseError(m)) && m@
                    == no_expression_message(),
                FilterSyntax::Invalid => r matches Err(FilterError::ParseError(m)) && m@
                    == invalid_filter_message(),
            },
    {
        parse_filter(input)
    }
}

} // verus!
