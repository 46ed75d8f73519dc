//! The AIP-160 filter grammar, stated over characters.
//!
//! Each `parse_*` function reads the characters `s` from position `p` and,
//! where the construct is there, gives what it denotes and the position
//! just after it. Alternatives are tried in order and the first that
//! matches is taken, as in a parsing expression grammar.
//!
//! ```text
//! filter      = WS* [expression WS*] EOI
//! expression  = term (WS* "OR" WS* term)*
//! term        = factor (WS* "AND" WS* factor)*
//! factor      = "NOT" WS* (restriction | group) | restriction | sequence | group
//! group       = "(" WS* expression WS* ")"
//! restriction = member WS* comparator WS* value
//! sequence    = member (WS* member)*
//! member      = ident ("." ident)*         (but not "AND", "OR" or "NOT")
//! ident       = [A-Za-z_] [A-Za-z0-9_]*
//! comparator  = "<=" | ">=" | "!=" | "<" | ">" | "=" | ":"
//! value       = string | number | "true" | "false" | "null"   (words in any case)
//! string      = '"' (not '"')* '"' | "'" (not "'")* "'"
//! number      = "-"? digit+ ("." digit+)? (("e" | "E") ("+" | "-")? digit+)?
//! WS          = " " | "\t" | "\n" | "\r"
//! ```
//!
//! The keywords `AND`, `OR` and `NOT`, and the words `true`, `false` and
//! `null`, count only where no letter, digit or underscore follows them.

use vstd::prelude::*;

use super::ast::{Comparator, ExpressionModel, RestrictionModel, ValueModel};

verus! {

/// Whitespace between tokens.
pub open spec fn is_ws(c: char) -> bool {
    c == ' ' || c == '\t' || c == '\n' || c == '\r'
}

/// An ASCII letter.
pub open spec fn is_alpha(c: char) -> bool {
    ('a' <= c <= 'z') || ('A' <= c <= 'Z')
}

/// An ASCII decimal digit.
pub open spec fn is_digit_char(c: char) -> bool {
    '0' <= c <= '9'
}

/// A character that can start an identifier.
pub open spec fn is_ident_start(c: char) -> bool {
    is_alpha(c) || c == '_'
}

/// A character that can continue an identifier.
pub open spec fn is_ident_char(c: char) -> bool {
    is_alpha(c) || is_digit_char(c) || c == '_'
}

/// The position after the whitespace that starts at `p`.
pub open spec fn skip_ws(s: Seq<char>, p: int) -> int
    decreases s.len() - p,
{
    if 0 <= p < s.len() && is_ws(s[p]) {
        skip_ws(s, p + 1)
    } else {
        p
    }
}

/// The position after the identifier characters that start at `p`.
pub open spec fn skip_ident_chars(s: Seq<char>, p: int) -> int
    decreases s.len() - p,
{
    if 0 <= p < s.len() && is_ident_char(s[p]) {
        skip_ident_chars(s, p + 1)
    } else {
        p
    }
}

/// The position after the digits that start at `p`.
pub open spec fn skip_digits(s: Seq<char>, p: int) -> int
    decreases s.len() - p,
{
    if 0 <= p < s.len() && is_digit_char(s[p]) {
        skip_digits(s, p + 1)
    } else {
        p
    }
}

/// The end of a member whose first identifier ends at `q`: further
/// `.ident` parts are taken while there are any.
pub open spec fn member_tail(s: Seq<char>, q: int) -> int
    decreases s.len() - q,
{
    if 0 <= q && q + 1 < s.len() && s[q] == '.' && is_ident_start(s[q + 1]) {
        let r = skip_ident_chars(s, q + 2);
        if q < r <= s.len() {
            member_tail(s, r)
        } else {
            q
        }
    } else {
        q
    }
}

/// `AND`.
pub open spec fn and_word() -> Seq<char> {
    seq!['A', 'N', 'D']
}

/// `OR`.
pub open spec fn or_word() -> Seq<char> {
    seq!['O', 'R']
}

/// `NOT`.
pub open spec fn not_word() -> Seq<char> {
    seq!['N', 'O', 'T']
}

/// One of the keywords `AND`, `OR`, `NOT`.
pub open spec fn is_keyword(t: Seq<char>) -> bool {
    t == and_word() || t == or_word() || t == not_word()
}

/// A member (a dotted identifier that is not a keyword) at `p`.
pub open spec fn parse_member(s: Seq<char>, p: int) -> Option<(Seq<char>, int)> {
    if 0 <= p < s.len() && is_ident_start(s[p]) {
        let q = member_tail(s, skip_ident_chars(s, p + 1));
        if p < q <= s.len() && !is_keyword(s.subrange(p, q)) {
            Some((s.subrange(p, q), q))
        } else {
            None
        }
    } else {
        None
    }
}

/// The word `w` at `p`, with no identifier character right after it.
pub open spec fn word_at(s: Seq<char>, p: int, w: Seq<char>) -> bool {
    &&& 0 <= p
    &&& p + w.len() <= s.len()
    &&& s.subrange(p, p + w.len()) == w
    &&& (p + w.len() == s.len() || !is_ident_char(s[p + w.len()]))
}

/// The word whose letters are `lower` in lowercase and `upper` in
/// uppercase at `p`, each letter in either case, with no identifier
/// character right after it.
pub open spec fn word_at_any_case(s: Seq<char>, p: int, lower: Seq<char>, upper: Seq<char>) -> bool {
    &&& 0 <= p
    &&& p + lower.len() <= s.len()
    &&& forall|i: int| 0 <= i < lower.len() ==> #[trigger] s[p + i] == lower[i] || s[p + i] == upper[i]
    &&& (p + lower.len() == s.len() || !is_ident_char(s[p + lower.len()]))
}

/// A comparator at `p`; two-character comparators are tried first.
pub open spec fn parse_comparator(s: Seq<char>, p: int) -> Option<(Comparator, int)> {
    if 0 <= p && p + 1 < s.len() && s[p] == '<' && s[p + 1] == '=' {
        Some((Comparator::LessThanOrEqual, p + 2))
    } else if 0 <= p && p + 1 < s.len() && s[p] == '>' && s[p + 1] == '=' {
        Some((Comparator::GreaterThanOrEqual, p + 2))
    } else if 0 <= p && p + 1 < s.len() && s[p] == '!' && s[p + 1] == '=' {
        Some((Comparator::NotEqual, p + 2))
    } else if 0 <= p < s.len() && s[p] == '<' {
        Some((Comparator::LessThan, p + 1))
    } else if 0 <= p < s.len() && s[p] == '>' {
        Some((Comparator::GreaterThan, p + 1))
    } else if 0 <= p < s.len() && s[p] == '=' {
        Some((Comparator::Equal, p + 1))
    } else if 0 <= p < s.len() && s[p] == ':' {
        Some((Comparator::Has, p + 1))
    } else {
        None
    }
}

/// The position of the first `quote` at or after `i`.
pub open spec fn string_close(s: Seq<char>, i: int, quote: char) -> Option<int>
    decreases s.len() - i,
{
    if 0 <= i < s.len() {
        if s[i] == quote {
            Some(i)
        } else {
            string_close(s, i + 1, quote)
        }
    } else {
        None
    }
}

/// A quoted string at `p`, giving the characters between the quotes.
pub open spec fn parse_string(s: Seq<char>, p: int) -> Option<(Seq<char>, int)> {
    if 0 <= p < s.len() && (s[p] == '"' || s[p] == '\'') {
        match string_close(s, p + 1, s[p]) {
            Some(e) => if p < e < s.len() {
                Some((s.subrange(p + 1, e), e + 1))
            } else {
                None
            },
            None => None,
        }
    } else {
        None
    }
}

/// The end of a number that starts at `p`, if one does.
pub open spec fn number_end(s: Seq<char>, p: int) -> Option<int> {
    let a = if 0 <= p < s.len() && s[p] == '-' {
        p + 1
    } else {
        p
    };
    let b = skip_digits(s, a);
    if !(0 <= p && a < b <= s.len()) {
        None
    } else {
        let c = if b + 1 < s.len() && s[b] == '.' && is_digit_char(s[b + 1]) {
            skip_digits(s, b + 1)
        } else {
            b
        };
        let d = if c < s.len() && (s[c] == 'e' || s[c] == 'E') {
            let e = if c + 1 < s.len() && (s[c + 1] == '+' || s[c + 1] == '-') {
                c + 2
            } else {
                c + 1
            };
            let f = skip_digits(s, e);
            if e < f {
                f
            } else {
                c
            }
        } else {
            c
        };
        if b <= c <= d <= s.len() {
            Some(d)
        } else {
            None
        }
    }
}

/// `true`.
pub open spec fn true_word() -> Seq<char> {
    seq!['t', 'r', 'u', 'e']
}

/// `false`.
pub open spec fn false_word() -> Seq<char> {
    seq!['f', 'a', 'l', 's', 'e']
}

/// `null`.
pub open spec fn null_word() -> Seq<char> {
    seq!['n', 'u', 'l', 'l']
}

/// `TRUE`.
pub open spec fn true_upper() -> Seq<char> {
    seq!['T', 'R', 'U', 'E']
}

/// `FALSE`.
pub open spec fn false_upper() -> Seq<char> {
    seq!['F', 'A', 'L', 'S', 'E']
}

/// `NULL`.
pub open spec fn null_upper() -> Seq<char> {
    seq!['N', 'U', 'L', 'L']
}

/// A value at `p`: a string, a number, a boolean or null.
pub open spec fn parse_value(s: Seq<char>, p: int) -> Option<(ValueModel, int)> {
    match parse_string(s, p) {
        Some((t, q)) => Some((ValueModel::Str(t), q)),
        None => match number_end(s, p) {
            Some(q) => Some((ValueModel::Number(s.subrange(p, q)), q)),
            None => if word_at_any_case(s, p, true_word(), true_upper()) {
                Some((ValueModel::Boolean(true), p + 4))
            } else if word_at_any_case(s, p, false_word(), false_upper()) {
                Some((ValueModel::Boolean(false), p + 5))
            } else if word_at_any_case(s, p, null_word(), null_upper()) {
                Some((ValueModel::Null, p + 4))
            } else {
                None
            },
        },
    }
}

/// A restriction `member comparator value` at `p`.
pub open spec fn parse_restriction(s: Seq<char>, p: int) -> Option<(RestrictionModel, int)> {
    match parse_member(s, p) {
        Some((f, q)) => match parse_comparator(s, skip_ws(s, q)) {
            Some((c, q2)) => match parse_value(s, skip_ws(s, q2)) {
                Some((v, q3)) => Some((RestrictionModel { field: f, comparator: c, value: v }, q3)),
                None => None,
            },
            None => None,
        },
        None => None,
    }
}

/// The further members of a sequence whose members so far are `acc` and
/// which ends at `q`.
pub open spec fn sequence_rest(s: Seq<char>, q: int, acc: Seq<Seq<char>>) -> (Seq<Seq<char>>, int)
    decreases s.len() - q,
{
    match parse_member(s, skip_ws(s, q)) {
        Some((m, q2)) => if q < q2 <= s.len() {
            sequence_rest(s, q2, acc.push(m))
        } else {
            (acc, q)
        },
        None => (acc, q),
    }
}

/// A sequence of members at `p`.
pub open spec fn parse_sequence(s: Seq<char>, p: int) -> Option<(Seq<Seq<char>>, int)> {
    match parse_member(s, p) {
        Some((m, q)) => Some(sequence_rest(s, q, seq![m])),
        None => None,
    }
}

/// An expression at `p`: terms joined by `OR`, grouped from the left.
pub open spec fn parse_expression(s: Seq<char>, p: int) -> Option<(ExpressionModel, int)>
    decreases s.len() - p, 5int,
{
    if 0 <= p <= s.len() {
        match parse_term(s, p) {
            Some((t, q)) => if p <= q <= s.len() {
                expression_rest(s, q, t)
            } else {
                None
            },
            None => None,
        }
    } else {
        None
    }
}

/// The further `OR term` parts of an expression whose value so far is
/// `acc` and which ends at `q`.
pub open spec fn expression_rest(s: Seq<char>, q: int, acc: ExpressionModel) -> Option<
    (ExpressionModel, int),
>
    decreases s.len() - q, 4int,
{
    if 0 <= q <= s.len() {
        let r = skip_ws(s, q);
        if q <= r && word_at(s, r, or_word()) {
            let r2 = skip_ws(s, r + 2);
            if q < r2 <= s.len() {
                match parse_term(s, r2) {
                    Some((t, q2)) => if r2 <= q2 <= s.len() {
                        expression_rest(s, q2, ExpressionModel::Or(Box::new(acc), Box::new(t)))
                    } else {
                        None
                    },
                    None => Some((acc, q)),
                }
            } else {
                None
            }
        } else {
            Some((acc, q))
        }
    } else {
        None
    }
}

/// A term at `p`: factors joined by `AND`, grouped from the left.
pub open spec fn parse_term(s: Seq<char>, p: int) -> Option<(ExpressionModel, int)>
    decreases s.len() - p, 3int,
{
    if 0 <= p <= s.len() {
        match parse_factor(s, p) {
            Some((f, q)) => if p <= q <= s.len() {
                term_rest(s, q, f)
            } else {
                None
            },
            None => None,
        }
    } else {
        None
    }
}

/// The further `AND factor` parts of a term whose value so far is `acc`
/// and which ends at `q`.
pub open spec fn term_rest(s: Seq<char>, q: int, acc: ExpressionModel) -> Option<
    (ExpressionModel, int),
>
    decreases s.len() - q, 2int,
{
    if 0 <= q <= s.len() {
        let r = skip_ws(s, q);
        if q <= r && word_at(s, r, and_word()) {
            let r2 = skip_ws(s, r + 3);
            if q < r2 <= s.len() {
                match parse_factor(s, r2) {
                    Some((f, q2)) => if r2 <= q2 <= s.len() {
                        term_rest(s, q2, ExpressionModel::And(Box::new(acc), Box::new(f)))
                    } else {
                        None
                    },
                    None => Some((acc, q)),
                }
            } else {
                None
            }
        } else {
            Some((acc, q))
        }
    } else {
        None
    }
}

/// A factor at `p`: a negation, a restriction, a sequence or a group.
pub open spec fn parse_factor(s: Seq<char>, p: int) -> Option<(ExpressionModel, int)>
    decreases s.len() - p, 1int,
{
    if 0 <= p <= s.len() {
        let negation = if word_at(s, p, not_word()) {
            let r = skip_ws(s, p + 3);
            if p < r <= s.len() {
                match parse_restriction(s, r) {
                    Some((x, q)) => Some(
                        (ExpressionModel::Not(Box::new(ExpressionModel::Restriction(x))), q),
                    ),
                    None => match parse_group(s, r) {
                        Some((e, q)) => Some((ExpressionModel::Not(Box::new(e)), q)),
                        None => None,
                    },
                }
            } else {
                None
            }
        } else {
            None
        };
        if negation is Some {
            negation
        } else {
            match parse_restriction(s, p) {
                Some((x, q)) => Some((ExpressionModel::Restriction(x), q)),
                None => match parse_sequence(s, p) {
                    Some((parts, q)) => Some((ExpressionModel::Sequence(parts), q)),
                    None => parse_group(s, p),
                },
            }
        }
    } else {
        None
    }
}

/// A parenthesized expression at `p`.
pub open spec fn parse_group(s: Seq<char>, p: int) -> Option<(ExpressionModel, int)>
    decreases s.len() - p, 0int,
{
    if 0 <= p < s.len() && s[p] == '(' {
        let r = skip_ws(s, p + 1);
        if p < r <= s.len() {
            match parse_expression(s, r) {
                Some((e, q)) => if r <= q <= s.len() {
                    let q1 = skip_ws(s, q);
                    if q <= q1 < s.len() && s[q1] == ')' {
                        Some((e, q1 + 1))
                    } else {
                        None
                    }
                } else {
                    None
                },
                None => None,
            }
        } else {
            None
        }
    } else {
        None
    }
}

/// What a whole filter text denotes.
pub enum FilterSyntax {
    /// Nothing but whitespace.
    Empty,
    /// An expression.
    Parsed(ExpressionModel),
    /// Text that does not follow the grammar.
    Invalid,
}

/// What the filter text `s` denotes.
pub open spec fn filter_syntax(s: Seq<char>) -> FilterSyntax {
    let p = skip_ws(s, 0);
    if p >= s.len() {
        FilterSyntax::Empty
    } else {
        match parse_expression(s, p) {
            Some((e, q)) => if skip_ws(s, q) == s.len() {
                FilterSyntax::Parsed(e)
            } else {
                FilterSyntax::Invalid
            },
            None => FilterSyntax::Invalid,
        }
    }
}

} // verus!
