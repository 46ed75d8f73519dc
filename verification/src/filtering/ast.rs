//! Abstract syntax tree of AIP-160 filter expressions.

use vstd::prelude::*;

use crate::text::push_char;

verus! {

/// Root filter expression.
#[derive(Debug, Clone, PartialEq)]
pub struct Filter {
    /// The expression the filter consists of.
    pub expression: Expression,
}

/// A filter expression: a logical operation, a restriction or a sequence.
#[derive(Debug, PartialEq)]
pub enum Expression {
    And(Box<Expression>, Box<Expression>),
    Or(Box<Expression>, Box<Expression>),
    Not(Box<Expression>),
    Restriction(Restriction),
    Sequence(Sequence),
}

/// A comparison restriction, such as `field = value`.
#[derive(Debug, PartialEq)]
pub struct Restriction {
    pub field: String,
    pub comparator: Comparator,
    pub value: Value,
}

/// Comparison operators.
#[derive(Debug, Clone, Copy, PartialEq, Eq, Structural)]
pub enum Comparator {
    Equal,
    NotEqual,
    GreaterThan,
    GreaterThanOrEqual,
    LessThan,
    LessThanOrEqual,
    /// The `:` operator, for substring/contains matching.
    Has,
}

/// A sequence of bare members, such as `foo bar`.
#[derive(Debug, PartialEq)]
pub struct Sequence {
    pub parts: Vec<String>,
}

/// Values that can appear in filter expressions.
#[derive(Debug, PartialEq)]
pub enum Value {
    String(String),
    /// A number, held as the text it was written with in the filter
    /// (such as `42`, `-3.5` or `1e5`).
    Number(String),
    Boolean(bool),
    Null,
}

/// A value, with its text as characters.
pub enum ValueModel {
    Str(Seq<char>),
    Number(Seq<char>),
    Boolean(bool),
    Null,
}

/// A restriction, with its text as characters.
pub struct RestrictionModel {
    pub field: Seq<char>,
    pub comparator: Comparator,
    pub value: ValueModel,
}

/// An expression, with its text as characters.
pub enum ExpressionModel {
    And(Box<ExpressionModel>, Box<ExpressionModel>),
    Or(Box<ExpressionModel>, Box<ExpressionModel>),
    Not(Box<ExpressionModel>),
    Restriction(RestrictionModel),
    Sequence(Seq<Seq<char>>),
}

impl View for Value {
    type V = ValueModel;

    open spec fn view(&self) -> ValueModel {
        match self {
            Value::String(s) => ValueModel::Str(s@),
            Value::Number(n) => ValueModel::Number(n@),
            Value::Boolean(b) => ValueModel::Boolean(*b),
            Value::Null => ValueModel::Null,
        }
    }
}

impl View for Restriction {
    type V = RestrictionModel;

    open spec fn view(&self) -> RestrictionModel {
        RestrictionModel { field: self.field@, comparator: self.comparator, value: self.value@ }
    }
}

impl View for Sequence {
    type V = Seq<Seq<char>>;

    open spec fn view(&self) -> Seq<Seq<char>> {
        self.parts@.map_values(|p: String| p@)
    }
}

/// The model of an expression.
pub open spec fn expression_model(e: Expression) -> ExpressionModel
    decreases e,
{
    match e {
        Expression::And(l, r) => ExpressionModel::And(
            Box::new(expression_model(*l)),
            Box::new(expression_model(*r)),
        ),
        Expression::Or(l, r) => ExpressionModel::Or(
            Box::new(expression_model(*l)),
            Box::new(expression_model(*r)),
        ),
        Expression::Not(x) => ExpressionModel::Not(Box::new(expression_model(*x))),
        Expression::Restriction(r) => ExpressionModel::Restriction(r@),
        Expression::Sequence(s) => ExpressionModel::Sequence(s@),
    }
}

impl View for Expression {
    type V = ExpressionModel;

    open spec fn view(&self) -> ExpressionModel {
        expression_model(*self)
    }
}

impl View for Filter {
    type V = ExpressionModel;

    open spec fn view(&self) -> ExpressionModel {
        self.expression@
    }
}

impl Value {
    /// The text of a string value.
    pub fn as_string(&self) -> (r: Option<&str>)
        ensures
            match self@ {
                ValueModel::Str(s) => r matches Some(t) && t@ == s,
                _ => r is None,
            },
    {
        match self {
            Value::String(s) => Some(s.as_str()),
            _ => None,
        }
    }

    /// The value of a boolean value.
    pub fn as_boolean(&self) -> (r: Option<bool>)
        ensures
            match self@ {
                ValueModel::Boolean(b) => r == Some(b),
                _ => r is None,
            },
    {
        match self {
            Value::Boolean(b) => Some(*b),
            _ => None,
        }
    }

    /// Tells whether this value is null.
    pub fn is_null(&self) -> (r: bool)
        ensures
            r == (self@ is Null),
    {
        match self {
            Value::Null => true,
            _ => false,
        }
    }
}

impl Clone for Value {
    fn clone(&self) -> (r: Value)
        ensures
            r@ == self@,
    {
        match self {
            Value::String(s) => Value::String(s.clone()),
            Value::Number(n) => Value::Number(n.clone()),
            Value::Boolean(b) => Value::Boolean(*b),
            Value::Null => Value::Null,
        }
    }
}

impl Clone for Restriction {
    fn clone(&self) -> (r: Restriction)
        ensures
            r@ == self@,
    {
        Restriction { field: self.field.clone(), comparator: self.comparator, value: self.value.clone() }
    }
}

/// Copies of a list of strings.
pub fn clone_strings(v: &Vec<String>) -> (r: Vec<String>)
    ensures
        r@.map_values(|p: String| p@) == v@.map_values(|p: String| p@),
{
    let mut r: Vec<String> = Vec::new();
    let mut i: usize = 0;
    while i < v.len()
        invariant
            0 <= i <= v@.len(),
            r@.len() == i,
            forall|j: int| 0 <= j < i ==> #[trigger] r@[j]@ == v@[j]@,
        decreases v.len() - i,
    {
        r.push(v[i].clone());
        i = i + 1;
    }
    assert(r@.map_values(|p: String| p@) =~= v@.map_values(|p: String| p@));
    r
}

impl Clone for Sequence {
    fn clone(&self) -> (r: Sequence)
        ensures
            r@ == self@,
    {
        Sequence { parts: clone_strings(&self.parts) }
    }
}

impl Clone for Expression {
    fn clone(&self) -> (r: Expression)
        ensures
            r@ == self@,
        decreases self,
    {
        match self {
            Expression::And(l, r) => Expression::And(
                Box::new((**l).clone()),
                Box::new((**r).clone()),
            ),
            Expression::Or(l, r) => Expression::Or(Box::new((**l).clone()), Box::new((**r).clone())),
            Expression::Not(x) => Expression::Not(Box::new((**x).clone())),
            Expression::Restriction(r) => Expression::Restriction(r.clone()),
            Expression::Sequence(s) => Expression::Sequence(s.clone()),
        }
    }
}

/// How a comparator is written.
pub open spec fn comparator_text(c: Comparator) -> Seq<char> {
    match c {
        Comparator::Equal => seq!['='],
        Comparator::NotEqual => seq!['!', '='],
        Comparator::GreaterThan => seq!['>'],
        Comparator::GreaterThanOrEqual => seq!['>', '='],
        Comparator::LessThan => seq!['<'],
        Comparator::LessThanOrEqual => seq!['<', '='],
        Comparator::Has => seq![':'],
    }
}

/// How a value is written: strings in double quotes, numbers as written,
/// `true`, `false` and `null`.
pub open spec fn value_text(v: ValueModel) -> Seq<char> {
    match v {
        ValueModel::Str(s) => seq!['"'] + s + seq!['"'],
        ValueModel::Number(n) => n,
        ValueModel::Boolean(b) => if b {
            seq!['t', 'r', 'u', 'e']
        } else {
            seq!['f', 'a', 'l', 's', 'e']
        },
        ValueModel::Null => seq!['n', 'u', 'l', 'l'],
    }
}

/// The parts joined with dots.
pub open spec fn dotted(parts: Seq<Seq<char>>) -> Seq<char>
    decreases parts.len(),
{
    if parts.len() == 0 {
        Seq::empty()
    } else if parts.len() == 1 {
        parts[0]
    } else {
        dotted(parts.drop_last()) + seq!['.'] + parts.last()
    }
}

/// How an expression is written: `(l AND r)`, `(l OR r)`, `NOT x`,
/// `field op value`, and the parts of a sequence joined with dots.
pub open spec fn expression_text(e: ExpressionModel) -> Seq<char>
    decreases e,
{
    match e {
        ExpressionModel::And(l, r) => seq!['('] + expression_text(*l) + seq![' ', 'A', 'N', 'D', ' ']
            + expression_text(*r) + seq![')'],
        ExpressionModel::Or(l, r) => seq!['('] + expression_text(*l) + seq![' ', 'O', 'R', ' ']
            + expression_text(*r) + seq![')'],
        ExpressionModel::Not(x) => seq!['N', 'O', 'T', ' '] + expression_text(*x),
        ExpressionModel::Restriction(r) => r.field + seq![' '] + comparator_text(r.comparator)
            + seq![' '] + value_text(r.value),
        ExpressionModel::Sequence(parts) => dotted(parts),
    }
}

impl Comparator {
    /// How this comparator is written (`=`, `!=`, `>`, `>=`, `<`, `<=`, `:`).
    pub fn as_str(&self) -> (s: &'static str)
        ensures
            s@ == comparator_text(*self),
    {
        match self {
            Comparator::Equal => {
                proof { reveal_strlit("="); }
                "="
            },
            Comparator::NotEqual => {
                proof { reveal_strlit("!="); }
                "!="
            },
            Comparator::GreaterThan => {
                proof { reveal_strlit(">"); }
                ">"
            },
            Comparator::GreaterThanOrEqual => {
                proof { reveal_strlit(">="); }
                ">="
            },
            Comparator::LessThan => {
                proof { reveal_strlit("<"); }
                "<"
            },
            Comparator::LessThanOrEqual => {
                proof { reveal_strlit("<="); }
                "<="
            },
            Comparator::Has => {
                proof { reveal_strlit(":"); }
                ":"
            },
        }
    }

    /// How this comparator is written, as an owned string.
    pub fn to_string(&self) -> (s: String)
        ensures
            s@ == comparator_text(*self),
    {
        self.as_str().to_owned()
    }
}

impl Value {
    /// Appends how this value is written to `out`.
    pub fn write_to(&self, out: &mut String)
        ensures
            final(out)@ == old(out)@ + value_text(self@),
    {
        match self {
            Value::String(s) => {
                push_char(out, '"');
                out.append(s.as_str());
                push_char(out, '"');
                assert(final(out)@ =~= old(out)@ + value_text(self@));
            },
            Value::Number(n) => {
                out.append(n.as_str());
            },
            Value::Boolean(b) => {
                if *b {
                    proof { reveal_strlit("true"); }
                    out.append("true");
                } else {
                    proof { reveal_strlit("false"); }
                    out.append("false");
                }
                assert(final(out)@ =~= old(out)@ + value_text(self@));
            },
            Value::Null => {
                proof { reveal_strlit("null"); }
                out.append("null");
                assert(final(out)@ =~= old(out)@ + value_text(self@));
            },
        }
    }

    /// How this value is written.
    pub fn to_string(&self) -> (s: String)
        ensures
            s@ == value_text(self@),
    {
        let mut s = String::new();
        self.write_to(&mut s);
        assert(s@ =~= value_text(self@));
        s
    }
}

impl Sequence {
    /// Appends the parts, joined with dots, to `out`.
    pub fn write_to(&self, out: &mut String)
        ensures
            final(out)@ == old(out)@ + dotted(self@),
    {
        let ghost start = out@;
        let mut i: usize = 0;
        while i < self.parts.len()
            invariant
                0 <= i <= self.parts@.len(),
                out@ == start + dotted(self@.take(i as int)),
            decreases self.parts.len() - i,
        {
            proof {
                assert(self@.take(i + 1).drop_last() =~= self@.take(i as int));
                assert(self@[i as int] == self.parts@[i as int]@);
            }
            if i > 0 {
                push_char(out, '.');
            }
            out.append(self.parts[i].as_str());
            proof {
                if i == 0 {
                    assert(dotted(self@.take(1)) == self@[0]);
                }
                assert(out@ =~= start + dotted(self@.take(i + 1)));
            }
            i = i + 1;
        }
        assert(self@.take(i as int) =~= self@);
    }
}

impl Expression {
    /// Appends how this expression is written to `out`.
    pub fn write_to(&self, out: &mut String)
        ensures
            final(out)@ == old(out)@ + expression_text(self@),
        decreases self,
    {
        match self {
            Expression::And(l, r) => {
                proof { reveal_strlit(" AND "); }
                push_char(out, '(');
                l.write_to(out);
                out.append(" AND ");
                r.write_to(out);
                push_char(out, ')');
                assert(final(out)@ =~= old(out)@ + expression_text(self@));
            },
            Expression::Or(l, r) => {
                proof { reveal_strlit(" OR "); }
                push_char(out, '(');
                l.write_to(out);
                out.append(" OR ");
                r.write_to(out);
                push_char(out, ')');
                assert(final(out)@ =~= old(out)@ + expression_text(self@));
            },
            Expression::Not(x) => {
                proof { reveal_strlit("NOT "); }
                out.append("NOT ");
                x.write_to(out);
                assert(final(out)@ =~= old(out)@ + expression_text(self@));
            },
            Expression::Restriction(r) => {
                out.append(r.field.as_str());
                push_char(out, ' ');
                out.append(r.comparator.as_str());
                push_char(out, ' ');
                r.value.write_to(out);
                assert(final(out)@ =~= old(out)@ + expression_text(self@));
            },
            Expression::Sequence(s) => {
                s.write_to(out);
            },
        }
    }

    /// How this expression is written.
    pub fn to_string(&self) -> (s: String)
        ensures
            s@ == expression_text(self@),
    {
        let mut s = String::new();
        self.write_to(&mut s);
        assert(s@ =~= expression_text(self@));
        s
    }
}

impl Filter {
    /// How this filter is written: its expression.
    pub fn to_string(&self) -> (s: String)
        ensures
            s@ == expression_text(self@),
    {
        self.expression.to_string()
    }
}

} // verus!
