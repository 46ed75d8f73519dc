//! Conversion of filters into query conditions, with columns found by name.

use vstd::prelude::*;

use super::ast::{ExpressionModel, Filter};
use super::condition::{
    condition_result, same_result, converts_to, converts_with, expression_to_condition, sequence_unsupported_message, Condition, ColumnType,
    FieldMapper,
};
use super::error::{filter_error_text, FilterError};
use crate::text::{chars_of, push_char};

verus! {

/// What `char::to_uppercase` gives for `c`.
pub uninterp spec fn char_uppercase(c: char) -> Seq<char>;

/// Calls `char::to_uppercase` and collects its characters. The
/// documentation says it maps each character to its Unicode uppercase
/// form, which for ASCII is the ASCII uppercase: a lowercase ASCII letter
/// becomes its capital, any other ASCII character stays as it is. For
/// other characters only the name [`char_uppercase`] is stated.
#[verifier::external_body]
fn uppercase_of(c: char) -> (r: String)
    ensures
        r@ == char_uppercase(c),
        'a' <= c <= 'z' ==> r@ == seq![((c as int) - 32) as char],
        (c as int) < 128 && !('a' <= c <= 'z') ==> r@ == seq![c],
{
    c.to_uppercase().collect()
}

/// The uppercase form of `c`: for an ASCII lowercase letter its capital,
/// for any other ASCII character `c` itself, and beyond ASCII what
/// `char::to_uppercase` gives.
pub open spec fn upper_text(c: char) -> Seq<char> {
    if 'a' <= c <= 'z' {
        seq![((c as int) - 32) as char]
    } else if (c as int) < 128 {
        seq![c]
    } else {
        char_uppercase(c)
    }
}

/// The PascalCase form of a snake_case name, reading `s` at the start of a
/// word when `at_start`: underscores are dropped and the first character
/// of each word is uppercased (`user_name` becomes `UserName`).
pub open spec fn pascal_from(s: Seq<char>, at_start: bool) -> Seq<char>
    decreases s.len(),
{
    if s.len() == 0 {
        Seq::empty()
    } else if s[0] == '_' {
        pascal_from(s.drop_first(), true)
    } else if at_start {
        upper_text(s[0]) + pascal_from(s.drop_first(), false)
    } else {
        seq![s[0]] + pascal_from(s.drop_first(), false)
    }
}

/// The PascalCase form of the snake_case name `s`.
pub open spec fn pascal_case_of(s: Seq<char>) -> Seq<char> {
    pascal_from(s, true)
}

/// The PascalCase form of a snake_case field name: the name is split at
/// underscores and each word gets its first character uppercased.
pub fn pascal_case(field: &str) -> (r: String)
    ensures
        r@ == pascal_case_of(field@),
{
    let cs = chars_of(field);
    let mut out = String::new();
    let mut at_start = true;
    let mut i: usize = 0;
    assert(cs@.skip(0) =~= cs@);
    assert(out@ =~= Seq::<char>::empty());
    while i < cs.len()
        invariant
            0 <= i <= cs@.len(),
            cs@ == field@,
            out@ + pascal_from(cs@.skip(i as int), at_start) == pascal_case_of(field@),
        decreases cs.len() - i,
    {
        let c = cs[i];
        let ghost rest = cs@.skip(i as int);
        assert(rest.drop_first() =~= cs@.skip(i + 1));
        if c == '_' {
            at_start = true;
        } else if at_start {
            let up = uppercase_of(c);
            out.append(up.as_str());
            at_start = false;
            assert(out@ + pascal_from(cs@.skip(i + 1), at_start) =~= pascal_case_of(field@));
        } else {
            push_char(&mut out, c);
            assert(out@ + pascal_from(cs@.skip(i + 1), at_start) =~= pascal_case_of(field@));
        }
        i = i + 1;
    }
    assert(cs@.skip(i as int) =~= Seq::<char>::empty());
    assert(out@ =~= pascal_case_of(field@));
    out
}

/// Column types that can be looked up by name, the way a SeaORM column
/// enum is parsed from a string.
pub trait ColumnName: Sized {
    /// The column named exactly `name`, or why there is none.
    fn from_name(name: &str) -> Result<Self, String>;
}

/// Columns of an entity: they can be looked up by name, and each has the
/// name it is written with in queries and a type.
pub trait EntityColumn: ColumnName {
    /// The column as it is written in queries.
    fn column_name(&self) -> String;

    /// The type of the column.
    fn column_type(&self) -> ColumnType;
}

/// The error for a field that names no column: `field: reason`.
pub open spec fn invalid_field_message(field: Seq<char>, reason: Seq<char>) -> Seq<char> {
    field + seq![':', ' '] + reason
}

/// The error for a field that names no column, for the given reason.
pub fn invalid_field(field: &str, reason: &str) -> (e: FilterError)
    ensures
        e matches FilterError::InvalidField(m) && m@ == invalid_field_message(field@, reason@),
{
    let mut m = field.to_owned();
    push_char(&mut m, ':');
    push_char(&mut m, ' ');
    m.append(reason);
    assert(m@ =~= invalid_field_message(field@, reason@));
    FilterError::InvalidField(m)
}

/// `r` is what a lookup of `field` gives when `found` is what the lookup
/// of its PascalCase form gave: the column found, or the error naming
/// `field` with the reason given.
pub open spec fn found_or_invalid<C>(field: Seq<char>, found: Result<C, String>, r: Result<C, FilterError>) -> bool {
    match found {
        Ok(column) => r matches Ok(c) && c == column,
        Err(reason) => r matches Err(FilterError::InvalidField(m)) && m@ == invalid_field_message(
            field,
            reason@,
        ),
    }
}

/// `r` is what looking up `field` among the columns `C` gives, for some
/// answers of `C::from_name`: `field` is looked up as it is; where that
/// finds a column, it is the result; otherwise the PascalCase form of
/// `field` ([`pascal_case_of`]) is looked up, and its answer decides as
/// [`found_or_invalid`] says.
pub open spec fn column_lookup<C: ColumnName>(field: &str, r: Result<C, FilterError>) -> bool {
    exists|direct: Result<C, String>|
        #[trigger] call_ensures(C::from_name, (field,), direct) && match direct {
            Ok(column) => r matches Ok(c) && c == column,
            Err(_) => exists|pascal: &str, found: Result<C, String>|
                pascal@ == pascal_case_of(field@) && #[trigger] call_ensures(
                    C::from_name,
                    (pascal,),
                    found,
                ) && found_or_invalid(field@, found, r),
        }
}

/// The column named `field`: looked up as it is, then, where that fails,
/// by its PascalCase form ([`pascal_case_of`]). Where neither names a
/// column, the error names the field and says why the PascalCase form
/// names none.
pub fn get_column<C: ColumnName>(field: &str) -> (r: Result<C, FilterError>)
    ensures
        column_lookup(field, r),
        r matches Err(e) ==> exists|reason: Seq<char>|
            e matches FilterError::InvalidField(m) && m@ == #[trigger] invalid_field_message(field@, reason),
{
    let direct = C::from_name(field);
    let ghost direct_answer = direct;
    match direct {
        Ok(column) => {
            return Ok(column);
        },
        Err(_) => {},
    }
    let pascal = pascal_case(field);
    let name = pascal.as_str();
    let found = C::from_name(name);
    let ghost found_answer = found;
    let r = column_or_invalid(field, found);
    proof {
        assert(call_ensures(C::from_name, (name,), found_answer));
        assert(found_or_invalid(field@, found_answer, r));
        assert(call_ensures(C::from_name, (field,), direct_answer));
    }
    r
}

/// What the lookup of a field's PascalCase form gives: the column it
/// found, or, where it found none, the error naming `field` with the
/// reason the lookup gave.
pub fn column_or_invalid<C>(field: &str, found: Result<C, String>) -> (r: Result<C, FilterError>)
    ensures
        found_or_invalid(field@, found, r),
{
    match found {
        Ok(column) => Ok(column),
        Err(reason) => Err(invalid_field(field, reason.as_str())),
    }
}

/// `r` is the name, as written in queries, of the column that looking up
/// `field` among the columns `C` finds ([`column_lookup`]), for some
/// answer of `C::column_name`; or the error of that lookup.
pub open spec fn column_name_lookup<C: EntityColumn>(field: &str, r: Result<String, FilterError>) -> bool {
    exists|g: Result<C, FilterError>|
        #[trigger] column_lookup(field, g) && match g {
            Ok(column) => exists|name: String|
                #[trigger] call_ensures(C::column_name, (&column,), name) && r == Ok::<
                    String,
                    FilterError,
                >(name),
            Err(e) => r == Err::<String, FilterError>(e),
        }
}

/// `C::from_name` answers every name the same way, however often it is
/// asked.
pub open spec fn looks_up_by_name<C: ColumnName>() -> bool {
    forall|n1: &str, n2: &str, a1: Result<C, String>, a2: Result<C, String>|
        #![trigger call_ensures(C::from_name, (n1,), a1), call_ensures(C::from_name, (n2,), a2)]
        n1@ == n2@ && call_ensures(C::from_name, (n1,), a1) && call_ensures(C::from_name, (n2,), a2)
            ==> a1 == a2
}

/// With a lookup that answers every name the same way, looking up a field
/// has one result only, up to how errors are shown.
pub proof fn lemma_lookup_unique<C: ColumnName>(
    field: &str,
    g1: Result<C, FilterError>,
    g2: Result<C, FilterError>,
)
    requires
        looks_up_by_name::<C>(),
        column_lookup(field, g1),
        column_lookup(field, g2),
    ensures
        same_result(g1, g2),
{
    let d1 = choose|direct: Result<C, String>|
        #[trigger] call_ensures(C::from_name, (field,), direct) && match direct {
            Ok(column) => g1 matches Ok(c) && c == column,
            Err(_) => exists|pascal: &str, found: Result<C, String>|
                pascal@ == pascal_case_of(field@) && #[trigger] call_ensures(
                    C::from_name,
                    (pascal,),
                    found,
                ) && found_or_invalid(field@, found, g1),
        };
    let d2 = choose|direct: Result<C, String>|
        #[trigger] call_ensures(C::from_name, (field,), direct) && match direct {
            Ok(column) => g2 matches Ok(c) && c == column,
            Err(_) => exists|pascal: &str, found: Result<C, String>|
                pascal@ == pascal_case_of(field@) && #[trigger] call_ensures(
                    C::from_name,
                    (pascal,),
                    found,
                ) && found_or_invalid(field@, found, g2),
        };
    assert(d1 == d2);
    if d1 is Err {
        let (p1, f1) = choose|pascal: &str, found: Result<C, String>|
            pascal@ == pascal_case_of(field@) && #[trigger] call_ensures(
                C::from_name,
                (pascal,),
                found,
            ) && found_or_invalid(field@, found, g1);
        let (p2, f2) = choose|pascal: &str, found: Result<C, String>|
            pascal@ == pascal_case_of(field@) && #[trigger] call_ensures(
                C::from_name,
                (pascal,),
                found,
            ) && found_or_invalid(field@, found, g2);
        assert(f1 == f2);
    }
}

/// With lookups that answer every name the same way, `column_from_str`
/// agrees with `get_column`:
/// where the lookup of `field` finds a column, its result is that column's
/// name; otherwise it is the same error.
pub proof fn lemma_column_from_str_agrees<C: EntityColumn>(
    field: &str,
    g: Result<C, FilterError>,
    r: Result<String, FilterError>,
)
    requires
        looks_up_by_name::<C>(),
        column_lookup(field, g),
        column_name_lookup::<C>(field, r),
    ensures
        g is Ok <==> r is Ok,
        g matches Ok(c) ==> exists|n: String|
            #[trigger] call_ensures(C::column_name, (&c,), n) && (r matches Ok(rn) && rn@ == n@),
        g matches Err(x) ==> (r matches Err(y) && filter_error_text(x) == filter_error_text(y)),
{
    let g2 = choose|g: Result<C, FilterError>|
        #[trigger] column_lookup(field, g) && match g {
            Ok(column) => exists|name: String|
                #[trigger] call_ensures(C::column_name, (&column,), name) && r == Ok::<
                    String,
                    FilterError,
                >(name),
            Err(e) => r == Err::<String, FilterError>(e),
        };
    lemma_lookup_unique(field, g, g2);
    if g is Ok {
        let n = choose|name: String|
            #[trigger] call_ensures(C::column_name, (&g2->Ok_0,), name) && r == Ok::<
                String,
                FilterError,
            >(name);
        assert(call_ensures(C::column_name, (&g->Ok_0,), n));
    }
}

/// The column named `field`, as it is written in queries: the
/// [`EntityColumn::column_name`] of the column [`get_column`] finds, or
/// its error.
pub fn column_from_str<C: EntityColumn>(field: &str) -> (r: Result<String, FilterError>)
    ensures
        column_name_lookup::<C>(field, r),
        r matches Err(e) ==> exists|reason: Seq<char>|
            e matches FilterError::InvalidField(m) && m@ == #[trigger] invalid_field_message(field@, reason),
{
    let g = get_column::<C>(field);
    let ghost found = g;
    match g {
        Ok(column) => {
            let name = column.column_name();
            proof {
                assert(call_ensures(C::column_name, (&column,), name));
            }
            Ok(name)
        },
        Err(e) => Err(e),
    }
}

/// The columns of `C`, found by field name with [`get_column`].
pub struct ColumnsOf<C> {
    columns: core::marker::PhantomData<C>,
}

impl<C> ColumnsOf<C> {
    /// The columns of `C`; all values of this type are the same.
    pub closed spec fn all() -> ColumnsOf<C> {
        ColumnsOf { columns: core::marker::PhantomData }
    }

    /// The columns of `C`.
    pub fn new() -> (r: ColumnsOf<C>)
        ensures
            r == Self::all(),
    {
        ColumnsOf { columns: core::marker::PhantomData }
    }
}

impl<C: EntityColumn> FieldMapper for ColumnsOf<C> {
    /// The name and type of the column [`get_column`] finds for `field`;
    /// where it finds none, its error.
    fn map_field(&self, field: &str) -> (r: Result<(String, ColumnType), FilterError>)
        ensures
            exists|g: Result<C, FilterError>|
                #[trigger] column_lookup(field, g) && match g {
                    Ok(column) => exists|name: String, t: ColumnType|
                        #[trigger] call_ensures(C::column_name, (&column,), name)
                            && #[trigger] call_ensures(C::column_type, (&column,), t) && r == Ok::<
                            (String, ColumnType),
                            FilterError,
                        >((name, t)),
                    Err(e) => r == Err::<(String, ColumnType), FilterError>(e),
                },
            r matches Err(e) ==> exists|reason: Seq<char>|
                e matches FilterError::InvalidField(m) && m@ == #[trigger] invalid_field_message(
                    field@,
                    reason,
                ),
    {
        let g = get_column::<C>(field);
        let ghost found = g;
        match g {
            Ok(column) => {
                let name = column.column_name();
                let t = column.column_type();
                proof {
                    assert(call_ensures(C::column_name, (&column,), name));
                    assert(call_ensures(C::column_type, (&column,), t));
                }
                Ok((name, t))
            },
            Err(e) => Err(e),
        }
    }
}

/// Converts a filter to a query condition, with the columns of an entity.
pub trait ToSeaOrmCondition {
    /// The expression that is converted.
    spec fn converted_expression(&self) -> ExpressionModel;

    /// The condition for the filter, with its fields looked up among the
    /// columns `C` by [`get_column`].
    fn to_condition<C: EntityColumn>(&self) -> (r: Result<Condition, FilterError>)
        ensures
            converts_with(&ColumnsOf::<C>::all(), self.converted_expression(), condition_result(r)),
            r matches Ok(c) ==> converts_to(self.converted_expression(), c@),
            self.converted_expression() is Sequence ==> (r matches Err(
                FilterError::UnsupportedOperation(m),
            ) && m@ == sequence_unsupported_message()),
    ;
}

impl ToSeaOrmCondition for Filter {
    open spec fn converted_expression(&self) -> ExpressionModel {
        self@
    }

    fn to_condition<C: EntityColumn>(&self) -> (r: Result<Condition, FilterError>) {
        expression_to_condition(&ColumnsOf::<C>::new(), &self.expression)
    }
}

} // verus!
