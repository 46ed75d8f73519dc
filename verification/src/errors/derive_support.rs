//! The decisions that the `IntoStatus` derive makes for each variant of an
//! error enum: what its message is made of and which fields become
//! metadata, under which keys.

use vstd::prelude::*;

use crate::text::{chars_of, push_char, same_text, string_from_chars};

verus! {

/// The position of the first `}` at or after `i`, or the end of `t`.
pub open spec fn name_end(t: Seq<char>, i: int) -> int
    decreases t.len() - i,
{
    if 0 <= i < t.len() && t[i] != '}' {
        name_end(t, i + 1)
    } else {
        i
    }
}

/// The format string and the argument names for the part of the message
/// template `t` from position `i`: each `{name}` that names a field
/// becomes `{}` with `name` as the next argument; any other `{name}` (an
/// unclosed one included) is kept as `{name}`; other characters are kept.
pub open spec fn template_parts(t: Seq<char>, i: int, fields: Seq<Seq<char>>) -> (
    Seq<char>,
    Seq<Seq<char>>,
)
    decreases t.len() - i,
{
    if i < 0 || i >= t.len() {
        (Seq::empty(), Seq::empty())
    } else if t[i] == '{' {
        let j = name_end(t, i + 1);
        let name = t.subrange(i + 1, j);
        let next = if j < t.len() {
            j + 1
        } else {
            j
        };
        if i < next <= t.len() {
            let rest = template_parts(t, next, fields);
            if fields.contains(name) {
                (seq!['{', '}'] + rest.0, seq![name] + rest.1)
            } else {
                (seq!['{'] + name + seq!['}'] + rest.0, rest.1)
            }
        } else {
            (Seq::empty(), Seq::empty())
        }
    } else {
        let rest = template_parts(t, i + 1, fields);
        (seq![t[i]] + rest.0, rest.1)
    }
}

/// Tells whether `name` is one of `names`.
fn contains_name(names: &Vec<String>, name: &str) -> (r: bool)
    ensures
        r == names@.map_values(|n: String| n@).contains(name@),
{
    let ghost views = names@.map_values(|n: String| n@);
    let mut i: usize = 0;
    while i < names.len()
        invariant
            0 <= i <= names@.len(),
            views == names@.map_values(|n: String| n@),
            forall|j: int| 0 <= j < i ==> views[j] != name@,
        decreases names.len() - i,
    {
        if same_text(names[i].as_str(), name) {
            assert(views[i as int] == name@);
            return true;
        }
        i = i + 1;
    }
    proof {
        if views.contains(name@) {
            let j = choose|j: int| 0 <= j < views.len() && views[j] == name@;
            assert(views[j] != name@);
        }
    }
    false
}

/// The format string and the argument names that a message template turns
/// into, given the names of the variant's fields: see [`template_parts`].
pub fn parse_message_template(template: &str, field_names: &Vec<String>) -> (r: (String, Vec<String>))
    ensures
        r.0@ == template_parts(template@, 0, field_names@.map_values(|n: String| n@)).0,
        r.1@.map_values(|n: String| n@) == template_parts(
            template@,
            0,
            field_names@.map_values(|n: String| n@),
        ).1,
{
    let ghost fields = field_names@.map_values(|n: String| n@);
    let t = chars_of(template);
    let n = t.len();
    let mut format = String::new();
    let mut args: Vec<String> = Vec::new();
    let mut i: usize = 0;
    while i < n
        invariant
            0 <= i <= n,
            n == t@.len(),
            t@ == template@,
            fields == field_names@.map_values(|n: String| n@),
            format@ + template_parts(t@, i as int, fields).0 == template_parts(t@, 0, fields).0,
            args@.map_values(|n: String| n@) + template_parts(t@, i as int, fields).1
                == template_parts(t@, 0, fields).1,
        decreases n - i,
    {
        let ghost before_f = format@;
        let ghost before_a = args@.map_values(|n: String| n@);
        if t[i] == '{' {
            let mut j = i + 1;
            while j < n && t[j] != '}'
                invariant
                    i < j <= n,
                    n == t@.len(),
                    name_end(t@, j as int) == name_end(t@, i + 1),
                decreases n - j,
            {
                j = j + 1;
            }
            let name = string_from_chars(&t, i + 1, j);
            let next = if j < n {
                j + 1
            } else {
                j
            };
            let ghost rest = template_parts(t@, next as int, fields);
            if contains_name(field_names, name.as_str()) {
                push_char(&mut format, '{');
                push_char(&mut format, '}');
                args.push(name);
                proof {
                    assert(args@.map_values(|n: String| n@) =~= before_a.push(name@));
                    assert(format@ + rest.0 =~= before_f + (seq!['{', '}'] + rest.0));
                    assert(args@.map_values(|n: String| n@) + rest.1 =~= before_a + (seq![name@]
                        + rest.1));
                }
            } else {
                push_char(&mut format, '{');
                format.append(name.as_str());
                push_char(&mut format, '}');
                proof {
                    assert(format@ + rest.0 =~= before_f + (seq!['{'] + name@ + seq!['}']
                        + rest.0));
                }
            }
            i = next;
        } else {
            let ghost rest = template_parts(t@, i + 1, fields);
            push_char(&mut format, t[i]);
            proof {
                assert(format@ + rest.0 =~= before_f + (seq![t@[i as int]] + rest.0));
            }
            i = i + 1;
        }
    }
    proof {
        assert(format@ =~= template_parts(t@, 0, fields).0);
        assert(args@.map_values(|n: String| n@) =~= template_parts(t@, 0, fields).1);
    }
    (format, args)
}

/// What the message of a variant is made of.
#[derive(Debug, Clone, PartialEq, Eq)]
pub enum MessageSource {
    /// A fixed message.
    Literal(String),
    /// A format string and the fields whose values fill its `{}` in order.
    Format(String, Vec<String>),
}

/// The message of a variant: its name where it has no message template;
/// the template itself where no `{field}` in it names a field; otherwise
/// the format string and fields of [`parse_message_template`].
pub fn variant_message(variant_name: &str, template: Option<&str>, field_names: &Vec<String>) -> (r:
    MessageSource)
    ensures
        match template {
            None => r matches MessageSource::Literal(m) && m@ == variant_name@,
            Some(t) => {
                let parts = template_parts(t@, 0, field_names@.map_values(|n: String| n@));
                if parts.1.len() == 0 {
                    r matches MessageSource::Literal(m) && m@ == t@
                } else {
                    r matches MessageSource::Format(f, args) && f@ == parts.0 && args@.map_values(
                        |n: String| n@,
                    ) == parts.1
                }
            },
        },
{
    match template {
        None => MessageSource::Literal(variant_name.to_owned()),
        Some(t) => {
            let (format, args) = parse_message_template(t, field_names);
            if args.len() == 0 {
                MessageSource::Literal(t.to_owned())
            } else {
                MessageSource::Format(format, args)
            }
        },
    }
}

/// A field of a variant, as the derive sees it.
#[derive(Debug, Clone, PartialEq, Eq)]
pub struct StatusField {
    /// The field's name; tuple fields have none.
    pub ident: Option<String>,
    /// Whether the field is reported in the metadata.
    pub metadata: bool,
    /// The key it is reported under, where it is not the field's name.
    pub metadata_key: Option<String>,
}

/// The metadata entries of the fields from position `i`: for each named
/// field marked as metadata, its key (the custom key, else the field's
/// name) and its name, in order.
pub open spec fn metadata_entries_from(fields: Seq<StatusField>, i: int) -> Seq<(Seq<char>, Seq<char>)>
    decreases fields.len() - i,
{
    if i < 0 || i >= fields.len() {
        Seq::empty()
    } else {
        let f = fields[i];
        let rest = metadata_entries_from(fields, i + 1);
        match f.ident {
            Some(name) => if f.metadata {
                let key = match f.metadata_key {
                    Some(k) => k@,
                    None => name@,
                };
                seq![(key, name@)] + rest
            } else {
                rest
            },
            None => rest,
        }
    }
}

/// The metadata entries of a variant's fields: (key, field name) for each
/// named field marked as metadata, in order.
pub fn metadata_entries(fields: &Vec<StatusField>) -> (r: Vec<(String, String)>)
    ensures
        r@.map_values(|e: (String, String)| (e.0@, e.1@)) == metadata_entries_from(fields@, 0),
{
    let mut out: Vec<(String, String)> = Vec::new();
    let mut i: usize = 0;
    while i < fields.len()
        invariant
            0 <= i <= fields@.len(),
            out@.map_values(|e: (String, String)| (e.0@, e.1@)) + metadata_entries_from(
                fields@,
                i as int,
            ) == metadata_entries_from(fields@, 0),
        decreases fields.len() - i,
    {
        let f = &fields[i];
        let ghost before = out@.map_values(|e: (String, String)| (e.0@, e.1@));
        let ghost rest = metadata_entries_from(fields@, i + 1);
        match &f.ident {
            Some(name) => {
                if f.metadata {
                    let key = match &f.metadata_key {
                        Some(k) => k.clone(),
                        None => name.clone(),
                    };
                    let ghost entry = (key@, name@);
                    out.push((key, name.clone()));
                    proof {
                        assert(out@.map_values(|e: (String, String)| (e.0@, e.1@)) =~= before.push(
                            entry,
                        ));
                        assert(before.push(entry) + rest =~= before + (seq![entry] + rest));
                    }
                }
            },
            None => {},
        }
        i = i + 1;
    }
    assert(out@.map_values(|e: (String, String)| (e.0@, e.1@)) =~= metadata_entries_from(
        fields@,
        0,
    ));
    out
}

/// What a lookup of a crate among the dependencies found: the crate being built
/// itself, or a dependency under the name it is known by.
#[derive(Debug, Clone, PartialEq, Eq)]
pub enum FoundCrate {
    /// The crate being built.
    Itself,
    /// A dependency, under this name.
    Name(String),
}

/// How code refers to the root of a crate that a lookup found: `crate`
/// for the crate itself, `::name` for a dependency.
pub open spec fn root_path_text(found: FoundCrate) -> Seq<char> {
    match found {
        FoundCrate::Itself => "crate"@,
        FoundCrate::Name(n) => "::"@ + n@,
    }
}

/// The path the generated code uses for the error types: the `errors`
/// module of the umbrella crate where that crate was found, else the root
/// of the error crate where it was found, else `::aip_193`.
pub open spec fn crate_path_text(umbrella: Option<FoundCrate>, errors: Option<FoundCrate>) -> Seq<
    char,
> {
    match umbrella {
        Some(f) => root_path_text(f) + "::__private::errors"@,
        None => match errors {
            Some(f) => root_path_text(f),
            None => "::aip_193"@,
        },
    }
}

/// The path the generated code uses for the web framework: the root of
/// `axum` where it was found, else that of `axum-core` where it was found,
/// else `::axum`.
pub open spec fn axum_path_text(axum: Option<FoundCrate>, axum_core: Option<FoundCrate>) -> Seq<
    char,
> {
    match axum {
        Some(f) => root_path_text(f),
        None => match axum_core {
            Some(f) => root_path_text(f),
            None => "::axum"@,
        },
    }
}

/// The root path of a crate that a lookup found.
fn root_path(found: &FoundCrate) -> (r: String)
    ensures
        r@ == root_path_text(*found),
{
    match found {
        FoundCrate::Itself => "crate".to_owned(),
        FoundCrate::Name(n) => {
            let mut out = "::".to_owned();
            out.append(n.as_str());
            out
        },
    }
}

/// The path for the error types, given what the lookups of the umbrella
/// crate (`aip`) and of the error crate (`aip-193`) found: see
/// [`crate_path_text`].
pub fn crate_path(umbrella: &Option<FoundCrate>, errors: &Option<FoundCrate>) -> (r: String)
    ensures
        r@ == crate_path_text(*umbrella, *errors),
{
    match umbrella {
        Some(f) => {
            let mut out = root_path(f);
            out.append("::__private::errors");
            out
        },
        None => match errors {
            Some(f) => root_path(f),
            None => "::aip_193".to_owned(),
        },
    }
}

/// The path for the web framework, given what the lookups of `axum` and of
/// `axum-core` found: see [`axum_path_text`].
pub fn axum_path(axum: &Option<FoundCrate>, axum_core: &Option<FoundCrate>) -> (r: String)
    ensures
        r@ == axum_path_text(*axum, *axum_core),
{
    match axum {
        Some(f) => root_path(f),
        None => match axum_core {
            Some(f) => root_path(f),
            None => "::axum".to_owned(),
        },
    }
}

/// The shape of a variant's fields.
#[derive(Debug, Clone, Copy, PartialEq, Eq)]
pub enum FieldStyle {
    /// No fields.
    Unit,
    /// Named fields, in braces.
    Struct,
    /// Positional fields, in parentheses.
    Tuple,
}

/// The decimal digit for `d`, which is below ten.
pub open spec fn digit_char(d: nat) -> char {
    if d == 0 {
        '0'
    } else if d == 1 {
        '1'
    } else if d == 2 {
        '2'
    } else if d == 3 {
        '3'
    } else if d == 4 {
        '4'
    } else if d == 5 {
        '5'
    } else if d == 6 {
        '6'
    } else if d == 7 {
        '7'
    } else if d == 8 {
        '8'
    } else {
        '9'
    }
}

/// `n` written in decimal.
pub open spec fn decimal(n: nat) -> Seq<char>
    decreases n,
{
    if n < 10 {
        seq![digit_char(n)]
    } else {
        decimal(n / 10) + seq![digit_char(n % 10)]
    }
}

/// The parts joined with `, `.
pub open spec fn joined(parts: Seq<Seq<char>>) -> Seq<char>
    decreases parts.len(),
{
    if parts.len() == 0 {
        Seq::empty()
    } else if parts.len() == 1 {
        parts[0]
    } else {
        joined(parts.drop_last()) + seq![',', ' '] + parts.last()
    }
}

/// The names of the named fields among the first `n` fields, in order.
pub open spec fn named_fields(fields: Seq<StatusField>, n: int) -> Seq<Seq<char>>
    decreases n,
{
    if n <= 0 || n > fields.len() {
        Seq::empty()
    } else {
        let rest = named_fields(fields, n - 1);
        match fields[n - 1].ident {
            Some(name) => rest.push(name@),
            None => rest,
        }
    }
}

/// The bindings `_0`, `_1`, ... of `n` positional fields.
pub open spec fn tuple_bindings(n: nat) -> Seq<Seq<char>> {
    Seq::new(n, |i: int| seq!['_'] + decimal(i as nat))
}

/// The match pattern for a variant: `Enum::Variant` for a unit variant,
/// `Enum::Variant { a, b }` binding each named field, and
/// `Enum::Variant(_0, _1)` binding each positional field.
pub open spec fn pattern_text(
    enum_name: Seq<char>,
    variant_name: Seq<char>,
    style: FieldStyle,
    fields: Seq<StatusField>,
) -> Seq<char> {
    let head = enum_name + seq![':', ':'] + variant_name;
    match style {
        FieldStyle::Unit => head,
        FieldStyle::Struct => head + seq![' ', '{', ' '] + joined(
            named_fields(fields, fields.len() as int),
        ) + seq![' ', '}'],
        FieldStyle::Tuple => head + seq!['('] + joined(tuple_bindings(fields.len())) + seq![')'],
    }
}

/// The decimal digit for `d`.
fn digit(d: usize) -> (c: char)
    requires
        d < 10,
    ensures
        c == digit_char(d as nat),
{
    if d == 0 {
        '0'
    } else if d == 1 {
        '1'
    } else if d == 2 {
        '2'
    } else if d == 3 {
        '3'
    } else if d == 4 {
        '4'
    } else if d == 5 {
        '5'
    } else if d == 6 {
        '6'
    } else if d == 7 {
        '7'
    } else if d == 8 {
        '8'
    } else {
        '9'
    }
}

/// Appends `n` in decimal to `out`.
fn push_decimal(out: &mut String, n: usize)
    ensures
        final(out)@ == old(out)@ + decimal(n as nat),
    decreases n,
{
    if n >= 10 {
        push_decimal(out, n / 10);
    }
    push_char(out, digit(n % 10));
    assert(final(out)@ =~= old(out)@ + decimal(n as nat));
}

/// Appends the parts joined with `, ` to `out`.
fn push_joined(out: &mut String, parts: &Vec<String>)
    ensures
        final(out)@ == old(out)@ + joined(parts@.map_values(|p: String| p@)),
{
    let ghost views = parts@.map_values(|p: String| p@);
    let ghost start = out@;
    let mut i: usize = 0;
    while i < parts.len()
        invariant
            0 <= i <= parts@.len(),
            views == parts@.map_values(|p: String| p@),
            out@ == start + joined(views.take(i as int)),
        decreases parts.len() - i,
    {
        let ghost before = out@;
        if i > 0 {
            push_char(out, ',');
            push_char(out, ' ');
        }
        out.append(parts[i].as_str());
        proof {
            let next = views.take(i + 1);
            assert(next.drop_last() =~= views.take(i as int));
            assert(next.last() == views[i as int]);
            if i == 0 {
                assert(joined(views.take(0)) =~= Seq::<char>::empty());
                assert(out@ =~= start + joined(next));
            } else {
                assert(out@ =~= start + joined(next));
            }
        }
        i = i + 1;
    }
    assert(views.take(parts@.len() as int) =~= views);
}

/// The match pattern for a variant of the enum `enum_name`: see
/// [`pattern_text`].
pub fn variant_pattern(
    enum_name: &str,
    variant_name: &str,
    style: FieldStyle,
    fields: &Vec<StatusField>,
) -> (r: String)
    ensures
        r@ == pattern_text(enum_name@, variant_name@, style, fields@),
{
    let mut out = enum_name.to_owned();
    push_char(&mut out, ':');
    push_char(&mut out, ':');
    out.append(variant_name);
    let ghost head = out@;
    assert(head =~= enum_name@ + seq![':', ':'] + variant_name@);
    match style {
        FieldStyle::Unit => {},
        FieldStyle::Struct => {
            let mut names: Vec<String> = Vec::new();
            let mut i: usize = 0;
            while i < fields.len()
                invariant
                    0 <= i <= fields@.len(),
                    names@.map_values(|p: String| p@) == named_fields(fields@, i as int),
                decreases fields.len() - i,
            {
                let ghost before = names@.map_values(|p: String| p@);
                match &fields[i].ident {
                    Some(name) => {
                        names.push(name.clone());
                        assert(names@.map_values(|p: String| p@) =~= before.push(
                            fields@[i as int].ident->0@,
                        ));
                    },
                    None => {},
                }
                i = i + 1;
            }
            push_char(&mut out, ' ');
            push_char(&mut out, '{');
            push_char(&mut out, ' ');
            let ghost opened = out@;
            push_joined(&mut out, &names);
            push_char(&mut out, ' ');
            push_char(&mut out, '}');
            assert(out@ =~= pattern_text(enum_name@, variant_name@, style, fields@));
        },
        FieldStyle::Tuple => {
            let mut bindings: Vec<String> = Vec::new();
            let mut i: usize = 0;
            while i < fields.len()
                invariant
                    0 <= i <= fields@.len(),
                    bindings@.map_values(|p: String| p@) =~= tuple_bindings(i as nat),
                decreases fields.len() - i,
            {
                let ghost before = bindings@.map_values(|p: String| p@);
                let mut b = String::new();
                push_char(&mut b, '_');
                push_decimal(&mut b, i);
                assert(b@ =~= seq!['_'] + decimal(i as nat));
                let ghost bv = b@;
                bindings.push(b);
                proof {
                    let now = bindings@.map_values(|p: String| p@);
                    assert(now =~= before.push(bv));
                    assert forall|k: int| 0 <= k < i + 1 implies now[k] == tuple_bindings(
                        (i + 1) as nat,
                    )[k] by {
                        if k < i {
                            assert(before[k] == tuple_bindings(i as nat)[k]);
                        }
                    }
                    assert(now =~= tuple_bindings((i + 1) as nat));
                }
                i = i + 1;
            }
            push_char(&mut out, '(');
            push_joined(&mut out, &bindings);
            push_char(&mut out, ')');
            assert(out@ =~= pattern_text(enum_name@, variant_name@, style, fields@));
        },
    }
    out
}

} // verus!
