//! The codec contract by which application record types map to and
//! from entity values: the casing rule applied to every field or
//! variant name not explicitly renamed, per-field renames and default
//! values, the zero defaults of the obvious primitive types, and the
//! missing-property and unknown-variant errors of decoding.  Encoding
//! is total and never fails.
use vstd::prelude::*;

use crate::Error;
use crate::values::SpecValue;
use crate::values::Timestamp;
use crate::values::Value;
use crate::values::props_view;
use crate::values::value_view;

verus! {

// ---------------------------------------------------------------------
// Characters and casing
// ---------------------------------------------------------------------

/// The casing rules a record type may declare for all its fields or
/// variants.
#[derive(Clone, Copy, Debug, PartialEq, Eq, Structural)]
pub enum RenameAll {
    LowerCase,
    UpperCase,
    PascalCase,
    CamelCase,
    SnakeCase,
    ScreamingSnakeCase,
    KebabCase,
    ScreamingKebabCase,
}

impl Default for RenameAll {
    /// The casing applied when a record declares none.
    fn default() -> (r: RenameAll)
        ensures
            r == RenameAll::CamelCase,
    {
        RenameAll::CamelCase
    }
}

/// An ASCII lowercase letter raised to its uppercase form; any other
/// character is unchanged.
pub open spec fn spec_upper_char(c: char) -> char {
    if 'a' <= c && c <= 'z' {
        (((c as u8) - 32) as char)
    } else {
        c
    }
}

/// An ASCII uppercase letter lowered to its lowercase form; any other
/// character is unchanged.
pub open spec fn spec_lower_char(c: char) -> char {
    if 'A' <= c && c <= 'Z' {
        (((c as u8) + 32) as char)
    } else {
        c
    }
}

fn upper_char(c: char) -> (r: char)
    ensures
        r == spec_upper_char(c),
{
    if 'a' <= c && c <= 'z' {
        ((c as u8) - 32) as char
    } else {
        c
    }
}

fn lower_char(c: char) -> (r: char)
    ensures
        r == spec_lower_char(c),
{
    if 'A' <= c && c <= 'Z' {
        ((c as u8) + 32) as char
    } else {
        c
    }
}

/// Relies on `String::push`: appends one character.
#[verifier::external_body]
fn push_char(s: &mut String, c: char)
    ensures
        final(s)@ == old(s)@.push(c),
{
    s.push(c);
}

/// Every character lowered.
pub open spec fn spec_map_lower(s: Seq<char>) -> Seq<char> {
    Seq::new(s.len(), |i: int| spec_lower_char(s[i]))
}

/// Every character raised.
pub open spec fn spec_map_upper(s: Seq<char>) -> Seq<char> {
    Seq::new(s.len(), |i: int| spec_upper_char(s[i]))
}

/// Every underscore replaced by a dash.
pub open spec fn spec_map_dash(s: Seq<char>) -> Seq<char> {
    Seq::new(
        s.len(),
        |i: int|
            if s[i] == '_' {
                '-'
            } else {
                s[i]
            },
    )
}

/// Every underscore replaced by a dash and every letter raised.
pub open spec fn spec_map_upper_dash(s: Seq<char>) -> Seq<char> {
    Seq::new(
        s.len(),
        |i: int|
            if s[i] == '_' {
                '-'
            } else {
                spec_upper_char(s[i])
            },
    )
}

/// A snake-case name joined into one word: underscores dropped, the
/// character after each dropped underscore raised; `boundary` says
/// whether the next character starts a word.
pub open spec fn spec_pascal(s: Seq<char>, boundary: bool) -> Seq<char>
    decreases s.len(),
{
    if s.len() == 0 {
        Seq::empty()
    } else if s[0] == '_' {
        spec_pascal(s.drop_first(), true)
    } else {
        seq![
            if boundary {
                spec_upper_char(s[0])
            } else {
                s[0]
            },
        ] + spec_pascal(s.drop_first(), false)
    }
}

/// A one-word cased name split at its uppercase letters: each letter
/// that begins a word (after the first) is preceded by `sep`, and
/// every character is lowered, or raised when `screaming`.
pub open spec fn spec_sep_words(s: Seq<char>, sep: char, screaming: bool, first: bool) -> Seq<char>
    decreases s.len(),
{
    if s.len() == 0 {
        Seq::empty()
    } else {
        let c = s[0];
        let lead: Seq<char> = if 'A' <= c && c <= 'Z' && !first {
            seq![sep]
        } else {
            Seq::empty()
        };
        let mapped = if screaming {
            spec_upper_char(c)
        } else {
            spec_lower_char(c)
        };
        lead + seq![mapped] + spec_sep_words(s.drop_first(), sep, screaming, false)
    }
}

/// The casing rule applied to a field name, which is written in snake
/// case.
pub open spec fn spec_field_casing(rule: RenameAll, s: Seq<char>) -> Seq<char> {
    match rule {
        RenameAll::LowerCase => spec_map_lower(s),
        RenameAll::UpperCase => spec_map_upper(s),
        RenameAll::PascalCase => spec_pascal(s, true),
        RenameAll::CamelCase => spec_pascal(s, false),
        RenameAll::SnakeCase => s,
        RenameAll::ScreamingSnakeCase => spec_map_upper(s),
        RenameAll::KebabCase => spec_map_dash(s),
        RenameAll::ScreamingKebabCase => spec_map_upper_dash(s),
    }
}

/// The casing rule applied to a variant name, which is written in
/// Pascal case.
pub open spec fn spec_variant_casing(rule: RenameAll, s: Seq<char>) -> Seq<char> {
    match rule {
        RenameAll::LowerCase => spec_map_lower(s),
        RenameAll::UpperCase => spec_map_upper(s),
        RenameAll::PascalCase => s,
        RenameAll::CamelCase => if s.len() == 0 {
            Seq::empty()
        } else {
            seq![spec_lower_char(s[0])] + s.drop_first()
        },
        RenameAll::SnakeCase => spec_sep_words(s, '_', false, true),
        RenameAll::ScreamingSnakeCase => spec_sep_words(s, '_', true, true),
        RenameAll::KebabCase => spec_sep_words(s, '-', false, true),
        RenameAll::ScreamingKebabCase => spec_sep_words(s, '-', true, true),
    }
}

/// One pass over the characters with a per-character mapping chosen by
/// the rule's word shape.
#[verifier::loop_isolation(false)]
fn map_string(s: &String, rule: RenameAll) -> (r: String)
    requires
        rule is LowerCase || rule is UpperCase || rule is ScreamingSnakeCase || rule is KebabCase
            || rule is ScreamingKebabCase,
    ensures
        rule is LowerCase ==> r@ == spec_map_lower(s@),
        rule is UpperCase || rule is ScreamingSnakeCase ==> r@ == spec_map_upper(s@),
        rule is KebabCase ==> r@ == spec_map_dash(s@),
        rule is ScreamingKebabCase ==> r@ == spec_map_upper_dash(s@),
{
    let n = s.as_str().unicode_len();
    let mut out = String::new();
    let mut i: usize = 0;
    while i < n
        invariant
            0 <= i <= n,
            n == s@.len(),
            out@.len() == i,
            rule is LowerCase ==> out@ =~= spec_map_lower(s@).take(i as int),
            rule is UpperCase || rule is ScreamingSnakeCase ==> out@ =~= spec_map_upper(s@).take(
                i as int,
            ),
            rule is KebabCase ==> out@ =~= spec_map_dash(s@).take(i as int),
            rule is ScreamingKebabCase ==> out@ =~= spec_map_upper_dash(s@).take(i as int),
        decreases n - i,
    {
        let c = s.as_str().get_char(i);
        let mapped = match rule {
            RenameAll::LowerCase => lower_char(c),
            RenameAll::KebabCase => if c == '_' {
                '-'
            } else {
                c
            },
            RenameAll::ScreamingKebabCase => if c == '_' {
                '-'
            } else {
                upper_char(c)
            },
            _ => upper_char(c),
        };
        push_char(&mut out, mapped);
        i = i + 1;
        proof {
            if rule is LowerCase {
                assert(out@ =~= spec_map_lower(s@).take(i as int));
            }
            if rule is UpperCase || rule is ScreamingSnakeCase {
                assert(out@ =~= spec_map_upper(s@).take(i as int));
            }
            if rule is KebabCase {
                assert(out@ =~= spec_map_dash(s@).take(i as int));
            }
            if rule is ScreamingKebabCase {
                assert(out@ =~= spec_map_upper_dash(s@).take(i as int));
            }
        }
    }
    proof {
        assert(spec_map_lower(s@).take(n as int) =~= spec_map_lower(s@));
        assert(spec_map_upper(s@).take(n as int) =~= spec_map_upper(s@));
        assert(spec_map_dash(s@).take(n as int) =~= spec_map_dash(s@));
        assert(spec_map_upper_dash(s@).take(n as int) =~= spec_map_upper_dash(s@));
    }
    out
}

/// Joins a snake-case name into one Pascal- or camel-cased word.
#[verifier::loop_isolation(false)]
fn pascal_string(s: &String, cap_first: bool) -> (r: String)
    ensures
        r@ == spec_pascal(s@, cap_first),
{
    let n = s.as_str().unicode_len();
    let mut out = String::new();
    let mut boundary = cap_first;
    let mut i: usize = 0;
    proof {
        assert(s@.skip(0) =~= s@);
        assert(out@ + spec_pascal(s@, cap_first) =~= spec_pascal(s@, cap_first));
    }
    while i < n
        invariant
            0 <= i <= n,
            n == s@.len(),
            spec_pascal(s@, cap_first) == out@ + spec_pascal(s@.skip(i as int), boundary),
        decreases n - i,
    {
        let c = s.as_str().get_char(i);
        let ghost pre = out@;
        let ghost b0 = boundary;
        if c == '_' {
            boundary = true;
        } else {
            if boundary {
                push_char(&mut out, upper_char(c));
            } else {
                push_char(&mut out, c);
            }
            boundary = false;
        }
        i = i + 1;
        proof {
            let rest = s@.skip(i - 1);
            assert(rest[0] == s@[i - 1]);
            assert(rest.drop_first() =~= s@.skip(i as int));
            if c == '_' {
                assert(spec_pascal(rest, b0) == spec_pascal(s@.skip(i as int), true));
            } else {
                assert(spec_pascal(rest, b0) == seq![
                    if b0 {
                        spec_upper_char(c)
                    } else {
                        c
                    },
                ] + spec_pascal(s@.skip(i as int), false));
                assert(out@ + spec_pascal(s@.skip(i as int), false) =~= pre + spec_pascal(
                    rest,
                    b0,
                ));
            }
        }
    }
    proof {
        assert(s@.skip(n as int).len() == 0);
        assert(spec_pascal(s@, cap_first) =~= out@ + spec_pascal(s@.skip(n as int), boundary));
        assert(out@ + Seq::<char>::empty() =~= out@);
    }
    out
}

/// Splits a Pascal-cased name at its uppercase letters.
#[verifier::loop_isolation(false)]
fn sep_words_string(s: &String, sep: char, screaming: bool) -> (r: String)
    ensures
        r@ == spec_sep_words(s@, sep, screaming, true),
{
    let n = s.as_str().unicode_len();
    let mut out = String::new();
    let mut first = true;
    let mut i: usize = 0;
    proof {
        assert(s@.skip(0) =~= s@);
        assert(out@ + spec_sep_words(s@, sep, screaming, true) =~= spec_sep_words(
            s@,
            sep,
            screaming,
            true,
        ));
    }
    while i < n
        invariant
            0 <= i <= n,
            n == s@.len(),
            spec_sep_words(s@, sep, screaming, true) == out@ + spec_sep_words(
                s@.skip(i as int),
                sep,
                screaming,
                first,
            ),
        decreases n - i,
    {
        let c = s.as_str().get_char(i);
        let ghost pre = out@;
        let ghost f0 = first;
        if 'A' <= c && c <= 'Z' && !first {
            push_char(&mut out, sep);
        }
        if screaming {
            push_char(&mut out, upper_char(c));
        } else {
            push_char(&mut out, lower_char(c));
        }
        first = false;
        i = i + 1;
        proof {
            let rest = s@.skip(i - 1);
            assert(rest[0] == s@[i - 1]);
            assert(rest.drop_first() =~= s@.skip(i as int));
            let lead: Seq<char> = if 'A' <= c && c <= 'Z' && !f0 {
                seq![sep]
            } else {
                Seq::empty()
            };
            let mapped = if screaming {
                spec_upper_char(c)
            } else {
                spec_lower_char(c)
            };
            assert(spec_sep_words(rest, sep, screaming, f0) == lead + seq![mapped]
                + spec_sep_words(s@.skip(i as int), sep, screaming, false));
            assert(out@ =~= pre + lead + seq![mapped]);
            assert(out@ + spec_sep_words(s@.skip(i as int), sep, screaming, false) =~= pre
                + spec_sep_words(rest, sep, screaming, f0));
        }
    }
    proof {
        assert(s@.skip(n as int).len() == 0);
        assert(spec_sep_words(s@, sep, screaming, true) =~= out@ + spec_sep_words(
            s@.skip(n as int),
            sep,
            screaming,
            first,
        ));
        assert(out@ + Seq::<char>::empty() =~= out@);
    }
    out
}

/// The wire form of a field name under a casing rule.
pub fn transform_field_casing(name: &String, rename_all: RenameAll) -> (r: String)
    ensures
        r@ == spec_field_casing(rename_all, name@),
{
    match rename_all {
        RenameAll::PascalCase => pascal_string(name, true),
        RenameAll::CamelCase => pascal_string(name, false),
        RenameAll::SnakeCase => name.clone(),
        _ => map_string(name, rename_all),
    }
}

/// The wire form of a variant name under a casing rule.
pub fn transform_variant_casing(name: &String, rename_all: RenameAll) -> (r: String)
    ensures
        r@ == spec_variant_casing(rename_all, name@),
{
    match rename_all {
        RenameAll::PascalCase => name.clone(),
        RenameAll::CamelCase => {
            let n = name.as_str().unicode_len();
            if n == 0 {
                String::new()
            } else {
                let mut out = String::new();
                push_char(&mut out, lower_char(name.as_str().get_char(0)));
                let rest = name.as_str().substring_char(1, n).to_owned();
                let r = out.concat(rest.as_str());
                proof {
                    assert(r@ =~= spec_variant_casing(RenameAll::CamelCase, name@));
                }
                r
            }
        },
        RenameAll::SnakeCase => sep_words_string(name, '_', false),
        RenameAll::ScreamingSnakeCase => sep_words_string(name, '_', true),
        RenameAll::KebabCase => sep_words_string(name, '-', false),
        RenameAll::ScreamingKebabCase => sep_words_string(name, '-', true),
        _ => map_string(name, rename_all),
    }
}

// ---------------------------------------------------------------------
// The record table
// ---------------------------------------------------------------------

/// The shape class of a field's type.  It decides what stands in for
/// an absent property: optionals, strings, booleans, integers,
/// doubles, sequences and timestamps have an obvious zero; any other
/// shape makes the property required.
#[derive(Clone, Copy, Debug, PartialEq, Eq, Structural)]
pub enum FieldKind {
    Optional,
    Str,
    Boolean,
    Integer,
    Double,
    Sequence,
    Timestamp,
    Other,
}

/// One field of a record type's codec table: its declared name, an
/// exact rename overriding the casing rule, an explicit default
/// substituted when the property is absent, and its shape class.
pub struct FieldSpec {
    pub name: String,
    pub rename: Option<String>,
    pub default: Option<Value>,
    pub kind: FieldKind,
}

/// The property name a field uses on the wire: its exact rename, or
/// its declared name under the record's casing rule.
pub open spec fn spec_wire_name(
    name: Seq<char>,
    rename: Option<Seq<char>>,
    rule: RenameAll,
) -> Seq<char> {
    match rename {
        Option::Some(r) => r,
        Option::None => spec_field_casing(rule, name),
    }
}

/// The property name a field uses on the wire.
pub fn wire_name(name: &String, rename: &Option<String>, rename_all: RenameAll) -> (r: String)
    ensures
        r@ == spec_wire_name(
            name@,
            match rename {
                Option::Some(s) => Option::Some(s@),
                Option::None => Option::None,
            },
            rename_all,
        ),
{
    match rename {
        Option::Some(s) => s.clone(),
        Option::None => transform_field_casing(name, rename_all),
    }
}

/// The zero value standing in for an absent property of each shape
/// class: the empty optional, the empty string, false, zero, the zero
/// double, the empty sequence, the epoch; other shapes have none.
pub open spec fn spec_zero_default(kind: FieldKind) -> Option<SpecValue> {
    match kind {
        FieldKind::Optional => Option::Some(SpecValue::OptionValue(Option::None)),
        FieldKind::Str => Option::Some(SpecValue::StringValue(Seq::empty())),
        FieldKind::Boolean => Option::Some(SpecValue::BooleanValue(false)),
        FieldKind::Integer => Option::Some(SpecValue::IntegerValue(0)),
        FieldKind::Double => Option::Some(SpecValue::DoubleValue(0)),
        FieldKind::Sequence => Option::Some(SpecValue::ArrayValue(Seq::empty())),
        FieldKind::Timestamp => Option::Some(
            SpecValue::TimestampValue(Timestamp { seconds: 0, nanos: 0 }),
        ),
        FieldKind::Other => Option::None,
    }
}

/// The zero value of a shape class.
fn zero_default(kind: FieldKind) -> (r: Option<Value>)
    ensures
        (match r {
            Option::Some(v) => spec_zero_default(kind) == Option::Some(v@),
            Option::None => spec_zero_default(kind) is None,
        }),
{
    match kind {
        FieldKind::Optional => Option::Some(Value::OptionValue(Option::None)),
        FieldKind::Str => Option::Some(Value::StringValue(String::new())),
        FieldKind::Boolean => Option::Some(Value::BooleanValue(false)),
        FieldKind::Integer => Option::Some(Value::IntegerValue(0)),
        FieldKind::Double => Option::Some(Value::DoubleValue(0)),
        FieldKind::Sequence => {
            let r = Value::ArrayValue(Vec::new());
            proof {
                assert(crate::values::values_view(Seq::<Value>::empty()) =~= Seq::<
                    SpecValue,
                >::empty());
            }
            Option::Some(r)
        },
        FieldKind::Timestamp => Option::Some(
            Value::TimestampValue(Timestamp { seconds: 0, nanos: 0 }),
        ),
        FieldKind::Other => Option::None,
    }
}

/// The wire name, default and shape of each field of a table.
pub open spec fn field_specs_view(s: Seq<FieldSpec>, rule: RenameAll) -> Seq<
    (Seq<char>, Option<SpecValue>, FieldKind),
> {
    s.map_values(
        |f: FieldSpec|
            (
                spec_wire_name(
                    f.name@,
                    match f.rename {
                        Option::Some(r) => Option::Some(r@),
                        Option::None => Option::None,
                    },
                    rule,
                ),
                match f.default {
                    Option::Some(d) => Option::Some(value_view(d)),
                    Option::None => Option::None,
                },
                f.kind,
            ),
    )
}

/// The index of the first property with this name, or the property
/// count when the entity lacks it.
pub open spec fn spec_find_prop(props: Seq<(Seq<char>, SpecValue)>, name: Seq<char>) -> int
    decreases props.len(),
{
    if props.len() == 0 {
        0
    } else if props[0].0 == name {
        0
    } else {
        1 + spec_find_prop(props.drop_first(), name)
    }
}

/// What `spec_find_prop` finds.
pub proof fn lemma_find_prop(props: Seq<(Seq<char>, SpecValue)>, name: Seq<char>)
    ensures
        0 <= spec_find_prop(props, name) <= props.len(),
        spec_find_prop(props, name) < props.len() ==> props[spec_find_prop(props, name)].0 == name,
        forall|i: int| 0 <= i < spec_find_prop(props, name) ==> props[i].0 != name,
    decreases props.len(),
{
    if props.len() > 0 && props[0].0 != name {
        lemma_find_prop(props.drop_first(), name);
        assert forall|i: int|
            0 <= i < spec_find_prop(props, name) implies props[i].0 != name by {
            if i > 0 {
                assert(props.drop_first()[i - 1] == props[i]);
            }
        }
    }
}

/// The index of the first property with this name.
#[verifier::loop_isolation(false)]
fn find_prop(props: &Vec<(String, Value)>, name: &String) -> (r: usize)
    ensures
        r == spec_find_prop(props_view(props@), name@),
{
    let ghost pv = props_view(props@);
    proof {
        lemma_find_prop(pv, name@);
        crate::values::lemma_props_view(props@);
    }
    let mut i: usize = 0;
    while i < props.len()
        invariant
            0 <= i <= props.len(),
            forall|m: int| 0 <= m < i ==> pv[m].0 != name@,
            spec_find_prop(pv, name@) >= i,
        decreases props.len() - i,
    {
        if props[i].0.eq(name) {
            proof {
                assert(spec_find_prop(pv, name@) <= i) by {
                    if spec_find_prop(pv, name@) > i {
                        assert(pv[i as int].0 != name@);
                    }
                }
            }
            return i;
        }
        proof {
            assert(spec_find_prop(pv, name@) != i);
        }
        i = i + 1;
    }
    props.len()
}

/// The decoded value of each field, in table order.  A field whose
/// wire name the entity holds takes that property, consuming it; an
/// absent property falls back to the field's explicit default, then to
/// its shape's zero; a field with neither fails the whole decode,
/// naming the missing property.
pub open spec fn spec_decode_fields(
    fields: Seq<(Seq<char>, Option<SpecValue>, FieldKind)>,
    props: Seq<(Seq<char>, SpecValue)>,
) -> Result<Seq<SpecValue>, Seq<char>>
    decreases fields.len(),
{
    if fields.len() == 0 {
        Result::Ok(Seq::empty())
    } else {
        let (wname, dflt, kind) = fields[0];
        let i = spec_find_prop(props, wname);
        if i < props.len() {
            match spec_decode_fields(fields.drop_first(), props.remove(i)) {
                Result::Ok(rest) => Result::Ok(seq![props[i].1] + rest),
                Result::Err(e) => Result::Err(e),
            }
        } else {
            let d = match dflt {
                Option::Some(dv) => Option::Some(dv),
                Option::None => spec_zero_default(kind),
            };
            match d {
                Option::Some(dv) => match spec_decode_fields(fields.drop_first(), props) {
                    Result::Ok(rest) => Result::Ok(seq![dv] + rest),
                    Result::Err(e) => Result::Err(e),
                },
                Option::None => Result::Err(wname),
            }
        }
    }
}

/// Decodes the fields of a record from an entity's property list.
#[verifier::loop_isolation(false)]
fn decode_fields(fields: Vec<FieldSpec>, rename_all: RenameAll, props: Vec<(String, Value)>) -> (r:
    Result<Vec<Value>, Error>)
    ensures
        (r is Ok) == (spec_decode_fields(
            field_specs_view(fields@, rename_all),
            props_view(props@),
        ) is Ok),
        r is Ok ==> crate::values::values_view(r->Ok_0@) == spec_decode_fields(
            field_specs_view(fields@, rename_all),
            props_view(props@),
        )->Ok_0,
        r is Err ==> (match r->Err_0 {
            Error::MissingProperty(n) => n@ == spec_decode_fields(
                field_specs_view(fields@, rename_all),
                props_view(props@),
            )->Err_0,
            _ => false,
        }),
    decreases fields@.len(),
{
    let ghost fv = field_specs_view(fields@, rename_all);
    let ghost pv = props_view(props@);
    let ghost target = spec_decode_fields(fv, pv);
    let mut fields = fields;
    let mut props = props;
    if fields.len() == 0 {
        proof {
            assert(crate::values::values_view(Seq::<Value>::empty()) =~= Seq::<
                SpecValue,
            >::empty());
        }
        return Result::Ok(Vec::new());
    }
    let ghost fb = fields@;
    let f = fields.remove(0);
    proof {
        assert(field_specs_view(fb, rename_all)[0] == fv[0]);
        assert(field_specs_view(fields@, rename_all) =~= fv.drop_first()) by {
            assert forall|m: int|
                0 <= m < fields@.len() implies field_specs_view(fields@, rename_all)[m]
                == fv.drop_first()[m] by {
                assert(fields@[m] == fb[m + 1]);
                assert(field_specs_view(fb, rename_all)[m + 1] == fv[m + 1]);
            }
        };
    }
    let wname = wire_name(&f.name, &f.rename, rename_all);
    let ghost wn = wname@;
    let i = find_prop(&props, &wname);
    proof {
        lemma_find_prop(pv, wn);
        crate::values::lemma_props_view(props@);
    }
    let taken: Value;
    if i < props.len() {
        let ghost pb = props@;
        let (_, v) = props.remove(i);
        proof {
            assert(pv[i as int] == (pb[i as int].0@, value_view(pb[i as int].1)));
            assert(v@ == pv[i as int].1);
            assert(props_view(props@) =~= pv.remove(i as int)) by {
                pb.remove_ensures(i as int);
                pv.remove_ensures(i as int);
                crate::values::lemma_props_view(props@);
                crate::values::lemma_props_view(pb);
                assert(props@ == pb.remove(i as int));
                assert forall|m: int|
                    0 <= m < props@.len() implies props_view(props@)[m] == pv.remove(i as int)[m]
                by {
                    crate::values::lemma_props_view(props@);
                    crate::values::lemma_props_view(pb);
                    if m < i {
                        assert(pb.remove(i as int)[m] == pb[m]);
                        assert(props@[m] == pb[m]);
                        assert(pv.remove(i as int)[m] == pv[m]);
                        assert(props_view(props@)[m] == (props@[m].0@, value_view(props@[m].1)));
                        assert(pv[m] == (pb[m].0@, value_view(pb[m].1)));
                    } else {
                        assert(pb.remove(i as int)[m] == pb[m + 1]);
                        assert(props@[m] == pb[m + 1]);
                        assert(pv.remove(i as int)[m] == pv[m + 1]);
                        assert(props_view(props@)[m] == (props@[m].0@, value_view(props@[m].1)));
                        assert(pv[m + 1] == (pb[m + 1].0@, value_view(pb[m + 1].1)));
                    }
                }
            };
        }
        taken = v;
    } else {
        let d = match f.default {
            Option::Some(dv) => Option::Some(dv),
            Option::None => zero_default(f.kind),
        };
        match d {
            Option::Some(dv) => {
                taken = dv;
            },
            Option::None => {
                return Result::Err(Error::MissingProperty(wname));
            },
        }
    }
    let rest = decode_fields(fields, rename_all, props);
    match rest {
        Result::Ok(mut rest) => {
            let ghost rest0 = rest@;
            let mut out: Vec<Value> = Vec::new();
            out.push(taken);
            out.append(&mut rest);
            proof {
                assert(out@.subrange(1, out@.len() as int) =~= rest0);
                crate::values::lemma_values_view(out@);
                crate::values::lemma_values_view(rest0);
                assert(crate::values::values_view(out@) =~= seq![value_view(taken)]
                    + crate::values::values_view(rest0));
                assert(crate::values::values_view(out@) =~= target->Ok_0);
            }
            Result::Ok(out)
        },
        Result::Err(e) => Result::Err(e),
    }
}

/// Decodes a record from a value.  A non-entity value is a structural
/// mismatch; an entity decodes field by field as `spec_decode_fields`
/// says, with an absent required property failing the decode under
/// the property's name.
pub fn decode_record(fields: Vec<FieldSpec>, rename_all: RenameAll, value: Value) -> (r: Result<
    Vec<Value>,
    Error,
>)
    ensures
        !(value@ is EntityValue) ==> r is Err && r->Err_0 is UnexpectedPropertyType,
        value@ is EntityValue ==> (r is Ok) == (spec_decode_fields(
            field_specs_view(fields@, rename_all),
            value@->EntityValue_0,
        ) is Ok),
        value@ is EntityValue && r is Ok ==> crate::values::values_view(r->Ok_0@)
            == spec_decode_fields(
            field_specs_view(fields@, rename_all),
            value@->EntityValue_0,
        )->Ok_0,
        value@ is EntityValue && r is Err ==> (match r->Err_0 {
            Error::MissingProperty(n) => n@ == spec_decode_fields(
                field_specs_view(fields@, rename_all),
                value@->EntityValue_0,
            )->Err_0,
            _ => false,
        }),
{
    match value {
        Value::EntityValue(props) => decode_fields(fields, rename_all, props),
        _ => {
            let got = value.variant_name();
            let expected: &str = "entity";
            Result::Err(Error::UnexpectedPropertyType {
                expected: expected.to_owned(),
                got: got.to_owned(),
            })
        },
    }
}

/// The property list a record encodes to: each field's wire name
/// paired with its value, in table order.
pub open spec fn spec_encode_props(
    names: Seq<Seq<char>>,
    values: Seq<SpecValue>,
) -> Seq<(Seq<char>, SpecValue)> {
    Seq::new(values.len(), |i: int| (names[i], values[i]))
}

/// Encodes a record: the entity value holding each field's wire name
/// and value, in table order.  Encoding is total and never fails.
#[verifier::loop_isolation(false)]
pub fn encode_record(fields: &Vec<FieldSpec>, rename_all: RenameAll, values: Vec<Value>) -> (r:
    Value)
    requires
        fields@.len() == values@.len(),
    ensures
        r@ == SpecValue::EntityValue(
            spec_encode_props(
                field_specs_view(fields@, rename_all).map_values(
                    |t: (Seq<char>, Option<SpecValue>, FieldKind)| t.0,
                ),
                crate::values::values_view(values@),
            ),
        ),
{
    let ghost names = field_specs_view(fields@, rename_all).map_values(
        |t: (Seq<char>, Option<SpecValue>, FieldKind)| t.0,
    );
    let ghost vv = crate::values::values_view(values@);
    let ghost target = spec_encode_props(names, vv);
    proof {
        crate::values::lemma_values_view(values@);
    }
    let nf = fields.len();
    let mut values = values;
    let mut out: Vec<(String, Value)> = Vec::new();
    let mut i: usize = 0;
    proof {
        assert(props_view(out@) =~= target.take(0));
    }
    while values.len() > 0
        invariant
            out@.len() + values@.len() == vv.len(),
            vv.len() == nf,
            i == out@.len(),
            i <= fields@.len(),
            crate::values::values_view(values@) =~= vv.skip(i as int),
            props_view(out@) == target.take(i as int),
        decreases values@.len(),
    {
        let ghost vb = values@;
        let v = values.remove(0);
        proof {
            crate::values::lemma_values_view(vb);
            assert(crate::values::values_view(vb)[0] == value_view(vb[0]));
            assert(vv.skip(i as int)[0] == vv[i as int]);
            assert(value_view(v) == vv[i as int]);
            assert(crate::values::values_view(values@) =~= vv.skip(i + 1)) by {
                crate::values::lemma_values_view(values@);
                assert forall|m: int|
                    0 <= m < values@.len() implies crate::values::values_view(values@)[m]
                    == vv.skip(i + 1)[m] by {
                    assert(values@[m] == vb[m + 1]);
                    assert(crate::values::values_view(vb)[m + 1] == value_view(vb[m + 1]));
                }
            };
        }
        let name = wire_name(&fields[i].name, &fields[i].rename, rename_all);
        proof {
            assert(field_specs_view(fields@, rename_all)[i as int].0 == name@);
            assert(names[i as int] == name@);
        }
        let ghost ob = out@;
        out.push((name, v));
        proof {
            crate::values::lemma_props_view(out@);
            crate::values::lemma_props_view(ob);
            assert(target[i as int] == (names[i as int], vv[i as int]));
            assert(target.take(i + 1) =~= target.take(i as int).push(target[i as int]));
            assert(props_view(out@) =~= target.take(i + 1)) by {
                assert forall|m: int|
                    0 <= m < out@.len() implies props_view(out@)[m] == target.take(i + 1)[m] by {
                    if m < i {
                        assert(out@[m] == ob[m]);
                        assert(props_view(ob)[m] == (ob[m].0@, value_view(ob[m].1)));
                        assert(props_view(out@)[m] == (out@[m].0@, value_view(out@[m].1)));
                    } else {
                        assert(out@[m] == (name, v));
                        assert(props_view(out@)[m] == (out@[m].0@, value_view(out@[m].1)));
                    }
                }
            };
        }
        i = i + 1;
    }
    proof {
        assert(target.take(vv.len() as int) =~= target);
    }
    Value::EntityValue(out)
}

// ---------------------------------------------------------------------
// Enumerations
// ---------------------------------------------------------------------

/// One unit variant of an enumeration's codec table.
pub struct VariantSpec {
    pub name: String,
    pub rename: Option<String>,
}

/// The string a variant uses on the wire: its exact rename, or its
/// declared name under the record's casing rule.
pub open spec fn spec_variant_wire_name(
    name: Seq<char>,
    rename: Option<Seq<char>>,
    rule: RenameAll,
) -> Seq<char> {
    match rename {
        Option::Some(r) => r,
        Option::None => spec_variant_casing(rule, name),
    }
}

/// The wire names of a variant table.
pub open spec fn variant_specs_view(s: Seq<VariantSpec>, rule: RenameAll) -> Seq<Seq<char>> {
    s.map_values(
        |v: VariantSpec|
            spec_variant_wire_name(
                v.name@,
                match v.rename {
                    Option::Some(r) => Option::Some(r@),
                    Option::None => Option::None,
                },
                rule,
            ),
    )
}

/// Encodes one unit variant: its wire name as a plain string value.
/// Encoding is total and never fails.
pub fn encode_variant(variant: &VariantSpec, rename_all: RenameAll) -> (r: Value)
    ensures
        r@ == SpecValue::StringValue(
            spec_variant_wire_name(
                variant.name@,
                match variant.rename {
                    Option::Some(s) => Option::Some(s@),
                    Option::None => Option::None,
                },
                rename_all,
            ),
        ),
{
    let name = match &variant.rename {
        Option::Some(s) => s.clone(),
        Option::None => transform_variant_casing(&variant.name, rename_all),
    };
    Value::StringValue(name)
}

/// The index of the first variant whose wire name equals the string,
/// or the variant count when none does.
pub open spec fn spec_find_variant(names: Seq<Seq<char>>, s: Seq<char>) -> int
    decreases names.len(),
{
    if names.len() == 0 {
        0
    } else if names[0] == s {
        0
    } else {
        1 + spec_find_variant(names.drop_first(), s)
    }
}

/// What `spec_find_variant` finds.
pub proof fn lemma_find_variant(names: Seq<Seq<char>>, s: Seq<char>)
    ensures
        0 <= spec_find_variant(names, s) <= names.len(),
        spec_find_variant(names, s) < names.len() ==> names[spec_find_variant(names, s)] == s,
        forall|i: int| 0 <= i < spec_find_variant(names, s) ==> names[i] != s,
    decreases names.len(),
{
    if names.len() > 0 && names[0] != s {
        lemma_find_variant(names.drop_first(), s);
        assert forall|i: int| 0 <= i < spec_find_variant(names, s) implies names[i] != s by {
            if i > 0 {
                assert(names.drop_first()[i - 1] == names[i]);
            }
        }
    }
}

/// Decodes one unit variant from a value.  A non-string value is a
/// structural mismatch.  A string that names no known variant, under
/// any rename or the casing rule, is a recoverable decode error
/// carrying the unrecognized string.
#[verifier::loop_isolation(false)]
pub fn decode_enum(variants: &Vec<VariantSpec>, rename_all: RenameAll, value: Value) -> (r: Result<
    usize,
    Error,
>)
    ensures
        !(value@ is StringValue) ==> r is Err && r->Err_0 is UnexpectedPropertyType,
        value@ is StringValue ==> {
            let i = spec_find_variant(
                variant_specs_view(variants@, rename_all),
                value@->StringValue_0,
            );
            &&& (r is Ok) == (i < variants@.len())
            &&& (r is Ok ==> r->Ok_0 == i)
            &&& (r is Err ==> (match r->Err_0 {
                Error::UnknownVariant(n) => n@ == value@->StringValue_0,
                _ => false,
            }))
        },
{
    let s = match value {
        Value::StringValue(s) => s,
        other => {
            let got = other.variant_name();
            let expected: &str = "string";
            return Result::Err(Error::UnexpectedPropertyType {
                expected: expected.to_owned(),
                got: got.to_owned(),
            });
        },
    };
    let ghost nv = variant_specs_view(variants@, rename_all);
    proof {
        lemma_find_variant(nv, s@);
    }
    let mut i: usize = 0;
    while i < variants.len()
        invariant
            0 <= i <= variants.len(),
            forall|m: int| 0 <= m < i ==> nv[m] != s@,
            spec_find_variant(nv, s@) >= i,
        decreases variants.len() - i,
    {
        let wname = match &variants[i].rename {
            Option::Some(r) => r.clone(),
            Option::None => transform_variant_casing(&variants[i].name, rename_all),
        };
        proof {
            assert(nv[i as int] == wname@);
        }
        if wname.eq(&s) {
            proof {
                assert(spec_find_variant(nv, s@) <= i) by {
                    if spec_find_variant(nv, s@) > i {
                        assert(nv[i as int] != s@);
                    }
                }
            }
            return Result::Ok(i);
        }
        proof {
            assert(spec_find_variant(nv, s@) != i);
        }
        i = i + 1;
    }
    Result::Err(Error::UnknownVariant(s))
}

} // verus!
