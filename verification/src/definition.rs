//! Definitions and the fragments that they are rendered to.
//!
//! A record renders as
//!
//! ```text
//! record Name {
//!     first: string,
//!     second: u64,
//! }
//! ```
//!
//! a tagged union as a `variant` block of the same shape, with one line for
//! each variant, `Name,` or `Name(type),`; a function as
//! `name: function(a: list <u8>) -> string`; an alias as `type Name = type`.
//! No fragment ends in a line break.

use crate::types::{outcome, wit_type, Failure, TranslationError, TypeExpr};
use vstd::prelude::*;
use vstd::string::*;

verus! {

/// A named field of a record, or a named parameter of a function.
#[derive(Debug, PartialEq, Eq)]
pub struct Field {
    pub name: String,
    pub ty: TypeExpr,
}

/// A variant of a tagged union, with the types that it carries.
#[derive(Debug, PartialEq, Eq)]
pub struct Variant {
    pub name: String,
    pub payload: Vec<TypeExpr>,
}

/// A definition to render. The order of fields, variants and parameters is
/// the order of their lines.
#[derive(Debug, PartialEq, Eq)]
pub enum Definition {
    Record { name: String, fields: Vec<Field> },
    TaggedUnion { name: String, variants: Vec<Variant> },
    Function { name: String, params: Vec<Field>, ret: Option<TypeExpr> },
    Alias { name: String, target: TypeExpr },
}

/// `name: type`, where the type has a translation.
pub open spec fn entry_text(field: Field) -> Result<Seq<char>, Failure> {
    match wit_type(field.ty) {
        Ok(ty) => Ok(field.name@ + ": "@ + ty),
        Err(failure) => Err(failure),
    }
}

/// The line of a field in a record's block.
pub open spec fn field_line(field: Field) -> Result<Seq<char>, Failure> {
    match entry_text(field) {
        Ok(entry) => Ok("    "@ + entry + ",\n"@),
        Err(failure) => Err(failure),
    }
}

/// The lines of the first `n` fields, in order; or the failure of the first
/// among them whose type has no translation.
pub open spec fn field_lines(fields: Vec<Field>, n: nat) -> Result<Seq<char>, Failure>
    decreases n,
{
    if n == 0 || n > fields.len() {
        Ok(Seq::empty())
    } else {
        match field_lines(fields, (n - 1) as nat) {
            Err(failure) => Err(failure),
            Ok(before) => match field_line(fields[n - 1]) {
                Err(failure) => Err(failure),
                Ok(line) => Ok(before + line),
            },
        }
    }
}

/// The first `n` parameters, each as `name: type`, joined by `, `; or the
/// failure of the first among them whose type has no translation.
pub open spec fn params_text(params: Vec<Field>, n: nat) -> Result<Seq<char>, Failure>
    decreases n,
{
    if n == 0 || n > params.len() {
        Ok(Seq::empty())
    } else {
        match params_text(params, (n - 1) as nat) {
            Err(failure) => Err(failure),
            Ok(before) => match entry_text(params[n - 1]) {
                Err(failure) => Err(failure),
                Ok(entry) => if n == 1 {
                    Ok(entry)
                } else {
                    Ok(before + ", "@ + entry)
                },
            },
        }
    }
}

/// The line of a variant in a tagged union's block. A variant that carries
/// more than one type has none: the failure names the variant.
pub open spec fn variant_line(variant: Variant) -> Result<Seq<char>, Failure> {
    if variant.payload.len() == 0 {
        Ok("    "@ + variant.name@ + ",\n"@)
    } else if variant.payload.len() == 1 {
        match wit_type(variant.payload[0]) {
            Ok(ty) => Ok("    "@ + variant.name@ + "("@ + ty + "),\n"@),
            Err(failure) => Err(failure),
        }
    } else {
        Err(Failure::UnsupportedShape { rendered: variant.name@ })
    }
}

/// The lines of the first `n` variants, in order; or the failure of the
/// first among them that has no line.
pub open spec fn variant_lines(variants: Vec<Variant>, n: nat) -> Result<Seq<char>, Failure>
    decreases n,
{
    if n == 0 || n > variants.len() {
        Ok(Seq::empty())
    } else {
        match variant_lines(variants, (n - 1) as nat) {
            Err(failure) => Err(failure),
            Ok(before) => match variant_line(variants[n - 1]) {
                Err(failure) => Err(failure),
                Ok(line) => Ok(before + line),
            },
        }
    }
}

/// `keyword name {`, a line break, the lines, `}`.
pub open spec fn block(keyword: Seq<char>, name: Seq<char>, lines: Result<Seq<char>, Failure>)
    -> Result<Seq<char>, Failure> {
    match lines {
        Ok(body) => Ok(keyword + name + " {\n"@ + body + "}"@),
        Err(failure) => Err(failure),
    }
}

/// The signature of a function: the parameters are translated first, then
/// the return type, and the first failure is the signature's failure.
pub open spec fn signature(name: Seq<char>, params: Vec<Field>, ret: Option<TypeExpr>) -> Result<
    Seq<char>,
    Failure,
> {
    match params_text(params, params.len() as nat) {
        Err(failure) => Err(failure),
        Ok(list) => match ret {
            None => Ok(name + ": function("@ + list + ")"@),
            Some(ty) => match wit_type(ty) {
                Err(failure) => Err(failure),
                Ok(returned) => Ok(name + ": function("@ + list + ")"@ + " -> "@ + returned),
            },
        },
    }
}

/// The fragment of a definition, or the first failure met while rendering
/// it.
pub open spec fn fragment(def: Definition) -> Result<Seq<char>, Failure> {
    match def {
        Definition::Record { name, fields } => block(
            "record "@,
            name@,
            field_lines(fields, fields.len() as nat),
        ),
        Definition::TaggedUnion { name, variants } => block(
            "variant "@,
            name@,
            variant_lines(variants, variants.len() as nat),
        ),
        Definition::Function { name, params, ret } => signature(name@, params, ret),
        Definition::Alias { name, target } => match wit_type(target) {
            Ok(ty) => Ok("type "@ + name@ + " = "@ + ty),
            Err(failure) => Err(failure),
        },
    }
}

/// A failure among the first `n` fields is the failure of every longer
/// prefix.
pub proof fn lemma_field_failure_stays(fields: Vec<Field>, n: nat, m: nat)
    requires
        n <= m <= fields.len(),
        field_lines(fields, n) is Err,
    ensures
        field_lines(fields, m) == field_lines(fields, n),
    decreases m,
{
    if n < m {
        lemma_field_failure_stays(fields, n, (m - 1) as nat);
    }
}

/// A failure among the first `n` parameters is the failure of every longer
/// prefix.
pub proof fn lemma_param_failure_stays(params: Vec<Field>, n: nat, m: nat)
    requires
        n <= m <= params.len(),
        params_text(params, n) is Err,
    ensures
        params_text(params, m) == params_text(params, n),
    decreases m,
{
    if n < m {
        lemma_param_failure_stays(params, n, (m - 1) as nat);
    }
}

/// A failure among the first `n` variants is the failure of every longer
/// prefix.
pub proof fn lemma_variant_failure_stays(variants: Vec<Variant>, n: nat, m: nat)
    requires
        n <= m <= variants.len(),
        variant_lines(variants, n) is Err,
    ensures
        variant_lines(variants, m) == variant_lines(variants, n),
    decreases m,
{
    if n < m {
        lemma_variant_failure_stays(variants, n, (m - 1) as nat);
    }
}

/// Where each of the first `n` fields has a line, so has the list of them.
pub proof fn lemma_fields_render(fields: Vec<Field>, n: nat)
    requires
        n <= fields.len(),
        forall|j: int| 0 <= j < n ==> (#[trigger] field_line(fields[j])) is Ok,
    ensures
        field_lines(fields, n) is Ok,
    decreases n,
{
    if n > 0 {
        lemma_fields_render(fields, (n - 1) as nat);
    }
}

/// A record fails as its first failing field does: where the types of the
/// fields before the `k`-th have translations and that of the `k`-th has
/// none, the record has no fragment, and its failure is that of the `k`-th
/// field's type.
pub proof fn lemma_record_first_failure(name: String, fields: Vec<Field>, k: nat)
    requires
        k < fields.len(),
        forall|j: int| 0 <= j < k ==> (#[trigger] wit_type(fields[j].ty)) is Ok,
        wit_type(fields[k as int].ty) is Err,
    ensures
        fragment(Definition::Record { name, fields }) == Err::<Seq<char>, Failure>(
            wit_type(fields[k as int].ty)->Err_0,
        ),
{
    assert forall|j: int| 0 <= j < k implies (#[trigger] field_line(fields[j])) is Ok by {
        assert(wit_type(fields[j].ty) is Ok);
    }
    lemma_fields_render(fields, k);
    lemma_field_failure_stays(fields, k + 1, fields.len() as nat);
}

/// The lines of the first `n` fields open the lines of the first `m`, for
/// `n` up to `m`.
pub proof fn lemma_field_lines_extend(fields: Vec<Field>, n: nat, m: nat)
    requires
        n <= m <= fields.len(),
        field_lines(fields, m) is Ok,
    ensures
        field_lines(fields, n) is Ok,
        field_lines(fields, n)->Ok_0.len() <= field_lines(fields, m)->Ok_0.len(),
        field_lines(fields, m)->Ok_0.subrange(0, field_lines(fields, n)->Ok_0.len() as int)
            == field_lines(fields, n)->Ok_0,
    decreases m,
{
    let all = field_lines(fields, m)->Ok_0;
    if n < m {
        lemma_field_lines_extend(fields, n, (m - 1) as nat);
        let shorter = field_lines(fields, (m - 1) as nat)->Ok_0;
        let first = field_lines(fields, n)->Ok_0;
        assert(all.subrange(0, first.len() as int) =~= shorter.subrange(0, first.len() as int));
    } else {
        assert(all.subrange(0, all.len() as int) =~= all);
    }
}

/// A record renders its fields in the order declared: in the fragment the
/// line of field `k` stands right behind the opening line and the lines of
/// the fields declared before it.
pub proof fn lemma_record_keeps_order(name: String, fields: Vec<Field>, k: nat)
    requires
        k < fields.len(),
        fragment(Definition::Record { name, fields }) is Ok,
    ensures
        field_lines(fields, k) is Ok,
        field_line(fields[k as int]) is Ok,
        ({
            let text = fragment(Definition::Record { name, fields })->Ok_0;
            let opening = "record "@ + name@ + " {\n"@;
            let before = field_lines(fields, k)->Ok_0;
            let line = field_line(fields[k as int])->Ok_0;
            let start = opening.len() + before.len();
            &&& start + line.len() <= text.len()
            &&& text.subrange(0, start as int) == opening + before
            &&& text.subrange(start as int, (start + line.len()) as int) == line
        }),
{
    let total = fields.len() as nat;
    let all = field_lines(fields, total)->Ok_0;
    lemma_field_lines_extend(fields, k + 1, total);
    lemma_field_lines_extend(fields, k, k + 1);
    let text = fragment(Definition::Record { name, fields })->Ok_0;
    let opening = "record "@ + name@ + " {\n"@;
    let before = field_lines(fields, k)->Ok_0;
    let line = field_line(fields[k as int])->Ok_0;
    let upto = field_lines(fields, k + 1)->Ok_0;
    let start = opening.len() + before.len();
    assert(upto == before + line);
    assert(text == opening + all + "}"@);
    assert(all.subrange(0, upto.len() as int) == upto);
    assert(text.subrange(0, start as int) =~= opening + before) by {
        assert forall|i: int| 0 <= i < start implies text[i] == (opening + before)[i] by {
            if i >= opening.len() {
                assert(all.subrange(0, upto.len() as int)[i - opening.len()] == upto[i
                    - opening.len()]);
            }
        }
    }
    assert(text.subrange(start as int, (start + line.len()) as int) =~= line) by {
        assert forall|i: int| 0 <= i < line.len() implies text[start + i] == line[i] by {
            assert(all.subrange(0, upto.len() as int)[before.len() + i] == upto[before.len()
                + i]);
        }
    }
}

/// `name: type` for one field or parameter.
fn render_entry(field: &Field) -> (res: Result<String, TranslationError>)
    ensures
        outcome(res) == entry_text(*field),
{
    match field.ty.to_wit() {
        Err(error) => Err(error),
        Ok(ty) => {
            let mut entry = field.name.clone();
            entry.append(": ");
            entry.append(ty.as_str());
            Ok(entry)
        },
    }
}

/// The lines of a record's fields, in the order declared.
fn render_fields(fields: &Vec<Field>) -> (res: Result<String, TranslationError>)
    ensures
        outcome(res) == field_lines(*fields, fields.len() as nat),
{
    let mut lines = String::new();
    let mut i: usize = 0;
    while i < fields.len()
        invariant
            i <= fields.len(),
            field_lines(*fields, i as nat) == Ok::<Seq<char>, Failure>(lines@),
        decreases fields.len() - i,
    {
        match render_entry(&fields[i]) {
            Err(error) => {
                proof {
                    lemma_field_failure_stays(*fields, (i + 1) as nat, fields.len() as nat);
                }
                return Err(error);
            },
            Ok(entry) => {
                let mut line = String::from_str("    ");
                line.append(entry.as_str());
                line.append(",\n");
                lines.append(line.as_str());
            },
        }
        i += 1;
    }
    Ok(lines)
}

/// The parameters of a function, in the order declared, joined by `, `.
fn render_params(params: &Vec<Field>) -> (res: Result<String, TranslationError>)
    ensures
        outcome(res) == params_text(*params, params.len() as nat),
{
    let mut joined = String::new();
    let mut i: usize = 0;
    while i < params.len()
        invariant
            i <= params.len(),
            params_text(*params, i as nat) == Ok::<Seq<char>, Failure>(joined@),
        decreases params.len() - i,
    {
        match render_entry(&params[i]) {
            Err(error) => {
                proof {
                    lemma_param_failure_stays(*params, (i + 1) as nat, params.len() as nat);
                }
                return Err(error);
            },
            Ok(entry) => {
                if i > 0 {
                    joined.append(", ");
                }
                joined.append(entry.as_str());
                assert(i == 0 ==> joined@ =~= entry@);
            },
        }
        i += 1;
    }
    Ok(joined)
}

/// The line of one variant.
fn render_variant(variant: &Variant) -> (res: Result<String, TranslationError>)
    ensures
        outcome(res) == variant_line(*variant),
{
    if variant.payload.len() == 0 {
        let mut line = String::from_str("    ");
        line.append(variant.name.as_str());
        line.append(",\n");
        Ok(line)
    } else if variant.payload.len() == 1 {
        match variant.payload[0].to_wit() {
            Err(error) => Err(error),
            Ok(ty) => {
                let mut line = String::from_str("    ");
                line.append(variant.name.as_str());
                line.append("(");
                line.append(ty.as_str());
                line.append("),\n");
                Ok(line)
            },
        }
    } else {
        Err(TranslationError::UnsupportedShape { rendered: variant.name.clone() })
    }
}

/// The lines of a tagged union's variants, in the order declared.
fn render_variants(variants: &Vec<Variant>) -> (res: Result<String, TranslationError>)
    ensures
        outcome(res) == variant_lines(*variants, variants.len() as nat),
{
    let mut lines = String::new();
    let mut i: usize = 0;
    while i < variants.len()
        invariant
            i <= variants.len(),
            variant_lines(*variants, i as nat) == Ok::<Seq<char>, Failure>(lines@),
        decreases variants.len() - i,
    {
        match render_variant(&variants[i]) {
            Err(error) => {
                proof {
                    lemma_variant_failure_stays(*variants, (i + 1) as nat, variants.len() as nat);
                }
                return Err(error);
            },
            Ok(line) => {
                lines.append(line.as_str());
            },
        }
        i += 1;
    }
    Ok(lines)
}

/// A block: the keyword with its blank, the name, and the lines in braces.
fn render_block(keyword: &str, name: &String, body: &String) -> (text: String)
    ensures
        text@ == keyword@ + name@ + " {\n"@ + body@ + "}"@,
{
    let mut text = String::from_str(keyword);
    text.append(name.as_str());
    text.append(" {\n");
    text.append(body.as_str());
    text.append("}");
    text
}

impl Definition {
    /// The name that the definition declares.
    pub open spec fn spec_name(&self) -> Seq<char> {
        match self {
            Definition::Record { name, .. } => name@,
            Definition::TaggedUnion { name, .. } => name@,
            Definition::Function { name, .. } => name@,
            Definition::Alias { name, .. } => name@,
        }
    }

    /// The name that the definition declares.
    pub fn name(&self) -> (name: &String)
        ensures
            name@ == self.spec_name(),
    {
        match self {
            Definition::Record { name, .. } => name,
            Definition::TaggedUnion { name, .. } => name,
            Definition::Function { name, .. } => name,
            Definition::Alias { name, .. } => name,
        }
    }

    /// Renders the definition. Nothing is rendered of a definition with a
    /// part that has no translation: the first such part, in the order
    /// written, gives the error.
    pub fn format(&self) -> (res: Result<String, TranslationError>)
        ensures
            outcome(res) == fragment(*self),
    {
        match self {
            Definition::Record { name, fields } => match render_fields(fields) {
                Err(error) => Err(error),
                Ok(body) => Ok(render_block("record ", name, &body)),
            },
            Definition::TaggedUnion { name, variants } => match render_variants(variants) {
                Err(error) => Err(error),
                Ok(body) => Ok(render_block("variant ", name, &body)),
            },
            Definition::Function { name, params, ret } => match render_params(params) {
                Err(error) => Err(error),
                Ok(list) => {
                    let mut text = name.clone();
                    text.append(": function(");
                    text.append(list.as_str());
                    text.append(")");
                    match ret {
                        None => Ok(text),
                        Some(ty) => match ty.to_wit() {
                            Err(error) => Err(error),
                            Ok(returned) => {
                                text.append(" -> ");
                                text.append(returned.as_str());
                                Ok(text)
                            },
                        },
                    }
                },
            },
            Definition::Alias { name, target } => match target.to_wit() {
                Err(error) => Err(error),
                Ok(ty) => {
                    let mut text = String::from_str("type ");
                    text.append(name.as_str());
                    text.append(" = ");
                    text.append(ty.as_str());
                    Ok(text)
                },
            },
        }
    }
}

} // verus!
