//! The definition synthesizer: from one record, and the catalog it lives in,
//! to the text of a declaration.
//!
//! `raw_text` and `pretty_text` say, over the models, what the two renderings
//! are; `raw_definition` and `pretty_definition` build exactly those texts.
//! Only a struct looks at the catalog: it is closed with the name of the first
//! typedef that mentions it.

use vstd::prelude::*;
use vstd::string::*;
use crate::model::{
    field_models, member_models, records, CategorizedEntry, Category, Entry, EntryModel,
    EnumField, FieldModel, MemberModel, RecordModel, StructField,
};
use crate::text::{
    append_decimal, chars_of, decimal, ends_with, join, joined, strip_underscore, texts,
    without_underscore,
};

verus! {

/// `<return type> <name>(<parameters, comma separated>);`
pub open spec fn signature_text(
    name: Seq<char>,
    return_type: Seq<char>,
    parameters: Seq<Seq<char>>,
) -> Seq<char> {
    return_type + " "@ + name + "("@ + joined(parameters, ", "@) + ");"@
}

/// `#define <name> <value>`
pub open spec fn define_text(name: Seq<char>, value: Seq<char>) -> Seq<char> {
    "#define "@ + name + " "@ + value
}

/// `typedef <tokens, space separated> <name>;`
pub open spec fn typedef_text(name: Seq<char>, tokens: Seq<Seq<char>>) -> Seq<char> {
    "typedef "@ + joined(tokens, " "@) + " "@ + name + ";"@
}

/// One indented line `<type> <name>;` for a field.
pub open spec fn field_line(field: FieldModel) -> Seq<char> {
    "    "@ + field.type_ + " "@ + field.name + ";\n"@
}

/// The lines of all `fields`, in declaration order.
pub open spec fn field_lines(fields: Seq<FieldModel>) -> Seq<char>
    decreases fields.len(),
{
    if fields.len() == 0 {
        Seq::empty()
    } else {
        field_lines(fields.drop_last()) + field_line(fields.last())
    }
}

/// One indented line for an enum member: `<name> = <value>,` where the member
/// has an explicit value, `<name>,` where it has none.
pub open spec fn member_line(member: MemberModel) -> Seq<char> {
    match member.init {
        Some(value) => "    "@ + member.name + " = "@ + decimal(value as nat) + ",\n"@,
        None => "    "@ + member.name + ",\n"@,
    }
}

/// The lines of all `members`, in declaration order.
pub open spec fn member_lines(members: Seq<MemberModel>) -> Seq<char>
    decreases members.len(),
{
    if members.len() == 0 {
        Seq::empty()
    } else {
        member_lines(members.drop_last()) + member_line(members.last())
    }
}

/// Whether `token` mentions the struct called `name`: it is that name, or ends
/// with it.
pub open spec fn mentions(token: Seq<char>, name: Seq<char>) -> bool {
    token == name || name.is_suffix_of(token)
}

/// Whether one of `tokens` mentions the struct called `name`.
pub open spec fn any_mentions(tokens: Seq<Seq<char>>, name: Seq<char>) -> bool {
    exists|k: int| 0 <= k < tokens.len() && mentions(#[trigger] tokens[k], name)
}

/// Whether `record` is a typedef that aliases the struct called `name`.
pub open spec fn aliases(record: RecordModel, name: Seq<char>) -> bool {
    record.entry matches EntryModel::Typedef { typedef, .. } && any_mentions(typedef, name)
}

/// The name of the first typedef of `all`, in catalog order, that aliases the
/// struct called `name`; `None` where no typedef does.
pub open spec fn typedef_alias(all: Seq<RecordModel>, name: Seq<char>) -> Option<Seq<char>>
    decreases all.len(),
{
    if all.len() == 0 {
        None
    } else if aliases(all[0], name) {
        Some(all[0].name())
    } else {
        typedef_alias(all.drop_first(), name)
    }
}

/// The name a struct is closed with: that of its first aliasing typedef, else
/// its own name without one leading underscore.
pub open spec fn alias_text(all: Seq<RecordModel>, name: Seq<char>) -> Seq<char> {
    match typedef_alias(all, name) {
        Some(alias) => alias,
        None => without_underscore(name),
    }
}

/// A struct declaration, closed with `alias` and a pointer alias `P<alias>`.
pub open spec fn struct_text(name: Seq<char>, fields: Seq<FieldModel>, alias: Seq<char>) -> Seq<
    char,
> {
    "typedef struct _"@ + name + " {\n"@ + field_lines(fields) + "} "@ + alias + ", *P"@ + alias
        + ";"@
}

/// A union declaration; no alias is attempted for a union.
pub open spec fn union_text(name: Seq<char>, fields: Seq<FieldModel>) -> Seq<char> {
    "union "@ + name + " {\n"@ + field_lines(fields) + "};"@
}

/// An anonymous enum declaration.
pub open spec fn enum_text(members: Seq<MemberModel>) -> Seq<char> {
    "enum {\n"@ + member_lines(members) + "};"@
}

/// The terse declaration of `record` within the catalog `all`.
pub open spec fn raw_text(record: RecordModel, all: Seq<RecordModel>) -> Seq<char> {
    match record.entry {
        EntryModel::Function { name, return_type, parameters, .. } => signature_text(
            name,
            return_type,
            parameters,
        ),
        EntryModel::Define { name, value } => define_text(name, value),
        EntryModel::Typedef { name, typedef } => typedef_text(name, typedef),
        EntryModel::Struct { name, fields } => struct_text(name, fields, alias_text(all, name)),
        EntryModel::Union { name, fields } => union_text(name, fields),
        EntryModel::Enum { fields, .. } => enum_text(fields),
    }
}

/// How a category is spelled in the header line.
pub open spec fn category_text(category: Category) -> Seq<char> {
    match category {
        Category::Nt => "Nt"@,
        Category::Win32 => "Win32"@,
    }
}

/// The title line and the body that follow the header, by kind.
pub open spec fn body_text(record: RecordModel, all: Seq<RecordModel>) -> Seq<char> {
    match record.entry {
        EntryModel::Function { name, return_type, parameters, description } => "Function `"@ + name
            + "`\nSignature: "@ + signature_text(name, return_type, parameters)
            + "\n\nDescription:\n"@ + description + "\n"@,
        EntryModel::Define { name, .. } => "Define `"@ + name + "`\n\n"@ + raw_text(record, all)
            + "\n"@,
        EntryModel::Typedef { name, .. } => "Typedef `"@ + name + "`\n\n"@ + raw_text(record, all)
            + "\n"@,
        EntryModel::Struct { name, .. } => "Struct `"@ + name + "`\n\n"@ + raw_text(record, all)
            + "\n"@,
        EntryModel::Union { name, .. } => "Union `"@ + name + "`\n\n"@ + raw_text(record, all)
            + "\n"@,
        EntryModel::Enum { .. } => "Enum\n\n"@ + raw_text(record, all) + "\n"@,
    }
}

/// The annotated rendering of `record` within the catalog `all`: a header line
/// with the category, an empty line, then the title and the body.
pub open spec fn pretty_text(record: RecordModel, all: Seq<RecordModel>) -> Seq<char> {
    "Category: "@ + category_text(record.category) + "\n\n"@ + body_text(record, all)
}

/// The first typedef wins: where no record before position `at` aliases the
/// struct and the one at `at` does, the struct is closed with the name of the
/// record at `at`.
pub proof fn lemma_alias_found(all: Seq<RecordModel>, name: Seq<char>, at: int)
    requires
        0 <= at < all.len(),
        forall|j: int| 0 <= j < at ==> !aliases(#[trigger] all[j], name),
        aliases(all[at], name),
    ensures
        typedef_alias(all, name) == Some(all[at].name()),
        alias_text(all, name) == all[at].name(),
    decreases at,
{
    if at > 0 {
        let rest = all.drop_first();
        assert forall|j: int| 0 <= j < at - 1 implies !aliases(#[trigger] rest[j], name) by {
            assert(rest[j] == all[j + 1]);
        }
        lemma_alias_found(rest, name, at - 1);
    }
}

/// Where no record aliases the struct, it has no typedef alias, and is closed
/// with its own name less one leading underscore.
pub proof fn lemma_alias_absent(all: Seq<RecordModel>, name: Seq<char>)
    requires
        forall|j: int| 0 <= j < all.len() ==> !aliases(#[trigger] all[j], name),
    ensures
        typedef_alias(all, name) is None,
        alias_text(all, name) == without_underscore(name),
    decreases all.len(),
{
    if all.len() > 0 {
        let rest = all.drop_first();
        assert forall|j: int| 0 <= j < rest.len() implies !aliases(#[trigger] rest[j], name) by {
            assert(rest[j] == all[j + 1]);
        }
        lemma_alias_absent(rest, name);
    }
}

/// The raw rendering is a function of the record and the catalog: records
/// with the same model, in catalogs with the same models, render alike.
pub proof fn lemma_raw_definition_deterministic(
    first: CategorizedEntry,
    first_all: Seq<CategorizedEntry>,
    second: CategorizedEntry,
    second_all: Seq<CategorizedEntry>,
)
    requires
        first@ == second@,
        records(first_all) == records(second_all),
    ensures
        raw_text(first@, records(first_all)) == raw_text(second@, records(second_all)),
{
}

/// Whether one of `tokens` is `name` or ends with it.
fn tokens_mention(tokens: &Vec<String>, name: &Vec<char>) -> (r: bool)
    ensures
        r == any_mentions(texts(tokens@), name@),
{
    let mut k: usize = 0;
    while k < tokens.len()
        invariant
            k <= tokens.len(),
            forall|j: int| 0 <= j < k ==> !mentions(#[trigger] texts(tokens@)[j], name@),
        decreases tokens.len() - k,
    {
        let token = chars_of(tokens[k].as_str());
        if ends_with(&token, name) {
            assert(mentions(texts(tokens@)[k as int], name@));
            return true;
        }
        k += 1;
    }
    false
}

/// The name of the first typedef of `all` that mentions the struct `name`.
fn find_alias<'a>(all: &'a [CategorizedEntry], name: &str) -> (r: Option<&'a str>)
    ensures
        match r {
            Some(alias) => typedef_alias(records(all@), name@) == Some(alias@),
            None => typedef_alias(records(all@), name@) is None,
        },
{
    let wanted = chars_of(name);
    let mut i: usize = 0;
    while i < all.len()
        invariant
            i <= all.len(),
            wanted@ == name@,
            forall|j: int| 0 <= j < i ==> !aliases(#[trigger] records(all@)[j], name@),
        decreases all.len() - i,
    {
        let candidate = &all[i];
        match candidate.entry() {
            Entry::Typedef { name: alias, typedef } => {
                if tokens_mention(typedef, &wanted) {
                    proof {
                        lemma_alias_found(records(all@), name@, i as int);
                    }
                    return Some(alias.as_str());
                }
            },
            _ => {},
        }
        i += 1;
    }
    proof {
        lemma_alias_absent(records(all@), name@);
    }
    None
}

/// Appends one line per field to `out`.
fn append_field_lines(out: &mut String, fields: &Vec<StructField>)
    ensures
        final(out)@ == old(out)@ + field_lines(field_models(fields@)),
{
    let ghost all = field_models(fields@);
    let mut i: usize = 0;
    while i < fields.len()
        invariant
            i <= fields.len(),
            all == field_models(fields@),
            out@ == old(out)@ + field_lines(all.take(i as int)),
        decreases fields.len() - i,
    {
        let field = &fields[i];
        out.append("    ");
        out.append(field.type_.as_str());
        out.append(" ");
        out.append(field.name.as_str());
        out.append(";\n");
        proof {
            assert(all.take(i + 1).drop_last() =~= all.take(i as int));
        }
        i += 1;
    }
    proof {
        assert(all.take(fields.len() as int) =~= all);
    }
}

/// Appends one line per enum member to `out`.
fn append_member_lines(out: &mut String, members: &Vec<EnumField>)
    ensures
        final(out)@ == old(out)@ + member_lines(member_models(members@)),
{
    let ghost all = member_models(members@);
    let mut i: usize = 0;
    while i < members.len()
        invariant
            i <= members.len(),
            all == member_models(members@),
            out@ == old(out)@ + member_lines(all.take(i as int)),
        decreases members.len() - i,
    {
        let member = &members[i];
        out.append("    ");
        out.append(member.name.as_str());
        match member.init {
            Some(value) => {
                out.append(" = ");
                append_decimal(out, value);
            },
            None => {},
        }
        out.append(",\n");
        proof {
            assert(all.take(i + 1).drop_last() =~= all.take(i as int));
        }
        i += 1;
    }
    proof {
        assert(all.take(members.len() as int) =~= all);
    }
}

/// `<return type> <name>(<parameters>);`
fn render_signature(name: &String, return_type: &String, parameters: &Vec<String>) -> (out: String)
    ensures
        out@ == signature_text(name@, return_type@, texts(parameters@)),
{
    let list = join(parameters, ", ");
    let mut out = String::new();
    out.append(return_type.as_str());
    out.append(" ");
    out.append(name.as_str());
    out.append("(");
    out.append(list.as_str());
    out.append(");");
    out
}

/// `#define <name> <value>`
fn render_define(name: &String, value: &String) -> (out: String)
    ensures
        out@ == define_text(name@, value@),
{
    let mut out = String::new();
    out.append("#define ");
    out.append(name.as_str());
    out.append(" ");
    out.append(value.as_str());
    out
}

/// `typedef <tokens> <name>;`
fn render_typedef(name: &String, tokens: &Vec<String>) -> (out: String)
    ensures
        out@ == typedef_text(name@, texts(tokens@)),
{
    let list = join(tokens, " ");
    let mut out = String::new();
    out.append("typedef ");
    out.append(list.as_str());
    out.append(" ");
    out.append(name.as_str());
    out.append(";");
    out
}

/// A struct declaration, closed with the alias that the catalog gives it.
fn render_struct(name: &String, fields: &Vec<StructField>, all: &[CategorizedEntry]) -> (out:
    String)
    ensures
        out@ == struct_text(
            name@,
            field_models(fields@),
            alias_text(records(all@), name@),
        ),
{
    let alias = match find_alias(all, name.as_str()) {
        Some(alias) => alias,
        None => strip_underscore(name.as_str()),
    };
    let mut out = String::new();
    out.append("typedef struct _");
    out.append(name.as_str());
    out.append(" {\n");
    append_field_lines(&mut out, fields);
    out.append("} ");
    out.append(alias);
    out.append(", *P");
    out.append(alias);
    out.append(";");
    out
}

/// A union declaration.
fn render_union(name: &String, fields: &Vec<StructField>) -> (out: String)
    ensures
        out@ == union_text(name@, field_models(fields@)),
{
    let mut out = String::new();
    out.append("union ");
    out.append(name.as_str());
    out.append(" {\n");
    append_field_lines(&mut out, fields);
    out.append("};");
    out
}

/// An anonymous enum declaration.
fn render_enum(members: &Vec<EnumField>) -> (out: String)
    ensures
        out@ == enum_text(member_models(members@)),
{
    let mut out = String::new();
    out.append("enum {\n");
    append_member_lines(&mut out, members);
    out.append("};");
    out
}

/// The spelling of a category in the header line.
fn category_label(category: Category) -> (r: &'static str)
    ensures
        r@ == category_text(category),
{
    match category {
        Category::Nt => "Nt",
        Category::Win32 => "Win32",
    }
}

impl CategorizedEntry {
    /// The terse declaration of this record. `all` is the catalog; only a
    /// struct reads it, to find the typedef that names it.
    pub fn raw_definition(&self, all: &[CategorizedEntry]) -> (out: String)
        ensures
            out@ == raw_text(self@, records(all@)),
    {
        match self.entry() {
            Entry::Function { name, return_type, parameters, .. } => render_signature(
                name,
                return_type,
                parameters,
            ),
            Entry::Define { name, value } => render_define(name, value),
            Entry::Typedef { name, typedef } => render_typedef(name, typedef),
            Entry::Struct { name, fields } => render_struct(name, fields, all),
            Entry::Union { name, fields } => render_union(name, fields),
            Entry::Enum { fields, .. } => render_enum(fields),
        }
    }

    /// The annotated rendering of this record: the category, a title with the
    /// kind and the name, then the declaration and, for a function, its
    /// description.
    pub fn pretty_definition(&self, all: &[CategorizedEntry]) -> (out: String)
        ensures
            out@ == pretty_text(self@, records(all@)),
    {
        let mut body = String::new();
        match self.entry() {
            Entry::Function { name, return_type, parameters, description } => {
                let signature = render_signature(name, return_type, parameters);
                body.append("Function `");
                body.append(name.as_str());
                body.append("`\nSignature: ");
                body.append(signature.as_str());
                body.append("\n\nDescription:\n");
                body.append(description.as_str());
                body.append("\n");
            },
            Entry::Define { name, .. } => {
                let raw = self.raw_definition(all);
                body.append("Define `");
                body.append(name.as_str());
                body.append("`\n\n");
                body.append(raw.as_str());
                body.append("\n");
            },
            Entry::Typedef { name, .. } => {
                let raw = self.raw_definition(all);
                body.append("Typedef `");
                body.append(name.as_str());
                body.append("`\n\n");
                body.append(raw.as_str());
                body.append("\n");
            },
            Entry::Struct { name, .. } => {
                let raw = self.raw_definition(all);
                body.append("Struct `");
                body.append(name.as_str());
                body.append("`\n\n");
                body.append(raw.as_str());
                body.append("\n");
            },
            Entry::Union { name, .. } => {
                let raw = self.raw_definition(all);
                body.append("Union `");
                body.append(name.as_str());
                body.append("`\n\n");
                body.append(raw.as_str());
                body.append("\n");
            },
            Entry::Enum { .. } => {
                let raw = self.raw_definition(all);
                body.append("Enum\n\n");
                body.append(raw.as_str());
                body.append("\n");
            },
        }
        let mut out = String::new();
        out.append("Category: ");
        out.append(category_label(self.category()));
        out.append("\n\n");
        out.append(body.as_str());
        out
    }

    /// The annotated rendering of this record on its own, with no catalog to
    /// look an alias up in.
    pub fn display(&self) -> (out: String)
        ensures
            out@ == pretty_text(self@, Seq::empty()),
    {
        let none: Vec<CategorizedEntry> = Vec::new();
        assert(records(none@) =~= Seq::empty());
        self.pretty_definition(none.as_slice())
    }
}

} // verus!
