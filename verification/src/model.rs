//! The record model: one catalog entry is a category tag and one of six kinds
//! of declaration.
//!
//! Each executable type has a mathematical model, reached with `@`, in which
//! every string is the sequence of its characters. The contracts of the whole
//! library are stated over these models.

use vstd::prelude::*;
use crate::text::texts;

verus! {

/// One field of a struct or union: its name and the text of its type.
#[derive(Clone, Debug, PartialEq, Eq)]
pub struct StructField {
    pub name: String,
    pub type_: String,
}

/// One member of an enum: its name and, where given, its explicit value.
#[derive(Clone, Debug, PartialEq, Eq)]
pub struct EnumField {
    pub name: String,
    pub init: Option<u64>,
}

/// The API family that a record belongs to.
#[derive(Clone, Copy, Debug, PartialEq, Eq, Structural)]
pub enum Category {
    Nt,
    Win32,
}

/// The declaration that a record holds. The order of parameters, tokens,
/// fields and members is the order of declaration.
#[derive(Clone, Debug, PartialEq, Eq)]
#[allow(inconsistent_fields)]
pub enum Entry {
    Function { name: String, return_type: String, parameters: Vec<String>, description: String },
    Typedef { name: String, typedef: Vec<String> },
    Define { name: String, value: String },
    Struct { name: String, fields: Vec<StructField> },
    Union { name: String, fields: Vec<StructField> },
    Enum { name: String, fields: Vec<EnumField> },
}

/// A catalog record: a declaration and the category it is filed under.
#[derive(Clone, Debug, PartialEq, Eq)]
pub struct CategorizedEntry {
    category: Category,
    entry: Entry,
}

/// Model of a [`StructField`].
pub ghost struct FieldModel {
    pub name: Seq<char>,
    pub type_: Seq<char>,
}

/// Model of an [`EnumField`].
pub ghost struct MemberModel {
    pub name: Seq<char>,
    pub init: Option<u64>,
}

/// Model of an [`Entry`].
#[allow(inconsistent_fields)]
pub ghost enum EntryModel {
    Function {
        name: Seq<char>,
        return_type: Seq<char>,
        parameters: Seq<Seq<char>>,
        description: Seq<char>,
    },
    Typedef { name: Seq<char>, typedef: Seq<Seq<char>> },
    Define { name: Seq<char>, value: Seq<char> },
    Struct { name: Seq<char>, fields: Seq<FieldModel> },
    Union { name: Seq<char>, fields: Seq<FieldModel> },
    Enum { name: Seq<char>, fields: Seq<MemberModel> },
}

/// Model of a [`CategorizedEntry`].
pub ghost struct RecordModel {
    pub category: Category,
    pub entry: EntryModel,
}

impl View for StructField {
    type V = FieldModel;

    open spec fn view(&self) -> FieldModel {
        FieldModel { name: self.name@, type_: self.type_@ }
    }
}

impl View for EnumField {
    type V = MemberModel;

    open spec fn view(&self) -> MemberModel {
        MemberModel { name: self.name@, init: self.init }
    }
}

/// The models of a run of struct or union fields.
pub open spec fn field_models(fields: Seq<StructField>) -> Seq<FieldModel> {
    Seq::new(fields.len(), |i: int| fields[i]@)
}

/// The models of a run of enum members.
pub open spec fn member_models(fields: Seq<EnumField>) -> Seq<MemberModel> {
    Seq::new(fields.len(), |i: int| fields[i]@)
}

/// The models of the records of a catalog, in catalog order.
pub open spec fn records(all: Seq<CategorizedEntry>) -> Seq<RecordModel> {
    Seq::new(all.len(), |i: int| all[i]@)
}

impl View for Entry {
    type V = EntryModel;

    open spec fn view(&self) -> EntryModel {
        match *self {
            Entry::Function { name, return_type, parameters, description } => EntryModel::Function {
                name: name@,
                return_type: return_type@,
                parameters: texts(parameters@),
                description: description@,
            },
            Entry::Typedef { name, typedef } => EntryModel::Typedef {
                name: name@,
                typedef: texts(typedef@),
            },
            Entry::Define { name, value } => EntryModel::Define { name: name@, value: value@ },
            Entry::Struct { name, fields } => EntryModel::Struct {
                name: name@,
                fields: field_models(fields@),
            },
            Entry::Union { name, fields } => EntryModel::Union {
                name: name@,
                fields: field_models(fields@),
            },
            Entry::Enum { name, fields } => EntryModel::Enum {
                name: name@,
                fields: member_models(fields@),
            },
        }
    }
}

impl View for CategorizedEntry {
    type V = RecordModel;

    closed spec fn view(&self) -> RecordModel {
        RecordModel { category: self.category, entry: self.entry@ }
    }
}

impl EntryModel {
    /// The identifying name, whatever the kind.
    pub open spec fn name(self) -> Seq<char> {
        match self {
            EntryModel::Function { name, .. } => name,
            EntryModel::Typedef { name, .. } => name,
            EntryModel::Define { name, .. } => name,
            EntryModel::Struct { name, .. } => name,
            EntryModel::Union { name, .. } => name,
            EntryModel::Enum { name, .. } => name,
        }
    }
}

impl RecordModel {
    /// The identifying name of the record's declaration.
    pub open spec fn name(self) -> Seq<char> {
        self.entry.name()
    }
}

/// The names of the records of a catalog, in catalog order.
pub open spec fn names(all: Seq<RecordModel>) -> Seq<Seq<char>> {
    Seq::new(all.len(), |i: int| all[i].name())
}

impl Entry {
    /// The identifying name, whatever the kind.
    pub fn name(&self) -> (r: &str)
        ensures
            r@ == self@.name(),
    {
        match self {
            Entry::Function { name, .. } => name.as_str(),
            Entry::Typedef { name, .. } => name.as_str(),
            Entry::Define { name, .. } => name.as_str(),
            Entry::Struct { name, .. } => name.as_str(),
            Entry::Union { name, .. } => name.as_str(),
            Entry::Enum { name, .. } => name.as_str(),
        }
    }
}

impl CategorizedEntry {
    /// Files `entry` under `category`.
    pub fn new(category: Category, entry: Entry) -> (r: CategorizedEntry)
        ensures
            r@ == (RecordModel { category, entry: entry@ }),
    {
        CategorizedEntry { category, entry }
    }

    /// The category the record is filed under.
    pub fn category(&self) -> (r: Category)
        ensures
            r == self@.category,
    {
        self.category
    }

    /// The declaration the record holds.
    pub fn entry(&self) -> (r: &Entry)
        ensures
            r@ == self@.entry,
    {
        &self.entry
    }

    /// The identifying name of the record, whatever its kind.
    pub fn name(&self) -> (r: &str)
        ensures
            r@ == self@.name(),
    {
        self.entry.name()
    }
}

} // verus!
