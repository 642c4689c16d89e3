use ntdocs::model::{CategorizedEntry, Category, Entry, EnumField, StructField};

fn s(text: &str) -> String {
    text.to_string()
}

fn field(type_: &str, name: &str) -> StructField {
    StructField { name: s(name), type_: s(type_) }
}

fn member(name: &str, init: Option<u64>) -> EnumField {
    EnumField { name: s(name), init }
}

fn function(name: &str, ret: &str, params: &[&str], description: &str) -> CategorizedEntry {
    CategorizedEntry::new(
        Category::Nt,
        Entry::Function {
            name: s(name),
            return_type: s(ret),
            parameters: params.iter().map(|p| p.to_string()).collect(),
            description: s(description),
        },
    )
}

fn define(name: &str, value: &str) -> CategorizedEntry {
    CategorizedEntry::new(Category::Win32, Entry::Define { name: s(name), value: s(value) })
}

fn typedef(name: &str, tokens: &[&str]) -> CategorizedEntry {
    CategorizedEntry::new(
        Category::Win32,
        Entry::Typedef { name: s(name), typedef: tokens.iter().map(|t| t.to_string()).collect() },
    )
}

fn structure(name: &str, fields: Vec<StructField>) -> CategorizedEntry {
    CategorizedEntry::new(Category::Nt, Entry::Struct { name: s(name), fields })
}

fn union(name: &str, fields: Vec<StructField>) -> CategorizedEntry {
    CategorizedEntry::new(Category::Nt, Entry::Union { name: s(name), fields })
}

fn enumeration(name: &str, fields: Vec<EnumField>) -> CategorizedEntry {
    CategorizedEntry::new(Category::Nt, Entry::Enum { name: s(name), fields })
}

#[test]
fn name_is_the_same_for_every_kind() {
    assert_eq!(function("NtClose", "NTSTATUS", &[], "").name(), "NtClose");
    assert_eq!(define("MAX_PATH", "260").name(), "MAX_PATH");
    assert_eq!(typedef("DWORD", &["unsigned", "long"]).name(), "DWORD");
    assert_eq!(structure("_FOO", vec![]).name(), "_FOO");
    assert_eq!(union("_BAR", vec![]).name(), "_BAR");
    assert_eq!(enumeration("_KIND", vec![]).name(), "_KIND");
}

#[test]
fn getters_give_back_what_was_filed() {
    let entry = Entry::Define { name: s("A"), value: s("1") };
    let record = CategorizedEntry::new(Category::Win32, entry.clone());
    assert_eq!(record.category(), Category::Win32);
    assert_eq!(record.entry(), &entry);
}

#[test]
fn raw_function_joins_parameters_with_comma() {
    let f = function("NtClose", "NTSTATUS", &["HANDLE Handle", "ULONG Flags"], "Closes.");
    assert_eq!(f.raw_definition(&[]), "NTSTATUS NtClose(HANDLE Handle, ULONG Flags);");
}

#[test]
fn raw_function_without_parameters() {
    let f = function("GetTickCount", "DWORD", &[], "");
    assert_eq!(f.raw_definition(&[]), "DWORD GetTickCount();");
}

#[test]
fn raw_function_with_one_parameter() {
    let f = function("NtClose", "NTSTATUS", &["HANDLE Handle"], "");
    assert_eq!(f.raw_definition(&[]), "NTSTATUS NtClose(HANDLE Handle);");
}

#[test]
fn raw_define() {
    assert_eq!(define("MAX_PATH", "260").raw_definition(&[]), "#define MAX_PATH 260");
}

#[test]
fn raw_typedef_joins_tokens_with_space() {
    let t = typedef("PVOID", &["void", "*"]);
    assert_eq!(t.raw_definition(&[]), "typedef void * PVOID;");
}

#[test]
fn raw_typedef_without_tokens() {
    assert_eq!(typedef("X", &[]).raw_definition(&[]), "typedef  X;");
}

#[test]
fn raw_struct_without_typedef_strips_one_underscore() {
    let st = structure("_FOO", vec![field("ULONG", "Length"), field("PVOID", "Buffer")]);
    let all = vec![st.clone()];
    assert_eq!(
        st.raw_definition(&all),
        "typedef struct __FOO {\n    ULONG Length;\n    PVOID Buffer;\n} FOO, *PFOO;"
    );
}

#[test]
fn raw_struct_strips_at_most_one_underscore() {
    let st = structure("__BAR", vec![]);
    assert_eq!(st.raw_definition(&[]), "typedef struct ___BAR {\n} _BAR, *P_BAR;");
}

#[test]
fn raw_struct_without_underscore_keeps_its_name() {
    let st = structure("POINT", vec![field("LONG", "x")]);
    assert_eq!(st.raw_definition(&[]), "typedef struct _POINT {\n    LONG x;\n} POINT, *PPOINT;");
}

#[test]
fn raw_struct_with_empty_name() {
    let st = structure("", vec![]);
    assert_eq!(st.raw_definition(&[]), "typedef struct _ {\n} , *P;");
}

#[test]
fn struct_alias_is_the_name_of_the_typedef() {
    let td = typedef("FOO", &["_FOO"]);
    let st = structure("_FOO", vec![field("ULONG", "Length")]);
    let all = vec![td, st.clone()];
    assert_eq!(st.raw_definition(&all), "typedef struct __FOO {\n    ULONG Length;\n} FOO, *PFOO;");
}

#[test]
fn struct_alias_from_pointer_typedef() {
    let td = typedef("PFOO", &["_FOO", "*"]);
    let st = structure("_FOO", vec![]);
    let all = vec![td, st.clone()];
    assert_eq!(st.raw_definition(&all), "typedef struct __FOO {\n} PFOO, *PPFOO;");
}

#[test]
fn struct_alias_by_token_suffix() {
    let td = typedef("BAR_T", &["struct", "tag_BAR"]);
    let st = structure("_BAR", vec![]);
    let all = vec![st.clone(), td];
    assert_eq!(st.raw_definition(&all), "typedef struct __BAR {\n} BAR_T, *PBAR_T;");
}

#[test]
fn struct_alias_first_typedef_in_catalog_order_wins() {
    let first = typedef("FIRST", &["x_FOO"]);
    let second = typedef("SECOND", &["_FOO"]);
    let st = structure("_FOO", vec![]);
    let all = vec![define("_FOO", "1"), first, st.clone(), second];
    assert_eq!(st.raw_definition(&all), "typedef struct __FOO {\n} FIRST, *PFIRST;");
}

#[test]
fn struct_alias_needs_a_suffix_not_a_prefix() {
    let td = typedef("NOPE", &["_FOO_EX", "FOO"]);
    let st = structure("_FOO", vec![]);
    let all = vec![td, st.clone()];
    assert_eq!(st.raw_definition(&all), "typedef struct __FOO {\n} FOO, *PFOO;");
}

#[test]
fn struct_alias_ignores_other_kinds() {
    let st = structure("_FOO", vec![]);
    let all = vec![define("X", "_FOO"), function("_FOO", "_FOO", &["_FOO"], "_FOO"), st.clone()];
    assert_eq!(st.raw_definition(&all), "typedef struct __FOO {\n} FOO, *PFOO;");
}

#[test]
fn raw_union_has_no_alias() {
    let u = union("_LARGE", vec![field("ULONG", "Low"), field("LONG", "High")]);
    let all = vec![typedef("LARGE", &["_LARGE"]), u.clone()];
    assert_eq!(u.raw_definition(&all), "union _LARGE {\n    ULONG Low;\n    LONG High;\n};");
}

#[test]
fn raw_union_without_fields() {
    assert_eq!(union("U", vec![]).raw_definition(&[]), "union U {\n};");
}

#[test]
fn raw_enum_with_and_without_initializer() {
    let e = enumeration("_KIND", vec![member("A", Some(0)), member("B", None)]);
    assert_eq!(e.raw_definition(&[e.clone()]), "enum {\n    A = 0,\n    B,\n};");
}

#[test]
fn raw_enum_prints_decimal_values() {
    let e = enumeration(
        "E",
        vec![
            member("Seven", Some(7)),
            member("Ten", Some(10)),
            member("Big", Some(1234567890)),
            member("Max", Some(u64::MAX)),
            member("Round", Some(1000)),
        ],
    );
    assert_eq!(
        e.raw_definition(&[]),
        "enum {\n    Seven = 7,\n    Ten = 10,\n    Big = 1234567890,\n    Max = 18446744073709551615,\n    Round = 1000,\n};"
    );
}

#[test]
fn raw_enum_without_members() {
    assert_eq!(enumeration("E", vec![]).raw_definition(&[]), "enum {\n};");
}

#[test]
fn raw_definition_keeps_malformed_fields_as_they_are() {
    let st = structure("_S", vec![field("", "x"), field("int", "")]);
    assert_eq!(st.raw_definition(&[]), "typedef struct __S {\n     x;\n    int ;\n} S, *PS;");
}

#[test]
fn raw_definition_is_deterministic() {
    let td = typedef("FOO", &["_FOO"]);
    let st = structure("_FOO", vec![field("ULONG", "Length")]);
    let all = vec![td, st.clone()];
    let again = all.clone();
    let copy = st.clone();
    assert_eq!(st.raw_definition(&all), copy.raw_definition(&again));
    assert_eq!(st.raw_definition(&all), st.raw_definition(&all));
}

#[test]
fn raw_definition_handles_text_beyond_ascii() {
    let d = define("GRÖSSE", "„zehn“");
    assert_eq!(d.raw_definition(&[]), "#define GRÖSSE „zehn“");
    let td = typedef("Émile", &["données_é"]);
    let st = structure("é", vec![]);
    assert_eq!(st.raw_definition(&[td, st.clone()]), "typedef struct _é {\n} Émile, *PÉmile;");
}

#[test]
fn pretty_function() {
    let f = function("NtClose", "NTSTATUS", &["HANDLE Handle"], "Closes a handle.");
    assert_eq!(
        f.pretty_definition(&[]),
        "Category: Nt\n\nFunction `NtClose`\nSignature: NTSTATUS NtClose(HANDLE Handle);\n\nDescription:\nCloses a handle.\n"
    );
}

#[test]
fn pretty_define() {
    assert_eq!(
        define("MAX_PATH", "260").pretty_definition(&[]),
        "Category: Win32\n\nDefine `MAX_PATH`\n\n#define MAX_PATH 260\n"
    );
}

#[test]
fn pretty_typedef() {
    assert_eq!(
        typedef("DWORD", &["unsigned", "long"]).pretty_definition(&[]),
        "Category: Win32\n\nTypedef `DWORD`\n\ntypedef unsigned long DWORD;\n"
    );
}

#[test]
fn pretty_struct_uses_the_catalog() {
    let td = typedef("FOO_T", &["_FOO"]);
    let st = structure("_FOO", vec![field("ULONG", "Length")]);
    let all = vec![td, st.clone()];
    assert_eq!(
        st.pretty_definition(&all),
        "Category: Nt\n\nStruct `_FOO`\n\ntypedef struct __FOO {\n    ULONG Length;\n} FOO_T, *PFOO_T;\n"
    );
    assert_eq!(
        st.pretty_definition(&[]),
        "Category: Nt\n\nStruct `_FOO`\n\ntypedef struct __FOO {\n    ULONG Length;\n} FOO, *PFOO;\n"
    );
}

#[test]
fn pretty_union() {
    let u = union("_U", vec![field("int", "a")]);
    assert_eq!(
        u.pretty_definition(&[]),
        "Category: Nt\n\nUnion `_U`\n\nunion _U {\n    int a;\n};\n"
    );
}

#[test]
fn pretty_enum_has_a_bare_title() {
    let e = enumeration("_KIND", vec![member("A", Some(0)), member("B", None)]);
    assert_eq!(
        e.pretty_definition(&[]),
        "Category: Nt\n\nEnum\n\nenum {\n    A = 0,\n    B,\n};\n"
    );
}

#[test]
fn pretty_ends_with_raw_for_aggregates() {
    let st = structure("_FOO", vec![field("ULONG", "Length")]);
    let all = vec![typedef("FOO", &["_FOO"]), st.clone()];
    let pretty = st.pretty_definition(&all);
    let raw = st.raw_definition(&all);
    assert!(pretty.ends_with(&format!("{}\n", raw)));
}

#[test]
fn display_is_the_pretty_rendering_without_a_catalog() {
    let st = structure("_FOO", vec![field("ULONG", "Length")]);
    assert_eq!(st.display(), st.pretty_definition(&[]));
    assert_eq!(
        st.display(),
        "Category: Nt\n\nStruct `_FOO`\n\ntypedef struct __FOO {\n    ULONG Length;\n} FOO, *PFOO;\n"
    );
    assert_eq!(define("A", "1").display(), "Category: Win32\n\nDefine `A`\n\n#define A 1\n");
}
