//! Column lists for generated models: the `--fields` syntax, the Rust and
//! migration types of each column, and the entity / migration sources.

use vstd::prelude::*;
use vstd::string::*;
use crate::text::{
    ends_with_char, is_prefix, split_char, split_on, str_eq, str_starts_with,
    trim, trim_ws,
};
use crate::util::{ident_ok, spec_validate_ident, validate_ident};

verus! {

/// Column types accepted by `--fields`.
#[derive(Clone, Copy, Debug, PartialEq, Eq, Structural)]
pub enum FieldType {
    String,
    Text,
    Int,
    BigInt,
    Bool,
    Uuid,
    Float,
    DateTime,
}

/// One column of a generated model.
#[derive(Clone, Debug)]
pub struct FieldSpec {
    pub name: String,
    pub ty: FieldType,
    pub nullable: bool,
    pub unique: bool,
}

/// A column as the contracts see it.
pub struct FieldSpecView {
    pub name: Seq<char>,
    pub ty: FieldType,
    pub nullable: bool,
    pub unique: bool,
}

impl View for FieldSpec {
    type V = FieldSpecView;

    open spec fn view(&self) -> FieldSpecView {
        FieldSpecView { name: self.name@, ty: self.ty, nullable: self.nullable, unique: self.unique }
    }
}

/// The columns of a slice, as the contracts see them.
pub open spec fn fields_view(fs: Seq<FieldSpec>) -> Seq<FieldSpecView> {
    fs.map_values(|f: FieldSpec| f@)
}

/// Concatenation of one rendered piece per column, in order.
pub open spec fn concat_lines(fs: Seq<FieldSpecView>, line: spec_fn(FieldSpecView) -> Seq<char>) -> Seq<char>
    decreases fs.len(),
{
    if fs.len() == 0 {
        Seq::empty()
    } else {
        concat_lines(fs.drop_last(), line) + line(fs.last())
    }
}

/// One more column adds its piece at the end.
pub proof fn lemma_concat_lines_step(fs: Seq<FieldSpecView>, line: spec_fn(FieldSpecView) -> Seq<char>, i: int)
    requires
        0 <= i < fs.len(),
    ensures
        concat_lines(fs.take(i + 1), line) == concat_lines(fs.take(i), line) + line(fs[i]),
{
    assert(fs.take(i + 1).drop_last() =~= fs.take(i));
}

/// A copy of a column with the same contents.
pub fn copy_field(f: &FieldSpec) -> (r: FieldSpec)
    ensures
        r@ == f@,
{
    FieldSpec { name: f.name.clone(), ty: f.ty, nullable: f.nullable, unique: f.unique }
}

/// The type keyword of `--fields`, when it names one.
pub open spec fn spec_parse_field_type(raw: Seq<char>) -> Result<FieldType, Seq<char>> {
    if raw == "string"@ {
        Ok(FieldType::String)
    } else if raw == "text"@ {
        Ok(FieldType::Text)
    } else if raw == "int"@ {
        Ok(FieldType::Int)
    } else if raw == "bigint"@ {
        Ok(FieldType::BigInt)
    } else if raw == "bool"@ {
        Ok(FieldType::Bool)
    } else if raw == "uuid"@ {
        Ok(FieldType::Uuid)
    } else if raw == "float"@ {
        Ok(FieldType::Float)
    } else if raw == "datetime"@ {
        Ok(FieldType::DateTime)
    } else {
        Err("unknown type `"@ + raw + "` (string|text|int|bigint|bool|uuid|float|datetime)"@)
    }
}

/// Parse a column type keyword (`string`, `int`, ...).
pub fn parse_field_type(raw: &str) -> (r: Result<FieldType, String>)
    ensures
        match r {
            Ok(t) => spec_parse_field_type(raw@) == Ok::<FieldType, Seq<char>>(t),
            Err(e) => spec_parse_field_type(raw@) == Err::<FieldType, Seq<char>>(e@),
        },
{
    if str_eq(raw, "string") {
        Ok(FieldType::String)
    } else if str_eq(raw, "text") {
        Ok(FieldType::Text)
    } else if str_eq(raw, "int") {
        Ok(FieldType::Int)
    } else if str_eq(raw, "bigint") {
        Ok(FieldType::BigInt)
    } else if str_eq(raw, "bool") {
        Ok(FieldType::Bool)
    } else if str_eq(raw, "uuid") {
        Ok(FieldType::Uuid)
    } else if str_eq(raw, "float") {
        Ok(FieldType::Float)
    } else if str_eq(raw, "datetime") {
        Ok(FieldType::DateTime)
    } else {
        let mut e = String::from_str("unknown type `");
        e.append(raw);
        e.append("` (string|text|int|bigint|bool|uuid|float|datetime)");
        Err(e)
    }
}

/// The `:`-separated pieces of one column, each trimmed.
pub open spec fn field_pieces(part: Seq<char>) -> Seq<Seq<char>> {
    split_on(part, ':').map_values(|x: Seq<char>| trim_ws(x))
}

/// Modifiers after the type: `(unique, nullable)`, or the first unknown one.
pub open spec fn scan_modifiers(extras: Seq<Seq<char>>) -> Result<(bool, bool), Seq<char>>
    decreases extras.len(),
{
    if extras.len() == 0 {
        Ok((false, false))
    } else {
        match scan_modifiers(extras.drop_last()) {
            Err(bad) => Err(bad),
            Ok((u, q)) => {
                let x = extras.last();
                if x == "unique"@ {
                    Ok((true, q))
                } else if x == "?"@ {
                    Ok((u, true))
                } else {
                    Err(x)
                }
            },
        }
    }
}

/// What one non-empty, trimmed `name:type[:modifier]*` item parses to.
pub open spec fn spec_parse_field(part: Seq<char>) -> Result<FieldSpecView, Seq<char>> {
    let pieces = field_pieces(part);
    if pieces.len() < 2 {
        Err("bad field `"@ + part + "` — expected name:type[:unique]"@)
    } else {
        let name = pieces[0];
        match spec_validate_ident(name) {
            Err(e) => Err(e),
            Ok(_) => {
                let tok = pieces[1];
                let q0 = ends_with_char(tok, '?');
                let ty_tok = if q0 { tok.drop_last() } else { tok };
                match scan_modifiers(pieces.subrange(2, pieces.len() as int)) {
                    Err(bad) => Err("unknown field modifier `"@ + bad + "` on `"@ + name + "`"@),
                    Ok((u, q)) => match spec_parse_field_type(ty_tok) {
                        Err(e) => Err(e),
                        Ok(ty) => Ok(FieldSpecView { name, ty, nullable: q0 || q, unique: u }),
                    },
                }
            },
        }
    }
}

/// The columns of the comma-separated items seen so far; blank items are skipped
/// and the first bad item stops the scan.
pub open spec fn parse_field_items(items: Seq<Seq<char>>) -> Result<Seq<FieldSpecView>, Seq<char>>
    decreases items.len(),
{
    if items.len() == 0 {
        Ok(Seq::empty())
    } else {
        match parse_field_items(items.drop_last()) {
            Err(e) => Err(e),
            Ok(acc) => {
                let part = trim_ws(items.last());
                if part.len() == 0 {
                    Ok(acc)
                } else {
                    match spec_parse_field(part) {
                        Err(e) => Err(e),
                        Ok(f) => Ok(acc.push(f)),
                    }
                }
            },
        }
    }
}

/// What `parse_fields` returns for a `--fields` argument.
pub open spec fn spec_parse_fields(raw: Seq<char>) -> Result<Seq<FieldSpecView>, Seq<char>> {
    match parse_field_items(split_on(raw, ',')) {
        Err(e) => Err(e),
        Ok(fs) => if fs.len() == 0 {
            Err("--fields must list at least one column"@)
        } else {
            Ok(fs)
        },
    }
}

/// Once an item fails, the whole list fails with the same message.
proof fn lemma_items_error_sticks(items: Seq<Seq<char>>, j: int, e: Seq<char>)
    requires
        0 <= j <= items.len(),
        parse_field_items(items.take(j)) == Err::<Seq<FieldSpecView>, Seq<char>>(e),
    ensures
        parse_field_items(items) == Err::<Seq<FieldSpecView>, Seq<char>>(e),
    decreases items.len() - j,
{
    if j == items.len() {
        assert(items.take(j) =~= items);
    } else {
        assert(items.take(j + 1).drop_last() =~= items.take(j));
        lemma_items_error_sticks(items, j + 1, e);
    }
}

/// Parse one trimmed, non-empty `name:type[:modifier]*` item.
fn parse_field(part: &str) -> (r: Result<FieldSpec, String>)
    ensures
        match r {
            Ok(f) => spec_parse_field(part@) == Ok::<FieldSpecView, Seq<char>>(f@),
            Err(e) => spec_parse_field(part@) == Err::<FieldSpecView, Seq<char>>(e@),
        },
{
    let raw_pieces = split_char(part, ':');
    let ghost pieces = field_pieces(part@);
    let np = raw_pieces.len();
    assert(pieces.len() == np);
    if np < 2 {
        let mut e = String::from_str("bad field `");
        e.append(part);
        e.append("` — expected name:type[:unique]");
        return Err(e);
    }
    let name_s = trim(raw_pieces[0].as_str());
    assert(name_s@ == pieces[0]);
    match validate_ident(name_s) {
        Err(e) => {
            return Err(e);
        },
        Ok(()) => {},
    }
    let tok = trim(raw_pieces[1].as_str());
    assert(tok@ == pieces[1]);
    let tn = tok.unicode_len();
    let q0 = tn > 0 && tok.get_char(tn - 1) == '?';
    let ty_tok = if q0 { tok.substring_char(0, tn - 1) } else { tok };
    assert(ty_tok@ == (if q0 { tok@.drop_last() } else { tok@ }));
    let mut unique = false;
    let mut qmark = false;
    let mut k: usize = 2;
    assert(pieces.subrange(2, 2) =~= Seq::<Seq<char>>::empty());
    while k < np
        invariant
            np == raw_pieces@.len(),
            np == pieces.len(),
            pieces == field_pieces(part@),
            forall|j: int| 0 <= j < np ==> (#[trigger] raw_pieces@[j])@ == split_on(part@, ':')[j],
            2 <= k <= np,
            name_s@ == pieces[0],
            spec_validate_ident(pieces[0]) == Ok::<(), Seq<char>>(()),
            scan_modifiers(pieces.subrange(2, k as int)) == Ok::<(bool, bool), Seq<char>>((unique, qmark)),
        decreases np - k,
    {
        let x = trim(raw_pieces[k].as_str());
        assert(x@ == pieces[k as int]);
        assert(pieces.subrange(2, k + 1).drop_last() =~= pieces.subrange(2, k as int));
        if str_eq(x, "unique") {
            unique = true;
        } else if str_eq(x, "?") {
            qmark = true;
        } else {
            proof {
                assert(scan_modifiers(pieces.subrange(2, k + 1)) == Err::<(bool, bool), Seq<char>>(x@));
                assert(pieces.subrange(2, np as int).take(k - 1) =~= pieces.subrange(2, k + 1));
                lemma_modifiers_error_sticks(pieces.subrange(2, np as int), k - 1, x@);
            }
            let mut e = String::from_str("unknown field modifier `");
            e.append(x);
            e.append("` on `");
            e.append(name_s);
            e.append("`");
            proof {
                assert(scan_modifiers(pieces.subrange(2, pieces.len() as int)) == Err::<(bool, bool), Seq<char>>(x@));
            }
            return Err(e);
        }
        k = k + 1;
    }
    let ty = match parse_field_type(ty_tok) {
        Ok(t) => t,
        Err(e) => {
            return Err(e);
        },
    };
    Ok(FieldSpec { name: name_s.to_owned(), ty, nullable: q0 || qmark, unique })
}

/// Once a modifier is unknown, the scan fails with it.
proof fn lemma_modifiers_error_sticks(xs: Seq<Seq<char>>, j: int, bad: Seq<char>)
    requires
        0 <= j <= xs.len(),
        scan_modifiers(xs.take(j)) == Err::<(bool, bool), Seq<char>>(bad),
    ensures
        scan_modifiers(xs) == Err::<(bool, bool), Seq<char>>(bad),
    decreases xs.len() - j,
{
    if j == xs.len() {
        assert(xs.take(j) =~= xs);
    } else {
        assert(xs.take(j + 1).drop_last() =~= xs.take(j));
        lemma_modifiers_error_sticks(xs, j + 1, bad);
    }
}

/// Parse `--fields "title:string,views:int?:unique"` into columns.
pub fn parse_fields(raw: &str) -> (r: Result<Vec<FieldSpec>, String>)
    ensures
        match r {
            Ok(v) => spec_parse_fields(raw@) == Ok::<Seq<FieldSpecView>, Seq<char>>(fields_view(v@)),
            Err(e) => spec_parse_fields(raw@) == Err::<Seq<FieldSpecView>, Seq<char>>(e@),
        },
{
    let parts = split_char(raw, ',');
    let ghost items = split_on(raw@, ',');
    let mut out: Vec<FieldSpec> = Vec::new();
    let mut i: usize = 0;
    proof {
        assert(items.take(0) =~= Seq::<Seq<char>>::empty());
        assert(fields_view(out@) =~= Seq::<FieldSpecView>::empty());
    }
    while i < parts.len()
        invariant
            items == split_on(raw@, ','),
            parts@.len() == items.len(),
            forall|k: int| 0 <= k < parts@.len() ==> (#[trigger] parts@[k])@ == items[k],
            i <= parts@.len(),
            parse_field_items(items.take(i as int)) == Ok::<Seq<FieldSpecView>, Seq<char>>(fields_view(out@)),
        decreases parts@.len() - i,
    {
        let part = trim(parts[i].as_str());
        proof {
            assert(items.take(i + 1).drop_last() =~= items.take(i as int));
            assert(items.take(i + 1).last() == items[i as int]);
        }
        if part.unicode_len() > 0 {
            match parse_field(part) {
                Ok(f) => {
                    let ghost before = out@;
                    out.push(f);
                    assert(fields_view(out@) =~= fields_view(before).push(f@));
                },
                Err(e) => {
                    proof {
                        lemma_items_error_sticks(items, i + 1, e@);
                    }
                    return Err(e);
                },
            }
        }
        i = i + 1;
    }
    assert(items.take(parts@.len() as int) =~= items);
    if out.len() == 0 {
        return Err(String::from_str("--fields must list at least one column"));
    }
    Ok(out)
}

/// The Rust type of an entity column.
pub open spec fn spec_rust_type(f: FieldSpecView) -> Seq<char> {
    let base = match f.ty {
        FieldType::String | FieldType::Text => "String"@,
        FieldType::Int => "i32"@,
        FieldType::BigInt => "i64"@,
        FieldType::Bool => "bool"@,
        FieldType::Uuid => "Uuid"@,
        FieldType::Float => "f64"@,
        FieldType::DateTime => "DateTimeWithTimeZone"@,
    };
    if f.nullable {
        "Option<"@ + base + ">"@
    } else {
        base
    }
}

/// Rust type of an entity column (`Option<..>` when nullable).
pub fn rust_type(spec: &FieldSpec) -> (r: String)
    ensures
        r@ == spec_rust_type(spec@),
{
    let base = match spec.ty {
        FieldType::String | FieldType::Text => "String",
        FieldType::Int => "i32",
        FieldType::BigInt => "i64",
        FieldType::Bool => "bool",
        FieldType::Uuid => "Uuid",
        FieldType::Float => "f64",
        FieldType::DateTime => "DateTimeWithTimeZone",
    };
    if spec.nullable {
        let mut s = String::from_str("Option<");
        s.append(base);
        s.append(">");
        s
    } else {
        String::from_str(base)
    }
}

/// The `sea_orm_migration::schema` helper name of a column type.
pub open spec fn col_base(ty: FieldType) -> Seq<char> {
    match ty {
        FieldType::String => "string"@,
        FieldType::Text => "text"@,
        FieldType::Int => "integer"@,
        FieldType::BigInt => "big_integer"@,
        FieldType::Bool => "boolean"@,
        FieldType::Uuid => "uuid"@,
        FieldType::Float => "double"@,
        FieldType::DateTime => "timestamp_with_time_zone"@,
    }
}

/// The schema-helper call of a migration column: `unique` wins over `nullable`.
pub open spec fn spec_migration_col_helper(f: FieldSpecView) -> Seq<char> {
    let helper = if f.unique {
        col_base(f.ty) + "_uniq"@
    } else if f.nullable {
        col_base(f.ty) + "_null"@
    } else {
        col_base(f.ty)
    };
    helper + "(\""@ + f.name + "\")"@
}

/// Schema-helper call for a migration column, e.g. `string_uniq("email")`.
pub fn migration_col_helper(spec: &FieldSpec) -> (r: String)
    ensures
        r@ == spec_migration_col_helper(spec@),
{
    let base = match spec.ty {
        FieldType::String => "string",
        FieldType::Text => "text",
        FieldType::Int => "integer",
        FieldType::BigInt => "big_integer",
        FieldType::Bool => "boolean",
        FieldType::Uuid => "uuid",
        FieldType::Float => "double",
        FieldType::DateTime => "timestamp_with_time_zone",
    };
    let mut out = String::from_str(base);
    if spec.unique {
        out.append("_uniq");
    } else if spec.nullable {
        out.append("_null");
    }
    out.append("(\"");
    out.append(spec.name.as_str());
    out.append("\")");
    out
}

/// Imports and derives above an entity model.
pub const ENTITY_HEAD: &'static str = "use sea_orm::entity::prelude::*;\nuse serde::{Deserialize, Serialize};\n\n#[derive(Clone, Debug, PartialEq, DeriveEntityModel, Serialize, Deserialize)]\n";

/// Opening of the entity model, with its primary key.
pub const ENTITY_MODEL_OPEN: &'static str = "pub struct Model {\n    #[sea_orm(primary_key)]\n    pub id: i32,\n";

/// Closing of the entity model and the relation / behaviour items.
pub const ENTITY_TAIL: &'static str = "}\n\n#[derive(Copy, Clone, Debug, EnumIter, DeriveRelation)]\npub enum Relation {}\n\nimpl ActiveModelBehavior for ActiveModel {}\n";

/// One entity model field.
pub open spec fn entity_line(f: FieldSpecView) -> Seq<char> {
    (if f.unique { "    #[sea_orm(unique)]\n"@ } else { Seq::empty() }) + "    pub "@ + f.name + ": "@
        + spec_rust_type(f) + ",\n"@
}

/// The SeaORM entity source for table `name`.
pub open spec fn spec_render_entity(name: Seq<char>, fs: Seq<FieldSpecView>) -> Seq<char> {
    ENTITY_HEAD@ + "#[sea_orm(table_name = \""@ + name + "\")]\n"@ + ENTITY_MODEL_OPEN@
        + concat_lines(fs, |f: FieldSpecView| entity_line(f)) + ENTITY_TAIL@
}

/// Render the SeaORM entity module for a table.
pub fn render_entity(name: &str, fields: &[FieldSpec]) -> (r: String)
    ensures
        r@ == spec_render_entity(name@, fields_view(fields@)),
{
    let ghost fs = fields_view(fields@);
    let ghost line = |f: FieldSpecView| entity_line(f);
    let mut out = String::from_str(ENTITY_HEAD);
    out.append("#[sea_orm(table_name = \"");
    out.append(name);
    out.append("\")]\n");
    out.append(ENTITY_MODEL_OPEN);
    let ghost head = out@;
    let mut i: usize = 0;
    assert(fs.take(0) =~= Seq::<FieldSpecView>::empty());
    assert(out@ =~= head + concat_lines(fs.take(0), line));
    while i < fields.len()
        invariant
            fs == fields_view(fields@),
            line == (|f: FieldSpecView| entity_line(f)),
            i <= fields@.len(),
            out@ == head + concat_lines(fs.take(i as int), line),
        decreases fields@.len() - i,
    {
        let f = &fields[i];
        let ghost before = out@;
        if f.unique {
            out.append("    #[sea_orm(unique)]\n");
        }
        out.append("    pub ");
        out.append(f.name.as_str());
        out.append(": ");
        let t = rust_type(f);
        out.append(t.as_str());
        out.append(",\n");
        proof {
            lemma_concat_lines_step(fs, line, i as int);
            assert(fs[i as int] == f@);
            assert(out@ =~= before + entity_line(f@));
        }
        i = i + 1;
    }
    assert(fs.take(fields@.len() as int) =~= fs);
    out.append(ENTITY_TAIL);
    out
}

/// Migration source up to the table name.
pub const MIGRATION_HEAD: &'static str = "use sea_orm_migration::{prelude::*, schema::*};\n\n#[derive(DeriveMigrationName)]\npub struct Migration;\n\n#[async_trait::async_trait]\nimpl MigrationTrait for Migration {\n    async fn up(&self, manager: &SchemaManager) -> Result<(), DbErr> {\n        manager\n            .create_table(\n                Table::create()\n";

/// Migration source after the table name, up to the first column.
pub const MIGRATION_COLS_OPEN: &'static str = "                    .if_not_exists()\n                    .col(pk_auto(\"id\"))\n";

/// Migration source from the end of `up` to the table name in `down`.
pub const MIGRATION_DOWN_OPEN: &'static str = "                    .to_owned(),\n            )\n            .await\n    }\n\n    async fn down(&self, manager: &SchemaManager) -> Result<(), DbErr> {\n        manager\n";

/// The end of a migration source.
pub const MIGRATION_TAIL: &'static str = "            .await\n    }\n}\n";

/// One migration column.
pub open spec fn migration_line(f: FieldSpecView) -> Seq<char> {
    "                    .col("@ + spec_migration_col_helper(f) + ")\n"@
}

/// The create-table migration source for table `name`.
pub open spec fn spec_render_migration(name: Seq<char>, fs: Seq<FieldSpecView>) -> Seq<char> {
    MIGRATION_HEAD@ + "                    .table(\""@ + name + "\")\n"@ + MIGRATION_COLS_OPEN@
        + concat_lines(fs, |f: FieldSpecView| migration_line(f)) + MIGRATION_DOWN_OPEN@
        + "            .drop_table(Table::drop().table(\""@ + name + "\").to_owned())\n"@
        + MIGRATION_TAIL@
}

/// Render a create-table migration (with a matching drop in `down`).
pub fn render_migration(name: &str, fields: &[FieldSpec]) -> (r: String)
    ensures
        r@ == spec_render_migration(name@, fields_view(fields@)),
{
    let ghost fs = fields_view(fields@);
    let ghost line = |f: FieldSpecView| migration_line(f);
    let mut out = String::from_str(MIGRATION_HEAD);
    out.append("                    .table(\"");
    out.append(name);
    out.append("\")\n");
    out.append(MIGRATION_COLS_OPEN);
    let ghost head = out@;
    let mut i: usize = 0;
    assert(fs.take(0) =~= Seq::<FieldSpecView>::empty());
    assert(out@ =~= head + concat_lines(fs.take(0), line));
    while i < fields.len()
        invariant
            fs == fields_view(fields@),
            line == (|f: FieldSpecView| migration_line(f)),
            i <= fields@.len(),
            out@ == head + concat_lines(fs.take(i as int), line),
        decreases fields@.len() - i,
    {
        let f = &fields[i];
        let ghost before = out@;
        out.append("                    .col(");
        let h = migration_col_helper(f);
        out.append(h.as_str());
        out.append(")\n");
        proof {
            lemma_concat_lines_step(fs, line, i as int);
            assert(fs[i as int] == f@);
            assert(out@ =~= before + migration_line(f@));
        }
        i = i + 1;
    }
    assert(fs.take(fields@.len() as int) =~= fs);
    out.append(MIGRATION_DOWN_OPEN);
    out.append("            .drop_table(Table::drop().table(\"");
    out.append(name);
    out.append("\").to_owned())\n");
    out.append(MIGRATION_TAIL);
    out
}

/// Plural of a resource name: unchanged when it already ends in `s`.
pub open spec fn spec_pluralize(name: Seq<char>) -> Seq<char> {
    if ends_with_char(name, 's') {
        name
    } else {
        name.push('s')
    }
}

/// Naive English plural used for mount paths (`post` → `posts`).
pub fn pluralize(name: &str) -> (r: String)
    ensures
        r@ == spec_pluralize(name@),
{
    let n = name.unicode_len();
    let mut out = String::from_str(name);
    if !(n > 0 && name.get_char(n - 1) == 's') {
        out.append("s");
        proof {
            reveal_strlit("s");
        }
        assert(out@ =~= name@.push('s'));
    }
    out
}

/// Every column of a partial scan has an identifier as its name.
proof fn lemma_items_names_valid(items: Seq<Seq<char>>)
    requires
        parse_field_items(items) is Ok,
    ensures
        forall|k: int| 0 <= k < parse_field_items(items)->Ok_0.len() ==> ident_ok(
            (#[trigger] parse_field_items(items)->Ok_0[k]).name,
        ),
    decreases items.len(),
{
    if items.len() > 0 {
        lemma_items_names_valid(items.drop_last());
        let acc = parse_field_items(items.drop_last())->Ok_0;
        let part = trim_ws(items.last());
        if part.len() > 0 {
            let f = spec_parse_field(part)->Ok_0;
            assert(spec_validate_ident(field_pieces(part)[0]) is Ok);
            assert(ident_ok(f.name));
            let all = parse_field_items(items)->Ok_0;
            assert(all == acc.push(f));
            assert forall|k: int| 0 <= k < all.len() implies ident_ok((#[trigger] all[k]).name) by {
                if k < acc.len() {
                    assert(all[k] == acc[k]);
                }
            }
        }
    }
}

/// A parsed `--fields` list is non-empty and names every column with an identifier.
pub proof fn law_parsed_fields_are_identifiers(raw: Seq<char>)
    requires
        spec_parse_fields(raw) is Ok,
    ensures
        spec_parse_fields(raw)->Ok_0.len() > 0,
        forall|k: int| 0 <= k < spec_parse_fields(raw)->Ok_0.len() ==> ident_ok(
            (#[trigger] spec_parse_fields(raw)->Ok_0[k]).name,
        ),
{
    lemma_items_names_valid(split_on(raw, ','));
}

/// A plural ends in `s`, and pluralizing it again changes nothing.
pub proof fn law_pluralize_idempotent(name: Seq<char>)
    ensures
        ends_with_char(spec_pluralize(name), 's'),
        spec_pluralize(spec_pluralize(name)) == spec_pluralize(name),
{
}

/// Module name of the migration that creates table `name`: `m<stamp>_create_<name>`.
pub fn model_migration_module(stamp: &str, name: &str) -> (r: String)
    ensures
        r@ == "m"@ + stamp@ + "_create_"@ + name@,
{
    let mut out = String::from_str("m");
    out.append(stamp);
    out.append("_create_");
    out.append(name);
    out
}

/// Module name of a standalone migration: `m<stamp>_<snake>`.
pub fn migration_module(stamp: &str, snake: &str) -> (r: String)
    ensures
        r@ == "m"@ + stamp@ + "_"@ + snake@,
{
    let mut out = String::from_str("m");
    out.append(stamp);
    out.append("_");
    out.append(snake);
    out
}

/// The table a `create_<table>` migration creates: the name without `create_`.
pub open spec fn spec_migration_table(snake: Seq<char>) -> Seq<char> {
    if is_prefix("create_"@, snake) {
        snake.subrange(7, snake.len() as int)
    } else {
        snake
    }
}

/// Table of a standalone migration with `--fields` (`create_posts` → `posts`).
pub fn migration_table(snake: &str) -> (r: &str)
    ensures
        r@ == spec_migration_table(snake@),
{
    proof {
        reveal_strlit("create_");
    }
    if str_starts_with(snake, "create_") {
        snake.substring_char(7, snake.unicode_len())
    } else {
        snake
    }
}

/// The keyword of each column type in `--fields`.
pub open spec fn field_type_keyword(t: FieldType) -> Seq<char> {
    match t {
        FieldType::String => "string"@,
        FieldType::Text => "text"@,
        FieldType::Int => "int"@,
        FieldType::BigInt => "bigint"@,
        FieldType::Bool => "bool"@,
        FieldType::Uuid => "uuid"@,
        FieldType::Float => "float"@,
        FieldType::DateTime => "datetime"@,
    }
}

/// Each type keyword parses to the type it names and to no other (`bool` is
/// `Bool`, `float` is `Float`, ...); every other word is refused.
pub proof fn law_field_type_keywords(raw: Seq<char>, t: FieldType)
    ensures
        (spec_parse_field_type(raw) == Ok::<FieldType, Seq<char>>(t)) == (raw == field_type_keyword(t)),
        spec_parse_field_type(raw) is Err == (forall|u: FieldType| raw != #[trigger] field_type_keyword(u)),
{
    reveal_strlit("string");
    reveal_strlit("text");
    reveal_strlit("int");
    reveal_strlit("bigint");
    reveal_strlit("bool");
    reveal_strlit("uuid");
    reveal_strlit("float");
    reveal_strlit("datetime");
    if raw.len() > 0 {
        assert(raw[0] == raw[0] && raw[raw.len() - 1] == raw[raw.len() - 1]);
    }
    assert("string"@[0] == 's' && "string"@[5] == 'g');
    assert("text"@[0] == 't' && "text"@[3] == 't');
    assert("int"@[0] == 'i' && "int"@[2] == 't');
    assert("bigint"@[0] == 'b' && "bigint"@[5] == 't');
    assert("bool"@[0] == 'b' && "bool"@[3] == 'l');
    assert("uuid"@[0] == 'u' && "uuid"@[3] == 'd');
    assert("float"@[0] == 'f' && "float"@[4] == 't');
    assert("datetime"@[0] == 'd' && "datetime"@[7] == 'e');
    if spec_parse_field_type(raw) is Err {
        assert forall|u: FieldType| raw != #[trigger] field_type_keyword(u) by {
            match u {
                FieldType::String => {},
                FieldType::Text => {},
                FieldType::Int => {},
                FieldType::BigInt => {},
                FieldType::Bool => {},
                FieldType::Uuid => {},
                FieldType::Float => {},
                FieldType::DateTime => {},
            }
        }
    } else {
        let u = spec_parse_field_type(raw)->Ok_0;
        assert(raw == field_type_keyword(u));
    }
}

/// The entity field and the migration column of a type agree: `int` is an
/// `i32` `integer`, `bigint` an `i64` `big_integer`, `bool` a `bool`
/// `boolean`, `float` an `f64` `double`, `uuid` a `Uuid` `uuid`, `datetime` a
/// `DateTimeWithTimeZone` `timestamp_with_time_zone`, and `string` / `text` a
/// `String` `string` / `text`.
pub proof fn law_column_types_agree(t: FieldType)
    ensures
        ({
            let (rust, col): (Seq<char>, Seq<char>) = match t {
                FieldType::String => ("String"@, "string"@),
                FieldType::Text => ("String"@, "text"@),
                FieldType::Int => ("i32"@, "integer"@),
                FieldType::BigInt => ("i64"@, "big_integer"@),
                FieldType::Bool => ("bool"@, "boolean"@),
                FieldType::Uuid => ("Uuid"@, "uuid"@),
                FieldType::Float => ("f64"@, "double"@),
                FieldType::DateTime => ("DateTimeWithTimeZone"@, "timestamp_with_time_zone"@),
            };
            &&& spec_rust_type(FieldSpecView { name: "x"@, ty: t, nullable: false, unique: false }) == rust
            &&& col_base(t) == col
        }),
{
}

} // verus!
