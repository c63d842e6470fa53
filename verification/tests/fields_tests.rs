use ruvo::fields::{migration_col_helper, parse_field_type, parse_fields, pluralize, render_entity, render_migration, rust_type, FieldSpec, FieldType};

fn field(name: &str, ty: FieldType, nullable: bool, unique: bool) -> FieldSpec {
    FieldSpec { name: name.to_string(), ty, nullable, unique }
}

#[test]
fn parse_fields_modifiers() {
    let f = parse_fields(" title:string , views:int?:unique,,email:string:unique ").unwrap();
    assert_eq!(f.len(), 3);
    assert_eq!(f[0].name, "title");
    assert!(matches!(f[0].ty, FieldType::String));
    assert!(!f[0].nullable && !f[0].unique);
    assert_eq!(f[1].name, "views");
    assert!(matches!(f[1].ty, FieldType::Int));
    assert!(f[1].nullable && f[1].unique);
    assert!(f[2].unique && !f[2].nullable);
    let g = parse_fields("at:datetime:?").unwrap();
    assert!(g[0].nullable);
    assert!(matches!(g[0].ty, FieldType::DateTime));
}

#[test]
fn parse_fields_errors() {
    assert_eq!(parse_fields("").unwrap_err(), "--fields must list at least one column");
    assert_eq!(parse_fields(" , ").unwrap_err(), "--fields must list at least one column");
    assert_eq!(parse_fields("title").unwrap_err(), "bad field `title` — expected name:type[:unique]");
    assert_eq!(parse_fields("1x:int").unwrap_err(), "invalid name `1x`");
    assert_eq!(parse_fields("a:int:idx").unwrap_err(), "unknown field modifier `idx` on `a`");
    assert_eq!(
        parse_fields("a:money").unwrap_err(),
        "unknown type `money` (string|text|int|bigint|bool|uuid|float|datetime)"
    );
    // the modifier is checked before the type
    assert_eq!(parse_fields("a:money:idx").unwrap_err(), "unknown field modifier `idx` on `a`");
}

#[test]
fn parsed_names_are_identifiers() {
    for f in parse_fields("a:int,b_2:text,_c:bool").unwrap() {
        assert!(ruvo::util::validate_ident(&f.name).is_ok());
    }
}

#[test]
fn field_types() {
    assert!(matches!(parse_field_type("bigint").unwrap(), FieldType::BigInt));
    assert!(matches!(parse_field_type("uuid").unwrap(), FieldType::Uuid));
    assert!(parse_field_type("String").is_err());
    assert_eq!(rust_type(&field("a", FieldType::Text, false, false)), "String");
    assert_eq!(rust_type(&field("a", FieldType::DateTime, true, false)), "Option<DateTimeWithTimeZone>");
    assert_eq!(rust_type(&field("a", FieldType::Float, false, false)), "f64");
}

#[test]
fn migration_helpers() {
    assert_eq!(migration_col_helper(&field("email", FieldType::String, true, true)), "string_uniq(\"email\")");
    assert_eq!(migration_col_helper(&field("n", FieldType::BigInt, true, false)), "big_integer_null(\"n\")");
    assert_eq!(migration_col_helper(&field("at", FieldType::DateTime, false, false)), "timestamp_with_time_zone(\"at\")");
}

#[test]
fn entity_source() {
    let src = render_entity("post", &[field("title", FieldType::String, false, true), field("n", FieldType::Int, true, false)]);
    assert!(src.starts_with("use sea_orm::entity::prelude::*;\n"));
    assert!(src.contains("#[sea_orm(table_name = \"post\")]\n"));
    assert!(src.contains("    pub id: i32,\n    #[sea_orm(unique)]\n    pub title: String,\n    pub n: Option<i32>,\n}\n"));
    assert!(src.ends_with("impl ActiveModelBehavior for ActiveModel {}\n"));
}

#[test]
fn migration_source() {
    let src = render_migration("post", &[field("title", FieldType::String, false, false)]);
    assert!(src.contains("                    .table(\"post\")\n                    .if_not_exists()\n                    .col(pk_auto(\"id\"))\n                    .col(string(\"title\"))\n                    .to_owned(),\n"));
    assert!(src.contains("            .drop_table(Table::drop().table(\"post\").to_owned())\n"));
    assert!(src.ends_with("            .await\n    }\n}\n"));
}

#[test]
fn plural_forms() {
    assert_eq!(pluralize("post"), "posts");
    assert_eq!(pluralize("news"), "news");
    assert_eq!(pluralize(""), "s");
    assert_eq!(pluralize(&pluralize("user")), "users");
}
