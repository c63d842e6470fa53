//! Edits that the generators make to existing project files: module lists,
//! the migration registry, the module registry and `src/main.rs`. Each takes the
//! current text and returns the new text; reading and writing stay with the caller.

use vstd::prelude::*;
use vstd::string::*;
use crate::text::{
    contains, contains_seq, ends_with_char, find_seq, find_str, insert_seq, insert_str_at,
    is_ascii_alnum, lemma_find_from_found, lemma_occurs_at_end, lemma_occurs_at_start,
    lemma_occurs_contains, lemma_occurs_insert, occurs_at, str_ends_with_char,
};
use crate::util::ident_ok;

verus! {

/// `pub mod name;`
pub open spec fn pub_mod_decl(name: Seq<char>) -> Seq<char> {
    "pub mod "@ + name + ";"@
}

/// The contents of an optional borrowed text.
pub open spec fn opt_text(t: Option<&str>) -> Option<Seq<char>> {
    match t {
        Some(s) => Some(s@),
        None => None,
    }
}

/// What `pub_mod_source` returns.
pub open spec fn spec_pub_mod_source(existing: Option<Seq<char>>, path: Seq<char>, name: Seq<char>) -> Result<Seq<char>, Seq<char>> {
    let line = pub_mod_decl(name) + "\n"@;
    match existing {
        None => Ok(line),
        Some(t) => if contains_seq(t, pub_mod_decl(name)) {
            Err("`"@ + name + "` already in "@ + path)
        } else if t.len() > 0 && !ends_with_char(t, '\n') {
            Ok(t.push('\n') + line)
        } else {
            Ok(t + line)
        },
    }
}

/// New contents of the module list at `path` after adding `pub mod name;`
/// (`existing` is the current file, if there is one).
pub fn pub_mod_source(existing: Option<&str>, path: &str, name: &str) -> (r: Result<String, String>)
    ensures
        match r {
            Ok(s) => spec_pub_mod_source(opt_text(existing), path@, name@) == Ok::<Seq<char>, Seq<char>>(s@),
            Err(e) => spec_pub_mod_source(opt_text(existing), path@, name@) == Err::<Seq<char>, Seq<char>>(e@),
        },
{
    let mut decl = String::from_str("pub mod ");
    decl.append(name);
    decl.append(";");
    assert(decl@ == pub_mod_decl(name@));
    match existing {
        None => {
            decl.append("\n");
            Ok(decl)
        },
        Some(t) => {
            if contains(t, decl.as_str()) {
                let mut e = String::from_str("`");
                e.append(name);
                e.append("` already in ");
                e.append(path);
                return Err(e);
            }
            let mut next = String::from_str(t);
            let ghost body = if t@.len() > 0 && !ends_with_char(t@, '\n') { t@.push('\n') } else { t@ };
            if t.unicode_len() > 0 && !str_ends_with_char(t, '\n') {
                next.append("\n");
                proof {
                    reveal_strlit("\n");
                }
                assert(next@ =~= t@.push('\n'));
            }
            next.append(decl.as_str());
            next.append("\n");
            assert(next@ =~= body + (pub_mod_decl(name@) + "\n"@));
            Ok(next)
        },
    }
}

/// The re-export line that heads the migration registry.
pub const MIGRATION_PRELUDE: &'static str = "pub use sea_orm_migration::prelude::*;";

/// Migration registry from after its first `mod` line to the first `Box::new` entry.
pub const MIGRATOR_OPEN: &'static str = r#"

pub struct Migrator;

#[async_trait::async_trait]
impl MigratorTrait for Migrator {
    fn migrations() -> Vec<Box<dyn MigrationTrait>> {
        vec![
"#;

/// Migration registry after its last `Box::new` entry.
pub const MIGRATOR_CLOSE: &'static str = r#"
        ]
    }
}
"#;

/// `mod m;`
pub open spec fn mod_decl(m: Seq<char>) -> Seq<char> {
    "mod "@ + m + ";"@
}

/// The registry entry of migration `m`.
pub open spec fn box_line(m: Seq<char>) -> Seq<char> {
    "            Box::new("@ + m + "::Migration),"@
}

/// The text just after `at + len` is one character of one byte, so a byte
/// offset one past it falls on a character boundary.
pub open spec fn ascii_at(t: Seq<char>, i: int) -> bool {
    0 <= i < t.len() && (t[i] as u32) < 128
}

/// The registry text with `mod m;` declared: after the prelude line when there
/// is one, else at the top.
pub open spec fn with_migration_mod(t: Seq<char>, m: Seq<char>) -> Seq<char> {
    match find_seq(t, MIGRATION_PRELUDE@) {
        Some(i) => insert_seq(t, i + 39, "\n"@ + mod_decl(m) + "\n"@),
        None => insert_seq(t, 0, mod_decl(m) + "\n"@),
    }
}

/// The registry text with migration `m` listed: first in `vec![..]` when there is
/// one, else in a `Migrator` appended at the end.
pub open spec fn with_migration_box(t: Seq<char>, m: Seq<char>) -> Seq<char> {
    match find_seq(t, "vec!["@) {
        Some(j) => insert_seq(t, j + 5, "\n"@ + box_line(m)),
        None => t + "\n"@ + MIGRATION_PRELUDE@ + MIGRATOR_OPEN@ + box_line(m) + MIGRATOR_CLOSE@,
    }
}

/// Where inserting after the prelude line needs a one-byte character after it.
pub open spec fn migration_registry_inputs_ok(existing: Option<Seq<char>>, m: Seq<char>) -> bool {
    match existing {
        Some(t) => !contains_seq(t, mod_decl(m)) ==> match find_seq(t, MIGRATION_PRELUDE@) {
            Some(i) => ascii_at(t, i + 38),
            None => true,
        },
        None => true,
    }
}

/// What `migration_registry_source` returns.
pub open spec fn spec_migration_registry_source(existing: Option<Seq<char>>, m: Seq<char>) -> Result<Seq<char>, Seq<char>> {
    match existing {
        None => Ok(MIGRATION_PRELUDE@ + "\n\n"@ + mod_decl(m) + MIGRATOR_OPEN@ + box_line(m) + MIGRATOR_CLOSE@),
        Some(t) => if contains_seq(t, mod_decl(m)) {
            Err("migration `"@ + m + "` already registered"@)
        } else {
            Ok(with_migration_box(with_migration_mod(t, m), m))
        },
    }
}

/// New contents of `src/migrations/mod.rs` after registering migration module `mig_mod`.
pub fn migration_registry_source(existing: Option<&str>, mig_mod: &str) -> (r: Result<String, String>)
    requires
        migration_registry_inputs_ok(opt_text(existing), mig_mod@),
    ensures
        match r {
            Ok(s) => spec_migration_registry_source(opt_text(existing), mig_mod@) == Ok::<Seq<char>, Seq<char>>(s@),
            Err(e) => spec_migration_registry_source(opt_text(existing), mig_mod@) == Err::<Seq<char>, Seq<char>>(e@),
        },
{
    let mut decl = String::from_str("mod ");
    decl.append(mig_mod);
    decl.append(";");
    let mut entry = String::from_str("            Box::new(");
    entry.append(mig_mod);
    entry.append("::Migration),");
    let t = match existing {
        None => {
            let mut out = String::from_str(MIGRATION_PRELUDE);
            out.append("\n\n");
            out.append(decl.as_str());
            out.append(MIGRATOR_OPEN);
            out.append(entry.as_str());
            out.append(MIGRATOR_CLOSE);
            return Ok(out);
        },
        Some(t) => t,
    };
    let tn = t.unicode_len();
    if contains(t, decl.as_str()) {
        let mut e = String::from_str("migration `");
        e.append(mig_mod);
        e.append("` already registered");
        return Err(e);
    }
    let step1 = match find_str(t, MIGRATION_PRELUDE) {
        Some(i) => {
            proof {
                reveal_strlit("pub use sea_orm_migration::prelude::*;");
                crate::text::lemma_find_from_found(t@, MIGRATION_PRELUDE@, 0);
                assert(ascii_at(t@, i + 38));
            }
            let mut ins = String::from_str("\n");
            ins.append(decl.as_str());
            ins.append("\n");
            insert_str_at(t, i + 39, ins.as_str())
        },
        None => {
            let mut ins = String::from_str(decl.as_str());
            ins.append("\n");
            insert_str_at(t, 0, ins.as_str())
        },
    };
    let sn = step1.as_str().unicode_len();
    let step2 = match find_str(step1.as_str(), "vec![") {
        Some(j) => {
            proof {
                crate::text::lemma_find_from_found(step1@, "vec!["@, 0);
                reveal_strlit("vec![");
            }
            let mut ins = String::from_str("\n");
            ins.append(entry.as_str());
            insert_str_at(step1.as_str(), j + 5, ins.as_str())
        },
        None => {
            let mut out = step1;
            out.append("\n");
            out.append(MIGRATION_PRELUDE);
            out.append(MIGRATOR_OPEN);
            out.append(entry.as_str());
            out.append(MIGRATOR_CLOSE);
            out
        },
    };
    Ok(step2)
}

/// The module registry written when `src/modules/mod.rs` does not exist yet,
/// for the framework crate `krate` (`ruvo` / `sova`).
pub open spec fn modules_stub(krate: Seq<char>) -> Seq<char> {
    "use "@ + krate + "::App;\n\npub fn register(_app: &mut App) {}\n"@
}

/// The empty module registry for the framework crate `krate`.
pub fn modules_stub_source(krate: &str) -> (r: String)
    ensures
        r@ == modules_stub(krate@),
{
    let mut out = String::from_str("use ");
    out.append(krate);
    out.append("::App;\n\npub fn register(_app: &mut App) {}\n");
    out
}

/// The header of a `register` function that already mounts modules.
pub const REGISTER_FN: &'static str = "pub fn register(app: &mut App) {";

/// The header of the empty stub `register` function.
pub const REGISTER_STUB: &'static str = "pub fn register(_app: &mut App) {";

/// `    name::register(app);`
pub open spec fn mount_line(name: Seq<char>) -> Seq<char> {
    "    "@ + name + "::register(app);"@
}

/// The registry text the edit starts from.
pub open spec fn registry_base(existing: Option<Seq<char>>, krate: Seq<char>) -> Seq<char> {
    match existing {
        Some(t) => t,
        None => modules_stub(krate),
    }
}

/// The registry with `pub mod name;` prepended.
pub open spec fn registry_declared(existing: Option<Seq<char>>, name: Seq<char>, krate: Seq<char>) -> Seq<char> {
    pub_mod_decl(name) + "\n"@ + registry_base(existing, krate)
}

/// The mount of `name` added to `register`: after the header of a working
/// `register`, in place of the empty stub, or in a new `register` at the end.
pub open spec fn with_mount(next: Seq<char>, name: Seq<char>, krate: Seq<char>) -> Seq<char> {
    match find_seq(next, REGISTER_FN@) {
        Some(i) => insert_seq(next, i + 33, mount_line(name) + "\n"@),
        None => match find_seq(next, REGISTER_STUB@) {
            Some(i) => next.subrange(0, i) + REGISTER_FN@ + "\n"@ + mount_line(name) + "\n}"@
                + next.subrange(i + 34, next.len() as int),
            None => next + "\nuse "@ + krate + "::App;\n\npub fn register(app: &mut App) {\n"@ + mount_line(name)
                + "\n"@ + "}\n"@,
        },
    }
}

/// The character after a found `register` header is one byte wide.
pub open spec fn module_registry_inputs_ok(existing: Option<Seq<char>>, name: Seq<char>, krate: Seq<char>) -> bool {
    let next = registry_declared(existing, name, krate);
    !contains_seq(registry_base(existing, krate), pub_mod_decl(name)) ==> match find_seq(next, REGISTER_FN@) {
        Some(i) => ascii_at(next, i + 32),
        None => match find_seq(next, REGISTER_STUB@) {
            Some(i) => ascii_at(next, i + 33),
            None => true,
        },
    }
}

/// What `module_registry_source` returns.
pub open spec fn spec_module_registry_source(existing: Option<Seq<char>>, name: Seq<char>, krate: Seq<char>) -> Result<Seq<char>, Seq<char>> {
    if contains_seq(registry_base(existing, krate), pub_mod_decl(name)) {
        Err("module `"@ + name + "` is already registered in src/modules/mod.rs"@)
    } else {
        Ok(with_mount(registry_declared(existing, name, krate), name, krate))
    }
}

/// New contents of `src/modules/mod.rs` after registering module `name`
/// (`existing` is the current file; without one the empty stub of framework
/// crate `krate` is the start).
pub fn module_registry_source(existing: Option<&str>, name: &str, krate: &str) -> (r: Result<String, String>)
    requires
        module_registry_inputs_ok(opt_text(existing), name@, krate@),
    ensures
        match r {
            Ok(s) => spec_module_registry_source(opt_text(existing), name@, krate@) == Ok::<Seq<char>, Seq<char>>(s@),
            Err(e) => spec_module_registry_source(opt_text(existing), name@, krate@) == Err::<Seq<char>, Seq<char>>(e@),
        },
{
    let stub = modules_stub_source(krate);
    let base: &str = match existing {
        Some(t) => t,
        None => stub.as_str(),
    };
    let mut decl = String::from_str("pub mod ");
    decl.append(name);
    decl.append(";");
    if contains(base, decl.as_str()) {
        let mut e = String::from_str("module `");
        e.append(name);
        e.append("` is already registered in src/modules/mod.rs");
        return Err(e);
    }
    let mut mount = String::from_str("    ");
    mount.append(name);
    mount.append("::register(app);");
    let mut next = decl;
    next.append("\n");
    next.append(base);
    let nn = next.as_str().unicode_len();
    let ghost nv = next@;
    match find_str(next.as_str(), REGISTER_FN) {
        Some(i) => {
            proof {
                reveal_strlit("pub fn register(app: &mut App) {");
                crate::text::lemma_find_from_found(nv, REGISTER_FN@, 0);
            }
            let mut ins = mount;
            ins.append("\n");
            return Ok(insert_str_at(next.as_str(), i + 33, ins.as_str()));
        },
        None => {},
    }
    match find_str(next.as_str(), REGISTER_STUB) {
        Some(i) => {
            proof {
                reveal_strlit("pub fn register(_app: &mut App) {");
                crate::text::lemma_find_from_found(nv, REGISTER_STUB@, 0);
            }
            let mut out = String::from_str(next.as_str().substring_char(0, i));
            out.append(REGISTER_FN);
            out.append("\n");
            out.append(mount.as_str());
            out.append("\n}");
            out.append(next.as_str().substring_char(i + 34, nn));
            Ok(out)
        },
        None => {
            let mut out = next;
            out.append("\nuse ");
            out.append(krate);
            out.append("::App;\n\npub fn register(app: &mut App) {\n");
            out.append(mount.as_str());
            out.append("\n");
            out.append("}\n");
            Ok(out)
        },
    }
}

/// `src/main.rs` with `mod name;` declared: before `mod modules;`, else before
/// `#[tokio::main]`, else at the top; unchanged when already declared.
pub open spec fn spec_mod_in_main(src: Seq<char>, name: Seq<char>) -> Seq<char> {
    let line = mod_decl(name);
    if contains_seq(src, line) {
        src
    } else {
        match find_seq(src, "mod modules;"@) {
            Some(i) => insert_seq(src, i, line + "\n"@),
            None => match find_seq(src, "#[tokio::main]"@) {
                Some(i) => insert_seq(src, i, line + "\n\n"@),
                None => insert_seq(src, 0, line + "\n"@),
            },
        }
    }
}

/// Declare `mod name;` in the text of `src/main.rs`.
pub fn mod_in_main(src: &str, name: &str) -> (r: String)
    ensures
        r@ == spec_mod_in_main(src@, name@),
{
    let mut line = String::from_str("mod ");
    line.append(name);
    line.append(";");
    if contains(src, line.as_str()) {
        return String::from_str(src);
    }
    match find_str(src, "mod modules;") {
        Some(i) => {
            proof {
                crate::text::lemma_find_from_found(src@, "mod modules;"@, 0);
            }
            line.append("\n");
            insert_str_at(src, i, line.as_str())
        },
        None => match find_str(src, "#[tokio::main]") {
            Some(i) => {
                proof {
                    crate::text::lemma_find_from_found(src@, "#[tokio::main]"@, 0);
                }
                line.append("\n\n");
                insert_str_at(src, i, line.as_str())
            },
            None => {
                line.append("\n");
                insert_str_at(src, 0, line.as_str())
            },
        },
    }
}

/// `mod entities;` and `mod migrations;` declared, or `None` when there is no
/// place to put them.
pub open spec fn db_mods_stage(src: Seq<char>) -> Option<Seq<char>> {
    if contains_seq(src, "mod entities"@) {
        Some(src)
    } else {
        match find_seq(src, "mod modules;"@) {
            Some(i) => Some(insert_seq(src, i, "mod entities;\nmod migrations;\n"@)),
            None => match find_seq(src, "#[tokio::main]"@) {
                Some(i) => Some(insert_seq(src, i, "mod entities;\nmod migrations;\n\n"@)),
                None => None,
            },
        }
    }
}

/// `Db` imported from `sova` unless it is already in use: added to a
/// `use sova::{..};` group, after the prelude import, or at the top.
pub open spec fn db_use_stage(s: Seq<char>) -> Seq<char> {
    if contains_seq(s, "use sova::Db"@) || contains_seq(s, "Db::from_env"@) {
        s
    } else {
        match find_seq(s, "use sova::{"@) {
            Some(start) => match find_seq(s.subrange(start, s.len() as int), "};"@) {
                Some(rel) => {
                    let end = start + rel;
                    if contains_seq(s.subrange(start, end + 2), "Db"@) {
                        s
                    } else {
                        insert_seq(s, end, ", Db"@)
                    }
                },
                None => s,
            },
            None => match find_seq(s, "use sova::prelude::*;"@) {
                Some(i) => insert_seq(s, i + 22, "use sova::Db;\n"@),
                None => insert_seq(s, 0, "use sova::Db;\n"@),
            },
        }
    }
}

/// The statement that installs the database with its migrations.
pub const DB_INSTALL: &'static str = "app.install(Db::from_env().migrations::<migrations::Migrator>());\n    ";

/// The database installed before `modules::register`, else before `app.run()`,
/// unless `Db::from_env()` is already called; `None` when there is no place for it.
pub open spec fn db_install_stage(s: Seq<char>) -> Option<Seq<char>> {
    if contains_seq(s, "Db::from_env()"@) {
        Some(s)
    } else {
        match find_seq(s, "modules::register"@) {
            Some(i) => Some(insert_seq(s, i, DB_INSTALL@)),
            None => match find_seq(s, "app.run()"@) {
                Some(i) => Some(insert_seq(s, i, DB_INSTALL@)),
                None => None,
            },
        }
    }
}

/// Where the `Db` import goes after the prelude import, the character after
/// that import is one byte wide.
pub open spec fn db_in_main_inputs_ok(src: Seq<char>) -> bool {
    match db_mods_stage(src) {
        Some(s) => (!contains_seq(s, "use sova::Db"@) && !contains_seq(s, "Db::from_env"@)
            && find_seq(s, "use sova::{"@) is None) ==> match find_seq(s, "use sova::prelude::*;"@) {
            Some(i) => ascii_at(s, i + 21),
            None => true,
        },
        None => true,
    }
}

/// What `db_in_main` returns.
pub open spec fn spec_db_in_main(src: Seq<char>) -> Result<Seq<char>, Seq<char>> {
    match db_mods_stage(src) {
        None => Err("could not find insertion point for mod entities in src/main.rs"@),
        Some(s1) => match db_install_stage(db_use_stage(s1)) {
            None => Err("could not find place to install Db in src/main.rs"@),
            Some(s3) => Ok(s3),
        },
    }
}

/// Declare the module stage of `db_in_main`.
fn db_mods(src: &str) -> (r: Option<String>)
    ensures
        match r {
            Some(s) => db_mods_stage(src@) == Some(s@),
            None => db_mods_stage(src@) is None,
        },
{
    if contains(src, "mod entities") {
        return Some(String::from_str(src));
    }
    match find_str(src, "mod modules;") {
        Some(i) => {
            proof {
                crate::text::lemma_find_from_found(src@, "mod modules;"@, 0);
            }
            Some(insert_str_at(src, i, "mod entities;\nmod migrations;\n"))
        },
        None => match find_str(src, "#[tokio::main]") {
            Some(i) => {
                proof {
                    crate::text::lemma_find_from_found(src@, "#[tokio::main]"@, 0);
                }
                Some(insert_str_at(src, i, "mod entities;\nmod migrations;\n\n"))
            },
            None => None,
        },
    }
}

/// The import stage of `db_in_main`.
fn db_use(s: &str) -> (r: String)
    requires
        (!contains_seq(s@, "use sova::Db"@) && !contains_seq(s@, "Db::from_env"@) && find_seq(s@, "use sova::{"@) is None)
            ==> match find_seq(s@, "use sova::prelude::*;"@) {
            Some(i) => ascii_at(s@, i + 21),
            None => true,
        },
    ensures
        r@ == db_use_stage(s@),
{
    if contains(s, "use sova::Db") || contains(s, "Db::from_env") {
        return String::from_str(s);
    }
    let n = s.unicode_len();
    match find_str(s, "use sova::{") {
        Some(start) => {
            proof {
                crate::text::lemma_find_from_found(s@, "use sova::{"@, 0);
            }
            let rest = s.substring_char(start, n);
            match find_str(rest, "};") {
                Some(rel) => {
                    proof {
                        reveal_strlit("};");
                        crate::text::lemma_find_from_found(rest@, "};"@, 0);
                    }
                    let end = start + rel;
                    let block = s.substring_char(start, end + 2);
                    if contains(block, "Db") {
                        String::from_str(s)
                    } else {
                        insert_str_at(s, end, ", Db")
                    }
                },
                None => String::from_str(s),
            }
        },
        None => match find_str(s, "use sova::prelude::*;") {
            Some(i) => {
                proof {
                    reveal_strlit("use sova::prelude::*;");
                    crate::text::lemma_find_from_found(s@, "use sova::prelude::*;"@, 0);
                }
                insert_str_at(s, i + 22, "use sova::Db;\n")
            },
            None => insert_str_at(s, 0, "use sova::Db;\n"),
        },
    }
}

/// The install stage of `db_in_main`.
fn db_install(s: &str) -> (r: Option<String>)
    ensures
        match r {
            Some(t) => db_install_stage(s@) == Some(t@),
            None => db_install_stage(s@) is None,
        },
{
    if contains(s, "Db::from_env()") {
        return Some(String::from_str(s));
    }
    match find_str(s, "modules::register") {
        Some(i) => {
            proof {
                crate::text::lemma_find_from_found(s@, "modules::register"@, 0);
            }
            Some(insert_str_at(s, i, DB_INSTALL))
        },
        None => match find_str(s, "app.run()") {
            Some(i) => {
                proof {
                    crate::text::lemma_find_from_found(s@, "app.run()"@, 0);
                }
                Some(insert_str_at(s, i, DB_INSTALL))
            },
            None => None,
        },
    }
}

/// Wire `mod entities` / `mod migrations` and the database install into the
/// text of `src/main.rs`.
pub fn db_in_main(src: &str) -> (r: Result<String, String>)
    requires
        db_in_main_inputs_ok(src@),
    ensures
        match r {
            Ok(s) => spec_db_in_main(src@) == Ok::<Seq<char>, Seq<char>>(s@),
            Err(e) => spec_db_in_main(src@) == Err::<Seq<char>, Seq<char>>(e@),
        },
{
    let s1 = match db_mods(src) {
        Some(s) => s,
        None => {
            return Err(String::from_str("could not find insertion point for mod entities in src/main.rs"));
        },
    };
    let s2 = db_use(s1.as_str());
    match db_install(s2.as_str()) {
        Some(s3) => Ok(s3),
        None => Err(String::from_str("could not find place to install Db in src/main.rs")),
    }
}

/// The migrations chain that a seed runner is attached to.
pub const DB_CHAIN: &'static str = "Db::from_env().migrations::<migrations::Migrator>()";

/// The outcome of wiring seeds into `src/main.rs`.
#[derive(Debug)]
pub enum SeedWiring {
    /// `.seed(` or `seeds::run` is already there: nothing to write.
    AlreadyWired,
    /// The new text, with `.seed(crate::seeds::run)` after the migrations chain.
    Wired(String),
    /// There is no migrations chain to attach the seed runner to.
    MissingDbChain,
}

/// Whether `src/main.rs` already runs seeds.
pub open spec fn seeds_wired(src: Seq<char>) -> bool {
    contains_seq(src, ".seed("@) || contains_seq(src, "seeds::run"@)
}

/// Attach `.seed(crate::seeds::run)` to the migrations chain in the text of `src/main.rs`.
pub fn seed_in_main(src: &str) -> (r: SeedWiring)
    ensures
        match r {
            SeedWiring::AlreadyWired => seeds_wired(src@),
            SeedWiring::Wired(s) => !seeds_wired(src@) && find_seq(src@, DB_CHAIN@) is Some
                && s@ == insert_seq(src@, find_seq(src@, DB_CHAIN@)->0 + 51, ".seed(crate::seeds::run)"@),
            SeedWiring::MissingDbChain => !seeds_wired(src@) && find_seq(src@, DB_CHAIN@) is None,
        },
{
    if contains(src, ".seed(") || contains(src, "seeds::run") {
        return SeedWiring::AlreadyWired;
    }
    let n = src.unicode_len();
    match find_str(src, DB_CHAIN) {
        Some(i) => {
            proof {
                reveal_strlit("Db::from_env().migrations::<migrations::Migrator>()");
                crate::text::lemma_find_from_found(src@, DB_CHAIN@, 0);
            }
            assert(i + 51 <= n);
            SeedWiring::Wired(insert_str_at(src, i + 51, ".seed(crate::seeds::run)"))
        },
        None => SeedWiring::MissingDbChain,
    }
}

/// Whether `Cargo.toml` is a workspace root without a package of its own.
pub open spec fn is_bare_workspace(cargo_toml: Seq<char>) -> bool {
    contains_seq(cargo_toml, "[workspace]"@) && !contains_seq(cargo_toml, "[package]"@)
}

/// Refuse to generate into a workspace root: an error exactly when the
/// manifest text declares `[workspace]` and no `[package]`.
pub fn refuse_workspace_root(cargo_toml: &str) -> (r: Result<(), String>)
    ensures
        r is Err <==> is_bare_workspace(cargo_toml@),
        match r {
            Err(e) => e@ == "refusing to generate in a Cargo workspace root — cd into an app package first"@,
            Ok(_) => true,
        },
{
    if contains(cargo_toml, "[workspace]") && !contains(cargo_toml, "[package]") {
        return Err(String::from_str("refusing to generate in a Cargo workspace root — cd into an app package first"));
    }
    Ok(())
}

/// An occurrence stays when text is appended.
proof fn lemma_occurs_append(h: Seq<char>, n: Seq<char>, k: int, y: Seq<char>)
    requires
        occurs_at(h, n, k),
    ensures
        occurs_at(h + y, n, k),
{
    assert((h + y).subrange(k, k + n.len()) =~= h.subrange(k, k + n.len()));
}

/// Adding a module to a list twice is refused the second time.
pub proof fn law_pub_mod_added_twice_refused(existing: Option<Seq<char>>, path: Seq<char>, name: Seq<char>)
    requires
        spec_pub_mod_source(existing, path, name) is Ok,
    ensures
        spec_pub_mod_source(Some(spec_pub_mod_source(existing, path, name)->Ok_0), path, name) is Err,
{
    let s = spec_pub_mod_source(existing, path, name)->Ok_0;
    let decl = pub_mod_decl(name);
    let pre = match existing {
        None => Seq::<char>::empty(),
        Some(t) => if t.len() > 0 && !ends_with_char(t, '\n') {
            t.push('\n')
        } else {
            t
        },
    };
    assert(s =~= pre + decl + "\n"@);
    lemma_occurs_at_end(pre, decl);
    lemma_occurs_append(pre + decl, decl, pre.len() as int, "\n"@);
    lemma_occurs_contains(s, decl, pre.len() as int);
}

/// The characters of an identifier are letters, digits and `_`.
proof fn lemma_ident_chars(m: Seq<char>, q: int)
    requires
        ident_ok(m),
        0 <= q < m.len(),
    ensures
        is_ascii_alnum(m[q]) || m[q] == '_',
{
    if q == 0 {
        assert(crate::text::is_ascii_alpha(m[0]) || m[0] == '_');
    }
}

/// Registering a migration twice is refused the second time (for an
/// identifier, which is what the generators pass).
pub proof fn law_migration_registered_twice_refused(existing: Option<Seq<char>>, m: Seq<char>)
    requires
        ident_ok(m),
        migration_registry_inputs_ok(existing, m),
        spec_migration_registry_source(existing, m) is Ok,
    ensures
        spec_migration_registry_source(Some(spec_migration_registry_source(existing, m)->Ok_0), m) is Err,
{
    reveal_strlit("mod ");
    reveal_strlit(";");
    reveal_strlit("\n");
    reveal_strlit("vec![");
    reveal_strlit("\n\n");
    reveal_strlit("pub use sea_orm_migration::prelude::*;");
    let decl = mod_decl(m);
    let s = spec_migration_registry_source(existing, m)->Ok_0;
    assert forall|q: int| 0 <= q < decl.len() implies decl[q] != '[' by {
        if 4 <= q < 4 + m.len() {
            assert(decl[q] == m[q - 4]);
            lemma_ident_chars(m, q - 4);
        }
    }
    match existing {
        None => {
            let a = MIGRATION_PRELUDE@ + "\n\n"@;
            let rest = MIGRATOR_OPEN@ + box_line(m) + MIGRATOR_CLOSE@;
            assert(s =~= a + decl + rest);
            lemma_occurs_at_end(a, decl);
            lemma_occurs_append(a + decl, decl, a.len() as int, rest);
            lemma_occurs_contains(s, decl, a.len() as int);
        },
        Some(t) => {
            let step1 = with_migration_mod(t, m);
            let k: int = match find_seq(t, MIGRATION_PRELUDE@) {
                Some(i) => {
                    lemma_find_from_found(t, MIGRATION_PRELUDE@, 0);
                    let ins = "\n"@ + decl + "\n"@;
                    let h = t.subrange(0, i + 39);
                    assert(step1 =~= (h + "\n"@ + decl) + ("\n"@ + t.subrange(i + 39, t.len() as int)));
                    lemma_occurs_at_end(h + "\n"@, decl);
                    lemma_occurs_append(h + "\n"@ + decl, decl, i + 40, "\n"@ + t.subrange(i + 39, t.len() as int));
                    i + 40
                },
                None => {
                    assert(step1 =~= decl + ("\n"@ + t));
                    lemma_occurs_at_start(decl, "\n"@ + t);
                    0
                },
            };
            assert(occurs_at(step1, decl, k));
            match find_seq(step1, "vec!["@) {
                Some(j) => {
                    lemma_find_from_found(step1, "vec!["@, 0);
                    assert(step1.subrange(j, j + 5)[4] == '[');
                    if k < j + 5 && j + 5 < k + decl.len() {
                        assert(step1.subrange(k, k + decl.len())[j + 4 - k] == step1[j + 4]);
                        assert(false);
                    }
                    lemma_occurs_insert(step1, decl, k, j + 5, "\n"@ + box_line(m));
                    let k2 = if j + 5 <= k { k + ("\n"@ + box_line(m)).len() } else { k };
                    lemma_occurs_contains(s, decl, k2);
                },
                None => {
                    let rest = "\n"@ + MIGRATION_PRELUDE@ + MIGRATOR_OPEN@ + box_line(m) + MIGRATOR_CLOSE@;
                    assert(s =~= step1 + rest);
                    lemma_occurs_append(step1, decl, k, rest);
                    lemma_occurs_contains(s, decl, k);
                },
            }
        },
    }
}

/// Declaring a module in `src/main.rs` twice changes nothing the second time.
pub proof fn law_mod_in_main_idempotent(src: Seq<char>, name: Seq<char>)
    ensures
        spec_mod_in_main(spec_mod_in_main(src, name), name) == spec_mod_in_main(src, name),
{
    reveal_strlit("\n");
    reveal_strlit("\n\n");
    let line = mod_decl(name);
    let r = spec_mod_in_main(src, name);
    if !contains_seq(src, line) {
        let (i, tail) = match find_seq(src, "mod modules;"@) {
            Some(i) => {
                lemma_find_from_found(src, "mod modules;"@, 0);
                (i, "\n"@)
            },
            None => match find_seq(src, "#[tokio::main]"@) {
                Some(i) => {
                    lemma_find_from_found(src, "#[tokio::main]"@, 0);
                    (i, "\n\n"@)
                },
                None => (0, "\n"@),
            },
        };
        assert(r == insert_seq(src, i, line + tail));
        let h = src.subrange(0, i);
        assert(r =~= (h + line) + (tail + src.subrange(i, src.len() as int)));
        lemma_occurs_at_end(h, line);
        lemma_occurs_append(h + line, line, i, tail + src.subrange(i, src.len() as int));
        lemma_occurs_contains(r, line, i);
    }
}

/// Registering a module twice is refused the second time (for an identifier,
/// which is what the generators pass).
pub proof fn law_module_registered_twice_refused(existing: Option<Seq<char>>, name: Seq<char>, krate: Seq<char>)
    requires
        ident_ok(name),
        module_registry_inputs_ok(existing, name, krate),
        spec_module_registry_source(existing, name, krate) is Ok,
    ensures
        spec_module_registry_source(Some(spec_module_registry_source(existing, name, krate)->Ok_0), name, krate) is Err,
{
    reveal_strlit("pub mod ");
    reveal_strlit(";");
    reveal_strlit("\n");
    reveal_strlit("pub fn register(app: &mut App) {");
    reveal_strlit("pub fn register(_app: &mut App) {");
    let decl = pub_mod_decl(name);
    let next = registry_declared(existing, name, krate);
    let s = spec_module_registry_source(existing, name, krate)->Ok_0;
    assert(s == with_mount(next, name, krate));
    assert(next =~= decl + ("\n"@ + registry_base(existing, krate)));
    lemma_occurs_at_start(decl, "\n"@ + registry_base(existing, krate));
    assert forall|q: int| 0 <= q < decl.len() implies decl[q] != '{' && decl[q] != '(' by {
        if 8 <= q < 8 + name.len() {
            assert(decl[q] == name[q - 8]);
            lemma_ident_chars(name, q - 8);
        }
    }
    assert(decl[decl.len() - 1] == ';');
    match find_seq(next, REGISTER_FN@) {
        Some(i) => {
            lemma_find_from_found(next, REGISTER_FN@, 0);
            assert(next.subrange(i, i + 32)[31] == '{');
            if i + 31 < decl.len() {
                assert(next.subrange(0, decl.len() as int)[i + 31] == next[i + 31]);
                assert(false);
            }
            lemma_occurs_insert(next, decl, 0, i + 33, mount_line(name) + "\n"@);
            lemma_occurs_contains(s, decl, 0);
        },
        None => match find_seq(next, REGISTER_STUB@) {
            Some(i) => {
                lemma_find_from_found(next, REGISTER_STUB@, 0);
                let stub = next.subrange(i, i + 33);
                assert(stub[15] == '(');
                if i < decl.len() {
                    if i + 15 < decl.len() {
                        assert(next.subrange(0, decl.len() as int)[i + 15] == next[i + 15]);
                        assert(false);
                    } else {
                        let q = decl.len() - 1;
                        assert(next.subrange(0, decl.len() as int)[q] == next[q]);
                        assert(stub[q - i] == next[q]);
                        assert(false);
                    }
                }
                let tail = REGISTER_FN@ + "\n"@ + mount_line(name) + "\n}"@ + next.subrange(i + 34, next.len() as int);
                assert(next.subrange(0, i).subrange(0, decl.len() as int) =~= next.subrange(0, decl.len() as int));
                assert(occurs_at(next.subrange(0, i), decl, 0));
                assert(s =~= next.subrange(0, i) + tail);
                lemma_occurs_append(next.subrange(0, i), decl, 0, tail);
                lemma_occurs_contains(s, decl, 0);
            },
            None => {
                let tail = "\nuse "@ + krate + "::App;\n\npub fn register(app: &mut App) {\n"@ + mount_line(name) + "\n"@
                    + "}\n"@;
                assert(s =~= next + tail);
                lemma_occurs_append(next, decl, 0, tail);
                lemma_occurs_contains(s, decl, 0);
            },
        },
    }
}

/// Whether position `i` of `t` holds a one-byte character.
fn ascii_char_at(t: &str, i: usize) -> (r: bool)
    ensures
        r == ascii_at(t@, i as int),
{
    i < t.unicode_len() && (t.get_char(i) as u32) < 128
}

/// Whether `migration_registry_source` can edit this registry (the text after
/// the prelude line is where a byte offset lands).
pub fn migration_registry_fits(existing: Option<&str>, mig_mod: &str) -> (r: bool)
    ensures
        r == migration_registry_inputs_ok(opt_text(existing), mig_mod@),
{
    match existing {
        None => true,
        Some(t) => {
            let mut decl = String::from_str("mod ");
            decl.append(mig_mod);
            decl.append(";");
            if contains(t, decl.as_str()) {
                return true;
            }
            match find_str(t, MIGRATION_PRELUDE) {
                Some(i) => {
                    proof {
                        reveal_strlit("pub use sea_orm_migration::prelude::*;");
                        lemma_find_from_found(t@, MIGRATION_PRELUDE@, 0);
                    }
                    let n = t.unicode_len();
                    i + 38 < n && ascii_char_at(t, i + 38)
                },
                None => true,
            }
        },
    }
}

/// Whether `module_registry_source` can edit this registry (the text after a
/// found `register` header is where a byte offset lands).
pub fn module_registry_fits(existing: Option<&str>, name: &str, krate: &str) -> (r: bool)
    ensures
        r == module_registry_inputs_ok(opt_text(existing), name@, krate@),
{
    let stub = modules_stub_source(krate);
    let base: &str = match existing {
        Some(t) => t,
        None => stub.as_str(),
    };
    let mut decl = String::from_str("pub mod ");
    decl.append(name);
    decl.append(";");
    if contains(base, decl.as_str()) {
        return true;
    }
    let mut next = decl;
    next.append("\n");
    next.append(base);
    let nn = next.as_str().unicode_len();
    match find_str(next.as_str(), REGISTER_FN) {
        Some(i) => {
            proof {
                reveal_strlit("pub fn register(app: &mut App) {");
                lemma_find_from_found(next@, REGISTER_FN@, 0);
            }
            i + 32 < nn && ascii_char_at(next.as_str(), i + 32)
        },
        None => match find_str(next.as_str(), REGISTER_STUB) {
            Some(i) => {
                proof {
                    reveal_strlit("pub fn register(_app: &mut App) {");
                    lemma_find_from_found(next@, REGISTER_STUB@, 0);
                }
                i + 33 < nn && ascii_char_at(next.as_str(), i + 33)
            },
            None => true,
        },
    }
}

/// Whether `db_in_main` can edit this `src/main.rs` (the text after the prelude
/// import is where a byte offset lands).
pub fn db_in_main_fits(src: &str) -> (r: bool)
    ensures
        r == db_in_main_inputs_ok(src@),
{
    match db_mods(src) {
        None => true,
        Some(s1) => {
            let s = s1.as_str();
            if contains(s, "use sova::Db") || contains(s, "Db::from_env") {
                return true;
            }
            if find_str(s, "use sova::{").is_some() {
                return true;
            }
            match find_str(s, "use sova::prelude::*;") {
                Some(i) => {
                    proof {
                        reveal_strlit("use sova::prelude::*;");
                        lemma_find_from_found(s@, "use sova::prelude::*;"@, 0);
                    }
                    let n = s.unicode_len();
                    i + 21 < n && ascii_char_at(s, i + 21)
                },
                None => true,
            }
        },
    }
}

} // verus!
