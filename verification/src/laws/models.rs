//! Laws of models: what is parsed from a file, and what a model is compiled to.

use vstd::prelude::*;

use crate::compiler::CompilerView;
use crate::frontmatter;
use crate::laws::compile;
use crate::laws::extract;
use crate::parser;
use crate::parser::ModelView;
use crate::pattern;
use crate::yaml::YamlView;

verus! {

/// Whether no reference that begins before the place `i` of `sql` reaches it.
pub open spec fn stands_apart(sql: Seq<char>, i: int) -> bool {
    forall|j: int, part: Seq<char>, name: Seq<char>|
        j < i && #[trigger] pattern::is_reference(part, name) && #[trigger] pattern::stands_at(
            sql,
            j,
            part,
        ) ==> j + part.len() <= i
}

/// Whether no reference in `sql` begins inside of another one.
pub open spec fn references_apart(sql: Seq<char>) -> bool {
    forall|i: int, part: Seq<char>, name: Seq<char>| #[trigger]
        pattern::is_reference(part, name) && #[trigger] pattern::stands_at(sql, i, part)
            ==> stands_apart(sql, i)
}

proof fn lemma_reference_listed(sql: Seq<char>, i: int, part: Seq<char>, name: Seq<char>)
    requires
        pattern::references_found(sql),
        pattern::is_reference(part, name),
        pattern::stands_at(sql, i, part),
        stands_apart(sql, i),
    ensures
        parser::refs_in(sql).contains(name),
{
    let refs = pattern::regex_captures(pattern::reference_pattern(), sql);
    assert(pattern::covered(refs, i));
    let k = choose|k: int|
        0 <= k < refs.len() && (#[trigger] refs[k]).start <= i < refs[k].end;
    compile::lemma_match_stands(sql, refs, k);
    assert(pattern::is_reference(refs[k].groups[0], refs[k].groups[1]));
    compile::lemma_same_reference(sql, i, part, name, refs[k].groups[0], refs[k].groups[1]);
    assert(parser::refs_in(sql)[k] == name);
}

/// The references of a model are those that stand anywhere in its SQL: to each
/// model that it lists a reference stands there, and each model is listed to
/// which one stands there that does not begin inside of another reference.
pub proof fn law_model_lists_references(name: Seq<char>, content: Seq<char>)
    ensures
        parser::parsed(name, content) matches Ok(model) ==> pattern::references_found(model.raw_sql)
            ==> {
            &&& forall|other: Seq<char>| #[trigger]
                model.refs.contains(other) ==> extract::is_referred_to(model.raw_sql, other)
            &&& forall|i: int, part: Seq<char>, other: Seq<char>| #[trigger]
                pattern::is_reference(part, other) && #[trigger] pattern::stands_at(
                    model.raw_sql,
                    i,
                    part,
                ) && stands_apart(model.raw_sql, i) ==> model.refs.contains(other)
            &&& references_apart(model.raw_sql) ==> forall|other: Seq<char>|
                (#[trigger] model.refs.contains(other) <==> extract::is_referred_to(
                    model.raw_sql,
                    other,
                ))
        },
{
    if let Ok(model) = parser::parsed(name, content) {
        let sql = model.raw_sql;
        if pattern::references_found(sql) {
            extract::law_listed_references(sql);
            assert forall|other: Seq<char>| #[trigger]
                model.refs.contains(other) implies extract::is_referred_to(sql, other) by {
                let k = model.refs.index_of(other);
                assert(parser::refs_in(sql)[k] == other);
            }
            assert forall|i: int, part: Seq<char>, other: Seq<char>| #[trigger]
                pattern::is_reference(part, other) && #[trigger] pattern::stands_at(sql, i, part)
                    && stands_apart(sql, i) implies model.refs.contains(other) by {
                lemma_reference_listed(sql, i, part, other);
            }
            if references_apart(sql) {
                assert forall|other: Seq<char>| extract::is_referred_to(
                    sql,
                    other,
                ) implies #[trigger] model.refs.contains(other) by {
                    let (i, part) = choose|i: int, part: Seq<char>| #[trigger]
                        pattern::stands_at(sql, i, part) && #[trigger] pattern::is_reference(
                            part,
                            other,
                        );
                    assert(stands_apart(sql, i));
                }
            }
        }
    }
}

/// A model has the name that it is given and the SQL of its file, and a file
/// gives a model just where its configuration can be read.
pub proof fn law_model_of_file(name: Seq<char>, content: Seq<char>)
    ensures
        match (parser::parsed(name, content), parser::config_of(content)) {
            (Ok(model), Ok(config)) => {
                &&& model.name == name
                &&& model.config == config
                &&& model.raw_sql == frontmatter::body_of(content)
            },
            (Err(message), Err(wanted)) => message == wanted,
            _ => false,
        },
{
}

/// The calls of a model are those that stand anywhere in its SQL: each that it
/// lists stands there, and each that begins a word is listed, as it is or with
/// its prefix, and none is listed twice.
pub proof fn law_model_lists_calls(name: Seq<char>, content: Seq<char>)
    ensures
        parser::parsed(name, content) matches Ok(model) ==> parser::all_found(model.raw_sql) ==> {
            &&& forall|k: int|
                0 <= k < model.nql_calls.len() ==> extract::stands_somewhere(
                    model.raw_sql,
                    #[trigger] model.nql_calls[k],
                )
            &&& forall|k: int, l: int|
                0 <= k < l < model.nql_calls.len() ==> (#[trigger] model.nql_calls[k]).full_match
                    != (#[trigger] model.nql_calls[l]).full_match
            &&& forall|i: int, func: Seq<char>, e: int|
                #![trigger compile::is_call_head(model.raw_sql, i, func), model.raw_sql.subrange(i, e + 1)]
                compile::is_call_head(model.raw_sql, i, func) && pattern::call_end(
                    model.raw_sql,
                    i + func.len(),
                ) == Some(e) ==> exists|k: int|
                    0 <= k < model.nql_calls.len() && ((
                    #[trigger] model.nql_calls[k]).full_match == model.raw_sql.subrange(i, e + 1)
                        || model.nql_calls[k].full_match == "nql."@ + model.raw_sql.subrange(
                        i,
                        e + 1,
                    ))
        },
{
    if let Ok(model) = parser::parsed(name, content) {
        let sql = model.raw_sql;
        if parser::all_found(sql) {
            extract::law_listed_calls(sql);
            let prefixed = pattern::regex_captures(pattern::head_pattern(), sql);
            let bare = pattern::regex_captures(pattern::bare_pattern(), sql);
            extract::law_calls_collected(sql, prefixed, bare);
            assert forall|i: int, func: Seq<char>, e: int|
                #![trigger compile::is_call_head(sql, i, func), sql.subrange(i, e + 1)]
                compile::is_call_head(sql, i, func) && pattern::call_end(sql, i + func.len())
                    == Some(e) implies exists|k: int|
                0 <= k < model.nql_calls.len() && ((#[trigger] model.nql_calls[k]).full_match
                    == sql.subrange(i, e + 1) || model.nql_calls[k].full_match == "nql."@
                    + sql.subrange(i, e + 1)) by {
                extract::law_call_is_listed(sql, i, func, e);
                if parser::is_listed(parser::calls_in(sql), sql.subrange(i, e + 1)) {
                    let k = choose|k: int|
                        0 <= k < model.nql_calls.len() && (
                        #[trigger] model.nql_calls[k]).full_match == sql.subrange(i, e + 1);
                    assert(model.nql_calls[k].full_match == sql.subrange(i, e + 1));
                } else {
                    let k = choose|k: int|
                        0 <= k < model.nql_calls.len() && (
                        #[trigger] model.nql_calls[k]).full_match == "nql."@ + sql.subrange(
                            i,
                            e + 1,
                        );
                    assert(model.nql_calls[k].full_match == "nql."@ + sql.subrange(i, e + 1));
                }
            }
        }
    }
}

/// The name of a model behind its schema and a dot: the schema of its
/// configuration, else the default one. Without either it is the bare name.
pub open spec fn is_qualified(
    table: Seq<char>,
    schema: Option<Seq<char>>,
    default_schema: Option<Seq<char>>,
    name: Seq<char>,
) -> bool {
    &&& schema matches Some(schema) ==> table == schema + "."@ + name
    &&& schema is None ==> (default_schema matches Some(schema) ==> table == schema + "."@ + name)
    &&& schema is None && default_schema is None ==> table == name
}

/// A table model is compiled to the statement that makes, out of what its SQL
/// compiles to for the target of the compiler, the table of its qualified name.
pub proof fn law_table_is_created(compiler: CompilerView, model: ModelView, table: Seq<char>)
    requires
        model.config.materialized == "table"@,
        is_qualified(table, model.config.schema, compiler.default_schema, model.name),
    ensures
        compiler.compiled_model(model) == "CREATE TABLE IF NOT EXISTS "@ + table + " AS\n"@
            + compiler.compiled(model.raw_sql, compiler.target),
{
}

/// A view model is compiled to the statement that makes the view of its
/// qualified name, or replaces it.
pub proof fn law_view_is_created(compiler: CompilerView, model: ModelView, table: Seq<char>)
    requires
        model.config.materialized == "view"@,
        is_qualified(table, model.config.schema, compiler.default_schema, model.name),
    ensures
        compiler.compiled_model(model) == "CREATE OR REPLACE VIEW "@ + table + " AS\n"@
            + compiler.compiled(model.raw_sql, compiler.target),
{
    reveal_strlit("table");
    reveal_strlit("view");
    assert("table"@.len() != "view"@.len());
}

/// An ephemeral model is compiled to its SQL alone, under no name. A model of a
/// kind that is not known is compiled to its SQL behind a comment that names the
/// kind.
pub proof fn law_other_kinds(compiler: CompilerView, model: ModelView)
    ensures
        ({
            let kind = model.config.materialized;
            let sql = compiler.compiled(model.raw_sql, compiler.target);
            let res = compiler.compiled_model(model);
            &&& kind == "ephemeral"@ ==> res == sql
            &&& kind != "table"@ && kind != "view"@ && kind != "incremental"@ && kind
                != "ephemeral"@ ==> res == "-- Unknown materialization: "@ + kind + "\n"@ + sql
        }),
{
    reveal_strlit("table");
    reveal_strlit("view");
    reveal_strlit("incremental");
    reveal_strlit("ephemeral");
    assert("ephemeral"@[0] != "table"@[0] && "ephemeral"@[0] != "view"@[0] && "ephemeral"@[0]
        != "incremental"@[0]);
}

/// Whether a list of extra entries has `value` as the string of `key`: its last
/// entry of that key.
pub open spec fn is_extra_text(
    extra: Seq<(Seq<char>, YamlView)>,
    i: int,
    key: Seq<char>,
    value: Seq<char>,
) -> bool {
    &&& 0 <= i < extra.len()
    &&& extra[i] == (key, YamlView::Text(value))
    &&& forall|j: int| i < j < extra.len() ==> (#[trigger] extra[j]).0 != key
}

/// The string of an extra key is that of its last entry.
pub proof fn law_last_extra_counts(
    extra: Seq<(Seq<char>, YamlView)>,
    i: int,
    key: Seq<char>,
    value: Seq<char>,
)
    requires
        is_extra_text(extra, i, key, value),
    ensures
        parser::extra_text(extra, key) == Some(value),
    decreases extra.len(),
{
    if i < extra.len() - 1 {
        assert(extra.last().0 != key);
        assert forall|j: int| i < j < extra.len() - 1 implies (
        #[trigger] extra.drop_last()[j]).0 != key by {
            assert(extra[j].0 != key);
        }
        law_last_extra_counts(extra.drop_last(), i, key, value);
    }
}

/// A key without an entry has no string.
pub proof fn law_missing_extra(extra: Seq<(Seq<char>, YamlView)>, key: Seq<char>)
    requires
        forall|i: int| 0 <= i < extra.len() ==> (#[trigger] extra[i]).0 != key,
    ensures
        parser::extra_text(extra, key) is None,
    decreases extra.len(),
{
    if extra.len() > 0 {
        assert(extra.last().0 != key);
        assert forall|j: int| 0 <= j < extra.len() - 1 implies (
        #[trigger] extra.drop_last()[j]).0 != key by {
            assert(extra[j].0 != key);
        }
        law_missing_extra(extra.drop_last(), key);
    }
}

/// An incremental model with a key is compiled to two statements on the table of
/// its qualified name. The first one makes it without rows where it is missing;
/// the second one inserts each row of the SQL whose key is in no row of it.
pub proof fn law_new_rows_are_inserted(
    compiler: CompilerView,
    model: ModelView,
    table: Seq<char>,
    i: int,
    key: Seq<char>,
)
    requires
        model.config.materialized == "incremental"@,
        is_qualified(table, model.config.schema, compiler.default_schema, model.name),
        is_extra_text(model.config.extra, i, "unique_key"@, key),
    ensures
        ({
            let sql = compiler.compiled(model.raw_sql, compiler.target);
            let create = "CREATE TABLE IF NOT EXISTS "@ + table + " AS\n"@ + ("(SELECT * FROM (\n"@
                + sql + "\n) WHERE FALSE)"@);
            let insert = "INSERT INTO "@ + table + "\n"@ + ("SELECT s.* FROM (\n"@ + sql
                + "\n) s\n"@);
            let unseen = "WHERE NOT EXISTS (SELECT 1 FROM "@ + table + " t WHERE "@ + ("t."@ + key)
                + " = "@ + ("s."@ + key) + ")"@;
            compiler.compiled_model(model) == create + ";\n"@ + insert + unseen + ";"@
        }),
{
    reveal_strlit("table");
    reveal_strlit("view");
    reveal_strlit("incremental");
    assert("incremental"@[0] != "table"@[0] && "incremental"@[0] != "view"@[0]);
    law_last_extra_counts(model.config.extra, i, "unique_key"@, key);
    reveal_strlit(" AS\n(SELECT * FROM (\n");
    reveal_strlit(" AS\n");
    reveal_strlit("(SELECT * FROM (\n");
    reveal_strlit("\n) WHERE FALSE);\n");
    reveal_strlit("\n) WHERE FALSE)");
    reveal_strlit(";\n");
    reveal_strlit("\nSELECT s.* FROM (\n");
    reveal_strlit("\n");
    reveal_strlit("SELECT s.* FROM (\n");
    reveal_strlit(" t WHERE t.");
    reveal_strlit(" t WHERE ");
    reveal_strlit("t.");
    reveal_strlit(" = s.");
    reveal_strlit(" = ");
    reveal_strlit("s.");
    reveal_strlit(");");
    reveal_strlit(")");
    reveal_strlit(";");
    assert(" AS\n(SELECT * FROM (\n"@ =~= " AS\n"@ + "(SELECT * FROM (\n"@);
    assert("\n) WHERE FALSE);\n"@ =~= "\n) WHERE FALSE)"@ + ";\n"@);
    assert("\nSELECT s.* FROM (\n"@ =~= "\n"@ + "SELECT s.* FROM (\n"@);
    assert(" t WHERE t."@ =~= " t WHERE "@ + "t."@);
    assert(" = s."@ =~= " = "@ + "s."@);
    assert(");"@ =~= ")"@ + ";"@);
    let sql = compiler.compiled(model.raw_sql, compiler.target);
    let create = "CREATE TABLE IF NOT EXISTS "@ + table + " AS\n"@ + ("(SELECT * FROM (\n"@ + sql
        + "\n) WHERE FALSE)"@);
    let insert = "INSERT INTO "@ + table + "\n"@ + ("SELECT s.* FROM (\n"@ + sql + "\n) s\n"@);
    let unseen = "WHERE NOT EXISTS (SELECT 1 FROM "@ + table + " t WHERE "@ + ("t."@ + key)
        + " = "@ + ("s."@ + key) + ")"@;
    assert(compiler.compiled_model(model) =~= create + ";\n"@ + insert + unseen + ";"@);
}

/// An incremental model without a key is compiled to what makes a table of its
/// qualified name, behind a comment that asks for the key.
pub proof fn law_incremental_without_key(
    compiler: CompilerView,
    model: ModelView,
    table: Seq<char>,
)
    requires
        model.config.materialized == "incremental"@,
        is_qualified(table, model.config.schema, compiler.default_schema, model.name),
        forall|i: int, key: Seq<char>|
            !#[trigger] is_extra_text(model.config.extra, i, "unique_key"@, key),
    ensures
        compiler.compiled_model(model)
            == "-- incremental materialization requires unique_key in config\n"@
            + ("CREATE TABLE IF NOT EXISTS "@ + table + " AS\n"@ + compiler.compiled(
            model.raw_sql,
            compiler.target,
        )),
{
    reveal_strlit("table");
    reveal_strlit("view");
    reveal_strlit("incremental");
    assert("incremental"@[0] != "table"@[0] && "incremental"@[0] != "view"@[0]);
    if let Some(key) = parser::extra_text(model.config.extra, "unique_key"@) {
        let i = law_extra_text_is_there(model.config.extra, "unique_key"@);
    }
    reveal_strlit("-- incremental materialization requires unique_key in config\n");
    reveal_strlit("CREATE TABLE IF NOT EXISTS ");
    reveal_strlit(
        "-- incremental materialization requires unique_key in config\nCREATE TABLE IF NOT EXISTS ",
    );
    let sql = compiler.compiled(model.raw_sql, compiler.target);
    assert(compiler.compiled_model(model)
        =~= "-- incremental materialization requires unique_key in config\n"@
        + ("CREATE TABLE IF NOT EXISTS "@ + table + " AS\n"@ + sql));
}

/// A key whose last entry is no string has none.
pub proof fn law_extra_that_is_no_text(extra: Seq<(Seq<char>, YamlView)>, value: YamlView, key: Seq<char>)
    requires
        !(value is Text),
    ensures
        parser::extra_text(extra.push((key, value)), key) is None,
{
    assert(extra.push((key, value)).last() == (key, value));
}

/// Where a key has a string, it is that of its last entry.
pub proof fn law_extra_text_is_there(extra: Seq<(Seq<char>, YamlView)>, key: Seq<char>) -> (i: int)
    requires
        parser::extra_text(extra, key) is Some,
    ensures
        is_extra_text(extra, i, key, parser::extra_text(extra, key)->Some_0),
    decreases extra.len(),
{
    if extra.last().0 == key {
        extra.len() - 1
    } else {
        let before = extra.drop_last();
        let i = law_extra_text_is_there(before, key);
        assert forall|j: int| i < j < extra.len() implies (#[trigger] extra[j]).0 != key by {
            if j < extra.len() - 1 {
                assert(before[j].0 != key);
            }
        }
        i
    }
}

}
