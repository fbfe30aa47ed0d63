//! Laws of loading, ordering and compiling the models of a runner.

use vstd::prelude::*;

use crate::compiler;
use crate::compiler::Target;
use crate::graph;
use crate::laws::extract;
use crate::laws::models;
use crate::parser;
use crate::parser::ModelView;
use crate::pattern;
use crate::runner;
use crate::runner::{DatabaseView, ErrorView, RunState, RunnerView, SourceView};

verus! {

/// A model that was added is found under its name. The models of other names
/// stay as they are, and still no two have the same name.
pub proof fn law_added_model_found(models: Seq<ModelView>, model: ModelView, other: Seq<char>)
    requires
        graph::distinct_names(models),
    ensures
        graph::distinct_names(runner::with_model(models, model)),
        graph::model_named(runner::with_model(models, model), model.name) == Some(model),
        other != model.name ==> graph::model_named(runner::with_model(models, model), other)
            == graph::model_named(models, other),
{
    let after = runner::with_model(models, model);
    graph::lemma_model_place(models, model.name, 0);
    graph::lemma_model_place(after, model.name, 0);
    let i = graph::model_place(models, model.name, 0);
    assert(after[i] == model);
    assert(graph::model_place(after, model.name, 0) == i) by {
        let j = graph::model_place(after, model.name, 0);
        if j < i {
            assert(after[j] == models[j]);
        }
    }
    if other != model.name {
        graph::lemma_model_place(models, other, 0);
        graph::lemma_model_place(after, other, 0);
        let p = graph::model_place(models, other, 0);
        let q = graph::model_place(after, other, 0);
        if p < models.len() {
            assert(after[p] == models[p]);
            if q < p {
                assert(after[q] == models[q]);
            }
        } else if q < after.len() {
            assert(q != i);
            assert(after[q] == models[q]);
        }
    }
}

/// Loading files keeps the names of the models distinct.
pub proof fn law_loaded_names_distinct(models: Seq<ModelView>, sources: Seq<SourceView>, n: int)
    requires
        graph::distinct_names(models),
        0 <= n <= sources.len(),
    ensures
        graph::distinct_names(runner::loaded(models, sources, n).0),
    decreases n,
{
    if n > 0 {
        law_loaded_names_distinct(models, sources, n - 1);
        let before = runner::loaded(models, sources, n - 1);
        if before.1 is None {
            if let Ok(model) = runner::source_model(sources[n - 1]) {
                law_added_model_found(before.0, model, model.name);
            }
        }
    }
}

/// A model of a name is found just where there is one.
proof fn lemma_is_model(models: Seq<ModelView>, name: Seq<char>)
    ensures
        runner::is_model(models, name) <==> graph::model_named(models, name) is Some,
        graph::model_named(models, name) matches Some(model) ==> model.name == name,
{
    graph::lemma_model_place(models, name, 0);
    let i = graph::model_place(models, name, 0);
    if i < models.len() {
        assert(models[i].name == name);
    }
}

proof fn lemma_statements(runner: RunnerView, target: Target, n: int)
    requires
        runner::is_execution_order(runner.models, runner.execution_order),
        0 <= n <= runner.execution_order.len(),
    ensures
        runner.statements(target, n).len() == n,
        forall|k: int|
            0 <= k < n ==> {
                let (name, sql) = #[trigger] runner.statements(target, n)[k];
                &&& name == runner.execution_order[k]
                &&& graph::model_named(runner.models, name) matches Some(model) && sql
                    == runner.compiler(target).compiled_model(model)
            },
    decreases n,
{
    if n > 0 {
        lemma_statements(runner, target, n - 1);
        let name = runner.execution_order[n - 1];
        assert(runner::is_model(runner.models, name));
        lemma_is_model(runner.models, name);
        let before = runner.statements(target, n - 1);
        let after = runner.statements(target, n);
        assert forall|k: int| 0 <= k < n implies {
            let (name, sql) = #[trigger] after[k];
            &&& name == runner.execution_order[k]
            &&& graph::model_named(runner.models, name) matches Some(model) && sql
                == runner.compiler(target).compiled_model(model)
        } by {
            if k < n - 1 {
                assert(after[k] == before[k]);
            }
        }
    }
}

/// Once dependencies are resolved, every model is compiled just once, in
/// execution order.
pub proof fn law_every_model_compiled(runner: RunnerView, target: Target)
    requires
        runner::is_execution_order(runner.models, runner.execution_order),
    ensures
        runner.script(target).len() == runner.models.len(),
        forall|k: int|
            0 <= k < runner.script(target).len() ==> {
                let (name, sql) = #[trigger] runner.script(target)[k];
                &&& name == runner.execution_order[k]
                &&& graph::model_named(runner.models, name) matches Some(model) && sql
                    == runner.compiler(target).compiled_model(model)
            },
{
    lemma_statements(runner, target, runner.execution_order.len() as int);
}

/// Once dependencies are resolved, each model is compiled after the models that
/// it refers to.
pub proof fn law_dependencies_first(runner: RunnerView, target: Target, i: int, j: int, p: int)
    requires
        runner::is_execution_order(runner.models, runner.execution_order),
        graph::depends(runner.models, i, j),
        0 <= p < runner.script(target).len(),
        runner.script(target)[p].0 == runner.models[i].name,
    ensures
        exists|q: int|
            0 <= q < p && (#[trigger] runner.script(target)[q]).0 == runner.models[j].name,
{
    law_every_model_compiled(runner, target);
    let order = runner.execution_order;
    assert(runner.script(target)[p].0 == order[p]);
    assert(order[p] == runner.models[i].name);
    assert(runner::name_before(order, runner.models[j].name, p));
    let q = choose|q: int| 0 <= q < p && #[trigger] order[q] == runner.models[j].name;
    assert(runner.script(target)[q].0 == order[q]);
}

proof fn lemma_tables(models: Seq<ModelView>, n: int, i: int)
    requires
        graph::distinct_names(models),
        0 <= i < models.len(),
        0 <= n <= models.len(),
    ensures
        runner::tables(models, n).contains_key(models[i].name) <==> i < n,
        i < n ==> runner::tables(models, n)[models[i].name] == runner::table_name(models[i]),
    decreases n,
{
    if n > 0 {
        lemma_tables(models, n - 1, i);
        if i < n - 1 {
            assert(models[i].name != models[n - 1].name);
        } else if i > n - 1 {
            assert(models[n - 1].name != models[i].name);
        }
    }
}

/// A reference to a model of the runner stands for the table under which the
/// model is registered.
pub proof fn law_reference_to_model(runner: RunnerView, target: Target, i: int)
    requires
        graph::distinct_names(runner.models),
        0 <= i < runner.models.len(),
    ensures
        runner.compiler(target).table_of(runner.models[i].name) == runner::table_name(
            runner.models[i],
        ),
{
    lemma_tables(runner.models, runner.models.len() as int, i);
}

proof fn lemma_no_table(models: Seq<ModelView>, n: int, name: Seq<char>)
    requires
        !runner::is_model(models, name),
        0 <= n <= models.len(),
    ensures
        !runner::tables(models, n).contains_key(name),
    decreases n,
{
    if n > 0 {
        lemma_no_table(models, n - 1, name);
        assert(models[n - 1].name != name);
    }
}

/// A reference to a table that is no model of the runner is left as it is.
pub proof fn law_reference_to_other_table(runner: RunnerView, target: Target, name: Seq<char>)
    requires
        !runner::is_model(runner.models, name),
    ensures
        runner.compiler(target).table_of(name) == name,
{
    lemma_no_table(runner.models, runner.models.len() as int, name);
}

/// A reference to a model stands for the table that the model makes, unless the
/// schema of the model is the empty string.
pub proof fn law_reference_is_made_table(runner: RunnerView, target: Target, i: int)
    requires
        graph::distinct_names(runner.models),
        0 <= i < runner.models.len(),
        runner.models[i].config.schema != Some(Seq::<char>::empty()),
    ensures
        runner.compiler(target).table_of(runner.models[i].name) == runner.compiler(
            target,
        ).model_table(runner.models[i]),
{
    law_reference_to_model(runner, target, i);
    if let Some(schema) = runner.models[i].config.schema {
        if schema.len() == 0 {
            assert(schema =~= Seq::empty());
        }
    }
}

/// Whatever the kind of a model, what it compiles to holds its SQL: at the end,
/// unless it is incremental with a key, and alone where it is ephemeral.
pub proof fn law_materialized_holds_sql(
    kind: Seq<char>,
    unique_key: Option<Seq<char>>,
    table: Seq<char>,
    sql: Seq<char>,
)
    ensures
        kind != "incremental"@ || unique_key is None ==> sql.is_suffix_of(
            compiler::materialized_sql(kind, unique_key, table, sql),
        ),
        kind == "ephemeral"@ ==> compiler::materialized_sql(kind, unique_key, table, sql) == sql,
{
    reveal_strlit("table");
    reveal_strlit("view");
    reveal_strlit("incremental");
    reveal_strlit("ephemeral");
    let res = compiler::materialized_sql(kind, unique_key, table, sql);
    if kind != "incremental"@ || unique_key is None {
        assert(res.skip(res.len() - sql.len()) =~= sql);
    }
    if kind == "ephemeral"@ {
        assert(kind[0] == 'e');
        assert("table"@[0] == 't' && "view"@[0] == 'v' && "incremental"@[0] == 'i');
    }
}

/// The places of the statements that a run of `count` statements executes from
/// a state on, where `outcomes` says of each whether it succeeds.
pub open spec fn executed(count: usize, outcomes: Seq<bool>, state: RunState) -> Seq<int>
    decreases
            match state {
                RunState::Next(place) => count - place,
                _ => 0,
            },
{
    match state {
        RunState::Next(place) => if place < count {
            seq![place as int] + executed(
                count,
                outcomes,
                runner::run_after(count as int, place as int, outcomes[place as int]),
            )
        } else {
            Seq::empty()
        },
        _ => Seq::empty(),
    }
}

proof fn lemma_executed_from(count: usize, outcomes: Seq<bool>, place: int, k: int)
    requires
        0 <= place <= k <= count,
        forall|i: int| place <= i < k - 1 ==> #[trigger] outcomes[i],
        k < count ==> place < k && !outcomes[k - 1],
    ensures
        executed(count, outcomes, runner::run_at(count as int, place)) == Seq::new(
            (k - place) as nat,
            |i: int| place + i,
        ),
    decreases count - place,
{
    let wanted = Seq::new((k - place) as nat, |i: int| place + i);
    let state = runner::run_at(count as int, place);
    let whole = executed(count, outcomes, state);
    if place < count {
        let next = runner::run_after(count as int, place, outcomes[place]);
        let rest = executed(count, outcomes, next);
        assert(whole == seq![place] + rest);
        if place + 1 < k {
            assert(outcomes[place]);
            lemma_executed_from(count, outcomes, place + 1, k);
            assert(whole =~= wanted);
        } else {
            assert(rest =~= Seq::empty());
            assert(whole =~= wanted);
        }
    } else {
        assert(whole =~= wanted);
    }
}

/// A run executes each statement once, in order, up to the first one that
/// fails, and none after it.
pub proof fn law_run_stops_at_first_failure(count: usize, outcomes: Seq<bool>, k: int)
    requires
        outcomes.len() == count,
        0 <= k <= count,
        forall|i: int| 0 <= i < k - 1 ==> #[trigger] outcomes[i],
        k < count ==> 0 < k && !outcomes[k - 1],
    ensures
        executed(count, outcomes, runner::run_at(count as int, 0)) == Seq::new(
            k as nat,
            |i: int| i,
        ),
{
    lemma_executed_from(count, outcomes, 0, k);
    assert(Seq::new(k as nat, |i: int| 0 + i) =~= Seq::new(k as nat, |i: int| i));
}

/// A reference to a model of the runner stands for its name behind the schema
/// of its configuration and a dot, and for the bare name where that schema is
/// missing or empty.
pub proof fn law_reference_is_qualified(
    runner: RunnerView,
    target: Target,
    i: int,
    schema: Seq<char>,
)
    requires
        graph::distinct_names(runner.models),
        0 <= i < runner.models.len(),
    ensures
        ({
            let model = runner.models[i];
            let table = runner.compiler(target).table_of(model.name);
            &&& model.config.schema == Some(schema) && schema.len() > 0 ==> table == schema + "."@
                + model.name
            &&& model.config.schema == Some(schema) && schema.len() == 0 ==> table == model.name
            &&& model.config.schema is None ==> table == model.name
        }),
{
    law_reference_to_model(runner, target, i);
}

/// The table that a model makes is the one that references to it stand for: a
/// table model makes it, a view model the view of that name, and an incremental
/// model makes it and inserts into it.
pub proof fn law_statement_makes_referred_table(runner: RunnerView, target: Target, i: int)
    requires
        graph::distinct_names(runner.models),
        0 <= i < runner.models.len(),
        runner.models[i].config.schema != Some(Seq::<char>::empty()),
    ensures
        ({
            let model = runner.models[i];
            let compiler = runner.compiler(target);
            let table = compiler.table_of(model.name);
            let statement = compiler.compiled_model(model);
            let kind = model.config.materialized;
            let sql = compiler.compiled(model.raw_sql, target);
            &&& kind == "table"@ ==> statement == "CREATE TABLE IF NOT EXISTS "@ + table + " AS\n"@
                + sql
            &&& kind == "view"@ ==> statement == "CREATE OR REPLACE VIEW "@ + table + " AS\n"@
                + sql
            &&& kind == "incremental"@ && (exists|j: int, key: Seq<char>|
                models::is_extra_text(model.config.extra, j, "unique_key"@, key)) ==> ("CREATE TABLE IF NOT EXISTS "@
                + table + " AS\n"@).is_prefix_of(statement) && extract::holds(
                statement,
                ";\nINSERT INTO "@ + table + "\n"@,
            ) && extract::holds(statement, "(SELECT 1 FROM "@ + table + " t "@)
        }),
{
    let model = runner.models[i];
    let compiler = runner.compiler(target);
    let table = compiler.table_of(model.name);
    let kind = model.config.materialized;
    law_reference_to_model(runner, target, i);
    if let Some(schema) = model.config.schema {
        if schema.len() == 0 {
            assert(schema =~= Seq::empty());
        }
        assert(table == schema + "."@ + model.name);
    }
    if kind == "table"@ {
        models::law_table_is_created(compiler, model, table);
    }
    if kind == "view"@ {
        models::law_view_is_created(compiler, model, table);
    }
    if kind == "incremental"@ && exists|j: int, key: Seq<char>|
        models::is_extra_text(model.config.extra, j, "unique_key"@, key) {
        let (j, key) = choose|j: int, key: Seq<char>|
            models::is_extra_text(model.config.extra, j, "unique_key"@, key);
        models::law_new_rows_are_inserted(compiler, model, table, j, key);
        lemma_incremental_parts(compiler.compiled(model.raw_sql, target), table, key);
    }
}

proof fn lemma_incremental_parts(sql: Seq<char>, table: Seq<char>, key: Seq<char>)
    ensures
        ({
            let create = "CREATE TABLE IF NOT EXISTS "@ + table + " AS\n"@ + ("(SELECT * FROM (\n"@
                + sql + "\n) WHERE FALSE)"@);
            let insert = "INSERT INTO "@ + table + "\n"@ + ("SELECT s.* FROM (\n"@ + sql
                + "\n) s\n"@);
            let unseen = "WHERE NOT EXISTS (SELECT 1 FROM "@ + table + " t WHERE "@ + ("t."@ + key)
                + " = "@ + ("s."@ + key) + ")"@;
            let whole = create + ";\n"@ + insert + unseen + ";"@;
            &&& ("CREATE TABLE IF NOT EXISTS "@ + table + " AS\n"@).is_prefix_of(whole)
            &&& extract::holds(whole, ";\nINSERT INTO "@ + table + "\n"@)
            &&& extract::holds(whole, "(SELECT 1 FROM "@ + table + " t "@)
        }),
{
    let create = "CREATE TABLE IF NOT EXISTS "@ + table + " AS\n"@ + ("(SELECT * FROM (\n"@ + sql
        + "\n) WHERE FALSE)"@);
    let insert = "INSERT INTO "@ + table + "\n"@ + ("SELECT s.* FROM (\n"@ + sql + "\n) s\n"@);
    let unseen = "WHERE NOT EXISTS (SELECT 1 FROM "@ + table + " t WHERE "@ + ("t."@ + key)
        + " = "@ + ("s."@ + key) + ")"@;
    let whole = create + ";\n"@ + insert + unseen + ";"@;
    let begin = "CREATE TABLE IF NOT EXISTS "@ + table + " AS\n"@;
    assert(whole.take(begin.len() as int) =~= begin);
    reveal_strlit(";\n");
    reveal_strlit("INSERT INTO ");
    reveal_strlit(";\nINSERT INTO ");
    reveal_strlit("WHERE NOT EXISTS (SELECT 1 FROM ");
    reveal_strlit("(SELECT 1 FROM ");
    reveal_strlit("WHERE NOT EXISTS ");
    reveal_strlit(" t WHERE ");
    reveal_strlit(" t ");
    reveal_strlit("WHERE ");
    assert(";\nINSERT INTO "@ =~= ";\n"@ + "INSERT INTO "@);
    assert("WHERE NOT EXISTS (SELECT 1 FROM "@ =~= "WHERE NOT EXISTS "@ + "(SELECT 1 FROM "@);
    assert(" t WHERE "@ =~= " t "@ + "WHERE "@);
    let a = ";\nINSERT INTO "@ + table + "\n"@;
    let i = create.len() as int;
    assert(whole.subrange(i, i + a.len()) =~= a);
    assert(pattern::stands_at(whole, i, a));
    let b = "(SELECT 1 FROM "@ + table + " t "@;
    let j = (create + ";\n"@ + insert + "WHERE NOT EXISTS "@).len() as int;
    assert(whole.subrange(j, j + b.len()) =~= b);
    assert(pattern::stands_at(whole, j, b));
}

/// The model of a file is that of its name and content. A file that could not be
/// read gives an error that says which and why, and so does one that could not
/// be parsed.
pub proof fn law_source_model(source: SourceView)
    ensures
        match source.content {
            Ok(content) => match parser::parsed(source.name, content) {
                Ok(model) => runner::source_model(source) == Ok::<ModelView, ErrorView>(model)
                    && model.name == source.name,
                Err(message) => runner::source_model(source) == Err::<ModelView, ErrorView>(
                    ErrorView::Parse { model: source.path, message },
                ),
            },
            Err(error) => runner::source_model(source) == Err::<ModelView, ErrorView>(
                ErrorView::Parse {
                    model: source.path,
                    message: "Failed to read "@ + source.path + ": "@ + error,
                },
            ),
        },
        runner::source_model(source) is Ok <==> runner::source_parsed(source) is Ok,
{
}

/// Loading files without an error parses each of them. The model of a file is
/// then found under its name, unless a later file has that name. A name that no
/// file has keeps its model, or none.
pub proof fn law_files_are_loaded(
    models: Seq<ModelView>,
    sources: Seq<SourceView>,
    n: int,
    k: int,
    other: Seq<char>,
)
    requires
        graph::distinct_names(models),
        0 <= k < n <= sources.len(),
        runner::loaded(models, sources, n).1 is None,
    ensures
        runner::source_model(sources[k]) is Ok,
        (forall|j: int| k < j < n ==> (#[trigger] sources[j]).name != sources[k].name)
            ==> graph::model_named(runner::loaded(models, sources, n).0, sources[k].name) == Some(
            runner::source_model(sources[k])->Ok_0,
        ),
        (forall|j: int| 0 <= j < n ==> (#[trigger] sources[j]).name != other)
            ==> graph::model_named(runner::loaded(models, sources, n).0, other)
            == graph::model_named(models, other),
    decreases n,
{
    let before = runner::loaded(models, sources, n - 1);
    assert(before.1 is None);
    let model = runner::source_model(sources[n - 1])->Ok_0;
    law_source_model(sources[n - 1]);
    law_loaded_names_distinct(models, sources, n - 1);
    law_added_model_found(before.0, model, sources[k].name);
    law_added_model_found(before.0, model, other);
    if k < n - 1 {
        law_files_are_loaded(models, sources, n - 1, k, other);
        if forall|j: int| k < j < n ==> (#[trigger] sources[j]).name != sources[k].name {
            assert(sources[n - 1].name != sources[k].name);
        }
    } else if n > 1 {
        law_files_are_loaded(models, sources, n - 1, 0, other);
    }
    if forall|j: int| 0 <= j < n ==> (#[trigger] sources[j]).name != other {
        assert(sources[n - 1].name != other);
    }
}

/// Where loading files gives an error, it is that of the first file that gives
/// one, and the models are those of the files before it.
pub proof fn law_loading_stops_at_first_error(
    models: Seq<ModelView>,
    sources: Seq<SourceView>,
    n: int,
)
    requires
        0 <= n <= sources.len(),
    ensures
        runner::loaded(models, sources, n).1 is None <==> forall|j: int|
            0 <= j < n ==> runner::source_model(#[trigger] sources[j]) is Ok,
        forall|k: int|
            0 <= k < n && runner::source_model(#[trigger] sources[k]) is Err && (forall|j: int|
                0 <= j < k ==> runner::source_model(#[trigger] sources[j]) is Ok) ==> {
                &&& runner::loaded(models, sources, n).1 == Some(
                    runner::source_model(sources[k])->Err_0,
                )
                &&& runner::loaded(models, sources, n).0 == runner::loaded(models, sources, k).0
            },
    decreases n,
{
    if n > 0 {
        law_loading_stops_at_first_error(models, sources, n - 1);
        assert forall|k: int|
            0 <= k < n && runner::source_model(#[trigger] sources[k]) is Err && (forall|j: int|
                0 <= j < k ==> runner::source_model(
                    #[trigger] sources[j],
                ) is Ok) implies runner::loaded(models, sources, n).1 == Some(
            runner::source_model(sources[k])->Err_0,
        ) && runner::loaded(models, sources, n).0 == runner::loaded(models, sources, k).0 by {
            if k < n - 1 {
                assert(runner::loaded(models, sources, n - 1).1 is Some);
            } else {
                assert(runner::loaded(models, sources, n - 1).1 is None);
            }
        }
    }
}

/// Each model that files give to an empty runner is the model of one of them.
pub proof fn law_loaded_models_are_of_files(sources: Seq<SourceView>, n: int, i: int) -> (k: int)
    requires
        0 <= n <= sources.len(),
        0 <= i < runner::loaded(Seq::empty(), sources, n).0.len(),
    ensures
        0 <= k < n,
        runner::loaded(Seq::empty(), sources, k + 1).1 is None,
        runner::source_model(sources[k]) == Ok::<ModelView, ErrorView>(
            runner::loaded(Seq::empty(), sources, n).0[i],
        ),
    decreases n,
{
    let before = runner::loaded(Seq::empty(), sources, n - 1);
    let after = runner::loaded(Seq::empty(), sources, n);
    if n == 0 || before.1 is Some || runner::source_model(sources[n - 1]) is Err {
        law_loaded_models_are_of_files(sources, n - 1, i)
    } else {
        let model = runner::source_model(sources[n - 1])->Ok_0;
        graph::lemma_model_place(before.0, model.name, 0);
        let p = graph::model_place(before.0, model.name, 0);
        if i == p {
            n - 1
        } else {
            assert(after.0[i] == before.0[i]);
            law_loaded_models_are_of_files(sources, n - 1, i)
        }
    }
}

/// Of the models that files give to an empty runner, each runs after those to
/// which references stand anywhere in its SQL: where a reference to the model
/// `j` stands in the SQL of the model `i`, outside of other references, the
/// model `j` comes earlier in every execution order.
pub proof fn law_referred_models_run_first(
    sources: Seq<SourceView>,
    order: Seq<Seq<char>>,
    i: int,
    j: int,
    at: int,
    part: Seq<char>,
    p: int,
)
    requires
        runner::loaded(Seq::empty(), sources, sources.len() as int).1 is None,
        runner::sources_found(Seq::empty(), sources, sources.len() as int),
        ({
            let models = runner::loaded(Seq::empty(), sources, sources.len() as int).0;
            &&& runner::is_execution_order(models, order)
            &&& 0 <= i < models.len()
            &&& 0 <= j < models.len()
            &&& pattern::is_reference(part, models[j].name)
            &&& pattern::stands_at(models[i].raw_sql, at, part)
            &&& models::stands_apart(models[i].raw_sql, at)
            &&& 0 <= p < order.len()
            &&& order[p] == models[i].name
        }),
    ensures
        exists|q: int|
            0 <= q < p && #[trigger] order[q] == runner::loaded(
                Seq::empty(),
                sources,
                sources.len() as int,
            ).0[j].name,
{
    let models = runner::loaded(Seq::empty(), sources, sources.len() as int).0;
    lemma_loaded_reference(sources, i, at, part, models[j].name);
    assert(graph::depends(models, i, j));
    assert(runner::name_before(order, models[j].name, p));
}

proof fn lemma_loaded_reference(
    sources: Seq<SourceView>,
    i: int,
    at: int,
    part: Seq<char>,
    name: Seq<char>,
)
    requires
        runner::loaded(Seq::empty(), sources, sources.len() as int).1 is None,
        runner::sources_found(Seq::empty(), sources, sources.len() as int),
        ({
            let models = runner::loaded(Seq::empty(), sources, sources.len() as int).0;
            &&& 0 <= i < models.len()
            &&& pattern::is_reference(part, name)
            &&& pattern::stands_at(models[i].raw_sql, at, part)
            &&& models::stands_apart(models[i].raw_sql, at)
        }),
    ensures
        runner::loaded(Seq::empty(), sources, sources.len() as int).0[i].refs.contains(name),
{
    let n = sources.len() as int;
    let models = runner::loaded(Seq::empty(), sources, n).0;
    let k = law_loaded_models_are_of_files(sources, n, i);
    law_source_model(sources[k]);
    let content = sources[k].content->Ok_0;
    assert(runner::source_parsed(sources[k]) == Ok::<ModelView, Seq<char>>(models[i]));
    assert(parser::all_found(models[i].raw_sql));
    models::law_model_lists_references(sources[k].name, content);
}

/// Models that refer to each other in a circle are refused: where in the SQL of
/// each model of a walk a reference to the next one stands, outside of other
/// references, and the last one is the first one again, the models are cyclic,
/// so resolving their dependencies gives an error.
pub proof fn law_circle_is_refused(sources: Seq<SourceView>, walk: Seq<int>)
    requires
        runner::loaded(Seq::empty(), sources, sources.len() as int).1 is None,
        runner::sources_found(Seq::empty(), sources, sources.len() as int),
        walk.len() > 1,
        walk.first() == walk.last(),
        ({
            let models = runner::loaded(Seq::empty(), sources, sources.len() as int).0;
            &&& forall|k: int| 0 <= k < walk.len() ==> 0 <= #[trigger] walk[k] < models.len()
            &&& forall|k: int|
                0 <= k < walk.len() - 1 ==> refers_apart(
                    models[#[trigger] walk[k]].raw_sql,
                    models[walk[k + 1]].name,
                )
        }),
    ensures
        graph::is_cyclic(runner::loaded(Seq::empty(), sources, sources.len() as int).0),
{
    let models = runner::loaded(Seq::empty(), sources, sources.len() as int).0;
    assert forall|k: int, l: int| 0 <= k && l == k + 1 && l < walk.len() implies graph::depends(
        models,
        #[trigger] walk[k],
        #[trigger] walk[l],
    ) by {
        let sql = models[walk[k]].raw_sql;
        let name = models[walk[l]].name;
        assert(refers_apart(sql, name));
        let (at, part) = choose|at: int, part: Seq<char>| #[trigger]
            pattern::stands_at(sql, at, part) && #[trigger] pattern::is_reference(part, name)
                && models::stands_apart(sql, at);
        lemma_loaded_reference(sources, walk[k], at, part, name);
    }
    assert(graph::is_walk(models, walk));
    assert(graph::on_cycle(models, walk.first()));
}

/// Whether a reference to the model `name` stands in `sql`, outside of other
/// references.
pub open spec fn refers_apart(sql: Seq<char>, name: Seq<char>) -> bool {
    exists|at: int, part: Seq<char>| #[trigger]
        pattern::stands_at(sql, at, part) && #[trigger] pattern::is_reference(part, name)
            && models::stands_apart(sql, at)
}

/// A model is named as circular only where it is: from it a chain of models, each
/// of which lists the next one among its references, leads back to it.
pub proof fn law_circle_is_real(models: Seq<ModelView>, i: int)
    requires
        graph::on_cycle(models, i),
    ensures
        exists|walk: Seq<int>|
            #![trigger walk.len()]
            walk.len() > 1 && walk[0] == i && walk[walk.len() - 1] == i && (forall|k: int|
                0 <= k < walk.len() - 1 ==> 0 <= #[trigger] walk[k] < models.len() && 0 <= walk[k
                    + 1] < models.len() && models[walk[k]].refs.contains(
                    models[walk[k + 1]].name,
                )),
{
    let walk = choose|walk: Seq<int>| #[trigger]
        graph::is_walk(models, walk) && walk.len() > 1 && walk.first() == i && walk.last() == i;
    assert forall|k: int| 0 <= k < walk.len() - 1 implies 0 <= #[trigger] walk[k] < models.len()
        && 0 <= walk[k + 1] < models.len() && models[walk[k]].refs.contains(
        models[walk[k + 1]].name,
    ) by {
        assert(graph::depends(models, walk[k], walk[k + 1]));
    }
    assert(walk[0] == i && walk[walk.len() - 1] == i);
    assert(walk.len() > 1);
}

/// An execution order names each model once and no other one.
pub proof fn law_order_names_each_model_once(models: Seq<ModelView>, order: Seq<Seq<char>>)
    requires
        graph::distinct_names(models),
        runner::is_execution_order(models, order),
    ensures
        order.len() == models.len(),
        forall|p: int, q: int|
            0 <= p < q < order.len() ==> #[trigger] order[p] != #[trigger] order[q],
        forall|i: int| 0 <= i < models.len() ==> order.contains((#[trigger] models[i]).name),
        forall|i: int, j: int, p: int|
            #![trigger order[p], models[i], models[j]]
            0 <= i < models.len() && 0 <= j < models.len() && 0 <= p < order.len() && order[p]
                == models[i].name && models[i].refs.contains(models[j].name) ==> exists|q: int|
                0 <= q < p && #[trigger] order[q] == models[j].name,
{
    assert forall|i: int, j: int, p: int|
        #![trigger order[p], models[i], models[j]]
        0 <= i < models.len() && 0 <= j < models.len() && 0 <= p < order.len() && order[p]
            == models[i].name && models[i].refs.contains(models[j].name) implies exists|q: int|
        0 <= q < p && #[trigger] order[q] == models[j].name by {
        assert(graph::depends(models, i, j));
        assert(runner::name_before(order, models[j].name, p));
    }
}

/// Each statement of a script is what its model compiles to for the target of
/// the script: with its SQL compiled for that target by a compiler without a
/// default schema, to which every model is known.
pub proof fn law_script_is_for_target(runner: RunnerView, target: Target, k: int)
    requires
        runner::is_execution_order(runner.models, runner.execution_order),
        graph::distinct_names(runner.models),
        0 <= k < runner.models.len(),
    ensures
        ({
            let (name, sql) = runner.script(target)[k];
            &&& name == runner.execution_order[k]
            &&& runner.compiler(target).target == target
            &&& runner.compiler(target).default_schema is None
            &&& exists|i: int|
                0 <= i < runner.models.len() && (#[trigger] runner.models[i]).name == name && sql
                    == runner.compiler(target).compiled_model(runner.models[i])
        }),
{
    law_every_model_compiled(runner, target);
    let (name, sql) = runner.script(target)[k];
    graph::lemma_model_place(runner.models, name, 0);
    let i = graph::model_place(runner.models, name, 0);
    assert(runner.models[i].name == name);
}

/// The path of a database in memory is `:memory:`, and any other path is that of
/// a file.
pub proof fn law_database_paths(path: Seq<char>)
    ensures
        path == ":memory:"@ <==> runner::database_at(path) is Memory,
        runner::database_at(path) matches DatabaseView::File(file) ==> file == path,
{
}

/// What is said of an error names what went wrong: the model, the dependency and
/// the message stand in it as they are, behind words for the kind of error.
pub proof fn law_error_is_named(error: ErrorView)
    ensures
        ({
            let said = runner::error_text(error);
            match error {
                ErrorView::Io(message) => said == "IO error: "@ + message,
                ErrorView::Sqlite(message) => said == "SQLite error: "@ + message,
                ErrorView::Compilation(message) => said == "Compilation error: "@ + message,
                ErrorView::Parse { model, message } => said == "Parse error for model '"@ + model
                    + "': "@ + message,
                ErrorView::CircularDependency(model) => said
                    == "Circular dependency detected involving model '"@ + model + "'"@,
                ErrorView::MissingDependency { model, dependency } => said
                    == "Missing dependency: model '"@ + model + "' references '"@ + dependency
                    + "' which was not found"@,
            }
        }),
{
}

/// The model that is found under a name has it, and where none is found, no model
/// has it.
pub proof fn law_model_is_found(models: Seq<ModelView>, name: Seq<char>)
    ensures
        match graph::model_named(models, name) {
            Some(model) => model.name == name && exists|i: int|
                0 <= i < models.len() && #[trigger] models[i] == model,
            None => forall|i: int| 0 <= i < models.len() ==> (#[trigger] models[i]).name != name,
        },
{
    graph::lemma_model_place(models, name, 0);
    let i = graph::model_place(models, name, 0);
    if i < models.len() {
        assert(models[i].name == name);
    }
}

/// A single model is compiled for the target of the runner, and run only where
/// that is SQLite and a path is given: in the database at that path. A name that
/// no model has is an error that names it.
pub proof fn law_single_model(
    runner: RunnerView,
    i: int,
    name: Seq<char>,
    path: Option<Seq<char>>,
)
    requires
        graph::distinct_names(runner.models),
    ensures
        0 <= i < runner.models.len() && runner.models[i].name == name ==> {
            &&& runner.single(name, path) matches Ok(plan)
            &&& plan.0 == runner.compiler(runner.target).compiled_model(runner.models[i])
            &&& plan.1 is Some <==> runner.target == Target::Sqlite && path is Some
            &&& plan.1 matches Some(database) ==> (database is Memory <==> path == Some(
                ":memory:"@,
            ))
            &&& plan.1 matches Some(DatabaseView::File(file)) ==> path == Some(file)
        },
        (forall|j: int| 0 <= j < runner.models.len() ==> (#[trigger] runner.models[j]).name != name)
            ==> runner.single(name, path) == Err::<
            (Seq<char>, Option<DatabaseView>),
            ErrorView,
        >(ErrorView::Parse { model: name, message: "Model not found"@ }),
{
    law_model_is_found(runner.models, name);
    graph::lemma_model_place(runner.models, name, 0);
    let p = graph::model_place(runner.models, name, 0);
    if 0 <= i < runner.models.len() && runner.models[i].name == name {
        assert(p <= i);
        assert(runner.models[p].name == runner.models[i].name);
    }
}

}
