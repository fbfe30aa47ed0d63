//! The runner: loads models, orders them and plans their execution.

use std::path::PathBuf;

use vstd::prelude::*;

use crate::compiler;
use crate::compiler::{Compiler, CompilerView, Target};
use crate::graph;
use crate::parser;
use crate::parser::{ModelView, NqlModel};
use crate::text;

verus! {

/// `std::path::PathBuf`, carried as it is.
#[verifier::external_type_specification]
#[verifier::external_body]
pub struct ExPathBuf(std::path::PathBuf);

/// Errors from the runner.
#[derive(Debug)]
pub enum RunnerError {
    Io(String),
    Parse { model: String, message: String },
    CircularDependency(String),
    MissingDependency { model: String, dependency: String },
    Sqlite(String),
    Compilation(String),
}

/// A [`RunnerError`] in terms of characters.
pub enum ErrorView {
    Io(Seq<char>),
    Parse { model: Seq<char>, message: Seq<char> },
    CircularDependency(Seq<char>),
    MissingDependency { model: Seq<char>, dependency: Seq<char> },
    Sqlite(Seq<char>),
    Compilation(Seq<char>),
}

impl View for RunnerError {
    type V = ErrorView;

    open spec fn view(&self) -> ErrorView {
        match self {
            RunnerError::Io(error) => ErrorView::Io(error@),
            RunnerError::Parse { model, message } => ErrorView::Parse {
                model: model@,
                message: message@,
            },
            RunnerError::CircularDependency(model) => ErrorView::CircularDependency(model@),
            RunnerError::MissingDependency { model, dependency } => ErrorView::MissingDependency {
                model: model@,
                dependency: dependency@,
            },
            RunnerError::Sqlite(error) => ErrorView::Sqlite(error@),
            RunnerError::Compilation(message) => ErrorView::Compilation(message@),
        }
    }
}

/// What is said of an error.
pub open spec fn error_text(error: ErrorView) -> Seq<char> {
    match error {
        ErrorView::Io(error) => "IO error: "@ + error,
        ErrorView::Parse { model, message } => "Parse error for model '"@ + model + "': "@
            + message,
        ErrorView::CircularDependency(model) => "Circular dependency detected involving model '"@
            + model + "'"@,
        ErrorView::MissingDependency { model, dependency } => "Missing dependency: model '"@ + model
            + "' references '"@ + dependency + "' which was not found"@,
        ErrorView::Sqlite(error) => "SQLite error: "@ + error,
        ErrorView::Compilation(message) => "Compilation error: "@ + message,
    }
}

impl RunnerError {
    /// What is said of the error.
    pub fn message(&self) -> (res: String)
        ensures
            res@ == error_text(self@),
    {
        match self {
            RunnerError::Io(error) => text::cat2("IO error: ", error.as_str()),
            RunnerError::Parse { model, message } => text::cat4(
                "Parse error for model '",
                model.as_str(),
                "': ",
                message.as_str(),
            ),
            RunnerError::CircularDependency(model) => text::cat3(
                "Circular dependency detected involving model '",
                model.as_str(),
                "'",
            ),
            RunnerError::MissingDependency { model, dependency } => text::cat5(
                "Missing dependency: model '",
                model.as_str(),
                "' references '",
                dependency.as_str(),
                "' which was not found",
            ),
            RunnerError::Sqlite(error) => text::cat2("SQLite error: ", error.as_str()),
            RunnerError::Compilation(message) => text::cat2(
                "Compilation error: ",
                message.as_str(),
            ),
        }
    }

    /// The error of a model whose SQL could not be executed.
    pub fn execution_failed(model_name: &str, error: &str) -> (res: RunnerError)
        ensures
            res@ == ErrorView::Compilation(
                "Failed to execute model '"@ + model_name@ + "': "@ + error@,
            ),
    {
        RunnerError::Compilation(text::cat4("Failed to execute model '", model_name, "': ", error))
    }
}

/// A model file: its path, the name of its model, and its content, or why it
/// could not be read.
#[derive(Debug)]
pub struct ModelSource {
    pub path: String,
    pub name: String,
    pub content: Result<String, String>,
}

/// A [`ModelSource`] in terms of characters.
pub struct SourceView {
    pub path: Seq<char>,
    pub name: Seq<char>,
    pub content: Result<Seq<char>, Seq<char>>,
}

impl View for ModelSource {
    type V = SourceView;

    open spec fn view(&self) -> SourceView {
        SourceView {
            path: self.path@,
            name: self.name@,
            content: match self.content {
                Ok(content) => Ok(content@),
                Err(error) => Err(error@),
            },
        }
    }
}

/// The model files of a list in terms of characters.
pub open spec fn source_views(sources: Seq<ModelSource>) -> Seq<SourceView> {
    sources.map_values(|source: ModelSource| source@)
}

/// The model of a file, or what is said of it.
pub open spec fn source_parsed(source: SourceView) -> Result<ModelView, Seq<char>> {
    match source.content {
        Ok(content) => parser::parsed(source.name, content),
        Err(error) => Err("Failed to read "@ + source.path + ": "@ + error),
    }
}

/// The model of a file, or the error that it gives.
pub open spec fn source_model(source: SourceView) -> Result<ModelView, ErrorView> {
    match source_parsed(source) {
        Ok(model) => Ok(model),
        Err(message) => Err(ErrorView::Parse { model: source.path, message }),
    }
}

/// Parse the model of a file.
pub fn parse_source(source: &ModelSource) -> (res: Result<NqlModel, String>)
    ensures
        match res {
            Ok(model) => source_parsed(source@) == Ok::<ModelView, Seq<char>>(model@)
                && parser::all_found(model@.raw_sql),
            Err(message) => source_parsed(source@) == Err::<ModelView, Seq<char>>(message@),
        },
{
    match &source.content {
        Ok(content) => parser::parse_model(source.name.as_str(), content.as_str()),
        Err(error) => Err(
            text::cat4("Failed to read ", source.path.as_str(), ": ", error.as_str()),
        ),
    }
}

/// The models with one more, which takes the place of a model of its name.
pub open spec fn with_model(models: Seq<ModelView>, model: ModelView) -> Seq<ModelView> {
    let i = graph::model_place(models, model.name, 0);
    if i < models.len() {
        models.update(i, model)
    } else {
        models.push(model)
    }
}

/// The models after the first `n` files, up to the first file that gives an
/// error, and that error.
pub open spec fn loaded(models: Seq<ModelView>, sources: Seq<SourceView>, n: int) -> (
    Seq<ModelView>,
    Option<ErrorView>,
)
    decreases n,
{
    if n <= 0 {
        (models, None)
    } else {
        let before = loaded(models, sources, n - 1);
        if before.1 is Some {
            before
        } else {
            match source_model(sources[n - 1]) {
                Ok(model) => (with_model(before.0, model), None),
                Err(error) => (before.0, Some(error)),
            }
        }
    }
}

/// What is looked for in the models of the first `n` files is found, up to the
/// first file that gives an error.
pub open spec fn sources_found(models: Seq<ModelView>, sources: Seq<SourceView>, n: int) -> bool {
    forall|k: int|
        0 <= k < n && loaded(models, sources, k + 1).1 is None ==> match source_parsed(
            #[trigger] sources[k],
        ) {
            Ok(model) => parser::all_found(model.raw_sql),
            Err(_) => true,
        }
}

/// Whether one of the models is named `name`.
pub open spec fn is_model(models: Seq<ModelView>, name: Seq<char>) -> bool {
    exists|i: int| 0 <= i < models.len() && (#[trigger] models[i]).name == name
}

/// Whether `order` names each model once, and each after the models that it
/// refers to.
pub open spec fn is_execution_order(models: Seq<ModelView>, order: Seq<Seq<char>>) -> bool {
    &&& order.len() == models.len()
    &&& order.no_duplicates()
    &&& forall|p: int| 0 <= p < order.len() ==> is_model(models, #[trigger] order[p])
    &&& forall|i: int| 0 <= i < models.len() ==> order.contains((#[trigger] models[i]).name)
    &&& forall|i: int, j: int, p: int|
        0 <= p < order.len() && #[trigger] order[p] == models[i].name && #[trigger] graph::depends(
            models,
            i,
            j,
        ) ==> name_before(order, models[j].name, p)
}

/// Whether `name` stands in `order` before the place `p`.
pub open spec fn name_before(order: Seq<Seq<char>>, name: Seq<char>, p: int) -> bool {
    exists|q: int| 0 <= q < p && #[trigger] order[q] == name
}

/// The table under which a model is registered.
pub open spec fn table_name(model: ModelView) -> Seq<char> {
    match model.config.schema {
        Some(schema) => if schema.len() == 0 {
            model.name
        } else {
            schema + "."@ + model.name
        },
        None => model.name,
    }
}

/// The references to the first `n` models.
pub open spec fn tables(models: Seq<ModelView>, n: int) -> Map<Seq<char>, Seq<char>>
    decreases n,
{
    if n <= 0 {
        Map::empty()
    } else {
        tables(models, n - 1).insert(models[n - 1].name, table_name(models[n - 1]))
    }
}

/// Runner loads models from a directory, resolves dependencies, and executes them.
pub struct Runner {
    pub models_dir: PathBuf,
    pub target: Target,
    pub models: Vec<NqlModel>,
    pub execution_order: Vec<String>,
}

/// A [`Runner`] in terms of characters.
pub struct RunnerView {
    pub target: Target,
    pub models: Seq<ModelView>,
    pub execution_order: Seq<Seq<char>>,
}

impl View for Runner {
    type V = RunnerView;

    open spec fn view(&self) -> RunnerView {
        RunnerView {
            target: self.target,
            models: graph::model_views(self.models@),
            execution_order: text::views(self.execution_order@),
        }
    }
}

impl RunnerView {
    /// The compiler that knows every model.
    pub open spec fn compiler(self, target: Target) -> CompilerView {
        CompilerView {
            target,
            default_schema: None,
            refs: tables(self.models, self.models.len() as int),
        }
    }

    /// The models named among the first `n` of the execution order, each with
    /// what it compiles to.
    pub open spec fn statements(self, target: Target, n: int) -> Seq<(Seq<char>, Seq<char>)>
        decreases n,
    {
        if n <= 0 {
            Seq::empty()
        } else {
            let before = self.statements(target, n - 1);
            let name = self.execution_order[n - 1];
            match graph::model_named(self.models, name) {
                Some(model) => before.push((name, self.compiler(target).compiled_model(model))),
                None => before,
            }
        }
    }

    /// The models in execution order, each with what it compiles to.
    pub open spec fn script(self, target: Target) -> Seq<(Seq<char>, Seq<char>)> {
        self.statements(target, self.execution_order.len() as int)
    }
}

impl RunnerView {
    /// What the model named `name` compiles to, and the database that runs it, or
    /// the error where there is no such model.
    pub open spec fn single(self, name: Seq<char>, path: Option<Seq<char>>) -> Result<
        (Seq<char>, Option<DatabaseView>),
        ErrorView,
    > {
        match graph::model_named(self.models, name) {
            Some(model) => Ok(
                (
                    self.compiler(self.target).compiled_model(model),
                    match path {
                        Some(path) => if self.target == Target::Sqlite {
                            Some(database_at(path))
                        } else {
                            None
                        },
                        None => None,
                    },
                ),
            ),
            None => Err(ErrorView::Parse { model: name, message: "Model not found"@ }),
        }
    }
}

impl RunnerView {
    /// What is looked for in compiling the models named among the first `n` of
    /// the execution order is found.
    pub open spec fn statements_found(self, target: Target, n: int) -> bool {
        forall|k: int|
            0 <= k < n ==> match graph::model_named(
                self.models,
                #[trigger] self.execution_order[k],
            ) {
                Some(model) => compiler::steps_found(model.raw_sql, target),
                None => true,
            }
    }

    /// What is looked for in compiling the models in execution order is found.
    pub open spec fn script_found(self, target: Target) -> bool {
        self.statements_found(target, self.execution_order.len() as int)
    }
}

/// Pairs of strings in terms of characters.
pub open spec fn pair_views(pairs: Seq<(String, String)>) -> Seq<(Seq<char>, Seq<char>)> {
    pairs.map_values(|pair: (String, String)| (pair.0@, pair.1@))
}

impl Runner {
    /// Whether the runner is valid: no two of its models have the same name.
    pub open spec fn wf(&self) -> bool {
        graph::distinct_names(self@.models)
    }

    /// Create a new runner for a given models directory and target.
    pub fn new(models_dir: PathBuf, target: Target) -> (res: Self)
        ensures
            res.wf(),
            res.models_dir == models_dir,
            res@ == (RunnerView { target, models: Seq::empty(), execution_order: Seq::empty() }),
    {
        let res = Runner { models_dir, target, models: Vec::new(), execution_order: Vec::new() };
        assert(res@.models =~= Seq::empty());
        assert(res@.execution_order =~= Seq::empty());
        res
    }

    /// Add a model, in the place of one of its name where there is one.
    pub fn add_model(&mut self, model: NqlModel)
        requires
            old(self).wf(),
        ensures
            final(self).wf(),
            final(self).models_dir == old(self).models_dir,
            final(self)@ == (RunnerView {
                models: with_model(old(self)@.models, model@),
                ..old(self)@
            }),
    {
        let ghost before = self@.models;
        proof {
            graph::lemma_model_place(before, model@.name, 0);
        }
        match graph::find_model(&self.models, model.name.as_str()) {
            Some(i) => {
                self.models.set(i, model);
                assert(self@.models =~= before.update(i as int, model@));
            },
            None => {
                self.models.push(model);
                assert(self@.models =~= before.push(model@));
            },
        }
    }

    /// Load the models of the files, one after the other, up to the first file
    /// that gives an error.
    pub fn load_models(&mut self, sources: &Vec<ModelSource>) -> (res: Result<(), RunnerError>)
        requires
            old(self).wf(),
        ensures
            final(self).wf(),
            final(self).models_dir == old(self).models_dir,
            ({
                let after = loaded(
                    old(self)@.models,
                    source_views(sources@),
                    sources@.len() as int,
                );
                &&& final(self)@ == (RunnerView { models: after.0, ..old(self)@ })
                &&& match res {
                    Ok(_) => after.1 is None,
                    Err(error) => after.1 == Some(error@),
                }
            }),
            sources_found(old(self)@.models, source_views(sources@), sources@.len() as int),
    {
        let ghost views = source_views(sources@);
        let mut k: usize = 0;
        while k < sources.len()
            invariant
                views == source_views(sources@),
                0 <= k <= sources@.len(),
                self.wf(),
                self.models_dir == old(self).models_dir,
                self@ == (RunnerView {
                    models: loaded(old(self)@.models, views, k as int).0,
                    ..old(self)@
                }),
                loaded(old(self)@.models, views, k as int).1 is None,
                sources_found(old(self)@.models, views, k as int),
            decreases sources@.len() - k,
        {
            let source = &sources[k];
            assert(views[k as int] == source@);
            match parse_source(source) {
                Ok(model) => {
                    self.add_model(model);
                },
                Err(message) => {
                    proof {
                        lemma_loading_stops(
                            old(self)@.models,
                            views,
                            k + 1,
                            sources@.len() as int,
                        );
                        lemma_nothing_found_later(
                            old(self)@.models,
                            views,
                            k as int,
                            sources@.len() as int,
                        );
                    }
                    return Err(RunnerError::Parse { model: source.path.clone(), message });
                },
            }
            k += 1;
        }
        Ok(())
    }

    /// Resolve dependencies and compute execution order via topological sort.
    /// References to tables that are no models are left alone.
    pub fn resolve_dependencies(&mut self) -> (res: Result<(), RunnerError>)
        requires
            old(self).wf(),
        ensures
            final(self).wf(),
            final(self).models_dir == old(self).models_dir,
            final(self)@ == (RunnerView {
                execution_order: final(self)@.execution_order,
                ..old(self)@
            }),
            match res {
                Ok(_) => {
                    &&& !graph::is_cyclic(old(self)@.models)
                    &&& is_execution_order(old(self)@.models, final(self)@.execution_order)
                },
                Err(error) => {
                    &&& final(self)@.execution_order == old(self)@.execution_order
                    &&& exists|i: int|
                        0 <= i < old(self)@.models.len() && #[trigger] graph::on_cycle(
                            old(self)@.models,
                            i,
                        ) && error@ == ErrorView::CircularDependency(old(self)@.models[i].name)
                },
            },
    {
        let ghost models = self@.models;
        let order = match graph::order_models(&self.models) {
            Ok(order) => order,
            Err(c) => {
                assert(models[c as int] == self.models@[c as int]@);
                return Err(RunnerError::CircularDependency(self.models[c].name.clone()));
            },
        };
        assert forall|p: int| 0 <= p < order@.len() implies (#[trigger] order@[p])
            < models.len() by {
            assert(graph::numbers(order@)[p] == order@[p]);
        }
        let mut names: Vec<String> = Vec::new();
        let mut k: usize = 0;
        while k < order.len()
            invariant
                models == graph::model_views(self.models@),
                0 <= k <= order@.len(),
                forall|p: int| 0 <= p < order@.len() ==> (#[trigger] order@[p]) < models.len(),
                names@.len() == k,
                forall|p: int|
                    0 <= p < k ==> (#[trigger] names@[p])@ == models[order@[p] as int].name,
            decreases order@.len() - k,
        {
            assert(models[order@[k as int] as int] == self.models@[order@[k as int] as int]@);
            names.push(self.models[order[k]].name.clone());
            k += 1;
        }
        self.execution_order = names;
        proof {
            lemma_names_in_order(models, graph::numbers(order@), self@.execution_order);
        }
        Ok(())
    }

    /// The compiler that knows every model.
    pub fn compiler_for(&self, target: Target) -> (res: Compiler)
        ensures
            res@ == self@.compiler(target),
    {
        let ghost models = self@.models;
        let mut res = Compiler::new(target);

        // Register all models as refs
        let mut k: usize = 0;
        while k < self.models.len()
            invariant
                models == self@.models,
                0 <= k <= self.models@.len(),
                res@ == (CompilerView {
                    target,
                    default_schema: None,
                    refs: tables(models, k as int),
                }),
            decreases self.models@.len() - k,
        {
            let model = &self.models[k];
            assert(models[k as int] == model@);
            let table = registered_name(model);
            res.register_ref(model.name.as_str(), table.as_str());
            k += 1;
        }
        res
    }

    /// The models in execution order, each with what it compiles to for a
    /// target.
    pub fn compile_for(&self, target: Target) -> (res: Vec<(String, String)>)
        ensures
            pair_views(res@) == self@.script(target),
            self@.script_found(target),
    {
        let compiler = self.compiler_for(target);
        let ghost models = self@.models;
        let ghost order = self@.execution_order;
        let mut res: Vec<(String, String)> = Vec::new();
        assert(pair_views(res@) =~= Seq::empty());
        let mut k: usize = 0;
        while k < self.execution_order.len()
            invariant
                models == self@.models,
                order == self@.execution_order,
                compiler@ == self@.compiler(target),
                0 <= k <= self.execution_order@.len(),
                pair_views(res@) == self@.statements(target, k as int),
                self@.statements_found(target, k as int),
            decreases self.execution_order@.len() - k,
        {
            let name = &self.execution_order[k];
            assert(order[k as int] == name@);
            proof {
                graph::lemma_model_place(models, name@, 0);
            }
            if let Some(i) = graph::find_model(&self.models, name.as_str()) {
                assert(models[i as int] == self.models@[i as int]@);
                let sql = compiler.compile_model(&self.models[i]);
                let ghost before = res@;
                let ghost pair = (name@, sql@);
                res.push((name.clone(), sql));
                assert(pair_views(res@) =~= pair_views(before).push(pair));
            }
            k += 1;
        }
        res
    }

    /// Compile all models and return the SQL strings (for non-SQLite targets).
    pub fn compile_all(&self) -> (res: Result<Vec<(String, String)>, RunnerError>)
        ensures
            res matches Ok(results) && pair_views(results@) == self@.script(self.target),
            self@.script_found(self.target),
    {
        Ok(self.compile_for(self.target))
    }

    /// What a SQLite database at `db_path` runs: the models in execution order,
    /// compiled for SQLite whatever the target of the runner.
    pub fn plan_sqlite(&self, db_path: &str) -> (res: SqlitePlan)
        ensures
            res.database@ == database_at(db_path@),
            pair_views(res.statements@) == self@.script(Target::Sqlite),
            self@.script_found(Target::Sqlite),
    {
        SqlitePlan {
            database: Database::at(db_path),
            statements: self.compile_for(Target::Sqlite),
        }
    }

    /// What a single named model compiles to, and the database that runs it:
    /// none unless the target is SQLite and a path is given.
    pub fn plan_single(&self, model_name: &str, db_path: Option<&str>) -> (res: Result<
        SinglePlan,
        RunnerError,
    >)
        ensures
            match res {
                Ok(plan) => {
                    &&& graph::model_named(self@.models, model_name@) is Some
                    &&& plan.sql@ == self@.compiler(self.target).compiled_model(
                        graph::model_named(self@.models, model_name@)->Some_0,
                    )
                    &&& compiler::steps_found(
                        graph::model_named(self@.models, model_name@)->Some_0.raw_sql,
                        self.target,
                    )
                    &&& match plan.database {
                        Some(database) => self.target == Target::Sqlite && db_path is Some
                            && database@ == database_at(db_path->Some_0@),
                        None => self.target != Target::Sqlite || db_path is None,
                    }
                },
                Err(error) => {
                    &&& graph::model_named(self@.models, model_name@) is None
                    &&& error@ == ErrorView::Parse {
                        model: model_name@,
                        message: "Model not found"@,
                    }
                },
            },
            ({
                let path = match db_path {
                    Some(path) => Some(path@),
                    None => None,
                };
                match res {
                    Ok(plan) => {
                        let database = match plan.database {
                            Some(database) => Some(database@),
                            None => None,
                        };
                        self@.single(model_name@, path) == Ok::<
                            (Seq<char>, Option<DatabaseView>),
                            ErrorView,
                        >((plan.sql@, database))
                    },
                    Err(error) => self@.single(model_name@, path) == Err::<
                        (Seq<char>, Option<DatabaseView>),
                        ErrorView,
                    >(error@),
                }
            }),
    {
        proof {
            graph::lemma_model_place(self@.models, model_name@, 0);
        }
        let i = match graph::find_model(&self.models, model_name) {
            Some(i) => i,
            None => {
                return Err(
                    RunnerError::Parse {
                        model: model_name.to_owned(),
                        message: "Model not found".to_owned(),
                    },
                );
            },
        };
        assert(self@.models[i as int] == self.models@[i as int]@);
        let sql = self.compiler_for(self.target).compile_model(&self.models[i]);
        let database = match db_path {
            Some(path) => if self.target == Target::Sqlite {
                Some(Database::at(path))
            } else {
                None
            },
            None => None,
        };
        Ok(SinglePlan { sql, database })
    }
}

/// The table under which a model is registered.
pub fn registered_name(model: &NqlModel) -> (res: String)
    ensures
        res@ == table_name(model@),
{
    match &model.config.schema {
        Some(schema) => if schema.as_str().is_empty() {
            model.name.clone()
        } else {
            text::cat3(schema.as_str(), ".", model.name.as_str())
        },
        None => model.name.clone(),
    }
}

/// A SQLite database: one in memory, or the file at a path.
#[derive(Debug)]
pub enum Database {
    Memory,
    File(String),
}

/// A [`Database`] in terms of characters.
pub enum DatabaseView {
    Memory,
    File(Seq<char>),
}

impl View for Database {
    type V = DatabaseView;

    open spec fn view(&self) -> DatabaseView {
        match self {
            Database::Memory => DatabaseView::Memory,
            Database::File(path) => DatabaseView::File(path@),
        }
    }
}

/// The database that a path stands for.
pub open spec fn database_at(path: Seq<char>) -> DatabaseView {
    if path == ":memory:"@ {
        DatabaseView::Memory
    } else {
        DatabaseView::File(path)
    }
}

impl Database {
    /// The database that a path stands for.
    pub fn at(path: &str) -> (res: Database)
        ensures
            res@ == database_at(path@),
    {
        if text::same(path, ":memory:") {
            Database::Memory
        } else {
            Database::File(path.to_owned())
        }
    }
}

/// What a SQLite database runs: pairs of a model name and SQL, in order.
#[derive(Debug)]
pub struct SqlitePlan {
    pub database: Database,
    pub statements: Vec<(String, String)>,
}

/// What a single model compiles to, and the database that runs it.
#[derive(Debug)]
pub struct SinglePlan {
    pub sql: String,
    pub database: Option<Database>,
}

/// How far a run of a list of statements has come.
#[derive(Debug, Clone, Copy, PartialEq, Eq, Structural)]
pub enum RunState {
    /// The statement with this number is next.
    Next(usize),
    /// Every statement has succeeded.
    Finished,
    /// A statement has failed: no other one follows.
    Failed,
}

/// The state of a run of `count` statements in which those before the place
/// `done` have succeeded.
pub open spec fn run_at(count: int, done: int) -> RunState {
    if done < count {
        RunState::Next(done as usize)
    } else {
        RunState::Finished
    }
}

/// The state of a run of `count` statements after the statement at `place`.
pub open spec fn run_after(count: int, place: int, succeeded: bool) -> RunState {
    if succeeded {
        run_at(count, place + 1)
    } else {
        RunState::Failed
    }
}

impl RunState {
    /// The state in which a run of `count` statements begins.
    pub fn start(count: usize) -> (res: RunState)
        ensures
            res == run_at(count as int, 0),
    {
        if count > 0 {
            RunState::Next(0)
        } else {
            RunState::Finished
        }
    }

    /// The state of a run of `count` statements after the statement at `place`.
    pub fn after(count: usize, place: usize, succeeded: bool) -> (res: RunState)
        requires
            place < count,
        ensures
            res == run_after(count as int, place as int, succeeded),
    {
        if !succeeded {
            RunState::Failed
        } else if place + 1 < count {
            RunState::Next(place + 1)
        } else {
            RunState::Finished
        }
    }
}

/// The names of models in an order that respects dependencies are an
/// execution order.
proof fn lemma_names_in_order(models: Seq<ModelView>, order: Seq<int>, names: Seq<Seq<char>>)
    requires
        graph::distinct_names(models),
        graph::respects_dependencies(models, order),
        order.len() == models.len(),
        forall|i: int| 0 <= i < models.len() ==> order.contains(i),
        names.len() == order.len(),
        forall|p: int| 0 <= p < names.len() ==> #[trigger] names[p] == models[order[p]].name,
    ensures
        is_execution_order(models, names),
{
    assert forall|i: int| 0 <= i < models.len() implies names.contains(
        (#[trigger] models[i]).name,
    ) by {
        assert(order.contains(i));
        let p = choose|p: int| 0 <= p < order.len() && order[p] == i;
        assert(names[p] == models[i].name);
    }
    assert forall|p: int| 0 <= p < names.len() implies is_model(models, #[trigger] names[p]) by {
        assert(models[order[p]].name == names[p]);
    }
    assert forall|p: int, q: int|
        0 <= p < names.len() && 0 <= q < names.len() && p != q implies names[p] != names[q] by {
        assert(order[p] != order[q]);
        assert(models[order[p]].name == names[p]);
        assert(models[order[q]].name == names[q]);
    }
    assert forall|i: int, j: int, p: int|
        0 <= p < names.len() && #[trigger] names[p] == models[i].name && #[trigger] graph::depends(
            models,
            i,
            j,
        ) implies name_before(names, models[j].name, p) by {
        assert(models[order[p]].name == models[i].name);
        assert(order[p] == i);
        assert(graph::depends(models, order[p], j));
        assert(graph::comes_before(order, j, p));
        let q = choose|q: int| 0 <= q < p && #[trigger] order[q] == j;
        assert(names[q] == models[j].name);
    }
}

/// Nothing is loaded after an error.
proof fn lemma_loading_stops(models: Seq<ModelView>, sources: Seq<SourceView>, k: int, n: int)
    requires
        0 <= k <= n,
        loaded(models, sources, k).1 is Some,
    ensures
        loaded(models, sources, n) == loaded(models, sources, k),
    decreases n - k,
{
    if k < n {
        lemma_loading_stops(models, sources, k, n - 1);
    }
}

/// What is looked for stays found where a file gives an error.
proof fn lemma_nothing_found_later(
    models: Seq<ModelView>,
    sources: Seq<SourceView>,
    k: int,
    n: int,
)
    requires
        0 <= k < n,
        sources_found(models, sources, k),
        loaded(models, sources, k + 1).1 is Some,
    ensures
        sources_found(models, sources, n),
{
    assert forall|j: int|
        0 <= j < n && loaded(models, sources, j + 1).1 is None implies match source_parsed(
        #[trigger] sources[j],
    ) {
        Ok(model) => parser::all_found(model.raw_sql),
        Err(_) => true,
    } by {
        if j >= k {
            lemma_loading_stops(models, sources, k + 1, j + 1);
        }
    }
}

}
