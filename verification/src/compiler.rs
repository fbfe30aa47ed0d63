//! The compiler: from SQL with AI functions and references to target SQL.

use vstd::hash_map::StringHashMap;
use vstd::prelude::*;
use vstd::string::*;

use crate::dialect;
use crate::parser;
use crate::parser::{ModelView, NqlModel};
use crate::pattern;
use crate::pattern::{Capture, CaptureView};
use crate::text;

verus! {

/// Supported compilation targets.
#[derive(Debug, Clone, Copy, PartialEq, Eq, Structural)]
pub enum Target {
    Sqlite,
    Postgresql,
    Snowflake,
    Bigquery,
    Databricks,
}

/// The target that a name in lower case stands for.
pub open spec fn target_named(name: Seq<char>) -> Option<Target> {
    if name == "sqlite"@ {
        Some(Target::Sqlite)
    } else if name == "postgresql"@ || name == "postgres"@ || name == "pg"@ {
        Some(Target::Postgresql)
    } else if name == "snowflake"@ || name == "sf"@ {
        Some(Target::Snowflake)
    } else if name == "bigquery"@ || name == "bq"@ {
        Some(Target::Bigquery)
    } else if name == "databricks"@ || name == "dbx"@ || name == "spark"@ {
        Some(Target::Databricks)
    } else {
        None
    }
}

/// What is said of a name that stands for no target.
pub open spec fn unknown_target(name: Seq<char>) -> Seq<char> {
    "Unknown target: '"@ + name
        + "'. Expected: sqlite, postgresql, snowflake, bigquery, databricks"@
}

impl Target {
    /// Finds the target that a name in lower case stands for.
    pub fn from_lowercase(name: &str) -> (res: Option<Target>)
        ensures
            res == target_named(name@),
    {
        if text::same(name, "sqlite") {
            Some(Target::Sqlite)
        } else if text::same(name, "postgresql") || text::same(name, "postgres") || text::same(
            name,
            "pg",
        ) {
            Some(Target::Postgresql)
        } else if text::same(name, "snowflake") || text::same(name, "sf") {
            Some(Target::Snowflake)
        } else if text::same(name, "bigquery") || text::same(name, "bq") {
            Some(Target::Bigquery)
        } else if text::same(name, "databricks") || text::same(name, "dbx") || text::same(
            name,
            "spark",
        ) {
            Some(Target::Databricks)
        } else {
            None
        }
    }

    /// Finds the target that a name stands for, whatever the case of its
    /// letters.
    pub fn from_str(s: &str) -> (res: Result<Target, String>)
        ensures
            match res {
                Ok(target) => target_named(text::lowercase(s@)) == Some(target),
                Err(message) => target_named(text::lowercase(s@)) is None && message@
                    == unknown_target(s@),
            },
            vstd::utf8::is_ascii_chars(s@) ==> text::lowercase(s@) == s@.map_values(
                |c: char| text::ascii_lower(c),
            ),
    {
        let name = s.to_lowercase();
        match Target::from_lowercase(name.as_str()) {
            Some(target) => Ok(target),
            None => Err(
                text::cat3(
                    "Unknown target: '",
                    s,
                    "'. Expected: sqlite, postgresql, snowflake, bigquery, databricks",
                ),
            ),
        }
    }
}

impl std::str::FromStr for Target {
    type Err = String;

    fn from_str(s: &str) -> (res: Result<Self, Self::Err>)
        ensures
            match res {
                Ok(target) => target_named(text::lowercase(s@)) == Some(target),
                Err(message) => target_named(text::lowercase(s@)) is None && message@
                    == unknown_target(s@),
            },
            vstd::utf8::is_ascii_chars(s@) ==> text::lowercase(s@) == s@.map_values(
                |c: char| text::ascii_lower(c),
            ),
    {
        Target::from_str(s)
    }
}

/// Compiler transforms NQL model SQL into target-specific SQL.
pub struct Compiler {
    pub target: Target,
    /// Schema prefix for resolved refs (e.g. "insights" -> "insights.table_name").
    pub default_schema: Option<String>,
    /// Mapping from model name to fully qualified table name.
    pub ref_map: StringHashMap<String>,
}

/// The name `name` in the schema `schema`, where there is one.
pub open spec fn in_schema(schema: Option<Seq<char>>, name: Seq<char>) -> Seq<char> {
    match schema {
        Some(schema) => schema + "."@ + name,
        None => name,
    }
}

/// What `target` runs in place of the call of a function.
pub open spec fn translated(target: Target, func: Seq<char>, args: Seq<char>) -> Seq<char> {
    match target {
        Target::Sqlite => pattern::call_text(func, args),
        Target::Postgresql => dialect::postgresql::postgresql_sql(func, args),
        Target::Snowflake => dialect::snowflake::snowflake_sql(func, args),
        Target::Bigquery => dialect::bigquery::bigquery_sql(func, args),
        Target::Databricks => dialect::databricks::databricks_sql(func, args),
    }
}

/// `sql` with the prefix taken off each prefixed call.
pub open spec fn without_prefixes(sql: Seq<char>) -> Seq<char> {
    let heads = pattern::regex_captures(pattern::head_pattern(), sql);
    pattern::rewritten(sql, heads, heads.map_values(|c: CaptureView| c.groups[1] + "("@))
}

/// The text of `sql` from the place `lo` up to the place `hi`, with each call
/// in it replaced by what `target` runs in its place. The heads of the calls are
/// those of `heads` from the one numbered `k` on. What is replaced in the
/// arguments of a call is replaced before the call is.
pub open spec fn translated_between(
    sql: Seq<char>,
    heads: Seq<CaptureView>,
    target: Target,
    k: int,
    lo: int,
    hi: int,
) -> Seq<char>
    decreases heads.len() - k,
{
    if !(0 <= k < heads.len()) || heads[k].start >= hi {
        sql.subrange(lo, hi)
    } else {
        match pattern::call_end(sql, heads[k].end - 1) {
            Some(e) => if lo <= heads[k].start && e < hi {
                let args = translated_between(sql, heads, target, k + 1, heads[k].end, e);
                sql.subrange(lo, heads[k].start) + translated(target, heads[k].groups[1], args)
                    + translated_between(sql, heads, target, k + 1, e + 1, hi)
            } else {
                translated_between(sql, heads, target, k + 1, lo, hi)
            },
            None => translated_between(sql, heads, target, k + 1, lo, hi),
        }
    }
}

/// `sql` with each call replaced by what `target` runs in its place, in the
/// arguments of other calls too.
pub open spec fn with_calls_translated(sql: Seq<char>, target: Target) -> Seq<char> {
    let heads = pattern::regex_captures(pattern::bare_pattern(), sql);
    translated_between(sql, heads, target, 0, 0, sql.len() as int)
}

/// What each step of compiling `sql` looks for is found: the heads of prefixed
/// calls, then the calls, then the references.
pub open spec fn steps_found(sql: Seq<char>, target: Target) -> bool {
    &&& pattern::heads_found(sql)
    &&& pattern::calls_found(without_prefixes(sql))
    &&& pattern::references_found(with_calls_translated(without_prefixes(sql), target))
}

/// The statements that make a model of the given kind out of its SQL.
pub open spec fn materialized_sql(
    kind: Seq<char>,
    unique_key: Option<Seq<char>>,
    table: Seq<char>,
    sql: Seq<char>,
) -> Seq<char> {
    if kind == "table"@ {
        "CREATE TABLE IF NOT EXISTS "@ + table + " AS\n"@ + sql
    } else if kind == "view"@ {
        "CREATE OR REPLACE VIEW "@ + table + " AS\n"@ + sql
    } else if kind == "incremental"@ {
        match unique_key {
            Some(key) => incremental_sql(key, table, sql),
            None => "-- incremental materialization requires unique_key in config\nCREATE TABLE IF NOT EXISTS "@
                + table + " AS\n"@ + sql,
        }
    } else if kind == "ephemeral"@ {
        sql
    } else {
        "-- Unknown materialization: "@ + kind + "\n"@ + sql
    }
}

/// The statements that add to a table the rows with a new key: the table is
/// made empty where it is missing, then each row is inserted whose key is not
/// there.
pub open spec fn incremental_sql(key: Seq<char>, table: Seq<char>, sql: Seq<char>) -> Seq<char> {
    let create = "CREATE TABLE IF NOT EXISTS "@ + table + " AS\n(SELECT * FROM (\n"@ + sql
        + "\n) WHERE FALSE);\n"@;
    let insert = "INSERT INTO "@ + table + "\nSELECT s.* FROM (\n"@ + sql + "\n) s\n"@;
    let unseen = "WHERE NOT EXISTS (SELECT 1 FROM "@ + table + " t WHERE t."@ + key + " = s."@ + key
        + ");"@;
    create + insert + unseen
}

/// A [`Compiler`] in terms of characters.
pub struct CompilerView {
    pub target: Target,
    pub default_schema: Option<Seq<char>>,
    /// The registered references: from model name to table name.
    pub refs: Map<Seq<char>, Seq<char>>,
}

impl CompilerView {
    /// The table that a reference to the model `name` stands for.
    pub open spec fn table_of(self, name: Seq<char>) -> Seq<char> {
        if self.refs.contains_key(name) {
            self.refs[name]
        } else {
            in_schema(self.default_schema, name)
        }
    }

    /// `sql` with each reference replaced by the table that it stands for.
    pub open spec fn with_refs_resolved(self, sql: Seq<char>) -> Seq<char> {
        let refs = pattern::regex_captures(pattern::reference_pattern(), sql);
        pattern::rewritten(sql, refs, refs.map_values(|c: CaptureView| self.table_of(c.groups[1])))
    }

    /// What `sql` compiles to: the prefixes are taken off, then the calls are
    /// translated, then the references are resolved.
    pub open spec fn compiled(self, sql: Seq<char>, target: Target) -> Seq<char> {
        self.with_refs_resolved(with_calls_translated(without_prefixes(sql), target))
    }

    /// The table that `model` makes: in the schema of its configuration, else
    /// in the default schema.
    pub open spec fn model_table(self, model: ModelView) -> Seq<char> {
        let schema = if model.config.schema is Some {
            model.config.schema
        } else {
            self.default_schema
        };
        in_schema(schema, model.name)
    }

    /// What `model` compiles to.
    pub open spec fn compiled_model(self, model: ModelView) -> Seq<char> {
        materialized_sql(
            model.config.materialized,
            parser::extra_text(model.config.extra, "unique_key"@),
            self.model_table(model),
            self.compiled(model.raw_sql, self.target),
        )
    }
}

impl View for Compiler {
    type V = CompilerView;

    open spec fn view(&self) -> CompilerView {
        CompilerView {
            target: self.target,
            default_schema: parser::option_view(self.default_schema),
            refs: self.ref_map@.map_values(|table: String| table@),
        }
    }
}

impl Compiler {
    pub fn new(target: Target) -> (res: Self)
        ensures
            res@ == (CompilerView { target, default_schema: None, refs: Map::empty() }),
    {
        let res = Compiler { target, default_schema: None, ref_map: StringHashMap::new() };
        assert(res@.refs =~= Map::empty());
        res
    }

    /// Set the default schema for ref resolution.
    pub fn with_schema(self, schema: Option<String>) -> (res: Self)
        ensures
            res@ == (CompilerView { default_schema: parser::option_view(schema), ..self@ }),
    {
        Compiler { target: self.target, default_schema: schema, ref_map: self.ref_map }
    }

    /// Register a ref mapping: model_name -> fully qualified table name.
    pub fn register_ref(&mut self, model_name: &str, table_name: &str)
        ensures
            final(self)@ == (CompilerView {
                refs: old(self)@.refs.insert(model_name@, table_name@),
                ..old(self)@
            }),
    {
        self.ref_map.insert(model_name.to_owned(), table_name.to_owned());
        assert(self@.refs =~= old(self)@.refs.insert(model_name@, table_name@));
    }

    /// Compile a raw SQL string (with nql.* calls and {{ ref() }}) to target SQL.
    pub fn compile(&self, input_sql: &str, target: Target) -> (res: String)
        ensures
            res@ == self@.compiled(input_sql@, target),
            steps_found(input_sql@, target),
    {
        // Replace nql.* function calls
        let output = self.replace_nql_calls(input_sql, target);

        // Replace {{ ref('...') }} with resolved table names
        self.replace_refs(output.as_str())
    }

    /// Compile a full NqlModel, using its config for schema resolution.
    pub fn compile_model(&self, model: &NqlModel) -> (res: String)
        ensures
            res@ == self@.compiled_model(model@),
            steps_found(model@.raw_sql, self.target),
    {
        let sql = self.compile(model.raw_sql.as_str(), self.target);
        let target_name = self.resolve_model_name(model);
        materialize(
            model.config.materialized.as_str(),
            model.config.extra_str("unique_key"),
            target_name.as_str(),
            sql.as_str(),
        )
    }

    /// Resolve the fully qualified name for a model.
    pub fn resolve_model_name(&self, model: &NqlModel) -> (res: String)
        ensures
            res@ == self@.model_table(model@),
    {
        match &model.config.schema {
            Some(schema) => text::cat3(schema.as_str(), ".", model.name.as_str()),
            None => match &self.default_schema {
                Some(schema) => text::cat3(schema.as_str(), ".", model.name.as_str()),
                None => model.name.clone(),
            },
        }
    }

    /// Replace all nql.* function calls with target-specific SQL.
    pub fn replace_nql_calls(&self, sql: &str, target: Target) -> (res: String)
        ensures
            res@ == with_calls_translated(without_prefixes(sql@), target),
            pattern::heads_found(sql@),
            pattern::calls_found(without_prefixes(sql@)),
    {
        let heads = pattern::captures(pattern::head_pattern_text().as_str(), sql);
        proof {
            pattern::lemma_have_groups(sql@, heads@, 2);
        }
        let stripped = pattern::rewrite(sql, &heads, &head_texts(&heads));

        let calls = pattern::captures(pattern::bare_pattern_text().as_str(), stripped.as_str());
        proof {
            pattern::lemma_heads_usable(stripped@, calls@);
        }
        self.translate_calls(stripped.as_str(), &calls, target)
    }

    /// Translate a single nql.* function call to target SQL.
    pub fn translate_function(&self, func_name: &str, args: &str, target: Target) -> (res: String)
        ensures
            res@ == translated(target, func_name@, args@),
    {
        match target {
            Target::Sqlite => self.translate_sqlite(func_name, args),
            Target::Postgresql => self.translate_postgresql(func_name, args),
            Target::Snowflake => self.translate_snowflake(func_name, args),
            Target::Bigquery => self.translate_bigquery(func_name, args),
            Target::Databricks => self.translate_databricks(func_name, args),
        }
    }

    /// SQLite runs the functions under their own names.
    pub fn translate_sqlite(&self, func_name: &str, args: &str) -> (res: String)
        ensures
            res@ == pattern::call_text(func_name@, args@),
    {
        text::cat4(func_name, "(", args, ")")
    }

    /// Translate each of the calls whose heads were found.
    pub fn translate_calls(&self, sql: &str, heads: &Vec<Capture>, target: Target) -> (res: String)
        requires
            pattern::are_usable(sql@, heads@),
        ensures
            res@ == translated_between(
                sql@,
                pattern::captures_view(sql@, heads@),
                target,
                0,
                0,
                sql@.len() as int,
            ),
    {
        let places = pattern::places(sql, heads);
        let len: usize = sql.unicode_len();
        self.translate_between(sql, heads, &places, target, 0, 0, len)
    }

    fn translate_between(
        &self,
        sql: &str,
        heads: &Vec<Capture>,
        places: &Vec<(usize, usize)>,
        target: Target,
        first: usize,
        from: usize,
        hi: usize,
    ) -> (res: String)
        requires
            pattern::are_usable(sql@, heads@),
            places@.len() == heads@.len(),
            forall|k: int|
                0 <= k < heads@.len() ==> {
                    let view = pattern::captures_view(sql@, heads@)[k];
                    (#[trigger] places@[k]).0 == view.start && places@[k].1 == view.end
                },
            first <= heads@.len(),
            from <= hi <= sql@.len(),
        ensures
            res@ == translated_between(
                sql@,
                pattern::captures_view(sql@, heads@),
                target,
                first as int,
                from as int,
                hi as int,
            ),
        decreases heads@.len() - first,
    {
        let ghost views = pattern::captures_view(sql@, heads@);
        let ghost whole = translated_between(
            sql@,
            views,
            target,
            first as int,
            from as int,
            hi as int,
        );
        let mut res = String::new();
        let mut lo: usize = from;
        let mut k: usize = first;
        assert(res@ + whole =~= whole);
        while k < heads.len() && places[k].0 < hi
            invariant
                pattern::are_usable(sql@, heads@),
                views == pattern::captures_view(sql@, heads@),
                places@.len() == heads@.len(),
                forall|k: int|
                    0 <= k < heads@.len() ==> {
                        let view = pattern::captures_view(sql@, heads@)[k];
                        (#[trigger] places@[k]).0 == view.start && places@[k].1 == view.end
                    },
                first <= k <= heads@.len(),
                lo <= hi <= sql@.len(),
                whole == res@ + translated_between(
                    sql@,
                    views,
                    target,
                    k as int,
                    lo as int,
                    hi as int,
                ),
            decreases heads@.len() - k,
        {
            let (start, end) = places[k];
            assert(views[k as int] == pattern::capture_view(sql@, heads@[k as int]));
            assert(views[k as int].groups[1] == heads@[k as int].groups@[1]@);
            let ghost done = res@;
            proof {
                pattern::lemma_call_end(sql@, end - 1);
            }
            if let Some(e) = pattern::end_of_call(sql, end - 1) {
                if lo <= start && e < hi {
                    let args = self.translate_between(sql, heads, places, target, k + 1, end, e);
                    let call = self.translate_function(
                        heads[k].groups[1].as_str(),
                        args.as_str(),
                        target,
                    );
                    res.append(sql.substring_char(lo, start));
                    res.append(call.as_str());
                    proof {
                        let before = sql@.subrange(lo as int, start as int);
                        let rest = translated_between(
                            sql@,
                            views,
                            target,
                            k + 1,
                            e + 1,
                            hi as int,
                        );
                        assert(done + (before + call@ + rest) =~= done + before + call@ + rest);
                    }
                    lo = e + 1;
                }
            }
            k += 1;
        }
        res.append(sql.substring_char(lo, hi));
        res
    }

    /// Replace {{ ref('model_name') }} with the resolved table name.
    pub fn replace_refs(&self, sql: &str) -> (res: String)
        ensures
            res@ == self@.with_refs_resolved(sql@),
            pattern::references_found(sql@),
    {
        let refs = pattern::captures(pattern::reference_pattern_text().as_str(), sql);
        proof {
            pattern::lemma_have_groups(sql@, refs@, 2);
        }
        pattern::rewrite(sql, &refs, &self.resolve_refs(&refs))
    }

    /// Resolve each of the references that were found.
    pub fn resolve_refs(&self, refs: &Vec<Capture>) -> (res: Vec<String>)
        requires
            pattern::have_groups(refs@, 2),
        ensures
            res@.len() == refs@.len(),
            forall|hay: Seq<char>|
                text::views(res@) == (#[trigger] pattern::captures_view(hay, refs@)).map_values(
                    |c: CaptureView| self@.table_of(c.groups[1]),
                ),
    {
        let mut res: Vec<String> = Vec::new();
        let mut k: usize = 0;
        while k < refs.len()
            invariant
                pattern::have_groups(refs@, 2),
                0 <= k <= refs@.len(),
                res@.len() == k,
                forall|j: int|
                    0 <= j < k ==> (#[trigger] res@[j])@ == self@.table_of(refs@[j].groups@[1]@),
            decreases refs@.len() - k,
        {
            res.push(self.resolve_ref(refs[k].groups[1].as_str()));
            k += 1;
        }
        proof {
            assert forall|hay: Seq<char>|
                text::views(res@) == (#[trigger] pattern::captures_view(hay, refs@)).map_values(
                    |c: CaptureView| self@.table_of(c.groups[1]),
                ) by {
                assert(text::views(res@) =~= pattern::captures_view(hay, refs@).map_values(
                    |c: CaptureView| self@.table_of(c.groups[1]),
                ));
            }
        }
        res
    }

    /// Resolve a ref to its table name.
    pub fn resolve_ref(&self, model_name: &str) -> (res: String)
        ensures
            res@ == self@.table_of(model_name@),
    {
        if let Some(table) = self.ref_map.get(model_name) {
            return table.clone();
        }

        // Default: use schema prefix if available
        match &self.default_schema {
            Some(schema) => text::cat3(schema.as_str(), ".", model_name),
            None => model_name.to_owned(),
        }
    }
}

/// The heads that were found, each without its prefix.
pub fn head_texts(heads: &Vec<Capture>) -> (res: Vec<String>)
    requires
        pattern::have_groups(heads@, 2),
    ensures
        res@.len() == heads@.len(),
        forall|hay: Seq<char>|
            text::views(res@) == (#[trigger] pattern::captures_view(hay, heads@)).map_values(
                |c: CaptureView| c.groups[1] + "("@,
            ),
{
    let mut res: Vec<String> = Vec::new();
    let mut k: usize = 0;
    while k < heads.len()
        invariant
            pattern::have_groups(heads@, 2),
            0 <= k <= heads@.len(),
            res@.len() == k,
            forall|j: int| 0 <= j < k ==> (#[trigger] res@[j])@ == heads@[j].groups@[1]@ + "("@,
        decreases heads@.len() - k,
    {
        res.push(text::cat2(heads[k].groups[1].as_str(), "("));
        k += 1;
    }
    proof {
        assert forall|hay: Seq<char>|
            text::views(res@) == (#[trigger] pattern::captures_view(hay, heads@)).map_values(
                |c: CaptureView| c.groups[1] + "("@,
            ) by {
            assert(text::views(res@) =~= pattern::captures_view(hay, heads@).map_values(
                |c: CaptureView| c.groups[1] + "("@,
            ));
        }
    }
    res
}

/// Wraps SQL in the statements that make a model of the given kind.
pub fn materialize(kind: &str, unique_key: Option<&str>, table: &str, sql: &str) -> (res: String)
    ensures
        res@ == materialized_sql(
            kind@,
            match unique_key {
                Some(key) => Some(key@),
                None => None,
            },
            table@,
            sql@,
        ),
{
    if text::same(kind, "table") {
        text::cat4("CREATE TABLE IF NOT EXISTS ", table, " AS\n", sql)
    } else if text::same(kind, "view") {
        text::cat4("CREATE OR REPLACE VIEW ", table, " AS\n", sql)
    } else if text::same(kind, "incremental") {
        match unique_key {
            Some(key) => {
                let create = text::cat5(
                    "CREATE TABLE IF NOT EXISTS ",
                    table,
                    " AS\n(SELECT * FROM (\n",
                    sql,
                    "\n) WHERE FALSE);\n",
                );
                let insert = text::cat5(
                    "INSERT INTO ",
                    table,
                    "\nSELECT s.* FROM (\n",
                    sql,
                    "\n) s\n",
                );
                let unseen = text::cat7(
                    "WHERE NOT EXISTS (SELECT 1 FROM ",
                    table,
                    " t WHERE t.",
                    key,
                    " = s.",
                    key,
                    ");",
                );
                text::cat3(create.as_str(), insert.as_str(), unseen.as_str())
            },
            None => text::cat4(
                "-- incremental materialization requires unique_key in config\nCREATE TABLE IF NOT EXISTS ",
                table,
                " AS\n",
                sql,
            ),
        }
    } else if text::same(kind, "ephemeral") {
        // No wrapping; used as CTE in downstream models
        sql.to_owned()
    } else {
        text::cat4("-- Unknown materialization: ", kind, "\n", sql)
    }
}

}
