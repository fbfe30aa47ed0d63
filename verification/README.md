# nql

A compiler from SQL with AI function calls to the SQL of a target database,
written and verified in Verus.

A model is a `.sql` file. It may hold calls such as `summarize(notes)` or
`nql.summarize(notes)`, references such as `{{ ref('orders') }}`, and a
configuration in comments at its top:

```sql
-- config:
--   materialized: table
--   schema: insights

SELECT nql.summarize(notes) FROM {{ ref('meetings') }}
```

The targets are SQLite, PostgreSQL, Snowflake, BigQuery and Databricks.

## Layout

- `src/` is the library. It is verified, but for what it takes from outside on
  trust: four wrappers, `pattern::captures` (regex), `config::read_yaml` and
  `yaml::tree_of` (serde_yaml) and `bq::look_up` (serde_json), the contracts of
  four functions of std, `str::trim`, `str::to_lowercase`, `String::push` and
  `char::is_alphanumeric`, and the declarations of two types that Verus does not
  look into, `serde_yaml::Value` and `std::path::PathBuf`.
  - `text`, `pattern`, `yaml`: strings, what is looked for in SQL, and YAML
    values
  - `parser`, `frontmatter`, `config`: models and their configuration
  - `compiler`, `dialect`: from SQL to the SQL of a target
  - `graph`, `runner`: the order of models, and what a run does
  - `sqlite_udf`, `bq`: what SQLite functions ask a language model, and
    BigQuery jobs
  - `laws`: what holds of the library as a whole
- `tests/` runs the library.
- `app/` is the command line: files, databases, processes and the network.
