//! Reading and writing the tables, and the schema that holds them.
use vstd::prelude::*;

#[allow(unused_imports)]
use crate::db::rules::DatabaseView;
#[allow(unused_imports)]
use crate::db::table::{distinct, position, table, table_holds_the_rows, Row};
use crate::db::Database;
use crate::error::{invalid_state, AppError};
#[allow(unused_imports)]
use crate::error::{outcome, AppErrorView};
#[allow(unused_imports)]
use crate::model::{DeploymentRowView, ProjectStateRowView};
use crate::model::{DeploymentRow, ProjectStateRow};
#[allow(unused_imports)]
use crate::text::{signed_decimal, str_debug};
use crate::text::{cat2, cat4, cat5, debug_text, signed_decimal_text, text_eq};

verus! {

/// The database with the given rows.
pub open spec fn tables(
    deployments: Seq<DeploymentRowView>,
    projects: Seq<ProjectStateRowView>,
) -> DatabaseView {
    DatabaseView { deployments: table(deployments), projects: table(projects) }
}

/// Whether no two rows share what tells them apart: deployments their identifiers and event keys,
/// and projects their identifiers.
pub open spec fn keys_distinct(
    deployments: Seq<DeploymentRowView>,
    projects: Seq<ProjectStateRowView>,
) -> bool {
    &&& distinct(deployments)
    &&& distinct(projects)
    &&& forall|i: int, j: int|
        0 <= i < j < deployments.len() ==> (#[trigger] deployments[i]).event_key != (
        #[trigger] deployments[j]).event_key
}

/// The database that rows hold, whatever else they say. The tables know their rows by their keys,
/// so they give none twice.
pub open spec fn stored(rows: Seq<DeploymentRowView>, projects: Seq<ProjectStateRowView>) -> Result<
    DatabaseView,
    AppErrorView,
> {
    if keys_distinct(rows, projects) {
        Ok(tables(rows, projects))
    } else {
        Err(AppErrorView::InvalidState { reason: "stored rows share a key"@ })
    }
}

fn ids_distinct(list: &Vec<DeploymentRow>) -> (result: bool)
    ensures
        result == distinct(list.deep_view()),
{
    let ghost rows = list.deep_view();
    let mut i: usize = 0;
    while i < list.len()
        invariant
            i <= list.len(),
            rows == list.deep_view(),
            forall|a: int, b: int|
                0 <= a < b < i ==> (#[trigger] rows[a]).key() != (#[trigger] rows[b]).key(),
        decreases list.len() - i,
    {
        let mut k: usize = 0;
        while k < i
            invariant
                k <= i < list.len(),
                rows == list.deep_view(),
                forall|a: int| 0 <= a < k ==> (#[trigger] rows[a]).key() != rows[i as int].key(),
            decreases i - k,
        {
            assert(rows[k as int] == list[k as int]@);
            assert(rows[i as int] == list[i as int]@);
            if text_eq(list[k].id.as_str(), list[i].id.as_str()) {
                assert(rows[k as int].key() == rows[i as int].key());
                return false;
            }
            k += 1;
        }
        i += 1;
    }
    true
}

fn project_ids_distinct(list: &Vec<ProjectStateRow>) -> (result: bool)
    ensures
        result == distinct(list.deep_view()),
{
    let ghost rows = list.deep_view();
    let mut i: usize = 0;
    while i < list.len()
        invariant
            i <= list.len(),
            rows == list.deep_view(),
            forall|a: int, b: int|
                0 <= a < b < i ==> (#[trigger] rows[a]).key() != (#[trigger] rows[b]).key(),
        decreases list.len() - i,
    {
        let mut k: usize = 0;
        while k < i
            invariant
                k <= i < list.len(),
                rows == list.deep_view(),
                forall|a: int| 0 <= a < k ==> (#[trigger] rows[a]).key() != rows[i as int].key(),
            decreases i - k,
        {
            assert(rows[k as int] == list[k as int]@);
            assert(rows[i as int] == list[i as int]@);
            if text_eq(list[k].project_id.as_str(), list[i].project_id.as_str()) {
                assert(rows[k as int].key() == rows[i as int].key());
                return false;
            }
            k += 1;
        }
        i += 1;
    }
    true
}

fn events_distinct(list: &Vec<DeploymentRow>) -> (result: bool)
    ensures
        result == (forall|i: int, j: int|
            0 <= i < j < list.len() ==> (#[trigger] list.deep_view()[i]).event_key != (
            #[trigger] list.deep_view()[j]).event_key),
{
    let ghost rows = list.deep_view();
    let mut i: usize = 0;
    while i < list.len()
        invariant
            i <= list.len(),
            rows == list.deep_view(),
            forall|a: int, b: int|
                0 <= a < b < i ==> (#[trigger] rows[a]).event_key != (#[trigger] rows[b]).event_key,
        decreases list.len() - i,
    {
        let mut k: usize = 0;
        while k < i
            invariant
                k <= i < list.len(),
                rows == list.deep_view(),
                forall|a: int|
                    0 <= a < k ==> (#[trigger] rows[a]).event_key != rows[i as int].event_key,
            decreases i - k,
        {
            assert(rows[k as int] == list[k as int]@);
            assert(rows[i as int] == list[i as int]@);
            if text_eq(list[k].event_key.as_str(), list[i].event_key.as_str()) {
                assert(rows[k as int].event_key == rows[i as int].event_key);
                return false;
            }
            k += 1;
        }
        i += 1;
    }
    true
}

proof fn tables_are_valid(deployments: Seq<DeploymentRowView>, projects: Seq<ProjectStateRowView>)
    requires
        distinct(deployments),
        distinct(projects),
    ensures
        tables(deployments, projects).valid() <==> keys_distinct(deployments, projects),
{
    let db = tables(deployments, projects);
    table_holds_the_rows(deployments);
    table_holds_the_rows(projects);
    assert forall|id: Seq<char>| #[trigger] db.deployments.contains_key(
        id,
    ) implies db.deployments[id].id == id by {
        let i = position(deployments, id);
        assert(deployments[i].key() == id);
    }
    assert forall|id: Seq<char>| #[trigger] db.projects.contains_key(
        id,
    ) implies db.projects[id].project_id == id by {
        let i = position(projects, id);
        assert(projects[i].key() == id);
    }
    if keys_distinct(deployments, projects) {
        assert forall|a: Seq<char>, b: Seq<char>|
            #![trigger db.deployments[a], db.deployments[b]]
            db.deployments.contains_key(a) && db.deployments.contains_key(b) && a
                != b implies db.deployments[a].event_key != db.deployments[b].event_key by {
            let i = position(deployments, a);
            let j = position(deployments, b);
            assert(deployments[i].key() == a);
            assert(deployments[j].key() == b);
            if i < j {
                assert(deployments[i].event_key != deployments[j].event_key);
            } else {
                assert(deployments[j].event_key != deployments[i].event_key);
            }
        }
    }
    if db.valid() {
        assert forall|i: int, j: int| 0 <= i < j < deployments.len() implies (
        #[trigger] deployments[i]).event_key != (#[trigger] deployments[j]).event_key by {
            let a = deployments[i].key();
            let b = deployments[j].key();
            assert(a != b);
            assert(db.deployments[a].event_key != db.deployments[b].event_key);
        }
    }
}

impl Database {
    /// The database that rows hold.
    pub fn load(rows: Vec<DeploymentRow>, projects: Vec<ProjectStateRow>) -> (result: Result<
        Database,
        AppError,
    >)
        ensures
            match result {
                Ok(database) => database.wf() && stored(rows.deep_view(), projects.deep_view())
                    == Ok::<DatabaseView, AppErrorView>(database@),
                Err(error) => stored(rows.deep_view(), projects.deep_view()) == Err::<
                    DatabaseView,
                    AppErrorView,
                >(error@),
            },
    {
        if ids_distinct(&rows) && project_ids_distinct(&projects) && events_distinct(&rows) {
            proof {
                tables_are_valid(rows.deep_view(), projects.deep_view());
            }
            let database = Database { deployments: rows, projects };
            assert(database@ == tables(rows.deep_view(), projects.deep_view()));
            return Ok(database);
        }
        Err(invalid_state("stored rows share a key".to_owned()))
    }

    /// The rows that hold the database. Reading them back gives the same database.
    pub fn rows(&self) -> (rows: (Vec<DeploymentRow>, Vec<ProjectStateRow>))
        requires
            self.wf(),
        ensures
            stored(rows.0.deep_view(), rows.1.deep_view()) == Ok::<DatabaseView, AppErrorView>(
                self@,
            ),
    {
        let mut deployments: Vec<DeploymentRow> = Vec::new();
        let mut i: usize = 0;
        while i < self.deployments.len()
            invariant
                i <= self.deployments.len(),
                deployments@ == self.deployments@.take(i as int),
            decreases self.deployments.len() - i,
        {
            deployments.push(self.deployments[i].copy());
            i += 1;
        }
        assert(deployments@ =~= self.deployments@);
        assert(deployments.deep_view() =~= self.deployments.deep_view());
        let mut projects: Vec<ProjectStateRow> = Vec::new();
        let mut k: usize = 0;
        while k < self.projects.len()
            invariant
                k <= self.projects.len(),
                projects@ == self.projects@.take(k as int),
            decreases self.projects.len() - k,
        {
            projects.push(self.projects[k].copy());
            k += 1;
        }
        assert(projects@ =~= self.projects@);
        assert(projects.deep_view() =~= self.projects.deep_view());
        proof {
            tables_are_valid(deployments.deep_view(), projects.deep_view());
        }
        assert(self@ == tables(deployments.deep_view(), projects.deep_view()));
        (deployments, projects)
    }
}

/// What brings stored tables to the current schema.
#[derive(Debug, Clone, Copy, PartialEq, Eq, Structural)]
pub enum SchemaPlan {
    /// The table of deployments is created.
    Create,
    /// The table of deployments is rebuilt, and projects get the flag that stops them.
    RebuildAndAddStopped,
    /// Projects get the flag that stops them.
    AddStopped,
    /// Nothing is done.
    Keep,
}

/// What brings tables of a schema version to the current one, by the number of tables of
/// deployments.
pub open spec fn schema_plan(schema_version: i64, table_count: i64) -> Result<
    SchemaPlan,
    AppErrorView,
> {
    if schema_version == 0 && table_count == 0 {
        Ok(SchemaPlan::Create)
    } else if schema_version == 0 && table_count == 1 {
        Ok(SchemaPlan::RebuildAndAddStopped)
    } else if schema_version == 1 && table_count == 1 {
        Ok(SchemaPlan::AddStopped)
    } else if schema_version == 2 && table_count == 1 {
        Ok(SchemaPlan::Keep)
    } else {
        Err(
            AppErrorView::InvalidState {
                reason: "unsupported deployment database schema version "@ + signed_decimal(
                    schema_version as int,
                ) + " with deployments table count "@ + signed_decimal(table_count as int),
            },
        )
    }
}

impl DeepView for SchemaPlan {
    type V = SchemaPlan;

    open spec fn deep_view(&self) -> SchemaPlan {
        *self
    }
}

/// What brings tables of a schema version to the current one.
pub fn plan_schema(schema_version: i64, table_count: i64) -> (result: Result<SchemaPlan, AppError>)
    ensures
        outcome(result) == schema_plan(schema_version, table_count),
{
    if schema_version == 0 && table_count == 0 {
        Ok(SchemaPlan::Create)
    } else if schema_version == 0 && table_count == 1 {
        Ok(SchemaPlan::RebuildAndAddStopped)
    } else if schema_version == 1 && table_count == 1 {
        Ok(SchemaPlan::AddStopped)
    } else if schema_version == 2 && table_count == 1 {
        Ok(SchemaPlan::Keep)
    } else {
        Err(
            invalid_state(
                cat4(
                    "unsupported deployment database schema version ",
                    signed_decimal_text(schema_version).as_str(),
                    " with deployments table count ",
                    signed_decimal_text(table_count).as_str(),
                ),
            ),
        )
    }
}

/// The columns and rules of the table of deployments, up to the name of the table itself.
pub const TABLE_COLUMNS: &'static str = " (\n            id TEXT PRIMARY KEY NOT NULL,\n            project_id TEXT NOT NULL,\n            event_key TEXT NOT NULL UNIQUE,\n            kind TEXT NOT NULL CHECK (kind IN ('deploy', 'rollback')),\n            tag TEXT NOT NULL,\n            requested_sha TEXT NOT NULL,\n            commit_sha TEXT,\n            release_path TEXT,\n            previous_release_path TEXT,\n            status TEXT NOT NULL CHECK (status IN (\n                'queued', 'fetching', 'building', 'migrating', 'activating',\n                'healthChecking', 'rollingBack', 'succeeded', 'failed', 'rollbackFailed'\n            )),\n            error_code TEXT,\n            error_message TEXT,\n            retry_of TEXT,\n            created_at TEXT NOT NULL,\n            updated_at TEXT NOT NULL,\n            completed_at TEXT,\n            FOREIGN KEY (project_id) REFERENCES project_state(project_id),\n            FOREIGN KEY (retry_of) REFERENCES ";

/// The statement that creates the table of deployments under one of its two names.
pub fn create_deployments_table_sql(table_name: &str) -> (result: Result<String, AppError>)
    ensures
        outcome(result) == (if table_name@ == "deployments"@ || table_name@ == "deployments_v1"@ {
            Ok::<Seq<char>, AppErrorView>(
                "\n        CREATE TABLE "@ + table_name@ + TABLE_COLUMNS@ + table_name@
                    + "(id)\n        ) STRICT\n        "@,
            )
        } else {
            Err(
                AppErrorView::InvalidState {
                    reason: "unsupported internal deployments table name "@ + str_debug(
                        table_name@,
                    ),
                },
            )
        }),
{
    if !text_eq(table_name, "deployments") && !text_eq(table_name, "deployments_v1") {
        return Err(
            invalid_state(
                cat2(
                    "unsupported internal deployments table name ",
                    debug_text(table_name).as_str(),
                ),
            ),
        );
    }
    Ok(
        cat5(
            "\n        CREATE TABLE ",
            table_name,
            TABLE_COLUMNS,
            table_name,
            "(id)\n        ) STRICT\n        ",
        ),
    )
}

/// Tables are made where there are none, kept as they are where they are current, and brought up
/// where they are older; other versions and numbers of tables are refused.
pub proof fn known_schemas_are_brought_up(schema_version: i64, table_count: i64)
    ensures
        schema_plan(schema_version, table_count) is Ok <==> (schema_version == 0 && table_count
            == 0) || (0 <= schema_version <= 2 && table_count == 1),
        schema_plan(schema_version, table_count) matches Ok(plan) ==> {
            &&& plan is Create <==> table_count == 0
            &&& plan is Keep <==> schema_version == 2
            &&& plan is AddStopped <==> schema_version == 1
            &&& plan is RebuildAndAddStopped <==> schema_version == 0 && table_count == 1
        },
{
}

/// Rows are taken exactly if no two deployments share an identifier or an event key and no two
/// projects share an identifier; each row then stands under its identifier, and nothing else does.
pub proof fn stored_rows_are_told_apart(
    rows: Seq<DeploymentRowView>,
    projects: Seq<ProjectStateRowView>,
)
    ensures
        stored(rows, projects) is Ok <==> {
            &&& forall|i: int, j: int|
                0 <= i < j < rows.len() ==> (#[trigger] rows[i]).id != (#[trigger] rows[j]).id
                    && rows[i].event_key != rows[j].event_key
            &&& forall|i: int, j: int|
                0 <= i < j < projects.len() ==> (#[trigger] projects[i]).project_id != (
                #[trigger] projects[j]).project_id
        },
        stored(rows, projects) matches Ok(db) ==> {
            &&& forall|i: int|
                0 <= i < rows.len() ==> db.deployments.contains_key((#[trigger] rows[i]).id)
                    && db.deployments[rows[i].id] == rows[i]
            &&& forall|id: Seq<char>| #[trigger]
                db.deployments.contains_key(id) ==> exists|i: int|
                    0 <= i < rows.len() && (#[trigger] rows[i]).id == id
            &&& forall|i: int|
                0 <= i < projects.len() ==> db.projects.contains_key(
                    (#[trigger] projects[i]).project_id,
                ) && db.projects[projects[i].project_id] == projects[i]
            &&& forall|id: Seq<char>| #[trigger]
                db.projects.contains_key(id) ==> exists|i: int|
                    0 <= i < projects.len() && (#[trigger] projects[i]).project_id == id
        },
{
    if forall|i: int, j: int|
        0 <= i < j < rows.len() ==> (#[trigger] rows[i]).id != (#[trigger] rows[j]).id
            && rows[i].event_key != rows[j].event_key {
        assert forall|i: int, j: int| 0 <= i < j < rows.len() implies (#[trigger] rows[i]).key()
            != (#[trigger] rows[j]).key() by {
            assert(rows[i].id != rows[j].id);
        }
    }
    if distinct(rows) {
        table_holds_the_rows(rows);
        assert forall|i: int, j: int| 0 <= i < j < rows.len() implies (#[trigger] rows[i]).id != (
        #[trigger] rows[j]).id by {
            assert(rows[i].key() != rows[j].key());
        }
        assert forall|i: int| 0 <= i < rows.len() implies table(rows).contains_key(
            (#[trigger] rows[i]).id,
        ) && table(rows)[rows[i].id] == rows[i] by {
            assert(table(rows).contains_key(rows[i].key()));
        }
        assert forall|id: Seq<char>| #[trigger] table(rows).contains_key(
            id,
        ) implies exists|i: int| 0 <= i < rows.len() && (#[trigger] rows[i]).id == id by {
            let i = choose|i: int| 0 <= i < rows.len() && (#[trigger] rows[i]).key() == id;
            assert(rows[i].id == id);
        }
    }
    if forall|i: int, j: int|
        0 <= i < j < projects.len() ==> (#[trigger] projects[i]).project_id != (
        #[trigger] projects[j]).project_id {
        assert forall|i: int, j: int| 0 <= i < j < projects.len() implies (
        #[trigger] projects[i]).key() != (#[trigger] projects[j]).key() by {
            assert(projects[i].project_id != projects[j].project_id);
        }
    }
    if distinct(projects) {
        table_holds_the_rows(projects);
        assert forall|i: int, j: int| 0 <= i < j < projects.len() implies (
        #[trigger] projects[i]).project_id != (#[trigger] projects[j]).project_id by {
            assert(projects[i].key() != projects[j].key());
        }
        assert forall|i: int| 0 <= i < projects.len() implies table(projects).contains_key(
            (#[trigger] projects[i]).project_id,
        ) && table(projects)[projects[i].project_id] == projects[i] by {
            assert(table(projects).contains_key(projects[i].key()));
        }
        assert forall|id: Seq<char>| #[trigger] table(projects).contains_key(
            id,
        ) implies exists|i: int|
            0 <= i < projects.len() && (#[trigger] projects[i]).project_id == id by {
            let i = choose|i: int| 0 <= i < projects.len() && (#[trigger] projects[i]).key() == id;
            assert(projects[i].project_id == id);
        }
    }
}

} // verus!
