//! Plan nodes: schemas, the values planner, and the batch MySQL query node.
use vstd::prelude::*;

verus! {

/// A column type.
#[derive(Clone, Copy, PartialEq, Eq, Debug)]
pub enum DataType {
    Boolean,
    Int32,
    Int64,
    Varchar,
    Timestamp,
}

/// A named column of a schema.
pub struct Field {
    pub name: String,
    pub data_type: DataType,
}

/// The columns that a plan node produces.
pub struct Schema {
    pub fields: Vec<Field>,
}

/// The names of the fields, in order.
pub open spec fn field_names(fields: Seq<Field>) -> Seq<Seq<char>> {
    fields.map_values(|f: Field| f.name@)
}

/// The fields are the same, name for name and type for type.
pub open spec fn same_fields(a: Seq<Field>, b: Seq<Field>) -> bool {
    &&& a.len() == b.len()
    &&& forall|i: int|
        0 <= i < a.len() ==> (#[trigger] a[i]).name@ == b[i].name@ && a[i].data_type == b[i].data_type
}

impl Schema {
    pub fn duplicate(&self) -> (r: Schema)
        ensures
            same_fields(r.fields@, self.fields@),
    {
        let mut fields: Vec<Field> = Vec::new();
        let mut i: usize = 0;
        while i < self.fields.len()
            invariant
                i <= self.fields@.len(),
                fields@.len() == i,
                forall|k: int|
                    0 <= k < i ==> (#[trigger] fields@[k]).name@ == self.fields@[k].name@
                        && fields@[k].data_type == self.fields@[k].data_type,
            decreases self.fields@.len() - i,
        {
            let f = &self.fields[i];
            fields.push(Field { name: f.name.clone(), data_type: f.data_type });
            i = i + 1;
        }
        Schema { fields }
    }

    /// The names of the columns, in order.
    pub fn names(&self) -> (r: Vec<String>)
        ensures
            r@.map_values(|s: String| s@) == field_names(self.fields@),
    {
        let mut r: Vec<String> = Vec::new();
        let mut i: usize = 0;
        while i < self.fields.len()
            invariant
                i <= self.fields@.len(),
                r@.len() == i,
                forall|k: int| 0 <= k < i ==> (#[trigger] r@[k])@ == self.fields@[k].name@,
            decreases self.fields@.len() - i,
        {
            r.push(self.fields[i].name.clone());
            i = i + 1;
        }
        assert(r@.map_values(|s: String| s@) =~= field_names(self.fields@));
        r
    }
}

/// How the rows of a plan node are spread over the workers.
#[derive(Clone, Copy, PartialEq, Eq, Debug)]
pub enum Distribution {
    /// All rows on one node.
    Single,
    /// Any spread.
    SomeShard,
    /// Every node holds all rows.
    Broadcast,
}

/// The order the rows of a plan node come in.
#[derive(Clone, Copy, PartialEq, Eq, Debug)]
pub enum Order {
    Any,
}

/// The optimizer state that a planner shares with the plan nodes it makes.
pub struct OptimizerContextRef {
    pub normalized_sql: String,
    pub explain_verbose: bool,
}

impl OptimizerContextRef {
    pub fn duplicate(&self) -> (r: OptimizerContextRef)
        ensures
            r.normalized_sql@ == self.normalized_sql@,
            r.explain_verbose == self.explain_verbose,
    {
        OptimizerContextRef {
            normalized_sql: self.normalized_sql.clone(),
            explain_verbose: self.explain_verbose,
        }
    }
}

/// What a plan is for.
#[derive(Clone, Copy, PartialEq, Eq, Debug)]
pub enum PlanFor {
    Stream,
    /// The sink of an iceberg engine table, connected to the table node directly.
    StreamIcebergEngineInternal,
    /// Batch queries other than `SELECT`, e.g. DML.
    Batch,
    /// Batch `SELECT` queries.
    BatchDql,
}

/// A constant row of a `VALUES` list: one optional integer per column.
pub type Row = Vec<Option<i64>>;

/// A bound `VALUES` list.
pub struct BoundValues {
    pub rows: Vec<Row>,
    pub schema: Schema,
}

/// A bound statement.
pub enum BoundStatement {
    Values(BoundValues),
}

/// A logical `VALUES` node.
pub struct LogicalValues {
    pub rows: Vec<Row>,
    pub schema: Schema,
    pub ctx: OptimizerContextRef,
}

/// A logical plan.
pub enum LogicalPlan {
    Values(LogicalValues),
}

/// The root of a logical plan, with the names of its output columns.
pub struct LogicalPlanRoot {
    pub plan: LogicalPlan,
    pub out_names: Vec<String>,
}

/// Why a statement could not be planned.
#[derive(Clone, Copy, PartialEq, Eq, Debug)]
pub enum PlanError {
    /// A row's width differs from the schema's.
    RowWidthMismatch { row: usize },
}

/// A shared sub-plan, keyed by its share id.
pub struct SharedPlan {
    pub share_id: u32,
    pub plan: LogicalPlan,
}

/// Turns bound statements into logical plans.
pub struct Planner {
    pub ctx: OptimizerContextRef,
    /// The shared sub-plans (common table expressions, sources, views) met so far.
    pub share_cache: Vec<SharedPlan>,
    pub plan_for: PlanFor,
}

impl Planner {
    fn with_mode(ctx: OptimizerContextRef, plan_for: PlanFor) -> (r: Planner)
        ensures
            r.ctx == ctx,
            r.share_cache@.len() == 0,
            r.plan_for == plan_for,
    {
        Planner { ctx, share_cache: Vec::new(), plan_for }
    }

    pub fn new_for_batch_dql(ctx: OptimizerContextRef) -> (r: Planner)
        ensures
            r.ctx == ctx,
            r.share_cache@.len() == 0,
            r.plan_for == PlanFor::BatchDql,
    {
        Self::with_mode(ctx, PlanFor::BatchDql)
    }

    pub fn new_for_batch(ctx: OptimizerContextRef) -> (r: Planner)
        ensures
            r.ctx == ctx,
            r.share_cache@.len() == 0,
            r.plan_for == PlanFor::Batch,
    {
        Self::with_mode(ctx, PlanFor::Batch)
    }

    pub fn new_for_stream(ctx: OptimizerContextRef) -> (r: Planner)
        ensures
            r.ctx == ctx,
            r.share_cache@.len() == 0,
            r.plan_for == PlanFor::Stream,
    {
        Self::with_mode(ctx, PlanFor::Stream)
    }

    pub fn new_for_iceberg_table_engine_sink(ctx: OptimizerContextRef) -> (r: Planner)
        ensures
            r.ctx == ctx,
            r.share_cache@.len() == 0,
            r.plan_for == PlanFor::StreamIcebergEngineInternal,
    {
        Self::with_mode(ctx, PlanFor::StreamIcebergEngineInternal)
    }

    /// Plans a bound statement. Every row of a `VALUES` list must be as wide as its
    /// schema.
    pub fn plan(&mut self, stmt: BoundStatement) -> (r: Result<LogicalPlanRoot, PlanError>)
        ensures
            final(self).ctx == old(self).ctx,
            final(self).plan_for == old(self).plan_for,
            match stmt {
                BoundStatement::Values(v) => {
                    &&& r is Ok <==> forall|i: int|
                        0 <= i < v.rows@.len() ==> (#[trigger] v.rows@[i])@.len() == v.schema.fields@.len()
                    &&& r matches Ok(root) ==> {
                        &&& root.out_names@.map_values(|s: String| s@) == field_names(v.schema.fields@)
                        &&& root.plan matches LogicalPlan::Values(lv) && lv.rows@ == v.rows@
                            && same_fields(lv.schema.fields@, v.schema.fields@)
                            && lv.ctx.normalized_sql@ == old(self).ctx.normalized_sql@
                    }
                },
            },
    {
        match stmt {
            BoundStatement::Values(values) => {
                let out_names = values.schema.names();
                match self.plan_values(values) {
                    Ok(plan) => Ok(LogicalPlanRoot { plan, out_names }),
                    Err(e) => Err(e),
                }
            },
        }
    }

    /// Plans a `VALUES` list as a logical values node in this planner's context.
    pub fn plan_values(&mut self, values: BoundValues) -> (r: Result<LogicalPlan, PlanError>)
        ensures
            final(self).ctx == old(self).ctx,
            final(self).plan_for == old(self).plan_for,
            r is Ok <==> forall|i: int|
                0 <= i < values.rows@.len() ==> (#[trigger] values.rows@[i])@.len()
                    == values.schema.fields@.len(),
            r matches Ok(p) ==> p matches LogicalPlan::Values(lv) && lv.rows@ == values.rows@
                && same_fields(lv.schema.fields@, values.schema.fields@)
                && lv.ctx.normalized_sql@ == old(self).ctx.normalized_sql@
                && lv.ctx.explain_verbose == old(self).ctx.explain_verbose,
    {
        let width = values.schema.fields.len();
        let mut i: usize = 0;
        while i < values.rows.len()
            invariant
                i <= values.rows@.len(),
                width == values.schema.fields@.len(),
                forall|k: int| 0 <= k < i ==> (#[trigger] values.rows@[k])@.len() == width,
            decreases values.rows@.len() - i,
        {
            if values.rows[i].len() != width {
                return Err(PlanError::RowWidthMismatch { row: i });
            }
            i = i + 1;
        }
        let ghost rows = values.rows@;
        let ctx = self.ctx();
        let BoundValues { rows: r, schema } = values;
        assert(r@ == rows);
        Ok(LogicalPlan::Values(LogicalValues { rows: r, schema, ctx }))
    }

    pub fn ctx(&self) -> (r: OptimizerContextRef)
        ensures
            r.normalized_sql@ == self.ctx.normalized_sql@,
            r.explain_verbose == self.ctx.explain_verbose,
    {
        self.ctx.duplicate()
    }

    pub fn plan_for(&self) -> (r: PlanFor)
        ensures
            r == self.plan_for,
    {
        self.plan_for
    }
}

/// The generic part of a MySQL query node: the remote table's columns and where and
/// how to query it.
pub struct MySqlQuery {
    pub schema: Schema,
    pub hostname: String,
    pub port: String,
    pub username: String,
    pub password: String,
    pub database: String,
    pub query: String,
}

impl MySqlQuery {
    pub fn duplicate(&self) -> (r: MySqlQuery)
        ensures
            r.same_as(self),
    {
        MySqlQuery {
            schema: self.schema.duplicate(),
            hostname: self.hostname.clone(),
            port: self.port.clone(),
            username: self.username.clone(),
            password: self.password.clone(),
            database: self.database.clone(),
            query: self.query.clone(),
        }
    }

    pub open spec fn same_as(&self, o: &MySqlQuery) -> bool {
        &&& same_fields(self.schema.fields@, o.schema.fields@)
        &&& self.hostname@ == o.hostname@
        &&& self.port@ == o.port@
        &&& self.username@ == o.username@
        &&& self.password@ == o.password@
        &&& self.database@ == o.database@
        &&& self.query@ == o.query@
    }
}

/// The properties every batch plan node has.
pub struct PlanBase {
    pub schema: Schema,
    pub distribution: Distribution,
    pub order: Order,
}

/// A batch node that runs a query on a MySQL server; its rows all come to one node.
pub struct BatchMySqlQuery {
    pub base: PlanBase,
    pub core: MySqlQuery,
}

/// A column of a plan node as sent to the workers.
pub struct ColumnDesc {
    pub column_index: u32,
    pub name: String,
    pub data_type: DataType,
}

/// The body of a MySQL query node as sent to the workers.
pub struct MySqlQueryNode {
    pub columns: Vec<ColumnDesc>,
    pub hostname: String,
    pub port: String,
    pub username: String,
    pub password: String,
    pub database: String,
    pub query: String,
}

impl BatchMySqlQuery {
    pub fn new(core: MySqlQuery) -> (r: Self)
        ensures
            same_fields(r.base.schema.fields@, core.schema.fields@),
            r.base.distribution == Distribution::Single,
            r.base.order == Order::Any,
            r.core == core,
    {
        let base = PlanBase { schema: core.schema.duplicate(), distribution: Distribution::Single, order: Order::Any };
        BatchMySqlQuery { base, core }
    }

    /// The names of the output columns, in order.
    pub fn column_names(&self) -> (r: Vec<String>)
        ensures
            r@.map_values(|s: String| s@) == field_names(self.base.schema.fields@),
    {
        self.base.schema.names()
    }

    /// A copy of this node with its rows on a single node.
    pub fn clone_with_dist(&self) -> (r: Self)
        ensures
            same_fields(r.base.schema.fields@, self.base.schema.fields@),
            r.base.distribution == Distribution::Single,
            r.base.order == self.base.order,
            r.core.same_as(&self.core),
    {
        let base = PlanBase {
            schema: self.base.schema.duplicate(),
            distribution: Distribution::Single,
            order: self.base.order,
        };
        BatchMySqlQuery { base, core: self.core.duplicate() }
    }

    /// This node for local execution.
    pub fn to_local(&self) -> (r: Result<Self, PlanError>)
        ensures
            r matches Ok(n) && n.base.distribution == Distribution::Single && n.core.same_as(&self.core),
    {
        Ok(self.clone_with_dist())
    }

    /// This node for distributed execution.
    pub fn to_distributed(&self) -> (r: Result<Self, PlanError>)
        ensures
            r matches Ok(n) && n.base.distribution == Distribution::Single && n.core.same_as(&self.core),
    {
        Ok(self.clone_with_dist())
    }

    /// The body of this node as sent to the workers: one column per field of the
    /// query's schema, and the connection and query as they are.
    pub fn to_batch_prost_body(&self) -> (r: MySqlQueryNode)
        requires
            self.core.schema.fields@.len() <= u32::MAX,
        ensures
            r.columns@.len() == self.core.schema.fields@.len(),
            forall|i: int|
                0 <= i < r.columns@.len() ==> (#[trigger] r.columns@[i]).column_index == i
                    && r.columns@[i].name@ == self.core.schema.fields@[i].name@
                    && r.columns@[i].data_type == self.core.schema.fields@[i].data_type,
            r.hostname@ == self.core.hostname@,
            r.port@ == self.core.port@,
            r.username@ == self.core.username@,
            r.password@ == self.core.password@,
            r.database@ == self.core.database@,
            r.query@ == self.core.query@,
    {
        let fields = &self.core.schema.fields;
        let mut columns: Vec<ColumnDesc> = Vec::new();
        let mut i: usize = 0;
        while i < fields.len()
            invariant
                i <= fields@.len(),
                fields@.len() <= u32::MAX,
                fields == &self.core.schema.fields,
                columns@.len() == i,
                forall|k: int|
                    0 <= k < i ==> (#[trigger] columns@[k]).column_index == k
                        && columns@[k].name@ == fields@[k].name@
                        && columns@[k].data_type == fields@[k].data_type,
            decreases fields@.len() - i,
        {
            columns.push(
                ColumnDesc {
                    column_index: i as u32,
                    name: fields[i].name.clone(),
                    data_type: fields[i].data_type,
                },
            );
            i = i + 1;
        }
        MySqlQueryNode {
            columns,
            hostname: self.core.hostname.clone(),
            port: self.core.port.clone(),
            username: self.core.username.clone(),
            password: self.core.password.clone(),
            database: self.core.database.clone(),
            query: self.core.query.clone(),
        }
    }
}

} // verus!
