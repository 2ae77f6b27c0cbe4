//! The schema check over the inputs of a rewrite, and the plan the rewrite follows.

use vstd::prelude::*;
use crate::projection::{project_fields, selected, texts};

verus! {

/// One top-level field of a logical schema: its name, the text of its data type
/// (nested fields included), and whether it is nullable.
#[derive(Debug, Clone, PartialEq)]
pub struct SchemaField {
    pub name: String,
    pub data_type: String,
    pub nullable: bool,
}

impl View for SchemaField {
    type V = (Seq<char>, Seq<char>, bool);

    open spec fn view(&self) -> (Seq<char>, Seq<char>, bool) {
        (self.name@, self.data_type@, self.nullable)
    }
}

/// A schema as plain values: its fields in order.
pub open spec fn schema_view(s: Seq<SchemaField>) -> Seq<(Seq<char>, Seq<char>, bool)> {
    s.map_values(|f: SchemaField| f@)
}

/// Why a rewrite cannot go ahead.
#[derive(Debug, Clone, PartialEq)]
pub enum CliError {
    /// No input file was given.
    EmptyInput,
    /// The input at this position has a schema other than the first input's.
    SchemaMismatch(usize),
}

/// Whether two schemas are structurally equal: same fields, in the same order,
/// with the same names, types and nullability.
pub fn same_schema(a: &Vec<SchemaField>, b: &Vec<SchemaField>) -> (r: bool)
    ensures
        r == (schema_view(a@) == schema_view(b@)),
{
    if a.len() != b.len() {
        proof {
            assert(schema_view(a@).len() != schema_view(b@).len());
        }
        return false;
    }
    let mut i: usize = 0;
    while i < a.len()
        invariant
            i <= a@.len(),
            a@.len() == b@.len(),
            forall|k: int| 0 <= k < i ==> (#[trigger] a@[k])@ == b@[k]@,
        decreases a@.len() - i,
    {
        if !(a[i].name == b[i].name && a[i].data_type == b[i].data_type && a[i].nullable
            == b[i].nullable) {
            proof {
                assert(schema_view(a@)[i as int] != schema_view(b@)[i as int]);
            }
            return false;
        }
        i = i + 1;
    }
    assert(schema_view(a@) =~= schema_view(b@));
    true
}

/// The first position whose schema differs from the first schema, if any.
pub open spec fn first_mismatch(schemas: Seq<Vec<SchemaField>>, i: int) -> bool {
    &&& 0 < i < schemas.len()
    &&& schema_view(schemas[i]@) != schema_view(schemas[0]@)
    &&& forall|k: int| 0 < k < i ==> schema_view((#[trigger] schemas[k])@) == schema_view(schemas[0]@)
}

/// Whether every schema equals the first.
pub open spec fn all_same(schemas: Seq<Vec<SchemaField>>) -> bool {
    forall|k: int| 0 <= k < schemas.len() ==> schema_view((#[trigger] schemas[k])@) == schema_view(schemas[0]@)
}

/// The inputs of a validated rewrite and its output target.
pub struct Modifier {
    pub input_paths: Vec<String>,
    pub output_path: String,
    pub schema: Vec<SchemaField>,
}

/// What a rewrite does: stream the rows of `sources` in this order into the
/// output, under writer settings that carry the key/value metadata of
/// `metadata_source`, keeping the fields at `kept_fields` (all where none).
pub struct RewritePlan {
    pub sources: Vec<String>,
    pub metadata_source: String,
    pub output_path: String,
    pub kept_fields: Option<Vec<usize>>,
}

impl Modifier {
    /// Validates the inputs of a rewrite, given each input's schema in input order.
    /// Fails on an empty input list, and on the first input whose schema is not
    /// the first input's; no output is touched either way.
    pub fn new(inputs: Vec<String>, output: String, schemas: Vec<Vec<SchemaField>>) -> (r: Result<
        Modifier,
        CliError,
    >)
        requires
            schemas@.len() == inputs@.len(),
        ensures
            inputs@.len() == 0 ==> r == Err::<Modifier, CliError>(CliError::EmptyInput),
            inputs@.len() > 0 ==> match r {
                Ok(m) => all_same(schemas@) && m.input_paths@ == inputs@ && m.output_path@
                    == output@ && schema_view(m.schema@) == schema_view(schemas@[0]@),
                Err(CliError::SchemaMismatch(i)) => first_mismatch(schemas@, i as int),
                Err(CliError::EmptyInput) => false,
            },
            r.is_ok() <==> inputs@.len() > 0 && all_same(schemas@),
    {
        if inputs.len() == 0 {
            return Err(CliError::EmptyInput);
        }
        let mut i: usize = 1;
        while i < schemas.len()
            invariant
                1 <= i <= schemas@.len(),
                schemas@.len() == inputs@.len(),
                forall|k: int|
                    0 <= k < i ==> schema_view((#[trigger] schemas@[k])@) == schema_view(
                        schemas@[0]@,
                    ),
            decreases schemas@.len() - i,
        {
            if !same_schema(&schemas[i], &schemas[0]) {
                return Err(CliError::SchemaMismatch(i));
            }
            i = i + 1;
        }
        let schema = first_schema(schemas);
        Ok(Modifier { input_paths: inputs, output_path: output, schema })
    }

    /// Plans a rewrite: every input in the order given, the first input's
    /// key/value metadata, and, where columns are named, only the fields so named
    /// in schema order.
    pub fn rewrite(&self, columns: &Vec<String>) -> (r: RewritePlan)
        requires
            self.input_paths@.len() > 0,
        ensures
            texts(r.sources@) == texts(self.input_paths@),
            r.metadata_source@ == self.input_paths@[0]@,
            r.output_path@ == self.output_path@,
            columns@.len() == 0 ==> r.kept_fields.is_none(),
            columns@.len() > 0 ==> r.kept_fields.is_some() && r.kept_fields.unwrap()@ == selected(
                field_names(self.schema@),
                columns@,
                self.schema@.len() as int,
            ),
    {
        let kept_fields = if columns.len() == 0 {
            None
        } else {
            let names = schema_names(&self.schema);
            assert(texts(names@) =~= field_names(self.schema@));
            Some(project_fields(&names, columns))
        };
        let sources = clone_paths(&self.input_paths);
        assert(texts(sources@) =~= texts(self.input_paths@));
        RewritePlan {
            sources,
            metadata_source: self.input_paths[0].clone(),
            output_path: self.output_path.clone(),
            kept_fields,
        }
    }
}

/// The names of a schema's fields, in order.
pub open spec fn field_names(s: Seq<SchemaField>) -> Seq<Seq<char>> {
    s.map_values(|f: SchemaField| f.name@)
}

fn schema_names(s: &Vec<SchemaField>) -> (r: Vec<String>)
    ensures
        r@.len() == s@.len(),
        forall|k: int| 0 <= k < s@.len() ==> (#[trigger] r@[k])@ == s@[k].name@,
{
    let mut out: Vec<String> = Vec::new();
    let mut i: usize = 0;
    while i < s.len()
        invariant
            i <= s@.len(),
            out@.len() == i,
            forall|k: int| 0 <= k < i ==> (#[trigger] out@[k])@ == s@[k].name@,
        decreases s@.len() - i,
    {
        out.push(s[i].name.clone());
        i = i + 1;
    }
    out
}

fn clone_paths(ps: &Vec<String>) -> (r: Vec<String>)
    ensures
        r@.len() == ps@.len(),
        forall|k: int| 0 <= k < ps@.len() ==> (#[trigger] r@[k])@ == ps@[k]@,
{
    let mut out: Vec<String> = Vec::new();
    let mut i: usize = 0;
    while i < ps.len()
        invariant
            i <= ps@.len(),
            out@.len() == i,
            forall|k: int| 0 <= k < i ==> (#[trigger] out@[k])@ == ps@[k]@,
        decreases ps@.len() - i,
    {
        out.push(ps[i].clone());
        i = i + 1;
    }
    out
}

fn first_schema(schemas: Vec<Vec<SchemaField>>) -> (r: Vec<SchemaField>)
    requires
        schemas@.len() > 0,
    ensures
        schema_view(r@) == schema_view(schemas@[0]@),
{
    let mut schemas = schemas;
    schemas.swap_remove(0)
}

} // verus!
