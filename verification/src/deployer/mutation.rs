//! Deploying GraphQL mutations: the requests that set up an API, and the
//! APIs a teardown removes.
use vstd::prelude::*;
use crate::text::{copy_pairs, pairs_view};
use crate::topology::Mutation;

verus! {

/// A data source of a GraphQL API: the kind of its target, its name (the
/// field it resolves), the role it assumes and its target.
#[derive(Debug, PartialEq, Eq)]
pub struct DatasourceInput {
    pub kind: String,
    pub name: String,
    pub role_arn: String,
    pub target_arn: String,
}

/// One request of deploying a mutation.
#[derive(Debug, PartialEq, Eq)]
pub enum MutationStep {
    /// Create or update API `api_name`, authorized by function `authorizer`.
    Api { api_name: String, authorizer: String },
    /// Allow service `principal` to invoke the authorizer, under statement
    /// `statement_id`.
    Permission { principal: String, statement_id: String },
    /// Create the API's types (name and definition).
    Types { types: Vec<(String, String)> },
    /// Say which field is being set up.
    Announce { message: String },
    /// Find or create the data source of a field.
    Datasource { input: DatasourceInput },
    /// Create or update the function of `field`, over data source `datasource`.
    Function { field: String, datasource: String },
    /// Find or create the resolver of `field`, over data source `datasource`.
    Resolver { field: String, datasource: String },
}

/// Whether `d` is the data source of field `field` served by `kind` target
/// `target_arn`, assuming `role_arn`.
pub open spec fn is_datasource(
    d: DatasourceInput,
    field: Seq<char>,
    kind: Seq<char>,
    role_arn: Seq<char>,
    target_arn: Seq<char>,
) -> bool {
    &&& d.name@ == field
    &&& d.kind@ == kind
    &&& d.role_arn@ == role_arn
    &&& d.target_arn@ == target_arn
}

/// Whether `steps`, from position `at`, are the four requests that set up
/// field `j` of `m`: the announcement, then the field's data source (named
/// after the field), then its function, then its resolver.
pub open spec fn sets_up_field(steps: Seq<MutationStep>, at: int, m: Mutation, j: int) -> bool {
    let field = m.resolvers@[j].0@;
    &&& steps[at] matches MutationStep::Announce { message } && message@ == "Creating mutation "@
        + field
    &&& steps[at + 1] matches MutationStep::Datasource { input } && is_datasource(
        input,
        field,
        m.resolvers@[j].1.kind@,
        m.role_arn@,
        m.resolvers@[j].1.target_arn@,
    )
    &&& steps[at + 2] matches MutationStep::Function { field: f, datasource: d } && f@ == field
        && d@ == field
    &&& steps[at + 3] matches MutationStep::Resolver { field: f, datasource: d } && f@ == field
        && d@ == field
}

/// Whether `steps` are, in order, the requests that deploy `m`: the API
/// first, then the permission for AppSync to call its authorizer, then its
/// types, then the four requests of each field, field after field.
pub open spec fn deploys(steps: Seq<MutationStep>, m: Mutation) -> bool {
    &&& steps.len() == 3 + 4 * m.resolvers@.len()
    &&& steps[0] matches MutationStep::Api { api_name, authorizer } && api_name@ == m.api_name@
        && authorizer@ == m.authorizer@
    &&& steps[1] matches MutationStep::Permission { principal, statement_id } && principal@
        == "appsync.amazonaws.com"@ && statement_id@ == m.api_name@
    &&& steps[2] matches MutationStep::Types { types } && pairs_view(types@) == pairs_view(
        m.types@,
    )
    &&& forall|j: int| 0 <= j < m.resolvers@.len() ==> #[trigger] sets_up_field(steps, 3 + 4 * j, m, j)
}

/// The requests that deploy `mutation`, in order.
pub fn create_mutation(mutation: &Mutation) -> (steps: Vec<MutationStep>)
    requires
        mutation.well_formed(),
    ensures
        deploys(steps@, *mutation),
{
    let mut steps: Vec<MutationStep> = Vec::new();
    steps.push(
        MutationStep::Api {
            api_name: mutation.api_name.clone(),
            authorizer: mutation.authorizer.clone(),
        },
    );
    steps.push(
        MutationStep::Permission {
            principal: String::from_str("appsync.amazonaws.com"),
            statement_id: mutation.api_name.clone(),
        },
    );
    steps.push(MutationStep::Types { types: copy_pairs(&mutation.types) });
    let mut j: usize = 0;
    while j < mutation.resolvers.len()
        invariant
            j <= mutation.resolvers.len(),
            steps.len() == 3 + 4 * j,
            steps@[0] matches MutationStep::Api { api_name, authorizer } && api_name@
                == mutation.api_name@ && authorizer@ == mutation.authorizer@,
            steps@[1] matches MutationStep::Permission { principal, statement_id } && principal@
                == "appsync.amazonaws.com"@ && statement_id@ == mutation.api_name@,
            steps@[2] matches MutationStep::Types { types } && pairs_view(types@) == pairs_view(
                mutation.types@,
            ),
            forall|k: int| 0 <= k < j ==> #[trigger] sets_up_field(steps@, 3 + 4 * k, *mutation, k),
        decreases mutation.resolvers.len() - j,
    {
        let (field_name, resolver) = &mutation.resolvers[j];
        let datasource = DatasourceInput {
            kind: resolver.kind.clone(),
            name: field_name.clone(),
            role_arn: mutation.role_arn.clone(),
            target_arn: resolver.target_arn.clone(),
        };
        let mut message = String::from_str("Creating mutation ");
        message.append(field_name.as_str());
        let ghost before = steps@;
        steps.push(MutationStep::Announce { message });
        steps.push(MutationStep::Datasource { input: datasource });
        steps.push(MutationStep::Function { field: field_name.clone(), datasource: field_name.clone() });
        steps.push(MutationStep::Resolver { field: field_name.clone(), datasource: field_name.clone() });
        assert forall|k: int| 0 <= k < j + 1 implies #[trigger] sets_up_field(
            steps@,
            3 + 4 * k,
            *mutation,
            k,
        ) by {
            if k < j {
                assert(sets_up_field(before, 3 + 4 * k, *mutation, k));
                assert(steps@[3 + 4 * k] == before[3 + 4 * k]);
                assert(steps@[3 + 4 * k + 1] == before[3 + 4 * k + 1]);
                assert(steps@[3 + 4 * k + 2] == before[3 + 4 * k + 2]);
                assert(steps@[3 + 4 * k + 3] == before[3 + 4 * k + 3]);
            }
        }
        j = j + 1;
    }
    steps
}

/// The requests that deploy each mutation of `mutations`, in order.
pub fn create(mutations: &Vec<(String, Mutation)>) -> (plans: Vec<Vec<MutationStep>>)
    requires
        forall|i: int| 0 <= i < mutations.len() ==> (#[trigger] mutations[i]).1.well_formed(),
    ensures
        plans.len() == mutations.len(),
        forall|i: int| 0 <= i < plans.len() ==> deploys(#[trigger] plans[i]@, mutations[i].1),
{
    let mut plans: Vec<Vec<MutationStep>> = Vec::new();
    let mut i: usize = 0;
    while i < mutations.len()
        invariant
            i <= mutations.len(),
            plans.len() == i,
            forall|k: int| 0 <= k < mutations.len() ==> (#[trigger] mutations[k]).1.well_formed(),
            forall|k: int| 0 <= k < i ==> deploys(#[trigger] plans[k]@, mutations[k].1),
        decreases mutations.len() - i,
    {
        plans.push(create_mutation(&mutations[i].1));
        i = i + 1;
    }
    plans
}

/// The APIs a teardown deletes: that of each mutation, in order.
pub fn delete(mutations: &Vec<(String, Mutation)>) -> (names: Vec<String>)
    ensures
        names.len() == mutations.len(),
        forall|i: int| 0 <= i < names.len() ==> #[trigger] names[i]@ == mutations[i].1.api_name@,
{
    let mut names: Vec<String> = Vec::new();
    let mut i: usize = 0;
    while i < mutations.len()
        invariant
            i <= mutations.len(),
            names.len() == i,
            forall|k: int| 0 <= k < i ==> #[trigger] names[k]@ == mutations[k].1.api_name@,
        decreases mutations.len() - i,
    {
        names.push(mutations[i].1.api_name.clone());
        i = i + 1;
    }
    names
}

} // verus!
