//! Step Function executions: reading an execution ARN and choosing the
//! console view of a run.
use vstd::prelude::*;
use crate::env::Env;
use crate::text::{
    fields, nth_field, split, nth, tail_of, tail_after, lemma_last_field_is_tail,
    lemma_tail_after_shape, str_eq, join, lemma_fields_of_join,
};

verus! {

/// The id of an execution: the last `:`-separated field of its ARN.
pub fn get_id(arn: &str) -> (r: String)
    ensures
        r@ == fields(arn@, ':').last(),
        !r@.contains(':'),
        r@.len() <= arn@.len(),
        arn@ == arn@.take(arn@.len() - r@.len()) + r@,
        r@.len() < arn@.len() ==> arn@[arn@.len() - r@.len() - 1] == ':',
{
    proof {
        lemma_last_field_is_tail(arn@, ':');
        lemma_tail_after_shape(arn@, ':');
        assert(arn@ =~= arn@.take(arn@.len() - tail_after(arn@, ':').len()) + tail_after(arn@, ':'));
    }
    tail_of(arn, ':')
}

/// The state machine name of an execution: field 6 of its ARN split on `:`,
/// or the empty text where the ARN has fewer fields.
pub fn name_of(arn: &str) -> (r: String)
    ensures
        r@ == nth_field(arn@, ':', 6),
{
    let parts = split(arn, ':');
    nth(&parts, 6)
}

/// Which console page shows an execution.
#[derive(Debug, PartialEq, Eq)]
pub enum ExecutionConsole {
    /// An express execution of state machine `name`, shown by its ARN.
    Express { name: String, exec_arn: String },
    /// A standard execution, shown by state machine name and execution id.
    Standard { name: String, id: String },
}

/// Whether `c` is the console page of execution `exec_arn` of a state
/// machine in `mode`: express executions are shown by their ARN, others by
/// state machine name and execution id.
pub open spec fn shows_execution(c: ExecutionConsole, mode: Seq<char>, exec_arn: Seq<char>) -> bool {
    match c {
        ExecutionConsole::Express { name, exec_arn: a } => {
            &&& mode == "Express"@
            &&& name@ == nth_field(exec_arn, ':', 6)
            &&& a@ == exec_arn
        },
        ExecutionConsole::Standard { name, id } => {
            &&& mode != "Express"@
            &&& name@ == nth_field(exec_arn, ':', 6)
            &&& id@ == fields(exec_arn, ':').last()
        },
    }
}

/// The console page for execution `exec_arn` of a state machine in `mode`.
pub fn open_execution(mode: &str, exec_arn: &str) -> (r: ExecutionConsole)
    ensures
        shows_execution(r, mode@, exec_arn@),
{
    let name = name_of(exec_arn);
    if str_eq(mode, "Express") {
        ExecutionConsole::Express { name, exec_arn: String::from_str(exec_arn) }
    } else {
        let id = get_id(exec_arn);
        ExecutionConsole::Standard { name, id }
    }
}

/// What follows starting execution `exec_arn` of a state machine in `mode`:
/// its console page is opened unless `dumb` keeps it closed.
pub fn execute_state_machine(mode: &str, exec_arn: &str, dumb: bool) -> (r: Option<ExecutionConsole>)
    ensures
        r is None <==> dumb,
        r matches Some(c) ==> shows_execution(c, mode@, exec_arn@),
{
    if dumb {
        None
    } else {
        Some(open_execution(mode, exec_arn))
    }
}

/// For an execution ARN made of eight `:`-free fields, `name_of` gives the
/// seventh (the state machine) and `get_id` the last (the execution).
pub proof fn lemma_execution_arn_fields(parts: Seq<Seq<char>>)
    requires
        parts.len() == 8,
        forall|i: int| 0 <= i < parts.len() ==> !(#[trigger] parts[i]).contains(':'),
    ensures
        nth_field(join(parts, ':'), ':', 6) == parts[6],
        fields(join(parts, ':'), ':').last() == parts[7],
{
    lemma_fields_of_join(parts, ':');
}

/// The variables merged into an execution's input: the account and region.
pub fn build_vars(env: &Env) -> (vars: Vec<(String, String)>)
    ensures
        vars.len() == 2,
        vars[0].0@ == "account"@,
        vars[0].1@ == env.account@,
        vars[1].0@ == "region"@,
        vars[1].1@ == env.region@,
{
    let mut vars: Vec<(String, String)> = Vec::new();
    vars.push((String::from_str("account"), env.account()));
    vars.push((String::from_str("region"), env.region()));
    vars
}

} // verus!
