//! The sequences of work the deployment commands (`create`, `update`,
//! `update_component`, `delete`, `delete_component`, `test`) carry out.
//! Each command runs in two phases: a prelude that guards the sandbox and
//! compiles and resolves the topology, then, given the resolved topologies,
//! the work on each of them.
use vstd::prelude::*;
use crate::commands::{deploy_message, run_create_hook};
use crate::env::Env;
use crate::topology::{Function, Topology};

verus! {

/// One piece of work of a deployment command.
#[derive(Debug, PartialEq, Eq)]
pub enum Step {
    /// Stop unless changes to `sandbox` are allowed.
    Guard { sandbox: String },
    /// Show `text`.
    Say { text: String },
    /// Compile the topology in `dir`, with the topologies under it where
    /// `recursive` holds.
    Compile { dir: String, recursive: bool },
    /// Report how many parts the compiled topology has.
    Count,
    /// Resolve the compiled topology for `sandbox`, reusing cached values
    /// where `cache` holds.
    Resolve { sandbox: String, cache: bool },
    /// Build the function in `dir`.
    Build { dir: String },
    /// Create resolved topology number `topology`.
    Create { topology: usize },
    /// Update resolved topology number `topology`.
    Update { topology: usize },
    /// Update `component` (all of them where none is named) of resolved
    /// topology number `topology`.
    UpdateComponent { topology: usize, component: Option<String> },
    /// Delete resolved topology number `topology`.
    Delete { topology: usize },
    /// Delete `component` of resolved topology number `topology`.
    DeleteComponent { topology: usize, component: Option<String> },
    /// Send `message` to the channel of `namespace`.
    Notify { namespace: String, message: String },
    /// Record a deployment in the CI metadata, in the environment of profile
    /// `profile`.
    UpdateMetadata {
        profile: String,
        sandbox: String,
        namespace: String,
        version: String,
        env_name: String,
        dir: String,
    },
    /// Remove the build artifacts, under every topology where `recursive`
    /// holds.
    Clean { recursive: bool },
    /// Test function `name` in `dir`, found at `path` of the topology.
    Test { path: String, name: String, dir: String },
}

/// The text of a step.
pub enum StepView {
    Guard { sandbox: Seq<char> },
    Say { text: Seq<char> },
    Compile { dir: Seq<char>, recursive: bool },
    Count,
    Resolve { sandbox: Seq<char>, cache: bool },
    Build { dir: Seq<char> },
    Create { topology: int },
    Update { topology: int },
    UpdateComponent { topology: int, component: Option<Seq<char>> },
    Delete { topology: int },
    DeleteComponent { topology: int, component: Option<Seq<char>> },
    Notify { namespace: Seq<char>, message: Seq<char> },
    UpdateMetadata {
        profile: Seq<char>,
        sandbox: Seq<char>,
        namespace: Seq<char>,
        version: Seq<char>,
        env_name: Seq<char>,
        dir: Seq<char>,
    },
    Clean { recursive: bool },
    Test { path: Seq<char>, name: Seq<char>, dir: Seq<char> },
}

/// The text of an optional text.
pub open spec fn opt_view(o: Option<String>) -> Option<Seq<char>> {
    match o {
        Some(s) => Some(s@),
        None => None,
    }
}

impl View for Step {
    type V = StepView;

    open spec fn view(&self) -> StepView {
        match self {
            Step::Guard { sandbox } => StepView::Guard { sandbox: sandbox@ },
            Step::Say { text } => StepView::Say { text: text@ },
            Step::Compile { dir, recursive } => StepView::Compile { dir: dir@, recursive: *recursive },
            Step::Count => StepView::Count,
            Step::Resolve { sandbox, cache } => StepView::Resolve { sandbox: sandbox@, cache: *cache },
            Step::Build { dir } => StepView::Build { dir: dir@ },
            Step::Create { topology } => StepView::Create { topology: *topology as int },
            Step::Update { topology } => StepView::Update { topology: *topology as int },
            Step::UpdateComponent { topology, component } => StepView::UpdateComponent {
                topology: *topology as int,
                component: opt_view(*component),
            },
            Step::Delete { topology } => StepView::Delete { topology: *topology as int },
            Step::DeleteComponent { topology, component } => StepView::DeleteComponent {
                topology: *topology as int,
                component: opt_view(*component),
            },
            Step::Notify { namespace, message } => StepView::Notify {
                namespace: namespace@,
                message: message@,
            },
            Step::UpdateMetadata { profile, sandbox, namespace, version, env_name, dir } =>
                StepView::UpdateMetadata {
                profile: profile@,
                sandbox: sandbox@,
                namespace: namespace@,
                version: version@,
                env_name: env_name@,
                dir: dir@,
            },
            Step::Clean { recursive } => StepView::Clean { recursive: *recursive },
            Step::Test { path, name, dir } => StepView::Test { path: path@, name: name@, dir: dir@ },
        }
    }
}

/// The text of a sequence of steps.
pub open spec fn step_views(s: Seq<Step>) -> Seq<StepView> {
    s.map_values(|x: Step| x@)
}

/// The deployment commands that share the prelude.
#[derive(Debug, PartialEq, Eq)]
pub enum Command {
    Create,
    Update,
    UpdateComponent,
    Delete,
    DeleteComponent,
}

/// What a command does before it has the resolved topologies: guard the
/// sandbox, say that it compiles, compile, report the counts, (for
/// `delete_component`) say that it resolves, then resolve. Only `create` and
/// `update` may skip the cache.
pub open spec fn prelude_steps(
    command: Command,
    sandbox: Seq<char>,
    dir: Seq<char>,
    recursive: bool,
    no_cache: bool,
) -> Seq<StepView> {
    let cache = match command {
        Command::Create | Command::Update => !no_cache,
        _ => true,
    };
    seq![
        StepView::Guard { sandbox },
        StepView::Say { text: "Compiling topology"@ },
        StepView::Compile { dir, recursive },
        StepView::Count,
    ] + (if command == Command::DeleteComponent {
        seq![StepView::Say { text: "Resolving topology"@ }]
    } else {
        Seq::<StepView>::empty()
    }) + seq![StepView::Resolve { sandbox, cache }]
}

/// Whether the steps `p` guard `sandbox` first, compile only `dir` with the
/// flag `recursive`, touch no other sandbox, and end by resolving in
/// `sandbox` with the cache setting `cache`.
pub open spec fn guards_compiles_resolves(
    p: Seq<StepView>,
    sandbox: Seq<char>,
    dir: Seq<char>,
    recursive: bool,
    cache: bool,
) -> bool {
    &&& p.len() >= 5
    &&& p[0] == StepView::Guard { sandbox }
    &&& p[2] == StepView::Compile { dir, recursive }
    &&& p.last() == StepView::Resolve { sandbox, cache }
    &&& forall|i: int|
        0 <= i < p.len() ==> (#[trigger] p[i] matches StepView::Compile { dir: d, recursive: r }
            ==> d == dir && r == recursive)
    &&& forall|i: int|
        0 <= i < p.len() ==> (#[trigger] p[i] matches StepView::Guard { sandbox: g } ==> g
            == sandbox)
    &&& forall|i: int|
        0 <= i < p.len() ==> (#[trigger] p[i] matches StepView::Resolve { sandbox: g, cache: c }
            ==> g == sandbox && c == cache && i == p.len() - 1)
}

/// Whether a command's prelude reads the cache: all do but `create` and
/// `update` run with `--no-cache`.
pub open spec fn prelude_uses_cache(command: Command, no_cache: bool) -> bool {
    (command == Command::Create || command == Command::Update) ==> !no_cache
}

/// The prelude of every command guards the caller's sandbox first, compiles
/// the caller's directory with the caller's `recursive` flag, and resolves
/// once, last, in the same sandbox it guarded; only `create` and `update`
/// skip the cache, and only when asked to.
pub proof fn lemma_prelude_shape(
    command: Command,
    sandbox: Seq<char>,
    dir: Seq<char>,
    recursive: bool,
    no_cache: bool,
)
    ensures
        guards_compiles_resolves(
            prelude_steps(command, sandbox, dir, recursive, no_cache),
            sandbox,
            dir,
            recursive,
            prelude_uses_cache(command, no_cache),
        ),
{
    reveal_strlit("Compiling topology");
    reveal_strlit("Resolving topology");
}

/// The steps of `command` in `sandbox`, compiling the topology in `dir`,
/// before the topologies are resolved.
pub fn prelude(command: Command, sandbox: &str, dir: &str, recursive: bool, no_cache: bool) -> (s:
    Vec<Step>)
    ensures
        step_views(s@) == prelude_steps(command, sandbox@, dir@, recursive, no_cache),
        guards_compiles_resolves(
            step_views(s@),
            sandbox@,
            dir@,
            recursive,
            prelude_uses_cache(command, no_cache),
        ),
{
    let cache = match command {
        Command::Create | Command::Update => !no_cache,
        _ => true,
    };
    let resolving = match command {
        Command::DeleteComponent => true,
        _ => false,
    };
    let mut s: Vec<Step> = Vec::new();
    s.push(Step::Guard { sandbox: String::from_str(sandbox) });
    s.push(Step::Say { text: String::from_str("Compiling topology") });
    s.push(Step::Compile { dir: String::from_str(dir), recursive });
    s.push(Step::Count);
    if resolving {
        s.push(Step::Say { text: String::from_str("Resolving topology") });
    }
    s.push(Step::Resolve { sandbox: String::from_str(sandbox), cache });
    assert(step_views(s@) =~= prelude_steps(command, sandbox@, dir@, recursive, no_cache));
    proof {
        lemma_prelude_shape(command, sandbox@, dir@, recursive, no_cache);
    }
    s
}

/// The builds of the functions `fs`, in order.
pub open spec fn function_builds(fs: Seq<(String, Function)>) -> Seq<StepView> {
    fs.map_values(|f: (String, Function)| StepView::Build { dir: f.1.dir@ })
}

/// For each topology of `ts` in turn: the builds of its functions, then its
/// update (where `update` holds) or its creation.
pub open spec fn build_then_deploy(ts: Seq<Topology>, update: bool) -> Seq<StepView>
    decreases ts.len(),
{
    if ts.len() == 0 {
        Seq::<StepView>::empty()
    } else {
        let i = ts.len() - 1;
        build_then_deploy(ts.drop_last(), update) + function_builds(ts.last().functions@) + seq![
            if update {
                StepView::Update { topology: i }
            } else {
                StepView::Create { topology: i }
            },
        ]
    }
}

/// Where the steps of topology `k` of `ts` begin: after the builds and the
/// deployment of every earlier topology.
pub open spec fn topology_offset(ts: Seq<Topology>, k: int) -> int
    decreases k,
{
    if k <= 0 {
        0
    } else {
        topology_offset(ts, k - 1) + ts[k - 1].functions@.len() + 1
    }
}

/// Whether `s` begins with the work on each topology of `ts` in turn: for
/// topology `k`, from `topology_offset(ts, k)`, the build of each of its
/// functions (in order) and then its update (where `update` holds) or its
/// creation, naming `k`; the work on the last topology ends at
/// `topology_offset(ts, ts.len())`.
pub open spec fn deploys_in_turn(s: Seq<StepView>, ts: Seq<Topology>, update: bool) -> bool {
    &&& topology_offset(ts, ts.len() as int) <= s.len()
    &&& forall|k: int, j: int|
        0 <= k < ts.len() && 0 <= j < ts[k].functions@.len() ==> #[trigger] s[topology_offset(ts, k)
            + j] == (StepView::Build { dir: ts[k].functions@[j].1.dir@ })
    &&& forall|k: int|
        0 <= k < ts.len() ==> #[trigger] s[topology_offset(ts, k) + ts[k].functions@.len()] == if update {
            StepView::Update { topology: k }
        } else {
            StepView::Create { topology: k }
        }
}

/// Offsets grow with the topology number.
proof fn lemma_offset_monotone(ts: Seq<Topology>, a: int, b: int)
    requires
        0 <= a <= b,
    ensures
        topology_offset(ts, a) <= topology_offset(ts, b),
    decreases b,
{
    if a < b {
        lemma_offset_monotone(ts, a, b - 1);
    }
}

/// Offsets depend only on the topologies before them.
proof fn lemma_offset_prefix(ts: Seq<Topology>, k: int)
    requires
        0 <= k < ts.len(),
    ensures
        topology_offset(ts, k) == topology_offset(ts.drop_last(), k),
    decreases k,
{
    if k > 0 {
        lemma_offset_prefix(ts, k - 1);
        assert(ts[k - 1] == ts.drop_last()[k - 1]);
    }
}

/// The work on resolved topologies takes each topology in turn, once: topology
/// `k`'s functions are built and then it alone is deployed under number `k`,
/// for `k` = 0, 1, ..., and nothing else is done.
pub proof fn lemma_build_then_deploy_in_turn(ts: Seq<Topology>, update: bool)
    ensures
        build_then_deploy(ts, update).len() == topology_offset(ts, ts.len() as int),
        deploys_in_turn(build_then_deploy(ts, update), ts, update),
    decreases ts.len(),
{
    if ts.len() > 0 {
        let n = ts.len() - 1;
        let d = ts.drop_last();
        let r = build_then_deploy(d, update);
        let fb = function_builds(ts.last().functions@);
        let b = build_then_deploy(ts, update);
        lemma_build_then_deploy_in_turn(d, update);
        lemma_offset_prefix(ts, n);
        assert(ts.last() == ts[n]);
        assert(b == r + fb + seq![
            if update {
                StepView::Update { topology: n }
            } else {
                StepView::Create { topology: n }
            },
        ]);
        assert forall|k: int, j: int|
            0 <= k < ts.len() && 0 <= j < ts[k].functions@.len() implies #[trigger] b[topology_offset(ts, k)
                + j] == (StepView::Build { dir: ts[k].functions@[j].1.dir@ }) by {
            lemma_offset_monotone(ts, 0, k);
            if k < n {
                lemma_offset_prefix(ts, k);
                lemma_offset_monotone(d, k + 1, n);
                lemma_offset_monotone(d, 0, k);
                assert(topology_offset(d, k + 1) == topology_offset(d, k) + d[k].functions@.len() + 1);
                assert(d[k] == ts[k]);
                assert(r[topology_offset(d, k) + j] == (StepView::Build { dir: d[k].functions@[j].1.dir@ }));
            } else {
                assert(b[topology_offset(ts, k) + j] == fb[j]);
            }
        }
        assert forall|k: int| 0 <= k < ts.len() implies #[trigger] b[topology_offset(ts, k)
            + ts[k].functions@.len()] == if update {
            StepView::Update { topology: k }
        } else {
            StepView::Create { topology: k }
        } by {
            lemma_offset_monotone(ts, 0, k);
            if k < n {
                lemma_offset_prefix(ts, k);
                lemma_offset_monotone(d, k + 1, n);
                lemma_offset_monotone(d, 0, k);
                assert(topology_offset(d, k + 1) == topology_offset(d, k) + d[k].functions@.len() + 1);
                assert(d[k] == ts[k]);
                assert(r[topology_offset(d, k) + d[k].functions@.len()] == if update {
                    StepView::Update { topology: k }
                } else {
                    StepView::Create { topology: k }
                });
            }
        }
    }
}

/// Work added after the work on each topology leaves it in place.
proof fn lemma_deploys_in_turn_extend(a: Seq<StepView>, b: Seq<StepView>, ts: Seq<Topology>, update: bool)
    requires
        deploys_in_turn(a, ts, update),
    ensures
        deploys_in_turn(a + b, ts, update),
{
    let n = ts.len() as int;
    assert forall|k: int, j: int|
        0 <= k < ts.len() && 0 <= j < ts[k].functions@.len() implies #[trigger] (a + b)[topology_offset(ts, k)
            + j] == (StepView::Build { dir: ts[k].functions@[j].1.dir@ }) by {
        lemma_offset_monotone(ts, k + 1, n);
        lemma_offset_monotone(ts, 0, k);
        assert(topology_offset(ts, k + 1) == topology_offset(ts, k) + ts[k].functions@.len() + 1);
        assert(a[topology_offset(ts, k) + j] == (StepView::Build { dir: ts[k].functions@[j].1.dir@ }));
    }
    assert forall|k: int| 0 <= k < ts.len() implies #[trigger] (a + b)[topology_offset(ts, k)
        + ts[k].functions@.len()] == if update {
        StepView::Update { topology: k }
    } else {
        StepView::Create { topology: k }
    } by {
        lemma_offset_monotone(ts, k + 1, n);
        lemma_offset_monotone(ts, 0, k);
        assert(topology_offset(ts, k + 1) == topology_offset(ts, k) + ts[k].functions@.len() + 1);
        assert(a[topology_offset(ts, k) + ts[k].functions@.len()] == if update {
            StepView::Update { topology: k }
        } else {
            StepView::Create { topology: k }
        });
    }
}

/// What follows deploying `root` to `env` from `dir`: the announcement to the
/// topology's channel, then the CI metadata update where `env` asks for one.
pub open spec fn hook_steps(root: Topology, env: Env, dir: Seq<char>) -> Seq<StepView> {
    seq![
        StepView::Notify {
            namespace: root.namespace@,
            message: deploy_message(root, env),
        },
    ] + if env.update_metadata {
        seq![
            StepView::UpdateMetadata {
                profile: env.layers_profile@,
                sandbox: root.sandbox@,
                namespace: root.namespace@,
                version: root.version@,
                env_name: env.name@,
                dir,
            },
        ]
    } else {
        Seq::<StepView>::empty()
    }
}

/// Appends the builds of each topology's functions followed by its creation
/// or update.
fn push_build_then_deploy(s: &mut Vec<Step>, topologies: &Vec<Topology>, update: bool)
    ensures
        step_views(final(s)@) == step_views(old(s)@) + build_then_deploy(topologies@, update),
{
    let ghost head = step_views(s@);
    let ghost ts = topologies@;
    let mut i: usize = 0;
    assert(ts.take(0) =~= Seq::<Topology>::empty());
    assert(head + build_then_deploy(ts.take(0), update) =~= head);
    while i < topologies.len()
        invariant
            i <= ts.len(),
            ts == topologies@,
            step_views(s@) == head + build_then_deploy(ts.take(i as int), update),
        decreases ts.len() - i,
    {
        let t = &topologies[i];
        let ghost fs = t.functions@;
        let ghost mid = step_views(s@);
        let mut j: usize = 0;
        assert(fs.take(0) =~= Seq::<(String, Function)>::empty());
        assert(mid + function_builds(fs.take(0)) =~= mid);
        while j < t.functions.len()
            invariant
                j <= fs.len(),
                fs == t.functions@,
                step_views(s@) == mid + function_builds(fs.take(j as int)),
            decreases fs.len() - j,
        {
            let ghost prev = step_views(s@);
            s.push(Step::Build { dir: t.functions[j].1.dir.clone() });
            assert(step_views(s@) =~= prev.push(StepView::Build { dir: fs[j as int].1.dir@ }));
            assert(fs.take(j + 1).drop_last() =~= fs.take(j as int));
            assert(function_builds(fs.take(j + 1)) =~= function_builds(fs.take(j as int)).push(
                StepView::Build { dir: fs[j as int].1.dir@ },
            ));
            assert(step_views(s@) =~= mid + function_builds(fs.take(j + 1)));
            j = j + 1;
        }
        assert(fs.take(j as int) =~= fs);
        let ghost before = step_views(s@);
        if update {
            s.push(Step::Update { topology: i });
        } else {
            s.push(Step::Create { topology: i });
        }
        assert(step_views(s@) =~= before.push(
            if update {
                StepView::Update { topology: i as int }
            } else {
                StepView::Create { topology: i as int }
            },
        ));
        assert(ts.take(i + 1).drop_last() =~= ts.take(i as int));
        assert(ts.take(i + 1).last() == ts[i as int]);
        assert(step_views(s@) =~= head + build_then_deploy(ts.take(i + 1), update));
        i = i + 1;
    }
    assert(ts.take(i as int) =~= ts);
}

/// What `create` does with the resolved `topologies`, deploying to `env`
/// from `dir`: build each topology's functions and create it, in turn; then,
/// where announcing is asked for and there is a topology, what follows the
/// deployment of the first one; then clean the build artifacts once.
pub fn create(topologies: &Vec<Topology>, notify: bool, env: &Env, dir: &str, recursive: bool) -> (s:
    Vec<Step>)
    ensures
        step_views(s@) == build_then_deploy(topologies@, false) + (if notify && topologies.len()
            > 0 {
            hook_steps(topologies[0], *env, dir@)
        } else {
            Seq::<StepView>::empty()
        }) + seq![StepView::Clean { recursive }],
        deploys_in_turn(step_views(s@), topologies@, false),
        step_views(s@).last() == (StepView::Clean { recursive }),
{
    let mut s: Vec<Step> = Vec::new();
    assert(step_views(s@) =~= Seq::<StepView>::empty());
    push_build_then_deploy(&mut s, topologies, false);
    assert(Seq::<StepView>::empty() + build_then_deploy(topologies@, false) =~= build_then_deploy(
        topologies@,
        false,
    ));
    let ghost deployed = step_views(s@);
    if topologies.len() > 0 && notify {
        let root = &topologies[0];
        let hook = run_create_hook(root, env, dir);
        let ghost notified = step_views(s@);
        s.push(Step::Notify { namespace: root.namespace.clone(), message: hook.notice.message });
        assert(step_views(s@) =~= deployed + seq![
            StepView::Notify { namespace: root.namespace@, message: deploy_message(*root, *env) },
        ]);
        match hook.metadata {
            Some(m) => {
                s.push(
                    Step::UpdateMetadata {
                        profile: m.profile,
                        sandbox: m.sandbox,
                        namespace: m.namespace,
                        version: m.version,
                        env_name: m.env_name,
                        dir: m.dir,
                    },
                );
            },
            None => {},
        }
        assert(step_views(s@) =~= deployed + hook_steps(*root, *env, dir@));
    }
    let ghost hooked = step_views(s@);
    s.push(Step::Clean { recursive });
    assert(step_views(s@) =~= hooked + seq![StepView::Clean { recursive }]);
    proof {
        lemma_build_then_deploy_in_turn(topologies@, false);
        lemma_deploys_in_turn_extend(
            build_then_deploy(topologies@, false),
            step_views(s@).skip(build_then_deploy(topologies@, false).len() as int),
            topologies@,
            false,
        );
        assert(build_then_deploy(topologies@, false) + step_views(s@).skip(
            build_then_deploy(topologies@, false).len() as int,
        ) =~= step_views(s@));
    }
    s
}

/// What `update` does with the resolved `topologies`: build each topology's
/// functions and update it, in turn, then clean the build artifacts once.
pub fn update(topologies: &Vec<Topology>, recursive: bool) -> (s: Vec<Step>)
    ensures
        step_views(s@) == build_then_deploy(topologies@, true) + seq![StepView::Clean { recursive }],
        deploys_in_turn(step_views(s@), topologies@, true),
        step_views(s@).len() == topology_offset(topologies@, topologies.len() as int) + 1,
        step_views(s@).last() == (StepView::Clean { recursive }),
{
    let mut s: Vec<Step> = Vec::new();
    assert(step_views(s@) =~= Seq::<StepView>::empty());
    push_build_then_deploy(&mut s, topologies, true);
    assert(Seq::<StepView>::empty() + build_then_deploy(topologies@, true) =~= build_then_deploy(
        topologies@,
        true,
    ));
    let ghost deployed = step_views(s@);
    s.push(Step::Clean { recursive });
    assert(step_views(s@) =~= deployed + seq![StepView::Clean { recursive }]);
    proof {
        lemma_build_then_deploy_in_turn(topologies@, true);
        lemma_deploys_in_turn_extend(
            build_then_deploy(topologies@, true),
            seq![StepView::Clean { recursive }],
            topologies@,
            true,
        );
    }
    s
}

/// A copy of an optional text.
fn copy_opt(o: &Option<String>) -> (r: Option<String>)
    ensures
        opt_view(r) == opt_view(*o),
{
    match o {
        Some(c) => Some(c.clone()),
        None => None,
    }
}

/// What `update_component` does with `count` resolved topologies: update
/// `component` of each, in turn.
pub fn update_component(count: usize, component: &Option<String>) -> (s: Vec<Step>)
    ensures
        step_views(s@) == Seq::new(
            count as nat,
            |i: int| StepView::UpdateComponent { topology: i, component: opt_view(*component) },
        ),
{
    let mut s: Vec<Step> = Vec::new();
    let mut i: usize = 0;
    while i < count
        invariant
            i <= count,
            s.len() == i,
            forall|k: int| 0 <= k < i ==> #[trigger] s@[k]@ == (StepView::UpdateComponent {
                topology: k,
                component: opt_view(*component),
            }),
        decreases count - i,
    {
        s.push(Step::UpdateComponent { topology: i, component: copy_opt(component) });
        i = i + 1;
    }
    assert(step_views(s@) =~= Seq::new(
        count as nat,
        |i: int| StepView::UpdateComponent { topology: i, component: opt_view(*component) },
    ));
    s
}

/// What `delete` does with `count` resolved topologies: delete each, in turn.
pub fn delete(count: usize) -> (s: Vec<Step>)
    ensures
        step_views(s@) == Seq::new(count as nat, |i: int| StepView::Delete { topology: i }),
{
    let mut s: Vec<Step> = Vec::new();
    let mut i: usize = 0;
    while i < count
        invariant
            i <= count,
            s.len() == i,
            forall|k: int| 0 <= k < i ==> #[trigger] s@[k]@ == (StepView::Delete { topology: k }),
        decreases count - i,
    {
        s.push(Step::Delete { topology: i });
        i = i + 1;
    }
    assert(step_views(s@) =~= Seq::new(count as nat, |i: int| StepView::Delete { topology: i }));
    s
}

/// What `delete_component` does with `count` resolved topologies: delete
/// `component` of each, in turn.
pub fn delete_component(count: usize, component: &Option<String>) -> (s: Vec<Step>)
    ensures
        step_views(s@) == Seq::new(
            count as nat,
            |i: int| StepView::DeleteComponent { topology: i, component: opt_view(*component) },
        ),
{
    let mut s: Vec<Step> = Vec::new();
    let mut i: usize = 0;
    while i < count
        invariant
            i <= count,
            s.len() == i,
            forall|k: int| 0 <= k < i ==> #[trigger] s@[k]@ == (StepView::DeleteComponent {
                topology: k,
                component: opt_view(*component),
            }),
        decreases count - i,
    {
        s.push(Step::DeleteComponent { topology: i, component: copy_opt(component) });
        i = i + 1;
    }
    assert(step_views(s@) =~= Seq::new(
        count as nat,
        |i: int| StepView::DeleteComponent { topology: i, component: opt_view(*component) },
    ));
    s
}

/// What `test` does with the functions of the topology in the current
/// directory (compiled without the topologies under it): test each, in turn.
pub fn test(functions: &Vec<(String, Function)>) -> (s: Vec<Step>)
    ensures
        step_views(s@) == functions@.map_values(
            |f: (String, Function)| StepView::Test { path: f.0@, name: f.1.name@, dir: f.1.dir@ },
        ),
{
    let mut s: Vec<Step> = Vec::new();
    let mut i: usize = 0;
    while i < functions.len()
        invariant
            i <= functions.len(),
            s.len() == i,
            forall|k: int| 0 <= k < i ==> #[trigger] s@[k]@ == (StepView::Test {
                path: functions@[k].0@,
                name: functions@[k].1.name@,
                dir: functions@[k].1.dir@,
            }),
        decreases functions.len() - i,
    {
        let (path, f) = &functions[i];
        s.push(Step::Test { path: path.clone(), name: f.name.clone(), dir: f.dir.clone() });
        i = i + 1;
    }
    assert(step_views(s@) =~= functions@.map_values(
        |f: (String, Function)| StepView::Test { path: f.0@, name: f.1.name@, dir: f.1.dir@ },
    ));
    s
}

} // verus!
