//! Publishing built layers and images, and demoting layers to their
//! development versions.
use vstd::prelude::*;
use crate::build_kind::BuildKind;
use crate::text::pairs_view;

verus! {

/// One publication that a build asks for.
#[derive(Debug, PartialEq, Eq)]
pub enum PublishStep {
    /// Publish archive `zipfile` as layer `layer_name` for runtime `lang`.
    Layer { lang: String, layer_name: String, zipfile: String },
    /// Push the image of function `name`.
    Image { name: String },
}

/// Whether `s` is the publication of layer `layer_name` for `lang` from `zipfile`.
pub open spec fn is_layer_step(
    s: PublishStep,
    lang: Seq<char>,
    layer_name: Seq<char>,
    zipfile: Seq<char>,
) -> bool {
    &&& s is Layer
    &&& s->lang@ == lang
    &&& s->layer_name@ == layer_name
    &&& s->zipfile@ == zipfile
}

/// Layer `layer_name` published for `lang` from `zipfile`.
fn layer_step(lang: &str, layer_name: String, zipfile: &str) -> (s: PublishStep)
    ensures
        is_layer_step(s, lang@, layer_name@, zipfile@),
{
    PublishStep::Layer {
        lang: String::from_str(lang),
        layer_name,
        zipfile: String::from_str(zipfile),
    }
}

/// `name` followed by `suffix`.
fn suffixed(name: &str, suffix: &str) -> (r: String)
    ensures
        r@ == name@ + suffix@,
{
    let mut r = String::from_str(name);
    r.append(suffix);
    r
}

/// The publications for build `name` of kind `kind`: a layer or library is
/// published as the development version of its layer, in two parts where
/// its dependencies were split into two archives (`split`, read only where
/// `checks_split` holds of `kind`); an image is pushed; other kinds publish
/// nothing.
pub fn publish(kind: BuildKind, split: bool, zipfile: &str, lang: &str, name: &str) -> (steps: Vec<
    PublishStep,
>)
    ensures
        (kind == BuildKind::Layer || kind == BuildKind::Library) && split ==> {
            &&& steps.len() == 2
            &&& is_layer_step(steps[0], lang@, name@ + "-0-dev"@, "deps1.zip"@)
            &&& is_layer_step(steps[1], lang@, name@ + "-1-dev"@, "deps2.zip"@)
        },
        (kind == BuildKind::Layer || kind == BuildKind::Library) && !split ==> {
            &&& steps.len() == 1
            &&& is_layer_step(steps[0], lang@, name@ + "-dev"@, zipfile@)
        },
        kind == BuildKind::Image ==> steps.len() == 1 && steps[0] is Image && steps[0]->name@
            == name@,
        kind != BuildKind::Layer && kind != BuildKind::Library && kind != BuildKind::Image
            ==> steps.len() == 0,
{
    let mut steps: Vec<PublishStep> = Vec::new();
    match kind {
        BuildKind::Layer | BuildKind::Library => {
            if split {
                steps.push(layer_step(lang, suffixed(name, "-0-dev"), "deps1.zip"));
                steps.push(layer_step(lang, suffixed(name, "-1-dev"), "deps2.zip"));
            } else {
                steps.push(layer_step(lang, suffixed(name, "-dev"), zipfile));
            }
        },
        BuildKind::Image => {
            steps.push(PublishStep::Image { name: String::from_str(name) });
        },
        _ => {},
    }
    steps
}

/// Whether some pair of `s` has name `k`.
pub open spec fn has_key(s: Seq<(Seq<char>, Seq<char>)>, k: Seq<char>) -> bool {
    exists|a: int| 0 <= a < s.len() && #[trigger] s[a].0 == k
}

/// The value of the last pair of `s` named `k`.
pub open spec fn last_value(s: Seq<(Seq<char>, Seq<char>)>, k: Seq<char>) -> Seq<char>
    decreases s.len(),
{
    if s.len() == 0 {
        Seq::<char>::empty()
    } else if s.last().0 == k {
        s.last().1
    } else {
        last_value(s.drop_last(), k)
    }
}

/// Whether no two pairs of `s` share a name.
pub open spec fn keys_distinct(s: Seq<(Seq<char>, Seq<char>)>) -> bool {
    forall|a: int, b: int| 0 <= a < b < s.len() ==> #[trigger] s[a].0 != #[trigger] s[b].0
}

/// Whether `r` maps each name of `layers` to its last value there, once
/// each, and holds no other name.
pub open spec fn collects(r: Seq<(Seq<char>, Seq<char>)>, layers: Seq<(Seq<char>, Seq<char>)>) -> bool {
    &&& keys_distinct(r)
    &&& forall|a: int| 0 <= a < r.len() ==> has_key(layers, #[trigger] r[a].0)
    &&& forall|a: int| 0 <= a < r.len() ==> #[trigger] r[a].1 == last_value(layers, r[a].0)
    &&& forall|j: int| 0 <= j < layers.len() ==> has_key(r, #[trigger] layers[j].0)
}

/// Recording pair `e` in `rv`, which collects `pre`, gives `nv`, which
/// collects `pre` followed by `e`: `e` replaces the pair of the same name at
/// `at`, or is appended at `at` where `rv` has no pair of that name.
proof fn lemma_collects_step(
    rv: Seq<(Seq<char>, Seq<char>)>,
    nv: Seq<(Seq<char>, Seq<char>)>,
    pre: Seq<(Seq<char>, Seq<char>)>,
    e: (Seq<char>, Seq<char>),
    at: int,
)
    requires
        collects(rv, pre),
        0 <= at <= rv.len(),
        forall|a: int| 0 <= a < at ==> #[trigger] rv[a].0 != e.0,
        at < rv.len() ==> rv[at].0 == e.0 && nv == rv.update(at, e),
        at == rv.len() ==> nv == rv.push(e),
    ensures
        collects(nv, pre.push(e)),
{
    let post = pre.push(e);
    assert(post.drop_last() =~= pre);
    assert(post.last() == e);
    assert forall|a: int, b: int| 0 <= a < b < nv.len() implies #[trigger] nv[a].0
        != #[trigger] nv[b].0 by {
        if b == at && at == rv.len() {
            assert(nv[a] == rv[a]);
        }
    }
    assert forall|a: int| 0 <= a < nv.len() implies #[trigger] nv[a].1 == last_value(
        post,
        nv[a].0,
    ) by {
        if a != at {
            assert(nv[a] == rv[a]);
            if at < rv.len() {
                assert(rv[a].0 != rv[at].0);
            }
        }
    }
    assert forall|j: int| 0 <= j < post.len() implies has_key(nv, #[trigger] post[j].0) by {
        if j < pre.len() {
            assert(pre[j] == post[j]);
            let a = choose|a: int| 0 <= a < rv.len() && #[trigger] rv[a].0 == pre[j].0;
            if a == at {
                assert(nv[at].0 == e.0);
            } else {
                assert(nv[a] == rv[a]);
            }
        } else {
            assert(nv[at].0 == post[j].0);
        }
    }
    assert forall|a: int| 0 <= a < nv.len() implies has_key(post, #[trigger] nv[a].0) by {
        if a == at {
            assert(post[pre.len() as int].0 == nv[a].0);
        } else {
            assert(nv[a] == rv[a]);
            let j = choose|j: int| 0 <= j < pre.len() && #[trigger] pre[j].0 == rv[a].0;
            assert(post[j] == pre[j]);
        }
    }
}

/// The layers to publish as development versions, each with its runtime:
/// layer `name` for runtime `lang` where a name is given, else every layer
/// of `layers` (name, runtime) once, with the runtime listed last for it.
pub fn demote(name: Option<String>, lang: &str, layers: &Vec<(String, String)>) -> (r: Vec<
    (String, String),
>)
    ensures
        name is Some ==> r.len() == 1 && r[0].0@ == name->0@ && r[0].1@ == lang@,
        name is None ==> collects(pairs_view(r@), pairs_view(layers@)),
{
    match name {
        Some(p) => {
            let mut r: Vec<(String, String)> = Vec::new();
            r.push((p, String::from_str(lang)));
            r
        },
        None => {
            let ghost lv = pairs_view(layers@);
            let mut r: Vec<(String, String)> = Vec::new();
            let mut i: usize = 0;
            assert(lv.take(0) =~= Seq::<(Seq<char>, Seq<char>)>::empty());
            assert(pairs_view(r@) =~= Seq::<(Seq<char>, Seq<char>)>::empty());
            while i < layers.len()
                invariant
                    i <= layers.len(),
                    lv == pairs_view(layers@),
                    collects(pairs_view(r@), lv.take(i as int)),
                decreases layers.len() - i,
            {
                let ghost rv = pairs_view(r@);
                let ghost pre = lv.take(i as int);
                let ghost post = lv.take(i + 1);
                assert(post.drop_last() =~= pre);
                assert(post.last() == lv[i as int]);
                let mut at: usize = 0;
                while at < r.len() && !(r[at].0 == layers[i].0)
                    invariant
                        at <= r.len(),
                        i < layers.len(),
                        lv == pairs_view(layers@),
                        rv == pairs_view(r@),
                        forall|a: int| 0 <= a < at ==> #[trigger] rv[a].0 != lv[i as int].0,
                    decreases r.len() - at,
                {
                    at = at + 1;
                }
                let entry = (layers[i].0.clone(), layers[i].1.clone());
                if at < r.len() {
                    r.set(at, entry);
                    assert(pairs_view(r@) =~= rv.update(at as int, lv[i as int]));
                } else {
                    r.push(entry);
                    assert(pairs_view(r@) =~= rv.push(lv[i as int]));
                }
                assert(post =~= pre.push(lv[i as int]));
                proof {
                    lemma_collects_step(rv, pairs_view(r@), pre, lv[i as int], at as int);
                }
                i = i + 1;
            }
            assert(lv.take(i as int) =~= lv);
            r
        },
    }
}

/// What `list` shows for a kind of build.
#[derive(Debug, PartialEq, Eq)]
pub enum ListTarget {
    /// The published layers of the topology's layer names.
    Layers,
    /// The pushed images, listed with the fixed argument `name`.
    Images { name: String },
}

/// What listing builds of `kind` shows: the published layers, or the
/// pushed images (listed with the argument `xxx`). Other kinds cannot be
/// listed.
pub fn list(kind: BuildKind) -> (t: ListTarget)
    requires
        kind == BuildKind::Layer || kind == BuildKind::Image,
    ensures
        kind == BuildKind::Layer ==> t is Layers,
        kind == BuildKind::Image ==> t is Images && t->name@ == "xxx"@,
{
    match kind {
        BuildKind::Layer => ListTarget::Layers,
        _ => ListTarget::Images { name: String::from_str("xxx") },
    }
}

/// Whether publishing a build of `kind` asks if its dependencies were split
/// into two archives: only layers and libraries are.
pub fn checks_split(kind: BuildKind) -> (r: bool)
    ensures
        r == (kind == BuildKind::Layer || kind == BuildKind::Library),
{
    match kind {
        BuildKind::Layer | BuildKind::Library => true,
        _ => false,
    }
}

} // verus!
