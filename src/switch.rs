use vstd::prelude::*;

use crate::config::{string_views, GitConfig};
use crate::error::GitProfileError;
use crate::name::{valid_profile_name, validate_profile_name};
use crate::path::{lies_under, path_lies_under, profile_path, profile_path_of, lemma_profile_path_lies_under};
use crate::profile_dir::GitProfileDir;

verus! {

/// The values that do not lie under the profile directory, in their order.
pub open spec fn foreign_paths(paths: Seq<Seq<char>>, dir: Seq<char>) -> Seq<Seq<char>> {
    paths.filter(|p: Seq<char>| !lies_under(p, dir))
}

/// The values that lie under the profile directory, in their order.
pub open spec fn managed_paths(paths: Seq<Seq<char>>, dir: Seq<char>) -> Seq<Seq<char>> {
    paths.filter(|p: Seq<char>| lies_under(p, dir))
}

/// The values of `include.path` after switching to the profile `name`: the
/// foreign values, unchanged and in order, then the profile's path.
pub open spec fn switched(paths: Seq<Seq<char>>, dir: Seq<char>, name: Seq<char>) -> Seq<Seq<char>> {
    foreign_paths(paths, dir).push(profile_path_of(dir, name))
}

/// The line that reports a switch.
pub open spec fn switch_message_of(global: bool, name: Seq<char>) -> Seq<char> {
    if global {
        "Global git profile switched to: "@ + name
    } else {
        "Local git profile switched to: "@ + name
    }
}

/// What a switch does to a store: remove each value of `remove`, then add
/// `add`.
#[derive(Debug)]
pub struct SwitchPlan {
    /// The values that lie under the profile directory, in the store's order.
    pub remove: Vec<String>,
    /// The path of the profile switched to.
    pub add: String,
}

/// Decides how to switch the values `existing` to the profile `profile_name`
/// of the directory `profile_dir`.
pub fn plan_switch(profile_name: &str, profile_dir: &str, existing: &Vec<String>) -> (r: Result<
    SwitchPlan,
    GitProfileError,
>)
    ensures
        r is Ok <==> valid_profile_name(profile_name@),
        r matches Err(e) ==> e matches GitProfileError::ProfilePath { path } && path@ == profile_name@,
        r matches Ok(plan) ==> {
            &&& string_views(plan.remove@) == managed_paths(string_views(existing@), profile_dir@)
            &&& plan.add@ == profile_path_of(profile_dir@, profile_name@)
        },
{
    match validate_profile_name(profile_name) {
        Err(e) => {
            return Err(e);
        },
        Ok(()) => {},
    }
    let ghost all = string_views(existing@);
    let ghost pred = |p: Seq<char>| lies_under(p, profile_dir@);
    let mut remove: Vec<String> = Vec::new();
    let mut i: usize = 0;
    while i < existing.len()
        invariant
            i <= existing.len(),
            all == string_views(existing@),
            pred == (|p: Seq<char>| lies_under(p, profile_dir@)),
            string_views(remove@) == all.take(i as int).filter(pred),
        decreases existing.len() - i,
    {
        let ghost before = remove@;
        assert(all.take(i as int + 1) =~= all.take(i as int).push(all[i as int]));
        proof { all.take(i as int).lemma_filter_push(all[i as int], pred); }
        if path_lies_under(existing[i].as_str(), profile_dir) {
            remove.push(existing[i].clone());
            assert(string_views(remove@) =~= string_views(before).push(all[i as int]));
        }
        i += 1;
    }
    assert(all.take(i as int) =~= all);
    Ok(SwitchPlan { remove, add: profile_path(profile_dir, profile_name) })
}

/// Switches `config` to the profile `profile_name` of `profile_dir`: every
/// value of `include.path` that lies under the profile directory is removed,
/// and the profile's path is added after the others. Returns the line that
/// reports the switch, for the global or the local configuration.
///
/// A name that is not valid is refused before the store is read or changed;
/// a valid one is never refused. An error of the store is passed on, and a
/// store that cannot fail gives success for every valid name.
pub fn switch<T: GitConfig, U: GitProfileDir>(
    profile_name: &str,
    global: bool,
    profile_dir: &U,
    config: &mut T,
) -> (r: Result<String, GitProfileError>)
    ensures
        !valid_profile_name(profile_name@) ==> {
            &&& r matches Err(GitProfileError::ProfilePath { path }) && path@ == profile_name@
            &&& *final(config) == *old(config)
        },
        valid_profile_name(profile_name@) ==> !(r matches Err(GitProfileError::ProfilePath { .. })),
        valid_profile_name(profile_name@) && old(config).infallible() ==> r is Ok,
        r matches Ok(message) ==> {
            &&& valid_profile_name(profile_name@)
            &&& final(config).include_paths() == switched(
                old(config).include_paths(),
                profile_dir.path_view(),
                profile_name@,
            )
            &&& message@ == switch_message_of(global, profile_name@)
        },
{
    match validate_profile_name(profile_name) {
        Err(e) => {
            return Err(e);
        },
        Ok(()) => {},
    }
    let dir = profile_dir.path();
    let existing = match config.get_include_paths() {
        Ok(v) => v,
        Err(e) => {
            return Err(e);
        },
    };
    let ghost start = config.include_paths();
    let plan = match plan_switch(profile_name, dir, &existing) {
        Ok(plan) => plan,
        Err(e) => {
            return Err(e);
        },
    };
    let ghost rm = string_views(plan.remove@);
    let ghost can_fail = !config.infallible();
    proof {
        assert(rm.take(0) =~= Seq::<Seq<char>>::empty());
        lemma_filter_keeps_all(start, |p: Seq<char>| !rm.take(0).contains(p));
    }
    let mut i: usize = 0;
    while i < plan.remove.len()
        invariant
            valid_profile_name(profile_name@),
            !can_fail ==> config.infallible(),
            can_fail == !old(config).infallible(),
            i <= plan.remove.len(),
            rm == string_views(plan.remove@),
            config.include_paths() == start.filter(|p: Seq<char>| !rm.take(i as int).contains(p)),
        decreases plan.remove.len() - i,
    {
        let ghost cfg_before = config.include_paths();
        let value = plan.remove[i].as_str();
        match config.remove_include_path(value) {
            Ok(()) => {},
            Err(e) => {
                return Err(e);
            },
        }
        proof {
            let v = rm[i as int];
            let p_old = |p: Seq<char>| !rm.take(i as int).contains(p);
            let p_new = |p: Seq<char>| !rm.take(i as int + 1).contains(p);
            let q = |p: Seq<char>| p != v;
            assert(config.include_paths() == cfg_before.filter(|p: Seq<char>| p != value@));
            assert(value@ == v);
            lemma_filter_congruent(cfg_before, |p: Seq<char>| p != value@, q);
            lemma_filter_filter(start, p_old, q);
            assert(rm.take(i as int + 1) =~= rm.take(i as int).push(v));
            assert forall|p: Seq<char>| #[trigger] p_new(p) == (p_old(p) && q(p)) by {
                lemma_push_contains(rm.take(i as int), v, p);
            }
            lemma_filter_congruent(start, |p: Seq<char>| p_old(p) && q(p), p_new);
            assert(config.include_paths() == start.filter(p_new));
        }
        i += 1;
    }
    proof {
        let dir_v = profile_dir.path_view();
        assert(rm.take(i as int) =~= rm);
        assert forall|p: Seq<char>| start.contains(p) implies
            (!rm.contains(p)) == !lies_under(p, dir_v) by {
            lemma_filter_has(start, |p: Seq<char>| lies_under(p, dir_v), p);
        }
        lemma_filter_congruent_on(start, |p: Seq<char>| !rm.contains(p), |p: Seq<char>| !lies_under(p, dir_v));
    }
    match config.add_include_path(plan.add.as_str()) {
        Ok(()) => {},
        Err(e) => {
            return Err(e);
        },
    }
    Ok(switch_message(global, profile_name))
}

/// The line that reports a switch to `profile_name`, in the global or the
/// local configuration.
pub fn switch_message(global: bool, profile_name: &str) -> (r: String)
    ensures
        r@ == switch_message_of(global, profile_name@),
{
    let mut message = if global {
        String::from_str("Global git profile switched to: ")
    } else {
        String::from_str("Local git profile switched to: ")
    };
    message.append(profile_name);
    message
}

/// Switching twice in a row to the same profile leaves the same values of
/// `include.path` as switching once.
pub proof fn lemma_switch_idempotent(paths: Seq<Seq<char>>, dir: Seq<char>, name: Seq<char>)
    requires
        valid_profile_name(name),
    ensures
        switched(switched(paths, dir, name), dir, name) == switched(paths, dir, name),
{
    let foreign = |p: Seq<char>| !lies_under(p, dir);
    let f = foreign_paths(paths, dir);
    lemma_profile_path_lies_under(dir, name);
    f.lemma_filter_push(profile_path_of(dir, name), foreign);
    lemma_filter_all_pass(paths, foreign);
    lemma_filter_keeps_all(f, foreign);
}

/// Where no value lies under the profile directory, a switch keeps every
/// value, in order, and adds the profile's path after them.
pub proof fn lemma_switch_keeps_foreign(paths: Seq<Seq<char>>, dir: Seq<char>, name: Seq<char>)
    requires
        valid_profile_name(name),
        forall|i: int| 0 <= i < paths.len() ==> !lies_under(#[trigger] paths[i], dir),
    ensures
        switched(paths, dir, name) == paths.push(profile_path_of(dir, name)),
{
    let foreign = |p: Seq<char>| !lies_under(p, dir);
    assert forall|x: Seq<char>| paths.contains(x) implies foreign(x) by {
        let k = choose|k: int| 0 <= k < paths.len() && #[trigger] paths[k] == x;
    }
    lemma_filter_keeps_all(paths, foreign);
}

/// After a switch, whatever the values were before, exactly one value lies
/// under the profile directory: the path of the profile switched to.
pub proof fn lemma_switch_single_managed(paths: Seq<Seq<char>>, dir: Seq<char>, name: Seq<char>)
    requires
        valid_profile_name(name),
    ensures
        managed_paths(switched(paths, dir, name), dir) == seq![profile_path_of(dir, name)],
{
    let foreign = |p: Seq<char>| !lies_under(p, dir);
    let managed = |p: Seq<char>| lies_under(p, dir);
    let f = foreign_paths(paths, dir);
    lemma_profile_path_lies_under(dir, name);
    f.lemma_filter_push(profile_path_of(dir, name), managed);
    lemma_filter_all_pass(paths, foreign);
    assert(f.all(|x: Seq<char>| !managed(x)));
    f.lemma_all_neg_filter_empty(managed);
    assert(f.filter(managed) =~= Seq::<Seq<char>>::empty());
    assert(Seq::<Seq<char>>::empty().push(profile_path_of(dir, name)) =~= seq![profile_path_of(dir, name)]);
}

/// Every element that a filter keeps meets its predicate.
proof fn lemma_filter_all_pass<A>(s: Seq<A>, p: spec_fn(A) -> bool)
    ensures
        forall|x: A| s.filter(p).contains(x) ==> p(x),
        forall|i: int| 0 <= i < s.filter(p).len() ==> p(#[trigger] s.filter(p)[i]),
{
    broadcast use vstd::seq_lib::group_filter_ensures;

    assert forall|x: A| s.filter(p).contains(x) implies p(x) by {
        let k = choose|k: int| 0 <= k < s.filter(p).len() && #[trigger] s.filter(p)[k] == x;
    }
}

/// What a sequence with one more element holds.
proof fn lemma_push_contains<A>(s: Seq<A>, v: A, x: A)
    ensures
        s.push(v).contains(x) <==> (s.contains(x) || x == v),
{
    if s.push(v).contains(x) {
        let k = choose|k: int| 0 <= k < s.len() + 1 && #[trigger] s.push(v)[k] == x;
        if k < s.len() {
            assert(s[k] == x);
        }
    }
    if s.contains(x) {
        let k = choose|k: int| 0 <= k < s.len() && #[trigger] s[k] == x;
        assert(s.push(v)[k] == x);
    }
    if x == v {
        assert(s.push(v)[s.len() as int] == x);
    }
}

/// Filtering twice keeps what both predicates keep.
proof fn lemma_filter_filter<A>(s: Seq<A>, p: spec_fn(A) -> bool, q: spec_fn(A) -> bool)
    ensures
        s.filter(p).filter(q) == s.filter(|x: A| p(x) && q(x)),
    decreases s.len(),
{
    let pq = |x: A| p(x) && q(x);
    if s.len() == 0 {
        reveal(Seq::filter);
        assert(s.filter(p) =~= s);
        assert(s.filter(pq) =~= s);
    } else {
        let t = s.drop_last();
        let x = s.last();
        assert(s =~= t.push(x));
        lemma_filter_filter(t, p, q);
        t.lemma_filter_push(x, p);
        t.lemma_filter_push(x, pq);
        if p(x) {
            t.filter(p).lemma_filter_push(x, q);
        }
    }
}

/// Predicates that agree on the elements of `s` keep the same elements.
proof fn lemma_filter_congruent_on<A>(s: Seq<A>, p: spec_fn(A) -> bool, q: spec_fn(A) -> bool)
    requires
        forall|x: A| s.contains(x) ==> p(x) == q(x),
    ensures
        s.filter(p) == s.filter(q),
    decreases s.len(),
{
    if s.len() == 0 {
        reveal(Seq::filter);
    } else {
        let t = s.drop_last();
        let x = s.last();
        assert(s =~= t.push(x));
        assert forall|y: A| t.contains(y) implies p(y) == q(y) by {
            let k = choose|k: int| 0 <= k < t.len() && #[trigger] t[k] == y;
            assert(0 <= k < s.len() && t[k] == s[k]);
            assert(s.contains(y));
        }
        lemma_filter_congruent_on(t, p, q);
        assert(s[s.len() - 1] == x);
        assert(s.contains(x));
        t.lemma_filter_push(x, p);
        t.lemma_filter_push(x, q);
    }
}

/// A predicate that holds of every element keeps them all.
proof fn lemma_filter_keeps_all<A>(s: Seq<A>, p: spec_fn(A) -> bool)
    requires
        forall|x: A| s.contains(x) ==> p(x),
    ensures
        s.filter(p) == s,
    decreases s.len(),
{
    if s.len() == 0 {
        reveal(Seq::filter);
    } else {
        let t = s.drop_last();
        let x = s.last();
        assert(s =~= t.push(x));
        assert forall|y: A| t.contains(y) implies p(y) by {
            let k = choose|k: int| 0 <= k < t.len() && #[trigger] t[k] == y;
            assert(0 <= k < s.len() && t[k] == s[k]);
            assert(s.contains(y));
        }
        lemma_filter_keeps_all(t, p);
        assert(s[s.len() - 1] == x);
        assert(s.contains(x));
        t.lemma_filter_push(x, p);
    }
}

/// Predicates that agree everywhere keep the same elements.
proof fn lemma_filter_congruent<A>(s: Seq<A>, p: spec_fn(A) -> bool, q: spec_fn(A) -> bool)
    requires
        forall|x: A| #[trigger] p(x) == q(x),
    ensures
        s.filter(p) == s.filter(q),
{
    assert(p =~= q);
}

/// An element of `s` is in `s.filter(p)` exactly when `p` holds of it.
proof fn lemma_filter_has<A>(s: Seq<A>, p: spec_fn(A) -> bool, x: A)
    requires
        s.contains(x),
    ensures
        s.filter(p).contains(x) == p(x),
{
    broadcast use vstd::seq_lib::group_filter_ensures;

    if p(x) {
        let k = choose|k: int| 0 <= k < s.len() && s[k] == x;
        s.lemma_filter_contains(p, k);
    } else if s.filter(p).contains(x) {
        let k = choose|k: int| 0 <= k < s.filter(p).len() && s.filter(p)[k] == x;
    }
}

} // verus!
