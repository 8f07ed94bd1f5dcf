use vstd::prelude::*;

use crate::name::valid_profile_name;

verus! {

/// The parts of `s` between slashes, in order: `n` slashes give `n + 1`
/// parts, some of which may be empty.
pub open spec fn split_slash(s: Seq<char>) -> Seq<Seq<char>>
    decreases s.len(),
{
    if s.len() == 0 {
        seq![Seq::empty()]
    } else {
        let rest = split_slash(s.drop_last());
        if s.last() == '/' {
            rest.push(Seq::empty())
        } else {
            rest.update(rest.len() - 1, rest.last().push(s.last()))
        }
    }
}

/// A part that names a directory entry: neither empty nor `.`.
pub open spec fn is_named_part(p: Seq<char>) -> bool {
    p.len() > 0 && p != seq!['.']
}

/// The component that stands for the root of an absolute path. No named part
/// is equal to it, since a part holds no slash.
pub open spec fn root_component() -> Seq<char> {
    seq!['/']
}

/// The components of a path: the root for an absolute path, then each named
/// part. Repeated slashes, a trailing slash and `.` parts add nothing.
pub open spec fn components(s: Seq<char>) -> Seq<Seq<char>> {
    let named = split_slash(s).filter(|p: Seq<char>| is_named_part(p));
    if s.len() > 0 && s[0] == '/' {
        seq![root_component()] + named
    } else {
        named
    }
}

/// `path` lies under `dir` when the components of `dir` begin those of
/// `path` (a directory lies under itself).
pub open spec fn lies_under(path: Seq<char>, dir: Seq<char>) -> bool {
    components(dir).is_prefix_of(components(path))
}

proof fn lemma_split_slash_len(s: Seq<char>)
    ensures
        split_slash(s).len() >= 1,
    decreases s.len(),
{
    if s.len() > 0 {
        lemma_split_slash_len(s.drop_last());
    }
}

/// The components of `s`, each as its characters.
fn path_components(s: &str) -> (r: Vec<Vec<char>>)
    ensures
        r@.map_values(|c: Vec<char>| c@) == components(s@),
{
    let n = s.unicode_len();
    let mut out: Vec<Vec<char>> = Vec::new();
    let ghost mut done: Seq<Seq<char>> = Seq::empty();
    let mut cur: Vec<char> = Vec::new();
    if n > 0 && s.get_char(0) == '/' {
        let mut root: Vec<char> = Vec::new();
        root.push('/');
        assert(root@ =~= root_component());
        out.push(root);
        assert(out@.map_values(|c: Vec<char>| c@) =~= seq![root_component()]);
    }
    let ghost head: Seq<Seq<char>> = out@.map_values(|c: Vec<char>| c@);
    let mut i: usize = 0;
    while i < n
        invariant
            n == s@.len(),
            i <= n,
            split_slash(s@.take(i as int)) == done.push(cur@),
            out@.map_values(|c: Vec<char>| c@) == head + done.filter(|p: Seq<char>| is_named_part(p)),
        decreases n - i,
    {
        let c = s.get_char(i);
        assert(s@.take(i as int + 1).drop_last() =~= s@.take(i as int));
        if c == '/' {
            proof {
                done.filter(|p: Seq<char>| is_named_part(p)).lemma_filter_push(cur@, |p: Seq<char>| is_named_part(p));
            }
            let ghost old_out = out@;
            if is_named(&cur) {
                out.push(cur);
                assert(out@.map_values(|c: Vec<char>| c@) =~= old_out.map_values(|c: Vec<char>| c@).push(cur@));
            }
            proof {
                done.lemma_filter_push(cur@, |p: Seq<char>| is_named_part(p));
                done = done.push(cur@);
            }
            cur = Vec::new();
        } else {
            cur.push(c);
        }
        i += 1;
    }
    assert(s@.take(n as int) =~= s@);
    proof {
        done.lemma_filter_push(cur@, |p: Seq<char>| is_named_part(p));
    }
    let ghost old_out = out@;
    if is_named(&cur) {
        out.push(cur);
        assert(out@.map_values(|c: Vec<char>| c@) =~= old_out.map_values(|c: Vec<char>| c@).push(cur@));
    }
    out
}

fn is_named(p: &Vec<char>) -> (r: bool)
    ensures
        r == is_named_part(p@),
{
    if p.len() == 0 {
        return false;
    }
    if p.len() == 1 && p[0] == '.' {
        assert(p@ =~= seq!['.']);
        return false;
    }
    assert(p@ != seq!['.']) by {
        if p@ =~= seq!['.'] { assert(p@[0] == '.'); }
    }
    true
}

/// The extension of a profile file, with its dot.
pub open spec fn profile_extension() -> Seq<char> {
    seq!['.', 'g', 'i', 't', 'c', 'o', 'n', 'f', 'i', 'g']
}

/// Where the profile `name` of the directory `dir` is stored:
/// `<dir>/<name>.gitconfig`.
pub open spec fn profile_path_of(dir: Seq<char>, name: Seq<char>) -> Seq<char> {
    dir + seq!['/'] + name + profile_extension()
}

/// Whether the path `path` lies under the directory `dir`, comparing whole
/// components: `/a/bc` lies under `/a` and `/a/` but not under `/a/b`.
pub fn path_lies_under(path: &str, dir: &str) -> (r: bool)
    ensures
        r == lies_under(path@, dir@),
{
    let pc = path_components(path);
    let dc = path_components(dir);
    let ghost pv = pc@.map_values(|c: Vec<char>| c@);
    let ghost dv = dc@.map_values(|c: Vec<char>| c@);
    assert(pv == components(path@) && dv == components(dir@));
    if dc.len() > pc.len() {
        return false;
    }
    let mut i: usize = 0;
    while i < dc.len()
        invariant
            dc.len() <= pc.len(),
            i <= dc.len(),
            pv == pc@.map_values(|c: Vec<char>| c@),
            dv == dc@.map_values(|c: Vec<char>| c@),
            pv == components(path@),
            dv == components(dir@),
            forall|j: int| 0 <= j < i ==> dv[j] == pv[j],
        decreases dc.len() - i,
    {
        if !chars_equal(&dc[i], &pc[i]) {
            assert(dv[i as int] == dc@[i as int]@ && pv[i as int] == pc@[i as int]@);
            assert(dv[i as int] != pv.subrange(0, dv.len() as int)[i as int]);
            return false;
        }
        i += 1;
    }
    assert(dv =~= pv.subrange(0, dv.len() as int));
    true
}

fn chars_equal(a: &Vec<char>, b: &Vec<char>) -> (r: bool)
    ensures
        r == (a@ == b@),
{
    if a.len() != b.len() {
        return false;
    }
    let mut i: usize = 0;
    while i < a.len()
        invariant
            a.len() == b.len(),
            i <= a.len(),
            forall|j: int| 0 <= j < i ==> a@[j] == b@[j],
        decreases a.len() - i,
    {
        if a[i] != b[i] {
            return false;
        }
        i += 1;
    }
    assert(a@ =~= b@);
    true
}

/// The path of the profile `name` in the directory `dir`.
pub fn profile_path(dir: &str, name: &str) -> (r: String)
    ensures
        r@ == profile_path_of(dir@, name@),
{
    let mut r = String::from_str(dir);
    r.append("/");
    r.append(name);
    r.append(".gitconfig");
    proof {
        reveal_strlit("/");
        reveal_strlit(".gitconfig");
    }
    assert(r@ =~= profile_path_of(dir@, name@));
    r
}

/// Appending text without a slash extends the last part.
proof fn lemma_split_slash_append(a: Seq<char>, b: Seq<char>)
    requires
        !b.contains('/'),
    ensures
        split_slash(a + b) == split_slash(a).update(
            split_slash(a).len() - 1,
            split_slash(a).last() + b,
        ),
    decreases b.len(),
{
    lemma_split_slash_len(a);
    if b.len() == 0 {
        assert(a + b =~= a);
        assert(split_slash(a).last() + b =~= split_slash(a).last());
        assert(split_slash(a).update(split_slash(a).len() - 1, split_slash(a).last())
            =~= split_slash(a));
    } else {
        let b0 = b.drop_last();
        assert(!b0.contains('/')) by {
            if b0.contains('/') {
                let k = choose|k: int| 0 <= k < b0.len() && b0[k] == '/';
                assert(b[k] == '/');
            }
        }
        lemma_split_slash_append(a, b0);
        assert((a + b).drop_last() =~= a + b0);
        assert((a + b).last() == b.last());
        assert(b.last() != '/') by {
            assert(b[b.len() - 1] == b.last());
        }
        lemma_split_slash_len(a + b0);
        let sa = split_slash(a);
        let rest = split_slash(a + b0);
        assert(rest.len() == sa.len());
        assert(rest.last() == sa.last() + b0);
        assert(split_slash(a + b) == rest.update(rest.len() - 1, rest.last().push(b.last())));
        assert(rest.last().push(b.last()) =~= sa.last() + b);
        assert(rest.update(rest.len() - 1, rest.last().push(b.last())) =~= sa.update(sa.len() - 1, sa.last() + b));
        assert(split_slash(a + b) =~= split_slash(a).update(
            split_slash(a).len() - 1,
            split_slash(a).last() + b,
        ));
    }
}

/// The file name of a profile is one named part.
proof fn lemma_profile_file_is_part(name: Seq<char>)
    requires
        valid_profile_name(name),
    ensures
        !(name + profile_extension()).contains('/'),
        is_named_part(name + profile_extension()),
{
    let f = name + profile_extension();
    assert(f.len() > 1);
    if f.contains('/') {
        let k = choose|k: int| 0 <= k < f.len() && f[k] == '/';
        if k < name.len() {
            assert(name[k] == '/');
        } else {
            assert(profile_extension()[k - name.len()] == '/');
        }
    }
    assert(f != seq!['.']) by {
        if f == seq!['.'] { assert(f.len() == 1); }
    }
}

/// The components of a profile's path are those of its directory and then
/// the file name.
pub proof fn lemma_profile_path_components(dir: Seq<char>, name: Seq<char>)
    requires
        valid_profile_name(name),
        dir.len() > 0,
    ensures
        components(profile_path_of(dir, name)) == components(dir).push(name + profile_extension()),
{
    let f = name + profile_extension();
    let x = dir.push('/');
    lemma_profile_file_is_part(name);
    assert(x.drop_last() =~= dir);
    lemma_split_slash_len(dir);
    assert(split_slash(x) == split_slash(dir).push(Seq::empty()));
    lemma_split_slash_append(x, f);
    assert(Seq::<char>::empty() + f =~= f);
    assert(split_slash(x + f) =~= split_slash(dir).push(f));
    assert(profile_path_of(dir, name) =~= x + f);
    split_slash(dir).lemma_filter_push(f, |p: Seq<char>| is_named_part(p));
    let t = profile_path_of(dir, name);
    assert(t[0] == dir[0]);
    if dir[0] == '/' {
        assert(seq![root_component()] + split_slash(dir).filter(|p: Seq<char>| is_named_part(p)).push(f)
            =~= (seq![root_component()] + split_slash(dir).filter(|p: Seq<char>| is_named_part(p))).push(f));
    }
}

/// A profile's path lies under its directory.
pub proof fn lemma_profile_path_lies_under(dir: Seq<char>, name: Seq<char>)
    requires
        valid_profile_name(name),
    ensures
        lies_under(profile_path_of(dir, name), dir),
{
    if dir.len() > 0 {
        lemma_profile_path_components(dir, name);
        let c = components(dir);
        assert(c =~= c.push(name + profile_extension()).subrange(0, c.len() as int));
    } else {
        assert(split_slash(dir) =~= seq![Seq::<char>::empty()]);
        reveal_with_fuel(Seq::filter, 2);
        assert(split_slash(dir).drop_last() =~= Seq::<Seq<char>>::empty());
        assert(components(dir) =~= Seq::<Seq<char>>::empty());
    }
}

} // verus!
