use vstd::prelude::*;
use vstd::seq_lib::{to_multiset_build, to_multiset_insert};

use crate::config::{string_views, GitConfig};
use crate::error::GitProfileError;
use crate::path::profile_extension;

verus! {

/// One entry of the profile directory.
#[derive(Debug)]
pub struct ProfileEntry {
    /// The entry's file name, or `None` where it is not valid UTF-8.
    pub file_name: Option<String>,
    /// The entry's path.
    pub path: String,
    /// Whether the entry is a regular file.
    pub is_file: bool,
}

/// One listed profile: its name, the path of its file, and whether a value
/// of `include.path` is that path.
pub type ProfileRecord = (String, String, bool);

/// The profile that a file of this name holds: the file name without its
/// `.gitconfig` extension, where that leaves a name that is not empty.
pub open spec fn profile_name_of(file_name: Seq<char>) -> Option<Seq<char>> {
    let n = file_name.len();
    let e = profile_extension().len();
    if n > e && file_name.subrange(n - e, n as int) == profile_extension() {
        Some(file_name.subrange(0, n - e))
    } else {
        None
    }
}

/// The characters of a record's name and path, and its mark.
pub open spec fn record_view(r: ProfileRecord) -> (Seq<char>, Seq<char>, bool) {
    (r.0@, r.1@, r.2)
}

/// The record that an entry gives, where it is a profile file.
pub open spec fn entry_record(e: ProfileEntry, current: Seq<Seq<char>>) -> Option<
    (Seq<char>, Seq<char>, bool),
> {
    if e.is_file && e.file_name is Some {
        match profile_name_of(e.file_name->Some_0@) {
            Some(name) => Some((name, e.path@, current.contains(e.path@))),
            None => None,
        }
    } else {
        None
    }
}

/// The records of the profile files among `entries`, in their order.
pub open spec fn entry_records(entries: Seq<ProfileEntry>, current: Seq<Seq<char>>) -> Seq<
    (Seq<char>, Seq<char>, bool),
>
    decreases entries.len(),
{
    if entries.len() == 0 {
        Seq::empty()
    } else {
        let rest = entry_records(entries.drop_last(), current);
        match entry_record(entries.last(), current) {
            Some(r) => rest.push(r),
            None => rest,
        }
    }
}

/// Lexicographic order of characters, by code point; for strings this is the
/// order of their UTF-8 bytes.
pub open spec fn name_le(a: Seq<char>, b: Seq<char>) -> bool
    decreases a.len(),
{
    if a.len() == 0 {
        true
    } else if b.len() == 0 {
        false
    } else if a[0] != b[0] {
        a[0] < b[0]
    } else {
        name_le(a.drop_first(), b.drop_first())
    }
}

/// Records ordered by name.
pub open spec fn sorted_by_name(rs: Seq<(Seq<char>, Seq<char>, bool)>) -> bool {
    forall|i: int, j: int| 0 <= i < j < rs.len() ==> name_le(#[trigger] rs[i].0, #[trigger] rs[j].0)
}

proof fn lemma_name_le_total(a: Seq<char>, b: Seq<char>)
    ensures
        name_le(a, b) || name_le(b, a),
    decreases a.len(),
{
    if a.len() > 0 && b.len() > 0 && a[0] == b[0] {
        lemma_name_le_total(a.drop_first(), b.drop_first());
    }
}

proof fn lemma_name_le_trans(a: Seq<char>, b: Seq<char>, c: Seq<char>)
    requires
        name_le(a, b),
        name_le(b, c),
    ensures
        name_le(a, c),
    decreases a.len(),
{
    if a.len() > 0 && b.len() > 0 && c.len() > 0 && a[0] == b[0] && b[0] == c[0] {
        lemma_name_le_trans(a.drop_first(), b.drop_first(), c.drop_first());
    }
}

/// Whether `a` comes no later than `b` in the order of names.
fn names_in_order(a: &String, b: &String) -> (r: bool)
    ensures
        r == name_le(a@, b@),
{
    let sa = a.as_str();
    let sb = b.as_str();
    let na = sa.unicode_len();
    let nb = sb.unicode_len();
    let mut i: usize = 0;
    assert(a@.skip(0) =~= a@ && b@.skip(0) =~= b@);
    while i < na && i < nb
        invariant
            na == a@.len(),
            nb == b@.len(),
            sa@ == a@,
            sb@ == b@,
            i <= na,
            i <= nb,
            name_le(a@, b@) == name_le(a@.skip(i as int), b@.skip(i as int)),
        decreases na - i,
    {
        let ca = sa.get_char(i);
        let cb = sb.get_char(i);
        assert(a@.skip(i as int)[0] == ca && b@.skip(i as int)[0] == cb);
        if ca != cb {
            return ca < cb;
        }
        assert(a@.skip(i as int).drop_first() =~= a@.skip(i as int + 1));
        assert(b@.skip(i as int).drop_first() =~= b@.skip(i as int + 1));
        i += 1;
    }
    i == na
}

/// Whether `values` holds `path`.
fn holds_value(values: &Vec<String>, path: &String) -> (r: bool)
    ensures
        r == string_views(values@).contains(path@),
{
    let mut i: usize = 0;
    while i < values.len()
        invariant
            i <= values.len(),
            forall|j: int| 0 <= j < i ==> values@[j]@ != path@,
        decreases values.len() - i,
    {
        if values[i] == *path {
            assert(string_views(values@)[i as int] == path@);
            return true;
        }
        i += 1;
    }
    assert forall|j: int| 0 <= j < values@.len() implies string_views(values@)[j] != path@ by {
        assert(string_views(values@)[j] == values@[j]@);
    }
    false
}

/// The profile that a file of this name holds.
fn profile_name_from_file(file_name: &str) -> (r: Option<String>)
    ensures
        match r {
            Some(n) => profile_name_of(file_name@) == Some(n@),
            None => profile_name_of(file_name@) is None,
        },
{
    let ext = ".gitconfig";
    proof {
        reveal_strlit(".gitconfig");
    }
    assert(ext@ == profile_extension());
    let n = file_name.unicode_len();
    let e = ext.unicode_len();
    if n <= e {
        return None;
    }
    let mut i: usize = 0;
    while i < e
        invariant
            n == file_name@.len(),
            e == ext@.len(),
            ext@ == profile_extension(),
            e < n,
            i <= e,
            forall|j: int| 0 <= j < i ==> file_name@[n - e + j] == ext@[j],
        decreases e - i,
    {
        if file_name.get_char(n - e + i) != ext.get_char(i) {
            assert(file_name@.subrange(n - e, n as int)[i as int] != profile_extension()[i as int]);
            return None;
        }
        i += 1;
    }
    assert(file_name@.subrange(n - e, n as int) =~= profile_extension());
    Some(file_name.substring_char(0, n - e).to_string())
}

/// The record of `entry`, where it is a profile file.
fn record_of(entry: &ProfileEntry, current: &Vec<String>) -> (r: Option<ProfileRecord>)
    ensures
        match r {
            Some(rec) => entry_record(*entry, string_views(current@)) == Some(record_view(rec)),
            None => entry_record(*entry, string_views(current@)) is None,
        },
{
    if !entry.is_file {
        return None;
    }
    match &entry.file_name {
        None => None,
        Some(f) => match profile_name_from_file(f.as_str()) {
            None => None,
            Some(name) => {
                let is_current = holds_value(current, &entry.path);
                Some((name, entry.path.clone(), is_current))
            },
        },
    }
}

/// The profiles among the entries of the profile directory, ordered by name.
/// A profile is a regular file named `<name>.gitconfig`; it is marked where
/// its path is one of the values `current` of `include.path`.
pub fn collect_profiles(entries: &Vec<ProfileEntry>, current: &Vec<String>) -> (r: Vec<
    ProfileRecord,
>)
    ensures
        sorted_by_name(r@.map_values(|x: ProfileRecord| record_view(x))),
        r@.map_values(|x: ProfileRecord| record_view(x)).to_multiset() == entry_records(
            entries@,
            string_views(current@),
        ).to_multiset(),
{
    let ghost cur = string_views(current@);
    let mut out: Vec<ProfileRecord> = Vec::new();
    let mut i: usize = 0;
    proof {
        assert(entries@.take(0) =~= Seq::<ProfileEntry>::empty());
        assert(out@.map_values(|x: ProfileRecord| record_view(x)) =~= Seq::empty());
        assert(entry_records(entries@.take(0), cur) =~= Seq::empty());
    }
    while i < entries.len()
        invariant
            i <= entries.len(),
            cur == string_views(current@),
            sorted_by_name(out@.map_values(|x: ProfileRecord| record_view(x))),
            out@.map_values(|x: ProfileRecord| record_view(x)).to_multiset() == entry_records(
                entries@.take(i as int),
                cur,
            ).to_multiset(),
        decreases entries.len() - i,
    {
        assert(entries@.take(i as int + 1).drop_last() =~= entries@.take(i as int));
        assert(entries@.take(i as int + 1).last() == entries@[i as int]);
        match record_of(&entries[i], current) {
            None => {},
            Some(rec) => {
                let ghost old_view = out@.map_values(|x: ProfileRecord| record_view(x));
                let mut pos: usize = out.len();
                while pos > 0 && !names_in_order(&out[pos - 1].0, &rec.0)
                    invariant
                        pos <= out.len(),
                        old_view == out@.map_values(|x: ProfileRecord| record_view(x)),
                        forall|j: int| pos <= j < out.len() ==> !name_le(#[trigger] old_view[j].0, rec.0@),
                    decreases pos,
                {
                    pos -= 1;
                }
                proof {
                    assert forall|j: int| pos <= j < out.len() implies name_le(rec.0@, #[trigger] old_view[j].0) by {
                        lemma_name_le_total(rec.0@, old_view[j].0);
                    }
                    if pos > 0 {
                        assert(name_le(old_view[pos - 1].0, rec.0@));
                        assert forall|j: int| 0 <= j < pos implies name_le(#[trigger] old_view[j].0, rec.0@) by {
                            if j < pos - 1 {
                                lemma_name_le_trans(old_view[j].0, old_view[pos - 1].0, rec.0@);
                            }
                        }
                    }
                }
                out.insert(pos, rec);
                proof {
                    let nv = out@.map_values(|x: ProfileRecord| record_view(x));
                    assert(nv =~= old_view.insert(pos as int, record_view(rec)));
                    to_multiset_insert(old_view, pos as int, record_view(rec));
                    to_multiset_build(entry_records(entries@.take(i as int), cur), record_view(rec));
                    assert forall|a: int, b: int| 0 <= a < b < nv.len() implies name_le(#[trigger] nv[a].0, #[trigger] nv[b].0) by {
                        if a < pos && b > pos {
                            lemma_name_le_trans(nv[a].0, rec.0@, nv[b].0);
                        }
                    }
                }
            },
        }
        i += 1;
    }
    assert(entries@.take(i as int) =~= entries@);
    out
}

/// Lists the profiles of the profile directory, ordered by name, each marked
/// where a value of `include.path` of `config` is its path. `entries` is
/// `None` where the directory does not exist: then the list is empty and the
/// store is not read. An error of the store is passed on; a store that cannot
/// fail gives success.
pub fn list_profiles<C: GitConfig>(entries: Option<Vec<ProfileEntry>>, config: &C) -> (r: Result<
    Vec<ProfileRecord>,
    GitProfileError,
>)
    ensures
        entries is None ==> (r matches Ok(v) && v@.len() == 0),
        config.infallible() ==> r is Ok,
        entries matches Some(es) ==> (r matches Ok(v) ==> {
            &&& sorted_by_name(v@.map_values(|x: ProfileRecord| record_view(x)))
            &&& v@.map_values(|x: ProfileRecord| record_view(x)).to_multiset() == entry_records(
                es@,
                config.include_paths(),
            ).to_multiset()
        }),
{
    match entries {
        None => Ok(Vec::new()),
        Some(es) => {
            let current = match config.get_include_paths() {
                Ok(v) => v,
                Err(e) => {
                    return Err(e);
                },
            };
            Ok(collect_profiles(&es, &current))
        },
    }
}

/// The line that shows one listed profile: a `*` mark for the current one,
/// the name, and with `verbose` the path after an arrow.
pub open spec fn profile_line_of(name: Seq<char>, path: Seq<char>, is_current: bool, verbose: bool) -> Seq<char> {
    let mark = if is_current { "* "@ } else { "  "@ };
    if verbose {
        mark + name + " -> "@ + path
    } else {
        mark + name
    }
}

/// The line that shows one listed profile.
pub fn profile_line(name: &str, path: &str, is_current: bool, verbose: bool) -> (r: String)
    ensures
        r@ == profile_line_of(name@, path@, is_current, verbose),
{
    let mut line = if is_current {
        String::from_str("* ")
    } else {
        String::from_str("  ")
    };
    line.append(name);
    if verbose {
        line.append(" -> ");
        line.append(path);
    }
    line
}

} // verus!
