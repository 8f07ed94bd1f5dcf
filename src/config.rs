use vstd::prelude::*;

use crate::error::GitProfileError;

verus! {

/// The characters of each string, in order.
pub open spec fn string_views(v: Seq<String>) -> Seq<Seq<char>> {
    v.map_values(|s: String| s@)
}

/// A configuration store that holds the values of the multi-valued key
/// `include.path`.
///
/// An operation that fails may leave the values in any state. A store's
/// own failure is never a `ProfilePath` error, which names a profile that
/// was refused.
pub trait GitConfig {
    /// The values of `include.path`, in the order in which the store lists
    /// them.
    spec fn include_paths(&self) -> Seq<Seq<char>>;

    /// Whether the store's operations cannot fail: each of them then
    /// succeeds, and the store stays so.
    spec fn infallible(&self) -> bool;

    /// Adds `path` as one more value, after the others.
    fn add_include_path(&mut self, path: &str) -> (r: Result<(), GitProfileError>)
        ensures
            r is Ok ==> final(self).include_paths() == old(self).include_paths().push(path@),
            old(self).infallible() ==> (r is Ok && final(self).infallible()),
            r matches Err(e) ==> !(e is ProfilePath),
    ;

    /// Removes every value equal to `path`, keeping the others in order.
    fn remove_include_path(&mut self, path: &str) -> (r: Result<(), GitProfileError>)
        ensures
            r is Ok ==> final(self).include_paths() == old(self).include_paths().filter(
                |p: Seq<char>| p != path@,
            ),
            old(self).infallible() ==> (r is Ok && final(self).infallible()),
            r matches Err(e) ==> !(e is ProfilePath),
    ;

    /// All values, in order.
    fn get_include_paths(&self) -> (r: Result<Vec<String>, GitProfileError>)
        ensures
            r matches Ok(v) ==> string_views(v@) == self.include_paths(),
            self.infallible() ==> r is Ok,
            r matches Err(e) ==> !(e is ProfilePath),
    ;
}

/// A configuration store held in memory; none of its operations fails.
#[derive(Debug)]
pub struct MemoryGitConfig {
    /// The values of `include.path`, in order.
    pub include_paths: Vec<String>,
}

impl MemoryGitConfig {
    /// A store with no values.
    pub fn new() -> (r: Self)
        ensures
            r.include_paths@.len() == 0,
    {
        MemoryGitConfig { include_paths: Vec::new() }
    }
}

impl GitConfig for MemoryGitConfig {
    open spec fn include_paths(&self) -> Seq<Seq<char>> {
        string_views(self.include_paths@)
    }

    open spec fn infallible(&self) -> bool {
        true
    }

    fn add_include_path(&mut self, path: &str) -> (r: Result<(), GitProfileError>)
        ensures
            r is Ok,
            final(self).include_paths() == old(self).include_paths().push(path@),
    {
        let ghost before = self.include_paths@;
        self.include_paths.push(path.to_string());
        assert(string_views(self.include_paths@) =~= string_views(before).push(path@));
        Ok(())
    }

    fn remove_include_path(&mut self, path: &str) -> (r: Result<(), GitProfileError>)
        ensures
            r is Ok,
            final(self).include_paths() == old(self).include_paths().filter(
                |p: Seq<char>| p != path@,
            ),
    {
        let ghost pred = |p: Seq<char>| p != path@;
        let ghost before = string_views(self.include_paths@);
        let target = path.to_string();
        let mut kept: Vec<String> = Vec::new();
        let mut i: usize = 0;
        while i < self.include_paths.len()
            invariant
                i <= self.include_paths.len(),
                before == string_views(self.include_paths@),
                target@ == path@,
                pred == (|p: Seq<char>| p != path@),
                string_views(kept@) == before.take(i as int).filter(pred),
            decreases self.include_paths.len() - i,
        {
            let ghost kept_before = kept@;
            assert(before.take(i as int + 1) =~= before.take(i as int).push(before[i as int]));
            proof { before.take(i as int).lemma_filter_push(before[i as int], pred); }
            assert(before[i as int] == self.include_paths@[i as int]@);
            if !(self.include_paths[i] == target) {
                kept.push(self.include_paths[i].clone());
                assert(string_views(kept@) =~= string_views(kept_before).push(before[i as int]));
            }
            i += 1;
        }
        assert(before.take(i as int) =~= before);
        self.include_paths = kept;
        Ok(())
    }

    fn get_include_paths(&self) -> (r: Result<Vec<String>, GitProfileError>)
        ensures
            r matches Ok(v) && string_views(v@) == self.include_paths(),
    {
        let mut out: Vec<String> = Vec::new();
        let mut i: usize = 0;
        while i < self.include_paths.len()
            invariant
                i <= self.include_paths.len(),
                string_views(out@) == string_views(self.include_paths@).take(i as int),
            decreases self.include_paths.len() - i,
        {
            let ghost out_before = out@;
            out.push(self.include_paths[i].clone());
            assert(string_views(out@) =~= string_views(out_before).push(self.include_paths@[i as int]@));
            assert(string_views(self.include_paths@).take(i as int + 1) =~= string_views(self.include_paths@).take(i as int).push(self.include_paths@[i as int]@));
            i += 1;
        }
        assert(string_views(self.include_paths@).take(i as int) =~= string_views(self.include_paths@));
        Ok(out)
    }
}

} // verus!
