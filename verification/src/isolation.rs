//! Per-session filesystem isolation sandbox: derives a private directory tree
//! from the session id, binds a captured application's environment variables
//! into it, plans the seeding of shared files, and tears the tree down exactly
//! once.
//!
//! The sandbox is modelled here; the directory operations themselves (create,
//! copy, remove) are filesystem work done by the caller with the paths this
//! module derives.

use vstd::prelude::*;
use crate::digits::{dec_of, lemma_dec_of_injective, u128_to_dec_chars};
use crate::text::{str_to_chars, string_from_chars, string_of, append_str_chars};
use vstd::string::StringExecFns;

verus! {

/// Base directory under which every session's sandbox root is created.
pub const SANDBOX_BASE: &'static str = "/tmp/rustdesk-isolation/";

/// `p` names something strictly inside the directory `base`.
pub open spec fn path_under(base: Seq<char>, p: Seq<char>) -> bool {
    p.len() > base.len() && p.subrange(0, base.len() as int) == base
}

/// The suffix of `s` after its last `/`; empty when `s` is empty or ends
/// with `/`.
pub open spec fn basename(s: Seq<char>) -> Seq<char>
    decreases s.len(),
{
    if s.len() == 0 {
        s
    } else if s.last() == '/' {
        Seq::<char>::empty()
    } else {
        basename(s.drop_last()).push(s.last())
    }
}

/// An isolation sandbox failure: a supplied seed path has no file name.
#[derive(Debug, Clone, PartialEq, Eq)]
pub enum IsolationError {
    InvalidSourcePath,
}

/// The private filesystem root of one session, with its five subdirectories.
/// `live` tracks whether the tree still stands: it is set at creation and
/// cleared by the first `cleanup`, which makes teardown idempotent.
pub struct IsolationEnvironment {
    pub session_id: u128,
    pub base_dir: String,
    pub home_dir: String,
    pub data_dir: String,
    pub config_dir: String,
    pub cache_dir: String,
    pub temp_dir: String,
    pub live: bool,
}

impl IsolationEnvironment {
    /// The root path every sandbox for `id` derives: the fixed base directory
    /// followed by the decimal session id.
    pub open spec fn spec_root(id: u128) -> Seq<char> {
        SANDBOX_BASE@ + dec_of(id as nat)
    }

    /// The struct is internally consistent: each directory is the root plus
    /// one fixed component, so the whole tree lies under the root.
    pub open spec fn wf(&self) -> bool {
        &&& self.base_dir@ == Self::spec_root(self.session_id)
        &&& self.home_dir@ == self.base_dir@ + "/home"@
        &&& self.data_dir@ == self.base_dir@ + "/data"@
        &&& self.config_dir@ == self.base_dir@ + "/config"@
        &&& self.cache_dir@ == self.base_dir@ + "/cache"@
        &&& self.temp_dir@ == self.base_dir@ + "/tmp"@
    }

    /// Derives the sandbox paths for one session. The directory tree must
    /// then be created at those paths before a process is started in it.
    pub fn new(session_id: u128) -> (r: Self)
        ensures
            r.wf(),
            r.session_id == session_id,
            r.live,
    {
        let id_chars = u128_to_dec_chars(session_id);
        let id_str = string_from_chars(&id_chars);
        let base_dir = string_of(SANDBOX_BASE).concat(id_str.as_str());
        let home_dir = base_dir.clone().concat("/home");
        let data_dir = base_dir.clone().concat("/data");
        let config_dir = base_dir.clone().concat("/config");
        let cache_dir = base_dir.clone().concat("/cache");
        let temp_dir = base_dir.clone().concat("/tmp");
        IsolationEnvironment {
            session_id,
            base_dir,
            home_dir,
            data_dir,
            config_dir,
            cache_dir,
            temp_dir,
            live: true,
        }
    }

    /// Every directory of the sandbox lies strictly under its root, so
    /// removing the root removes the whole tree.
    pub proof fn lemma_tree_under_root(&self)
        requires
            self.wf(),
        ensures
            path_under(self.base_dir@, self.home_dir@),
            path_under(self.base_dir@, self.data_dir@),
            path_under(self.base_dir@, self.config_dir@),
            path_under(self.base_dir@, self.cache_dir@),
            path_under(self.base_dir@, self.temp_dir@),
    {
        reveal_strlit("/home");
        reveal_strlit("/data");
        reveal_strlit("/config");
        reveal_strlit("/cache");
        reveal_strlit("/tmp");
        assert(self.home_dir@.subrange(0, self.base_dir@.len() as int) =~= self.base_dir@);
        assert(self.data_dir@.subrange(0, self.base_dir@.len() as int) =~= self.base_dir@);
        assert(self.config_dir@.subrange(0, self.base_dir@.len() as int) =~= self.base_dir@);
        assert(self.cache_dir@.subrange(0, self.base_dir@.len() as int) =~= self.base_dir@);
        assert(self.temp_dir@.subrange(0, self.base_dir@.len() as int) =~= self.base_dir@);
    }

    /// Sandboxes of different sessions never share a root: the root path is
    /// namespaced by the session id.
    pub proof fn lemma_roots_distinct(a: &Self, b: &Self)
        requires
            a.wf(),
            b.wf(),
            a.session_id != b.session_id,
        ensures
            a.base_dir@ != b.base_dir@,
    {
        let p = SANDBOX_BASE@;
        let da = dec_of(a.session_id as nat);
        let db = dec_of(b.session_id as nat);
        if a.base_dir@ == b.base_dir@ {
            assert(da =~= (p + da).subrange(p.len() as int, (p + da).len() as int));
            assert(db =~= (p + db).subrange(p.len() as int, (p + db).len() as int));
            lemma_dec_of_injective(a.session_id as nat, b.session_id as nat);
        }
    }

    /// The first call yields the root to remove and marks the tree gone; any
    /// later call is a no-op that changes nothing and asks for nothing.
    pub fn cleanup(&mut self) -> (r: Option<String>)
        ensures
            old(self).live ==> (r matches Some(root) && root@ == old(self).base_dir@
                && !final(self).live),
            !old(self).live ==> r is None && *final(self) == *old(self),
            final(self).session_id == old(self).session_id,
            final(self).base_dir == old(self).base_dir,
            final(self).home_dir == old(self).home_dir,
            final(self).data_dir == old(self).data_dir,
            final(self).config_dir == old(self).config_dir,
            final(self).cache_dir == old(self).cache_dir,
            final(self).temp_dir == old(self).temp_dir,
    {
        if self.live {
            self.live = false;
            Some(self.base_dir.clone())
        } else {
            None
        }
    }

    /// The environment a captured process runs with: a pure function of the
    /// sandbox, each variable pointing at one of its directories.
    pub fn environment_bindings(&self) -> (r: Vec<(String, String)>)
        ensures
            r@.len() == 5,
            r@[0].0@ == "HOME"@ && r@[0].1@ == self.home_dir@,
            r@[1].0@ == "XDG_DATA_HOME"@ && r@[1].1@ == self.data_dir@,
            r@[2].0@ == "XDG_CONFIG_HOME"@ && r@[2].1@ == self.config_dir@,
            r@[3].0@ == "XDG_CACHE_HOME"@ && r@[3].1@ == self.cache_dir@,
            r@[4].0@ == "TMPDIR"@ && r@[4].1@ == self.temp_dir@,
    {
        let mut v: Vec<(String, String)> = Vec::new();
        v.push((string_of("HOME"), self.home_dir.clone()));
        v.push((string_of("XDG_DATA_HOME"), self.data_dir.clone()));
        v.push((string_of("XDG_CONFIG_HOME"), self.config_dir.clone()));
        v.push((string_of("XDG_CACHE_HOME"), self.cache_dir.clone()));
        v.push((string_of("TMPDIR"), self.temp_dir.clone()));
        v
    }
}

/// The length of `basename` of the first `n` characters of `v`: how many
/// characters of that prefix follow its last `/`.
fn basename_tail_len(v: &Vec<char>, n: usize) -> (r: usize)
    requires
        n <= v.len(),
    ensures
        r <= n,
        basename(v@.subrange(0, n as int)) == v@.subrange(n - r, n as int),
    decreases n,
{
    if n == 0 {
        assert(basename(v@.subrange(0, 0)) =~= v@.subrange(0, 0));
        0
    } else if v[n - 1] == '/' {
        assert(v@.subrange(0, n as int).last() == '/');
        assert(basename(v@.subrange(0, n as int)) =~= v@.subrange(n as int, n as int));
        0
    } else {
        let r = basename_tail_len(v, n - 1);
        assert(v@.subrange(0, n as int).drop_last() =~= v@.subrange(0, n - 1));
        assert(basename(v@.subrange(0, n as int)) == basename(v@.subrange(0, n - 1)).push(
            v@[n - 1],
        ));
        assert(basename(v@.subrange(0, n - 1)).push(v@[n - 1]) =~= v@.subrange(
            n - 1 - r,
            n as int,
        ));
        r + 1
    }
}

impl IsolationEnvironment {
    /// Where each seed path would land: `(source, home_dir/<file name>)` for
    /// every entry, or an error if some entry has no file name. The copies
    /// themselves are filesystem work done by the caller, entry by entry.
    pub fn seed_copy_plan(&self, sources: &Vec<String>) -> (r: Result<
        Vec<(String, String)>,
        IsolationError,
    >)
        ensures
            r matches Ok(plan) ==> {
                &&& plan@.len() == sources@.len()
                &&& forall|i: int|
                    0 <= i < plan@.len() ==> #[trigger] plan@[i].0@ == sources@[i]@
                        && plan@[i].1@ == self.home_dir@ + "/"@ + basename(sources@[i]@)
                &&& forall|i: int|
                    0 <= i < sources@.len() ==> basename(#[trigger] sources@[i]@).len() > 0
            },
            r matches Err(e) ==> e == IsolationError::InvalidSourcePath && exists|i: int|
                0 <= i < sources@.len() && basename(#[trigger] sources@[i]@).len() == 0,
    {
        let mut plan: Vec<(String, String)> = Vec::new();
        let mut idx: usize = 0;
        while idx < sources.len()
            invariant
                idx <= sources.len(),
                plan@.len() == idx,
                forall|i: int|
                    0 <= i < plan@.len() ==> #[trigger] plan@[i].0@ == sources@[i]@
                        && plan@[i].1@ == self.home_dir@ + "/"@ + basename(sources@[i]@),
                forall|i: int|
                    0 <= i < idx ==> basename(#[trigger] sources@[i]@).len() > 0,
            decreases sources.len() - idx,
        {
            let src = &sources[idx];
            let chars = str_to_chars(src.as_str());
            let tail = basename_tail_len(&chars, chars.len());
            assert(chars@.subrange(0, chars@.len() as int) =~= src@);
            if tail == 0 {
                assert(basename(sources@[idx as int]@).len() == 0);
                return Err(IsolationError::InvalidSourcePath);
            }
            let mut name_chars: Vec<char> = Vec::new();
            let mut j: usize = chars.len() - tail;
            while j < chars.len()
                invariant
                    tail <= chars.len(),
                    chars.len() - tail <= j <= chars.len(),
                    name_chars@ == chars@.subrange(chars@.len() - tail, j as int),
                decreases chars.len() - j,
            {
                name_chars.push(chars[j]);
                assert(name_chars@ =~= chars@.subrange(chars@.len() - tail, j + 1));
                j = j + 1;
            }
            let name = string_from_chars(&name_chars);
            let dest = self.home_dir.clone().concat("/").concat(name.as_str());
            assert(dest@ == self.home_dir@ + "/"@ + basename(sources@[idx as int]@));
            plan.push((src.clone(), dest));
            idx = idx + 1;
        }
        Ok(plan)
    }
}

} // verus!
