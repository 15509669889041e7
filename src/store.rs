use vstd::prelude::*;
use crate::folders::{flatten, matching, release_views, Folders};
use crate::listenlog::{log_listen, with_entry, ListenLog};
use crate::model::{ListenLogEntry, Profile, ProfileView, Release, ReleaseView, Timestamp};
use crate::text::{normalize, normalized};

verus! {

/// Which part of the catalog a query looks at.
#[derive(Clone, Copy, Debug, PartialEq, Eq, Structural)]
pub enum Scope {
    Collection,
    Wantlist,
}

/// Why a query could not be answered.
#[derive(Clone, Copy, Debug, PartialEq, Eq, Structural)]
pub enum QueryError {
    /// There is no release in the collection to pick from.
    EmptyCollection,
    /// No refresh has completed yet.
    NotInitialized,
}

/// The local state: the mirrored catalog, the listening history and the account data.
#[derive(Debug)]
pub struct Store {
    /// The collection, folder by folder.
    pub folders: Folders,
    /// The releases the user wants, kept apart from the collection.
    pub wantlist: Vec<Release>,
    pub listenlog: ListenLog,
    /// The account data of the last completed refresh; absent before the first.
    pub profile: Option<Profile>,
    /// Set when the state holds changes not yet written out.
    pub modified: bool,
}

/// The view of an optional profile.
pub open spec fn profile_view(p: Option<Profile>) -> Option<ProfileView> {
    match p {
        Some(q) => Some(q@),
        None => None,
    }
}

/// Draw `m * n + k` picks position `k` of `n`: among the draws `0 .. m * n` each release
/// of a collection of `n` is picked exactly `m` times, once in each run of `n` draws.
pub proof fn lemma_draw_picks_position(n: int, m: int, k: int)
    requires
        0 < n,
        0 <= m,
        0 <= k < n,
    ensures
        (m * n + k) % n == k,
{
    assert(m * n == n * m) by (nonlinear_arith);
    vstd::arithmetic::div_mod::lemma_mod_multiples_vanish(m, k, n);
    vstd::arithmetic::div_mod::lemma_small_mod(k as nat, n as nat);
}

impl Store {
    pub open spec fn wf(&self) -> bool {
        self.folders.wf() && self.listenlog.wf()
    }

    /// The releases a query over `scope` looks at, in order.
    pub open spec fn pool(&self, scope: Scope) -> Seq<ReleaseView> {
        match scope {
            Scope::Collection => flatten(self.folders@),
            Scope::Wantlist => release_views(self.wantlist@),
        }
    }

    /// The state before anything has been mirrored or logged: the start of a first run, and
    /// what a missing or unreadable store file stands for.
    pub fn new() -> (r: Store)
        ensures
            r.wf(),
            r.folders@.len() == 0,
            r.wantlist@.len() == 0,
            r.listenlog@.len() == 0,
            r.profile is None,
            !r.modified,
    {
        Store {
            folders: Folders::new(),
            wantlist: Vec::new(),
            listenlog: ListenLog::new(),
            profile: None,
            modified: false,
        }
    }

    /// Every release in `scope` whose search string holds the normalized query, in stored
    /// order, folder after folder.
    pub fn find(&self, query: &str, scope: Scope) -> (r: Result<Vec<Release>, QueryError>)
        ensures
            r is Err <==> self.profile is None,
            r is Err ==> r == Err::<Vec<Release>, QueryError>(QueryError::NotInitialized),
            r matches Ok(v) ==> release_views(v@) == matching(self.pool(scope), normalized(query@)),
    {
        if self.profile.is_none() {
            return Err(QueryError::NotInitialized);
        }
        let q = normalize(query);
        match scope {
            Scope::Collection => Ok(self.folders.matches(q.as_str())),
            Scope::Wantlist => {
                let mut v: Vec<Release> = Vec::new();
                crate::folders::collect_matches(&mut v, &self.wantlist, q.as_str());
                assert(release_views(v@) =~= Seq::<ReleaseView>::empty() + matching(
                    release_views(self.wantlist@),
                    q@,
                ));
                Ok(v)
            },
        }
    }

    /// The release at position `draw % n` of the `n` releases of the collection, taken
    /// folder after folder. A draw uniform over a range much wider than `n` picks every
    /// release with the same chance, whatever the sizes of the folders.
    pub fn random(&self, draw: u64) -> (r: Result<Release, QueryError>)
        requires
            flatten(self.folders@).len() <= usize::MAX,
        ensures
            r is Err <==> flatten(self.folders@).len() == 0,
            r is Err ==> r == Err::<Release, QueryError>(QueryError::EmptyCollection),
            r matches Ok(x) ==> x@ == flatten(self.folders@)[(draw as int) % flatten(
                self.folders@,
            ).len() as int],
    {
        let n = self.folders.total();
        if n == 0 {
            return Err(QueryError::EmptyCollection);
        }
        let k = (draw % (n as u64)) as usize;
        Ok(self.folders.release_at(k))
    }

    /// The account data of the last completed refresh.
    pub fn profile(&self) -> (r: Result<Profile, QueryError>)
        ensures
            r is Err <==> self.profile is None,
            r is Err ==> r == Err::<Profile, QueryError>(QueryError::NotInitialized),
            r matches Ok(p) ==> Some(p@) == profile_view(self.profile),
    {
        match &self.profile {
            Some(p) => Ok(p.copy()),
            None => Err(QueryError::NotInitialized),
        }
    }

    /// Logs a listen of release `id`, recording `title` at `time`; the catalog is neither
    /// read nor changed.
    pub fn log_listen(&mut self, id: i64, title: String, time: Timestamp)
        requires
            old(self).wf(),
        ensures
            final(self).wf(),
            final(self).listenlog@ == with_entry(old(self).listenlog@, time, title@),
            final(self).folders == old(self).folders,
            final(self).wantlist == old(self).wantlist,
            final(self).profile == old(self).profile,
            final(self).modified,
    {
        log_listen(&mut self.listenlog, ListenLogEntry { id, title, time });
        self.modified = true;
    }

    /// Replaces the mirrored catalog and account data as a whole; the listening history
    /// is kept.
    pub fn commit(&mut self, folders: Folders, wantlist: Vec<Release>, profile: Profile)
        requires
            old(self).wf(),
            folders.wf(),
        ensures
            final(self).wf(),
            final(self).folders == folders,
            final(self).wantlist == wantlist,
            final(self).profile == Some(profile),
            final(self).listenlog == old(self).listenlog,
            final(self).modified,
    {
        self.folders = folders;
        self.wantlist = wantlist;
        self.profile = Some(profile);
        self.modified = true;
    }
}

} // verus!
