use vstd::prelude::*;
use crate::folders::{release_views, with_folder, Folders};
use crate::model::{Profile, Release, ReleaseView};
use crate::store::{profile_view, Store};
use crate::text::search_text;

verus! {

/// How one fetch from the remote catalog failed.
#[derive(Clone, Copy, Debug, PartialEq, Eq, Structural)]
pub enum FetchFailure {
    /// The remote could not be reached, or refused the credentials.
    Unavailable,
    /// The remote answered with something that could not be read.
    Malformed,
}

/// Why a refresh did not complete.
#[derive(Clone, Copy, Debug, PartialEq, Eq, Structural)]
pub enum SyncError {
    /// The remote could not be reached, refused the credentials, or kept failing a page.
    RemoteUnavailable,
    /// The remote answered the profile request with something that could not be read.
    RemoteDataError,
    /// The run was handed over before it had fetched everything.
    Incomplete,
}

/// Where a refresh run stands.
#[derive(Clone, Copy, Debug, PartialEq, Eq, Structural)]
pub enum Phase {
    FetchingProfile,
    FetchingCollection,
    FetchingWantlist,
    /// Everything was fetched; the run is ready to be committed.
    Done,
    Failed(SyncError),
}

/// What the remote catalog answered to the last request.
#[derive(Debug)]
pub enum Event {
    Profile(Profile),
    /// One page of releases, and whether more pages follow.
    Page(Vec<Release>, bool),
    Failure(FetchFailure),
}

/// What to ask the remote catalog next, or how to end the run.
#[derive(Clone, Copy, Debug, PartialEq, Eq, Structural)]
pub enum Action {
    FetchProfile,
    /// Page `page` (from 1) of the folder at position `folder` of the run's folder names.
    FetchCollectionPage(usize, u32),
    FetchWantlistPage(u32),
    Commit,
    Abort,
}

/// A release as stored after a fetch: its search string derived from its title and artist.
pub open spec fn indexed(v: ReleaseView) -> ReleaseView {
    ReleaseView {
        id: v.id,
        search_string: search_text(v.title, v.artist),
        title: v.title,
        artist: v.artist,
        year: v.year,
        labels: v.labels,
        formats: v.formats,
        date_added: v.date_added,
    }
}

/// The search forms of a fetched page.
pub open spec fn indexed_all(v: Seq<Release>) -> Seq<ReleaseView> {
    release_views(v).map_values(|r: ReleaseView| indexed(r))
}

/// Appends each release of `page` to `out`, with its search string derived afresh.
fn append_indexed(out: &mut Vec<Release>, page: &Vec<Release>)
    ensures
        release_views(final(out)@) == release_views(old(out)@) + indexed_all(page@),
{
    let ghost start = release_views(out@);
    let mut j: usize = 0;
    while j < page.len()
        invariant
            j <= page@.len(),
            start == release_views(old(out)@),
            release_views(out@) == start + indexed_all(page@.subrange(0, j as int)),
        decreases page@.len() - j,
    {
        let r = &page[j];
        let x = Release::new(
            r.id,
            r.title.clone(),
            r.artist.clone(),
            r.year,
            crate::model::copy_strings(&r.labels),
            crate::model::copy_strings(&r.formats),
            r.date_added,
        );
        let ghost before = out@;
        out.push(x);
        proof {
            assert(indexed_all(page@.subrange(0, j as int + 1)) =~= indexed_all(
                page@.subrange(0, j as int),
            ).push(indexed(page@[j as int]@)));
            assert(release_views(out@) =~= release_views(before).push(x@));
        }
        j = j + 1;
    }
    assert(page@.subrange(0, page@.len() as int) == page@);
}

/// One full refresh of the mirror: the profile, then every page of each collection
/// folder in turn, then every page of the wantlist. Nothing fetched reaches the store
/// before the whole run has succeeded.
#[derive(Debug)]
pub struct Refresh {
    pub phase: Phase,
    /// The collection folders to fetch, in order.
    pub folder_names: Vec<String>,
    /// Position of the folder being fetched.
    pub folder: usize,
    /// The page being fetched, from 1.
    pub page: u32,
    /// Failures in a row on the current page.
    pub retries: u32,
    /// Failures in a row that a page may have before the run gives up.
    pub max_retries: u32,
    pub profile: Option<Profile>,
    /// The folders fetched completely.
    pub folders: Folders,
    /// The releases fetched so far of the folder being fetched.
    pub current: Vec<Release>,
    pub wantlist: Vec<Release>,
}

impl Refresh {
    pub open spec fn wf(&self) -> bool {
        &&& self.folders.wf()
        &&& self.phase == Phase::FetchingCollection ==> self.folder < self.folder_names@.len()
        &&& (self.phase == Phase::FetchingCollection || self.phase == Phase::FetchingWantlist
            || self.phase == Phase::Done) ==> self.profile is Some
    }

    /// The request that the state calls for.
    pub open spec fn pending(&self) -> Action {
        match self.phase {
            Phase::FetchingProfile => Action::FetchProfile,
            Phase::FetchingCollection => Action::FetchCollectionPage(self.folder, self.page),
            Phase::FetchingWantlist => Action::FetchWantlistPage(self.page),
            Phase::Done => Action::Commit,
            Phase::Failed(_) => Action::Abort,
        }
    }

    /// A run that has fetched nothing yet; its first request is for the profile.
    pub fn new(folder_names: Vec<String>, max_retries: u32) -> (r: Refresh)
        ensures
            r.wf(),
            r.phase == Phase::FetchingProfile,
            r.folder_names@ == folder_names@,
            r.max_retries == max_retries,
            r.retries == 0,
            r.profile is None,
            r.folders@.len() == 0,
            r.current@.len() == 0,
            r.wantlist@.len() == 0,
    {
        Refresh {
            phase: Phase::FetchingProfile,
            folder_names,
            folder: 0,
            page: 1,
            retries: 0,
            max_retries,
            profile: None,
            folders: Folders::new(),
            current: Vec::new(),
            wantlist: Vec::new(),
        }
    }

    /// The request that the state calls for.
    pub fn action(&self) -> (r: Action)
        ensures
            r == self.pending(),
    {
        match self.phase {
            Phase::FetchingProfile => Action::FetchProfile,
            Phase::FetchingCollection => Action::FetchCollectionPage(self.folder, self.page),
            Phase::FetchingWantlist => Action::FetchWantlistPage(self.page),
            Phase::Done => Action::Commit,
            Phase::Failed(_) => Action::Abort,
        }
    }

    /// The fetched data is the same in both runs.
    pub open spec fn same_data(&self, other: &Refresh) -> bool {
        &&& self.profile == other.profile
        &&& self.folders == other.folders
        &&& self.current == other.current
        &&& self.wantlist == other.wantlist
    }

    /// Takes in the remote's answer to the pending request and moves the run on; returns
    /// the next request. A profile that cannot be had ends the run at once; a page that
    /// fails, or is answered with a profile, is asked again up to `max_retries` times in a
    /// row before the run fails. A run that is done or failed stays as it is.
    pub fn step(&mut self, event: Event) -> (r: Action)
        requires
            old(self).wf(),
        ensures
            final(self).wf(),
            r == final(self).pending(),
            final(self).folder_names == old(self).folder_names,
            final(self).max_retries == old(self).max_retries,
            (old(self).phase is Done || old(self).phase is Failed) ==> *final(self) == *old(self),
            old(self).phase == Phase::FetchingProfile ==> match event {
                Event::Profile(p) => {
                    &&& final(self).profile == Some(p)
                    &&& final(self).phase == if old(self).folder_names@.len() > 0 {
                        Phase::FetchingCollection
                    } else {
                        Phase::FetchingWantlist
                    }
                    &&& final(self).folder == 0
                    &&& final(self).page == 1
                    &&& final(self).retries == 0
                    &&& final(self).folders == old(self).folders
                    &&& final(self).current == old(self).current
                    &&& final(self).wantlist == old(self).wantlist
                },
                Event::Failure(FetchFailure::Unavailable) => final(self).phase == Phase::Failed(
                    SyncError::RemoteUnavailable,
                ) && final(self).same_data(old(self)),
                _ => final(self).phase == Phase::Failed(SyncError::RemoteDataError)
                    && final(self).same_data(old(self)),
            },
            (old(self).phase == Phase::FetchingCollection || old(self).phase
                == Phase::FetchingWantlist) && !(event is Page) ==> {
                &&& final(self).same_data(old(self))
                &&& final(self).folder == old(self).folder
                &&& final(self).page == old(self).page
                &&& old(self).retries < old(self).max_retries ==> final(self).phase == old(self).phase && final(self).retries == old(self).retries + 1
                &&& old(self).retries >= old(self).max_retries ==> final(self).phase
                    == Phase::Failed(SyncError::RemoteUnavailable)
            },
            old(self).phase == Phase::FetchingCollection ==> match event {
                Event::Page(rs, more) => {
                    let cur = release_views(old(self).current@) + indexed_all(rs@);
                    &&& final(self).retries == 0
                    &&& final(self).profile == old(self).profile
                    &&& final(self).wantlist == old(self).wantlist
                    &&& more ==> {
                        &&& release_views(final(self).current@) == cur
                        &&& final(self).folders == old(self).folders
                        &&& final(self).folder == old(self).folder
                        &&& old(self).page < u32::MAX ==> final(self).phase
                            == Phase::FetchingCollection && final(self).page == old(self).page
                            + 1
                        &&& old(self).page == u32::MAX ==> final(self).phase == Phase::Failed(
                            SyncError::RemoteDataError,
                        )
                    }
                    &&& !more ==> {
                        &&& final(self).folders@ == with_folder(
                            old(self).folders@,
                            old(self).folder_names@[old(self).folder as int]@,
                            cur,
                        )
                        &&& final(self).current@.len() == 0
                        &&& final(self).page == 1
                        &&& old(self).folder + 1 < old(self).folder_names@.len() ==> final(self).phase == Phase::FetchingCollection && final(self).folder == old(self).folder + 1
                        &&& old(self).folder + 1 >= old(self).folder_names@.len() ==> final(self).phase == Phase::FetchingWantlist
                    }
                },
                _ => true,
            },
            old(self).phase == Phase::FetchingWantlist ==> match event {
                Event::Page(rs, more) => {
                    &&& release_views(final(self).wantlist@) == release_views(
                        old(self).wantlist@,
                    ) + indexed_all(rs@)
                    &&& final(self).retries == 0
                    &&& final(self).profile == old(self).profile
                    &&& final(self).folders == old(self).folders
                    &&& final(self).current == old(self).current
                    &&& more && old(self).page < u32::MAX ==> final(self).phase
                        == Phase::FetchingWantlist && final(self).page == old(self).page + 1
                    &&& more && old(self).page == u32::MAX ==> final(self).phase == Phase::Failed(
                        SyncError::RemoteDataError,
                    )
                    &&& !more ==> final(self).phase == Phase::Done
                },
                _ => true,
            },
    {
        match self.phase {
            Phase::FetchingProfile => {
                match event {
                    Event::Profile(p) => {
                        self.profile = Some(p);
                        self.folder = 0;
                        self.page = 1;
                        self.retries = 0;
                        if self.folder_names.len() > 0 {
                            self.phase = Phase::FetchingCollection;
                        } else {
                            self.phase = Phase::FetchingWantlist;
                        }
                    },
                    Event::Failure(FetchFailure::Unavailable) => {
                        self.phase = Phase::Failed(SyncError::RemoteUnavailable);
                    },
                    _ => {
                        self.phase = Phase::Failed(SyncError::RemoteDataError);
                    },
                }
            },
            Phase::FetchingCollection => {
                match event {
                    Event::Page(rs, more) => {
                        append_indexed(&mut self.current, &rs);
                        self.retries = 0;
                        if more {
                            if self.page < u32::MAX {
                                self.page = self.page + 1;
                            } else {
                                self.phase = Phase::Failed(SyncError::RemoteDataError);
                            }
                        } else {
                            let mut finished: Vec<Release> = Vec::new();
                            std::mem::swap(&mut finished, &mut self.current);
                            let name = self.folder_names[self.folder].clone();
                            self.folders.insert(name, finished);
                            self.page = 1;
                            if self.folder < self.folder_names.len() - 1 {
                                self.folder = self.folder + 1;
                            } else {
                                self.phase = Phase::FetchingWantlist;
                            }
                        }
                    },
                    _ => self.page_failed(),
                }
            },
            Phase::FetchingWantlist => {
                match event {
                    Event::Page(rs, more) => {
                        append_indexed(&mut self.wantlist, &rs);
                        self.retries = 0;
                        if more {
                            if self.page < u32::MAX {
                                self.page = self.page + 1;
                            } else {
                                self.phase = Phase::Failed(SyncError::RemoteDataError);
                            }
                        } else {
                            self.phase = Phase::Done;
                        }
                    },
                    _ => self.page_failed(),
                }
            },
            _ => {},
        }
        self.action()
    }

    /// A failed page request: asked again while retries are left, else the run fails.
    fn page_failed(&mut self)
        requires
            old(self).wf(),
            old(self).phase == Phase::FetchingCollection || old(self).phase
                == Phase::FetchingWantlist,
        ensures
            final(self).wf(),
            old(self).retries < old(self).max_retries ==> final(self).phase == old(self).phase
                && final(self).retries == old(self).retries + 1,
            old(self).retries >= old(self).max_retries ==> final(self).phase == Phase::Failed(
                SyncError::RemoteUnavailable,
            ) && final(self).retries == old(self).retries,
            final(self).folder == old(self).folder,
            final(self).page == old(self).page,
            final(self).max_retries == old(self).max_retries,
            final(self).folder_names == old(self).folder_names,
            final(self).profile == old(self).profile,
            final(self).folders == old(self).folders,
            final(self).current == old(self).current,
            final(self).wantlist == old(self).wantlist,
    {
        if self.retries < self.max_retries {
            self.retries = self.retries + 1;
        } else {
            self.phase = Phase::Failed(SyncError::RemoteUnavailable);
        }
    }
}

impl Store {
    /// Ends a refresh run. A run that fetched everything replaces the collection, the
    /// wantlist and the profile as a whole, and keeps the listening history; any other run
    /// leaves the store exactly as it was.
    pub fn finish_refresh(&mut self, run: Refresh) -> (r: Result<(), SyncError>)
        requires
            old(self).wf(),
            run.wf(),
        ensures
            final(self).wf(),
            run.phase == Phase::Done ==> {
                &&& r is Ok
                &&& final(self).folders == run.folders
                &&& final(self).wantlist == run.wantlist
                &&& final(self).profile == run.profile
                &&& final(self).listenlog == old(self).listenlog
                &&& final(self).modified
            },
            run.phase != Phase::Done ==> *final(self) == *old(self),
            run.phase matches Phase::Failed(e) ==> r == Err::<(), SyncError>(e),
            !(run.phase is Done || run.phase is Failed) ==> r == Err::<(), SyncError>(
                SyncError::Incomplete,
            ),
    {
        let Refresh { phase, folders, wantlist, profile, .. } = run;
        match phase {
            Phase::Done => match profile {
                Some(p) => {
                    self.commit(folders, wantlist, p);
                    Ok(())
                },
                None => Err(SyncError::Incomplete),
            },
            Phase::Failed(e) => Err(e),
            _ => Err(SyncError::Incomplete),
        }
    }
}

} // verus!
