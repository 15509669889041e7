use vstd::prelude::*;

verus! {

/// A point in time in UTC: whole seconds since the Unix epoch and the nanoseconds past them.
#[derive(Clone, Copy, Debug, PartialEq, Eq, Structural)]
pub struct Timestamp {
    pub secs: i64,
    pub nanos: u32,
}

/// Chronological order of timestamps.
pub open spec fn earlier(a: Timestamp, b: Timestamp) -> bool {
    a.secs < b.secs || (a.secs == b.secs && a.nanos < b.nanos)
}

impl Timestamp {
    pub fn new(secs: i64, nanos: u32) -> (r: Timestamp)
        ensures
            r.secs == secs,
            r.nanos == nanos,
    {
        Timestamp { secs, nanos }
    }

    /// Whether `self` comes strictly before `other`.
    pub fn is_before(&self, other: &Timestamp) -> (r: bool)
        ensures
            r == earlier(*self, *other),
    {
        self.secs < other.secs || (self.secs == other.secs && self.nanos < other.nanos)
    }
}

/// Copies a list of strings element by element.
pub fn copy_strings(v: &Vec<String>) -> (r: Vec<String>)
    ensures
        r@ == v@,
{
    let mut r: Vec<String> = Vec::new();
    let mut i: usize = 0;
    while i < v.len()
        invariant
            i <= v@.len(),
            r@ == v@.subrange(0, i as int),
        decreases v@.len() - i,
    {
        r.push(v[i].clone());
        i = i + 1;
    }
    assert(v@.subrange(0, v@.len() as int) == v@);
    r
}

/// One record of the catalog.
#[derive(Debug)]
pub struct Release {
    pub id: i64,
    pub search_string: String,
    pub title: String,
    pub artist: String,
    pub year: u32,
    pub labels: Vec<String>,
    pub formats: Vec<String>,
    pub date_added: Timestamp,
}

/// What a release holds, as mathematical values.
pub struct ReleaseView {
    pub id: i64,
    pub search_string: Seq<char>,
    pub title: Seq<char>,
    pub artist: Seq<char>,
    pub year: u32,
    pub labels: Seq<String>,
    pub formats: Seq<String>,
    pub date_added: Timestamp,
}

impl View for Release {
    type V = ReleaseView;

    open spec fn view(&self) -> ReleaseView {
        ReleaseView {
            id: self.id,
            search_string: self.search_string@,
            title: self.title@,
            artist: self.artist@,
            year: self.year,
            labels: self.labels@,
            formats: self.formats@,
            date_added: self.date_added,
        }
    }
}

impl Release {
    /// A release as the remote catalog describes it; its search string is derived from
    /// its title and artist.
    pub fn new(
        id: i64,
        title: String,
        artist: String,
        year: u32,
        labels: Vec<String>,
        formats: Vec<String>,
        date_added: Timestamp,
    ) -> (r: Release)
        ensures
            r.id == id,
            r.search_string@ == crate::text::search_text(title@, artist@),
            r.title@ == title@,
            r.artist@ == artist@,
            r.year == year,
            r.labels@ == labels@,
            r.formats@ == formats@,
            r.date_added == date_added,
    {
        let search_string = crate::text::search_string(title.as_str(), artist.as_str());
        Release { id, search_string, title, artist, year, labels, formats, date_added }
    }

    /// An independent copy of the release.
    pub fn copy(&self) -> (r: Release)
        ensures
            r@ == self@,
    {
        Release {
            id: self.id,
            search_string: self.search_string.clone(),
            title: self.title.clone(),
            artist: self.artist.clone(),
            year: self.year,
            labels: copy_strings(&self.labels),
            formats: copy_strings(&self.formats),
            date_added: self.date_added,
        }
    }
}

/// The user's account data as the remote catalog reports it.
#[derive(Debug)]
pub struct Profile {
    pub username: String,
    pub real_name: String,
    pub registered: Timestamp,
    pub listings: u32,
    pub collection: u32,
    pub wantlist: u32,
    pub rated: u32,
    /// The IEEE-754 bits of the average rating, carried through unchanged.
    pub average_rating_bits: u64,
}

/// What a profile holds, as mathematical values.
pub struct ProfileView {
    pub username: Seq<char>,
    pub real_name: Seq<char>,
    pub registered: Timestamp,
    pub listings: u32,
    pub collection: u32,
    pub wantlist: u32,
    pub rated: u32,
    pub average_rating_bits: u64,
}

impl View for Profile {
    type V = ProfileView;

    open spec fn view(&self) -> ProfileView {
        ProfileView {
            username: self.username@,
            real_name: self.real_name@,
            registered: self.registered,
            listings: self.listings,
            collection: self.collection,
            wantlist: self.wantlist,
            rated: self.rated,
            average_rating_bits: self.average_rating_bits,
        }
    }
}

impl Profile {
    /// An independent copy of the profile.
    pub fn copy(&self) -> (r: Profile)
        ensures
            r@ == self@,
    {
        Profile {
            username: self.username.clone(),
            real_name: self.real_name.clone(),
            registered: self.registered,
            listings: self.listings,
            collection: self.collection,
            wantlist: self.wantlist,
            rated: self.rated,
            average_rating_bits: self.average_rating_bits,
        }
    }
}

/// A record of one listen: which release, its title at the time, and when.
#[derive(Debug)]
pub struct ListenLogEntry {
    pub id: i64,
    pub title: String,
    pub time: Timestamp,
}

} // verus!
