use vstd::prelude::*;
use crate::model::{Release, ReleaseView};
use crate::text::{
    contains_text, lemma_normalized_concat, lemma_text_lt_total, lemma_text_lt_transitive, normalized,
    occurs_in, search_text, text_less, text_lt,
};

verus! {

/// The views of a list of releases.
pub open spec fn release_views(v: Seq<Release>) -> Seq<ReleaseView> {
    v.map_values(|r: Release| r@)
}

/// All releases of the folders, folder after folder, each in its stored order.
pub open spec fn flatten(f: Seq<(Seq<char>, Seq<ReleaseView>)>) -> Seq<ReleaseView>
    decreases f.len(),
{
    if f.len() == 0 {
        Seq::empty()
    } else {
        flatten(f.drop_last()) + f.last().1
    }
}

/// Folder names strictly increase in the order of texts, so each name appears once.
pub open spec fn sorted_names(f: Seq<(Seq<char>, Seq<ReleaseView>)>) -> bool {
    forall|i: int, j: int| 0 <= i < j < f.len() ==> text_lt(#[trigger] f[i].0, #[trigger] f[j].0)
}

/// The folders after storing `rs` under `name`: a new name takes its place in name order,
/// a folder of that name has its releases replaced.
pub open spec fn with_folder(
    f: Seq<(Seq<char>, Seq<ReleaseView>)>,
    name: Seq<char>,
    rs: Seq<ReleaseView>,
) -> Seq<(Seq<char>, Seq<ReleaseView>)>
    decreases f.len(),
{
    if f.len() == 0 {
        seq![(name, rs)]
    } else if text_lt(name, f[0].0) {
        seq![(name, rs)] + f
    } else if f[0].0 == name {
        f.update(0, (name, rs))
    } else {
        seq![f[0]] + with_folder(f.drop_first(), name, rs)
    }
}

proof fn lemma_with_folder_skip(
    f: Seq<(Seq<char>, Seq<ReleaseView>)>,
    name: Seq<char>,
    rs: Seq<ReleaseView>,
    i: int,
)
    requires
        0 <= i <= f.len(),
        forall|j: int| 0 <= j < i ==> text_lt(#[trigger] f[j].0, name),
    ensures
        with_folder(f, name, rs) == f.subrange(0, i) + with_folder(
            f.subrange(i, f.len() as int),
            name,
            rs,
        ),
    decreases i,
{
    if i > 0 {
        assert(!text_lt(name, f[0].0) && f[0].0 != name) by {
            assert(text_lt(f[0].0, name));
            lemma_text_lt_total(f[0].0, name);
        }
        let r = f.drop_first();
        lemma_with_folder_skip(r, name, rs, i - 1);
        assert(r.subrange(0, i - 1) == f.subrange(1, i));
        assert(r.subrange(i - 1, r.len() as int) == f.subrange(i, f.len() as int));
        assert(seq![f[0]] + f.subrange(1, i) == f.subrange(0, i));
        assert(seq![f[0]] + (f.subrange(1, i) + with_folder(f.subrange(i, f.len() as int), name, rs))
            == f.subrange(0, i) + with_folder(f.subrange(i, f.len() as int), name, rs));
    } else {
        assert(f.subrange(0, 0) + f == f);
        assert(f.subrange(0, f.len() as int) == f);
    }
}

/// A prefix of the folders lists a prefix of their releases.
pub proof fn lemma_flatten_prefix(f: Seq<(Seq<char>, Seq<ReleaseView>)>, i: int)
    requires
        0 <= i <= f.len(),
    ensures
        flatten(f.subrange(0, i)).len() <= flatten(f).len(),
        forall|x: int|
            0 <= x < flatten(f.subrange(0, i)).len() ==> #[trigger] flatten(f.subrange(0, i))[x]
                == flatten(f)[x],
    decreases f.len(),
{
    if i == f.len() {
        assert(f.subrange(0, i) == f);
    } else {
        lemma_flatten_prefix(f.drop_last(), i);
        assert(f.drop_last().subrange(0, i) == f.subrange(0, i));
    }
}

/// The releases of `pool`, in order, whose search string holds `q`.
pub open spec fn matching(pool: Seq<ReleaseView>, q: Seq<char>) -> Seq<ReleaseView>
    decreases pool.len(),
{
    if pool.len() == 0 {
        Seq::empty()
    } else if occurs_in(q, pool.last().search_string) {
        matching(pool.drop_last(), q).push(pool.last())
    } else {
        matching(pool.drop_last(), q)
    }
}

pub proof fn lemma_matching_concat(a: Seq<ReleaseView>, b: Seq<ReleaseView>, q: Seq<char>)
    ensures
        matching(a + b, q) == matching(a, q) + matching(b, q),
    decreases b.len(),
{
    if b.len() == 0 {
        assert(a + b == a);
        assert(matching(a, q) + matching(b, q) == matching(a, q));
    } else {
        lemma_matching_concat(a, b.drop_last(), q);
        assert((a + b).drop_last() == a + b.drop_last());
        assert((a + b).last() == b.last());
        assert(matching(a, q) + matching(b.drop_last(), q).push(b.last()) == (matching(a, q)
            + matching(b.drop_last(), q)).push(b.last()));
    }
}

/// Every release of the pool whose search string holds `q` is among the matches.
pub proof fn lemma_matching_complete(pool: Seq<ReleaseView>, i: int, q: Seq<char>)
    requires
        0 <= i < pool.len(),
        occurs_in(q, pool[i].search_string),
    ensures
        matching(pool, q).contains(pool[i]),
    decreases pool.len(),
{
    if i == pool.len() - 1 {
        assert(matching(pool, q).last() == pool[i]);
    } else {
        lemma_matching_complete(pool.drop_last(), i, q);
        let m = matching(pool.drop_last(), q);
        let j = choose|j: int| 0 <= j < m.len() && m[j] == pool[i];
        if occurs_in(q, pool.last().search_string) {
            assert(m.push(pool.last())[j] == pool[i]);
        }
    }
}

/// A query finds a release when, case and punctuation set aside, it occurs in the release's
/// title: the normalized query is then among the matches of any pool that holds the release.
pub proof fn lemma_title_query_finds(pool: Seq<ReleaseView>, i: int, q: Seq<char>)
    requires
        0 <= i < pool.len(),
        pool[i].search_string == search_text(pool[i].title, pool[i].artist),
        occurs_in(normalized(q), normalized(pool[i].title)),
    ensures
        matching(pool, normalized(q)).contains(pool[i]),
{
    let t = pool[i].title;
    let a = pool[i].artist;
    let nq = normalized(q);
    lemma_normalized_concat(t, seq![' ']);
    lemma_normalized_concat(t + seq![' '], a);
    let whole = search_text(t, a);
    let nt = normalized(t);
    assert(whole == nt + normalized(seq![' ']) + normalized(a));
    let k = choose|k: int| 0 <= k && k + nq.len() <= nt.len() && #[trigger] nt.subrange(k, k + nq.len()) == nq;
    assert(whole.subrange(k, k + nq.len()) == nt.subrange(k, k + nq.len()));
    lemma_matching_complete(pool, i, nq);
}

/// Appends to `out` a copy of each release of `releases` whose search string holds `q`.
pub fn collect_matches(out: &mut Vec<Release>, releases: &Vec<Release>, q: &str)
    ensures
        release_views(final(out)@) == release_views(old(out)@) + matching(
            release_views(releases@),
            q@,
        ),
{
    let ghost start = release_views(out@);
    let mut j: usize = 0;
    while j < releases.len()
        invariant
            j <= releases@.len(),
            start == release_views(old(out)@),
            release_views(out@) == start + matching(
                release_views(releases@.subrange(0, j as int)),
                q@,
            ),
        decreases releases@.len() - j,
    {
        let ghost pre = release_views(releases@.subrange(0, j as int));
        let ghost next = release_views(releases@.subrange(0, j as int + 1));
        assert(next.drop_last() =~= pre);
        assert(next.last() == releases@[j as int]@);
        if contains_text(releases[j].search_string.as_str(), q) {
            let ghost before = out@;
            out.push(releases[j].copy());
            assert(release_views(out@) =~= release_views(before).push(releases@[j as int]@));
        }
        j = j + 1;
    }
    assert(releases@.subrange(0, releases@.len() as int) == releases@);
}

/// A named folder of releases.
#[derive(Debug)]
pub struct Folder {
    pub name: String,
    pub releases: Vec<Release>,
}

/// The user's folders, each name once, in name order.
#[derive(Debug)]
pub struct Folders {
    contents: Vec<Folder>,
}

impl View for Folders {
    type V = Seq<(Seq<char>, Seq<ReleaseView>)>;

    closed spec fn view(&self) -> Seq<(Seq<char>, Seq<ReleaseView>)> {
        self.contents@.map_values(|f: Folder| (f.name@, release_views(f.releases@)))
    }
}

impl Folders {
    pub closed spec fn wf(&self) -> bool {
        sorted_names(self@)
    }

    /// No folders.
    pub fn new() -> (r: Folders)
        ensures
            r.wf(),
            r@ == Seq::<(Seq<char>, Seq<ReleaseView>)>::empty(),
    {
        let r = Folders { contents: Vec::new() };
        assert(r@ =~= Seq::<(Seq<char>, Seq<ReleaseView>)>::empty());
        r
    }

    pub fn len(&self) -> (r: usize)
        ensures
            r == self@.len(),
    {
        self.contents.len()
    }

    /// The name of the folder at position `i`.
    pub fn name(&self, i: usize) -> (r: String)
        requires
            i < self@.len(),
        ensures
            r@ == self@[i as int].0,
    {
        self.contents[i].name.clone()
    }

    /// The number of releases in the folder at position `i`.
    pub fn folder_len(&self, i: usize) -> (r: usize)
        requires
            i < self@.len(),
        ensures
            r == self@[i as int].1.len(),
    {
        self.contents[i].releases.len()
    }

    /// A copy of release `j` of the folder at position `i`.
    pub fn release(&self, i: usize, j: usize) -> (r: Release)
        requires
            i < self@.len(),
            j < self@[i as int].1.len(),
        ensures
            r@ == self@[i as int].1[j as int],
    {
        self.contents[i].releases[j].copy()
    }

    /// Stores `releases` under `name`: a new name takes its place in name order, an
    /// existing folder of that name has its releases replaced.
    pub fn insert(&mut self, name: String, releases: Vec<Release>)
        requires
            old(self).wf(),
        ensures
            final(self).wf(),
            final(self)@ == with_folder(old(self)@, name@, release_views(releases@)),
    {
        let ghost s = self@;
        let ghost v = release_views(releases@);
        let n = self.contents.len();
        let mut i: usize = 0;
        while i < n && text_less(self.contents[i].name.as_str(), name.as_str())
            invariant
                n == self.contents@.len(),
                s == self@,
                sorted_names(s),
                i <= n,
                forall|j: int| 0 <= j < i ==> text_lt(#[trigger] s[j].0, name@),
            decreases n - i,
        {
            i = i + 1;
        }
        proof {
            lemma_with_folder_skip(s, name@, v, i as int);
        }
        let ghost rest = s.subrange(i as int, s.len() as int);
        let ghost nm = name@;
        if i < n && self.contents[i].name == name {
            self.contents.set(i, Folder { name, releases });
            proof {
                assert(with_folder(rest, nm, v) == rest.update(0, (nm, v)));
                assert(self@ =~= s.update(i as int, (nm, v)));
                assert(s.update(i as int, (nm, v)) =~= s.subrange(0, i as int) + rest.update(
                    0,
                    (nm, v),
                ));
                assert forall|a: int, b: int| 0 <= a < b < self@.len() implies text_lt(
                    #[trigger] self@[a].0,
                    #[trigger] self@[b].0,
                ) by {
                    assert(s[a].0 == self@[a].0 && s[b].0 == self@[b].0);
                }
            }
        } else {
            self.contents.insert(i, Folder { name, releases });
            proof {
                if i < n {
                    lemma_text_lt_total(s[i as int].0, nm);
                    assert(text_lt(nm, s[i as int].0));
                    assert(rest[0] == s[i as int]);
                }
                assert(with_folder(rest, nm, v) == seq![(nm, v)] + rest);
                assert(self@ =~= s.insert(i as int, (nm, v)));
                assert(s.insert(i as int, (nm, v)) =~= s.subrange(0, i as int) + (seq![(nm, v)]
                    + rest));
                assert forall|a: int, b: int| 0 <= a < b < self@.len() implies text_lt(
                    #[trigger] self@[a].0,
                    #[trigger] self@[b].0,
                ) by {
                    if a < i && b > i {
                        assert(self@[a].0 == s[a].0 && self@[b].0 == s[b - 1].0);
                        assert(text_lt(s[a].0, nm));
                        if i < b - 1 {
                            assert(text_lt(s[i as int].0, s[b - 1].0));
                            lemma_text_lt_transitive(nm, s[i as int].0, s[b - 1].0);
                        }
                        lemma_text_lt_transitive(s[a].0, nm, s[b - 1].0);
                    } else if a == i && b > i + 1 {
                        assert(self@[b].0 == s[b - 1].0);
                        assert(text_lt(s[i as int].0, s[b - 1].0));
                        lemma_text_lt_transitive(nm, s[i as int].0, s[b - 1].0);
                    } else if a < i && b == i {
                        assert(self@[a].0 == s[a].0);
                    } else if a > i {
                        assert(self@[a].0 == s[a - 1].0 && self@[b].0 == s[b - 1].0);
                    } else if b < i {
                        assert(self@[a].0 == s[a].0 && self@[b].0 == s[b].0);
                    } else {
                        assert(self@[b].0 == s[b - 1].0);
                    }
                }
            }
        }
    }

    /// Copies, folder after folder, each release whose search string holds `q`.
    pub fn matches(&self, q: &str) -> (r: Vec<Release>)
        ensures
            release_views(r@) == matching(flatten(self@), q@),
    {
        let mut r: Vec<Release> = Vec::new();
        let n = self.contents.len();
        let mut i: usize = 0;
        assert(release_views(r@) =~= Seq::<ReleaseView>::empty());
        assert(self@.subrange(0, 0) =~= Seq::<(Seq<char>, Seq<ReleaseView>)>::empty());
        while i < n
            invariant
                n == self@.len(),
                i <= n,
                release_views(r@) == matching(flatten(self@.subrange(0, i as int)), q@),
            decreases n - i,
        {
            proof {
                let p = self@.subrange(0, i as int + 1);
                assert(p.drop_last() == self@.subrange(0, i as int));
                assert(p.last().1 == release_views(self.contents@[i as int].releases@));
                lemma_matching_concat(flatten(self@.subrange(0, i as int)), p.last().1, q@);
            }
            collect_matches(&mut r, &self.contents[i].releases, q);
            i = i + 1;
        }
        assert(self@.subrange(0, n as int) == self@);
        r
    }

    /// The number of releases over all folders.
    pub fn total(&self) -> (r: usize)
        requires
            flatten(self@).len() <= usize::MAX,
        ensures
            r == flatten(self@).len(),
    {
        let n = self.contents.len();
        let mut i: usize = 0;
        let mut sum: usize = 0;
        assert(self@.subrange(0, 0) =~= Seq::<(Seq<char>, Seq<ReleaseView>)>::empty());
        while i < n
            invariant
                n == self@.len(),
                i <= n,
                flatten(self@).len() <= usize::MAX,
                sum == flatten(self@.subrange(0, i as int)).len(),
            decreases n - i,
        {
            proof {
                let p = self@.subrange(0, i as int + 1);
                assert(p.drop_last() == self@.subrange(0, i as int));
                lemma_flatten_prefix(self@, i + 1);
            }
            sum = sum + self.contents[i].releases.len();
            i = i + 1;
        }
        assert(self@.subrange(0, n as int) == self@);
        sum
    }

    /// The release at position `k` of all releases taken folder after folder.
    pub fn release_at(&self, k: usize) -> (r: Release)
        requires
            k < flatten(self@).len(),
        ensures
            r@ == flatten(self@)[k as int],
    {
        let n = self.contents.len();
        let mut i: usize = 0;
        let mut offset: usize = 0;
        proof {
            assert(self@.subrange(0, n as int) == self@);
        }
        loop
            invariant
                n == self@.len(),
                i < n,
                offset == flatten(self@.subrange(0, i as int)).len(),
                offset <= k,
                k < flatten(self@).len(),
            decreases n - i,
        {
            let m = self.contents[i].releases.len();
            proof {
                let p = self@.subrange(0, i as int + 1);
                assert(p.drop_last() == self@.subrange(0, i as int));
                assert(p.last().1.len() == m);
                lemma_flatten_prefix(self@, i + 1);
            }
            if k - offset < m {
                let r = self.contents[i].releases[k - offset].copy();
                proof {
                    let p = self@.subrange(0, i as int + 1);
                    assert(flatten(p)[k as int] == p.last().1[k - offset]);
                }
                return r;
            }
            offset = offset + m;
            i = i + 1;
        }
    }
}

} // verus!
