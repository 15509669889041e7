use vstd::prelude::*;

verus! {

/// Punctuation that search text ignores.
pub open spec fn is_stripped(c: char) -> bool {
    c == '(' || c == ')' || c == ',' || c == '*' || c == '"' || c == '.' || c == ':' || c == '!'
        || c == '?' || c == ';' || c == '\''
}

/// ASCII lowercasing of one character; every other character stays as it is.
pub open spec fn lower_char(c: char) -> char {
    if 'A' <= c && c <= 'Z' {
        ((c as u32) + 32) as char
    } else {
        c
    }
}

/// The search form of a text: punctuation dropped, ASCII letters lowercased. Other letters
/// (such as 'Ö') are kept as they are, which makes the form stable under a second pass.
pub open spec fn normalized(s: Seq<char>) -> Seq<char>
    decreases s.len(),
{
    if s.len() == 0 {
        Seq::empty()
    } else if is_stripped(s.last()) {
        normalized(s.drop_last())
    } else {
        normalized(s.drop_last()).push(lower_char(s.last()))
    }
}

fn lower(c: char) -> (r: char)
    ensures
        r == lower_char(c),
{
    if 'A' <= c && c <= 'Z' {
        ((c as u8) + 32) as char
    } else {
        c
    }
}


/// Relies on String::push: the character is appended at the end.
#[verifier::external_body]
fn push_char(s: &mut String, c: char)
    ensures
        final(s)@ == old(s)@.push(c),
{
    s.push(c)
}

/// Appends the search form of `s` to `out`.
fn push_normalized(out: &mut String, s: &str)
    ensures
        final(out)@ == old(out)@ + normalized(s@),
{
    let n = s.unicode_len();
    let mut i: usize = 0;
    while i < n
        invariant
            n == s@.len(),
            i <= n,
            out@ == old(out)@ + normalized(s@.subrange(0, i as int)),
        decreases n - i,
    {
        let c = s.get_char(i);
        let ghost pre = s@.subrange(0, i as int);
        assert(s@.subrange(0, i + 1).drop_last() == pre);
        assert(s@.subrange(0, i + 1).last() == c);
        if !is_punctuation(c) {
            push_char(out, lower(c));
            assert(out@ == old(out)@ + normalized(pre).push(lower_char(c)));
        }
        i = i + 1;
    }
    assert(s@.subrange(0, n as int) == s@);
}

fn is_punctuation(c: char) -> (r: bool)
    ensures
        r == is_stripped(c),
{
    c == '(' || c == ')' || c == ',' || c == '*' || c == '"' || c == '.' || c == ':' || c == '!'
        || c == '?' || c == ';' || c == '\''
}

/// The search form of a query or of any text: punctuation dropped, ASCII letters lowercased;
/// letters outside ASCII are not folded.
pub fn normalize(s: &str) -> (r: String)
    ensures
        r@ == normalized(s@),
{
    let mut r = String::new();
    push_normalized(&mut r, s);
    assert(r@ == Seq::<char>::empty() + normalized(s@));
    r
}

/// The text that a release is searched by: its title and artist, joined by a space.
pub open spec fn search_text(title: Seq<char>, artist: Seq<char>) -> Seq<char> {
    normalized(title + seq![' '] + artist)
}

/// Builds the search string of a release from its title and artist.
pub fn search_string(title: &str, artist: &str) -> (r: String)
    ensures
        r@ == search_text(title@, artist@),
{
    let mut r = String::new();
    push_normalized(&mut r, title);
    push_char(&mut r, ' ');
    push_normalized(&mut r, artist);
    proof {
        lemma_normalized_concat(title@, seq![' ']);
        lemma_normalized_concat(title@ + seq![' '], artist@);
        assert(normalized(seq![' ']) == seq![' ']) by {
            assert(seq![' '].drop_last() == Seq::<char>::empty());
            assert(seq![' '].last() == ' ');
            assert(Seq::<char>::empty().push(' ') == seq![' ']);
            reveal_with_fuel(normalized, 2);
        }
        assert(r@ == normalized(title@) + seq![' '] + normalized(artist@));
    }
    r
}

/// The search form of a concatenation is the concatenation of the search forms.
pub proof fn lemma_normalized_concat(a: Seq<char>, b: Seq<char>)
    ensures
        normalized(a + b) == normalized(a) + normalized(b),
    decreases b.len(),
{
    if b.len() == 0 {
        assert(a + b == a);
        assert(normalized(a) + normalized(b) == normalized(a));
    } else {
        let b0 = b.drop_last();
        lemma_normalized_concat(a, b0);
        assert((a + b).drop_last() == a + b0);
        assert((a + b).last() == b.last());
        if !is_stripped(b.last()) {
            assert(normalized(a) + normalized(b0).push(lower_char(b.last())) == (normalized(a)
                + normalized(b0)).push(lower_char(b.last())));
        }
    }
}

/// Normalizing a second time changes nothing: `normalize(normalize(s)) == normalize(s)`.
pub proof fn lemma_normalize_idempotent(s: Seq<char>)
    ensures
        normalized(normalized(s)) == normalized(s),
    decreases s.len(),
{
    if s.len() > 0 {
        lemma_normalize_idempotent(s.drop_last());
        let c = s.last();
        if !is_stripped(c) {
            let n0 = normalized(s.drop_last());
            let lc = lower_char(c);
            assert(n0.push(lc).drop_last() == n0);
            assert(!is_stripped(lc));
            assert(lower_char(lc) == lc);
        }
    }
}

/// `needle` occurs in `hay` as a run of consecutive characters.
pub open spec fn occurs_in(needle: Seq<char>, hay: Seq<char>) -> bool {
    exists|k: int|
        0 <= k && k + needle.len() <= hay.len() && #[trigger] hay.subrange(k, k + needle.len())
            == needle
}

fn chars_of(s: &str) -> (r: Vec<char>)
    ensures
        r@ == s@,
{
    let n = s.unicode_len();
    let mut r: Vec<char> = Vec::new();
    let mut i: usize = 0;
    while i < n
        invariant
            n == s@.len(),
            i <= n,
            r@ == s@.subrange(0, i as int),
        decreases n - i,
    {
        r.push(s.get_char(i));
        i = i + 1;
    }
    assert(s@.subrange(0, n as int) == s@);
    r
}

fn matches_at(hay: &Vec<char>, needle: &Vec<char>, k: usize) -> (r: bool)
    requires
        k + needle@.len() <= hay@.len(),
    ensures
        r == (hay@.subrange(k as int, k + needle@.len()) == needle@),
{
    let m = needle.len();
    let mut j: usize = 0;
    while j < m
        invariant
            m == needle@.len(),
            k + m <= hay.len(),
            j <= m,
            forall|t: int| 0 <= t < j ==> hay@[k + t] == needle@[t],
        decreases m - j,
    {
        if hay[k + j] != needle[j] {
            assert(hay@.subrange(k as int, k + m)[j as int] != needle@[j as int]);
            return false;
        }
        j = j + 1;
    }
    assert(hay@.subrange(k as int, k + m) == needle@);
    true
}

/// Whether `needle` occurs in `hay`.
pub fn contains_text(hay: &str, needle: &str) -> (r: bool)
    ensures
        r == occurs_in(needle@, hay@),
{
    let h = chars_of(hay);
    let nd = chars_of(needle);
    if nd.len() > h.len() {
        return false;
    }
    let last = h.len() - nd.len();
    let mut k: usize = 0;
    loop
        invariant
            h@ == hay@,
            nd@ == needle@,
            k <= last,
            last + nd@.len() == h@.len(),
            forall|t: int| 0 <= t < k ==> #[trigger] h@.subrange(t, t + nd@.len()) != nd@,
        decreases last - k,
    {
        if matches_at(&h, &nd, k) {
            return true;
        }
        if k == last {
            return false;
        }
        k = k + 1;
    }
}

/// Lexicographic order of texts by character code point, the order of `String`'s `Ord`.
pub open spec fn text_lt(a: Seq<char>, b: Seq<char>) -> bool
    decreases a.len(),
{
    if a.len() == 0 {
        b.len() > 0
    } else if b.len() == 0 {
        false
    } else if a[0] != b[0] {
        a[0] < b[0]
    } else {
        text_lt(a.drop_first(), b.drop_first())
    }
}

/// Of two texts, either they are equal or exactly one comes first.
pub proof fn lemma_text_lt_total(a: Seq<char>, b: Seq<char>)
    ensures
        a == b ==> !text_lt(a, b),
        a != b ==> (text_lt(a, b) != text_lt(b, a)),
    decreases a.len(),
{
    if a.len() > 0 && b.len() > 0 {
        lemma_text_lt_total(a.drop_first(), b.drop_first());
        if a[0] == b[0] && a != b {
            assert(a.drop_first() != b.drop_first()) by {
                if a.drop_first() == b.drop_first() {
                    assert(a =~= seq![a[0]] + a.drop_first());
                    assert(b =~= seq![b[0]] + b.drop_first());
                }
            }
        }
    } else if a.len() == 0 && b.len() == 0 {
        assert(a =~= b);
    }
}

/// The order of texts is transitive.
pub proof fn lemma_text_lt_transitive(a: Seq<char>, b: Seq<char>, c: Seq<char>)
    requires
        text_lt(a, b),
        text_lt(b, c),
    ensures
        text_lt(a, c),
    decreases a.len(),
{
    if a.len() > 0 && b.len() > 0 && c.len() > 0 && a[0] == b[0] && b[0] == c[0] {
        lemma_text_lt_transitive(a.drop_first(), b.drop_first(), c.drop_first());
    }
}

/// Whether `a` comes before `b` in the order of texts.
pub fn text_less(a: &str, b: &str) -> (r: bool)
    ensures
        r == text_lt(a@, b@),
{
    let x = chars_of(a);
    let y = chars_of(b);
    let mut i: usize = 0;
    assert(a@.skip(0) =~= a@);
    assert(b@.skip(0) =~= b@);
    loop
        invariant
            x@ == a@,
            y@ == b@,
            i <= x@.len(),
            i <= y@.len(),
            text_lt(a@, b@) == text_lt(a@.skip(i as int), b@.skip(i as int)),
        decreases x@.len() - i,
    {
        let ghost sa = a@.skip(i as int);
        let ghost sb = b@.skip(i as int);
        if i == x.len() {
            return i < y.len();
        }
        if i == y.len() {
            return false;
        }
        assert(sa[0] == x@[i as int] && sb[0] == y@[i as int]);
        if x[i] != y[i] {
            return x[i] < y[i];
        }
        assert(sa.drop_first() =~= a@.skip(i + 1));
        assert(sb.drop_first() =~= b@.skip(i + 1));
        i = i + 1;
    }
}

} // verus!
