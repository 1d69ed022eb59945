//! World metadata: the `world.mt` key/value file.
//!
//! The file is newline-separated `key = value` lines, without comments or
//! quoting.  Blank lines (after trimming) are skipped.  Every other line must
//! contain an `=`; the line is split at its first `=` and the trimmed
//! substrings on either side become a key/value pair.  A non-blank line
//! without `=` fails the whole load with `InvalidFormat` carrying that
//! trimmed line.  When a key occurs twice, the last occurrence wins.

use vstd::prelude::*;

verus! {

/// Whitespace that loading strips from lines, keys and values.
pub open spec fn is_space(c: char) -> bool {
    c == ' ' || c == '\t' || c == '\r'
}

/// `s` without its leading whitespace.
pub open spec fn trim_front(s: Seq<char>) -> Seq<char>
    decreases s.len(),
{
    if s.len() > 0 && is_space(s[0]) {
        trim_front(s.drop_first())
    } else {
        s
    }
}

/// `s` without its trailing whitespace.
pub open spec fn trim_back(s: Seq<char>) -> Seq<char>
    decreases s.len(),
{
    if s.len() > 0 && is_space(s.last()) {
        trim_back(s.drop_last())
    } else {
        s
    }
}

/// `s` without leading and trailing whitespace.
pub open spec fn spec_trim(s: Seq<char>) -> Seq<char> {
    trim_back(trim_front(s))
}

/// Index of the first `c` at or after `i`, or `s.len()` when there is none.
pub open spec fn find_char(s: Seq<char>, i: int, c: char) -> int
    decreases s.len() - i,
{
    if i < 0 || i >= s.len() {
        s.len() as int
    } else if s[i] == c {
        i
    } else {
        find_char(s, i + 1, c)
    }
}

pub proof fn lemma_find_char(s: Seq<char>, i: int, c: char)
    requires
        0 <= i <= s.len(),
    ensures
        i <= find_char(s, i, c) <= s.len(),
        find_char(s, i, c) < s.len() ==> s[find_char(s, i, c)] == c,
        forall|k: int| i <= k < find_char(s, i, c) ==> s[k] != c,
    decreases s.len() - i,
{
    if i < s.len() && s[i] != c {
        lemma_find_char(s, i + 1, c);
    }
}

/// `find_char` returns exactly the position of the first occurrence.
pub proof fn lemma_find_char_at(s: Seq<char>, i: int, c: char, j: int)
    requires
        0 <= i <= j <= s.len(),
        forall|k: int| i <= k < j ==> s[k] != c,
        j == s.len() || s[j] == c,
    ensures
        find_char(s, i, c) == j,
    decreases j - i,
{
    if i < j {
        lemma_find_char_at(s, i + 1, c, j);
    }
}

/// Dropping a fully-spaced prefix is what `trim_front` computes.
pub proof fn lemma_trim_front_skip(s: Seq<char>, a: int)
    requires
        0 <= a <= s.len(),
        forall|k: int| 0 <= k < a ==> is_space(#[trigger] s[k]),
        a == s.len() || !is_space(s[a]),
    ensures
        trim_front(s) == s.skip(a),
    decreases a,
{
    if a == 0 {
        assert(s.skip(0) =~= s);
    } else {
        lemma_trim_front_skip(s.drop_first(), a - 1);
        assert(s.drop_first().skip(a - 1) =~= s.skip(a));
    }
}

/// Dropping a fully-spaced suffix is what `trim_back` computes.
pub proof fn lemma_trim_back_take(s: Seq<char>, b: int)
    requires
        0 <= b <= s.len(),
        forall|k: int| b <= k < s.len() ==> is_space(#[trigger] s[k]),
        b == 0 || !is_space(s[b - 1]),
    ensures
        trim_back(s) == s.take(b),
    decreases s.len() - b,
{
    if b == s.len() {
        assert(s.take(b) =~= s);
    } else {
        lemma_trim_back_take(s.drop_last(), b);
        assert(s.drop_last().take(b) =~= s.take(b));
    }
}

/// The key/value pairs of the metadata text, in line order, or the first
/// trimmed line that is non-blank yet holds no `=`.
pub open spec fn spec_meta_from(s: Seq<char>, i: int) -> Result<
    Seq<(Seq<char>, Seq<char>)>,
    Seq<char>,
>
    decreases s.len() - i,
    via spec_meta_from_dec
{
    if i < 0 || i >= s.len() {
        Ok(Seq::empty())
    } else {
        let j = find_char(s, i, '\n');
        let line = spec_trim(s.subrange(i, j));
        let nxt = if j + 1 <= s.len() {
            j + 1
        } else {
            s.len() as int
        };
        let rest = spec_meta_from(s, nxt);
        if line.len() == 0 {
            rest
        } else {
            let k = find_char(line, 0, '=');
            if k == line.len() {
                Err(line)
            } else {
                match rest {
                    Ok(pairs) => Ok(
                        seq![
                            (
                                spec_trim(line.subrange(0, k)),
                                spec_trim(line.subrange(k + 1, line.len() as int)),
                            ),
                        ] + pairs,
                    ),
                    Err(e) => Err(e),
                }
            }
        }
    }
}

#[via_fn]
proof fn spec_meta_from_dec(s: Seq<char>, i: int) {
    if 0 <= i < s.len() {
        lemma_find_char(s, i, '\n');
    }
}

/// The parse of a whole metadata text.
pub open spec fn spec_meta(s: Seq<char>) -> Result<Seq<(Seq<char>, Seq<char>)>, Seq<char>> {
    spec_meta_from(s, 0)
}

/// The value of the last pair whose key is `k`, if any: the lookup the
/// loaded pair list answers, under which a later duplicate key wins.
pub open spec fn spec_lookup(pairs: Seq<(Seq<char>, Seq<char>)>, k: Seq<char>) -> Option<
    Seq<char>,
>
    decreases pairs.len(),
{
    if pairs.len() == 0 {
        None
    } else if pairs.last().0 == k {
        Some(pairs.last().1)
    } else {
        spec_lookup(pairs.drop_last(), k)
    }
}

/// Why a metadata file could not be loaded.
#[derive(Debug)]
pub enum MetaError {
    /// A non-blank line without `=`; carries the trimmed line.
    InvalidFormat(String),
    /// The file could not be read; carries the reader's description.
    Io(String),
}

/// The key/value pairs of a world's `world.mt`, in file order.
#[derive(Debug)]
pub struct WorldMeta {
    entries: Vec<(String, String)>,
}

impl View for WorldMeta {
    type V = Seq<(Seq<char>, Seq<char>)>;

    closed spec fn view(&self) -> Seq<(Seq<char>, Seq<char>)> {
        self.entries.deep_view()
    }
}

/// Whether two string slices spell the same characters.
pub(crate) fn str_eq(a: &str, b: &str) -> (r: bool)
    ensures
        r == (a@ == b@),
{
    let n = a.unicode_len();
    if n != b.unicode_len() {
        return false;
    }
    let mut i: usize = 0;
    while i < n
        invariant
            n == a@.len(),
            n == b@.len(),
            i <= n,
            forall|k: int| 0 <= k < i ==> a@[k] == b@[k],
        decreases n - i,
    {
        if a.get_char(i) != b.get_char(i) {
            return false;
        }
        i = i + 1;
    }
    proof {
        assert(a@ =~= b@);
    }
    true
}

/// Index of the first `c` in `s` at or after `from`, or the length of `s`.
fn find_char_from(s: &str, from: usize, c: char) -> (r: usize)
    requires
        from <= s@.len(),
    ensures
        r == find_char(s@, from as int, c),
        from <= r <= s@.len(),
{
    let n = s.unicode_len();
    let mut j = from;
    while j < n
        invariant
            n == s@.len(),
            from <= j <= n,
            forall|k: int| from <= k < j ==> s@[k] != c,
        ensures
            from <= j <= n,
            n == s@.len(),
            j < n ==> s@[j as int] == c,
            forall|k: int| from <= k < j ==> s@[k] != c,
        decreases n - j,
    {
        if s.get_char(j) == c {
            break ;
        }
        j = j + 1;
    }
    proof {
        lemma_find_char_at(s@, from as int, c, j as int);
    }
    j
}

fn is_space_char(c: char) -> (r: bool)
    ensures
        r == is_space(c),
{
    c == ' ' || c == '\t' || c == '\r'
}

/// `s` without leading and trailing whitespace.
fn trim_str<'a>(s: &'a str) -> (r: &'a str)
    ensures
        r@ == spec_trim(s@),
{
    let n = s.unicode_len();
    let mut a: usize = 0;
    while a < n
        invariant
            n == s@.len(),
            a <= n,
            forall|k: int| 0 <= k < a ==> is_space(#[trigger] s@[k]),
        ensures
            a <= n,
            n == s@.len(),
            a < n ==> !is_space(s@[a as int]),
            forall|k: int| 0 <= k < a ==> is_space(#[trigger] s@[k]),
        decreases n - a,
    {
        if !is_space_char(s.get_char(a)) {
            break ;
        }
        a = a + 1;
    }
    let mut b: usize = n;
    while b > a
        invariant
            n == s@.len(),
            a <= b <= n,
            forall|k: int| b <= k < n ==> is_space(#[trigger] s@[k]),
        ensures
            a <= b <= n,
            n == s@.len(),
            b > a ==> !is_space(s@[b - 1]),
            forall|k: int| b <= k < n ==> is_space(#[trigger] s@[k]),
        decreases b,
    {
        if !is_space_char(s.get_char(b - 1)) {
            break ;
        }
        b = b - 1;
    }
    let r = s.substring_char(a, b);
    proof {
        lemma_trim_front_skip(s@, a as int);
        let t = s@.skip(a as int);
        if a == n {
            assert(t.len() == 0);
            lemma_trim_back_take(t, 0);
            assert(t.take(0) =~= s@.subrange(a as int, b as int));
        } else {
            assert(forall|k: int|
                b - a <= k < t.len() ==> is_space(#[trigger] t[k]) && t[k] == s@[k + a]);
            if b > a {
                assert(t[b - a - 1] == s@[b - 1]);
            }
            lemma_trim_back_take(t, b - a);
            assert(t.take(b - a) =~= s@.subrange(a as int, b as int));
        }
    }
    r
}

impl WorldMeta {
    /// Parses the contents of a `world.mt` file.  Returns the key/value
    /// pairs in line order exactly when every non-blank line holds an `=`,
    /// and `InvalidFormat` with the first offending trimmed line otherwise.
    /// `Io` is never produced here; it reports a failed file read and is
    /// raised by whoever does that read.
    pub fn load(text: &str) -> (r: Result<WorldMeta, MetaError>)
        ensures
            match r {
                Ok(m) => spec_meta(text@) == Ok::<_, Seq<char>>(m@),
                Err(MetaError::InvalidFormat(l)) => spec_meta(text@) == Err::<
                    Seq<(Seq<char>, Seq<char>)>,
                    _,
                >(l@),
                Err(MetaError::Io(_)) => false,
            },
    {
        let n = text.unicode_len();
        let mut entries: Vec<(String, String)> = Vec::new();
        let mut i: usize = 0;
        while i < n
            invariant
                n == text@.len(),
                i <= n,
                match spec_meta_from(text@, i as int) {
                    Ok(rest) => spec_meta(text@) == Ok::<_, Seq<char>>(
                        entries.deep_view() + rest,
                    ),
                    Err(e) => spec_meta(text@) == Err::<Seq<(Seq<char>, Seq<char>)>, _>(e),
                },
            decreases n - i,
        {
            let j = find_char_from(text, i, '\n');
            let line = text.substring_char(i, j);
            let trimmed = trim_str(line);
            let tlen = trimmed.unicode_len();
            proof {
                assert(trimmed@ == spec_trim(text@.subrange(i as int, j as int)));
            }
            if tlen > 0 {
                let k = find_char_from(trimmed, 0, '=');
                if k == tlen {
                    return Err(MetaError::InvalidFormat(trimmed.to_owned()));
                }
                let key = trim_str(trimmed.substring_char(0, k)).to_owned();
                let value = trim_str(trimmed.substring_char(k + 1, tlen)).to_owned();
                let ghost kv = (key@, value@);
                let ghost old_entries = entries.deep_view();
                entries.push((key, value));
                proof {
                    assert(entries.deep_view() =~= old_entries.push(kv));
                    assert(forall|pairs: Seq<(Seq<char>, Seq<char>)>|
                        old_entries + (seq![kv] + pairs) =~= #[trigger] (old_entries.push(kv)
                            + pairs));
                }
            }
            i = if j == n {
                n
            } else {
                j + 1
            };
        }
        proof {
            assert(entries.deep_view() + Seq::<(Seq<char>, Seq<char>)>::empty()
                =~= entries.deep_view());
        }
        Ok(WorldMeta { entries })
    }

    /// The value stored under `key`, if any; with duplicate keys the last
    /// line of the file wins.
    pub fn get_str(&self, key: &str) -> (r: Option<&str>)
        ensures
            match r {
                Some(v) => spec_lookup(self@, key@) == Some(v@),
                None => spec_lookup(self@, key@) is None,
            },
    {
        let mut i = self.entries.len();
        proof {
            assert(self@.take(i as int) =~= self@);
        }
        while i > 0
            invariant
                i <= self.entries.len(),
                spec_lookup(self@, key@) == spec_lookup(self@.take(i as int), key@),
            decreases i,
        {
            i = i - 1;
            proof {
                assert(self@[i as int] == (self.entries@[i as int].0@, self.entries@[
                    i as int
                ].1@));
                assert(self@.take(i + 1).last() == self@[i as int]);
                assert(self@.take(i + 1).drop_last() =~= self@.take(i as int));
            }
            if str_eq(self.entries[i].0.as_str(), key) {
                return Some(self.entries[i].1.as_str());
            }
        }
        proof {
            assert(self@.take(0).len() == 0);
        }
        None
    }
}

} // verus!
