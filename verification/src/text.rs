//! Verified character-level text utilities: scanning for metacharacters,
//! splitting and joining on separators, and substring search. These are the
//! building blocks of the smart-match heuristic and of substring rules.

use vstd::prelude::*;
use vstd::string::*;

verus! {

/// The four characters the glob engine treats as metacharacters.
pub open spec fn is_glob_char(c: char) -> bool {
    c == '*' || c == '[' || c == ']' || c == '?'
}

/// Whether the text holds any glob metacharacter.
pub open spec fn has_glob_chars(s: Seq<char>) -> bool {
    exists|i: int| 0 <= i < s.len() && is_glob_char(s[i])
}

/// Whether the text holds a path separator.
pub open spec fn has_separator(s: Seq<char>) -> bool {
    exists|i: int| 0 <= i < s.len() && s[i] == '/'
}

/// The characters of `s`, in order.
pub fn chars_of(s: &str) -> (r: Vec<char>)
    ensures
        r@ == s@,
{
    let n = s.unicode_len();
    let mut r: Vec<char> = Vec::new();
    let mut i: usize = 0;
    while i < n
        invariant
            n == s@.len(),
            i <= n,
            r@ == s@.take(i as int),
        decreases n - i,
    {
        r.push(s.get_char(i));
        i = i + 1;
        proof {
            assert(s@.take(i as int) =~= s@.take(i - 1).push(s@[i - 1]));
        }
    }
    proof {
        assert(s@.take(n as int) =~= s@);
    }
    r
}

/// Whether the text holds any of the glob metacharacters `*`, `[`, `]`, `?`.
pub fn contains_glob_characters(s: &Vec<char>) -> (r: bool)
    ensures
        r == has_glob_chars(s@),
{
    let mut i: usize = 0;
    while i < s.len()
        invariant
            i <= s@.len(),
            forall|k: int| 0 <= k < i ==> !is_glob_char(s@[k]),
        decreases s@.len() - i,
    {
        let c = s[i];
        if c == '*' || c == '[' || c == ']' || c == '?' {
            return true;
        }
        i = i + 1;
    }
    false
}

/// Whether the text holds a `/`.
pub fn contains_separator(s: &Vec<char>) -> (r: bool)
    ensures
        r == has_separator(s@),
{
    let mut i: usize = 0;
    while i < s.len()
        invariant
            i <= s@.len(),
            forall|k: int| 0 <= k < i ==> s@[k] != '/',
        decreases s@.len() - i,
    {
        if s[i] == '/' {
            return true;
        }
        i = i + 1;
    }
    false
}

/// The segments of `s` between `/` separators, in order. Splitting keeps
/// empty segments, so a leading, trailing or doubled separator yields an
/// empty segment, and the result always holds at least one segment.
pub open spec fn split_slash(s: Seq<char>) -> Seq<Seq<char>>
    decreases s.len(),
{
    if s.len() == 0 {
        seq![Seq::<char>::empty()]
    } else if s.last() == '/' {
        split_slash(s.drop_last()).push(Seq::empty())
    } else {
        let prev = split_slash(s.drop_last());
        prev.update(prev.len() - 1, prev.last().push(s.last()))
    }
}

pub proof fn lemma_split_slash_len(s: Seq<char>)
    ensures
        split_slash(s).len() >= 1,
    decreases s.len(),
{
    if s.len() > 0 {
        lemma_split_slash_len(s.drop_last());
    }
}

/// The segments of `s` between `/` separators.
pub fn split_on_slash(s: &Vec<char>) -> (r: Vec<Vec<char>>)
    ensures
        r.deep_view() == split_slash(s@),
        r@.len() >= 1,
{
    let mut segs: Vec<Vec<char>> = Vec::new();
    let mut cur: Vec<char> = Vec::new();
    let mut i: usize = 0;
    proof {
        assert(segs.deep_view().push(cur@) =~~= split_slash(s@.take(0)));
    }
    while i < s.len()
        invariant
            i <= s@.len(),
            segs.deep_view().push(cur@) == split_slash(s@.take(i as int)),
        decreases s@.len() - i,
    {
        let ghost prev_segs = segs.deep_view();
        let ghost prev_cur = cur@;
        let c = s[i];
        proof {
            assert(s@.take(i + 1).drop_last() =~= s@.take(i as int));
            assert(s@.take(i + 1).last() == s@[i as int]);
        }
        if c == '/' {
            segs.push(cur);
            cur = Vec::new();
            proof {
                assert(segs.deep_view() =~~= prev_segs.push(prev_cur));
                assert(segs.deep_view().push(cur@) =~~= split_slash(s@.take(i as int)).push(
                    Seq::empty(),
                ));
            }
        } else {
            cur.push(c);
            proof {
                let whole = prev_segs.push(prev_cur);
                assert(segs.deep_view().push(cur@) =~~= whole.update(
                    whole.len() - 1,
                    whole.last().push(c),
                ));
            }
        }
        i = i + 1;
    }
    proof {
        assert(s@.take(s@.len() as int) =~= s@);
    }
    segs.push(cur);
    proof {
        lemma_split_slash_len(s@);
        assert(segs.deep_view() =~~= split_slash(s@));
    }
    segs
}

/// The nonempty segments of `parts`, in order.
pub open spec fn keep_nonempty(parts: Seq<Seq<char>>) -> Seq<Seq<char>>
    decreases parts.len(),
{
    if parts.len() == 0 {
        Seq::empty()
    } else if parts.last().len() == 0 {
        keep_nonempty(parts.drop_last())
    } else {
        keep_nonempty(parts.drop_last()).push(parts.last())
    }
}

/// Drops the empty segments of `parts`.
pub fn drop_empty_segments(parts: &Vec<Vec<char>>) -> (r: Vec<Vec<char>>)
    ensures
        r.deep_view() == keep_nonempty(parts.deep_view()),
{
    let mut r: Vec<Vec<char>> = Vec::new();
    let mut i: usize = 0;
    proof {
        assert(r.deep_view() =~~= keep_nonempty(parts.deep_view().take(0)));
    }
    while i < parts.len()
        invariant
            i <= parts@.len(),
            r.deep_view() == keep_nonempty(parts.deep_view().take(i as int)),
        decreases parts@.len() - i,
    {
        let ghost prev = r.deep_view();
        proof {
            assert(parts.deep_view().take(i + 1).drop_last() =~= parts.deep_view().take(i as int));
            assert(parts.deep_view().take(i + 1).last() == parts.deep_view()[i as int]);
        }
        if parts[i].len() > 0 {
            let piece = clone_chars(&parts[i]);
            r.push(piece);
            proof {
                assert(r.deep_view() =~~= prev.push(parts.deep_view()[i as int]));
            }
        }
        i = i + 1;
    }
    proof {
        assert(parts.deep_view().take(parts.deep_view().len() as int) =~= parts.deep_view());
    }
    r
}

/// A copy of `s`.
pub fn clone_chars(s: &Vec<char>) -> (r: Vec<char>)
    ensures
        r@ == s@,
{
    let mut r: Vec<char> = Vec::new();
    let mut i: usize = 0;
    while i < s.len()
        invariant
            i <= s@.len(),
            r@ == s@.take(i as int),
        decreases s@.len() - i,
    {
        r.push(s[i]);
        i = i + 1;
        proof {
            assert(s@.take(i as int) =~= s@.take(i - 1).push(s@[i - 1]));
        }
    }
    proof {
        assert(s@.take(s@.len() as int) =~= s@);
    }
    r
}

/// `parts` joined by `sep`: the parts in order, one copy of `sep` between
/// each neighbouring pair, and nothing when there are no parts.
pub open spec fn join_with(parts: Seq<Seq<char>>, sep: Seq<char>) -> Seq<char>
    decreases parts.len(),
{
    if parts.len() == 0 {
        Seq::empty()
    } else if parts.len() == 1 {
        parts[0]
    } else {
        join_with(parts.drop_last(), sep) + sep + parts.last()
    }
}

/// `parts` joined by `/`.
pub fn join_on_slash(parts: &Vec<Vec<char>>) -> (r: Vec<char>)
    ensures
        r@ == join_with(parts.deep_view(), seq!['/']),
{
    let mut r: Vec<char> = Vec::new();
    let mut i: usize = 0;
    while i < parts.len()
        invariant
            i <= parts@.len(),
            r@ =~= join_with(parts.deep_view().take(i as int), seq!['/']),
        decreases parts@.len() - i,
    {
        let ghost prev = r@;
        proof {
            assert(parts.deep_view().take(i + 1).drop_last() =~= parts.deep_view().take(i as int));
            assert(parts.deep_view().take(i + 1).last() == parts.deep_view()[i as int]);
        }
        if i > 0 {
            r.push('/');
        }
        let mut j: usize = 0;
        let ghost mid = r@;
        while j < parts[i].len()
            invariant
                i < parts@.len(),
                j <= parts@[i as int]@.len(),
                r@ == mid + parts@[i as int]@.take(j as int),
            decreases parts@[i as int]@.len() - j,
        {
            r.push(parts[i][j]);
            j = j + 1;
            proof {
                assert(parts@[i as int]@.take(j as int) =~= parts@[i as int]@.take(j - 1).push(
                    parts@[i as int]@[j - 1],
                ));
            }
        }
        proof {
            assert(parts@[i as int]@.take(parts@[i as int]@.len() as int) =~= parts@[i as int]@);
            assert(parts@[i as int]@ == parts.deep_view()[i as int]);
            if i == 0 {
                assert(r@ =~= join_with(parts.deep_view().take(1), seq!['/']));
            } else {
                assert(r@ =~= join_with(parts.deep_view().take(i as int), seq!['/']) + seq!['/']
                    + parts.deep_view()[i as int]);
            }
        }
        i = i + 1;
    }
    proof {
        assert(parts.deep_view().take(parts.deep_view().len() as int) =~= parts.deep_view());
    }
    r
}

/// `parts` joined by `sep`.
pub fn join_strings(parts: &Vec<String>, sep: &str) -> (r: String)
    ensures
        r@ == join_with(parts.deep_view(), sep@),
{
    let mut r = String::new();
    let mut i: usize = 0;
    while i < parts.len()
        invariant
            i <= parts@.len(),
            r@ =~= join_with(parts.deep_view().take(i as int), sep@),
        decreases parts@.len() - i,
    {
        proof {
            assert(parts.deep_view().take(i + 1).drop_last() =~= parts.deep_view().take(i as int));
            assert(parts.deep_view().take(i + 1).last() == parts.deep_view()[i as int]);
        }
        if i > 0 {
            r.append(sep);
        }
        r.append(parts[i].as_str());
        proof {
            assert(parts@[i as int]@ == parts.deep_view()[i as int]);
            if i == 0 {
                assert(r@ =~= join_with(parts.deep_view().take(1), sep@));
            }
        }
        i = i + 1;
    }
    proof {
        assert(parts.deep_view().take(parts.deep_view().len() as int) =~= parts.deep_view());
    }
    r
}

/// Whether `needle` occurs in `hay` starting at position `i`.
pub open spec fn is_substring_at(needle: Seq<char>, hay: Seq<char>, i: int) -> bool {
    0 <= i && i + needle.len() <= hay.len() && hay.subrange(i, i + needle.len()) == needle
}

/// Whether `needle` occurs anywhere in `hay`.
pub open spec fn is_substring_of(needle: Seq<char>, hay: Seq<char>) -> bool {
    exists|i: int| is_substring_at(needle, hay, i)
}

fn matches_at(hay: &Vec<char>, needle: &Vec<char>, at: usize) -> (r: bool)
    requires
        at + needle@.len() <= hay@.len(),
    ensures
        r == is_substring_at(needle@, hay@, at as int),
{
    let hlen = hay.len();
    let mut j: usize = 0;
    while j < needle.len()
        invariant
            hlen == hay@.len(),
            at + needle@.len() <= hlen,
            j <= needle@.len(),
            forall|k: int| 0 <= k < j ==> hay@[at + k] == needle@[k],
        decreases needle@.len() - j,
    {
        if hay[at + j] != needle[j] {
            proof {
                if is_substring_at(needle@, hay@, at as int) {
                    assert(hay@.subrange(at as int, at + needle@.len())[j as int]
                        == needle@[j as int]);
                }
            }
            return false;
        }
        j = j + 1;
    }
    proof {
        assert(hay@.subrange(at as int, at + needle@.len()) =~= needle@);
    }
    true
}

/// Whether the characters of `needle` occur, contiguously and in order,
/// anywhere in `hay`.
pub fn contains_chars(hay: &Vec<char>, needle: &Vec<char>) -> (r: bool)
    ensures
        r == is_substring_of(needle@, hay@),
{
    if needle.len() > hay.len() {
        proof {
            assert(forall|i: int| !is_substring_at(needle@, hay@, i));
        }
        return false;
    }
    let bound = hay.len() - needle.len();
    let mut i: usize = 0;
    loop
        invariant
            needle@.len() <= hay@.len(),
            bound == hay@.len() - needle@.len(),
            i <= bound,
            forall|k: int| 0 <= k < i ==> !is_substring_at(needle@, hay@, k),
        decreases bound - i,
    {
        if matches_at(hay, needle, i) {
            return true;
        }
        if i == bound {
            proof {
                assert(forall|k: int| k > bound ==> !is_substring_at(needle@, hay@, k));
            }
            return false;
        }
        i = i + 1;
    }
}

/// A text is a substring of itself.
pub proof fn lemma_substring_self(n: Seq<char>)
    ensures
        is_substring_of(n, n),
{
    assert(n.subrange(0, n.len() as int) =~= n);
    assert(is_substring_at(n, n, 0));
}

/// A substring of `a` is a substring of `a + b`.
pub proof fn lemma_substring_extend_right(n: Seq<char>, a: Seq<char>, b: Seq<char>)
    requires
        is_substring_of(n, a),
    ensures
        is_substring_of(n, a + b),
{
    let i = choose|i: int| is_substring_at(n, a, i);
    assert((a + b).subrange(i, i + n.len() as int) =~= a.subrange(i, i + n.len() as int));
    assert(is_substring_at(n, a + b, i));
}

/// A substring of `b` is a substring of `a + b`.
pub proof fn lemma_substring_extend_left(n: Seq<char>, a: Seq<char>, b: Seq<char>)
    requires
        is_substring_of(n, b),
    ensures
        is_substring_of(n, a + b),
{
    let i = choose|i: int| is_substring_at(n, b, i);
    assert((a + b).subrange(a.len() + i, a.len() + i + n.len() as int) =~= b.subrange(
        i,
        i + n.len() as int,
    ));
    assert(is_substring_at(n, a + b, a.len() + i));
}

/// Substring containment is transitive.
pub proof fn lemma_substring_trans(a: Seq<char>, b: Seq<char>, c: Seq<char>)
    requires
        is_substring_of(a, b),
        is_substring_of(b, c),
    ensures
        is_substring_of(a, c),
{
    let i = choose|i: int| is_substring_at(a, b, i);
    let j = choose|j: int| is_substring_at(b, c, j);
    assert forall|k: int| 0 <= k < a.len() implies c.subrange(j + i, j + i + a.len() as int)[k]
        == a[k] by {
        assert(b[i + k] == b.subrange(i, i + a.len() as int)[k]);
        assert(c[j + i + k] == c.subrange(j, j + b.len() as int)[i + k]);
    }
    assert(c.subrange(j + i, j + i + a.len() as int) =~= a);
    assert(is_substring_at(a, c, j + i));
}

/// An element of either side is an element of the concatenation.
pub proof fn lemma_concat_contains<A>(x: Seq<A>, y: Seq<A>, e: A)
    requires
        x.contains(e) || y.contains(e),
    ensures
        (x + y).contains(e),
{
    if x.contains(e) {
        let i = choose|i: int| 0 <= i < x.len() && x[i] == e;
        assert((x + y)[i] == e);
    } else {
        let i = choose|i: int| 0 <= i < y.len() && y[i] == e;
        assert((x + y)[x.len() + i] == e);
    }
}

/// Every part is a substring of the joined text.
pub proof fn lemma_join_contains_part(parts: Seq<Seq<char>>, sep: Seq<char>, p: Seq<char>)
    requires
        parts.contains(p),
    ensures
        is_substring_of(p, join_with(parts, sep)),
    decreases parts.len(),
{
    let i = choose|i: int| 0 <= i < parts.len() && parts[i] == p;
    if parts.len() == 1 {
        lemma_substring_self(p);
    } else if i == parts.len() - 1 {
        lemma_substring_self(p);
        lemma_substring_extend_left(p, join_with(parts.drop_last(), sep) + sep, p);
    } else {
        assert(parts.drop_last()[i] == p);
        assert(parts.drop_last().contains(p));
        lemma_join_contains_part(parts.drop_last(), sep, p);
        lemma_substring_extend_right(p, join_with(parts.drop_last(), sep), sep);
        lemma_substring_extend_right(p, join_with(parts.drop_last(), sep) + sep, parts.last());
    }
}

/// Whether two strings hold the same characters.
pub fn str_equal(a: &str, b: &str) -> (r: bool)
    ensures
        r == (a@ == b@),
{
    let n = a.unicode_len();
    if n != b.unicode_len() {
        return false;
    }
    let mut i: usize = 0;
    while i < n
        invariant
            n == a@.len(),
            n == b@.len(),
            i <= n,
            forall|k: int| 0 <= k < i ==> a@[k] == b@[k],
        decreases n - i,
    {
        if a.get_char(i) != b.get_char(i) {
            return false;
        }
        i = i + 1;
    }
    proof {
        assert(a@ =~= b@);
    }
    true
}

} // verus!
