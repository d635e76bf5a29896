//! Character-level string operations with mathematical models over `Seq<char>`.
//!
//! The executable functions here give the crate the few `str` operations it
//! needs (equality, prefix and suffix tests, searching, trimming, splitting
//! into lines) each with a contract over the string's character sequence.
use vstd::prelude::*;

verus! {

/// Unicode `White_Space`, the set that `char::is_whitespace` tests.
pub open spec fn is_ws(c: char) -> bool {
    ||| ('\u{9}' <= c && c <= '\u{d}')
    ||| c == ' '
    ||| c == '\u{85}'
    ||| c == '\u{a0}'
    ||| c == '\u{1680}'
    ||| ('\u{2000}' <= c && c <= '\u{200a}')
    ||| c == '\u{2028}'
    ||| c == '\u{2029}'
    ||| c == '\u{202f}'
    ||| c == '\u{205f}'
    ||| c == '\u{3000}'
}

/// Executable whitespace test.
pub fn is_whitespace(c: char) -> (r: bool)
    ensures
        r == is_ws(c),
{
    ('\u{9}' <= c && c <= '\u{d}') || c == ' ' || c == '\u{85}' || c == '\u{a0}' || c
        == '\u{1680}' || ('\u{2000}' <= c && c <= '\u{200a}') || c == '\u{2028}' || c
        == '\u{2029}' || c == '\u{202f}' || c == '\u{205f}' || c == '\u{3000}'
}

/// `s` with its leading whitespace removed.
pub open spec fn trim_start(s: Seq<char>) -> Seq<char>
    decreases s.len(),
{
    if s.len() > 0 && is_ws(s[0]) {
        trim_start(s.drop_first())
    } else {
        s
    }
}

/// `s` with its trailing whitespace removed.
pub open spec fn trim_end(s: Seq<char>) -> Seq<char>
    decreases s.len(),
{
    if s.len() > 0 && is_ws(s.last()) {
        trim_end(s.drop_last())
    } else {
        s
    }
}

/// `s` with whitespace removed from both ends.
pub open spec fn trim(s: Seq<char>) -> Seq<char> {
    trim_end(trim_start(s))
}

/// `p` is a prefix of `s`.
pub open spec fn starts_with(s: Seq<char>, p: Seq<char>) -> bool {
    p.len() <= s.len() && s.take(p.len() as int) == p
}

/// `p` is a suffix of `s`.
pub open spec fn ends_with(s: Seq<char>, p: Seq<char>) -> bool {
    p.len() <= s.len() && s.skip(s.len() - p.len()) == p
}

/// `p` occurs in `s` as a contiguous piece.
pub open spec fn contains_seq(s: Seq<char>, p: Seq<char>) -> bool {
    exists|i: int| 0 <= i && i + p.len() <= s.len() && #[trigger] s.subrange(i, i + p.len()) == p
}

/// Index of the first occurrence of `c` in `s`, or `s.len()` when there is none.
pub open spec fn find_char(s: Seq<char>, c: char) -> nat
    decreases s.len(),
{
    if s.len() == 0 {
        0
    } else if s[0] == c {
        0
    } else {
        1 + find_char(s.drop_first(), c)
    }
}

/// Number of occurrences of `c` in `s`.
pub open spec fn count_char(s: Seq<char>, c: char) -> nat
    decreases s.len(),
{
    if s.len() == 0 {
        0
    } else {
        (if s[0] == c {
            1nat
        } else {
            0nat
        }) + count_char(s.drop_first(), c)
    }
}

/// The lines of `s`: the pieces between `'\n'` characters, where a final
/// newline does not start another line and the empty text has no line.
pub open spec fn lines(s: Seq<char>) -> Seq<Seq<char>>
    decreases s.len(),
{
    if s.len() == 0 {
        seq![]
    } else {
        let e = find_char(s, '\n');
        if e >= s.len() {
            seq![s]
        } else {
            seq![s.take(e as int)] + lines(s.skip(e + 1 as int))
        }
    }
}

/// The pieces joined with `sep` between neighbours.
pub open spec fn join(pieces: Seq<Seq<char>>, sep: Seq<char>) -> Seq<char>
    decreases pieces.len(),
{
    if pieces.len() == 0 {
        seq![]
    } else if pieces.len() == 1 {
        pieces[0]
    } else {
        join(pieces.drop_last(), sep) + sep + pieces.last()
    }
}

/// Each piece followed by `term`, all concatenated.
pub open spec fn terminated(pieces: Seq<Seq<char>>, term: Seq<char>) -> Seq<char>
    decreases pieces.len(),
{
    if pieces.len() == 0 {
        seq![]
    } else {
        pieces[0] + term + terminated(pieces.drop_first(), term)
    }
}

pub proof fn lemma_terminated_push(pieces: Seq<Seq<char>>, x: Seq<char>, term: Seq<char>)
    ensures
        terminated(pieces.push(x), term) == terminated(pieces, term) + x + term,
    decreases pieces.len(),
{
    if pieces.len() == 0 {
        assert(pieces.push(x).drop_first() =~= Seq::<Seq<char>>::empty());
        assert(pieces.push(x)[0] == x);
        assert(terminated(Seq::<Seq<char>>::empty(), term) == Seq::<char>::empty());
        assert(terminated(pieces.push(x), term) =~= x + term + Seq::<char>::empty());
        assert(terminated(pieces, term) + x + term =~= x + term);
    } else {
        lemma_terminated_push(pieces.drop_first(), x, term);
        assert(pieces.push(x).drop_first() =~= pieces.drop_first().push(x));
        assert(terminated(pieces.push(x), term) =~= pieces[0] + term + (terminated(
            pieces.drop_first(),
            term,
        ) + x + term));
    }
}

/// Splitting text made of newline-terminated pieces into lines gives the
/// pieces back, when no piece holds a newline.
pub proof fn lemma_lines_of_terminated(pieces: Seq<Seq<char>>)
    requires
        forall|i: int, j: int|
            0 <= i < pieces.len() && 0 <= j < pieces[i].len() ==> #[trigger] pieces[i][j]
                != '\n',
    ensures
        lines(terminated(pieces, "\n"@)) == pieces,
    decreases pieces.len(),
{
    reveal_strlit("\n");
    let nl = "\n"@;
    assert(nl =~= seq!['\n']);
    if pieces.len() == 0 {
        assert(lines(Seq::<char>::empty()) =~= Seq::<Seq<char>>::empty());
    } else {
        let p = pieces[0];
        let rest = pieces.drop_first();
        assert forall|i: int, j: int|
            0 <= i < rest.len() && 0 <= j < rest[i].len() implies #[trigger] rest[i][j] != '\n' by {
            assert(rest[i] == pieces[i + 1]);
        }
        lemma_lines_of_terminated(rest);
        let t = terminated(pieces, nl);
        let tr = terminated(rest, nl);
        assert(t =~= p + nl + tr);
        assert(forall|j: int| 0 <= j < p.len() ==> t[j] == p[j]);
        assert(t[p.len() as int] == '\n');
        lemma_find_char(t, '\n', p.len() as int);
        assert(t.take(p.len() as int) =~= p);
        assert(t.skip(p.len() + 1 as int) =~= tr);
        assert(lines(t) =~= seq![p] + lines(tr));
        assert(pieces =~= seq![p] + rest);
    }
}

pub proof fn lemma_find_char(s: Seq<char>, c: char, k: int)
    requires
        0 <= k <= s.len(),
        forall|j: int| 0 <= j < k ==> s[j] != c,
        k == s.len() || s[k] == c,
    ensures
        find_char(s, c) == k,
    decreases k,
{
    if k > 0 {
        lemma_find_char(s.drop_first(), c, k - 1);
    }
}

pub proof fn lemma_find_char_bounds(s: Seq<char>, c: char)
    ensures
        find_char(s, c) <= s.len(),
        find_char(s, c) < s.len() ==> s[find_char(s, c) as int] == c,
        forall|j: int| 0 <= j < find_char(s, c) ==> s[j] != c,
    decreases s.len(),
{
    if s.len() > 0 && s[0] != c {
        lemma_find_char_bounds(s.drop_first(), c);
        assert forall|j: int| 0 <= j < find_char(s, c) implies s[j] != c by {
            if j > 0 {
                assert(s[j] == s.drop_first()[j - 1]);
            }
        }
    }
}

pub proof fn lemma_count_char_concat(a: Seq<char>, b: Seq<char>, c: char)
    ensures
        count_char(a + b, c) == count_char(a, c) + count_char(b, c),
    decreases a.len(),
{
    if a.len() > 0 {
        lemma_count_char_concat(a.drop_first(), b, c);
        assert((a + b).drop_first() =~= a.drop_first() + b);
    } else {
        assert(a + b =~= b);
    }
}

pub proof fn lemma_count_char_absent(s: Seq<char>, c: char)
    requires
        forall|j: int| 0 <= j < s.len() ==> s[j] != c,
    ensures
        count_char(s, c) == 0,
        find_char(s, c) == s.len(),
    decreases s.len(),
{
    if s.len() > 0 {
        lemma_count_char_absent(s.drop_first(), c);
    }
}

/// Characters `[from, to)` of `s`, as an owned string.
pub fn slice_to_string(s: &str, from: usize, to: usize) -> (r: String)
    requires
        from <= to <= s@.len(),
    ensures
        r@ == s@.subrange(from as int, to as int),
{
    s.substring_char(from, to).to_owned()
}

/// The strings of `pieces` with `sep` between neighbours.
pub fn join_strings(pieces: &Vec<String>, sep: &str) -> (r: String)
    ensures
        r@ == join(pieces.deep_view(), sep@),
{
    let mut out = String::new();
    let mut i: usize = 0;
    assert(pieces.deep_view().take(0) =~= Seq::<Seq<char>>::empty());
    while i < pieces.len()
        invariant
            i <= pieces.len(),
            out@ == join(pieces.deep_view().take(i as int), sep@),
        decreases pieces.len() - i,
    {
        let ghost pre = pieces.deep_view().take(i as int);
        let ghost post = pieces.deep_view().take(i + 1);
        assert(post.drop_last() =~= pre);
        assert(post.last() == pieces@[i as int]@);
        if i > 0 {
            out.append(sep);
        } else {
            assert(pre.len() == 0);
            assert(out@ =~= Seq::<char>::empty());
        }
        out.append(pieces[i].as_str());
        proof {
            if i == 0 {
                assert(out@ =~= post[0]);
            }
        }
        i += 1;
    }
    assert(pieces.deep_view().take(pieces.len() as int) =~= pieces.deep_view());
    out
}

/// The strings of `pieces`, each followed by `term`.
pub fn terminate_strings(pieces: &Vec<String>, term: &str) -> (r: String)
    ensures
        r@ == terminated(pieces.deep_view(), term@),
{
    let mut out = String::new();
    let mut i: usize = 0;
    assert(pieces.deep_view().take(0) =~= Seq::<Seq<char>>::empty());
    while i < pieces.len()
        invariant
            i <= pieces.len(),
            out@ == terminated(pieces.deep_view().take(i as int), term@),
        decreases pieces.len() - i,
    {
        let ghost pre = pieces.deep_view().take(i as int);
        let ghost post = pieces.deep_view().take(i + 1);
        assert(post =~= pre.push(pieces@[i as int]@));
        proof {
            lemma_terminated_push(pre, pieces@[i as int]@, term@);
        }
        out.append(pieces[i].as_str());
        out.append(term);
        i += 1;
    }
    assert(pieces.deep_view().take(pieces.len() as int) =~= pieces.deep_view());
    out
}

/// Character equality of two strings.
pub fn str_eq(a: &str, b: &str) -> (r: bool)
    ensures
        r == (a@ == b@),
{
    let n = a.unicode_len();
    let m = b.unicode_len();
    if n != m {
        return false;
    }
    let mut i: usize = 0;
    while i < n
        invariant
            n == a@.len(),
            m == b@.len(),
            n == m,
            i <= n,
            forall|j: int| 0 <= j < i ==> a@[j] == b@[j],
        decreases n - i,
    {
        if a.get_char(i) != b.get_char(i) {
            return false;
        }
        i += 1;
    }
    assert(a@ =~= b@);
    true
}

/// Does `s` start with `p`?
pub fn has_prefix(s: &str, p: &str) -> (r: bool)
    ensures
        r == starts_with(s@, p@),
{
    let n = s.unicode_len();
    let m = p.unicode_len();
    if m > n {
        return false;
    }
    let mut i: usize = 0;
    while i < m
        invariant
            n == s@.len(),
            m == p@.len(),
            m <= n,
            i <= m,
            forall|j: int| 0 <= j < i ==> s@[j] == p@[j],
        decreases m - i,
    {
        if s.get_char(i) != p.get_char(i) {
            assert(s@.take(m as int)[i as int] != p@[i as int]);
            return false;
        }
        i += 1;
    }
    assert(s@.take(m as int) =~= p@);
    true
}

/// Does `s` end with `p`?
pub fn has_suffix(s: &str, p: &str) -> (r: bool)
    ensures
        r == ends_with(s@, p@),
{
    let n = s.unicode_len();
    let m = p.unicode_len();
    if m > n {
        return false;
    }
    let d = n - m;
    let mut i: usize = 0;
    while i < m
        invariant
            n == s@.len(),
            m == p@.len(),
            m <= n,
            d == n - m,
            i <= m,
            forall|j: int| 0 <= j < i ==> s@[d + j] == p@[j],
        decreases m - i,
    {
        if s.get_char(d + i) != p.get_char(i) {
            assert(s@.skip(d as int)[i as int] != p@[i as int]);
            return false;
        }
        i += 1;
    }
    assert(s@.skip(d as int) =~= p@);
    true
}

/// Does `p` occur in `s`?
pub fn has_substring(s: &str, p: &str) -> (r: bool)
    ensures
        r == contains_seq(s@, p@),
{
    let n = s.unicode_len();
    let m = p.unicode_len();
    if m > n {
        return false;
    }
    if m == 0 {
        assert(s@.subrange(0, 0 + p@.len() as int) =~= p@);
        return true;
    }
    let mut i: usize = 0;
    while i <= n - m
        invariant
            n == s@.len(),
            m == p@.len(),
            1 <= m <= n,
            forall|k: int| 0 <= k < i ==> #[trigger] s@.subrange(k, k + m) != p@,
        decreases n - m + 1 - i,
    {
        let mut j: usize = 0;
        let mut same = true;
        while j < m
            invariant
                n == s@.len(),
                m == p@.len(),
                i + m <= n,
                j <= m,
                same ==> forall|l: int| 0 <= l < j ==> s@[i + l] == p@[l],
                !same ==> s@.subrange(i as int, i + m) != p@,
            decreases m - j,
        {
            if s.get_char(i + j) != p.get_char(j) {
                assert(s@.subrange(i as int, i + m)[j as int] != p@[j as int]);
                same = false;
            }
            j += 1;
        }
        if same {
            assert(s@.subrange(i as int, i + m) =~= p@);
            return true;
        }
        i += 1;
    }
    assert forall|k: int| 0 <= k && k + p@.len() <= s@.len() implies #[trigger] s@.subrange(
        k,
        k + p@.len(),
    ) != p@ by {
        assert(k < i);
    }
    false
}

/// Index of the first `c` in `s`, or the length of `s` when there is none.
pub fn index_of_char(s: &str, c: char) -> (r: usize)
    ensures
        r == find_char(s@, c),
{
    let n = s.unicode_len();
    let mut i: usize = 0;
    while i < n && s.get_char(i) != c
        invariant
            n == s@.len(),
            i <= n,
            forall|j: int| 0 <= j < i ==> s@[j] != c,
        decreases n - i,
    {
        i += 1;
    }
    proof {
        lemma_find_char(s@, c, i as int);
    }
    i
}

/// Number of times `c` occurs in `s`.
pub fn count_of_char(s: &str, c: char) -> (r: usize)
    ensures
        r == count_char(s@, c),
{
    let n = s.unicode_len();
    let mut i: usize = 0;
    let mut k: usize = 0;
    assert(s@.skip(0) =~= s@);
    while i < n
        invariant
            n == s@.len(),
            i <= n,
            k <= i,
            count_char(s@, c) == k + count_char(s@.skip(i as int), c),
        decreases n - i,
    {
        assert(s@.skip(i as int).drop_first() =~= s@.skip(i + 1));
        if s.get_char(i) == c {
            k += 1;
        }
        i += 1;
    }
    assert(s@.skip(n as int) =~= Seq::<char>::empty());
    k
}

/// `s` without leading and trailing whitespace.
pub fn trim_str(s: &str) -> (r: &str)
    ensures
        r@ == trim(s@),
{
    let n = s.unicode_len();
    let mut i: usize = 0;
    assert(s@.skip(0) =~= s@);
    while i < n && is_whitespace(s.get_char(i))
        invariant
            n == s@.len(),
            i <= n,
            trim_start(s@) == trim_start(s@.skip(i as int)),
        decreases n - i,
    {
        assert(s@.skip(i as int).drop_first() =~= s@.skip(i + 1));
        i += 1;
    }
    assert(trim_start(s@) == s@.skip(i as int));
    let mut j: usize = n;
    while j > i && is_whitespace(s.get_char(j - 1))
        invariant
            n == s@.len(),
            i <= j <= n,
            trim_start(s@) == s@.skip(i as int),
            trim(s@) == trim_end(s@.subrange(i as int, j as int)),
        decreases j,
    {
        assert(s@.subrange(i as int, j as int).drop_last() =~= s@.subrange(i as int, j - 1));
        j -= 1;
    }
    assert(s@.skip(i as int) =~= s@.subrange(i as int, n as int));
    assert(trim(s@) == s@.subrange(i as int, j as int));
    s.substring_char(i, j)
}

/// `s` without leading whitespace.
pub fn trim_start_str(s: &str) -> (r: &str)
    ensures
        r@ == trim_start(s@),
{
    let n = s.unicode_len();
    let mut i: usize = 0;
    assert(s@.skip(0) =~= s@);
    while i < n && is_whitespace(s.get_char(i))
        invariant
            n == s@.len(),
            i <= n,
            trim_start(s@) == trim_start(s@.skip(i as int)),
        decreases n - i,
    {
        assert(s@.skip(i as int).drop_first() =~= s@.skip(i + 1));
        i += 1;
    }
    assert(s@.skip(i as int) =~= s@.subrange(i as int, n as int));
    s.substring_char(i, n)
}

pub proof fn lemma_lines_step(s: Seq<char>, i: int, e: int)
    requires
        0 <= i < s.len(),
        i <= e <= s.len(),
        forall|j: int| i <= j < e ==> s[j] != '\n',
        e == s.len() || s[e] == '\n',
    ensures
        e == s.len() ==> lines(s.skip(i)) == seq![s.subrange(i, e)],
        e < s.len() ==> lines(s.skip(i)) == seq![s.subrange(i, e)] + lines(s.skip(e + 1)),
{
    let t = s.skip(i);
    lemma_find_char(t, '\n', e - i);
    assert(t.take(e - i) =~= s.subrange(i, e));
    if e < s.len() {
        assert(t.skip(e - i + 1) =~= s.skip(e + 1));
    } else {
        assert(t =~= s.subrange(i, e));
    }
}

/// The lines of `s`, as `str::lines` gives them up to a trailing `'\r'`
/// on each line (every caller trims the lines it reads).
pub fn split_lines(s: &str) -> (r: Vec<String>)
    ensures
        r.deep_view() == lines(s@),
{
    let n = s.unicode_len();
    let mut out: Vec<String> = Vec::new();
    let mut i: usize = 0;
    assert(s@.skip(0) =~= s@);
    assert(out.deep_view() + lines(s@) =~= lines(s@));
    while i < n
        invariant
            n == s@.len(),
            i <= n,
            lines(s@) == out.deep_view() + lines(s@.skip(i as int)),
        decreases n - i,
    {
        let mut e: usize = i;
        while e < n && s.get_char(e) != '\n'
            invariant
                n == s@.len(),
                i <= e <= n,
                forall|j: int| i <= j < e ==> s@[j] != '\n',
            decreases n - e,
        {
            e += 1;
        }
        proof {
            lemma_lines_step(s@, i as int, e as int);
        }
        let line = slice_to_string(s, i, e);
        let ghost before = out.deep_view();
        out.push(line);
        assert(out.deep_view() =~= before.push(s@.subrange(i as int, e as int)));
        if e == n {
            assert(s@.skip(n as int) =~= Seq::<char>::empty());
            i = n;
        } else {
            i = e + 1;
        }
    }
    assert(s@.skip(n as int) =~= Seq::<char>::empty());
    assert(out.deep_view() + Seq::<Seq<char>>::empty() =~= out.deep_view());
    out
}

} // verus!
