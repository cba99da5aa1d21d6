//! Character-level text handling shared by the parsers: whitespace, trimming,
//! splitting, case folding, and decimal / hexadecimal numbers.

use vstd::prelude::*;

verus! {

/// The characters that `char::is_whitespace` accepts (Unicode `White_Space`).
pub open spec fn is_ws(c: char) -> bool {
    let u = c as u32;
    ||| u == 0x09 || u == 0x0A || u == 0x0B || u == 0x0C || u == 0x0D || u == 0x20
    ||| u == 0x85 || u == 0xA0 || u == 0x1680
    ||| (0x2000 <= u && u <= 0x200A)
    ||| u == 0x2028 || u == 0x2029 || u == 0x202F || u == 0x205F || u == 0x3000
}

/// Tests whether `c` is Unicode whitespace.
pub fn char_is_ws(c: char) -> (r: bool)
    ensures
        r == is_ws(c),
{
    let u = c as u32;
    u == 0x09 || u == 0x0A || u == 0x0B || u == 0x0C || u == 0x0D || u == 0x20 || u == 0x85
        || u == 0xA0 || u == 0x1680 || (0x2000 <= u && u <= 0x200A) || u == 0x2028 || u
        == 0x2029 || u == 0x202F || u == 0x205F || u == 0x3000
}

/// The characters held by an optional string.
pub open spec fn opt_view(o: Option<String>) -> Option<Seq<char>> {
    match o {
        Some(s) => Some(s@),
        None => None,
    }
}

/// Length of the run of non-whitespace characters that starts `s`.
pub open spec fn token_len(s: Seq<char>) -> nat
    decreases s.len(),
{
    if s.len() > 0 && !is_ws(s[0]) {
        1 + token_len(s.drop_first())
    } else {
        0
    }
}

proof fn lemma_token_len(s: Seq<char>, i: int)
    requires
        0 <= i <= s.len(),
        forall|j: int| 0 <= j < i ==> !is_ws(#[trigger] s[j]),
        i == s.len() || is_ws(s[i]),
    ensures
        token_len(s) == i,
    decreases i,
{
    if i > 0 {
        let t = s.drop_first();
        assert forall|j: int| 0 <= j < i - 1 implies !is_ws(#[trigger] t[j]) by {
            assert(t[j] == s[j + 1]);
        }
        if i < s.len() {
            assert(t[i - 1] == s[i]);
        }
        lemma_token_len(t, i - 1);
    }
}

/// The length of the non-whitespace run at the start of `v`.
pub fn leading_token_len(v: &[char]) -> (n: usize)
    ensures
        n == token_len(v@),
        n <= v@.len(),
{
    let mut i: usize = 0;
    while i < v.len() && !char_is_ws(v[i])
        invariant
            i <= v@.len(),
            forall|j: int| 0 <= j < i ==> !is_ws(#[trigger] v@[j]),
        decreases v@.len() - i,
    {
        i = i + 1;
    }
    proof {
        lemma_token_len(v@, i as int);
    }
    i
}

/// The first `n` characters of `v`.
pub fn prefix_to(v: &[char], n: usize) -> (res: Vec<char>)
    requires
        n <= v@.len(),
    ensures
        res@ == v@.take(n as int),
{
    let mut res: Vec<char> = Vec::new();
    for i in 0..n
        invariant
            n <= v@.len(),
            res@ == v@.take(i as int),
    {
        res.push(v[i]);
        assert(v@.take(i + 1) == v@.take(i as int).push(v@[i as int]));
    }
    res
}

/// Copies the characters of a string slice into a vector.
pub fn chars_of(s: &str) -> (res: Vec<char>)
    ensures
        res@ == s@,
{
    let mut res: Vec<char> = Vec::new();
    for c in it: s.chars()
        invariant
            res@ == it.seq().take(it.index() as int),
            it.seq() == s@,
    {
        res.push(c);
    }
    res
}

/// Appends one character to a string (`String::push`).
#[verifier::external_body]
fn string_push(s: &mut String, c: char)
    ensures
        final(s)@ == old(s)@.push(c),
{
    s.push(c);
}

/// Builds a string holding exactly the characters of `v`.
pub fn string_of(v: &[char]) -> (res: String)
    ensures
        res@ == v@,
{
    let mut res = String::new();
    let n = v.len();
    for i in 0..n
        invariant
            n == v@.len(),
            res@ == v@.take(i as int),
    {
        string_push(&mut res, v[i]);
        assert(v@.take(i + 1) == v@.take(i as int).push(v@[i as int]));
    }
    assert(v@.take(n as int) == v@);
    res
}

/// Number of whitespace characters at the start of `s`.
pub open spec fn lead_ws(s: Seq<char>) -> nat
    decreases s.len(),
{
    if s.len() > 0 && is_ws(s[0]) {
        1 + lead_ws(s.drop_first())
    } else {
        0
    }
}

/// Number of whitespace characters at the end of `s`.
pub open spec fn trail_ws(s: Seq<char>) -> nat
    decreases s.len(),
{
    if s.len() > 0 && is_ws(s.last()) {
        1 + trail_ws(s.drop_last())
    } else {
        0
    }
}

pub proof fn lemma_lead_ws_bound(s: Seq<char>)
    ensures
        lead_ws(s) <= s.len(),
    decreases s.len(),
{
    if s.len() > 0 && is_ws(s[0]) {
        lemma_lead_ws_bound(s.drop_first());
    }
}

pub proof fn lemma_trail_ws_bound(s: Seq<char>)
    ensures
        trail_ws(s) <= s.len(),
    decreases s.len(),
{
    if s.len() > 0 && is_ws(s.last()) {
        lemma_trail_ws_bound(s.drop_last());
    }
}

/// `str::trim_start`: drops the leading whitespace.
pub open spec fn trim_start_spec(s: Seq<char>) -> Seq<char> {
    s.skip(lead_ws(s) as int)
}

/// `str::trim_end`: drops the trailing whitespace.
pub open spec fn trim_end_spec(s: Seq<char>) -> Seq<char> {
    s.take(s.len() - trail_ws(s))
}

/// `str::trim`: drops whitespace at both ends.
pub open spec fn trim_spec(s: Seq<char>) -> Seq<char> {
    trim_end_spec(trim_start_spec(s))
}

/// Drops the leading whitespace of `v`.
pub fn trim_start(v: &[char]) -> (res: Vec<char>)
    ensures
        res@ == trim_start_spec(v@),
{
    let n = v.len();
    let mut i: usize = 0;
    proof {
        assert(v@.skip(0) == v@);
    }
    while i < n && char_is_ws(v[i])
        invariant
            i <= n,
            n == v@.len(),
            lead_ws(v@) == i + lead_ws(v@.skip(i as int)),
        decreases n - i,
    {
        proof {
            assert(v@.skip(i as int).drop_first() == v@.skip(i + 1));
        }
        i = i + 1;
    }
    let mut res: Vec<char> = Vec::new();
    let mut j = i;
    while j < n
        invariant
            i <= j <= n,
            n == v@.len(),
            lead_ws(v@) == i,
            res@ == v@.subrange(i as int, j as int),
        decreases n - j,
    {
        res.push(v[j]);
        proof {
            assert(v@.subrange(i as int, j + 1) == v@.subrange(i as int, j as int).push(v@[j as int]));
        }
        j = j + 1;
    }
    res
}

/// Drops the trailing whitespace of `v`.
pub fn trim_end(v: &[char]) -> (res: Vec<char>)
    ensures
        res@ == trim_end_spec(v@),
{
    let n = v.len();
    let mut j: usize = n;
    proof {
        assert(v@.take(n as int) == v@);
    }
    while j > 0 && char_is_ws(v[j - 1])
        invariant
            j <= n,
            n == v@.len(),
            trail_ws(v@) == (n - j) + trail_ws(v@.take(j as int)),
        decreases j,
    {
        proof {
            assert(v@.take(j as int).drop_last() == v@.take(j - 1));
        }
        j = j - 1;
    }
    let mut res: Vec<char> = Vec::new();
    let mut k: usize = 0;
    while k < j
        invariant
            k <= j <= n,
            n == v@.len(),
            trail_ws(v@) == n - j,
            res@ == v@.take(k as int),
        decreases j - k,
    {
        res.push(v[k]);
        proof {
            assert(v@.take(k + 1) == v@.take(k as int).push(v@[k as int]));
        }
        k = k + 1;
    }
    res
}

/// Drops whitespace at both ends of `v`.
pub fn trim(v: &[char]) -> (res: Vec<char>)
    ensures
        res@ == trim_spec(v@),
{
    let a = trim_start(v);
    trim_end(a.as_slice())
}


/// The character sequences held by a sequence of vectors.
pub open spec fn seq_views(v: Seq<Vec<char>>) -> Seq<Seq<char>> {
    v.map_values(|x: Vec<char>| x@)
}

/// `str::split(d)`: the pieces between occurrences of `d` (always at least one).
pub open spec fn split_spec(s: Seq<char>, d: char) -> Seq<Seq<char>>
    decreases s.len(),
{
    if s.len() == 0 {
        seq![Seq::<char>::empty()]
    } else {
        let r = split_spec(s.drop_last(), d);
        if s.last() == d {
            r.push(Seq::<char>::empty())
        } else {
            r.update(r.len() - 1, r.last().push(s.last()))
        }
    }
}

pub proof fn lemma_split_nonempty(s: Seq<char>, d: char)
    ensures
        split_spec(s, d).len() >= 1,
    decreases s.len(),
{
    if s.len() > 0 {
        lemma_split_nonempty(s.drop_last(), d);
    }
}

/// Splits `v` at every occurrence of `d`.
pub fn split_chars(v: &[char], d: char) -> (res: Vec<Vec<char>>)
    ensures
        seq_views(res@) == split_spec(v@, d),
{
    let n = v.len();
    let mut done: Vec<Vec<char>> = Vec::new();
    let mut cur: Vec<char> = Vec::new();
    proof {
        assert(v@.take(0) == Seq::<char>::empty());
    }
    for i in 0..n
        invariant
            n == v@.len(),
            seq_views(done@).push(cur@) == split_spec(v@.take(i as int), d),
    {
        let c = v[i];
        proof {
            assert(v@.take(i + 1).drop_last() == v@.take(i as int));
            lemma_split_nonempty(v@.take(i as int), d);
        }
        if c == d {
            let ghost before = seq_views(done@).push(cur@);
            let old_cur = cur;
            done.push(old_cur);
            cur = Vec::new();
            proof {
                assert(seq_views(done@) == before);
                assert(seq_views(done@).push(cur@) == before.push(Seq::<char>::empty()));
            }
        } else {
            let ghost before = seq_views(done@).push(cur@);
            cur.push(c);
            proof {
                assert(seq_views(done@).push(cur@) =~= before.update(
                    before.len() - 1,
                    before.last().push(c),
                ));
            }
        }
    }
    proof {
        assert(v@.take(n as int) == v@);
    }
    let ghost before = seq_views(done@).push(cur@);
    done.push(cur);
    proof {
        assert(seq_views(done@) =~= before);
    }
    done
}

/// `str::split_whitespace`: the maximal runs of non-whitespace characters.
pub open spec fn ws_tokens(s: Seq<char>) -> Seq<Seq<char>>
    decreases s.len(),
{
    if s.len() == 0 {
        Seq::<Seq<char>>::empty()
    } else {
        let r = ws_tokens(s.drop_last());
        let c = s.last();
        if is_ws(c) {
            r
        } else if s.len() >= 2 && !is_ws(s[s.len() - 2]) {
            r.update(r.len() - 1, r.last().push(c))
        } else {
            r.push(seq![c])
        }
    }
}

pub proof fn lemma_ws_tokens_nonempty(s: Seq<char>)
    requires
        s.len() > 0,
        !is_ws(s.last()),
    ensures
        ws_tokens(s).len() >= 1,
    decreases s.len(),
{
    if s.len() >= 2 && !is_ws(s[s.len() - 2]) {
        assert(s.drop_last().last() == s[s.len() - 2]);
        lemma_ws_tokens_nonempty(s.drop_last());
    }
}

/// Splits `v` into its whitespace-separated tokens.
pub fn ws_split(v: &[char]) -> (res: Vec<Vec<char>>)
    ensures
        seq_views(res@) == ws_tokens(v@),
{
    let n = v.len();
    let mut done: Vec<Vec<char>> = Vec::new();
    let mut cur: Vec<char> = Vec::new();
    proof {
        assert(v@.take(0) == Seq::<char>::empty());
    }
    for i in 0..n
        invariant
            n == v@.len(),
            cur@.len() > 0 ==> i > 0 && !is_ws(v@[i - 1]),
            cur@.len() == 0 ==> (i == 0 || is_ws(v@[i - 1])),
            (if cur@.len() > 0 { seq_views(done@).push(cur@) } else { seq_views(done@) })
                == ws_tokens(v@.take(i as int)),
    {
        let c = v[i];
        let ghost pre = v@.take(i as int);
        proof {
            assert(v@.take(i + 1).drop_last() == pre);
            assert(v@.take(i + 1).last() == c);
        }
        if char_is_ws(c) {
            if cur.len() > 0 {
                let ghost before = seq_views(done@).push(cur@);
                let old_cur = cur;
                done.push(old_cur);
                cur = Vec::new();
                proof {
                    assert(seq_views(done@) =~= before);
                }
            }
        } else {
            if cur.len() > 0 {
                proof {
                    assert(v@.take(i + 1)[i - 1] == v@[i - 1]);
                }
                let ghost before = seq_views(done@).push(cur@);
                cur.push(c);
                proof {
                    assert(seq_views(done@).push(cur@) =~= before.update(
                        before.len() - 1,
                        before.last().push(c),
                    ));
                }
            } else {
                proof {
                    if i >= 1 {
                        assert(v@.take(i + 1)[i - 1] == v@[i - 1]);
                    }
                }
                cur.push(c);
                proof {
                    assert(cur@ == seq![c]);
                }
            }
        }
    }
    proof {
        assert(v@.take(n as int) == v@);
    }
    if cur.len() > 0 {
        let ghost before = seq_views(done@).push(cur@);
        done.push(cur);
        proof {
            assert(seq_views(done@) =~= before);
        }
    }
    done
}

/// `parts.join(sep)`.
pub open spec fn join_spec(parts: Seq<Seq<char>>, sep: Seq<char>) -> Seq<char>
    decreases parts.len(),
{
    if parts.len() == 0 {
        Seq::<char>::empty()
    } else if parts.len() == 1 {
        parts[0]
    } else {
        join_spec(parts.drop_last(), sep) + sep + parts.last()
    }
}

/// `p` occurs in `s` starting at position `i`.
pub open spec fn occurs_at(s: Seq<char>, p: Seq<char>, i: int) -> bool {
    0 <= i && i + p.len() <= s.len() && s.subrange(i, i + p.len()) == p
}

/// `str::contains` for a string pattern.
pub open spec fn contains_spec(s: Seq<char>, p: Seq<char>) -> bool {
    exists|i: int| occurs_at(s, p, i)
}

/// `str::starts_with` for a string pattern.
pub open spec fn starts_with_spec(s: Seq<char>, p: Seq<char>) -> bool {
    p.len() <= s.len() && s.take(p.len() as int) == p
}

/// `str::ends_with` for a string pattern.
pub open spec fn ends_with_spec(s: Seq<char>, p: Seq<char>) -> bool {
    p.len() <= s.len() && s.skip(s.len() - p.len()) == p
}

fn matches_at(s: &[char], p: &[char], i: usize) -> (r: bool)
    requires
        i + p.len() <= s.len(),
    ensures
        r == occurs_at(s@, p@, i as int),
{
    let m = p.len();
    let mut k: usize = 0;
    while k < m
        invariant
            k <= m,
            m == p@.len(),
            i + m <= s.len(),
            forall|j: int| 0 <= j < k ==> s@[i + j] == p@[j],
        decreases m - k,
    {
        if s[i + k] != p[k] {
            proof {
                assert(s@.subrange(i as int, i + m)[k as int] != p@[k as int]);
            }
            return false;
        }
        k = k + 1;
    }
    proof {
        assert(s@.subrange(i as int, i + m) == p@);
    }
    true
}

/// Tests whether `p` occurs in `s`.
pub fn contains(s: &[char], p: &[char]) -> (r: bool)
    ensures
        r == contains_spec(s@, p@),
{
    let n = s.len();
    let m = p.len();
    if m > n {
        return false;
    }
    if m == 0 {
        proof {
            assert(s@.subrange(0, 0) =~= p@);
            assert(occurs_at(s@, p@, 0));
        }
        return true;
    }
    let mut i: usize = 0;
    while i <= n - m
        invariant
            0 < m <= n,
            n == s@.len(),
            m == p@.len(),
            forall|j: int| 0 <= j < i ==> !occurs_at(s@, p@, j),
        decreases n - m + 1 - i,
    {
        if matches_at(s, p, i) {
            return true;
        }
        i = i + 1;
    }
    false
}

/// Tests whether `s` starts with `p`.
pub fn starts_with(s: &[char], p: &[char]) -> (r: bool)
    ensures
        r == starts_with_spec(s@, p@),
{
    if p.len() > s.len() {
        return false;
    }
    let r = matches_at(s, p, 0);
    proof {
        assert(s@.subrange(0, p@.len() as int) == s@.take(p@.len() as int));
    }
    r
}

/// Tests whether `s` ends with `p`.
pub fn ends_with(s: &[char], p: &[char]) -> (r: bool)
    ensures
        r == ends_with_spec(s@, p@),
{
    if p.len() > s.len() {
        return false;
    }
    let r = matches_at(s, p, s.len() - p.len());
    proof {
        assert(s@.subrange(s@.len() - p@.len(), s@.len() as int) == s@.skip(s@.len() - p@.len()));
    }
    r
}

/// The characters of `v` from position `from` on.
pub fn suffix_from(v: &[char], from: usize) -> (res: Vec<char>)
    requires
        from <= v@.len(),
    ensures
        res@ == v@.skip(from as int),
{
    let n = v.len();
    let mut res: Vec<char> = Vec::new();
    let mut j = from;
    while j < n
        invariant
            from <= j <= n,
            n == v@.len(),
            res@ == v@.subrange(from as int, j as int),
        decreases n - j,
    {
        res.push(v[j]);
        proof {
            assert(v@.subrange(from as int, j + 1) == v@.subrange(from as int, j as int).push(
                v@[j as int],
            ));
        }
        j = j + 1;
    }
    res
}

/// `str::strip_prefix`.
pub open spec fn strip_prefix_spec(s: Seq<char>, p: Seq<char>) -> Option<Seq<char>> {
    if starts_with_spec(s, p) {
        Some(s.skip(p.len() as int))
    } else {
        None
    }
}

/// Removes the prefix `p` from `s` when `s` starts with it.
pub fn strip_prefix(s: &[char], p: &[char]) -> (res: Option<Vec<char>>)
    ensures
        res.is_some() == strip_prefix_spec(s@, p@).is_some(),
        res.is_some() ==> res.unwrap()@ == strip_prefix_spec(s@, p@).unwrap(),
{
    if starts_with(s, p) {
        Some(suffix_from(s, p.len()))
    } else {
        None
    }
}

/// ASCII lower-casing of one character (`char::to_ascii_lowercase`).
pub open spec fn ascii_lower(c: char) -> char {
    if 'A' <= c && c <= 'Z' {
        ((c as u32) + 32) as char
    } else {
        c
    }
}

/// `str::to_ascii_lowercase`.
pub open spec fn ascii_lower_seq(s: Seq<char>) -> Seq<char> {
    s.map_values(|c: char| ascii_lower(c))
}

/// Lower-casing twice is lower-casing once.
pub proof fn lemma_ascii_lower_idempotent(s: Seq<char>)
    ensures
        ascii_lower_seq(ascii_lower_seq(s)) == ascii_lower_seq(s),
{
    assert forall|i: int| 0 <= i < s.len() implies #[trigger] ascii_lower(ascii_lower(s[i]))
        == ascii_lower(s[i]) by {
        let c = s[i];
        if 'A' <= c && c <= 'Z' {
            let u = (c as u32) + 32;
            assert(97 <= u <= 122);
            assert((u as char) as u32 == u);
        }
    }
    assert(ascii_lower_seq(ascii_lower_seq(s)) =~= ascii_lower_seq(s));
}

/// `str::eq_ignore_ascii_case`.
pub open spec fn eq_ignore_ascii_case_spec(a: Seq<char>, b: Seq<char>) -> bool {
    ascii_lower_seq(a) == ascii_lower_seq(b)
}

pub fn char_ascii_lower(c: char) -> (r: char)
    ensures
        r == ascii_lower(c),
{
    if 'A' <= c && c <= 'Z' {
        let u = (c as u8) + 32;
        u as char
    } else {
        c
    }
}

/// Lower-cases the ASCII letters of `v`, leaving every other character alone.
pub fn to_ascii_lower(v: &[char]) -> (res: Vec<char>)
    ensures
        res@ == ascii_lower_seq(v@),
{
    let n = v.len();
    let mut res: Vec<char> = Vec::new();
    for i in 0..n
        invariant
            n == v@.len(),
            res@ == ascii_lower_seq(v@.take(i as int)),
    {
        res.push(char_ascii_lower(v[i]));
        proof {
            assert(ascii_lower_seq(v@.take(i + 1)) == ascii_lower_seq(v@.take(i as int)).push(
                ascii_lower(v@[i as int]),
            ));
        }
    }
    proof {
        assert(v@.take(n as int) == v@);
    }
    res
}

/// Compares two character sequences, ignoring ASCII case.
pub fn eq_ignore_ascii_case(a: &[char], b: &[char]) -> (r: bool)
    ensures
        r == eq_ignore_ascii_case_spec(a@, b@),
{
    if a.len() != b.len() {
        proof {
            assert(ascii_lower_seq(a@).len() != ascii_lower_seq(b@).len());
        }
        return false;
    }
    let n = a.len();
    let mut i: usize = 0;
    while i < n
        invariant
            i <= n,
            n == a@.len(),
            n == b@.len(),
            forall|j: int| 0 <= j < i ==> ascii_lower(a@[j]) == ascii_lower(b@[j]),
        decreases n - i,
    {
        if char_ascii_lower(a[i]) != char_ascii_lower(b[i]) {
            proof {
                assert(ascii_lower_seq(a@)[i as int] != ascii_lower_seq(b@)[i as int]);
            }
            return false;
        }
        i = i + 1;
    }
    proof {
        assert(ascii_lower_seq(a@) == ascii_lower_seq(b@));
    }
    true
}

/// Sequence equality of two character slices.
pub fn chars_eq(a: &[char], b: &[char]) -> (r: bool)
    ensures
        r == (a@ == b@),
{
    if a.len() != b.len() {
        return false;
    }
    let n = a.len();
    let mut i: usize = 0;
    while i < n
        invariant
            i <= n,
            n == a@.len(),
            n == b@.len(),
            forall|j: int| 0 <= j < i ==> a@[j] == b@[j],
        decreases n - i,
    {
        if a[i] != b[i] {
            return false;
        }
        i = i + 1;
    }
    proof {
        assert(a@ == b@);
    }
    true
}

/// Equality of the characters of two string slices.
pub fn str_eq(a: &str, b: &str) -> (r: bool)
    ensures
        r == (a@ == b@),
{
    let x = chars_of(a);
    let y = chars_of(b);
    chars_eq(x.as_slice(), y.as_slice())
}

} // verus!
