use vstd::prelude::*;
use crate::base::mutf8::string_push;

verus! {

// ---------------------------------------------------------------------------------------------
// Text as a sequence of chars
// ---------------------------------------------------------------------------------------------

/// The chars of `s`.
pub fn chars_of(s: &str) -> (res: Vec<char>)
    ensures
        res@ == s@,
{
    let mut res: Vec<char> = Vec::new();
    for c in it: s.chars()
        invariant
            it.seq() == s@,
            res@ == s@.take(it.index() as int),
    {
        proof {
            assert(s@.take(it.index() + 1) =~= s@.take(it.index() as int).push(c));
        }
        res.push(c);
    }
    assert(s@.take(s@.len() as int) =~= s@);
    res
}

/// A string holding `s`.
pub fn string_of(s: &[char]) -> (res: String)
    ensures
        res@ == s@,
{
    let mut res = String::new();
    let mut i: usize = 0;
    while i < s.len()
        invariant
            i <= s@.len(),
            res@ == s@.take(i as int),
        decreases s.len() - i,
    {
        string_push(&mut res, s[i]);
        assert(res@ =~= s@.take(i + 1));
        i += 1;
    }
    assert(s@.take(s@.len() as int) =~= s@);
    res
}

/// The chars of `s` from `a` to `b`.
pub fn slice_chars(s: &[char], a: usize, b: usize) -> (res: Vec<char>)
    requires
        a <= b <= s@.len(),
    ensures
        res@ == s@.subrange(a as int, b as int),
{
    let mut res: Vec<char> = Vec::new();
    let mut i: usize = a;
    while i < b
        invariant
            a <= i <= b <= s@.len(),
            res@ == s@.subrange(a as int, i as int),
        decreases b - i,
    {
        res.push(s[i]);
        assert(res@ =~= s@.subrange(a as int, i + 1));
        i += 1;
    }
    res
}

/// Whether `c` is white space as `char::is_whitespace` has it.
pub open spec fn is_ws(c: char) -> bool {
    let v = c as u32;
    ||| 0x09 <= v <= 0x0D
    ||| v == 0x20
    ||| v == 0x85
    ||| v == 0xA0
    ||| v == 0x1680
    ||| 0x2000 <= v <= 0x200A
    ||| v == 0x2028
    ||| v == 0x2029
    ||| v == 0x202F
    ||| v == 0x205F
    ||| v == 0x3000
}

pub fn is_whitespace(c: char) -> (res: bool)
    ensures
        res == is_ws(c),
{
    let v = c as u32;
    (0x09 <= v && v <= 0x0D) || v == 0x20 || v == 0x85 || v == 0xA0 || v == 0x1680 || (0x2000 <= v
        && v <= 0x200A) || v == 0x2028 || v == 0x2029 || v == 0x202F || v == 0x205F || v == 0x3000
}

/// The first index at or after `i` that is not white space, or the length.
pub open spec fn skip_ws(s: Seq<char>, i: int) -> int
    decreases s.len() - i,
{
    if i >= s.len() {
        s.len() as int
    } else if is_ws(s[i]) {
        skip_ws(s, i + 1)
    } else {
        i
    }
}

/// The first index at or after `i` that is white space, or the length.
pub open spec fn skip_non_ws(s: Seq<char>, i: int) -> int
    decreases s.len() - i,
{
    if i >= s.len() {
        s.len() as int
    } else if !is_ws(s[i]) {
        skip_non_ws(s, i + 1)
    } else {
        i
    }
}

/// The end of `s` up to `j` once trailing white space is dropped.
pub open spec fn trim_end_at(s: Seq<char>, j: int) -> int
    decreases j,
{
    if j <= 0 {
        0
    } else if is_ws(s[j - 1]) {
        trim_end_at(s, j - 1)
    } else {
        j
    }
}

/// `s` without leading and trailing white space, as `str::trim` gives it.
pub open spec fn trim(s: Seq<char>) -> Seq<char> {
    let a = skip_ws(s, 0);
    let b = trim_end_at(s, s.len() as int);
    if a < b {
        s.subrange(a, b)
    } else {
        Seq::empty()
    }
}

pub proof fn lemma_skip_ws_bounds(s: Seq<char>, i: int)
    requires
        0 <= i,
    ensures
        i <= skip_ws(s, i) || i > s.len(),
        skip_ws(s, i) <= s.len(),
        skip_ws(s, i) < s.len() ==> !is_ws(s[skip_ws(s, i)]),
    decreases s.len() - i,
{
    if i < s.len() && is_ws(s[i]) {
        lemma_skip_ws_bounds(s, i + 1);
    }
}

pub proof fn lemma_skip_non_ws_bounds(s: Seq<char>, i: int)
    requires
        0 <= i,
    ensures
        i <= skip_non_ws(s, i) || i > s.len(),
        i < s.len() && !is_ws(s[i]) ==> i < skip_non_ws(s, i),
        skip_non_ws(s, i) <= s.len(),
    decreases s.len() - i,
{
    if i < s.len() && !is_ws(s[i]) {
        lemma_skip_non_ws_bounds(s, i + 1);
    }
}

pub proof fn lemma_trim_end_bounds(s: Seq<char>, j: int)
    requires
        j <= s.len(),
    ensures
        0 <= trim_end_at(s, j) <= if j < 0 {
            0
        } else {
            j
        },
    decreases j,
{
    if j > 0 && is_ws(s[j - 1]) {
        lemma_trim_end_bounds(s, j - 1);
    }
}

fn skip_ws_exec(s: &[char], i: usize) -> (res: usize)
    requires
        i <= s@.len(),
    ensures
        res == skip_ws(s@, i as int),
{
    let mut k = i;
    while k < s.len() && is_whitespace(s[k])
        invariant
            i <= k <= s@.len(),
            skip_ws(s@, k as int) == skip_ws(s@, i as int),
        decreases s.len() - k,
    {
        k += 1;
    }
    k
}

fn skip_non_ws_exec(s: &[char], i: usize) -> (res: usize)
    requires
        i <= s@.len(),
    ensures
        res == skip_non_ws(s@, i as int),
{
    let mut k = i;
    while k < s.len() && !is_whitespace(s[k])
        invariant
            i <= k <= s@.len(),
            skip_non_ws(s@, k as int) == skip_non_ws(s@, i as int),
        decreases s.len() - k,
    {
        k += 1;
    }
    k
}

pub fn trim_chars(s: &[char]) -> (res: Vec<char>)
    ensures
        res@ == trim(s@),
{
    let a = skip_ws_exec(s, 0);
    let mut b = s.len();
    while b > 0 && is_whitespace(s[b - 1])
        invariant
            b <= s@.len(),
            trim_end_at(s@, b as int) == trim_end_at(s@, s@.len() as int),
        decreases b,
    {
        b -= 1;
    }
    if a < b {
        slice_chars(s, a, b)
    } else {
        Vec::new()
    }
}

/// Whether `s` starts with `p`.
pub open spec fn has_prefix(s: Seq<char>, p: Seq<char>) -> bool {
    s.len() >= p.len() && s.subrange(0, p.len() as int) == p
}

/// The rest of `s` after the prefix `p`, if `s` starts with it.
pub open spec fn strip_prefix(s: Seq<char>, p: Seq<char>) -> Option<Seq<char>> {
    if has_prefix(s, p) {
        Some(s.subrange(p.len() as int, s.len() as int))
    } else {
        None
    }
}

/// Whether `s` starts with the text `p`.
pub fn starts_with(s: &[char], p: &str) -> (res: bool)
    ensures
        res == has_prefix(s@, p@),
{
    let n = p.unicode_len();
    if n > s.len() {
        return false;
    }
    let mut k: usize = 0;
    while k < n
        invariant
            n == p@.len(),
            n <= s@.len(),
            k <= n,
            forall|j: int| 0 <= j < k ==> s@[j] == p@[j],
        decreases n - k,
    {
        if s[k] != p.get_char(k) {
            assert(s@.subrange(0, n as int)[k as int] != p@[k as int]);
            return false;
        }
        k += 1;
    }
    assert(s@.subrange(0, n as int) =~= p@);
    true
}

/// The rest of `s` after the text `p`, if `s` starts with it.
pub fn strip_prefix_chars(s: &[char], p: &str) -> (res: Option<Vec<char>>)
    ensures
        match strip_prefix(s@, p@) {
            Some(r) => res matches Some(v) && v@ == r,
            None => res is None,
        },
{
    if starts_with(s, p) {
        Some(slice_chars(s, p.unicode_len(), s.len()))
    } else {
        None
    }
}

/// Whether `s` is the text `p`.
pub fn equals(s: &[char], p: &str) -> (res: bool)
    ensures
        res == (s@ == p@),
{
    if s.len() != p.unicode_len() {
        return false;
    }
    let r = starts_with(s, p);
    assert(s@.subrange(0, s@.len() as int) =~= s@);
    r
}

/// Whether `s` starts with `c`.
pub open spec fn starts_with_char(s: Seq<char>, c: char) -> bool {
    s.len() > 0 && s[0] == c
}

/// Whether `s` ends with `c`.
pub open spec fn ends_with_char(s: Seq<char>, c: char) -> bool {
    s.len() > 0 && s[s.len() - 1] == c
}

/// The index of the first `c` at or after `i`.
pub open spec fn find_from(s: Seq<char>, c: char, i: int) -> Option<int>
    decreases s.len() - i,
{
    if i < 0 || i >= s.len() {
        None
    } else if s[i] == c {
        Some(i)
    } else {
        find_from(s, c, i + 1)
    }
}

/// The index of the first `c` in `s`.
pub open spec fn find(s: Seq<char>, c: char) -> Option<int> {
    find_from(s, c, 0)
}

pub proof fn lemma_find_from_bounds(s: Seq<char>, c: char, i: int)
    requires
        0 <= i,
    ensures
        find_from(s, c, i) matches Some(k) ==> i <= k < s.len() && s[k] == c,
        find_from(s, c, i) is None ==> forall|k: int| i <= k < s.len() ==> s[k] != c,
    decreases s.len() - i,
{
    if 0 <= i < s.len() && s[i] != c {
        lemma_find_from_bounds(s, c, i + 1);
    }
}

pub fn find_char(s: &[char], c: char) -> (res: Option<usize>)
    ensures
        res matches Some(k) ==> find(s@, c) == Some(k as int) && k < s.len() && s@[k as int] == c,
        res is None ==> find(s@, c) is None,
{
    let mut k: usize = 0;
    while k < s.len()
        invariant
            k <= s@.len(),
            find_from(s@, c, k as int) == find(s@, c),
        decreases s.len() - k,
    {
        if s[k] == c {
            return Some(k);
        }
        k += 1;
    }
    None
}

/// The index of the last `c` in `s` before `j`.
pub open spec fn rfind_before(s: Seq<char>, c: char, j: int) -> Option<int>
    decreases j,
{
    if j <= 0 || j > s.len() {
        None
    } else if s[j - 1] == c {
        Some(j - 1)
    } else {
        rfind_before(s, c, j - 1)
    }
}

pub fn rfind_char(s: &[char], c: char) -> (res: Option<usize>)
    ensures
        res matches Some(k) ==> rfind_before(s@, c, s@.len() as int) == Some(k as int) && k
            < s.len(),
        res is None ==> rfind_before(s@, c, s@.len() as int) is None,
{
    let mut j: usize = s.len();
    while j > 0
        invariant
            j <= s@.len(),
            rfind_before(s@, c, j as int) == rfind_before(s@, c, s@.len() as int),
        decreases j,
    {
        if s[j - 1] == c {
            return Some(j - 1);
        }
        j -= 1;
    }
    None
}

/// The index of the first occurrence of `p` in `s` at or after `i`.
pub open spec fn find_text_from(s: Seq<char>, p: Seq<char>, i: int) -> Option<int>
    decreases s.len() + 1 - i,
{
    if i < 0 || i + p.len() > s.len() {
        None
    } else if s.subrange(i, i + p.len()) == p {
        Some(i)
    } else {
        find_text_from(s, p, i + 1)
    }
}

pub proof fn lemma_find_text_bounds(s: Seq<char>, p: Seq<char>, i: int)
    ensures
        find_text_from(s, p, i) matches Some(k) ==> i <= k && k + p.len() <= s.len(),
    decreases s.len() + 1 - i,
{
    if !(i < 0 || i + p.len() > s.len()) && s.subrange(i, i + p.len()) != p {
        lemma_find_text_bounds(s, p, i + 1);
    }
}

/// The index of the first occurrence of the text `p` in `s`.
pub fn find_text(s: &[char], p: &str) -> (res: Option<usize>)
    ensures
        res matches Some(k) ==> find_text_from(s@, p@, 0) == Some(k as int) && k + p@.len()
            <= s.len(),
        res is None ==> find_text_from(s@, p@, 0) is None,
{
    let n = p.unicode_len();
    if n == 0 {
        assert(s@.subrange(0, 0) =~= p@);
        return Some(0);
    }
    let mut k: usize = 0;
    while k <= s.len() && n <= s.len() - k
        invariant
            n == p@.len(),
            n > 0,
            k <= s@.len() + 1,
            find_text_from(s@, p@, k as int) == find_text_from(s@, p@, 0),
        decreases s.len() + 1 - k,
    {
        let tail = slice_chars(s, k, s.len());
        if starts_with(tail.as_slice(), p) {
            assert(tail@.subrange(0, n as int) =~= s@.subrange(k as int, k + n));
            return Some(k);
        }
        assert(tail@.subrange(0, n as int) =~= s@.subrange(k as int, k + n));
        k += 1;
    }
    None
}

/// The pieces of `s` between occurrences of `c`, from index `i`, as `str::split` gives them.
pub open spec fn split_from(s: Seq<char>, c: char, i: int) -> Seq<Seq<char>>
    decreases s.len() - i,
{
    if i < 0 {
        Seq::empty()
    } else {
    match find_from(s, c, i) {
        None => seq![s.subrange(i, s.len() as int)],
        Some(k) => {
            proof {
                lemma_find_from_bounds(s, c, i);
            }
            seq![s.subrange(i, k)] + split_from(s, c, k + 1)
        },
    }
    }
}

/// The pieces of `s` between white space, as `str::split_whitespace` gives them, from index `i`.
pub open spec fn tokens_from(s: Seq<char>, i: int) -> Seq<Seq<char>>
    decreases s.len() - i,
{
    if i < 0 {
        Seq::empty()
    } else {
        let a = skip_ws(s, i);
        if a >= s.len() {
            Seq::empty()
        } else {
            let b = skip_non_ws(s, a);
            proof {
                lemma_skip_ws_bounds(s, i);
                lemma_skip_non_ws_bounds(s, a);
            }
            if b <= i {
                Seq::empty()
            } else {
                seq![s.subrange(a, b)] + tokens_from(s, b)
            }
        }
    }
}

/// The words of `s`.
pub open spec fn tokens(s: Seq<char>) -> Seq<Seq<char>> {
    tokens_from(s, 0)
}

pub fn tokens_of(s: &[char]) -> (res: Vec<Vec<char>>)
    ensures
        res@.map_values(|t: Vec<char>| t@) == tokens(s@),
{
    let mut res: Vec<Vec<char>> = Vec::new();
    let mut i: usize = 0;
    while i < s.len()
        invariant
            i <= s@.len(),
            tokens(s@) == res@.map_values(|t: Vec<char>| t@) + tokens_from(s@, i as int),
        decreases s.len() - i,
    {
        let a = skip_ws_exec(s, i);
        proof {
            lemma_skip_ws_bounds(s@, i as int);
        }
        if a >= s.len() {
            assert(tokens_from(s@, i as int) =~= Seq::<Seq<char>>::empty());
            i = s.len();
            assert(tokens_from(s@, i as int) =~= Seq::<Seq<char>>::empty());
        } else {
            let b = skip_non_ws_exec(s, a);
            proof {
                lemma_skip_non_ws_bounds(s@, a as int);
            }
            let t = slice_chars(s, a, b);
            let ghost before = res@;
            res.push(t);
            proof {
                assert(res@.map_values(|t: Vec<char>| t@) =~= before.map_values(|t: Vec<char>| t@).push(
                    s@.subrange(a as int, b as int),
                ));
                assert(tokens_from(s@, i as int) == seq![s@.subrange(a as int, b as int)] + tokens_from(s@, b as int));
                assert(res@.map_values(|t: Vec<char>| t@) + tokens_from(s@, b as int) =~= before.map_values(|t: Vec<char>| t@) + tokens_from(s@, i as int));
            }
            i = b;
        }
    }
    assert(tokens_from(s@, i as int) =~= Seq::<Seq<char>>::empty());
    res
}

/// The index of the first `c` in `s` at or after `i`.
pub fn find_char_from(s: &[char], c: char, i: usize) -> (res: Option<usize>)
    requires
        i <= s@.len(),
    ensures
        res matches Some(k) ==> find_from(s@, c, i as int) == Some(k as int),
        res is None ==> find_from(s@, c, i as int) is None,
{
    let mut k: usize = i;
    while k < s.len()
        invariant
            i <= k <= s@.len(),
            find_from(s@, c, k as int) == find_from(s@, c, i as int),
        decreases s.len() - k,
    {
        if s[k] == c {
            return Some(k);
        }
        k += 1;
    }
    None
}

/// The pieces of `s` between occurrences of `c`, as `str::split` gives them.
pub fn split_chars(s: &[char], c: char) -> (res: Vec<Vec<char>>)
    ensures
        res@.map_values(|t: Vec<char>| t@) == split_from(s@, c, 0),
{
    let mut res: Vec<Vec<char>> = Vec::new();
    let mut i: usize = 0;
    loop
        invariant
            i <= s@.len(),
            split_from(s@, c, 0) == res@.map_values(|t: Vec<char>| t@) + split_from(s@, c, i as int),
        decreases s@.len() - i,
    {
        let ghost before = res@;
        match find_char_from(s, c, i) {
            Some(k) => {
                proof {
                    lemma_find_from_bounds(s@, c, i as int);
                }
                assert(k < s.len());
                let piece = slice_chars(s, i, k);
                res.push(piece);
                proof {
                    assert(res@.map_values(|t: Vec<char>| t@) =~= before.map_values(|t: Vec<char>| t@).push(
                        s@.subrange(i as int, k as int),
                    ));
                    assert(res@.map_values(|t: Vec<char>| t@) + split_from(s@, c, k + 1) =~= before.map_values(
                        |t: Vec<char>| t@,
                    ) + split_from(s@, c, i as int));
                }
                i = k + 1;
            },
            None => {
                let piece = slice_chars(s, i, s.len());
                res.push(piece);
                proof {
                    assert(res@.map_values(|t: Vec<char>| t@) =~= before.map_values(|t: Vec<char>| t@).push(
                        s@.subrange(i as int, s@.len() as int),
                    ));
                }
                return res;
            },
        }
    }
}

/// A line without the `\r` of a `\r\n` ending.
pub open spec fn strip_cr(p: Seq<char>) -> Seq<char> {
    if ends_with_char(p, '\r') {
        p.drop_last()
    } else {
        p
    }
}

/// The lines of `t`, as `str::lines` gives them: split at `\n`, without the `\r` of a `\r\n`
/// ending, and without an empty piece after a final `\n`.
pub open spec fn text_lines(t: Seq<char>) -> Seq<Seq<char>> {
    let ps = split_from(t, '\n', 0);
    let n = ps.len() as int;
    ps.take(n - 1).map_values(|p: Seq<char>| strip_cr(p)) + if ps[n - 1].len() > 0 {
        seq![ps[n - 1]]
    } else {
        Seq::<Seq<char>>::empty()
    }
}

pub proof fn lemma_split_nonempty(s: Seq<char>, c: char, i: int)
    requires
        0 <= i,
    ensures
        split_from(s, c, i).len() >= 1,
    decreases s.len() - i,
{
    lemma_find_from_bounds(s, c, i);
    if let Some(k) = find_from(s, c, i) {
        lemma_split_nonempty(s, c, k + 1);
    }
}

/// The lines of `t`.
pub fn lines_of(t: &[char]) -> (res: Vec<Vec<char>>)
    ensures
        res@.map_values(|l: Vec<char>| l@) == text_lines(t@),
{
    let pieces = split_chars(t, '\n');
    let ghost ps = split_from(t@, '\n', 0);
    proof {
        lemma_split_nonempty(t@, '\n', 0);
    }
    let n = pieces.len();
    assert(pieces@[n - 1]@ == ps[n - 1]);
    let mut res: Vec<Vec<char>> = Vec::new();
    let mut i: usize = 0;
    while i + 1 < n
        invariant
            n == pieces@.len() == ps.len(),
            n >= 1,
            i <= n - 1,
            pieces@.map_values(|t: Vec<char>| t@) == ps,
            res@.map_values(|l: Vec<char>| l@) == ps.take(i as int).map_values(|p: Seq<char>| strip_cr(p)),
        decreases n - i,
    {
        let p = &pieces[i];
        assert(p@ == ps[i as int]);
        let line = if p.len() > 0 && p[p.len() - 1] == '\r' {
            slice_chars(p.as_slice(), 0, p.len() - 1)
        } else {
            slice_chars(p.as_slice(), 0, p.len())
        };
        let ghost before = res@;
        res.push(line);
        proof {
            assert(p@.subrange(0, p@.len() as int) =~= p@);
            assert(p@.len() > 0 ==> p@.subrange(0, p@.len() - 1) =~= p@.drop_last());
            assert(line@ == strip_cr(ps[i as int]));
            assert(ps.take(i + 1).map_values(|p: Seq<char>| strip_cr(p)) =~= ps.take(i as int).map_values(
                |p: Seq<char>| strip_cr(p),
            ).push(strip_cr(ps[i as int])));
            assert(res@.map_values(|l: Vec<char>| l@) =~= before.map_values(|l: Vec<char>| l@).push(line@));
        }
        i += 1;
    }
    let last = &pieces[n - 1];
    if last.len() > 0 {
        let copy = slice_chars(last.as_slice(), 0, last.len());
        let ghost before = res@;
        res.push(copy);
        proof {
            assert(last@.subrange(0, last@.len() as int) =~= last@);
            assert(res@.map_values(|l: Vec<char>| l@) =~= before.map_values(|l: Vec<char>| l@).push(ps[n - 1]));
        }
    }
    assert(res@.map_values(|l: Vec<char>| l@) =~= text_lines(t@));
    res
}

/// The words of `ts` joined by single spaces.
pub open spec fn join_space(ts: Seq<Seq<char>>) -> Seq<char>
    decreases ts.len(),
{
    if ts.len() == 0 {
        Seq::empty()
    } else if ts.len() == 1 {
        ts[0]
    } else {
        join_space(ts.drop_last()) + seq![' '] + ts.last()
    }
}

pub fn join_with_spaces(ts: &[Vec<char>]) -> (res: Vec<char>)
    ensures
        res@ == join_space(ts@.map_values(|t: Vec<char>| t@)),
{
    let ghost v = ts@.map_values(|t: Vec<char>| t@);
    if ts.len() == 0 {
        return Vec::new();
    }
    let mut res = slice_chars(ts[0].as_slice(), 0, ts[0].len());
    assert(ts@[0]@.subrange(0, ts@[0]@.len() as int) =~= ts@[0]@);
    assert(v.take(1).drop_last() =~= Seq::<Seq<char>>::empty());
    let mut i: usize = 1;
    while i < ts.len()
        invariant
            1 <= i <= ts@.len(),
            v == ts@.map_values(|t: Vec<char>| t@),
            res@ == join_space(v.take(i as int)),
        decreases ts.len() - i,
    {
        let ghost before = res@;
        res.push(' ');
        let w = &ts[i];
        let mut k: usize = 0;
        while k < w.len()
            invariant
                k <= w@.len(),
                res@ == before + seq![' '] + w@.take(k as int),
            decreases w.len() - k,
        {
            res.push(w[k]);
            assert(w@.take(k + 1) =~= w@.take(k as int).push(w@[k as int]));
            assert(res@ =~= before + seq![' '] + w@.take(k + 1));
            k += 1;
        }
        proof {
            assert(w@.take(w@.len() as int) =~= w@);
            assert(v.take(i + 1).drop_last() =~= v.take(i as int));
            assert(v.take(i + 1).last() == w@);
        }
        i += 1;
    }
    assert(v.take(ts@.len() as int) =~= v);
    res
}

/// `s` without leading and trailing `c`, as `str::trim_matches` gives it for one char.
pub open spec fn trim_char(s: Seq<char>, c: char) -> Seq<char> {
    let a = skip_char(s, c, 0);
    let b = trim_char_end(s, c, s.len() as int);
    if a < b {
        s.subrange(a, b)
    } else {
        Seq::empty()
    }
}

/// The first index at or after `i` that does not hold `c`.
pub open spec fn skip_char(s: Seq<char>, c: char, i: int) -> int
    decreases s.len() - i,
{
    if i >= s.len() {
        s.len() as int
    } else if s[i] == c {
        skip_char(s, c, i + 1)
    } else {
        i
    }
}

pub proof fn lemma_skip_char_bounds(s: Seq<char>, c: char, i: int)
    requires
        0 <= i <= s.len(),
    ensures
        i <= skip_char(s, c, i) <= s.len(),
        skip_char(s, c, i) < s.len() ==> s[skip_char(s, c, i)] != c,
    decreases s.len() - i,
{
    if i < s.len() && s[i] == c {
        lemma_skip_char_bounds(s, c, i + 1);
    }
}

/// The end of `s` up to `j` once trailing `c` are dropped.
pub open spec fn trim_char_end(s: Seq<char>, c: char, j: int) -> int
    decreases j,
{
    if j <= 0 {
        0
    } else if s[j - 1] == c {
        trim_char_end(s, c, j - 1)
    } else {
        j
    }
}

pub fn trim_char_chars(s: &[char], c: char) -> (res: Vec<char>)
    ensures
        res@ == trim_char(s@, c),
{
    let mut a: usize = 0;
    while a < s.len() && s[a] == c
        invariant
            a <= s@.len(),
            skip_char(s@, c, a as int) == skip_char(s@, c, 0),
        decreases s.len() - a,
    {
        a += 1;
    }
    let mut b = s.len();
    while b > 0 && s[b - 1] == c
        invariant
            b <= s@.len(),
            trim_char_end(s@, c, b as int) == trim_char_end(s@, c, s@.len() as int),
        decreases b,
    {
        b -= 1;
    }
    if a < b {
        slice_chars(s, a, b)
    } else {
        Vec::new()
    }
}

// ---------------------------------------------------------------------------------------------
// Integers
// ---------------------------------------------------------------------------------------------

/// The value of the digit `c`: decimal, or hexadecimal in either case where `hex`.
pub open spec fn digit_value(c: char, hex: bool) -> Option<int> {
    let v = c as u32;
    if 48 <= v <= 57 {
        Some(v - 48)
    } else if hex && 97 <= v <= 102 {
        Some(v - 87)
    } else if hex && 65 <= v <= 70 {
        Some(v - 55)
    } else {
        None
    }
}

/// The value of the digits `s`, or `None` where one is not a digit.
pub open spec fn digits_value(s: Seq<char>, hex: bool) -> Option<int>
    decreases s.len(),
{
    if s.len() == 0 {
        Some(0)
    } else {
        match digits_value(s.drop_last(), hex) {
            None => None,
            Some(v) => match digit_value(s.last(), hex) {
                None => None,
                Some(d) => Some(
                    if hex {
                        v * 16 + d
                    } else {
                        v * 10 + d
                    },
                ),
            },
        }
    }
}

/// The integer that `s` spells for a type whose values run from `min` to `max`, as Rust's
/// integer parsing has it: an optional `+` (or `-` where the type is signed), then at least one
/// digit, and a value in range; `None` otherwise.
pub open spec fn parse_int(s: Seq<char>, hex: bool, min: int, max: int) -> Option<int> {
    if s.len() == 0 {
        None
    } else {
        let negative = s[0] == '-' && min < 0;
        let body = if s[0] == '+' || negative {
            s.drop_first()
        } else {
            s
        };
        if body.len() == 0 {
            None
        } else {
            match digits_value(body, hex) {
                None => None,
                Some(v) => {
                    let x = if negative {
                        -v
                    } else {
                        v
                    };
                    if min <= x <= max {
                        Some(x)
                    } else {
                        None
                    }
                },
            }
        }
    }
}

pub proof fn lemma_digits_prefix(s: Seq<char>, i: int, hex: bool)
    requires
        0 <= i <= s.len(),
        digits_value(s, hex) is Some,
    ensures
        digits_value(s.take(i), hex) is Some,
        0 <= digits_value(s.take(i), hex).unwrap() <= digits_value(s, hex).unwrap(),
    decreases s.len(),
{
    if s.len() > 0 {
        if i == s.len() {
            assert(s.take(i) =~= s);
            lemma_digits_prefix(s.drop_last(), i - 1, hex);
        } else {
            lemma_digits_prefix(s.drop_last(), i, hex);
            assert(s.drop_last().take(i) =~= s.take(i));
            lemma_digits_prefix(s.drop_last(), s.len() - 1, hex);
            assert(s.drop_last().take(s.len() - 1) =~= s.drop_last());
        }
    } else {
        assert(s.take(i) =~= s);
    }
}

/// The digits of `s` after its sign.
pub open spec fn int_body(s: Seq<char>, min: int) -> Seq<char> {
    if s[0] == '+' || (s[0] == '-' && min < 0) {
        s.drop_first()
    } else {
        s
    }
}

/// One more digit: the value of the longer prefix.
proof fn lemma_digits_step(body: Seq<char>, k: int, hex: bool)
    requires
        0 <= k < body.len(),
    ensures
        digits_value(body.take(k + 1), hex) == match digits_value(body.take(k), hex) {
            None => None,
            Some(v) => match digit_value(body[k], hex) {
                None => None,
                Some(d) => Some(
                    if hex {
                        v * 16 + d
                    } else {
                        v * 10 + d
                    },
                ),
            },
        },
{
    assert(body.take(k + 1).drop_last() =~= body.take(k));
    assert(body.take(k + 1).last() == body[k]);
}

/// A prefix of the digits that is not a number, or already too large, rules the whole out.
proof fn lemma_bad_prefix(s: Seq<char>, hex: bool, min: int, max: int, body: Seq<char>, k: int)
    requires
        s.len() > 0,
        min <= 0 <= max,
        body == int_body(s, min),
        body.len() > 0,
        0 <= k <= body.len(),
        digits_value(body.take(k), hex) is None || digits_value(body.take(k), hex).unwrap() > max
            && digits_value(body.take(k), hex).unwrap() > -min,
    ensures
        parse_int(s, hex, min, max) is None,
{
    if digits_value(body, hex) is Some {
        lemma_digits_prefix(body, k, hex);
    }
}

fn digit_of(c: char, hex: bool) -> (res: Option<i128>)
    ensures
        match digit_value(c, hex) {
            Some(d) => res == Some(d as i128),
            None => res is None,
        },
{
    let v = c as u32;
    if 48 <= v && v <= 57 {
        Some((v - 48) as i128)
    } else if hex && 97 <= v && v <= 102 {
        Some((v - 87) as i128)
    } else if hex && 65 <= v && v <= 70 {
        Some((v - 55) as i128)
    } else {
        None
    }
}

/// The integer that `s` spells for a type whose values run from `min` to `max`.
#[verifier::spinoff_prover]
#[verifier::rlimit(40)]
pub fn parse_int_chars(s: &[char], hex: bool, min: i128, max: i128) -> (res: Option<i128>)
    requires
        -0x1_0000_0000_0000_0000 <= min <= 0 <= max <= 0x1_0000_0000_0000_0000,
    ensures
        res matches Some(x) ==> parse_int(s@, hex, min as int, max as int) == Some(x as int),
        res is None ==> parse_int(s@, hex, min as int, max as int) is None,
{
    if s.len() == 0 {
        return None;
    }
    let negative = s[0] == '-' && min < 0;
    let start: usize = if s[0] == '+' || negative {
        1
    } else {
        0
    };
    if start >= s.len() {
        return None;
    }
    let ghost body = s@.subrange(start as int, s@.len() as int);
    assert(body =~= int_body(s@, min as int));
    let limit: i128 = if -min > max {
        -min
    } else {
        max
    };
    let mut acc: i128 = 0;
    let mut i: usize = start;
    while i < s.len()
        invariant
            start <= i <= s@.len(),
            body == s@.subrange(start as int, s@.len() as int),
            body == int_body(s@, min as int),
            negative == (s@[0] == '-' && min < 0),
            -0x1_0000_0000_0000_0000 <= min <= 0 <= max <= 0x1_0000_0000_0000_0000,
            start < s@.len(),
            limit >= max,
            limit >= -min,
            0 <= acc <= limit,
            limit <= 0x1_0000_0000_0000_0000,
            digits_value(body.take(i - start), hex) == Some(acc as int),
        decreases s.len() - i,
    {
        proof {
            lemma_digits_step(body, i - start, hex);
            assert(body[i - start] == s@[i as int]);
        }
        let d = match digit_of(s[i], hex) {
            Some(d) => d,
            None => {
                proof {
                    lemma_bad_prefix(s@, hex, min as int, max as int, body, i - start + 1);
                }
                return None;
            },
        };
        acc = if hex {
            acc * 16 + d
        } else {
            acc * 10 + d
        };
        if acc > limit {
            proof {
                lemma_bad_prefix(s@, hex, min as int, max as int, body, i - start + 1);
            }
            return None;
        }
        i += 1;
    }
    assert(body.take(body.len() as int) =~= body);
    let x: i128 = if negative {
        -acc
    } else {
        acc
    };
    if min <= x && x <= max {
        Some(x)
    } else {
        None
    }
}

} // verus!
