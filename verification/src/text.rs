//! Character-level text utilities shared by the whole library.
//!
//! Strings are handled as sequences of `char`s: every public function that
//! takes a `&str` works on its view (`Seq<char>`), and every `String` that is
//! produced is described by its view.
use vstd::prelude::*;

verus! {

/// Appends one character to a `String` (`String::push`).
#[verifier::external_body]
pub(crate) fn string_push(s: &mut String, c: char)
    ensures
        final(s)@ == old(s)@.push(c),
{
    s.push(c);
}

/// The characters of a string slice, in order.
pub fn str_to_chars(s: &str) -> (res: Vec<char>)
    ensures
        res@ == s@,
{
    broadcast use vstd::string::group_string_axioms;
    let mut res: Vec<char> = Vec::new();
    for c in it: s.chars()
        invariant
            it.seq() == s@,
            res@ == it.seq().take(it.index() as int),
    {
        res.push(c);
    }
    res
}

/// A `String` holding the characters of `s[start..end]`.
pub fn chars_to_string(s: &Vec<char>, start: usize, end: usize) -> (res: String)
    requires
        start <= end <= s.len(),
    ensures
        res@ == s@.subrange(start as int, end as int),
{
    let mut res = String::new();
    let mut i = start;
    while i < end
        invariant
            start <= i <= end <= s.len(),
            res@ == s@.subrange(start as int, i as int),
        decreases end - i,
    {
        string_push(&mut res, s[i]);
        i = i + 1;
    }
    res
}

} // verus!

verus! {

// ---------------------------------------------------------------------------
// White space and trimming
// ---------------------------------------------------------------------------

/// The Unicode `White_Space` property, which `char::is_whitespace` tests.
pub open spec fn is_white_space(c: char) -> bool {
    let u = c as u32;
    ||| 0x09 <= u <= 0x0d
    ||| u == 0x20
    ||| u == 0x85
    ||| u == 0xa0
    ||| u == 0x1680
    ||| 0x2000 <= u <= 0x200a
    ||| u == 0x2028
    ||| u == 0x2029
    ||| u == 0x202f
    ||| u == 0x205f
    ||| u == 0x3000
}

/// Whether `c` is white space (`char::is_whitespace`).
pub fn char_is_white_space(c: char) -> (r: bool)
    ensures
        r == is_white_space(c),
{
    let u = c as u32;
    (0x09 <= u && u <= 0x0d) || u == 0x20 || u == 0x85 || u == 0xa0 || u == 0x1680 || (0x2000
        <= u && u <= 0x200a) || u == 0x2028 || u == 0x2029 || u == 0x202f || u == 0x205f || u
        == 0x3000
}

/// First index at or after `i` that does not hold white space.
pub open spec fn skip_white_from(s: Seq<char>, i: int) -> int
    decreases s.len() - i,
{
    if 0 <= i < s.len() && is_white_space(s[i]) {
        skip_white_from(s, i + 1)
    } else {
        i
    }
}

/// End of `s[..j]` once its trailing white space is removed.
pub open spec fn skip_white_back(s: Seq<char>, j: int) -> int
    decreases j,
{
    if 0 < j <= s.len() && is_white_space(s[j - 1]) {
        skip_white_back(s, j - 1)
    } else {
        j
    }
}

/// `str::trim_start`.
pub open spec fn trim_start(s: Seq<char>) -> Seq<char> {
    s.subrange(skip_white_from(s, 0), s.len() as int)
}

/// `str::trim_end`.
pub open spec fn trim_end(s: Seq<char>) -> Seq<char> {
    s.subrange(0, skip_white_back(s, s.len() as int))
}

/// `str::trim`: leading, then trailing white space removed.
pub open spec fn trim(s: Seq<char>) -> Seq<char> {
    trim_end(trim_start(s))
}

proof fn lemma_skip_white_from_bounds(s: Seq<char>, i: int)
    requires
        0 <= i <= s.len(),
    ensures
        i <= skip_white_from(s, i) <= s.len(),
        skip_white_from(s, i) < s.len() ==> !is_white_space(s[skip_white_from(s, i)]),
    decreases s.len() - i,
{
    if 0 <= i < s.len() && is_white_space(s[i]) {
        lemma_skip_white_from_bounds(s, i + 1);
    }
}

proof fn lemma_skip_white_back_bounds(s: Seq<char>, j: int)
    requires
        0 <= j <= s.len(),
    ensures
        0 <= skip_white_back(s, j) <= j,
    decreases j,
{
    if 0 < j <= s.len() && is_white_space(s[j - 1]) {
        lemma_skip_white_back_bounds(s, j - 1);
    }
}

proof fn lemma_skip_white_back_stops(s: Seq<char>, j: int)
    requires
        0 <= j <= s.len(),
    ensures
        skip_white_back(s, j) > 0 ==> !is_white_space(s[skip_white_back(s, j) - 1]),
    decreases j,
{
    if 0 < j <= s.len() && is_white_space(s[j - 1]) {
        lemma_skip_white_back_stops(s, j - 1);
    }
}

/// Trimming a trimmed text changes nothing.
pub proof fn lemma_trim_idempotent(s: Seq<char>)
    ensures
        trim(trim(s)) == trim(s),
{
    let a = skip_white_from(s, 0);
    lemma_skip_white_from_bounds(s, 0);
    let u = trim_start(s);
    lemma_skip_white_back_bounds(u, u.len() as int);
    lemma_skip_white_back_stops(u, u.len() as int);
    let c = skip_white_back(u, u.len() as int);
    let t = trim(s);
    assert(t == u.subrange(0, c));
    if t.len() == 0 {
        assert(trim(t) =~= t);
    } else {
        assert(t[0] == s[a]);
        assert(!is_white_space(t[0]));
        assert(skip_white_from(t, 0) == 0);
        assert(trim_start(t) =~= t);
        assert(t[t.len() - 1] == u[c - 1]);
        assert(skip_white_back(t, t.len() as int) == t.len());
        assert(trim_end(t) =~= t);
    }
}

/// Bounds of the trimmed part of `s[lo..hi]`.
pub fn trim_range(s: &Vec<char>, lo: usize, hi: usize) -> (r: (usize, usize))
    requires
        lo <= hi <= s.len(),
    ensures
        lo <= r.0 <= r.1 <= hi,
        s@.subrange(r.0 as int, r.1 as int) == trim(s@.subrange(lo as int, hi as int)),
{
    let ghost t = s@.subrange(lo as int, hi as int);
    let mut i = lo;
    while i < hi && char_is_white_space(s[i])
        invariant
            lo <= i <= hi <= s.len(),
            t == s@.subrange(lo as int, hi as int),
            skip_white_from(t, (i - lo) as int) == skip_white_from(t, 0),
        decreases hi - i,
    {
        i = i + 1;
    }
    proof {
        lemma_skip_white_from_bounds(t, (i - lo) as int);
    }
    assert(skip_white_from(t, 0) == i - lo);
    let ghost u = trim_start(t);
    assert(u =~= s@.subrange(i as int, hi as int));
    let mut j = hi;
    while j > i && char_is_white_space(s[j - 1])
        invariant
            lo <= i <= j <= hi <= s.len(),
            u == s@.subrange(i as int, hi as int),
            skip_white_back(u, (j - i) as int) == skip_white_back(u, u.len() as int),
        decreases j,
    {
        j = j - 1;
    }
    proof {
        lemma_skip_white_back_bounds(u, (j - i) as int);
    }
    assert(skip_white_back(u, u.len() as int) == j - i);
    assert(trim(t) =~= s@.subrange(i as int, j as int));
    (i, j)
}

/// `str::trim` on a string slice, as an owned `String`.
pub fn trimmed(s: &str) -> (res: String)
    ensures
        res@ == trim(s@),
{
    let cs = str_to_chars(s);
    let (a, b) = trim_range(&cs, 0, cs.len());
    assert(cs@.subrange(0, cs.len() as int) =~= cs@);
    chars_to_string(&cs, a, b)
}

} // verus!

verus! {

// ---------------------------------------------------------------------------
// Searching for a pattern
// ---------------------------------------------------------------------------

/// `pat` occurs in `s` starting at index `i`.
pub open spec fn matches_at(s: Seq<char>, pat: Seq<char>, i: int) -> bool {
    0 <= i && i + pat.len() <= s.len() && s.subrange(i, i + pat.len()) == pat
}

/// `s` begins with `pat` (`str::starts_with`).
pub open spec fn has_prefix(s: Seq<char>, pat: Seq<char>) -> bool {
    matches_at(s, pat, 0)
}

/// First occurrence of `pat` in `s` at or after `i`.
pub open spec fn find_from(s: Seq<char>, pat: Seq<char>, i: nat) -> Option<nat>
    decreases s.len() + 1 - i,
{
    if i + pat.len() > s.len() {
        None
    } else if matches_at(s, pat, i as int) {
        Some(i)
    } else {
        find_from(s, pat, i + 1)
    }
}

/// First occurrence of `pat` in `s` (`str::find`, counted in characters).
pub open spec fn find(s: Seq<char>, pat: Seq<char>) -> Option<nat> {
    find_from(s, pat, 0)
}

/// Last occurrence of `pat` in `s` at or before `i`.
pub open spec fn rfind_upto(s: Seq<char>, pat: Seq<char>, i: int) -> Option<nat>
    decreases i + 1,
{
    if i < 0 {
        None
    } else if matches_at(s, pat, i) {
        Some(i as nat)
    } else {
        rfind_upto(s, pat, i - 1)
    }
}

/// Last occurrence of `pat` in `s` (`str::rfind`, counted in characters).
pub open spec fn rfind(s: Seq<char>, pat: Seq<char>) -> Option<nat> {
    rfind_upto(s, pat, s.len() - pat.len())
}

/// `pat` occurs somewhere in `s` (`str::contains`).
pub open spec fn contains(s: Seq<char>, pat: Seq<char>) -> bool {
    find(s, pat) is Some
}

/// `str::trim_start_matches` with a non-empty pattern: every leading copy
/// of `pat` removed.
pub open spec fn trim_start_matches(s: Seq<char>, pat: Seq<char>) -> Seq<char>
    decreases s.len(),
{
    if pat.len() > 0 && has_prefix(s, pat) {
        trim_start_matches(s.skip(pat.len() as int), pat)
    } else {
        s
    }
}

pub proof fn lemma_find_from_bounds(s: Seq<char>, pat: Seq<char>, i: nat)
    ensures
        find_from(s, pat, i) matches Some(k) ==> i <= k && matches_at(s, pat, k as int),
        find_from(s, pat, i) matches Some(k) ==> forall|m: int|
            i <= m < k ==> !#[trigger] matches_at(s, pat, m),
        find_from(s, pat, i) is None ==> forall|m: int|
            i <= m ==> !#[trigger] matches_at(s, pat, m),
    decreases s.len() + 1 - i,
{
    if i + pat.len() > s.len() {
    } else if matches_at(s, pat, i as int) {
    } else {
        lemma_find_from_bounds(s, pat, i + 1);
    }
}

pub proof fn lemma_rfind_upto_bounds(s: Seq<char>, pat: Seq<char>, i: int)
    ensures
        rfind_upto(s, pat, i) matches Some(k) ==> k <= i && matches_at(s, pat, k as int),
        rfind_upto(s, pat, i) matches Some(k) ==> forall|m: int|
            k < m <= i ==> !#[trigger] matches_at(s, pat, m),
    decreases i + 1,
{
    if i < 0 {
    } else if matches_at(s, pat, i) {
    } else {
        rfind_upto(s, pat, i - 1);
        lemma_rfind_upto_bounds(s, pat, i - 1);
    }
}

/// Whether `pat` occurs in `s` at index `i`.
pub fn occurs_at(s: &Vec<char>, pat: &Vec<char>, i: usize) -> (r: bool)
    ensures
        r == matches_at(s@, pat@, i as int),
{
    if pat.len() > s.len() || i > s.len() - pat.len() {
        return false;
    }
    let mut k: usize = 0;
    while k < pat.len()
        invariant
            i + pat.len() <= s.len(),
            k <= pat.len(),
            forall|m: int| 0 <= m < k ==> s@[i + m] == pat@[m],
        decreases pat.len() - k,
    {
        if s[i + k] != pat[k] {
            assert(s@.subrange(i as int, i + pat.len())[k as int] != pat@[k as int]);
            return false;
        }
        k = k + 1;
    }
    assert(s@.subrange(i as int, i + pat.len()) =~= pat@);
    true
}

/// First occurrence of `pat` in `s` at or after `start`.
pub fn find_index_from(s: &Vec<char>, pat: &Vec<char>, start: usize) -> (r: Option<usize>)
    ensures
        r matches Some(k) ==> Some(k as nat) == find_from(s@, pat@, start as nat),
        r is None ==> find_from(s@, pat@, start as nat) is None,
{
    if pat.len() > s.len() || start > s.len() - pat.len() {
        return None;
    }
    let lim = s.len() - pat.len();
    let mut i = start;
    loop
        invariant
            pat.len() <= s.len(),
            lim == s.len() - pat.len(),
            start <= i <= lim,
            find_from(s@, pat@, start as nat) == find_from(s@, pat@, i as nat),
        decreases lim - i,
    {
        if occurs_at(s, pat, i) {
            return Some(i);
        }
        if i == lim {
            assert(find_from(s@, pat@, (i + 1) as nat) is None);
            return None;
        }
        i = i + 1;
    }
}

/// `pat` occurs somewhere in `s` (`str::contains`).
pub fn text_contains(s: &str, pat: &str) -> (r: bool)
    ensures
        r == contains(s@, pat@),
{
    let sv = str_to_chars(s);
    let pv = str_to_chars(pat);
    find_index_from(&sv, &pv, 0).is_some()
}

// ---------------------------------------------------------------------------
// Lines
// ---------------------------------------------------------------------------

/// The index of the newline that ends the line starting at `i`, or the end
/// of `s` when no newline follows.
pub open spec fn line_end(s: Seq<char>, i: nat) -> nat {
    match find_from(s, seq!['\n'], i) {
        Some(j) => j,
        None => s.len(),
    }
}

/// Where the text of the line starting at `i` ends: before its `\r\n` or
/// `\n` line ending.
pub open spec fn line_content_end(s: Seq<char>, i: nat) -> nat {
    let j = line_end(s, i);
    if j < s.len() && j > i && s[j - 1] == '\r' {
        (j - 1) as nat
    } else {
        j
    }
}

/// The lines of `s[i..]` as `str::lines` gives them: split at `\n` or
/// `\r\n`, which are not part of the lines; a final line ending starts no
/// new line.
pub open spec fn lines_from(s: Seq<char>, i: nat) -> Seq<Seq<char>>
    decreases s.len() - i,
{
    if i >= s.len() {
        seq![]
    } else {
        proof {
            lemma_find_from_bounds(s, seq!['\n'], i);
            assert(line_end(s, i) >= i);
        }
        let j = line_end(s, i);
        let piece = s.subrange(i as int, line_content_end(s, i) as int);
        if j >= s.len() {
            seq![piece]
        } else {
            seq![piece] + lines_from(s, j + 1)
        }
    }
}

/// The lines of `s` (`str::lines`).
pub open spec fn text_lines(s: Seq<char>) -> Seq<Seq<char>> {
    lines_from(s, 0)
}

/// The line starting at `i`: where its text ends, and where its line ending
/// (or the text) ends.
pub fn line_bounds(s: &Vec<char>, i: usize) -> (r: (usize, usize))
    requires
        i < s.len(),
    ensures
        r.0 == line_content_end(s@, i as nat),
        r.1 == line_end(s@, i as nat),
        i <= r.0 <= r.1 <= s.len(),
{
    proof {
        lemma_find_from_bounds(s@, seq!['\n'], i as nat);
    }
    let nl: Vec<char> = vec!['\n'];
    assert(nl@ =~= seq!['\n']);
    let j = match find_index_from(s, &nl, i) {
        Some(j) => j,
        None => s.len(),
    };
    if j < s.len() && j > i && s[j - 1] == '\r' {
        (j - 1, j)
    } else {
        (j, j)
    }
}

/// Last occurrence of `pat` in `s` at or after `start`, as an index into `s`.
pub fn rfind_index_from(s: &Vec<char>, pat: &Vec<char>, start: usize) -> (r: Option<usize>)
    requires
        start <= s.len(),
    ensures
        r matches Some(k) ==> start <= k <= s.len() && Some((k - start) as nat) == rfind(
            s@.skip(start as int),
            pat@,
        ),
        r is None ==> rfind(s@.skip(start as int), pat@) is None,
{
    let ghost t = s@.skip(start as int);
    if pat.len() > s.len() - start {
        assert(rfind(t, pat@) is None);
        return None;
    }
    let mut k: usize = s.len() - pat.len();
    loop
        invariant
            start <= s.len(),
            pat.len() <= s.len() - start,
            start <= k <= s.len() - pat.len(),
            t == s@.skip(start as int),
            rfind(t, pat@) == rfind_upto(t, pat@, k - start),
        decreases k,
    {
        let found = occurs_at(s, pat, k);
        assert(matches_at(s@, pat@, k as int) == matches_at(t, pat@, k - start)) by {
            if matches_at(s@, pat@, k as int) {
                assert(t.subrange(k - start, k - start + pat.len()) =~= s@.subrange(
                    k as int,
                    k + pat.len(),
                ));
            }
            if matches_at(t, pat@, k - start) {
                assert(t.subrange(k - start, k - start + pat.len()) =~= s@.subrange(
                    k as int,
                    k + pat.len(),
                ));
            }
        }
        if found {
            return Some(k);
        }
        if k == start {
            assert(rfind_upto(t, pat@, -1) is None);
            return None;
        }
        k = k - 1;
    }
}

} // verus!

verus! {

// ---------------------------------------------------------------------------
// Decimal numbers
// ---------------------------------------------------------------------------

/// `char::is_ascii_digit`.
pub open spec fn is_ascii_digit(c: char) -> bool {
    '0' <= c <= '9'
}

/// Value of an ASCII digit.
pub open spec fn digit_value(c: char) -> nat {
    (c as u32 - '0' as u32) as nat
}

/// Every character of `s` is an ASCII digit.
pub open spec fn all_ascii_digits(s: Seq<char>) -> bool {
    forall|i: int| 0 <= i < s.len() ==> is_ascii_digit(#[trigger] s[i])
}

/// Value of a string of decimal digits.
pub open spec fn digits_value(s: Seq<char>) -> nat
    decreases s.len(),
{
    if s.len() == 0 {
        0
    } else {
        digits_value(s.drop_last()) * 10 + digit_value(s.last())
    }
}

/// `str::parse` for an unsigned integer type whose largest value is `max`:
/// an optional `+` followed by at least one ASCII digit, with a value that
/// fits.
pub open spec fn parse_unsigned(s: Seq<char>, max: nat) -> Option<nat> {
    let d = if s.len() > 0 && s[0] == '+' {
        s.drop_first()
    } else {
        s
    };
    if d.len() > 0 && all_ascii_digits(d) && digits_value(d) <= max {
        Some(digits_value(d))
    } else {
        None
    }
}

proof fn lemma_digits_value_monotone(s: Seq<char>, k: int)
    requires
        0 <= k <= s.len(),
    ensures
        digits_value(s.take(k)) <= digits_value(s),
    decreases s.len() - k,
{
    if k < s.len() {
        lemma_digits_value_monotone(s, k + 1);
        assert(s.take(k + 1).drop_last() =~= s.take(k));
    } else {
        assert(s.take(k) =~= s);
    }
}

/// `str::parse` of `s[lo..hi]` as an unsigned integer no larger than `max`.
pub fn parse_unsigned_range(s: &Vec<char>, lo: usize, hi: usize, max: u64) -> (r: Option<u64>)
    requires
        lo <= hi <= s.len(),
    ensures
        r matches Some(v) ==> parse_unsigned(s@.subrange(lo as int, hi as int), max as nat)
            == Some(v as nat),
        r is None ==> parse_unsigned(s@.subrange(lo as int, hi as int), max as nat) is None,
{
    let ghost t = s@.subrange(lo as int, hi as int);
    let mut i = lo;
    if i < hi && s[i] == '+' {
        i = i + 1;
    }
    let ghost d = s@.subrange(i as int, hi as int);
    assert(d =~= (if t.len() > 0 && t[0] == '+' {
        t.drop_first()
    } else {
        t
    }));
    if i == hi {
        return None;
    }
    let start = i;
    let mut acc: u128 = 0;
    while i < hi
        invariant
            lo <= start <= i <= hi <= s.len(),
            t == s@.subrange(lo as int, hi as int),
            d == s@.subrange(start as int, hi as int),
            d == (if t.len() > 0 && t[0] == '+' {
                t.drop_first()
            } else {
                t
            }),
            d.len() > 0,
            all_ascii_digits(d.take(i - start)),
            acc == digits_value(d.take(i - start)),
            acc <= max,
        decreases hi - i,
    {
        let c = s[i];
        if !('0' <= c && c <= '9') {
            assert(!is_ascii_digit(d[i - start]));
            return None;
        }
        let ghost k = i - start;
        assert(d.take(k + 1).drop_last() =~= d.take(k));
        acc = acc * 10 + ((c as u32) - ('0' as u32)) as u128;
        i = i + 1;
        assert(all_ascii_digits(d.take(i - start)));
        if acc > max as u128 {
            proof {
                lemma_digits_value_monotone(d, i - start);
            }
            return None;
        }
    }
    assert(d.take(i - start) =~= d);
    Some(acc as u64)
}

// ---------------------------------------------------------------------------
// Comma separated lists
// ---------------------------------------------------------------------------

/// `str::split(sep)`: the pieces of `s` between the separators.
pub open spec fn split_on(s: Seq<char>, sep: char) -> Seq<Seq<char>>
    decreases s.len(),
{
    if s.len() == 0 {
        seq![Seq::<char>::empty()]
    } else {
        let prev = split_on(s.drop_last(), sep);
        if s.last() == sep {
            prev.push(Seq::<char>::empty())
        } else {
            prev.update(prev.len() - 1, prev.last().push(s.last()))
        }
    }
}

/// The values of the pieces that parse (after trimming) as unsigned
/// integers no larger than `max`, in order; the other pieces are skipped.
pub open spec fn parsed_pieces(pieces: Seq<Seq<char>>, max: nat) -> Seq<nat>
    decreases pieces.len(),
{
    if pieces.len() == 0 {
        Seq::empty()
    } else {
        let prev = parsed_pieces(pieces.drop_last(), max);
        match parse_unsigned(trim(pieces.last()), max) {
            Some(v) => prev.push(v),
            None => prev,
        }
    }
}

/// `s.split(sep).filter_map(|p| p.trim().parse().ok())` for an unsigned type
/// whose largest value is `max`.
pub open spec fn parse_number_list(s: Seq<char>, sep: char, max: nat) -> Seq<nat> {
    parsed_pieces(split_on(s, sep), max)
}

proof fn lemma_split_on_len(s: Seq<char>, sep: char)
    ensures
        split_on(s, sep).len() >= 1,
    decreases s.len(),
{
    if s.len() > 0 {
        lemma_split_on_len(s.drop_last(), sep);
    }
}

/// The values in the `sep`-separated list `s` that parse as unsigned integers
/// no larger than `max`.
pub fn parse_separated_numbers(s: &str, sep: char, max: u64) -> (res: Vec<u64>)
    ensures
        res@.len() == parse_number_list(s@, sep, max as nat).len(),
        forall|i: int|
            0 <= i < res@.len() ==> res@[i] as nat == #[trigger] parse_number_list(
                s@,
                sep,
                max as nat,
            )[i],
{
    let cs = str_to_chars(s);
    let mut res: Vec<u64> = Vec::new();
    let mut cur: usize = 0;
    let mut i: usize = 0;
    let ghost mut done: Seq<Seq<char>> = Seq::empty();
    assert(cs@.take(0) =~= Seq::<char>::empty());
    assert(split_on(cs@.take(0), sep) =~= done.push(cs@.subrange(0, 0)));
    while i < cs.len()
        invariant
            cur <= i <= cs.len(),
            split_on(cs@.take(i as int), sep) == done.push(cs@.subrange(cur as int, i as int)),
            res@.len() == parsed_pieces(done, max as nat).len(),
            forall|k: int|
                0 <= k < res@.len() ==> res@[k] as nat == #[trigger] parsed_pieces(
                    done,
                    max as nat,
                )[k],
        decreases cs.len() - i,
    {
        let ghost prev = cs@.take(i as int);
        assert(cs@.take(i + 1).drop_last() =~= prev);
        assert(cs@.take(i + 1).last() == cs@[i as int]);
        if cs[i] == sep {
            let (a, b) = trim_range(&cs, cur, i);
            let piece = parse_unsigned_range(&cs, a, b, max);
            let ghost old_done = done;
            proof {
                done = done.push(cs@.subrange(cur as int, i as int));
                assert(done.drop_last() =~= old_done);
            }
            match piece {
                Some(v) => {
                    res.push(v);
                },
                None => {},
            }
            assert(split_on(cs@.take(i + 1), sep) == split_on(prev, sep).push(Seq::<char>::empty()));
            assert(cs@.subrange(i + 1, i + 1) =~= Seq::<char>::empty());
            cur = i + 1;
            i = i + 1;
            assert(split_on(cs@.take(i as int), sep) =~= done.push(
                cs@.subrange(cur as int, i as int),
            ));
        } else {
            let ghost c = cs@[i as int];
            assert(cs@.subrange(cur as int, i + 1) =~= cs@.subrange(cur as int, i as int).push(
                c,
            ));
            i = i + 1;
            assert(split_on(cs@.take(i as int), sep) =~= done.push(
                cs@.subrange(cur as int, i as int),
            ));
        }
    }
    let (a, b) = trim_range(&cs, cur, cs.len());
    let piece = parse_unsigned_range(&cs, a, b, max);
    let ghost all = done.push(cs@.subrange(cur as int, cs.len() as int));
    assert(cs@.take(cs.len() as int) =~= cs@);
    assert(all.drop_last() =~= done);
    match piece {
        Some(v) => {
            res.push(v);
        },
        None => {},
    }
    res
}

// ---------------------------------------------------------------------------
// Decimal rendering
// ---------------------------------------------------------------------------

/// The character of a decimal digit.
pub open spec fn digit_char(d: nat) -> char {
    (d + 48) as char
}

/// Decimal rendering of a natural number (`ToString` on an integer).
pub open spec fn decimal(n: nat) -> Seq<char>
    decreases n,
{
    if n < 10 {
        seq![digit_char(n)]
    } else {
        decimal(n / 10).push(digit_char(n % 10))
    }
}

/// Appends the decimal rendering of `n` to `out`.
pub fn push_decimal(out: &mut String, n: u64)
    ensures
        final(out)@ == old(out)@ + decimal(n as nat),
    decreases n,
{
    if n >= 10 {
        push_decimal(out, n / 10);
    }
    let d = (n % 10) as u8;
    let c = (d + 48) as char;
    assert(c == digit_char((n % 10) as nat));
    string_push(out, c);
    assert(final(out)@ =~= old(out)@ + decimal(n as nat));
}

} // verus!

verus! {

proof fn lemma_parsed_pieces_bounded(pieces: Seq<Seq<char>>, max: nat)
    ensures
        forall|i: int|
            0 <= i < parsed_pieces(pieces, max).len() ==> #[trigger] parsed_pieces(pieces, max)[i]
                <= max,
    decreases pieces.len(),
{
    if pieces.len() > 0 {
        lemma_parsed_pieces_bounded(pieces.drop_last(), max);
        let prev = parsed_pieces(pieces.drop_last(), max);
        match parse_unsigned(trim(pieces.last()), max) {
            Some(v) => {
                assert(parsed_pieces(pieces, max) == prev.push(v));
                assert forall|i: int| 0 <= i < prev.len() + 1 implies #[trigger] prev.push(v)[i]
                    <= max by {
                    if i < prev.len() {
                        assert(prev.push(v)[i] == prev[i]);
                    }
                }
            },
            None => {},
        }
    }
}

/// A text without the separator is one piece.
pub proof fn lemma_split_single_piece(p: Seq<char>, sep: char)
    requires
        !p.contains(sep),
    ensures
        split_on(p, sep) == seq![p],
    decreases p.len(),
{
    if p.len() > 0 {
        assert(!p.drop_last().contains(sep)) by {
            if p.drop_last().contains(sep) {
                let k = choose|k: int| 0 <= k < p.drop_last().len() && p.drop_last()[k] == sep;
                assert(p[k] == sep);
            }
        }
        lemma_split_single_piece(p.drop_last(), sep);
        assert(p[p.len() - 1] != sep);
        assert(p.drop_last().push(p.last()) =~= p);
        assert(seq![p.drop_last()].update(0, p.drop_last().push(p.last())) =~= seq![p]);
    } else {
        assert(p =~= Seq::<char>::empty());
    }
}

/// Appending the separator and a piece without it adds that piece.
pub proof fn lemma_split_append_piece(s: Seq<char>, sep: char, p: Seq<char>)
    requires
        !p.contains(sep),
    ensures
        split_on(s + seq![sep] + p, sep) == split_on(s, sep).push(p),
    decreases p.len(),
{
    let t = s + seq![sep] + p;
    if p.len() == 0 {
        assert(t =~= s.push(sep));
        assert(t.drop_last() =~= s);
        assert(p =~= Seq::<char>::empty());
    } else {
        let q = p.drop_last();
        assert(!q.contains(sep)) by {
            if q.contains(sep) {
                let k = choose|k: int| 0 <= k < q.len() && q[k] == sep;
                assert(p[k] == sep);
            }
        }
        lemma_split_append_piece(s, sep, q);
        assert(t.drop_last() =~= s + seq![sep] + q);
        assert(t.last() == p[p.len() - 1]);
        assert(p[p.len() - 1] != sep);
        let prev = split_on(s, sep).push(q);
        assert(q.push(p.last()) =~= p);
        assert(prev.update(prev.len() - 1, p) =~= split_on(s, sep).push(p));
    }
}

/// A string of digits is its own trimmed form.
pub proof fn lemma_trim_digits(d: Seq<char>)
    requires
        d.len() > 0,
        all_ascii_digits(d),
    ensures
        trim(d) == d,
{
    assert(is_ascii_digit(d[0]));
    assert(skip_white_from(d, 0) == 0);
    assert(d.subrange(0, d.len() as int) =~= d);
    assert(is_ascii_digit(d[d.len() - 1]));
    assert(skip_white_back(d, d.len() as int) == d.len());
}

/// Every number of a parsed list is at most `max`.
pub proof fn lemma_parse_number_list_bounded(s: Seq<char>, sep: char, max: nat)
    ensures
        forall|i: int|
            0 <= i < parse_number_list(s, sep, max).len() ==> #[trigger] parse_number_list(
                s,
                sep,
                max,
            )[i] <= max,
{
    lemma_parsed_pieces_bounded(split_on(s, sep), max);
}

} // verus!

verus! {

/// Appends a string slice to a `String` (`String::push_str`).
#[verifier::external_body]
pub(crate) fn push_str(s: &mut String, t: &str)
    ensures
        final(s)@ == old(s)@ + t@,
{
    s.push_str(t);
}

} // verus!

verus! {

// ---------------------------------------------------------------------------
// UTF-8 lengths and truncation
// ---------------------------------------------------------------------------

/// Number of bytes of the UTF-8 encoding of `c` (`char::len_utf8`).
pub open spec fn utf8_width(c: char) -> nat {
    let u = c as u32;
    if u < 0x80 {
        1
    } else if u < 0x800 {
        2
    } else if u < 0x10000 {
        3
    } else {
        4
    }
}

/// Number of bytes of the UTF-8 encoding of `s` (`str::len`).
pub open spec fn utf8_len(s: Seq<char>) -> nat
    decreases s.len(),
{
    if s.len() == 0 {
        0
    } else {
        utf8_len(s.drop_last()) + utf8_width(s.last())
    }
}

/// Byte `n` of the UTF-8 encoding of `s` starts a character (or is the end):
/// slicing `&s[..n]` does not panic.
pub open spec fn is_char_boundary(s: Seq<char>, n: nat) -> bool {
    exists|k: int| 0 <= k <= s.len() && utf8_len(#[trigger] s.take(k)) == n
}

/// The characters of `s` whose encoding makes up its first `n` bytes.
pub open spec fn byte_prefix(s: Seq<char>, n: nat) -> Seq<char> {
    s.take(choose|k: int| 0 <= k <= s.len() && utf8_len(#[trigger] s.take(k)) == n)
}

/// Display form of a text limited to `limit` bytes: longer texts keep their
/// first `keep` bytes followed by `...`.
pub open spec fn shortened(s: Seq<char>, limit: nat, keep: nat) -> Seq<char> {
    if utf8_len(s) > limit {
        byte_prefix(s, keep) + "..."@
    } else {
        s
    }
}

/// Whether `shortened(s, limit, keep)` can be computed without slicing inside
/// a character.
pub open spec fn can_shorten(s: Seq<char>, limit: nat, keep: nat) -> bool {
    utf8_len(s) > limit ==> is_char_boundary(s, keep)
}

proof fn lemma_utf8_len_monotone(s: Seq<char>, k: int)
    requires
        0 <= k <= s.len(),
    ensures
        utf8_len(s.take(k)) <= utf8_len(s),
        k < s.len() ==> utf8_len(s.take(k)) < utf8_len(s.take(k + 1)),
    decreases s.len() - k,
{
    if k < s.len() {
        lemma_utf8_len_monotone(s, k + 1);
        assert(s.take(k + 1).drop_last() =~= s.take(k));
    } else {
        assert(s.take(k) =~= s);
    }
}

proof fn lemma_utf8_len_unique(s: Seq<char>, k1: int, k2: int)
    requires
        0 <= k1 < k2 <= s.len(),
    ensures
        utf8_len(s.take(k1)) < utf8_len(s.take(k2)),
    decreases k2 - k1,
{
    lemma_utf8_len_monotone(s, k1);
    if k1 + 1 < k2 {
        lemma_utf8_len_unique(s, k1 + 1, k2);
    }
}

fn char_utf8_width(c: char) -> (r: usize)
    ensures
        r == utf8_width(c),
{
    let u = c as u32;
    if u < 0x80 {
        1
    } else if u < 0x800 {
        2
    } else if u < 0x10000 {
        3
    } else {
        4
    }
}

/// The number of bytes of the UTF-8 encoding of `s` (`str::len`).
pub fn utf8_length(s: &str) -> (r: u128)
    ensures
        r == utf8_len(s@),
        r <= 4 * (usize::MAX as int),
{
    let cs = str_to_chars(s);
    let mut total: u128 = 0;
    let mut i: usize = 0;
    while i < cs.len()
        invariant
            i <= cs.len(),
            cs@ == s@,
            total == utf8_len(cs@.take(i as int)),
            total <= 4 * i,
        decreases cs.len() - i,
    {
        let w = char_utf8_width(cs[i]);
        assert(cs@.take(i + 1).drop_last() =~= cs@.take(i as int));
        total = total + w as u128;
        i = i + 1;
    }
    assert(cs@.take(cs.len() as int) =~= cs@);
    total
}

/// Whether `shortened(s, limit, keep)` can be computed (see `can_shorten`):
/// the text is short enough, or its first `keep` bytes end where a
/// character ends.
pub fn shortenable(s: &str, limit: usize, keep: usize) -> (r: bool)
    ensures
        r == can_shorten(s@, limit as nat, keep as nat),
{
    let cs = str_to_chars(s);
    let mut total: u128 = 0;
    let mut i: usize = 0;
    let mut boundary = false;
    while i < cs.len()
        invariant
            i <= cs.len(),
            cs@ == s@,
            total == utf8_len(cs@.take(i as int)),
            total <= 4 * i,
            boundary == exists|k: int| 0 <= k < i && utf8_len(#[trigger] cs@.take(k)) == keep,
        decreases cs.len() - i,
    {
        if total == keep as u128 {
            boundary = true;
        }
        let w = char_utf8_width(cs[i]);
        assert(cs@.take(i + 1).drop_last() =~= cs@.take(i as int));
        total = total + w as u128;
        i = i + 1;
    }
    if total == keep as u128 {
        boundary = true;
    }
    assert(cs@.take(cs.len() as int) =~= cs@);
    proof {
        if !boundary {
            assert forall|k: int| 0 <= k <= cs@.len() implies utf8_len(#[trigger] cs@.take(k)) != keep by {
                if k == cs@.len() {
                    assert(cs@.take(k) =~= cs@.take(cs.len() as int));
                }
            }
        }
    }
    total <= limit as u128 || boundary
}

/// `shortened` of a text (see there), for texts on which it is defined.
pub fn shorten(s: &str, limit: usize, keep: usize) -> (res: String)
    requires
        can_shorten(s@, limit as nat, keep as nat),
    ensures
        res@ == shortened(s@, limit as nat, keep as nat),
{
    let cs = str_to_chars(s);
    let mut total: u128 = 0;
    let mut i: usize = 0;
    let mut cut: Option<usize> = None;
    while i < cs.len()
        invariant
            i <= cs.len(),
            cs@ == s@,
            total == utf8_len(cs@.take(i as int)),
            total <= 4 * i,
            cut matches Some(k) ==> k <= i && utf8_len(cs@.take(k as int)) == keep,
            cut is None ==> forall|k: int| 0 <= k < i ==> utf8_len(#[trigger] cs@.take(k)) != keep,
        decreases cs.len() - i,
    {
        if cut.is_none() && total == keep as u128 {
            cut = Some(i);
        }
        let w = char_utf8_width(cs[i]);
        assert(cs@.take(i + 1).drop_last() =~= cs@.take(i as int));
        total = total + w as u128;
        i = i + 1;
    }
    if cut.is_none() && total == keep as u128 {
        cut = Some(i);
    }
    assert(cs@.take(cs.len() as int) =~= cs@);
    if total > limit as u128 {
        let k = match cut {
            Some(k) => k,
            None => {
                assert(false);
                0
            },
        };
        proof {
            let j = choose|j: int| 0 <= j <= cs@.len() && utf8_len(#[trigger] cs@.take(j)) == keep;
            if j != k {
                if j < k {
                    lemma_utf8_len_unique(cs@, j, k as int);
                } else {
                    lemma_utf8_len_unique(cs@, k as int, j);
                }
            }
            assert(byte_prefix(s@, keep as nat) =~= cs@.take(k as int));
        }
        let mut res = chars_to_string(&cs, 0, k);
        push_str(&mut res, "...");
        assert(cs@.subrange(0, k as int) =~= cs@.take(k as int));
        res
    } else {
        chars_to_string(&cs, 0, cs.len())
    }
}

} // verus!

verus! {

/// Whether two strings hold the same characters.
pub fn text_eq(a: &str, b: &str) -> (r: bool)
    ensures
        r == (a@ == b@),
{
    let x = str_to_chars(a);
    let y = str_to_chars(b);
    if x.len() != y.len() {
        return false;
    }
    let mut i: usize = 0;
    while i < x.len()
        invariant
            x.len() == y.len(),
            x@ == a@,
            y@ == b@,
            i <= x.len(),
            forall|k: int| 0 <= k < i ==> x@[k] == y@[k],
        decreases x.len() - i,
    {
        if x[i] != y[i] {
            assert(x@[i as int] != y@[i as int]);
            return false;
        }
        i = i + 1;
    }
    assert(x@ =~= y@);
    true
}

/// `str::replace(pat, with)` for a non-empty pattern: occurrences of `pat`
/// replaced from left to right, without overlaps.
pub open spec fn replace_all(s: Seq<char>, pat: Seq<char>, with: Seq<char>) -> Seq<char>
    decreases s.len(),
{
    if pat.len() == 0 || s.len() == 0 {
        s
    } else if has_prefix(s, pat) {
        with + replace_all(s.skip(pat.len() as int), pat, with)
    } else {
        seq![s[0]] + replace_all(s.drop_first(), pat, with)
    }
}

/// The characters of `s` with every occurrence of `pat` removed
/// (`str::replace(pat, "")`).
pub fn remove_all(s: &Vec<char>, pat: &Vec<char>) -> (res: Vec<char>)
    requires
        pat.len() > 0,
    ensures
        res@ == replace_all(s@, pat@, Seq::empty()),
{
    let mut out: Vec<char> = Vec::new();
    let mut i: usize = 0;
    assert(s@.skip(0) =~= s@);
    while i < s.len()
        invariant
            i <= s.len(),
            pat.len() > 0,
            out@ + replace_all(s@.skip(i as int), pat@, Seq::empty()) == replace_all(
                s@,
                pat@,
                Seq::empty(),
            ),
        decreases s.len() - i,
    {
        let ghost rest = s@.skip(i as int);
        if occurs_at(s, pat, i) {
            assert(rest.subrange(0, pat.len() as int) =~= s@.subrange(i as int, i + pat.len()));
            assert(has_prefix(rest, pat@));
            assert(rest.skip(pat.len() as int) =~= s@.skip(i + pat.len()));
            assert(Seq::<char>::empty() + replace_all(rest.skip(pat.len() as int), pat@, Seq::empty())
                =~= replace_all(rest.skip(pat.len() as int), pat@, Seq::empty()));
            i = i + pat.len();
        } else {
            assert(!has_prefix(rest, pat@)) by {
                if has_prefix(rest, pat@) {
                    assert(rest.subrange(0, pat.len() as int) =~= s@.subrange(
                        i as int,
                        i + pat.len(),
                    ));
                }
            }
            assert(rest.drop_first() =~= s@.skip(i + 1));
            let ghost prev = out@;
            out.push(s[i]);
            assert(out@ + replace_all(s@.skip(i + 1), pat@, Seq::empty()) =~= prev + (seq![rest[0]]
                + replace_all(rest.drop_first(), pat@, Seq::empty())));
            i = i + 1;
        }
    }
    assert(s@.skip(i as int) =~= Seq::<char>::empty());
    assert(out@ + Seq::<char>::empty() =~= out@);
    out
}

} // verus!

verus! {

// ---------------------------------------------------------------------------
// Ordering texts
// ---------------------------------------------------------------------------

/// `a <= b` in the order of `str`: character by character, a prefix first
/// (the order of UTF-8 bytes is that of the characters).
pub open spec fn text_le(a: Seq<char>, b: Seq<char>) -> bool
    decreases a.len(),
{
    if a.len() == 0 {
        true
    } else if b.len() == 0 {
        false
    } else if a[0] != b[0] {
        (a[0] as u32) < (b[0] as u32)
    } else {
        text_le(a.skip(1), b.skip(1))
    }
}

/// The order of texts is total.
pub proof fn lemma_text_le_total(a: Seq<char>, b: Seq<char>)
    ensures
        text_le(a, b) || text_le(b, a),
    decreases a.len(),
{
    if a.len() > 0 && b.len() > 0 {
        if a[0] == b[0] {
            lemma_text_le_total(a.skip(1), b.skip(1));
        } else {
            vstd::utf8::char_u32_cast(a[0], a[0] as u32);
            vstd::utf8::char_u32_cast(b[0], b[0] as u32);
        }
    }
}

/// The order of texts is transitive.
pub proof fn lemma_text_le_transitive(a: Seq<char>, b: Seq<char>, c: Seq<char>)
    requires
        text_le(a, b),
        text_le(b, c),
    ensures
        text_le(a, c),
    decreases a.len(),
{
    if a.len() > 0 && b.len() > 0 && c.len() > 0 && a[0] == b[0] && b[0] == c[0] {
        lemma_text_le_transitive(a.skip(1), b.skip(1), c.skip(1));
    }
}

/// Whether `a <= b` in the order of `str`.
pub fn text_le_exec(a: &str, b: &str) -> (r: bool)
    ensures
        r == text_le(a@, b@),
{
    let x = str_to_chars(a);
    let y = str_to_chars(b);
    let mut i: usize = 0;
    assert(a@.skip(0) =~= a@);
    assert(b@.skip(0) =~= b@);
    while i < x.len() && i < y.len() && x[i] == y[i]
        invariant
            i <= x.len(),
            i <= y.len(),
            x@ == a@,
            y@ == b@,
            text_le(a@, b@) == text_le(a@.skip(i as int), b@.skip(i as int)),
        decreases x.len() - i,
    {
        assert(a@.skip(i as int).skip(1) =~= a@.skip(i + 1));
        assert(b@.skip(i as int).skip(1) =~= b@.skip(i + 1));
        i = i + 1;
    }
    if i == x.len() {
        true
    } else if i == y.len() {
        false
    } else {
        (x[i] as u32) < (y[i] as u32)
    }
}

/// A list of texts in the order of `str`.
pub open spec fn texts_sorted(s: Seq<Seq<char>>) -> bool {
    forall|i: int, j: int| 0 <= i < j < s.len() ==> text_le(#[trigger] s[i], #[trigger] s[j])
}

/// The views of a list of strings.
pub open spec fn string_seq_views(v: Seq<String>) -> Seq<Seq<char>> {
    v.map_values(|s: String| s@)
}

/// The strings of `v` in the order of `str` (`sort` on strings): the same
/// strings, as many times each, sorted; equal strings keep their order.
pub fn sort_texts(v: Vec<String>) -> (res: Vec<String>)
    ensures
        texts_sorted(string_seq_views(res@)),
        string_seq_views(res@).to_multiset() == string_seq_views(v@).to_multiset(),
{
    broadcast use vstd::seq_lib::group_to_multiset_ensures;
    let mut res: Vec<String> = Vec::new();
    let mut i: usize = 0;
    assert(string_seq_views(res@) =~= Seq::<Seq<char>>::empty());
    assert(string_seq_views(v@.take(0)) =~= Seq::<Seq<char>>::empty());
    while i < v.len()
        invariant
            i <= v.len(),
            texts_sorted(string_seq_views(res@)),
            string_seq_views(res@).to_multiset() == string_seq_views(v@.take(i as int)).to_multiset(),
        decreases v.len() - i,
    {
        let x = v[i].clone();
        let ghost rv = string_seq_views(res@);
        let mut j: usize = 0;
        while j < res.len() && text_le_exec(res[j].as_str(), x.as_str())
            invariant
                j <= res.len(),
                rv == string_seq_views(res@),
                forall|k: int| 0 <= k < j ==> text_le(#[trigger] rv[k], x@),
            decreases res.len() - j,
        {
            j = j + 1;
        }
        proof {
            if j < res.len() {
                lemma_text_le_total(rv[j as int], x@);
            }
        }
        res.insert(j, x);
        proof {
            let nv = string_seq_views(res@);
            assert(nv =~= rv.insert(j as int, x@));
            assert forall|a: int, b: int| 0 <= a < b < nv.len() implies text_le(#[trigger] nv[a], #[trigger] nv[b]) by {
                if a < j && b == j {
                } else if a == j && b > j {
                    if b - 1 > j {
                        lemma_text_le_transitive(x@, rv[j as int], rv[b - 1]);
                    }
                } else if a < j && b > j {
                    assert(text_le(rv[a], rv[b - 1]));
                } else if a > j {
                    assert(text_le(rv[a - 1], rv[b - 1]));
                } else {
                    assert(text_le(rv[a], rv[b]));
                }
            }
            assert(nv.remove(j as int) =~= rv);
            assert(nv[j as int] == x@);
            nv.to_multiset_ensures();
            rv.to_multiset_ensures();
            assert(nv.remove(j as int).to_multiset() == nv.to_multiset().remove(nv[j as int]));
            assert(rv.to_multiset() == nv.to_multiset().remove(x@));
            assert(nv.to_multiset().count(x@) > 0) by {
                assert(0 <= j < nv.len() && nv[j as int] == x@);
                assert(nv.contains(x@));
            }
            assert(nv.to_multiset() =~= rv.to_multiset().insert(x@));
            assert(string_seq_views(v@.take(i + 1)) =~= string_seq_views(v@.take(i as int)).push(x@));
            string_seq_views(v@.take(i as int)).to_multiset_ensures();
        }
        i = i + 1;
    }
    assert(v@.take(v@.len() as int) =~= v@);
    res
}

} // verus!
