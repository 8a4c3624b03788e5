//! Text handling over sequences of characters: the shapes in which the tool's
//! captured output is read (lines, leading tokens, trimmed names) and in which
//! messages and arguments are written (decimal numbers, joined pieces).

use vstd::prelude::*;

verus! {

/// The views of a list of owned strings.
pub open spec fn texts(v: Seq<String>) -> Seq<Seq<char>> {
    Seq::new(v.len(), |i: int| v[i]@)
}

/// The views of a list of borrowed strings.
pub open spec fn strs(v: Seq<&str>) -> Seq<Seq<char>> {
    Seq::new(v.len(), |i: int| v[i]@)
}

/// Characters with the Unicode `White_Space` property.
pub open spec fn is_space(c: char) -> bool {
    let n = c as u32;
    (0x09 <= n <= 0x0D) || n == 0x20 || n == 0x85 || n == 0xA0 || n == 0x1680 || (0x2000 <= n
        <= 0x200A) || n == 0x2028 || n == 0x2029 || n == 0x202F || n == 0x205F || n == 0x3000
}

/// Whether `c` is white space.
pub fn is_whitespace(c: char) -> (b: bool)
    ensures
        b == is_space(c),
{
    let n: u32 = c as u32;
    (0x09 <= n && n <= 0x0D) || n == 0x20 || n == 0x85 || n == 0xA0 || n == 0x1680 || (0x2000 <= n
        && n <= 0x200A) || n == 0x2028 || n == 0x2029 || n == 0x202F || n == 0x205F || n == 0x3000
}

/// The characters of `s`, for indexed access.
pub fn chars_of(s: &str) -> (v: Vec<char>)
    ensures
        v@ == s@,
{
    let mut v: Vec<char> = Vec::new();
    for c in it: s.chars()
        invariant
            v@ == it.seq().take(it.index()),
    {
        v.push(c);
    }
    v
}

/// `line` without one trailing carriage return.
pub open spec fn without_cr(line: Seq<char>) -> Seq<char> {
    if line.len() > 0 && line.last() == '\r' {
        line.drop_last()
    } else {
        line
    }
}

/// The lines of `s` from position `at` on, where the line being read began at
/// `start`. A line ends at a line feed; a carriage return directly before that
/// line feed belongs to the terminator. What follows the last line feed is a
/// line of its own unless it is empty.
pub open spec fn lines_from(s: Seq<char>, start: int, at: int) -> Seq<Seq<char>>
    decreases s.len() - at,
{
    if at >= s.len() {
        if start < s.len() {
            seq![s.subrange(start, s.len() as int)]
        } else {
            seq![]
        }
    } else if s[at] == '\n' {
        seq![without_cr(s.subrange(start, at))] + lines_from(s, at + 1, at + 1)
    } else {
        lines_from(s, start, at + 1)
    }
}

/// The lines of `s`, without their terminators.
pub open spec fn lines_of(s: Seq<char>) -> Seq<Seq<char>> {
    lines_from(s, 0, 0)
}

/// The lines of `s`, without their terminators.
pub fn lines(s: &str) -> (out: Vec<String>)
    ensures
        texts(out@) == lines_of(s@),
{
    let chars = chars_of(s);
    let n = chars.len();
    let mut out: Vec<String> = Vec::new();
    let mut start: usize = 0;
    let mut at: usize = 0;
    while at < n
        invariant
            chars@ == s@,
            n == chars@.len(),
            start <= at <= n,
            texts(out@) + lines_from(s@, start as int, at as int) == lines_of(s@),
        decreases n - at,
    {
        if chars[at] == '\n' {
            let end = if start < at && chars[at - 1] == '\r' {
                at - 1
            } else {
                at
            };
            assert(s@.subrange(start as int, end as int) =~= without_cr(
                s@.subrange(start as int, at as int),
            ));
            let line = s.substring_char(start, end).to_owned();
            out.push(line);
            start = at + 1;
        }
        at += 1;
    }
    if start < n {
        let line = s.substring_char(start, n).to_owned();
        out.push(line);
    }
    out
}

/// The first position at or after `at` that holds no white space, or the
/// length of `s` where only white space follows.
pub open spec fn next_word(s: Seq<char>, at: int) -> int
    decreases s.len() - at,
{
    if at >= s.len() {
        s.len() as int
    } else if !is_space(s[at]) {
        at
    } else {
        next_word(s, at + 1)
    }
}

/// The first position at or after `at` that holds white space, or the length
/// of `s` where none follows.
pub open spec fn next_space(s: Seq<char>, at: int) -> int
    decreases s.len() - at,
{
    if at >= s.len() {
        s.len() as int
    } else if is_space(s[at]) {
        at
    } else {
        next_space(s, at + 1)
    }
}

/// The end of `s` once the white space before position `end` is cut off.
pub open spec fn trimmed_end(s: Seq<char>, end: int) -> int
    decreases end,
{
    if end <= 0 {
        0
    } else if !is_space(s[end - 1]) {
        end
    } else {
        trimmed_end(s, end - 1)
    }
}

/// The first run of characters without white space in `s`, if there is one.
pub open spec fn first_token_of(s: Seq<char>) -> Option<Seq<char>> {
    let from = next_word(s, 0);
    if from >= s.len() {
        None
    } else {
        Some(s.subrange(from, next_space(s, from)))
    }
}

/// `s` without the white space at its two ends.
pub open spec fn trimmed(s: Seq<char>) -> Seq<char> {
    let from = next_word(s, 0);
    if from >= s.len() {
        Seq::empty()
    } else {
        s.subrange(from, trimmed_end(s, s.len() as int))
    }
}

/// Where the next word begins: at or after `at`, after white space only.
pub proof fn lemma_next_word_bounds(s: Seq<char>, at: int)
    requires
        0 <= at <= s.len(),
    ensures
        at <= next_word(s, at) <= s.len(),
        next_word(s, at) < s.len() ==> !is_space(s[next_word(s, at)]),
        forall|i: int| at <= i < next_word(s, at) ==> is_space(s[i]),
    decreases s.len() - at,
{
    if at < s.len() && is_space(s[at]) {
        lemma_next_word_bounds(s, at + 1);
    }
}

/// Where the next white space stands: at or after `at`, after no white space.
pub proof fn lemma_next_space_bounds(s: Seq<char>, at: int)
    requires
        0 <= at <= s.len(),
    ensures
        at <= next_space(s, at) <= s.len(),
        next_space(s, at) < s.len() ==> is_space(s[next_space(s, at)]),
        forall|i: int| at <= i < next_space(s, at) ==> !is_space(s[i]),
    decreases s.len() - at,
{
    if at < s.len() && !is_space(s[at]) {
        lemma_next_space_bounds(s, at + 1);
    }
}

/// Where the text ends once trimmed: at or before `end`, before white space only.
pub proof fn lemma_trimmed_end_bounds(s: Seq<char>, end: int)
    requires
        0 <= end <= s.len(),
    ensures
        0 <= trimmed_end(s, end) <= end,
        trimmed_end(s, end) > 0 ==> !is_space(s[trimmed_end(s, end) - 1]),
        forall|i: int| trimmed_end(s, end) <= i < end ==> is_space(s[i]),
    decreases end,
{
    if end > 0 && is_space(s[end - 1]) {
        lemma_trimmed_end_bounds(s, end - 1);
    }
}

/// The leading token is not empty and holds no white space. Only white space
/// stands before it, and white space or nothing right after it. A text has
/// no leading token only where it holds nothing but white space.
pub proof fn lemma_first_token(s: Seq<char>)
    ensures
        match first_token_of(s) {
            Some(token) => {
                let from = next_word(s, 0);
                &&& token.len() > 0
                &&& 0 <= from && from + token.len() <= s.len()
                &&& s.subrange(from, from + token.len()) == token
                &&& forall|i: int| 0 <= i < token.len() ==> !is_space(#[trigger] token[i])
                &&& forall|i: int| 0 <= i < from ==> is_space(#[trigger] s[i])
                &&& from + token.len() < s.len() ==> is_space(s[from + token.len()])
            },
            None => forall|i: int| 0 <= i < s.len() ==> is_space(#[trigger] s[i]),
        },
{
    lemma_next_word_bounds(s, 0);
    let from = next_word(s, 0);
    if from < s.len() {
        lemma_next_space_bounds(s, from);
    }
}

/// Trimming cuts nothing but white space, and what it leaves neither begins
/// nor ends with white space.
pub proof fn lemma_trimmed(s: Seq<char>)
    ensures
        ({
            let kept = trimmed(s);
            let from = next_word(s, 0);
            &&& 0 <= from && from + kept.len() <= s.len()
            &&& s.subrange(from, from + kept.len()) == kept
            &&& forall|i: int| 0 <= i < from ==> is_space(#[trigger] s[i])
            &&& forall|i: int| from + kept.len() <= i < s.len() ==> is_space(#[trigger] s[i])
            &&& kept.len() > 0 ==> !is_space(kept.first()) && !is_space(kept.last())
        }),
{
    lemma_next_word_bounds(s, 0);
    lemma_trimmed_end_bounds(s, s.len() as int);
    let from = next_word(s, 0);
    if from >= s.len() {
        assert(s.subrange(from, from) =~= Seq::<char>::empty());
    }
}

/// No line holds a line feed.
pub proof fn lemma_lines_hold_no_line_feed(s: Seq<char>, start: int, at: int)
    requires
        0 <= start <= at,
        forall|i: int| start <= i < at && i < s.len() ==> s[i] != '\n',
    ensures
        forall|k: int, i: int|
            0 <= k < lines_from(s, start, at).len() && 0 <= i < lines_from(s, start, at)[k].len()
                ==> #[trigger] lines_from(s, start, at)[k][i] != '\n',
    decreases s.len() - at,
{
    if at >= s.len() {
        assert forall|k: int, i: int|
            0 <= k < lines_from(s, start, at).len() && 0 <= i < lines_from(s, start, at)[k].len()
                implies #[trigger] lines_from(s, start, at)[k][i] != '\n' by {
            assert(lines_from(s, start, at)[k][i] == s[start + i]);
        }
    } else if s[at] == '\n' {
        lemma_lines_hold_no_line_feed(s, at + 1, at + 1);
        let first = without_cr(s.subrange(start, at));
        let rest = lines_from(s, at + 1, at + 1);
        assert forall|k: int, i: int|
            0 <= k < lines_from(s, start, at).len() && 0 <= i < lines_from(s, start, at)[k].len()
                implies #[trigger] lines_from(s, start, at)[k][i] != '\n' by {
            if k == 0 {
                assert(first[i] == s[start + i]);
            } else {
                assert(lines_from(s, start, at)[k] == rest[k - 1]);
            }
        }
    } else {
        lemma_lines_hold_no_line_feed(s, start, at + 1);
        assert(lines_from(s, start, at) == lines_from(s, start, at + 1));
    }
}

fn scan_word(chars: &Vec<char>, at: usize) -> (r: usize)
    requires
        at <= chars@.len(),
    ensures
        r == next_word(chars@, at as int),
        at <= r <= chars@.len(),
{
    let mut i: usize = at;
    while i < chars.len() && is_whitespace(chars[i])
        invariant
            at <= i <= chars@.len(),
            next_word(chars@, i as int) == next_word(chars@, at as int),
        decreases chars@.len() - i,
    {
        i += 1;
    }
    i
}

fn scan_space(chars: &Vec<char>, at: usize) -> (r: usize)
    requires
        at <= chars@.len(),
    ensures
        r == next_space(chars@, at as int),
        at <= r <= chars@.len(),
{
    let mut i: usize = at;
    while i < chars.len() && !is_whitespace(chars[i])
        invariant
            at <= i <= chars@.len(),
            next_space(chars@, i as int) == next_space(chars@, at as int),
        decreases chars@.len() - i,
    {
        i += 1;
    }
    i
}

fn scan_back(chars: &Vec<char>, end: usize) -> (r: usize)
    requires
        end <= chars@.len(),
    ensures
        r == trimmed_end(chars@, end as int),
        r <= end,
{
    let mut i: usize = end;
    while i > 0 && is_whitespace(chars[i - 1])
        invariant
            i <= end <= chars@.len(),
            trimmed_end(chars@, i as int) == trimmed_end(chars@, end as int),
        decreases i,
    {
        i -= 1;
    }
    i
}

/// The leading token of a line: what stands before the first white space,
/// once leading white space is skipped.
pub fn first_token(line: &str) -> (r: Option<String>)
    ensures
        match r {
            Some(t) => first_token_of(line@) == Some(t@),
            None => first_token_of(line@) is None,
        },
{
    let chars = chars_of(line);
    let from = scan_word(&chars, 0);
    if from >= chars.len() {
        None
    } else {
        let to = scan_space(&chars, from);
        Some(line.substring_char(from, to).to_owned())
    }
}

/// `s` without the white space at its two ends.
pub fn trim(s: &str) -> (r: String)
    ensures
        r@ == trimmed(s@),
{
    let chars = chars_of(s);
    let from = scan_word(&chars, 0);
    if from >= chars.len() {
        String::new()
    } else {
        let to = scan_back(&chars, chars.len());
        proof {
            lemma_trimmed_end_bounds(chars@, chars@.len() as int);
            lemma_next_word_bounds(chars@, 0);
        }
        s.substring_char(from, to).to_owned()
    }
}

/// Whether `pat` stands in `s` at position `at`.
pub open spec fn occurs_at(s: Seq<char>, pat: Seq<char>, at: int) -> bool {
    0 <= at && at + pat.len() <= s.len() && s.subrange(at, at + pat.len()) == pat
}

/// Whether `pat` stands somewhere in `s`.
pub open spec fn occurs_in(s: Seq<char>, pat: Seq<char>) -> bool {
    exists|at: int| occurs_at(s, pat, at)
}

fn matches_at(s: &Vec<char>, pat: &Vec<char>, at: usize) -> (b: bool)
    requires
        at + pat@.len() <= s@.len(),
    ensures
        b == occurs_at(s@, pat@, at as int),
{
    let n = s.len();
    let mut j: usize = 0;
    while j < pat.len()
        invariant
            j <= pat@.len(),
            at + pat@.len() <= s@.len(),
            n == s@.len(),
            s@.subrange(at as int, at + j) == pat@.take(j as int),
        decreases pat@.len() - j,
    {
        if s[at + j] != pat[j] {
            return false;
        }
        j += 1;
    }
    assert(pat@.take(pat@.len() as int) =~= pat@);
    true
}

/// Whether the two texts hold the same characters.
pub fn same(a: &str, b: &str) -> (r: bool)
    ensures
        r == (a@ == b@),
{
    let x = chars_of(a);
    let y = chars_of(b);
    if x.len() != y.len() {
        return false;
    }
    let r = matches_at(&x, &y, 0);
    assert(x@.subrange(0, y@.len() as int) =~= x@);
    r
}

/// Whether `s` begins with `prefix`.
pub fn starts_with(s: &str, prefix: &str) -> (b: bool)
    ensures
        b == prefix@.is_prefix_of(s@),
{
    let x = chars_of(s);
    let p = chars_of(prefix);
    if p.len() > x.len() {
        return false;
    }
    let r = matches_at(&x, &p, 0);
    assert(r == p@.is_prefix_of(x@)) by {
        if r {
            assert(x@.subrange(0, p@.len() as int) =~= p@);
        }
        if p@.is_prefix_of(x@) {
            assert(x@.subrange(0, p@.len() as int) =~= p@);
        }
    }
    r
}

/// Whether `pat` stands somewhere in `s`.
pub fn contains(s: &str, pat: &str) -> (b: bool)
    ensures
        b == occurs_in(s@, pat@),
{
    let x = chars_of(s);
    let p = chars_of(pat);
    if p.len() > x.len() {
        return false;
    }
    if p.len() == 0 {
        assert(s@.subrange(0, 0) =~= pat@);
        assert(occurs_at(s@, pat@, 0));
        return true;
    }
    let limit: usize = x.len() - p.len() + 1;
    let mut at: usize = 0;
    while at < limit
        invariant
            at <= limit,
            limit == x@.len() - p@.len() + 1,
            x@ == s@,
            p@ == pat@,
            forall|i: int| 0 <= i < at ==> !occurs_at(s@, pat@, i),
        decreases limit - at,
    {
        if matches_at(&x, &p, at) {
            return true;
        }
        at += 1;
    }
    false
}

/// `s` without `prefix` at its start; `s` itself where it does not start so.
pub open spec fn without_prefix(s: Seq<char>, prefix: Seq<char>) -> Seq<char> {
    if prefix.is_prefix_of(s) {
        s.skip(prefix.len() as int)
    } else {
        s
    }
}

/// `s` without `prefix` at its start; `s` itself where it does not start so.
pub fn strip_prefix(s: &str, prefix: &str) -> (r: String)
    ensures
        r@ == without_prefix(s@, prefix@),
{
    if starts_with(s, prefix) {
        let n = s.unicode_len();
        let k = prefix.unicode_len();
        s.substring_char(k, n).to_owned()
    } else {
        s.to_owned()
    }
}

/// The character that writes the digit `d`.
pub open spec fn digit_of(d: nat) -> char {
    if d == 0 {
        '0'
    } else if d == 1 {
        '1'
    } else if d == 2 {
        '2'
    } else if d == 3 {
        '3'
    } else if d == 4 {
        '4'
    } else if d == 5 {
        '5'
    } else if d == 6 {
        '6'
    } else if d == 7 {
        '7'
    } else if d == 8 {
        '8'
    } else {
        '9'
    }
}

/// `n` written in base ten, without leading zeros.
pub open spec fn decimal_of(n: nat) -> Seq<char>
    decreases n,
{
    if n < 10 {
        seq![digit_of(n)]
    } else {
        decimal_of(n / 10).push(digit_of(n % 10))
    }
}

fn digit(d: u64) -> (r: &'static str)
    requires
        d < 10,
    ensures
        r@ == seq![digit_of(d as nat)],
{
    proof {
        reveal_strlit("0");
        reveal_strlit("1");
        reveal_strlit("2");
        reveal_strlit("3");
        reveal_strlit("4");
        reveal_strlit("5");
        reveal_strlit("6");
        reveal_strlit("7");
        reveal_strlit("8");
        reveal_strlit("9");
    }
    let r = if d == 0 {
        "0"
    } else if d == 1 {
        "1"
    } else if d == 2 {
        "2"
    } else if d == 3 {
        "3"
    } else if d == 4 {
        "4"
    } else if d == 5 {
        "5"
    } else if d == 6 {
        "6"
    } else if d == 7 {
        "7"
    } else if d == 8 {
        "8"
    } else {
        "9"
    };
    r
}

/// `n` written in base ten.
pub fn decimal(n: u64) -> (r: String)
    ensures
        r@ == decimal_of(n as nat),
    decreases n,
{
    if n < 10 {
        digit(n).to_owned()
    } else {
        let mut r = decimal(n / 10);
        r.append(digit(n % 10));
        r
    }
}

/// The pieces written one after another, with `sep` between neighbours.
pub open spec fn joined(pieces: Seq<Seq<char>>, sep: Seq<char>) -> Seq<char>
    decreases pieces.len(),
{
    if pieces.len() == 0 {
        Seq::empty()
    } else if pieces.len() == 1 {
        pieces[0]
    } else {
        joined(pieces.drop_last(), sep) + sep + pieces.last()
    }
}

/// The pieces written one after another, with `sep` between neighbours.
pub fn join(pieces: &Vec<String>, sep: &str) -> (r: String)
    ensures
        r@ == joined(texts(pieces@), sep@),
{
    let mut r = String::new();
    let mut i: usize = 0;
    while i < pieces.len()
        invariant
            i <= pieces@.len(),
            r@ == joined(texts(pieces@).take(i as int), sep@),
        decreases pieces@.len() - i,
    {
        let ghost done = texts(pieces@).take(i as int);
        let ghost next = texts(pieces@).take(i + 1);
        if i > 0 {
            r.append(sep);
        }
        r.append(pieces[i].as_str());
        proof {
            assert(next.drop_last() =~= done);
            if i == 0 {
                assert(r@ =~= next[0]);
            }
        }
        i += 1;
    }
    assert(texts(pieces@).take(pieces@.len() as int) =~= texts(pieces@));
    r
}

/// The two texts written one after the other.
pub fn chain(a: &str, b: &str) -> (r: String)
    ensures
        r@ == a@ + b@,
{
    let mut r = a.to_owned();
    r.append(b);
    r
}

/// The three texts written one after another.
pub fn chain3(a: &str, b: &str, c: &str) -> (r: String)
    ensures
        r@ == a@ + b@ + c@,
{
    let mut r = a.to_owned();
    r.append(b);
    r.append(c);
    r
}

} // verus!
