//! Text primitives on sequences of characters: splitting, trimming,
//! joining and prefix tests, each with its mathematical definition.

use vstd::prelude::*;

verus! {

/// The character contents of each string of `v`, in order.
pub open spec fn texts(v: Seq<String>) -> Seq<Seq<char>> {
    Seq::new(v.len(), |i: int| v[i]@)
}

/// Characters with the Unicode property `White_Space`.
pub open spec fn is_space(c: char) -> bool {
    ||| ('\t' <= c && c <= '\r')
    ||| c == ' '
    ||| c == '\u{85}'
    ||| c == '\u{a0}'
    ||| c == '\u{1680}'
    ||| ('\u{2000}' <= c && c <= '\u{200a}')
    ||| c == '\u{2028}'
    ||| c == '\u{2029}'
    ||| c == '\u{202f}'
    ||| c == '\u{205f}'
    ||| c == '\u{3000}'
}

/// Position of the first `c` in `s`, or `s.len()` when `s` holds none.
pub open spec fn first_index(s: Seq<char>, c: char) -> int
    decreases s.len(),
{
    if s.len() == 0 || s[0] == c {
        0
    } else {
        1 + first_index(s.skip(1), c)
    }
}

/// Position of the last `c` in `s`, or `-1` when `s` holds none.
pub open spec fn last_index(s: Seq<char>, c: char) -> int
    decreases s.len(),
{
    if s.len() == 0 {
        -1
    } else if s.last() == c {
        s.len() - 1
    } else {
        last_index(s.drop_last(), c)
    }
}

/// The pieces of `s` between occurrences of `sep`. There is always at
/// least one piece; `n` separators give `n + 1` pieces.
pub open spec fn split_on(s: Seq<char>, sep: char) -> Seq<Seq<char>>
    decreases s.len(),
{
    let i = first_index(s, sep);
    if 0 <= i < s.len() {
        seq![s.take(i)] + split_on(s.skip(i + 1), sep)
    } else {
        seq![s]
    }
}

/// `s` without its leading white space.
pub open spec fn trim_start(s: Seq<char>) -> Seq<char>
    decreases s.len(),
{
    if s.len() > 0 && is_space(s[0]) {
        trim_start(s.skip(1))
    } else {
        s
    }
}

/// `s` without its trailing white space.
pub open spec fn trim_end(s: Seq<char>) -> Seq<char>
    decreases s.len(),
{
    if s.len() > 0 && is_space(s.last()) {
        trim_end(s.drop_last())
    } else {
        s
    }
}

/// `s` without leading and trailing white space.
pub open spec fn trimmed(s: Seq<char>) -> Seq<char> {
    trim_end(trim_start(s))
}

/// Each piece of `parts` trimmed.
pub open spec fn all_trimmed(parts: Seq<Seq<char>>) -> Seq<Seq<char>> {
    Seq::new(parts.len(), |i: int| trimmed(parts[i]))
}

/// The pieces of `parts` with `sep` between neighbours.
pub open spec fn joined(parts: Seq<Seq<char>>, sep: Seq<char>) -> Seq<char>
    decreases parts.len(),
{
    if parts.len() == 0 {
        Seq::empty()
    } else if parts.len() == 1 {
        parts[0]
    } else {
        joined(parts.drop_last(), sep) + sep + parts.last()
    }
}

/// `s` ends with `suffix`.
pub open spec fn has_suffix(s: Seq<char>, suffix: Seq<char>) -> bool {
    suffix.len() <= s.len() && s.skip(s.len() - suffix.len()) == suffix
}

/// `first_index` is the position before which no `c` stands and at which
/// one does, or the length.
pub proof fn lemma_first_index(s: Seq<char>, c: char, i: int)
    requires
        0 <= i <= s.len(),
        forall|j: int| 0 <= j < i ==> s[j] != c,
        i == s.len() || s[i] == c,
    ensures
        first_index(s, c) == i,
    decreases s.len(),
{
    if s.len() == 0 || s[0] == c {
    } else {
        lemma_first_index(s.skip(1), c, i - 1);
    }
}

/// `first_index` stays within the sequence, no `c` stands before it, and
/// one stands at it unless it is the length.
pub proof fn lemma_first_index_bounds(s: Seq<char>, c: char)
    ensures
        0 <= first_index(s, c) <= s.len(),
        forall|j: int| 0 <= j < first_index(s, c) ==> s[j] != c,
        first_index(s, c) < s.len() ==> s[first_index(s, c)] == c,
    decreases s.len(),
{
    if s.len() == 0 || s[0] == c {
    } else {
        lemma_first_index_bounds(s.skip(1), c);
        let k = first_index(s.skip(1), c);
        assert forall|j: int| 0 <= j < 1 + k implies s[j] != c by {
            if j > 0 {
                assert(s.skip(1)[j - 1] == s[j]);
            }
        }
        if 1 + k < s.len() {
            assert(s.skip(1)[k] == s[1 + k]);
        }
    }
}

/// `s` holds no `c`.
pub open spec fn lacks(s: Seq<char>, c: char) -> bool {
    forall|j: int| 0 <= j < s.len() ==> s[j] != c
}

/// Splitting gives at least one piece; no piece holds the separator, and
/// none holds a character that the whole did not hold.
pub proof fn lemma_split_pieces(s: Seq<char>, sep: char, c: char)
    requires
        c == sep || lacks(s, c),
    ensures
        split_on(s, sep).len() >= 1,
        forall|i: int| 0 <= i < split_on(s, sep).len() ==> lacks(#[trigger] split_on(s, sep)[i], c),
    decreases s.len(),
{
    let k = first_index(s, sep);
    lemma_first_index_bounds(s, sep);
    if 0 <= k < s.len() {
        let rest = s.skip(k + 1);
        assert(c == sep || lacks(rest, c)) by {
            if c != sep {
                assert forall|j: int| 0 <= j < rest.len() implies rest[j] != c by {
                    assert(rest[j] == s[j + k + 1]);
                }
            }
        }
        lemma_split_pieces(rest, sep, c);
        let head = s.take(k);
        assert(lacks(head, c)) by {
            assert forall|j: int| 0 <= j < head.len() implies head[j] != c by {
                assert(head[j] == s[j]);
            }
        }
        assert forall|i: int| 0 <= i < split_on(s, sep).len() implies lacks(
            #[trigger] split_on(s, sep)[i],
            c,
        ) by {
            if i > 0 {
                assert(split_on(s, sep)[i] == split_on(rest, sep)[i - 1]);
            }
        }
    }
}

/// Splitting two sequences with a separator between them gives the pieces
/// of the first, then the pieces of the second.
pub proof fn lemma_split_append(a: Seq<char>, b: Seq<char>, sep: char)
    ensures
        split_on(a + seq![sep] + b, sep) == split_on(a, sep) + split_on(b, sep),
    decreases a.len(),
{
    let whole = a + seq![sep] + b;
    let k = first_index(a, sep);
    lemma_first_index_bounds(a, sep);
    assert forall|j: int| 0 <= j < k implies whole[j] != sep by {
        assert(whole[j] == a[j]);
    }
    if k < a.len() {
        assert(whole[k] == a[k]);
        lemma_first_index(whole, sep, k);
        assert(whole.take(k) =~= a.take(k));
        assert(whole.skip(k + 1) =~= a.skip(k + 1) + seq![sep] + b);
        lemma_split_append(a.skip(k + 1), b, sep);
        assert(split_on(whole, sep) =~= split_on(a, sep) + split_on(b, sep));
    } else {
        assert(whole[k] == sep);
        lemma_first_index(whole, sep, k);
        assert(whole.take(k) =~= a);
        assert(whole.skip(k + 1) =~= b);
        assert(split_on(whole, sep) =~= split_on(a, sep) + split_on(b, sep));
    }
}

/// Joining pieces that hold no separator and splitting the result gives
/// the pieces back.
pub proof fn lemma_split_joined(parts: Seq<Seq<char>>, sep: char)
    requires
        parts.len() >= 1,
        forall|i: int| 0 <= i < parts.len() ==> lacks(#[trigger] parts[i], sep),
    ensures
        split_on(joined(parts, seq![sep]), sep) == parts,
    decreases parts.len(),
{
    let last = parts.last();
    assert(lacks(last, sep));
    lemma_first_index(last, sep, last.len() as int);
    assert(split_on(last, sep) =~= seq![last]);
    if parts.len() == 1 {
        assert(parts =~= seq![last]);
    } else {
        let front = parts.drop_last();
        assert forall|i: int| 0 <= i < front.len() implies lacks(#[trigger] front[i], sep) by {
            assert(front[i] == parts[i]);
        }
        lemma_split_joined(front, sep);
        lemma_split_append(joined(front, seq![sep]), last, sep);
        assert(front + seq![last] =~= parts);
    }
}

/// What a text lacks, it lacks without its leading white space too.
pub proof fn lemma_trim_start_lacks(s: Seq<char>, c: char)
    requires
        lacks(s, c),
    ensures
        lacks(trim_start(s), c),
    decreases s.len(),
{
    if s.len() > 0 && is_space(s[0]) {
        assert forall|j: int| 0 <= j < s.skip(1).len() implies s.skip(1)[j] != c by {
            assert(s.skip(1)[j] == s[j + 1]);
        }
        lemma_trim_start_lacks(s.skip(1), c);
    }
}

/// What a text lacks, it lacks without its trailing white space too.
pub proof fn lemma_trim_end_lacks(s: Seq<char>, c: char)
    requires
        lacks(s, c),
    ensures
        lacks(trim_end(s), c),
    decreases s.len(),
{
    if s.len() > 0 && is_space(s.last()) {
        assert forall|j: int| 0 <= j < s.drop_last().len() implies s.drop_last()[j] != c by {
            assert(s.drop_last()[j] == s[j]);
        }
        lemma_trim_end_lacks(s.drop_last(), c);
    }
}

/// Trimming adds no character: what the whole lacks, the trimmed text
/// lacks.
pub proof fn lemma_trimmed_lacks(s: Seq<char>, c: char)
    requires
        lacks(s, c),
    ensures
        lacks(trimmed(s), c),
{
    lemma_trim_start_lacks(s, c);
    lemma_trim_end_lacks(trim_start(s), c);
}

/// `last_index` stays within the sequence, a `c` stands at it, and none
/// stands after it.
pub proof fn lemma_last_index_bounds(s: Seq<char>, c: char)
    ensures
        -1 <= last_index(s, c) < s.len(),
        last_index(s, c) >= 0 ==> s[last_index(s, c)] == c,
        forall|j: int| last_index(s, c) < j < s.len() ==> s[j] != c,
    decreases s.len(),
{
    if s.len() > 0 && s.last() != c {
        lemma_last_index_bounds(s.drop_last(), c);
        assert forall|j: int| last_index(s, c) < j < s.len() implies s[j] != c by {
            if j < s.len() - 1 {
                assert(s.drop_last()[j] == s[j]);
            }
        }
    }
}

/// The last `c` of two sequences in a row is the last `c` of the second,
/// or that of the first where the second holds none.
pub proof fn lemma_last_index_append(a: Seq<char>, b: Seq<char>, c: char)
    ensures
        last_index(a + b, c) == if last_index(b, c) >= 0 {
            a.len() + last_index(b, c)
        } else {
            last_index(a, c)
        },
    decreases b.len(),
{
    if b.len() == 0 {
        assert(a + b =~= a);
    } else {
        assert((a + b).last() == b.last());
        assert((a + b).drop_last() =~= a + b.drop_last());
        if b.last() != c {
            lemma_last_index_append(a, b.drop_last(), c);
        }
    }
}

/// Cutting a sequence after its last `c` leaves that `c` the last.
pub proof fn lemma_last_index_take(s: Seq<char>, c: char, m: int)
    requires
        last_index(s, c) < m <= s.len(),
    ensures
        last_index(s.take(m), c) == last_index(s, c),
    decreases s.len(),
{
    if m == s.len() {
        assert(s.take(m) =~= s);
    } else {
        lemma_last_index_bounds(s, c);
        assert(s.drop_last().take(m) =~= s.take(m));
        lemma_last_index_take(s.drop_last(), c, m);
    }
}

/// Whether `c` is white space.
pub fn is_whitespace(c: char) -> (r: bool)
    ensures
        r == is_space(c),
{
    ('\t' <= c && c <= '\r') || c == ' ' || c == '\u{85}' || c == '\u{a0}' || c == '\u{1680}' || (
    '\u{2000}' <= c && c <= '\u{200a}') || c == '\u{2028}' || c == '\u{2029}' || c == '\u{202f}'
        || c == '\u{205f}' || c == '\u{3000}'
}

/// Whether `s` begins with `prefix`.
pub fn starts_with(s: &str, prefix: &str) -> (r: bool)
    ensures
        r == prefix@.is_prefix_of(s@),
{
    let n: usize = s.unicode_len();
    let m: usize = prefix.unicode_len();
    if m > n {
        return false;
    }
    let mut i: usize = 0;
    while i < m
        invariant
            i <= m <= n,
            n == s@.len(),
            m == prefix@.len(),
            forall|j: int| 0 <= j < i ==> s@[j] == prefix@[j],
        decreases m - i,
    {
        if s.get_char(i) != prefix.get_char(i) {
            proof {
                assert(s@.subrange(0, m as int)[i as int] == s@[i as int]);
            }
            return false;
        }
        i += 1;
    }
    proof {
        assert(prefix@ =~= s@.subrange(0, m as int));
    }
    true
}

/// Whether `s` ends with `suffix`.
pub fn ends_with(s: &str, suffix: &str) -> (r: bool)
    ensures
        r == has_suffix(s@, suffix@),
{
    let n: usize = s.unicode_len();
    let m: usize = suffix.unicode_len();
    if m > n {
        return false;
    }
    let base: usize = n - m;
    let mut i: usize = 0;
    while i < m
        invariant
            i <= m <= n,
            base == n - m,
            n == s@.len(),
            m == suffix@.len(),
            forall|j: int| 0 <= j < i ==> s@[base + j] == suffix@[j],
        decreases m - i,
    {
        if s.get_char(base + i) != suffix.get_char(i) {
            proof {
                assert(s@.skip(base as int)[i as int] == s@[base + i]);
            }
            return false;
        }
        i += 1;
    }
    proof {
        assert(s@.skip(base as int) =~= suffix@);
    }
    true
}

/// `s` without leading and trailing white space.
pub fn trim(s: &str) -> (r: String)
    ensures
        r@ == trimmed(s@),
{
    let n: usize = s.unicode_len();
    let mut lo: usize = 0;
    proof {
        assert(s@.skip(0) =~= s@);
    }
    while lo < n && is_whitespace(s.get_char(lo))
        invariant
            lo <= n,
            n == s@.len(),
            trim_start(s@) == trim_start(s@.skip(lo as int)),
        decreases n - lo,
    {
        proof {
            assert(s@.skip(lo as int).skip(1) =~= s@.skip(lo + 1));
        }
        lo += 1;
    }
    proof {
        assert(trim_start(s@) == s@.skip(lo as int));
        assert(s@.skip(lo as int) =~= s@.subrange(lo as int, n as int));
    }
    let mut hi: usize = n;
    while hi > lo && is_whitespace(s.get_char(hi - 1))
        invariant
            lo <= hi <= n,
            n == s@.len(),
            trimmed(s@) == trim_end(s@.subrange(lo as int, hi as int)),
        decreases hi - lo,
    {
        proof {
            assert(s@.subrange(lo as int, hi as int).drop_last() =~= s@.subrange(
                lo as int,
                hi - 1,
            ));
        }
        hi -= 1;
    }
    String::from_str(s.substring_char(lo, hi))
}

/// The pieces of `s` between occurrences of `sep`.
pub fn split(s: &str, sep: char) -> (r: Vec<String>)
    ensures
        texts(r@) == split_on(s@, sep),
        r@.len() >= 1,
{
    let n: usize = s.unicode_len();
    let mut out: Vec<String> = Vec::new();
    let mut start: usize = 0;
    let mut i: usize = 0;
    proof {
        assert(s@.skip(0) =~= s@);
        assert(texts(out@) + split_on(s@, sep) =~= split_on(s@, sep));
    }
    while i < n
        invariant
            start <= i <= n,
            n == s@.len(),
            split_on(s@, sep) == texts(out@) + split_on(s@.skip(start as int), sep),
            forall|j: int| start <= j < i ==> s@[j] != sep,
        decreases n - i,
    {
        if s.get_char(i) == sep {
            let piece = String::from_str(s.substring_char(start, i));
            proof {
                let rest = s@.skip(start as int);
                lemma_first_index(rest, sep, i - start);
                assert(rest.take(i - start) =~= s@.subrange(start as int, i as int));
                assert(rest.skip(i - start + 1) =~= s@.skip(i + 1));
                assert(texts(out@.push(piece)) =~= texts(out@) + seq![piece@]);
            }
            out.push(piece);
            start = i + 1;
        }
        i += 1;
    }
    let piece = String::from_str(s.substring_char(start, n));
    proof {
        let rest = s@.skip(start as int);
        lemma_first_index(rest, sep, n - start);
        assert(rest =~= s@.subrange(start as int, n as int));
        assert(texts(out@.push(piece)) =~= texts(out@) + seq![piece@]);
    }
    out.push(piece);
    out
}

/// The pieces of `s` between occurrences of `sep`, each trimmed.
pub fn split_trimmed(s: &str, sep: char) -> (r: Vec<String>)
    ensures
        texts(r@) == all_trimmed(split_on(s@, sep)),
        r@.len() >= 1,
{
    let pieces = split(s, sep);
    let mut out: Vec<String> = Vec::new();
    let mut i: usize = 0;
    while i < pieces.len()
        invariant
            i <= pieces.len(),
            out@.len() == i,
            forall|j: int| 0 <= j < i ==> out@[j]@ == trimmed(#[trigger] pieces@[j]@),
        decreases pieces.len() - i,
    {
        let t = trim(pieces[i].as_str());
        out.push(t);
        i += 1;
    }
    proof {
        assert(texts(out@) =~= all_trimmed(texts(pieces@)));
    }
    out
}

/// The strings of `parts` with `sep` between neighbours.
pub fn join(parts: &Vec<String>, sep: &str) -> (r: String)
    ensures
        r@ == joined(texts(parts@), sep@),
{
    let mut out = String::new();
    let mut i: usize = 0;
    while i < parts.len()
        invariant
            i <= parts.len(),
            out@ == joined(texts(parts@).take(i as int), sep@),
        decreases parts.len() - i,
    {
        proof {
            let next = texts(parts@).take(i + 1);
            assert(next.drop_last() =~= texts(parts@).take(i as int));
            assert(next.last() == parts@[i as int]@);
            if i == 0 {
                assert(out@ + parts@[0]@ =~= parts@[0]@);
            }
        }
        if i > 0 {
            out.append(sep);
        }
        out.append(parts[i].as_str());
        i += 1;
    }
    proof {
        assert(texts(parts@).take(parts.len() as int) =~= texts(parts@));
    }
    out
}

/// Position of the last `c` in `s`, if there is one.
pub fn last_index_of(s: &str, c: char) -> (r: Option<usize>)
    ensures
        match r {
            Some(i) => last_index(s@, c) == i,
            None => last_index(s@, c) == -1,
        },
        last_index(s@, c) < s@.len(),
        last_index(s@, c) >= 0 ==> s@[last_index(s@, c)] == c,
{
    let n: usize = s.unicode_len();
    let mut i: usize = n;
    proof {
        assert(s@.take(n as int) =~= s@);
    }
    while i > 0
        invariant
            i <= n,
            n == s@.len(),
            last_index(s@, c) == last_index(s@.take(i as int), c),
        decreases i,
    {
        if s.get_char(i - 1) == c {
            return Some(i - 1);
        }
        proof {
            assert(s@.take(i as int).drop_last() =~= s@.take(i - 1));
        }
        i -= 1;
    }
    None
}

/// `s` without trailing white space.
pub fn trim_trailing(s: &str) -> (r: String)
    ensures
        r@ == trim_end(s@),
{
    let n: usize = s.unicode_len();
    let mut hi: usize = n;
    proof {
        assert(s@.subrange(0, n as int) =~= s@);
    }
    while hi > 0 && is_whitespace(s.get_char(hi - 1))
        invariant
            hi <= n,
            n == s@.len(),
            trim_end(s@) == trim_end(s@.subrange(0, hi as int)),
        decreases hi,
    {
        proof {
            assert(s@.subrange(0, hi as int).drop_last() =~= s@.subrange(0, hi - 1));
        }
        hi -= 1;
    }
    String::from_str(s.substring_char(0, hi))
}

/// The character of a decimal digit.
pub open spec fn digit_char(d: nat) -> char {
    if d == 0 {
        '0'
    } else if d == 1 {
        '1'
    } else if d == 2 {
        '2'
    } else if d == 3 {
        '3'
    } else if d == 4 {
        '4'
    } else if d == 5 {
        '5'
    } else if d == 6 {
        '6'
    } else if d == 7 {
        '7'
    } else if d == 8 {
        '8'
    } else {
        '9'
    }
}

/// `n` written in decimal, without leading zeros.
pub open spec fn decimal_digits(n: nat) -> Seq<char>
    decreases n,
{
    if n < 10 {
        seq![digit_char(n)]
    } else {
        decimal_digits(n / 10).push(digit_char(n % 10))
    }
}

/// A decimal numeral has at least one digit.
pub proof fn lemma_decimal_nonempty(n: nat)
    ensures
        decimal_digits(n).len() >= 1,
    decreases n,
{
    if n >= 10 {
        lemma_decimal_nonempty(n / 10);
    }
}

/// A decimal numeral holds digits only.
pub proof fn lemma_decimal_holds_digits(n: nat)
    ensures
        forall|j: int|
            0 <= j < decimal_digits(n).len() ==> '0' <= #[trigger] decimal_digits(n)[j] <= '9',
    decreases n,
{
    if n >= 10 {
        lemma_decimal_holds_digits(n / 10);
        let front = decimal_digits(n / 10);
        assert forall|j: int| 0 <= j < decimal_digits(n).len() implies '0'
            <= #[trigger] decimal_digits(n)[j] <= '9' by {
            if j < front.len() {
                assert(decimal_digits(n)[j] == front[j]);
            }
        }
    } else {
        assert(decimal_digits(n)[0] == digit_char(n));
    }
}

/// Different numbers have different decimal numerals.
pub proof fn lemma_decimal_injective(a: nat, b: nat)
    requires
        decimal_digits(a) == decimal_digits(b),
    ensures
        a == b,
    decreases a,
{
    if a < 10 && b < 10 {
        assert(seq![digit_char(a)][0] == seq![digit_char(b)][0]);
    } else if a < 10 {
        lemma_decimal_nonempty(b / 10);
        assert(decimal_digits(b).len() >= 2);
    } else if b < 10 {
        lemma_decimal_nonempty(a / 10);
        assert(decimal_digits(a).len() >= 2);
    } else {
        let da = decimal_digits(a / 10);
        let db = decimal_digits(b / 10);
        assert(decimal_digits(a).drop_last() =~= da);
        assert(decimal_digits(b).drop_last() =~= db);
        assert(decimal_digits(a).last() == digit_char(a % 10));
        assert(decimal_digits(b).last() == digit_char(b % 10));
        lemma_decimal_injective(a / 10, b / 10);
    }
}

/// One decimal digit as text.
fn digit_text(d: u64) -> (r: &'static str)
    requires
        d < 10,
    ensures
        r@ == seq![digit_char(d as nat)],
{
    proof {
        reveal_strlit("0");
        reveal_strlit("1");
        reveal_strlit("2");
        reveal_strlit("3");
        reveal_strlit("4");
        reveal_strlit("5");
        reveal_strlit("6");
        reveal_strlit("7");
        reveal_strlit("8");
        reveal_strlit("9");
    }
    let r = if d == 0 {
        "0"
    } else if d == 1 {
        "1"
    } else if d == 2 {
        "2"
    } else if d == 3 {
        "3"
    } else if d == 4 {
        "4"
    } else if d == 5 {
        "5"
    } else if d == 6 {
        "6"
    } else if d == 7 {
        "7"
    } else if d == 8 {
        "8"
    } else {
        "9"
    };
    proof {
        assert(r@ =~= seq![digit_char(d as nat)]);
    }
    r
}

/// `n` written in decimal.
pub fn decimal(n: u64) -> (r: String)
    ensures
        r@ == decimal_digits(n as nat),
    decreases n,
{
    if n < 10 {
        String::from_str(digit_text(n))
    } else {
        let mut out = decimal(n / 10);
        out.append(digit_text(n % 10));
        proof {
            assert(out@ =~= decimal_digits(n as nat / 10).push(digit_char(n as nat % 10)));
        }
        out
    }
}

/// `n` written in decimal, with a minus sign where it is negative.
pub open spec fn signed_decimal_digits(n: int) -> Seq<char> {
    if n < 0 {
        seq!['-'] + decimal_digits((-n) as nat)
    } else {
        decimal_digits(n as nat)
    }
}

/// `n` written in decimal, with a minus sign where it is negative.
pub fn signed_decimal(n: i32) -> (r: String)
    ensures
        r@ == signed_decimal_digits(n as int),
{
    let wide: i64 = n as i64;
    if wide < 0 {
        let mut out = String::from_str("-");
        proof {
            reveal_strlit("-");
            assert("-"@ =~= seq!['-']);
        }
        out.append(decimal((0 - wide) as u64).as_str());
        out
    } else {
        decimal(wide as u64)
    }
}

} // verus!
