//! Plain text helpers shared by the engine: decimal rendering and parsing,
//! whitespace trimming and splitting on a separator.

use vstd::prelude::*;
use vstd::string::*;

verus! {

/// The character of a decimal digit `d < 10`.
pub open spec fn digit_char(d: nat) -> char {
    if d == 0 { '0' }
    else if d == 1 { '1' }
    else if d == 2 { '2' }
    else if d == 3 { '3' }
    else if d == 4 { '4' }
    else if d == 5 { '5' }
    else if d == 6 { '6' }
    else if d == 7 { '7' }
    else if d == 8 { '8' }
    else { '9' }
}

/// The shortest decimal notation of `n`.
pub open spec fn decimal_of(n: nat) -> Seq<char>
    decreases n,
{
    if n < 10 {
        seq![digit_char(n)]
    } else {
        decimal_of(n / 10).push(digit_char(n % 10))
    }
}

fn digit_string(d: u64) -> (r: String)
    requires
        d < 10,
    ensures
        r@ == seq![digit_char(d as nat)],
{
    let lit = if d == 0 { "0" }
        else if d == 1 { "1" }
        else if d == 2 { "2" }
        else if d == 3 { "3" }
        else if d == 4 { "4" }
        else if d == 5 { "5" }
        else if d == 6 { "6" }
        else if d == 7 { "7" }
        else if d == 8 { "8" }
        else { "9" };
    proof {
        reveal_strlit("0");
        reveal_strlit("1");
        reveal_strlit("2");
        reveal_strlit("3");
        reveal_strlit("4");
        reveal_strlit("5");
        reveal_strlit("6");
        reveal_strlit("7");
        reveal_strlit("8");
        reveal_strlit("9");
    }
    lit.to_owned()
}

/// Renders `n` in decimal.
pub fn decimal(n: u64) -> (r: String)
    ensures
        r@ == decimal_of(n as nat),
    decreases n,
{
    if n < 10 {
        digit_string(n)
    } else {
        let mut s = decimal(n / 10);
        let last = digit_string(n % 10);
        s.append(last.as_str());
        s
    }
}

/// Whether `c` has the Unicode `White_Space` property.
pub open spec fn is_space(c: char) -> bool {
    let u = c as u32;
    (9 <= u <= 13) || u == 32 || u == 0x85 || u == 0xA0 || u == 0x1680 || (0x2000 <= u <= 0x200A)
        || u == 0x2028 || u == 0x2029 || u == 0x202F || u == 0x205F || u == 0x3000
}

/// Tells whether `c` is white space, as `is_space` defines it.
pub fn space(c: char) -> (r: bool)
    ensures
        r == is_space(c),
{
    let u = c as u32;
    (9 <= u && u <= 13) || u == 32 || u == 0x85 || u == 0xA0 || u == 0x1680 || (0x2000 <= u && u <= 0x200A)
        || u == 0x2028 || u == 0x2029 || u == 0x202F || u == 0x205F || u == 0x3000
}

/// `s` without its leading white space.
pub open spec fn trim_start(s: Seq<char>) -> Seq<char>
    decreases s.len(),
{
    if s.len() > 0 && is_space(s[0]) { trim_start(s.drop_first()) } else { s }
}

/// `s` without its trailing white space.
pub open spec fn trim_end(s: Seq<char>) -> Seq<char>
    decreases s.len(),
{
    if s.len() > 0 && is_space(s.last()) { trim_end(s.drop_last()) } else { s }
}

/// `s` without leading and trailing white space.
pub open spec fn trimmed(s: Seq<char>) -> Seq<char> {
    trim_end(trim_start(s))
}

/// Position of the first `c` in `s`, or its length when there is none.
pub open spec fn first_index(s: Seq<char>, c: char) -> nat
    decreases s.len(),
{
    if s.len() == 0 {
        0
    } else if s[0] == c {
        0
    } else {
        1 + first_index(s.drop_first(), c)
    }
}

/// What follows the last `c` in `s`; all of `s` when it holds none.
pub open spec fn after_last(s: Seq<char>, c: char) -> Seq<char>
    decreases s.len(),
{
    if s.len() == 0 {
        s
    } else if s.last() == c {
        Seq::empty()
    } else {
        after_last(s.drop_last(), c).push(s.last())
    }
}

proof fn lemma_trim_start_skip(s: Seq<char>, i: int)
    requires
        0 <= i <= s.len(),
        forall|k: int| 0 <= k < i ==> is_space(#[trigger] s[k]),
    ensures
        trim_start(s) == trim_start(s.subrange(i, s.len() as int)),
    decreases i,
{
    if i > 0 {
        lemma_trim_start_skip(s.drop_first(), i - 1);
        assert(s.drop_first().subrange(i - 1, s.len() - 1) =~= s.subrange(i, s.len() as int));
    } else {
        assert(s.subrange(0, s.len() as int) =~= s);
    }
}

proof fn lemma_trim_end_skip(s: Seq<char>, j: int)
    requires
        0 <= j <= s.len(),
        forall|k: int| j <= k < s.len() ==> is_space(#[trigger] s[k]),
    ensures
        trim_end(s) == trim_end(s.subrange(0, j)),
    decreases s.len() - j,
{
    if j < s.len() {
        lemma_trim_end_skip(s.drop_last(), j);
        assert(s.drop_last().subrange(0, j) =~= s.subrange(0, j));
    } else {
        assert(s.subrange(0, j) =~= s);
    }
}

proof fn lemma_first_index_skip(s: Seq<char>, c: char, i: int)
    requires
        0 <= i <= s.len(),
        forall|k: int| 0 <= k < i ==> #[trigger] s[k] != c,
    ensures
        first_index(s, c) == i + first_index(s.subrange(i, s.len() as int), c),
        0 <= first_index(s, c) <= s.len(),
    decreases i,
{
    if i > 0 {
        lemma_first_index_skip(s.drop_first(), c, i - 1);
        assert(s.drop_first().subrange(i - 1, s.len() - 1) =~= s.subrange(i, s.len() as int));
    } else {
        assert(s.subrange(0, s.len() as int) =~= s);
    }
    lemma_first_index_bounds(s, c);
}

proof fn lemma_first_index_bounds(s: Seq<char>, c: char)
    ensures
        0 <= first_index(s, c) <= s.len(),
        first_index(s, c) < s.len() ==> s[first_index(s, c) as int] == c,
        forall|k: int| 0 <= k < first_index(s, c) ==> #[trigger] s[k] != c,
    decreases s.len(),
{
    if s.len() > 0 && s[0] != c {
        lemma_first_index_bounds(s.drop_first(), c);
        assert forall|k: int| 0 <= k < first_index(s, c) implies #[trigger] s[k] != c by {
            if k > 0 {
                assert(s[k] == s.drop_first()[k - 1]);
            }
        }
    }
}

/// Position of the first `c` among the characters `from..to` of `s`, or
/// `to` when there is none.
pub fn find_char(s: &str, c: char, from: usize, to: usize) -> (r: usize)
    requires
        from <= to <= s@.len(),
    ensures
        r == from + first_index(s@.subrange(from as int, to as int), c),
        from <= r <= to,
        r < to ==> s@[r as int] == c,
        forall|k: int| from <= k < r ==> #[trigger] s@[k] != c,
{
    let mut i: usize = from;
    while i < to && s.get_char(i) != c
        invariant
            to <= s@.len(),
            from <= i <= to,
            forall|k: int| from <= k < i ==> #[trigger] s@[k] != c,
        decreases to - i,
    {
        i = i + 1;
    }
    proof {
        let t = s@.subrange(from as int, to as int);
        lemma_first_index_skip(t, c, i - from);
        if i < to {
            assert(t.subrange(i - from, t.len() as int)[0] == c);
        } else {
            assert(t.subrange(i - from, t.len() as int).len() == 0);
        }
    }
    i
}

/// The characters `from..to` of `s`, without leading and trailing white
/// space.
pub fn trim_range(s: &str, from: usize, to: usize) -> (r: String)
    requires
        from <= to <= s@.len(),
    ensures
        r@ == trimmed(s@.subrange(from as int, to as int)),
{
    let ghost t = s@.subrange(from as int, to as int);
    let mut a: usize = from;
    while a < to && space(s.get_char(a))
        invariant
            from <= a <= to <= s@.len(),
            forall|k: int| from <= k < a ==> is_space(#[trigger] s@[k]),
        decreases to - a,
    {
        a = a + 1;
    }
    let mut b: usize = to;
    while b > a && space(s.get_char(b - 1))
        invariant
            from <= a <= b <= to <= s@.len(),
            forall|k: int| b <= k < to ==> is_space(#[trigger] s@[k]),
        decreases b,
    {
        b = b - 1;
    }
    proof {
        lemma_trim_start_skip(t, a - from);
        let u = t.subrange(a - from, t.len() as int);
        assert(u =~= s@.subrange(a as int, to as int));
        if a < to {
            assert(!is_space(u[0]));
        }
        assert(trim_start(t) == u);
        lemma_trim_end_skip(u, b - a);
        let v = u.subrange(0, b - a);
        assert(v =~= s@.subrange(a as int, b as int));
        if b > a {
            assert(!is_space(v.last()));
        }
        assert(trim_end(u) == v);
    }
    s.substring_char(a, b).to_owned()
}

/// Whether `a` and `b` hold the same characters.
pub fn same_text(a: &str, b: &str) -> (r: bool)
    ensures
        r == (a@ == b@),
{
    let n = a.unicode_len();
    if n != b.unicode_len() {
        return false;
    }
    let mut i: usize = 0;
    while i < n
        invariant
            n == a@.len() == b@.len(),
            i <= n,
            forall|k: int| 0 <= k < i ==> a@[k] == b@[k],
        decreases n - i,
    {
        if a.get_char(i) != b.get_char(i) {
            return false;
        }
        i = i + 1;
    }
    assert(a@ =~= b@);
    true
}

proof fn lemma_after_last_tail(s: Seq<char>, c: char, i: int)
    requires
        0 <= i <= s.len(),
        forall|k: int| i <= k < s.len() ==> #[trigger] s[k] != c,
        i == 0 || s[i - 1] == c,
    ensures
        after_last(s, c) == s.subrange(i, s.len() as int),
    decreases s.len() - i,
{
    if s.len() > i {
        lemma_after_last_tail(s.drop_last(), c, i);
        assert(s.drop_last().subrange(i, s.len() - 1).push(s.last()) =~= s.subrange(i, s.len() as int));
    } else if s.len() > 0 {
        assert(s.last() == c);
    }
}

/// What follows the last `c` in `s`; all of `s` when it holds none.
pub fn text_after_last(s: &str, c: char) -> (r: String)
    ensures
        r@ == after_last(s@, c),
{
    let n = s.unicode_len();
    let mut i: usize = n;
    while i > 0 && s.get_char(i - 1) != c
        invariant
            n == s@.len(),
            i <= n,
            forall|k: int| i <= k < n ==> #[trigger] s@[k] != c,
        decreases i,
    {
        i = i - 1;
    }
    proof {
        lemma_after_last_tail(s@, c, i as int);
    }
    s.substring_char(i, n).to_owned()
}

/// Length of the longest prefix of `s` whose characters are white space
/// exactly when `space` is true.
pub open spec fn run_len(s: Seq<char>, space: bool) -> nat
    decreases s.len(),
{
    if s.len() > 0 && is_space(s[0]) == space { 1 + run_len(s.drop_first(), space) } else { 0 }
}

/// The words of `s` from position `pos` on: maximal runs of characters
/// that are not white space.
pub open spec fn words_from(s: Seq<char>, pos: int) -> Seq<Seq<char>>
    decreases s.len() - pos,
    when 0 <= pos <= s.len()
{
    let a = pos + run_len(s.subrange(pos, s.len() as int), true);
    if a >= s.len() {
        Seq::empty()
    } else {
        let b0 = a + 1 + run_len(s.subrange(a + 1, s.len() as int), false);
        let b = if b0 <= s.len() { b0 } else { s.len() as int };
        seq![s.subrange(a, b)] + words_from(s, b)
    }
}

/// The words of `s`, as split at white space.
pub open spec fn words_of(s: Seq<char>) -> Seq<Seq<char>> {
    words_from(s, 0)
}

proof fn lemma_run_len_skip(s: Seq<char>, space: bool, i: int)
    requires
        0 <= i <= s.len(),
        forall|k: int| 0 <= k < i ==> is_space(#[trigger] s[k]) == space,
        i == s.len() || is_space(s[i]) != space,
    ensures
        run_len(s, space) == i,
    decreases i,
{
    if i > 0 {
        lemma_run_len_skip(s.drop_first(), space, i - 1);
    }
}

fn skip_run(s: &str, space: bool, from: usize, n: usize) -> (r: usize)
    requires
        n == s@.len(),
        from <= n,
    ensures
        r == from + run_len(s@.subrange(from as int, n as int), space),
        from <= r <= n,
        forall|k: int| from <= k < r ==> is_space(#[trigger] s@[k]) == space,
        r < n ==> is_space(s@[r as int]) != space,
{
    let mut i: usize = from;
    while i < n && crate::text::space(s.get_char(i)) == space
        invariant
            n == s@.len(),
            from <= i <= n,
            forall|k: int| from <= k < i ==> is_space(#[trigger] s@[k]) == space,
        decreases n - i,
    {
        i = i + 1;
    }
    proof {
        let t = s@.subrange(from as int, n as int);
        lemma_run_len_skip(t, space, i - from);
    }
    i
}

/// Splits `s` at white space into its words.
pub fn words(s: &str) -> (r: Vec<String>)
    ensures
        r@.map_values(|w: String| w@) == words_of(s@),
{
    let n = s.unicode_len();
    let mut out: Vec<String> = Vec::new();
    let mut pos: usize = 0;
    loop
        invariant_except_break
            words_of(s@) == out@.map_values(|w: String| w@) + words_from(s@, pos as int),
        invariant
            n == s@.len(),
            pos <= n,
        ensures
            out@.map_values(|w: String| w@) == words_of(s@),
        decreases n - pos,
    {
        let ghost before = out@.map_values(|w: String| w@);
        let a = skip_run(s, true, pos, n);
        if a >= n {
            assert(before + words_from(s@, pos as int) =~= before);
            break;
        }
        let b = skip_run(s, false, a + 1, n);
        proof {
            assert(!is_space(s@[a as int]));
            lemma_run_len_skip(s@.subrange(a as int, n as int), false, b - a);
        }
        out.push(s.substring_char(a, b).to_owned());
        assert(out@.map_values(|w: String| w@) =~= before.push(s@.subrange(a as int, b as int)));
        assert(before.push(s@.subrange(a as int, b as int)) + words_from(s@, b as int)
            =~= before + words_from(s@, pos as int));
        pos = b;
    }
    out
}

} // verus!
