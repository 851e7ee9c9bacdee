use vstd::prelude::*;
use vstd::string::*;

verus! {

/// The number of `c` characters in `s`.
pub open spec fn char_count(s: Seq<char>, c: char) -> nat
    decreases s.len(),
{
    if s.len() == 0 {
        0
    } else {
        char_count(s.drop_last(), c) + if s.last() == c { 1nat } else { 0nat }
    }
}

/// The position of the `n`-th `c` in `s`, counting from zero, when `s` has one.
pub open spec fn is_nth_char(s: Seq<char>, c: char, n: nat, i: int) -> bool {
    0 <= i < s.len() && s[i] == c && char_count(s.subrange(0, i), c) == n
}

/// What follows the `n`-th `c` of `s` (counting from zero).
pub open spec fn after_nth_char(s: Seq<char>, c: char, n: nat) -> Seq<char> {
    let i = choose|i: int| is_nth_char(s, c, n, i);
    s.subrange(i + 1, s.len() as int)
}

pub proof fn lemma_char_count_step(s: Seq<char>, c: char, i: int)
    requires
        0 <= i < s.len(),
    ensures
        char_count(s.subrange(0, i + 1), c) == char_count(s.subrange(0, i), c) + if s[i] == c { 1nat } else { 0nat },
{
    assert(s.subrange(0, i + 1).drop_last() =~= s.subrange(0, i));
}

/// The `n`-th `c` in `s` is at one position at most.
pub proof fn lemma_nth_char_unique(s: Seq<char>, c: char, n: nat, i: int, j: int)
    requires
        is_nth_char(s, c, n, i),
        is_nth_char(s, c, n, j),
    ensures
        i == j,
    decreases s.len(),
{
    if i < j {
        lemma_char_count_monotone(s, c, i + 1, j);
        lemma_char_count_step(s, c, i);
    } else if j < i {
        lemma_char_count_monotone(s, c, j + 1, i);
        lemma_char_count_step(s, c, j);
    }
}

pub proof fn lemma_char_count_monotone(s: Seq<char>, c: char, a: int, b: int)
    requires
        0 <= a <= b <= s.len(),
    ensures
        char_count(s.subrange(0, a), c) <= char_count(s.subrange(0, b), c),
    decreases b - a,
{
    if a < b {
        lemma_char_count_monotone(s, c, a, b - 1);
        lemma_char_count_step(s, c, b - 1);
    }
}

/// Counts the `c` characters of `s`.
pub fn count_char(s: &str, c: char) -> (n: usize)
    ensures
        n == char_count(s@, c),
{
    let len = s.unicode_len();
    let mut i: usize = 0;
    let mut n: usize = 0;
    while i < len
        invariant
            len == s@.len(),
            i <= len,
            n == char_count(s@.subrange(0, i as int), c),
            n <= i,
        decreases len - i,
    {
        proof {
            lemma_char_count_step(s@, c, i as int);
        }
        if s.get_char(i) == c {
            n = n + 1;
        }
        i = i + 1;
    }
    assert(s@.subrange(0, len as int) =~= s@);
    n
}

/// The position of the `n`-th `c` in `s` (counting from zero).
pub fn find_nth_char(s: &str, c: char, n: usize) -> (r: Option<usize>)
    ensures
        r matches Some(i) ==> is_nth_char(s@, c, n as nat, i as int),
        r is None ==> char_count(s@, c) <= n,
{
    let len = s.unicode_len();
    let mut i: usize = 0;
    let mut seen: usize = 0;
    while i < len
        invariant
            len == s@.len(),
            i <= len,
            seen == char_count(s@.subrange(0, i as int), c),
            seen <= n,
        decreases len - i,
    {
        proof {
            lemma_char_count_step(s@, c, i as int);
        }
        if s.get_char(i) == c {
            if seen == n {
                return Some(i);
            }
            seen = seen + 1;
        }
        i = i + 1;
    }
    assert(s@.subrange(0, len as int) =~= s@);
    None
}

/// What follows the `n`-th `c` of `s`, when `s` has that many.
pub fn text_after_nth(s: &str, c: char, n: usize) -> (r: Option<String>)
    ensures
        r is None <==> char_count(s@, c) <= n,
        r matches Some(t) ==> t@ == after_nth_char(s@, c, n as nat),
{
    match find_nth_char(s, c, n) {
        Some(i) => {
            proof {
                let j = choose|j: int| is_nth_char(s@, c, n as nat, j);
                lemma_nth_char_unique(s@, c, n as nat, i as int, j);
                lemma_char_count_monotone(s@, c, i as int + 1, s@.len() as int);
                lemma_char_count_step(s@, c, i as int);
                assert(s@.subrange(0, s@.len() as int) =~= s@);
            }
            let len = s.unicode_len();
            Some(String::from_str(s.substring_char(i + 1, len)))
        },
        None => None,
    }
}

/// Whether `s` ends with `suffix`.
pub fn ends_with(s: &str, suffix: &str) -> (r: bool)
    ensures
        r == (suffix@.len() <= s@.len() && s@.subrange(s@.len() - suffix@.len(), s@.len() as int) == suffix@),
{
    let len = s.unicode_len();
    let slen = suffix.unicode_len();
    if slen > len {
        return false;
    }
    let offset = len - slen;
    let mut i: usize = 0;
    while i < slen
        invariant
            len == s@.len(),
            slen == suffix@.len(),
            offset == len - slen,
            i <= slen,
            forall|j: int| 0 <= j < i ==> s@[offset + j] == suffix@[j],
        decreases slen - i,
    {
        if s.get_char(offset + i) != suffix.get_char(i) {
            assert(s@.subrange(offset as int, len as int)[i as int] != suffix@[i as int]);
            return false;
        }
        i = i + 1;
    }
    assert(s@.subrange(offset as int, len as int) =~= suffix@);
    true
}

/// `a` followed by `b`.
pub fn join2(a: &str, b: &str) -> (r: String)
    ensures
        r@ == a@ + b@,
{
    let mut r = String::from_str(a);
    r.append(b);
    r
}

/// `a`, a dot, then `b`.
pub fn join_dot(a: &str, b: &str) -> (r: String)
    ensures
        r@ == a@ + seq!['.'] + b@,
{
    let mut r = String::from_str(a);
    proof {
        reveal_strlit(".");
    }
    r.append(".");
    r.append(b);
    r
}

/// A dot, then `a`.
pub fn dot_prefixed(a: &str) -> (r: String)
    ensures
        r@ == seq!['.'] + a@,
{
    proof {
        reveal_strlit(".");
    }
    let mut r = String::from_str(".");
    r.append(a);
    r
}

} // verus!

verus! {

/// Whether `a` and `b` hold the same characters.
pub fn same_text(a: &str, b: &str) -> (r: bool)
    ensures
        r == (a@ == b@),
{
    let n = a.unicode_len();
    if n != b.unicode_len() {
        return false;
    }
    let mut i: usize = 0;
    while i < n
        invariant
            n == a@.len(),
            n == b@.len(),
            i <= n,
            forall|j: int| 0 <= j < i ==> a@[j] == b@[j],
        decreases n - i,
    {
        if a.get_char(i) != b.get_char(i) {
            return false;
        }
        i = i + 1;
    }
    assert(a@ =~= b@);
    true
}

} // verus!

verus! {

/// What precedes the `n`-th `c` of `s` (counting from zero).
pub open spec fn before_nth_char(s: Seq<char>, c: char, n: nat) -> Seq<char> {
    let i = choose|i: int| is_nth_char(s, c, n, i);
    s.subrange(0, i)
}

/// What precedes the `n`-th `c` of `s`, when `s` has that many.
pub fn text_before_nth(s: &str, c: char, n: usize) -> (r: Option<String>)
    ensures
        r is None <==> char_count(s@, c) <= n,
        r matches Some(t) ==> t@ == before_nth_char(s@, c, n as nat),
{
    match find_nth_char(s, c, n) {
        Some(i) => {
            proof {
                let j = choose|j: int| is_nth_char(s@, c, n as nat, j);
                lemma_nth_char_unique(s@, c, n as nat, i as int, j);
                lemma_char_count_monotone(s@, c, i as int + 1, s@.len() as int);
                lemma_char_count_step(s@, c, i as int);
                assert(s@.subrange(0, s@.len() as int) =~= s@);
            }
            Some(String::from_str(s.substring_char(0, i)))
        },
        None => None,
    }
}

} // verus!

verus! {

/// The position of the `n`-th `c` in `s` (counting from zero).
pub open spec fn nth_char_pos(s: Seq<char>, c: char, n: nat) -> int {
    choose|i: int| is_nth_char(s, c, n, i)
}

/// The `n`-th part of `s` split at each `c` (counting from zero), when `s` has
/// at least `n` of them.
pub open spec fn split_part(s: Seq<char>, c: char, n: nat) -> Seq<char> {
    let start = if n == 0 { 0 } else { nth_char_pos(s, c, (n - 1) as nat) + 1 };
    let end = if n < char_count(s, c) { nth_char_pos(s, c, n) } else { s.len() as int };
    s.subrange(start, end)
}

/// The `n`-th and the `n + 1`-th `c` come in that order.
pub proof fn lemma_nth_char_order(s: Seq<char>, c: char, n: nat, i: int, j: int)
    requires
        is_nth_char(s, c, n, i),
        is_nth_char(s, c, n + 1, j),
    ensures
        i < j,
{
    if j <= i {
        lemma_char_count_monotone(s, c, j, i);
    }
}

/// The `n`-th part of `s` split at each `c`, when `s` has at least `n` of them.
pub fn text_split_part(s: &str, c: char, n: usize) -> (r: Option<String>)
    ensures
        r is None <==> char_count(s@, c) < n,
        r matches Some(t) ==> t@ == split_part(s@, c, n as nat),
{
    let len = s.unicode_len();
    let start: usize = if n == 0 {
        0
    } else {
        match find_nth_char(s, c, n - 1) {
            Some(i) => {
                proof {
                    let k = nth_char_pos(s@, c, (n - 1) as nat);
                    lemma_nth_char_unique(s@, c, (n - 1) as nat, i as int, k);
                    lemma_char_count_step(s@, c, i as int);
                    lemma_char_count_monotone(s@, c, i as int + 1, s@.len() as int);
                    assert(s@.subrange(0, s@.len() as int) =~= s@);
                }
                i + 1
            },
            None => {
                return None;
            },
        }
    };
    let end: usize = match find_nth_char(s, c, n) {
        Some(j) => {
            proof {
                let k = nth_char_pos(s@, c, n as nat);
                lemma_nth_char_unique(s@, c, n as nat, j as int, k);
                lemma_char_count_step(s@, c, j as int);
                lemma_char_count_monotone(s@, c, j as int + 1, s@.len() as int);
                assert(s@.subrange(0, s@.len() as int) =~= s@);
                if n > 0 {
                    lemma_nth_char_order(s@, c, (n - 1) as nat, start - 1, j as int);
                }
            }
            j
        },
        None => len,
    };
    Some(String::from_str(s.substring_char(start, end)))
}

} // verus!
