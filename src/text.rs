use vstd::prelude::*;

verus! {

/// Whether `s` and `t` hold the same characters.
pub fn same_text(s: &str, t: &str) -> (r: bool)
    ensures
        r == (s@ == t@),
{
    let n = s.unicode_len();
    let m = t.unicode_len();
    if n != m {
        return false;
    }
    let mut i: usize = 0;
    while i < n
        invariant
            n == s@.len(),
            m == t@.len(),
            n == m,
            i <= n,
            s@.subrange(0, i as int) == t@.subrange(0, i as int),
        decreases n - i,
    {
        if s.get_char(i) != t.get_char(i) {
            assert(s@[i as int] != t@[i as int]);
            return false;
        }
        assert(s@.subrange(0, i + 1) == s@.subrange(0, i as int).push(s@[i as int]));
        assert(t@.subrange(0, i + 1) == t@.subrange(0, i as int).push(t@[i as int]));
        i = i + 1;
    }
    assert(s@ == s@.subrange(0, n as int));
    assert(t@ == t@.subrange(0, n as int));
    true
}

/// Whether `s` begins with `prefix`.
pub fn starts_with(s: &str, prefix: &str) -> (r: bool)
    ensures
        r == (prefix@.len() <= s@.len() && s@.subrange(0, prefix@.len() as int) == prefix@),
{
    let n = s.unicode_len();
    let m = prefix.unicode_len();
    if m > n {
        return false;
    }
    let head = s.substring_char(0, m);
    same_text(head, prefix)
}

/// Position of the last occurrence of `c` in `s`, if any.
pub fn last_index_of(s: &str, c: char) -> (r: Option<usize>)
    ensures
        match r {
            Some(i) => i < s@.len() && s@[i as int] == c && forall|j: int|
                i < j < s@.len() ==> s@[j] != c,
            None => forall|j: int| 0 <= j < s@.len() ==> s@[j] != c,
        },
{
    let n = s.unicode_len();
    let mut i: usize = n;
    while i > 0
        invariant
            n == s@.len(),
            i <= n,
            forall|j: int| i <= j < n ==> s@[j] != c,
        decreases i,
    {
        if s.get_char(i - 1) == c {
            return Some(i - 1);
        }
        i = i - 1;
    }
    None
}

/// Position of the first character of `s` that is one of `a` or `b`, if any.
pub fn first_index_of_either(s: &str, a: char, b: char) -> (r: Option<usize>)
    ensures
        match r {
            Some(i) => i < s@.len() && (s@[i as int] == a || s@[i as int] == b) && forall|j: int|
                0 <= j < i ==> s@[j] != a && s@[j] != b,
            None => forall|j: int| 0 <= j < s@.len() ==> s@[j] != a && s@[j] != b,
        },
{
    let n = s.unicode_len();
    let mut i: usize = 0;
    while i < n
        invariant
            n == s@.len(),
            i <= n,
            forall|j: int| 0 <= j < i ==> s@[j] != a && s@[j] != b,
        decreases n - i,
    {
        let ch = s.get_char(i);
        if ch == a || ch == b {
            return Some(i);
        }
        i = i + 1;
    }
    None
}

/// What follows the last `c` in `s`; all of `s` when it holds no `c`.
pub open spec fn after_last(s: Seq<char>, c: char) -> Seq<char>
    decreases s.len(),
{
    if s.len() == 0 {
        s
    } else if s.last() == c {
        Seq::empty()
    } else {
        after_last(s.drop_last(), c).push(s.last())
    }
}

/// What precedes the first `a` or `b` in `s`; all of `s` when it holds neither.
pub open spec fn before_first(s: Seq<char>, a: char, b: char) -> Seq<char>
    decreases s.len(),
{
    if s.len() == 0 {
        s
    } else if s[0] == a || s[0] == b {
        Seq::empty()
    } else {
        seq![s[0]] + before_first(s.drop_first(), a, b)
    }
}

proof fn lemma_after_last_at(s: Seq<char>, c: char, i: int)
    requires
        0 <= i < s.len(),
        s[i] == c,
        forall|j: int| i < j < s.len() ==> s[j] != c,
    ensures
        after_last(s, c) == s.subrange(i + 1, s.len() as int),
    decreases s.len(),
{
    if s.last() != c {
        lemma_after_last_at(s.drop_last(), c, i);
        assert(s.subrange(i + 1, s.len() as int) =~= s.drop_last().subrange(
            i + 1,
            s.len() - 1,
        ).push(s.last()));
    } else {
        assert(s.subrange(i + 1, s.len() as int) =~= Seq::<char>::empty());
    }
}

proof fn lemma_after_last_absent(s: Seq<char>, c: char)
    requires
        forall|j: int| 0 <= j < s.len() ==> s[j] != c,
    ensures
        after_last(s, c) == s,
    decreases s.len(),
{
    if s.len() > 0 {
        lemma_after_last_absent(s.drop_last(), c);
        assert(s.drop_last().push(s.last()) =~= s);
    }
}

proof fn lemma_before_first_upto(s: Seq<char>, a: char, b: char, i: int)
    requires
        0 <= i <= s.len(),
        forall|j: int| 0 <= j < i ==> s[j] != a && s[j] != b,
        i == s.len() || s[i] == a || s[i] == b,
    ensures
        before_first(s, a, b) == s.subrange(0, i),
    decreases s.len(),
{
    if s.len() > 0 {
        if i == 0 {
            assert(s.subrange(0, 0) =~= Seq::<char>::empty());
        } else {
            lemma_before_first_upto(s.drop_first(), a, b, i - 1);
            assert(s.subrange(0, i) =~= seq![s[0]] + s.drop_first().subrange(0, i - 1));
        }
    } else {
        assert(s.subrange(0, 0) =~= s);
    }
}

/// What follows the last `c` in `s`.
pub fn text_after_last(s: &str, c: char) -> (r: &str)
    ensures
        r@ == after_last(s@, c),
{
    let n = s.unicode_len();
    match last_index_of(s, c) {
        Some(i) => {
            proof {
                lemma_after_last_at(s@, c, i as int);
            }
            s.substring_char(i + 1, n)
        },
        None => {
            proof {
                lemma_after_last_absent(s@, c);
            }
            s.substring_char(0, n)
        },
    }
}

/// What precedes the first `a` or `b` in `s`.
pub fn text_before_first(s: &str, a: char, b: char) -> (r: &str)
    ensures
        r@ == before_first(s@, a, b),
{
    let n = s.unicode_len();
    match first_index_of_either(s, a, b) {
        Some(i) => {
            proof {
                lemma_before_first_upto(s@, a, b, i as int);
            }
            s.substring_char(0, i)
        },
        None => {
            proof {
                lemma_before_first_upto(s@, a, b, n as int);
                assert(s@.subrange(0, n as int) =~= s@);
            }
            s.substring_char(0, n)
        },
    }
}

/// `s` split at its first `c`: what precedes it, and what follows it if there
/// is one.
pub open spec fn split_at_first(s: Seq<char>, c: char) -> (Seq<char>, Option<Seq<char>>)
    decreases s.len(),
{
    if s.len() == 0 {
        (s, None)
    } else if s[0] == c {
        (Seq::empty(), Some(s.drop_first()))
    } else {
        let (h, t) = split_at_first(s.drop_first(), c);
        (seq![s[0]] + h, t)
    }
}

proof fn lemma_split_at_index(s: Seq<char>, c: char, i: int)
    requires
        0 <= i <= s.len(),
        forall|j: int| 0 <= j < i ==> s[j] != c,
        i == s.len() || s[i] == c,
    ensures
        split_at_first(s, c) == (s.subrange(0, i), if i == s.len() {
            None
        } else {
            Some(s.subrange(i + 1, s.len() as int))
        }),
    decreases s.len(),
{
    if s.len() > 0 {
        if i == 0 {
            assert(s.subrange(0, 0) =~= Seq::<char>::empty());
            assert(s.subrange(1, s.len() as int) =~= s.drop_first());
        } else {
            lemma_split_at_index(s.drop_first(), c, i - 1);
            assert(s.subrange(0, i) =~= seq![s[0]] + s.drop_first().subrange(0, i - 1));
            if i < s.len() {
                assert(s.subrange(i + 1, s.len() as int) =~= s.drop_first().subrange(
                    i,
                    s.len() - 1,
                ));
            }
        }
    } else {
        assert(s.subrange(0, 0) =~= s);
    }
}

/// Splitting a text whose head holds no `c` leaves the head in front.
pub proof fn lemma_split_after_plain_head(head: Seq<char>, tail: Seq<char>, c: char)
    requires
        forall|j: int| 0 <= j < head.len() ==> head[j] != c,
    ensures
        split_at_first(head + tail, c) == (head + split_at_first(tail, c).0, split_at_first(
            tail,
            c,
        ).1),
    decreases head.len(),
{
    if head.len() > 0 {
        lemma_split_after_plain_head(head.drop_first(), tail, c);
        assert((head + tail).drop_first() =~= head.drop_first() + tail);
        assert(seq![head[0]] + (head.drop_first() + split_at_first(tail, c).0) =~= head
            + split_at_first(tail, c).0);
    } else {
        assert(head + tail =~= tail);
        assert(head + split_at_first(tail, c).0 =~= split_at_first(tail, c).0);
    }
}

/// Splits `s` at its first `c`.
pub fn split_text_at_first(s: &str, c: char) -> (r: (&str, Option<&str>))
    ensures
        r.0@ == split_at_first(s@, c).0,
        match r.1 {
            Some(t) => split_at_first(s@, c).1 == Some(t@),
            None => split_at_first(s@, c).1 is None,
        },
{
    let n = s.unicode_len();
    match first_index_of_either(s, c, c) {
        Some(i) => {
            proof {
                lemma_split_at_index(s@, c, i as int);
            }
            (s.substring_char(0, i), Some(s.substring_char(i + 1, n)))
        },
        None => {
            proof {
                lemma_split_at_index(s@, c, n as int);
                assert(s@.subrange(0, n as int) =~= s@);
            }
            (s.substring_char(0, n), None)
        },
    }
}

} // verus!
