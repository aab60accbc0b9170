//! Character-level text handling: whitespace tokens, quote removal, trimming.

use vstd::prelude::*;

verus! {

/// A white-space character, as Unicode's White_Space property lists them.
pub open spec fn is_space(c: char) -> bool {
    let u = c as u32;
    (9 <= u && u <= 13) || u == 32 || u == 0x85 || u == 0xA0 || u == 0x1680
        || (0x2000 <= u && u <= 0x200A) || u == 0x2028 || u == 0x2029 || u == 0x202F
        || u == 0x205F || u == 0x3000
}

pub fn is_space_char(c: char) -> (r: bool)
    ensures
        r == is_space(c),
{
    let u = c as u32;
    (9 <= u && u <= 13) || u == 32 || u == 0x85 || u == 0xA0 || u == 0x1680
        || (0x2000 <= u && u <= 0x200A) || u == 0x2028 || u == 0x2029 || u == 0x202F
        || u == 0x205F || u == 0x3000
}

/// The maximal runs of non-space characters of `s`, in order.
pub open spec fn tokens_of(s: Seq<char>) -> Seq<Seq<char>>
    decreases s.len(),
{
    if s.len() == 0 {
        Seq::empty()
    } else {
        let pre = s.drop_last();
        let t = tokens_of(pre);
        let c = s.last();
        if is_space(c) {
            t
        } else if pre.len() > 0 && !is_space(pre.last()) {
            t.update(t.len() - 1, t.last().push(c))
        } else {
            t.push(seq![c])
        }
    }
}

/// What a sequence of strings holds, as character sequences.
pub open spec fn views(v: Seq<String>) -> Seq<Seq<char>> {
    v.map_values(|x: String| x@)
}

/// Splits `line` into its whitespace-separated tokens, in order.
pub fn split_tokens(line: &str) -> (r: Vec<String>)
    ensures
        views(r@) == tokens_of(line@),
{
    let ghost s = line@;
    let n = line.unicode_len();
    let mut r: Vec<String> = Vec::new();
    let mut start: usize = 0;
    let mut inside: bool = false;
    let mut i: usize = 0;
    while i < n
        invariant
            n == s.len(),
            s == line@,
            i <= n,
            start <= i,
            inside == (i > 0 && !is_space(s[i - 1])),
            inside ==> start < i && tokens_of(s.take(i as int)) == views(r@).push(
                s.subrange(start as int, i as int),
            ),
            !inside ==> tokens_of(s.take(i as int)) == views(r@),
        decreases n - i,
    {
        let c = line.get_char(i);
        let ghost pre = s.take(i as int);
        assert(s.take(i + 1).drop_last() =~= pre);
        assert(s.take(i + 1).last() == c);
        if is_space_char(c) {
            if inside {
                let tok = String::from_str(line.substring_char(start, i));
                let ghost old_r = r@;
                r.push(tok);
                assert(views(r@) =~= views(old_r).push(tok@));
            }
            inside = false;
        } else {
            if !inside {
                start = i;
                assert(s.subrange(start as int, i + 1) =~= seq![c]);
            } else {
                assert(s.subrange(start as int, i + 1) =~= s.subrange(start as int, i as int).push(
                    c,
                ));
            }
            inside = true;
        }
        i = i + 1;
    }
    assert(s.take(n as int) =~= s);
    if inside {
        let tok = String::from_str(line.substring_char(start, n));
        let ghost old_r = r@;
        r.push(tok);
        assert(views(r@) =~= views(old_r).push(tok@));
    }
    r
}

/// `s` with every double-quote character removed.
pub open spec fn without_quotes(s: Seq<char>) -> Seq<char>
    decreases s.len(),
{
    if s.len() == 0 {
        s
    } else if s.last() == '"' {
        without_quotes(s.drop_last())
    } else {
        without_quotes(s.drop_last()).push(s.last())
    }
}

/// Removes every double-quote character of `s`.
pub fn strip_quotes(s: &str) -> (r: String)
    ensures
        r@ == without_quotes(s@),
{
    let n = s.unicode_len();
    let mut r = String::new();
    let mut i: usize = 0;
    while i < n
        invariant
            n == s@.len(),
            i <= n,
            r@ == without_quotes(s@.take(i as int)),
        decreases n - i,
    {
        let c = s.get_char(i);
        assert(s@.take(i + 1).drop_last() =~= s@.take(i as int));
        if c != '"' {
            r.append(s.substring_char(i, i + 1));
            assert(s@.subrange(i as int, i + 1) =~= seq![c]);
        }
        i = i + 1;
    }
    assert(s@.take(n as int) =~= s@);
    r
}

/// `s` without its leading white space.
pub open spec fn trim_start(s: Seq<char>) -> Seq<char>
    decreases s.len(),
{
    if s.len() > 0 && is_space(s[0]) {
        trim_start(s.drop_first())
    } else {
        s
    }
}

/// `s` without its trailing white space.
pub open spec fn trim_end(s: Seq<char>) -> Seq<char>
    decreases s.len(),
{
    if s.len() > 0 && is_space(s.last()) {
        trim_end(s.drop_last())
    } else {
        s
    }
}

/// `s` without its leading and trailing white space.
pub open spec fn trimmed(s: Seq<char>) -> Seq<char> {
    trim_end(trim_start(s))
}

/// Removes the leading and trailing white space of `s`.
pub fn trim(s: &str) -> (r: String)
    ensures
        r@ == trimmed(s@),
{
    let n = s.unicode_len();
    let mut a: usize = 0;
    assert(s@.subrange(0, n as int) =~= s@);
    while a < n && is_space_char(s.get_char(a))
        invariant
            n == s@.len(),
            a <= n,
            trim_start(s@) == trim_start(s@.subrange(a as int, n as int)),
        decreases n - a,
    {
        assert(s@.subrange(a as int, n as int).drop_first() =~= s@.subrange(a + 1, n as int));
        a = a + 1;
    }
    assert(s@.subrange(0, n as int) =~= s@);
    let mut b: usize = n;
    while b > a && is_space_char(s.get_char(b - 1))
        invariant
            n == s@.len(),
            a <= b <= n,
            trimmed(s@) == trim_end(s@.subrange(a as int, b as int)),
        decreases b,
    {
        assert(s@.subrange(a as int, b as int).drop_last() =~= s@.subrange(a as int, b - 1));
        b = b - 1;
    }
    String::from_str(s.substring_char(a, b))
}

/// The strings of `t` joined by single spaces.
pub open spec fn joined(t: Seq<Seq<char>>) -> Seq<char>
    decreases t.len(),
{
    if t.len() == 0 {
        Seq::empty()
    } else if t.len() == 1 {
        t[0]
    } else {
        joined(t.drop_last()) + seq![' '] + t.last()
    }
}

/// Joins the strings of `v` from index `from` on with single spaces.
pub fn join_from(v: &Vec<String>, from: usize) -> (r: String)
    requires
        from <= v@.len(),
    ensures
        r@ == joined(views(v@).subrange(from as int, v@.len() as int)),
{
    let mut r = String::new();
    let mut k: usize = from;
    let ghost t = views(v@);
    assert(t.subrange(from as int, from as int) =~= Seq::<Seq<char>>::empty());
    while k < v.len()
        invariant
            t == views(v@),
            from <= k <= v@.len(),
            r@ == joined(t.subrange(from as int, k as int)),
        decreases v@.len() - k,
    {
        let ghost part = t.subrange(from as int, k + 1);
        assert(part.drop_last() =~= t.subrange(from as int, k as int));
        assert(part.last() == v@[k as int]@);
        if k > from {
            r.append(" ");
            proof {
                reveal_strlit(" ");
            }
        } else {
            assert(r@ =~= Seq::<char>::empty());
        }
        r.append(v[k].as_str());
        assert(r@ =~= joined(part));
        k = k + 1;
    }
    r
}

} // verus!
