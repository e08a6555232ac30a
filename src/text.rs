//! Character-level helpers on identifiers and rendered type text.
use vstd::prelude::*;

verus! {

/// `p` occurs in `s` starting at index `i`.
pub open spec fn matches_at(s: Seq<char>, i: int, p: Seq<char>) -> bool {
    0 <= i && i + p.len() <= s.len() && s.subrange(i, i + p.len()) == p
}

/// `p` occurs somewhere in `s`.
pub open spec fn contains_pat(s: Seq<char>, p: Seq<char>) -> bool {
    exists|i: int| matches_at(s, i, p)
}

/// `s` with every occurrence of `p` taken out, scanning from the left.
pub open spec fn remove_all(s: Seq<char>, p: Seq<char>) -> Seq<char>
    decreases s.len(),
{
    if s.len() == 0 || p.len() == 0 {
        s
    } else if matches_at(s, 0, p) {
        remove_all(s.subrange(p.len() as int, s.len() as int), p)
    } else {
        seq![s[0]] + remove_all(s.drop_first(), p)
    }
}

/// The text after the last occurrence of `p` in `s`, or all of `s` when `p`
/// does not occur.
pub open spec fn split_last(s: Seq<char>, p: Seq<char>) -> Seq<char>
    decreases s.len(),
{
    if s.len() < p.len() || p.len() == 0 {
        s
    } else if matches_at(s, s.len() - p.len(), p) {
        Seq::empty()
    } else {
        split_last(s.drop_last(), p).push(s.last())
    }
}

/// `s` without its double-quote characters.
pub open spec fn without_quotes(s: Seq<char>) -> Seq<char>
    decreases s.len(),
{
    if s.len() == 0 {
        s
    } else if s.last() == '"' {
        without_quotes(s.drop_last())
    } else {
        without_quotes(s.drop_last()).push(s.last())
    }
}

/// Character-wise equality of two strings.
pub fn str_eq(a: &str, b: &str) -> (r: bool)
    ensures
        r == (a@ == b@),
{
    let n = a.unicode_len();
    if n != b.unicode_len() {
        return false;
    }
    let mut i: usize = 0;
    while i < n
        invariant
            n == a@.len(),
            n == b@.len(),
            i <= n,
            forall|k: int| 0 <= k < i ==> a@[k] == b@[k],
        decreases n - i,
    {
        if a.get_char(i) != b.get_char(i) {
            return false;
        }
        i += 1;
    }
    assert(a@ =~= b@);
    true
}

/// Whether `p` occurs in `s` at index `i`.
pub fn matches_at_exec(s: &str, i: usize, p: &str) -> (r: bool)
    ensures
        r == matches_at(s@, i as int, p@),
{
    let n = s.unicode_len();
    let m = p.unicode_len();
    if i > n || m > n - i {
        return false;
    }
    let mut k: usize = 0;
    while k < m
        invariant
            n == s@.len(),
            m == p@.len(),
            i + m <= n,
            k <= m,
            forall|t: int| 0 <= t < k ==> s@[i + t] == p@[t],
        decreases m - k,
    {
        if s.get_char(i + k) != p.get_char(k) {
            assert(s@.subrange(i as int, i + m)[k as int] != p@[k as int]);
            return false;
        }
        k += 1;
    }
    assert(s@.subrange(i as int, i + m) =~= p@);
    true
}

/// Whether `p` occurs anywhere in `s`.
pub fn contains_exec(s: &str, p: &str) -> (r: bool)
    ensures
        r == contains_pat(s@, p@),
{
    let n = s.unicode_len();
    let mut i: usize = 0;
    while i < n
        invariant
            n == s@.len(),
            i <= n,
            forall|j: int| 0 <= j < i ==> !matches_at(s@, j, p@),
        decreases n - i,
    {
        if matches_at_exec(s, i, p) {
            return true;
        }
        i += 1;
    }
    matches_at_exec(s, n, p)
}

/// Every occurrence of `p` taken out of `s`.
pub fn remove_all_exec(s: &str, p: &str) -> (r: String)
    requires
        p@.len() > 0,
    ensures
        r@ == remove_all(s@, p@),
{
    let n = s.unicode_len();
    let m = p.unicode_len();
    let mut out = String::new();
    let mut i: usize = 0;
    assert(s@.subrange(0, n as int) =~= s@);
    assert(out@ + remove_all(s@, p@) =~= remove_all(s@, p@));
    while i < n
        invariant
            n == s@.len(),
            m == p@.len(),
            m > 0,
            i <= n,
            out@ + remove_all(s@.subrange(i as int, n as int), p@) == remove_all(s@, p@),
        decreases n - i,
    {
        let ghost rest = s@.subrange(i as int, n as int);
        if matches_at_exec(s, i, p) {
            assert(rest.subrange(0, m as int) =~= s@.subrange(i as int, i + m));
            assert(rest.subrange(m as int, rest.len() as int) =~= s@.subrange(i + m, n as int));
            i += m;
        } else {
            assert(!matches_at(rest, 0, p@)) by {
                if matches_at(rest, 0, p@) {
                    assert(rest.subrange(0, m as int) =~= s@.subrange(i as int, i + m));
                }
            }
            assert(rest.drop_first() =~= s@.subrange(i + 1, n as int));
            let c = s.substring_char(i, i + 1);
            assert(c@ =~= seq![rest[0]]);
            out.append(c);
            assert(out@ + remove_all(s@.subrange(i + 1, n as int), p@) =~= remove_all(s@, p@));
            i += 1;
        }
    }
    assert(s@.subrange(n as int, n as int) =~= Seq::<char>::empty());
    assert(out@ =~= remove_all(s@, p@));
    out
}

/// The part of `s` after the last occurrence of `p`, or all of `s`.
pub fn split_last_exec<'a>(s: &'a str, p: &str) -> (r: &'a str)
    requires
        p@.len() > 0,
    ensures
        r@ == split_last(s@, p@),
{
    let n = s.unicode_len();
    let m = p.unicode_len();
    let mut j: usize = n;
    assert(s@.subrange(0, n as int) =~= s@);
    assert(s@.subrange(n as int, n as int) =~= Seq::<char>::empty());
    assert(split_last(s@, p@) =~= split_last(s@.subrange(0, n as int), p@) + s@.subrange(n as int, n as int));
    while j >= m
        invariant
            n == s@.len(),
            m == p@.len(),
            m > 0,
            j <= n,
            split_last(s@, p@) == split_last(s@.subrange(0, j as int), p@) + s@.subrange(
                j as int,
                n as int,
            ),
        decreases j,
    {
        let ghost pre = s@.subrange(0, j as int);
        if matches_at_exec(s, j - m, p) {
            assert(pre.subrange(j - m, j as int) =~= s@.subrange(j - m, j as int));
            assert(split_last(pre, p@) =~= Seq::<char>::empty());
            assert(split_last(s@, p@) =~= s@.subrange(j as int, n as int));
            return s.substring_char(j, n);
        }
        assert(!matches_at(pre, pre.len() - m, p@)) by {
            if matches_at(pre, pre.len() - m, p@) {
                assert(pre.subrange(j - m, j as int) =~= s@.subrange(j - m, j as int));
            }
        }
        assert(pre.drop_last() =~= s@.subrange(0, j - 1));
        assert(split_last(pre, p@) == split_last(s@.subrange(0, j - 1), p@).push(pre.last()));
        assert(split_last(s@.subrange(0, j - 1), p@) + s@.subrange(j - 1, n as int) =~= split_last(
            pre,
            p@,
        ) + s@.subrange(j as int, n as int));
        j -= 1;
    }
    assert(split_last(s@.subrange(0, j as int), p@) == s@.subrange(0, j as int));
    assert(s@.subrange(0, j as int) + s@.subrange(j as int, n as int) =~= s@);
    s.substring_char(0, n)
}

/// `name` with its double quotes removed.
pub fn clean_name(name: &str) -> (r: String)
    ensures
        r@ == without_quotes(name@),
{
    let n = name.unicode_len();
    let mut out = String::new();
    let mut i: usize = 0;
    while i < n
        invariant
            n == name@.len(),
            i <= n,
            out@ == without_quotes(name@.subrange(0, i as int)),
        decreases n - i,
    {
        let c = name.get_char(i);
        assert(name@.subrange(0, i + 1).drop_last() =~= name@.subrange(0, i as int));
        if c != '"' {
            let piece = name.substring_char(i, i + 1);
            assert(piece@ =~= seq![c]);
            out.append(piece);
            assert(out@ =~= without_quotes(name@.subrange(0, i + 1)));
        }
        i += 1;
    }
    assert(name@.subrange(0, n as int) =~= name@);
    out
}

/// The last dot-separated segment of a dotted identifier.
pub fn get_simple_name(name: &String) -> (r: &str)
    ensures
        r@ == split_last(name@, "."@),
{
    proof {
        reveal_strlit(".");
    }
    split_last_exec(name.as_str(), ".")
}

/// The rendered type with one layer of `Array<...>` wrapping taken off:
/// when `Array` occurs, every `Array<` and every `>` is removed.
pub open spec fn strip_array(s: Seq<char>) -> Seq<char> {
    if contains_pat(s, "Array"@) {
        remove_all(remove_all(s, "Array<"@), ">"@)
    } else {
        s
    }
}

/// The rendered type with `Map<K, V>` wrapping taken off, keeping the value
/// side: when `Map` occurs, every `Map<` and `>` is removed and the text after
/// the last `, ` is kept.
pub open spec fn strip_map(s: Seq<char>) -> Seq<char> {
    if contains_pat(s, "Map"@) {
        split_last(remove_all(remove_all(s, "Map<"@), ">"@), ", "@)
    } else {
        s
    }
}

pub fn remove_array(s: String) -> (r: String)
    ensures
        r@ == strip_array(s@),
{
    proof {
        reveal_strlit("Array<");
        reveal_strlit(">");
    }
    if contains_exec(s.as_str(), "Array") {
        let a = remove_all_exec(s.as_str(), "Array<");
        remove_all_exec(a.as_str(), ">")
    } else {
        s
    }
}

pub fn remove_map(s: String) -> (r: String)
    ensures
        r@ == strip_map(s@),
{
    proof {
        reveal_strlit("Map<");
        reveal_strlit(">");
        reveal_strlit(", ");
    }
    if contains_exec(s.as_str(), "Map") {
        let a = remove_all_exec(s.as_str(), "Map<");
        let b = remove_all_exec(a.as_str(), ">");
        let c = split_last_exec(b.as_str(), ", ");
        String::from_str(c)
    } else {
        s
    }
}

/// Takes the first element out of `vec`, if there is one.
pub fn remove_first<T>(vec: &mut Vec<T>) -> (r: Option<T>)
    ensures
        old(vec)@.len() == 0 ==> r is None && final(vec)@ == old(vec)@,
        old(vec)@.len() > 0 ==> r == Some(old(vec)@[0]) && final(vec)@ == old(vec)@.drop_first(),
{
    if vec.len() == 0 {
        return None;
    }
    let x = vec.remove(0);
    assert(vec@ =~= old(vec)@.drop_first());
    Some(x)
}

} // verus!
