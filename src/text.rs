use vstd::prelude::*;
use vstd::string::StrSliceExecFns;

verus! {

/// An ASCII upper-case letter.
pub open spec fn is_ascii_upper(c: char) -> bool {
    'A' <= c && c <= 'Z'
}

/// Two characters that are equal once ASCII letters are folded to lower case.
pub open spec fn char_eq_ignore_ascii_case(a: char, b: char) -> bool {
    a == b || (is_ascii_upper(a) && b as u32 == a as u32 + 32) || (is_ascii_upper(b) && a as u32
        == b as u32 + 32)
}

/// Two strings that are equal once ASCII letters are folded to lower case.
pub open spec fn eq_ignore_ascii_case_spec(a: Seq<char>, b: Seq<char>) -> bool {
    a.len() == b.len() && forall|i: int|
        0 <= i < a.len() ==> char_eq_ignore_ascii_case(#[trigger] a[i], b[i])
}

fn char_eq_ignore_ascii_case_exec(a: char, b: char) -> (r: bool)
    ensures
        r == char_eq_ignore_ascii_case(a, b),
{
    let x = a as u32;
    let y = b as u32;
    x == y || ('A' <= a && a <= 'Z' && y == x + 32) || ('A' <= b && b <= 'Z' && x == y + 32)
}

/// Compares two strings, ignoring the case of ASCII letters.
pub fn eq_ignore_ascii_case(a: &str, b: &str) -> (r: bool)
    ensures
        r == eq_ignore_ascii_case_spec(a@, b@),
{
    let n = a.unicode_len();
    if n != b.unicode_len() {
        return false;
    }
    let mut i: usize = 0;
    while i < n
        invariant
            n == a@.len(),
            n == b@.len(),
            i <= n,
            forall|j: int| 0 <= j < i ==> char_eq_ignore_ascii_case(#[trigger] a@[j], b@[j]),
        decreases n - i,
    {
        if !char_eq_ignore_ascii_case_exec(a.get_char(i), b.get_char(i)) {
            return false;
        }
        i = i + 1;
    }
    true
}

/// Compares two strings character by character.
pub fn str_eq(a: &str, b: &str) -> (r: bool)
    ensures
        r == (a@ == b@),
{
    let n = a.unicode_len();
    if n != b.unicode_len() {
        return false;
    }
    let mut i: usize = 0;
    while i < n
        invariant
            n == a@.len(),
            n == b@.len(),
            i <= n,
            forall|j: int| 0 <= j < i ==> #[trigger] a@[j] == b@[j],
        decreases n - i,
    {
        if a.get_char(i) != b.get_char(i) {
            return false;
        }
        i = i + 1;
    }
    assert(a@ =~= b@);
    true
}

/// The parts of `s` between the occurrences of `c`, in order; an empty `s` has one
/// empty part.
pub open spec fn split_spec(s: Seq<char>, c: char) -> Seq<Seq<char>>
    decreases s.len(),
{
    if s.len() == 0 {
        seq![Seq::empty()]
    } else {
        let rest = split_spec(s.drop_last(), c);
        if s.last() == c {
            rest.push(Seq::empty())
        } else {
            rest.update(rest.len() - 1, rest.last().push(s.last()))
        }
    }
}

/// The views of a sequence of strings.
pub open spec fn views(v: Seq<String>) -> Seq<Seq<char>> {
    v.map_values(|p: String| p@)
}

/// Splits `s` at every occurrence of `c`.
pub fn split_char(s: &str, c: char) -> (r: Vec<String>)
    ensures
        views(r@) == split_spec(s@, c),
{
    let n = s.unicode_len();
    let mut parts: Vec<String> = Vec::new();
    let mut start: usize = 0;
    let mut i: usize = 0;
    assert(s@.take(0) =~= Seq::<char>::empty());
    assert(views(parts@).push(s@.subrange(0, 0)) =~= seq![Seq::<char>::empty()]);
    while i < n
        invariant
            n == s@.len(),
            start <= i <= n,
            split_spec(s@.take(i as int), c) == views(parts@).push(s@.subrange(start as int, i as int)),
        decreases n - i,
    {
        let ghost prev = views(parts@);
        assert(s@.take(i + 1).drop_last() =~= s@.take(i as int));
        assert(s@.take(i + 1).last() == s@[i as int]);
        if s.get_char(i) == c {
            let part = s.substring_char(start, i).to_owned();
            assert(part@ == s@.subrange(start as int, i as int));
            parts.push(part);
            assert(views(parts@) =~= prev.push(s@.subrange(start as int, i as int)));
            start = i + 1;
            assert(s@.subrange(i + 1, i + 1) =~= Seq::<char>::empty());
        } else {
            assert(s@.subrange(start as int, i as int).push(s@[i as int]) =~= s@.subrange(
                start as int,
                i + 1,
            ));
            assert(prev.push(s@.subrange(start as int, i as int)).update(
                prev.len() as int,
                s@.subrange(start as int, i + 1),
            ) =~= prev.push(s@.subrange(start as int, i + 1)));
        }
        i = i + 1;
    }
    let last = s.substring_char(start, n).to_owned();
    let ghost prev = views(parts@);
    parts.push(last);
    assert(views(parts@) =~= prev.push(last@));
    assert(s@.take(n as int) =~= s@);
    parts
}

/// The index of the first occurrence of `c` in `s`.
pub fn find_char(s: &str, c: char) -> (r: Option<usize>)
    ensures
        match r {
            Some(k) => k < s@.len() && s@[k as int] == c && forall|j: int|
                0 <= j < k ==> s@[j] != c,
            None => !s@.contains(c),
        },
{
    let n = s.unicode_len();
    let mut i: usize = 0;
    while i < n
        invariant
            n == s@.len(),
            i <= n,
            forall|j: int| 0 <= j < i ==> s@[j] != c,
        decreases n - i,
    {
        if s.get_char(i) == c {
            return Some(i);
        }
        i = i + 1;
    }
    None
}

/// The value of a hive-style segment `name=value` whose name is `name`.
pub open spec fn hive_value(seg: Seq<char>, name: Seq<char>) -> Option<Seq<char>> {
    if !name.contains('=') && seg.len() > name.len() && seg.take(name.len() as int) == name
        && seg[name.len() as int] == '=' {
        Some(seg.skip(name.len() as int + 1))
    } else {
        None
    }
}

/// Splits a hive-style segment at its first `=` and returns the value, if the part
/// before it is `name`.
pub fn hive_segment_value(seg: &str, name: &str) -> (r: Option<String>)
    ensures
        match r {
            Some(v) => hive_value(seg@, name@) == Some(v@),
            None => hive_value(seg@, name@) is None,
        },
{
    match find_char(seg, '=') {
        None => {
            proof {
                if hive_value(seg@, name@) is Some {
                    assert(seg@[name@.len() as int] == '=');
                }
            }
            None
        },
        Some(k) => {
            let key = seg.substring_char(0, k);
            if str_eq(key, name) {
                assert(seg@.take(k as int) =~= key@);
                assert forall|j: int| 0 <= j < name@.len() implies name@[j] != '=' by {
                    assert(name@[j] == seg@[j]);
                }
                let n = seg.unicode_len();
                let value = seg.substring_char(k + 1, n).to_owned();
                assert(value@ =~= seg@.skip(name@.len() as int + 1));
                Some(value)
            } else {
                proof {
                    if hive_value(seg@, name@) is Some {
                        let m = name@.len() as int;
                        if m > k {
                            assert(name@[k as int] == seg@[k as int]);
                        }
                        if m < k {
                            assert(seg@[m] != '=');
                        }
                        assert(key@ =~= seg@.take(m));
                    }
                }
                None
            }
        },
    }
}

} // verus!
