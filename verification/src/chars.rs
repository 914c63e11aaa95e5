//! Character-level string work: copying a string into characters and back,
//! splitting a dotted path, joining path steps, and replacing the first
//! occurrence of a pattern.
use vstd::prelude::*;

verus! {

/// The character sequences of a list of strings.
pub open spec fn views(v: Seq<String>) -> Seq<Seq<char>> {
    v.map_values(|p: String| p@)
}

/// Calls `String::push`: the string afterwards holds its old characters
/// followed by `c`.
#[verifier::external_body]
pub fn push_char(s: &mut String, c: char)
    ensures
        final(s)@ == old(s)@.push(c),
{
    s.push(c);
}

/// The characters of `s`, in order.
pub fn chars_of(s: &str) -> (res: Vec<char>)
    ensures
        res@ == s@,
{
    let n = s.unicode_len();
    let mut res: Vec<char> = Vec::new();
    let mut i: usize = 0;
    while i < n
        invariant
            n == s@.len(),
            i <= n,
            res@ == s@.take(i as int),
        decreases n - i,
    {
        let c = s.get_char(i);
        res.push(c);
        assert(s@.take(i + 1) =~= s@.take(i as int).push(c));
        i = i + 1;
    }
    assert(s@.take(n as int) =~= s@);
    res
}

/// The string made of `cs[from..to]`.
pub fn string_of_range(cs: &Vec<char>, from: usize, to: usize) -> (res: String)
    requires
        from <= to <= cs@.len(),
    ensures
        res@ == cs@.subrange(from as int, to as int),
{
    let mut res = String::new();
    let mut i: usize = from;
    while i < to
        invariant
            from <= i <= to <= cs@.len(),
            res@ == cs@.subrange(from as int, i as int),
        decreases to - i,
    {
        push_char(&mut res, cs[i]);
        assert(cs@.subrange(from as int, i + 1) =~= cs@.subrange(from as int, i as int).push(
            cs@[i as int],
        ));
        i = i + 1;
    }
    res
}

/// The string made of all of `cs`.
pub fn string_of(cs: &Vec<char>) -> (res: String)
    ensures
        res@ == cs@,
{
    let res = string_of_range(cs, 0, cs.len());
    assert(cs@.subrange(0, cs@.len() as int) =~= cs@);
    res
}

/// No character of `s` is a dot.
pub open spec fn dot_free(s: Seq<char>) -> bool {
    forall|i: int| 0 <= i < s.len() ==> s[i] != '.'
}

/// The position of the first dot of `s`, or its length when it has none.
pub open spec fn first_dot(s: Seq<char>) -> int
    decreases s.len(),
{
    if s.len() == 0 {
        0
    } else if s[0] == '.' {
        0
    } else {
        1 + first_dot(s.drop_first())
    }
}

/// `first_dot` is the length of the dot-free prefix.
pub proof fn lemma_first_dot(s: Seq<char>, k: int)
    requires
        0 <= k <= s.len(),
        dot_free(s.take(k)),
        k == s.len() || s[k] == '.',
    ensures
        first_dot(s) == k,
    decreases s.len(),
{
    if s.len() > 0 && k > 0 {
        assert(s.take(k)[0] == s[0]);
        let t = s.drop_first();
        assert forall|i: int| 0 <= i < k - 1 implies #[trigger] t.take(k - 1)[i] != '.' by {
            assert(t.take(k - 1)[i] == s.take(k)[i + 1]);
        }
        if k < s.len() {
            assert(t[k - 1] == s[k]);
        }
        lemma_first_dot(t, k - 1);
    }
}

/// `first_dot` lies within `s`.
pub proof fn lemma_first_dot_bounds(s: Seq<char>)
    ensures
        0 <= first_dot(s) <= s.len(),
    decreases s.len(),
{
    if s.len() > 0 && s[0] != '.' {
        lemma_first_dot_bounds(s.drop_first());
    }
}

/// The pieces of `s` between its dots, as `str::split('.')` yields them.
pub open spec fn split_dots(s: Seq<char>) -> Seq<Seq<char>>
    decreases s.len(),
{
    let k = first_dot(s);
    if k < 0 || k >= s.len() {
        seq![s]
    } else {
        seq![s.take(k)] + split_dots(s.skip(k + 1))
    }
}

/// Splits `s` at every dot.
pub fn split_path(s: &str) -> (res: Vec<String>)
    ensures
        views(res@) == split_dots(s@),
{
    let cs = chars_of(s);
    let n = cs.len();
    let mut parts: Vec<String> = Vec::new();
    let mut start: usize = 0;
    let mut i: usize = 0;
    assert(cs@.skip(0) =~= cs@);
    assert(views(parts@) =~= Seq::<Seq<char>>::empty());
    assert(cs@.subrange(0, 0) =~= Seq::<char>::empty());
    while i < n
        invariant
            n == cs@.len(),
            cs@ == s@,
            start <= i <= n,
            dot_free(cs@.subrange(start as int, i as int)),
            split_dots(cs@) == views(parts@) + split_dots(cs@.skip(start as int)),
        decreases n - i,
    {
        if cs[i] == '.' {
            let piece = string_of_range(&cs, start, i);
            proof {
                let t = cs@.skip(start as int);
                let k = (i - start) as int;
                assert(t.take(k) =~= cs@.subrange(start as int, i as int));
                assert(t[k] == cs@[i as int]);
                lemma_first_dot(t, k);
                assert(t.skip(k + 1) =~= cs@.skip(i + 1));
                assert(split_dots(t) == seq![t.take(k)] + split_dots(t.skip(k + 1)));
            }
            let ghost old_parts = parts@;
            parts.push(piece);
            proof {
                assert(views(parts@) =~= views(old_parts).push(piece@));
                assert(views(parts@) + split_dots(cs@.skip(i + 1)) =~= views(old_parts) + (seq![
                    piece@,
                ] + split_dots(cs@.skip(i + 1))));
                assert(cs@.subrange(i + 1, i + 1) =~= Seq::<char>::empty());
            }
            start = i + 1;
        } else {
            assert(cs@.subrange(start as int, i + 1) =~= cs@.subrange(start as int, i as int).push(
                cs@[i as int],
            ));
        }
        i = i + 1;
    }
    let last = string_of_range(&cs, start, n);
    proof {
        let t = cs@.skip(start as int);
        assert(t =~= cs@.subrange(start as int, n as int));
        assert(t.take(t.len() as int) =~= t);
        lemma_first_dot(t, t.len() as int);
    }
    let ghost old_parts = parts@;
    parts.push(last);
    assert(views(parts@) =~= views(old_parts).push(last@));
    parts
}

/// The pieces of `parts` put back together with a dot between neighbours.
pub open spec fn join_dots(parts: Seq<Seq<char>>) -> Seq<char>
    decreases parts.len(),
{
    if parts.len() == 0 {
        Seq::empty()
    } else if parts.len() == 1 {
        parts[0]
    } else {
        join_dots(parts.drop_last()) + seq!['.'] + parts.last()
    }
}

/// Joins `parts[start..]` with dots, as `[&str]::join(".")` does.
pub fn join_path_from(parts: &Vec<String>, start: usize) -> (res: String)
    requires
        start <= parts@.len(),
    ensures
        res@ == join_dots(views(parts@).skip(start as int)),
{
    let mut res = String::new();
    let mut j: usize = start;
    while j < parts.len()
        invariant
            start <= j <= parts@.len(),
            res@ == join_dots(views(parts@).subrange(start as int, j as int)),
        decreases parts.len() - j,
    {
        let ghost before = views(parts@).subrange(start as int, j as int);
        if j > start {
            res.append(".");
            proof {
                reveal_strlit(".");
            }
        }
        res.append(parts[j].as_str());
        proof {
            let after = views(parts@).subrange(start as int, j + 1);
            assert(after.drop_last() =~= before);
            assert(after.last() == parts@[j as int]@);
            if j == start {
                assert(after.len() == 1);
                assert(res@ =~= join_dots(after));
            } else {
                assert(res@ =~= join_dots(after));
            }
        }
        j = j + 1;
    }
    assert(views(parts@).subrange(start as int, parts@.len() as int) =~= views(parts@).skip(
        start as int,
    ));
    res
}

/// Joining a piece onto a non-empty list puts a dot after it.
pub proof fn lemma_join_dots_cons(a: Seq<char>, rest: Seq<Seq<char>>)
    requires
        rest.len() >= 1,
    ensures
        join_dots(seq![a] + rest) == a + seq!['.'] + join_dots(rest),
    decreases rest.len(),
{
    let all = seq![a] + rest;
    if rest.len() == 1 {
        assert(all.drop_last() =~= seq![a]);
        assert(all.last() == rest[0]);
        assert(join_dots(seq![a]) == a);
        assert(join_dots(rest) == rest[0]);
        assert(join_dots(all) == join_dots(all.drop_last()) + seq!['.'] + all.last());
    } else {
        assert(all.drop_last() =~= seq![a] + rest.drop_last());
        lemma_join_dots_cons(a, rest.drop_last());
        assert(all.last() == rest.last());
        assert(join_dots(all) =~= a + seq!['.'] + join_dots(rest));
    }
}

/// Splitting at dots never gives an empty list.
pub proof fn lemma_split_dots_nonempty(s: Seq<char>)
    ensures
        split_dots(s).len() >= 1,
    decreases s.len(),
{
    lemma_first_dot_bounds(s);
    let k = first_dot(s);
    if k < s.len() {
        lemma_split_dots_nonempty(s.skip(k + 1));
    }
}

/// `first_dot` finds a dot, and no dot before it.
pub proof fn lemma_first_dot_is_dot(s: Seq<char>)
    ensures
        first_dot(s) < s.len() ==> s[first_dot(s)] == '.',
        forall|i: int| 0 <= i < first_dot(s) && i < s.len() ==> s[i] != '.',
    decreases s.len(),
{
    lemma_first_dot_bounds(s);
    if s.len() > 0 && s[0] != '.' {
        let t = s.drop_first();
        lemma_first_dot_is_dot(t);
        lemma_first_dot_bounds(t);
        if first_dot(s) < s.len() {
            assert(s[first_dot(s)] == t[first_dot(t)]);
        }
        assert forall|i: int| 0 <= i < first_dot(s) && i < s.len() implies s[i] != '.' by {
            if i > 0 {
                assert(s[i] == t[i - 1]);
            }
        }
    }
}

/// Joining the pieces of a split with dots gives back the string.
pub proof fn lemma_join_split(s: Seq<char>)
    ensures
        join_dots(split_dots(s)) == s,
    decreases s.len(),
{
    lemma_first_dot_bounds(s);
    lemma_first_dot_is_dot(s);
    let k = first_dot(s);
    if k >= s.len() {
        assert(split_dots(s) == seq![s]);
    } else {
        let rest = split_dots(s.skip(k + 1));
        lemma_split_dots_nonempty(s.skip(k + 1));
        lemma_join_split(s.skip(k + 1));
        lemma_join_dots_cons(s.take(k), rest);
        assert(s =~= s.take(k) + seq!['.'] + s.skip(k + 1));
    }
}

/// `pat` stands in `text` at position `i`.
pub open spec fn occurs_at(text: Seq<char>, pat: Seq<char>, i: int) -> bool {
    0 <= i && i + pat.len() <= text.len() && text.subrange(i, i + pat.len()) == pat
}

/// The leftmost position where `pat` stands in `text`, if any.
pub open spec fn first_occurrence(text: Seq<char>, pat: Seq<char>) -> Option<int> {
    if exists|i: int| occurs_at(text, pat, i) {
        Some(
            choose|i: int|
                occurs_at(text, pat, i) && forall|j: int| 0 <= j < i ==> !occurs_at(text, pat, j),
        )
    } else {
        None
    }
}

/// `text` with the leftmost occurrence of `pat` replaced by `to`, as
/// `str::replacen(pat, to, 1)` gives it.
pub open spec fn replace_first_spec(text: Seq<char>, pat: Seq<char>, to: Seq<char>) -> Seq<char> {
    match first_occurrence(text, pat) {
        Some(i) => text.take(i) + to + text.skip(i + pat.len()),
        None => text,
    }
}

proof fn lemma_first_occurrence(text: Seq<char>, pat: Seq<char>, i: int)
    requires
        occurs_at(text, pat, i),
        forall|j: int| 0 <= j < i ==> !occurs_at(text, pat, j),
    ensures
        first_occurrence(text, pat) == Some(i),
{
    let k = choose|k: int|
        occurs_at(text, pat, k) && forall|j: int| 0 <= j < k ==> !occurs_at(text, pat, j);
    assert(occurs_at(text, pat, k) && forall|j: int| 0 <= j < k ==> !occurs_at(text, pat, j));
    if k < i {
        assert(!occurs_at(text, pat, k));
    }
    if i < k {
        assert(!occurs_at(text, pat, i));
    }
}

/// Whether `pat` stands in `cs` at position `i`.
fn matches_at(cs: &Vec<char>, ps: &Vec<char>, i: usize) -> (res: bool)
    requires
        i + ps@.len() <= cs@.len(),
    ensures
        res == occurs_at(cs@, ps@, i as int),
{
    let m = ps.len();
    let n = cs.len();
    let mut k: usize = 0;
    while k < m
        invariant
            m == ps@.len(),
            n == cs@.len(),
            i + m <= cs@.len(),
            k <= m,
            forall|t: int| 0 <= t < k ==> cs@[i + t] == ps@[t],
        decreases m - k,
    {
        if cs[i + k] != ps[k] {
            assert(cs@.subrange(i as int, i + m)[k as int] != ps@[k as int]);
            return false;
        }
        k = k + 1;
    }
    assert(cs@.subrange(i as int, i + m) =~= ps@);
    true
}

/// Replaces the leftmost occurrence of `pat` in `text` by `to`.
pub fn replace_first(text: &str, pat: &str, to: &str) -> (res: String)
    ensures
        res@ == replace_first_spec(text@, pat@, to@),
{
    let cs = chars_of(text);
    let ps = chars_of(pat);
    let n = cs.len();
    let m = ps.len();
    if m > n {
        assert(!exists|i: int| occurs_at(text@, pat@, i));
        return String::from_str(text);
    }
    let last = n - m;
    let mut i: usize = 0;
    loop
        invariant_except_break
            i <= last,
        invariant
            n == cs@.len(),
            m == ps@.len(),
            m <= n,
            last == n - m,
            cs@ == text@,
            ps@ == pat@,
            forall|j: int| 0 <= j < i ==> !occurs_at(text@, pat@, j),
        ensures
            forall|j: int| 0 <= j <= last ==> !occurs_at(text@, pat@, j),
        decreases last - i,
    {
        if matches_at(&cs, &ps, i) {
            proof {
                lemma_first_occurrence(text@, pat@, i as int);
            }
            let mut res = string_of_range(&cs, 0, i);
            res.append(to);
            let tail = string_of_range(&cs, i + m, n);
            res.append(tail.as_str());
            assert(res@ =~= text@.take(i as int) + to@ + text@.skip(i + m));
            return res;
        }
        if i == last {
            break;
        }
        i = i + 1;
    }
    assert forall|j: int| !occurs_at(text@, pat@, j) by {
        if 0 <= j && j + m <= n {
            assert(j <= last);
        }
    }
    String::from_str(text)
}

} // verus!
