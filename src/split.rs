//! Splitting a line into fields by a literal delimiter, and picking a field.
use vstd::prelude::*;
use vstd::std_specs::iter::IteratorSpec;
use vstd::string::StrSliceExecFns;

verus! {

/// `d` stands in `s` at position `i`.
pub open spec fn occurs_at(s: Seq<char>, d: Seq<char>, i: int) -> bool {
    0 <= i && i + d.len() <= s.len() && s.subrange(i, i + d.len()) == d
}

/// `d` stands somewhere in `s`.
pub open spec fn occurs_in(s: Seq<char>, d: Seq<char>) -> bool {
    exists|i: int| occurs_at(s, d, i)
}

/// The first position at or after `i` where `d` stands in `s`, or -1.
pub open spec fn find_from(s: Seq<char>, d: Seq<char>, i: int) -> int
    decreases s.len() + 1 - i,
{
    if i < 0 || i + d.len() > s.len() {
        -1
    } else if s.subrange(i, i + d.len()) == d {
        i
    } else {
        find_from(s, d, i + 1)
    }
}

/// The fields of `s` between the matches of `d`, in order. An empty
/// delimiter matches at every character boundary, both ends included.
pub open spec fn split_spec(s: Seq<char>, d: Seq<char>) -> Seq<Seq<char>>
    decreases s.len(),
{
    if d.len() == 0 {
        seq![Seq::<char>::empty()] + s.map_values(|c: char| seq![c]) + seq![Seq::<char>::empty()]
    } else {
        let k = find_from(s, d, 0);
        if 0 <= k && k + d.len() <= s.len() {
            seq![s.subrange(0, k)] + split_spec(s.subrange(k + d.len(), s.len() as int), d)
        } else {
            seq![s]
        }
    }
}

/// The fields of `parts` put back together with `d` between neighbours.
pub open spec fn join_spec(parts: Seq<Seq<char>>, d: Seq<char>) -> Seq<char>
    decreases parts.len(),
{
    if parts.len() == 0 {
        Seq::empty()
    } else if parts.len() == 1 {
        parts[0]
    } else {
        parts[0] + d + join_spec(parts.drop_first(), d)
    }
}

/// The views of a sequence of string slices.
pub open spec fn views(v: Seq<&str>) -> Seq<Seq<char>> {
    v.map_values(|p: &str| p@)
}

proof fn lemma_find_from_range(s: Seq<char>, d: Seq<char>, i: int)
    requires
        0 <= i,
    ensures
        find_from(s, d, i) == -1 || (i <= find_from(s, d, i) && occurs_at(s, d, find_from(s, d, i))),
        find_from(s, d, i) == -1 ==> forall|j: int| i <= j ==> !occurs_at(s, d, j),
        find_from(s, d, i) != -1 ==> forall|j: int|
            i <= j < find_from(s, d, i) ==> !occurs_at(s, d, j),
    decreases s.len() + 1 - i,
{
    if i + d.len() > s.len() {
    } else if s.subrange(i, i + d.len()) == d {
    } else {
        lemma_find_from_range(s, d, i + 1);
    }
}

/// Splitting always yields at least one field.
pub proof fn lemma_split_nonempty(s: Seq<char>, d: Seq<char>)
    ensures
        split_spec(s, d).len() >= 1,
    decreases s.len(),
{
    if d.len() != 0 {
        let k = find_from(s, d, 0);
        if 0 <= k && k + d.len() <= s.len() {
            lemma_split_nonempty(s.subrange(k + d.len(), s.len() as int), d);
        }
    }
}

/// Splitting a text in which the delimiter does not occur yields the
/// whole text as the one field.
pub proof fn lemma_split_without_delimiter(s: Seq<char>, d: Seq<char>)
    requires
        !occurs_in(s, d),
    ensures
        split_spec(s, d) == seq![s],
{
    if d.len() == 0 {
        assert(s.subrange(0, 0) =~= d);
        assert(occurs_at(s, d, 0));
    } else {
        lemma_find_from_range(s, d, 0);
        let k = find_from(s, d, 0);
        if k != -1 {
            assert(occurs_at(s, d, k));
        }
    }
}

proof fn lemma_join_chars(t: Seq<char>)
    ensures
        join_spec(t.map_values(|c: char| seq![c]) + seq![Seq::<char>::empty()], Seq::empty()) == t,
    decreases t.len(),
{
    let parts = t.map_values(|c: char| seq![c]) + seq![Seq::<char>::empty()];
    if t.len() == 0 {
        assert(parts.len() == 1);
    } else {
        let rest = t.drop_first();
        lemma_join_chars(rest);
        assert(parts.drop_first() =~= rest.map_values(|c: char| seq![c]) + seq![Seq::<char>::empty()]);
        assert(parts[0] == seq![t[0]]);
        assert(t =~= seq![t[0]] + Seq::<char>::empty() + rest);
    }
}

/// Joining the fields of a split with its delimiter gives back the text.
pub proof fn lemma_split_join(s: Seq<char>, d: Seq<char>)
    ensures
        join_spec(split_spec(s, d), d) == s,
    decreases s.len(),
{
    if d.len() == 0 {
        let tail = s.map_values(|c: char| seq![c]) + seq![Seq::<char>::empty()];
        let parts = seq![Seq::<char>::empty()] + tail;
        assert(split_spec(s, d) =~= parts);
        lemma_join_chars(s);
        assert(parts.drop_first() =~= tail);
        assert(Seq::<char>::empty() + d + s =~= s);
    } else {
        let k = find_from(s, d, 0);
        lemma_find_from_range(s, d, 0);
        if 0 <= k && k + d.len() <= s.len() {
            let rest = s.subrange(k + d.len(), s.len() as int);
            lemma_split_join(rest, d);
            lemma_split_nonempty(rest, d);
            let parts = seq![s.subrange(0, k)] + split_spec(rest, d);
            assert(parts.drop_first() =~= split_spec(rest, d));
            assert(s =~= s.subrange(0, k) + d + rest);
        }
    }
}

proof fn lemma_find_first(s: Seq<char>, d: Seq<char>, i: int, k: int)
    requires
        0 <= i <= k,
        occurs_at(s, d, k),
        forall|j: int| i <= j < k ==> !occurs_at(s, d, j),
    ensures
        find_from(s, d, i) == k,
    decreases k - i,
{
    if i < k {
        assert(!occurs_at(s, d, i));
        lemma_find_first(s, d, i + 1, k);
    }
}

proof fn lemma_occurs_in_suffix(s: Seq<char>, d: Seq<char>, start: int, j: int)
    requires
        0 <= start <= s.len(),
        0 <= j,
    ensures
        occurs_at(s.subrange(start, s.len() as int), d, j) == occurs_at(s, d, start + j),
{
    let sub = s.subrange(start, s.len() as int);
    if j + d.len() <= sub.len() {
        assert(sub.subrange(j, j + d.len()) =~= s.subrange(start + j, start + j + d.len()));
    }
}

/// The characters of `s`, one by one.
fn chars_of(s: &str) -> (r: Vec<char>)
    ensures
        r@ == s@,
{
    let mut it = s.chars();
    let mut r: Vec<char> = Vec::new();
    loop
        invariant
            r@ + it.remaining() == s@,
            it.decrease() is Some,
        ensures
            r@ == s@,
        decreases it.decrease()->0,
    {
        match it.next() {
            Some(c) => r.push(c),
            None => {
                assert(r@ =~= s@);
                break;
            },
        }
    }
    r
}

/// Whether `d` stands in `s` at position `i`.
fn occurs_at_exec(s: &Vec<char>, d: &Vec<char>, i: usize) -> (r: bool)
    requires
        i + d@.len() <= s@.len(),
    ensures
        r == occurs_at(s@, d@, i as int),
{
    let m = d.len();
    let n = s.len();
    let mut k: usize = 0;
    while k < m
        invariant
            m == d@.len(),
            n == s@.len(),
            i + m <= s@.len(),
            k <= m,
            s@.subrange(i as int, i + k) == d@.subrange(0, k as int),
        decreases m - k,
    {
        if s[i + k] != d[k] {
            assert(s@.subrange(i as int, i + m)[k as int] != d@[k as int]);
            return false;
        }
        assert(s@.subrange(i as int, i + k + 1) =~= d@.subrange(0, k + 1));
        k = k + 1;
    }
    assert(d@.subrange(0, m as int) =~= d@);
    true
}

/// Splits `s` at each match of `delimiter` and returns the fields in order.
pub fn split_by_delimiter<'a>(s: &'a str, delimiter: &str) -> (r: Vec<&'a str>)
    ensures
        views(r@) == split_spec(s@, delimiter@),
{
    let sc = chars_of(s);
    let dc = chars_of(delimiter);
    let n = sc.len();
    let m = dc.len();
    let mut parts: Vec<&'a str> = Vec::new();
    if m == 0 {
        let first = s.substring_char(0, 0);
        assert(first@ =~= Seq::<char>::empty());
        parts.push(first);
        let mut i: usize = 0;
        assert(views(parts@) =~= seq![Seq::<char>::empty()] + s@.subrange(0, 0).map_values(
            |c: char| seq![c],
        ));
        while i < n
            invariant
                n == s@.len(),
                i <= n,
                views(parts@) == seq![Seq::<char>::empty()] + s@.subrange(0, i as int).map_values(
                    |c: char| seq![c],
                ),
            decreases n - i,
        {
            let piece = s.substring_char(i, i + 1);
            assert(piece@ =~= seq![s@[i as int]]);
            let ghost before = parts@;
            parts.push(piece);
            assert(views(parts@) =~= views(before) + seq![piece@]);
            assert(s@.subrange(0, i + 1).map_values(|c: char| seq![c]) =~= s@.subrange(
                0,
                i as int,
            ).map_values(|c: char| seq![c]) + seq![seq![s@[i as int]]]);
            assert(views(parts@) =~= seq![Seq::<char>::empty()] + s@.subrange(
                0,
                i + 1,
            ).map_values(|c: char| seq![c]));
            i = i + 1;
        }
        let last = s.substring_char(n, n);
        assert(last@ =~= Seq::<char>::empty());
        let ghost before = parts@;
        parts.push(last);
        assert(views(parts@) =~= views(before) + seq![last@]);
        assert(s@.subrange(0, n as int) =~= s@);
        assert(views(parts@) =~= split_spec(s@, delimiter@));
        return parts;
    }
    let ghost d = delimiter@;
    let mut start: usize = 0;
    let mut i: usize = 0;
    assert(views(parts@) =~= Seq::<Seq<char>>::empty());
    assert(s@.subrange(0, n as int) =~= s@);
    while m <= n - i
        invariant
            n == s@.len(),
            sc@ == s@,
            dc@ == d,
            d == delimiter@,
            m == d.len(),
            m > 0,
            start <= i <= n,
            views(parts@) + split_spec(s@.subrange(start as int, n as int), d) == split_spec(
                s@,
                d,
            ),
            forall|j: int| start <= j < i ==> !occurs_at(s@, d, j),
        decreases n - i,
    {
        if occurs_at_exec(&sc, &dc, i) {
            let ghost sub = s@.subrange(start as int, n as int);
            let ghost k = i - start;
            proof {
                lemma_occurs_in_suffix(s@, d, start as int, k);
                assert forall|j: int| 0 <= j < k implies !occurs_at(sub, d, j) by {
                    lemma_occurs_in_suffix(s@, d, start as int, j);
                }
                lemma_find_first(sub, d, 0, k);
                assert(sub.subrange(0, k) =~= s@.subrange(start as int, i as int));
                assert(sub.subrange(k + m, sub.len() as int) =~= s@.subrange(i + m, n as int));
            }
            let piece = s.substring_char(start, i);
            let ghost before = parts@;
            parts.push(piece);
            assert(views(parts@) =~= views(before) + seq![piece@]);
            i = i + m;
            start = i;
        } else {
            i = i + 1;
        }
    }
    let ghost sub = s@.subrange(start as int, n as int);
    proof {
        lemma_find_from_range(sub, d, 0);
        let f = find_from(sub, d, 0);
        if f != -1 {
            lemma_occurs_in_suffix(s@, d, start as int, f);
        }
    }
    let piece = s.substring_char(start, n);
    parts.push(piece);
    assert(views(parts@) =~= split_spec(s@, d));
    parts
}

/// Returns the field at index `field`, or an error when there is none.
pub fn get_field<'a>(s_parts: Vec<&'a str>, field: usize) -> (r: Result<&'a str, &'a str>)
    ensures
        field < s_parts@.len() ==> r == Ok::<&str, &str>(s_parts@[field as int]),
        field >= s_parts@.len() ==> r is Err && r->Err_0@ == "No field found at index"@,
{
    if field < s_parts.len() {
        Ok(s_parts[field])
    } else {
        Err("No field found at index")
    }
}

} // verus!
