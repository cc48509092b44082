use vstd::prelude::*;

verus! {

/// The character of a decimal digit.
pub open spec fn digit_char(d: nat) -> char {
    if d == 0 { '0' }
    else if d == 1 { '1' }
    else if d == 2 { '2' }
    else if d == 3 { '3' }
    else if d == 4 { '4' }
    else if d == 5 { '5' }
    else if d == 6 { '6' }
    else if d == 7 { '7' }
    else if d == 8 { '8' }
    else { '9' }
}

/// A natural number written in decimal, without leading zeros.
pub open spec fn decimal_of(n: nat) -> Seq<char>
    decreases n,
{
    if n < 10 {
        seq![digit_char(n)]
    } else {
        decimal_of(n / 10).push(digit_char(n % 10))
    }
}

fn digit_str(d: u128) -> (r: &'static str)
    requires
        d < 10,
    ensures
        r@ == seq![digit_char(d as nat)],
{
    proof {
        reveal_strlit("0");
        reveal_strlit("1");
        reveal_strlit("2");
        reveal_strlit("3");
        reveal_strlit("4");
        reveal_strlit("5");
        reveal_strlit("6");
        reveal_strlit("7");
        reveal_strlit("8");
        reveal_strlit("9");
    }
    if d == 0 { "0" }
    else if d == 1 { "1" }
    else if d == 2 { "2" }
    else if d == 3 { "3" }
    else if d == 4 { "4" }
    else if d == 5 { "5" }
    else if d == 6 { "6" }
    else if d == 7 { "7" }
    else if d == 8 { "8" }
    else { "9" }
}

/// Writes `n` in decimal.
pub fn decimal(n: u128) -> (r: String)
    ensures
        r@ == decimal_of(n as nat),
    decreases n,
{
    if n < 10 {
        String::from_str(digit_str(n))
    } else {
        let prefix = decimal(n / 10);
        let r = prefix.concat(digit_str(n % 10));
        assert(r@ == decimal_of(n as nat));
        r
    }
}

/// Whether `needle` occurs in `hay` at position `i`.
pub open spec fn occurs_at(hay: Seq<char>, needle: Seq<char>, i: int) -> bool {
    0 <= i && i + needle.len() <= hay.len() && hay.subrange(i, i + needle.len()) == needle
}

/// Whether `needle` occurs somewhere in `hay`.
pub open spec fn contains_seq(hay: Seq<char>, needle: Seq<char>) -> bool {
    exists|i: int| occurs_at(hay, needle, i)
}

fn occurs_at_exec(hay: &str, needle: &str, i: usize, hay_len: usize, needle_len: usize) -> (r: bool)
    requires
        hay_len == hay@.len(),
        needle_len == needle@.len(),
        i + needle_len <= hay_len,
    ensures
        r == occurs_at(hay@, needle@, i as int),
{
    let mut k: usize = 0;
    while k < needle_len
        invariant
            hay_len == hay@.len(),
            needle_len == needle@.len(),
            i + needle_len <= hay_len,
            k <= needle_len,
            forall|j: int| 0 <= j < k ==> hay@[i + j] == needle@[j],
        decreases needle_len - k,
    {
        if hay.get_char(i + k) != needle.get_char(k) {
            assert(hay@.subrange(i as int, i + needle_len)[k as int] != needle@[k as int]);
            return false;
        }
        k = k + 1;
    }
    assert(hay@.subrange(i as int, i + needle_len) =~= needle@);
    true
}

/// Whether `needle` occurs in `hay`, as a run of consecutive characters.
pub fn contains_str(hay: &str, needle: &str) -> (r: bool)
    ensures
        r == contains_seq(hay@, needle@),
{
    let hay_len = hay.unicode_len();
    let needle_len = needle.unicode_len();
    if needle_len > hay_len {
        assert forall|i: int| !occurs_at(hay@, needle@, i) by {}
        return false;
    }
    let mut i: usize = 0;
    loop
        invariant
            hay_len == hay@.len(),
            needle_len == needle@.len(),
            needle_len <= hay_len,
            i <= hay_len - needle_len,
            forall|j: int| 0 <= j < i ==> !occurs_at(hay@, needle@, j),
        decreases hay_len - needle_len - i,
    {
        if occurs_at_exec(hay, needle, i, hay_len, needle_len) {
            return true;
        }
        if i == hay_len - needle_len {
            assert forall|j: int| !occurs_at(hay@, needle@, j) by {}
            return false;
        }
        i = i + 1;
    }
}

/// The views of a sequence of strings.
pub open spec fn views(v: Seq<String>) -> Seq<Seq<char>> {
    v.map_values(|s: String| s@)
}

/// The first position at or after `j` where `id` stands, or -1.
pub open spec fn index_from(s: Seq<Seq<char>>, id: Seq<char>, j: int) -> int
    decreases s.len() - j,
{
    if j < 0 || j >= s.len() {
        -1
    } else if s[j] == id {
        j
    } else {
        index_from(s, id, j + 1)
    }
}

/// The first position where `id` stands, or -1.
pub open spec fn index_of(s: Seq<Seq<char>>, id: Seq<char>) -> int {
    index_from(s, id, 0)
}

/// `s` without the first occurrence of `id`, if any.
pub open spec fn remove_first(s: Seq<Seq<char>>, id: Seq<char>) -> Seq<Seq<char>> {
    if index_of(s, id) >= 0 {
        s.remove(index_of(s, id))
    } else {
        s
    }
}

/// No value occurs twice.
pub open spec fn distinct(s: Seq<Seq<char>>) -> bool {
    forall|i: int, j: int| 0 <= i < j < s.len() ==> s[i] != s[j]
}

/// Appending a value that does not occur keeps a sequence without repeats.
pub proof fn lemma_distinct_push(s: Seq<Seq<char>>, x: Seq<char>)
    requires
        distinct(s),
        index_of(s, x) < 0,
    ensures
        distinct(s.push(x)),
{
    lemma_index_of(s, x);
}

/// Removing an element keeps a sequence without repeats.
pub proof fn lemma_distinct_remove(s: Seq<Seq<char>>, i: int)
    requires
        distinct(s),
        0 <= i < s.len(),
    ensures
        distinct(s.remove(i)),
{
    assert forall|a: int, b: int| 0 <= a < b < s.remove(i).len() implies s.remove(i)[a] != s.remove(i)[b] by {
        let a1 = if a < i { a } else { a + 1 };
        let b1 = if b < i { b } else { b + 1 };
        assert(s.remove(i)[a] == s[a1] && s.remove(i)[b] == s[b1]);
    }
}

pub proof fn lemma_index_from(s: Seq<Seq<char>>, id: Seq<char>, j: int)
    requires
        0 <= j <= s.len(),
    ensures
        index_from(s, id, j) == -1 ==> forall|k: int| j <= k < s.len() ==> s[k] != id,
        index_from(s, id, j) != -1 ==> {
            let r = index_from(s, id, j);
            &&& j <= r < s.len()
            &&& s[r] == id
            &&& forall|k: int| j <= k < r ==> s[k] != id
        },
    decreases s.len() - j,
{
    if j < s.len() && s[j] != id {
        lemma_index_from(s, id, j + 1);
    }
}

/// What `index_of` says of a sequence.
pub proof fn lemma_index_of(s: Seq<Seq<char>>, id: Seq<char>)
    ensures
        index_of(s, id) == -1 <==> forall|k: int| 0 <= k < s.len() ==> s[k] != id,
        index_of(s, id) != -1 ==> {
            let r = index_of(s, id);
            &&& 0 <= r < s.len()
            &&& s[r] == id
            &&& forall|k: int| 0 <= k < r ==> s[k] != id
        },
{
    lemma_index_from(s, id, 0);
}

/// The first position of `id` in a list of strings, found by a scan.
pub fn position_of(list: &Vec<String>, id: &String) -> (r: Option<usize>)
    ensures
        r is None <==> index_of(views(list@), id@) == -1,
        r is Some ==> r.unwrap() as int == index_of(views(list@), id@),
{
    let ghost s = views(list@);
    let mut j: usize = 0;
    while j < list.len()
        invariant
            s == views(list@),
            j <= list@.len(),
            index_of(s, id@) == index_from(s, id@, j as int),
        decreases list@.len() - j,
    {
        if list[j] == *id {
            return Some(j);
        }
        j = j + 1;
    }
    None
}

/// Removes the first occurrence of `id` from a list of strings, if it has one.
pub fn remove_first_of(list: &mut Vec<String>, id: &String)
    ensures
        views(final(list)@) == remove_first(views(old(list)@), id@),
{
    match position_of(list, id) {
        Some(i) => {
            proof {
                lemma_index_of(views(list@), id@);
            }
            list.remove(i);
            assert(views(list@) =~= views(old(list)@).remove(i as int));
        },
        None => {},
    }
}

/// Appends a string to a list, seen through the views.
pub fn push_id(list: &mut Vec<String>, id: String)
    ensures
        views(final(list)@) == views(old(list)@).push(id@),
{
    list.push(id);
    assert(views(list@) =~= views(old(list)@).push(id@));
}

} // verus!
