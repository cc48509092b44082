use vstd::prelude::*;
use crate::room::{name_text, InvitedRoomInfo, JoinedRoomInfo};
use crate::text::{contains_seq, contains_str, push_id, views};

verus! {

/// Whether a room with the given name and id is shown under the given filter keywords:
/// every room is shown when there are no keywords; otherwise the keywords must occur
/// in the room's name or in its id.
pub open spec fn passes(keywords: Seq<char>, name: Seq<char>, id: Seq<char>) -> bool {
    keywords.len() == 0 || contains_seq(name, keywords) || contains_seq(id, keywords)
}

/// The predicate that decides which rooms are displayed.
#[derive(Debug, Clone)]
pub struct RoomDisplayFilter {
    pub keywords: String,
}

impl RoomDisplayFilter {
    /// The filter that shows every room.
    pub fn default_filter() -> (r: Self)
        ensures
            r.keywords@.len() == 0,
    {
        RoomDisplayFilter { keywords: String::new() }
    }

    pub fn with_keywords(keywords: &String) -> (r: Self)
        ensures
            r.keywords@ == keywords@,
    {
        RoomDisplayFilter { keywords: keywords.clone() }
    }

    pub fn matches_joined(&self, room: &JoinedRoomInfo) -> (r: bool)
        ensures
            r == passes(self.keywords@, name_text(room.room_name), room.room_id@),
    {
        let kw = self.keywords.as_str();
        kw.unicode_len() == 0 || contains_str(room.room_name.text(), kw) || contains_str(
            room.room_id.as_str(),
            kw,
        )
    }

    pub fn matches_invited(&self, room: &InvitedRoomInfo) -> (r: bool)
        ensures
            r == passes(self.keywords@, name_text(room.room_name), room.room_id@),
    {
        let kw = self.keywords.as_str();
        kw.unicode_len() == 0 || contains_str(room.room_name.text(), kw) || contains_str(
            room.room_id.as_str(),
            kw,
        )
    }
}

/// What the display lists need of a room: its id, the timestamp of its latest
/// message, and whether it is a direct room.
#[derive(Debug)]
pub struct DisplayEntry {
    pub room_id: String,
    pub latest_ts: Option<u64>,
    pub is_direct: bool,
}

impl DisplayEntry {
    pub fn duplicate(&self) -> (r: Self)
        ensures
            r == *self,
    {
        DisplayEntry { room_id: self.room_id.clone(), latest_ts: self.latest_ts, is_direct: self.is_direct }
    }
}

/// `a` is listed above `b`: rooms with a latest message come first, the most recent first.
pub open spec fn ranks_before(a: DisplayEntry, b: DisplayEntry) -> bool {
    match (a.latest_ts, b.latest_ts) {
        (Some(x), Some(y)) => x > y,
        (Some(_), None) => true,
        _ => false,
    }
}

/// The position at which `x` goes into the sorted `s`, searching from `j`:
/// after every entry that `x` does not rank before, so that ties keep their order.
pub open spec fn insert_pos_from(s: Seq<DisplayEntry>, x: DisplayEntry, j: int) -> int
    decreases s.len() - j,
{
    if j < 0 || j >= s.len() {
        s.len() as int
    } else if ranks_before(x, s[j]) {
        j
    } else {
        insert_pos_from(s, x, j + 1)
    }
}

pub proof fn lemma_insert_pos_range(s: Seq<DisplayEntry>, x: DisplayEntry, j: int)
    requires
        0 <= j,
    ensures
        0 <= insert_pos_from(s, x, j) <= s.len(),
    decreases s.len() - j,
{
    if j < s.len() && !ranks_before(x, s[j]) {
        lemma_insert_pos_range(s, x, j + 1);
    }
}

pub open spec fn insert_sorted(s: Seq<DisplayEntry>, x: DisplayEntry) -> Seq<DisplayEntry> {
    s.insert(insert_pos_from(s, x, 0), x)
}

/// The entries ordered by latest message, most recent first; a stable order.
pub open spec fn sort_by_latest(s: Seq<DisplayEntry>) -> Seq<DisplayEntry>
    decreases s.len(),
{
    if s.len() == 0 {
        s
    } else {
        insert_sorted(sort_by_latest(s.drop_last()), s.last())
    }
}

fn insert_entry(out: &mut Vec<DisplayEntry>, x: DisplayEntry)
    ensures
        final(out)@ == insert_sorted(old(out)@, x),
{
    let mut j: usize = 0;
    while j < out.len() && !ranks_before_exec(&x, &out[j])
        invariant
            j <= out@.len(),
            out@ == old(out)@,
            insert_pos_from(out@, x, 0) == insert_pos_from(out@, x, j as int),
        decreases out@.len() - j,
    {
        j = j + 1;
    }
    out.insert(j, x);
}

fn ranks_before_exec(a: &DisplayEntry, b: &DisplayEntry) -> (r: bool)
    ensures
        r == ranks_before(*a, *b),
{
    match (a.latest_ts, b.latest_ts) {
        (Some(x), Some(y)) => x > y,
        (Some(_), None) => true,
        _ => false,
    }
}

/// Orders entries by their latest message, most recent first, keeping ties in order.
pub fn sort_entries(v: &Vec<DisplayEntry>) -> (r: Vec<DisplayEntry>)
    ensures
        r@ == sort_by_latest(v@),
{
    let mut out: Vec<DisplayEntry> = Vec::new();
    let mut i: usize = 0;
    while i < v.len()
        invariant
            i <= v@.len(),
            out@ == sort_by_latest(v@.subrange(0, i as int)),
        decreases v@.len() - i,
    {
        let e = v[i].duplicate();
        proof {
            let p = v@.subrange(0, i as int + 1);
            assert(p.drop_last() =~= v@.subrange(0, i as int));
            assert(p.last() == v@[i as int]);
        }
        insert_entry(&mut out, e);
        i = i + 1;
    }
    assert(v@.subrange(0, v@.len() as int) =~= v@);
    out
}

/// The display entry of a joined room.
pub open spec fn joined_entry(r: JoinedRoomInfo) -> DisplayEntry {
    DisplayEntry {
        room_id: r.room_id,
        latest_ts: match r.latest {
            Some(l) => Some(l.timestamp),
            None => None,
        },
        is_direct: r.is_direct,
    }
}

/// The display entry of an invited room.
pub open spec fn invited_entry(r: InvitedRoomInfo) -> DisplayEntry {
    DisplayEntry {
        room_id: r.room_id,
        latest_ts: match r.latest {
            Some(l) => Some(l.timestamp),
            None => None,
        },
        is_direct: r.is_direct,
    }
}

/// The entries of the joined rooms that pass the filter, in store order.
pub open spec fn filtered_joined(s: Seq<JoinedRoomInfo>, keywords: Seq<char>) -> Seq<DisplayEntry>
    decreases s.len(),
{
    if s.len() == 0 {
        Seq::empty()
    } else {
        let rest = filtered_joined(s.drop_last(), keywords);
        if passes(keywords, name_text(s.last().room_name), s.last().room_id@) {
            rest.push(joined_entry(s.last()))
        } else {
            rest
        }
    }
}

/// The entries of the invited rooms that pass the filter, in store order.
pub open spec fn filtered_invited(s: Seq<InvitedRoomInfo>, keywords: Seq<char>) -> Seq<DisplayEntry>
    decreases s.len(),
{
    if s.len() == 0 {
        Seq::empty()
    } else {
        let rest = filtered_invited(s.drop_last(), keywords);
        if passes(keywords, name_text(s.last().room_name), s.last().room_id@) {
            rest.push(invited_entry(s.last()))
        } else {
            rest
        }
    }
}

/// The ids of the entries, keeping those whose direct-ness is `direct`.
pub open spec fn ids_where_direct(s: Seq<DisplayEntry>, direct: bool) -> Seq<Seq<char>>
    decreases s.len(),
{
    if s.len() == 0 {
        Seq::empty()
    } else {
        let rest = ids_where_direct(s.drop_last(), direct);
        if s.last().is_direct == direct {
            rest.push(s.last().room_id@)
        } else {
            rest
        }
    }
}

/// The ids of all entries.
pub open spec fn entry_ids(s: Seq<DisplayEntry>) -> Seq<Seq<char>> {
    s.map_values(|e: DisplayEntry| e.room_id@)
}

/// The displayed invited rooms: those that pass the filter, most recent first.
pub open spec fn displayed_invited_spec(s: Seq<InvitedRoomInfo>, keywords: Seq<char>) -> Seq<Seq<char>> {
    entry_ids(sort_by_latest(filtered_invited(s, keywords)))
}

/// The displayed regular (or, with `direct`, direct) joined rooms: those that pass the
/// filter, most recent first.
pub open spec fn displayed_joined_spec(s: Seq<JoinedRoomInfo>, keywords: Seq<char>, direct: bool) -> Seq<Seq<char>> {
    ids_where_direct(sort_by_latest(filtered_joined(s, keywords)), direct)
}

fn joined_entry_exec(r: &JoinedRoomInfo) -> (e: DisplayEntry)
    ensures
        e == joined_entry(*r),
{
    DisplayEntry {
        room_id: r.room_id.clone(),
        latest_ts: match &r.latest {
            Some(l) => Some(l.timestamp),
            None => None,
        },
        is_direct: r.is_direct,
    }
}

fn invited_entry_exec(r: &InvitedRoomInfo) -> (e: DisplayEntry)
    ensures
        e == invited_entry(*r),
{
    DisplayEntry {
        room_id: r.room_id.clone(),
        latest_ts: match &r.latest {
            Some(l) => Some(l.timestamp),
            None => None,
        },
        is_direct: r.is_direct,
    }
}

/// The ordered ids of the invited rooms to display.
pub fn generate_displayed_invited_rooms(rooms: &Vec<InvitedRoomInfo>, filter: &RoomDisplayFilter) -> (r: Vec<String>)
    ensures
        views(r@) == displayed_invited_spec(rooms@, filter.keywords@),
{
    let mut entries: Vec<DisplayEntry> = Vec::new();
    let mut i: usize = 0;
    while i < rooms.len()
        invariant
            i <= rooms@.len(),
            entries@ == filtered_invited(rooms@.subrange(0, i as int), filter.keywords@),
        decreases rooms@.len() - i,
    {
        proof {
            let p = rooms@.subrange(0, i as int + 1);
            assert(p.drop_last() =~= rooms@.subrange(0, i as int));
        }
        if filter.matches_invited(&rooms[i]) {
            entries.push(invited_entry_exec(&rooms[i]));
        }
        i = i + 1;
    }
    assert(rooms@.subrange(0, rooms@.len() as int) =~= rooms@);
    let sorted = sort_entries(&entries);
    let mut out: Vec<String> = Vec::new();
    let mut k: usize = 0;
    while k < sorted.len()
        invariant
            k <= sorted@.len(),
            views(out@) == entry_ids(sorted@.subrange(0, k as int)),
        decreases sorted@.len() - k,
    {
        push_id(&mut out, sorted[k].room_id.clone());
        assert(entry_ids(sorted@.subrange(0, k as int + 1)) =~= entry_ids(
            sorted@.subrange(0, k as int),
        ).push(sorted@[k as int].room_id@));
        k = k + 1;
    }
    assert(sorted@.subrange(0, sorted@.len() as int) =~= sorted@);
    out
}

/// The ordered ids of the regular and of the direct joined rooms to display.
pub fn generate_displayed_joined_rooms(rooms: &Vec<JoinedRoomInfo>, filter: &RoomDisplayFilter) -> (r: (Vec<String>, Vec<String>))
    ensures
        views(r.0@) == displayed_joined_spec(rooms@, filter.keywords@, false),
        views(r.1@) == displayed_joined_spec(rooms@, filter.keywords@, true),
{
    let mut entries: Vec<DisplayEntry> = Vec::new();
    let mut i: usize = 0;
    while i < rooms.len()
        invariant
            i <= rooms@.len(),
            entries@ == filtered_joined(rooms@.subrange(0, i as int), filter.keywords@),
        decreases rooms@.len() - i,
    {
        proof {
            let p = rooms@.subrange(0, i as int + 1);
            assert(p.drop_last() =~= rooms@.subrange(0, i as int));
        }
        if filter.matches_joined(&rooms[i]) {
            entries.push(joined_entry_exec(&rooms[i]));
        }
        i = i + 1;
    }
    assert(rooms@.subrange(0, rooms@.len() as int) =~= rooms@);
    let sorted = sort_entries(&entries);
    let mut regular: Vec<String> = Vec::new();
    let mut direct: Vec<String> = Vec::new();
    let mut k: usize = 0;
    while k < sorted.len()
        invariant
            k <= sorted@.len(),
            views(regular@) == ids_where_direct(sorted@.subrange(0, k as int), false),
            views(direct@) == ids_where_direct(sorted@.subrange(0, k as int), true),
        decreases sorted@.len() - k,
    {
        proof {
            let p = sorted@.subrange(0, k as int + 1);
            assert(p.drop_last() =~= sorted@.subrange(0, k as int));
        }
        if sorted[k].is_direct {
            push_id(&mut direct, sorted[k].room_id.clone());
        } else {
            push_id(&mut regular, sorted[k].room_id.clone());
        }
        k = k + 1;
    }
    assert(sorted@.subrange(0, sorted@.len() as int) =~= sorted@);
    (regular, direct)
}

/// How many entries carry `id`.
pub open spec fn ecount(s: Seq<DisplayEntry>, id: Seq<char>) -> int
    decreases s.len(),
{
    if s.len() == 0 {
        0
    } else {
        ecount(s.drop_last(), id) + if s.last().room_id@ == id { 1int } else { 0int }
    }
}

/// How many ids equal `id`.
pub open spec fn icount(s: Seq<Seq<char>>, id: Seq<char>) -> int
    decreases s.len(),
{
    if s.len() == 0 {
        0
    } else {
        icount(s.drop_last(), id) + if s.last() == id { 1int } else { 0int }
    }
}

proof fn lemma_ecount_concat(a: Seq<DisplayEntry>, b: Seq<DisplayEntry>, id: Seq<char>)
    ensures
        ecount(a + b, id) == ecount(a, id) + ecount(b, id),
    decreases b.len(),
{
    if b.len() == 0 {
        assert(a + b =~= a);
    } else {
        assert((a + b).drop_last() =~= a + b.drop_last());
        lemma_ecount_concat(a, b.drop_last(), id);
    }
}

proof fn lemma_ecount_insert(s: Seq<DisplayEntry>, i: int, x: DisplayEntry, id: Seq<char>)
    requires
        0 <= i <= s.len(),
    ensures
        ecount(s.insert(i, x), id) == ecount(s, id) + if x.room_id@ == id { 1int } else { 0int },
{
    let a = s.subrange(0, i);
    let b = s.subrange(i, s.len() as int);
    assert(s =~= a + b);
    assert(s.insert(i, x) =~= a + (seq![x] + b));
    lemma_ecount_concat(a, b, id);
    lemma_ecount_concat(a, seq![x] + b, id);
    lemma_ecount_concat(seq![x], b, id);
    assert(seq![x].drop_last() =~= Seq::<DisplayEntry>::empty());
    assert(ecount(Seq::<DisplayEntry>::empty(), id) == 0);
}

/// Sorting keeps how many entries carry each id.
pub proof fn lemma_sort_count(s: Seq<DisplayEntry>, id: Seq<char>)
    ensures
        ecount(sort_by_latest(s), id) == ecount(s, id),
    decreases s.len(),
{
    if s.len() > 0 {
        lemma_sort_count(s.drop_last(), id);
        lemma_insert_pos_range(sort_by_latest(s.drop_last()), s.last(), 0);
        lemma_ecount_insert(
            sort_by_latest(s.drop_last()),
            insert_pos_from(sort_by_latest(s.drop_last()), s.last(), 0),
            s.last(),
            id,
        );
    }
}

/// Splitting by direct-ness shares out the entries of each id.
pub proof fn lemma_split_count(s: Seq<DisplayEntry>, id: Seq<char>)
    ensures
        icount(ids_where_direct(s, true), id) + icount(ids_where_direct(s, false), id) == ecount(s, id),
        icount(ids_where_direct(s, true), id) >= 0,
        icount(ids_where_direct(s, false), id) >= 0,
    decreases s.len(),
{
    if s.len() > 0 {
        lemma_split_count(s.drop_last(), id);
        let t = ids_where_direct(s.drop_last(), true);
        let f = ids_where_direct(s.drop_last(), false);
        let x = s.last().room_id@;
        assert(t.push(x).drop_last() =~= t);
        assert(f.push(x).drop_last() =~= f);
    } else {
        assert(ids_where_direct(s, true) == Seq::<Seq<char>>::empty());
        assert(ids_where_direct(s, false) == Seq::<Seq<char>>::empty());
    }
}

pub proof fn lemma_entry_ids_count(s: Seq<DisplayEntry>, id: Seq<char>)
    ensures
        icount(entry_ids(s), id) == ecount(s, id),
    decreases s.len(),
{
    if s.len() > 0 {
        assert(entry_ids(s).drop_last() =~= entry_ids(s.drop_last()));
        lemma_entry_ids_count(s.drop_last(), id);
    }
}

/// An id that occurs is counted; one that occurs twice is counted twice.
pub proof fn lemma_icount_occurs(s: Seq<Seq<char>>, i: int, j: int)
    requires
        0 <= i < s.len(),
        i <= j < s.len(),
    ensures
        icount(s, s[i]) >= if i < j && s[j] == s[i] { 2int } else { 1int },
        icount(s, s[i]) >= 0,
    decreases s.len(),
{
    let x = s[i];
    if j == s.len() - 1 {
        if i < j {
            lemma_icount_occurs(s.drop_last(), i, i);
        } else {
            lemma_icount_nonneg(s.drop_last(), x);
        }
    } else {
        lemma_icount_occurs(s.drop_last(), i, j);
        assert(s.drop_last()[i] == x);
    }
}

pub proof fn lemma_icount_nonneg(s: Seq<Seq<char>>, x: Seq<char>)
    ensures
        icount(s, x) >= 0,
    decreases s.len(),
{
    if s.len() > 0 {
        lemma_icount_nonneg(s.drop_last(), x);
    }
}

/// Ids that are each counted at most once occur at most once.
pub proof fn lemma_distinct_of_count(s: Seq<Seq<char>>)
    requires
        forall|x: Seq<char>| icount(s, x) <= 1,
    ensures
        crate::text::distinct(s),
{
    assert forall|i: int, j: int| 0 <= i < j < s.len() implies s[i] != s[j] by {
        if s[i] == s[j] {
            lemma_icount_occurs(s, i, j);
        }
    }
}

} // verus!
