//! Which users get daily reminders, and at which hours, when the bot starts.
use vstd::prelude::*;
use crate::number::all_digits;
use crate::schedule::reminder_times_or_default;

verus! {

/// What `str::to_lowercase` gives for a text (Unicode lower-case mapping).
pub uninterp spec fn lowercase_text(s: Seq<char>) -> Seq<char>;

/// `str::to_lowercase`; its result depends on the text alone, and is named
/// `lowercase_text` here. The Unicode case tables are not written out; of
/// them only this is stated: ASCII digits have no lower-case mapping, so a
/// text of digits is its own lower case.
#[verifier::external_body]
fn to_lowercase(s: &str) -> (r: String)
    ensures
        r@ == lowercase_text(s@),
        all_digits(s@) ==> r@ == s@,
{
    s.to_lowercase()
}

/// A list of key/value pairs in which no key occurs twice.
pub open spec fn unique_keys(e: Seq<(Seq<char>, Seq<Seq<char>>)>) -> bool {
    forall|i: int, j: int| 0 <= i < j < e.len() ==> (#[trigger] e[i]).0 != (#[trigger] e[j]).0
}

/// The map that a list of pairs stands for; a later pair overrides an earlier one.
pub open spec fn pairs_map(e: Seq<(Seq<char>, Seq<Seq<char>>)>) -> Map<Seq<char>, Seq<Seq<char>>>
    decreases e.len(),
{
    if e.len() == 0 {
        Map::empty()
    } else {
        pairs_map(e.drop_last()).insert(e.last().0, e.last().1)
    }
}

proof fn lemma_pairs_map_lookup(e: Seq<(Seq<char>, Seq<Seq<char>>)>, k: Seq<char>)
    requires
        unique_keys(e),
    ensures
        pairs_map(e).contains_key(k) <==> exists|i: int| 0 <= i < e.len() && (#[trigger] e[i]).0 == k,
        forall|i: int| 0 <= i < e.len() && (#[trigger] e[i]).0 == k ==> pairs_map(e)[k] == e[i].1,
    decreases e.len(),
{
    if e.len() > 0 {
        let p = e.drop_last();
        assert(unique_keys(p)) by {
            assert forall|i: int, j: int| 0 <= i < j < p.len() implies (#[trigger] p[i]).0 != (
            #[trigger] p[j]).0 by {
                assert(p[i] == e[i] && p[j] == e[j]);
            }
        }
        lemma_pairs_map_lookup(p, k);
        if pairs_map(e).contains_key(k) && k != e.last().0 {
            let i = choose|i: int| 0 <= i < p.len() && (#[trigger] p[i]).0 == k;
            assert(e[i] == p[i]);
        }
        assert forall|i: int| 0 <= i < e.len() && (#[trigger] e[i]).0 == k implies pairs_map(e)[k]
            == e[i].1 by {
            if i < e.len() - 1 {
                assert(e[i] == p[i]);
                assert(e[i].0 != e[e.len() - 1].0);
            }
        }
        if exists|i: int| 0 <= i < e.len() && (#[trigger] e[i]).0 == k {
            let i = choose|i: int| 0 <= i < e.len() && (#[trigger] e[i]).0 == k;
            if i < e.len() - 1 {
                assert(p[i] == e[i]);
            }
        }
    }
}

proof fn lemma_pairs_map_update(
    e: Seq<(Seq<char>, Seq<Seq<char>>)>,
    j: int,
    v: Seq<Seq<char>>,
)
    requires
        unique_keys(e),
        0 <= j < e.len(),
    ensures
        pairs_map(e.update(j, (e[j].0, v))) == pairs_map(e).insert(e[j].0, v),
        unique_keys(e.update(j, (e[j].0, v))),
    decreases e.len(),
{
    let k = e[j].0;
    let u = e.update(j, (k, v));
    let p = e.drop_last();
    assert(unique_keys(p)) by {
        assert forall|a: int, b: int| 0 <= a < b < p.len() implies (#[trigger] p[a]).0 != (
        #[trigger] p[b]).0 by {
            assert(p[a] == e[a] && p[b] == e[b]);
        }
    }
    assert(unique_keys(u)) by {
        assert forall|a: int, b: int| 0 <= a < b < u.len() implies (#[trigger] u[a]).0 != (
        #[trigger] u[b]).0 by {
            assert(e[a].0 != e[b].0);
        }
    }
    if j == e.len() - 1 {
        assert(u.drop_last() =~= p);
        assert(pairs_map(u) =~= pairs_map(e).insert(k, v));
    } else {
        lemma_pairs_map_update(p, j, v);
        assert(u.drop_last() =~= p.update(j, (k, v)));
        assert(e.last().0 != k);
        assert(pairs_map(u) =~= pairs_map(e).insert(k, v));
    }
}

/// For each user, the hours at which the bot reminds them.
pub struct ReminderTable {
    entries: Vec<(String, Vec<String>)>,
}

impl View for ReminderTable {
    type V = Map<Seq<char>, Seq<Seq<char>>>;

    closed spec fn view(&self) -> Map<Seq<char>, Seq<Seq<char>>> {
        pairs_map(self.entries.deep_view())
    }
}

/// A copy of a list of strings.
fn copy_strings(v: &Vec<String>) -> (r: Vec<String>)
    ensures
        r.deep_view() == v.deep_view(),
{
    let mut r: Vec<String> = Vec::new();
    let mut i: usize = 0;
    while i < v.len()
        invariant
            i <= v.len(),
            r.deep_view() == v.deep_view().take(i as int),
        decreases v.len() - i,
    {
        let c = v[i].clone();
        let ghost prev = r@;
        let ghost prev_deep = r.deep_view();
        r.push(c);
        assert(r@ == prev.push(c));
        assert(c@ == v.deep_view()[i as int]);
        assert(r.deep_view() =~= prev_deep.push(c@));
        assert(r.deep_view() =~= v.deep_view().take(i as int + 1));
        i = i + 1;
    }
    assert(v.deep_view().take(i as int) =~= v.deep_view());
    r
}

/// Where `user_id` has an entry in `entries`, its position.
fn position(entries: &Vec<(String, Vec<String>)>, user_id: &String) -> (r: Option<usize>)
    ensures
        match r {
            Some(i) => i < entries.len() && entries.deep_view()[i as int].0 == user_id@,
            None => forall|i: int|
                0 <= i < entries.len() ==> #[trigger] entries.deep_view()[i].0 != user_id@,
        },
{
    let mut i: usize = 0;
    while i < entries.len()
        invariant
            i <= entries.len(),
            forall|j: int| 0 <= j < i ==> #[trigger] entries.deep_view()[j].0 != user_id@,
        decreases entries.len() - i,
    {
        if entries[i].0 == *user_id {
            return Some(i);
        }
        i = i + 1;
    }
    None
}

/// Sets the value of `key` in a list of pairs with unique keys.
fn set_pair(entries: &mut Vec<(String, Vec<String>)>, key: String, value: Vec<String>)
    requires
        unique_keys(old(entries).deep_view()),
    ensures
        unique_keys(final(entries).deep_view()),
        pairs_map(final(entries).deep_view()) == pairs_map(old(entries).deep_view()).insert(
            key@,
            value.deep_view(),
        ),
{
    let ghost e = entries.deep_view();
    match position(entries, &key) {
        Some(i) => {
            proof {
                lemma_pairs_map_update(e, i as int, value.deep_view());
            }
            let ghost vv = value.deep_view();
            entries.set(i, (key, value));
            assert(entries.deep_view() =~= e.update(i as int, (e[i as int].0, vv)));
        },
        None => {
            let ghost kv = key@;
            let ghost vv = value.deep_view();
            entries.push((key, value));
            assert(entries.deep_view() =~= e.push((kv, vv)));
            assert(entries.deep_view().drop_last() =~= e);
            assert(unique_keys(entries.deep_view())) by {
                let n = entries.deep_view();
                assert forall|a: int, b: int| 0 <= a < b < n.len() implies (#[trigger] n[a]).0
                    != (#[trigger] n[b]).0 by {
                    if b == n.len() - 1 {
                        assert(n[a] == e[a]);
                    } else {
                        assert(n[a] == e[a] && n[b] == e[b]);
                    }
                }
            }
        },
    }
}

impl ReminderTable {
    #[verifier::type_invariant]
    closed spec fn keys_unique(self) -> bool {
        unique_keys(self.entries.deep_view())
    }

    /// The empty table.
    pub fn new() -> (r: ReminderTable)
        ensures
            r@ == Map::<Seq<char>, Seq<Seq<char>>>::empty(),
    {
        let r = ReminderTable { entries: Vec::new() };
        assert(r.entries.deep_view() =~= Seq::<(Seq<char>, Seq<Seq<char>>)>::empty());
        r
    }

    /// The hours of a user, if the table has them.
    pub fn get(&self, user_id: &String) -> (r: Option<&Vec<String>>)
        ensures
            match r {
                Some(t) => self@.contains_key(user_id@) && self@[user_id@] == t.deep_view(),
                None => !self@.contains_key(user_id@),
            },
    {
        proof {
            use_type_invariant(self);
            lemma_pairs_map_lookup(self.entries.deep_view(), user_id@);
        }
        match position(&self.entries, user_id) {
            Some(i) => Some(&self.entries[i].1),
            None => None,
        }
    }

    /// Sets the hours of a user, replacing any that the table had.
    pub fn insert(&mut self, user_id: String, times: Vec<String>)
        ensures
            final(self)@ == old(self)@.insert(user_id@, times.deep_view()),
    {
        proof {
            use_type_invariant(&*self);
        }
        let mut entries: Vec<(String, Vec<String>)> = Vec::new();
        std::mem::swap(&mut entries, &mut self.entries);
        set_pair(&mut entries, user_id, times);
        self.entries = entries;
    }

    /// The entries of the table: each user once, with their hours.
    pub fn entries(&self) -> (r: &Vec<(String, Vec<String>)>)
        ensures
            unique_keys(r.deep_view()),
            pairs_map(r.deep_view()) == self@,
    {
        proof {
            use_type_invariant(self);
        }
        &self.entries
    }
}

/// The hours of a found record: those stored, or 5 and 17.
pub open spec fn record_times(stored: Option<Seq<Seq<char>>>) -> Seq<Seq<char>> {
    match stored {
        Some(ts) => ts,
        None => seq!["5"@, "17"@],
    }
}

/// The hours stored for each user, keyed by the lower-cased user id: one
/// lookup per user id, each with the user's record where one was found
/// (`None` otherwise), and in the record the stored hours where there are
/// any. A record without hours gets the default ones; a later lookup
/// overrides an earlier one with the same key.
pub open spec fn user_times_map(
    lookups: Seq<(Seq<char>, Option<Option<Seq<Seq<char>>>>)>,
) -> Map<Seq<char>, Seq<Seq<char>>>
    decreases lookups.len(),
{
    if lookups.len() == 0 {
        Map::empty()
    } else {
        let m = user_times_map(lookups.drop_last());
        let (id, record) = lookups.last();
        match record {
            Some(stored) => m.insert(lowercase_text(id), record_times(stored)),
            None => m,
        }
    }
}

/// The reminder hours of the users whose records were looked up.
pub fn get_user_times(lookups: &Vec<(String, Option<Option<Vec<String>>>)>) -> (r: ReminderTable)
    ensures
        r@ == user_times_map(lookups.deep_view()),
        forall|i: int|
            0 <= i < lookups.len() && (#[trigger] lookups.deep_view()[i]).1 is Some && all_digits(
                lookups.deep_view()[i].0,
            ) ==> lowercase_text(lookups.deep_view()[i].0) == lookups.deep_view()[i].0,
{
    let ghost l = lookups.deep_view();
    let mut table = ReminderTable::new();
    let mut i: usize = 0;
    while i < lookups.len()
        invariant
            i <= lookups.len(),
            l == lookups.deep_view(),
            table@ == user_times_map(l.take(i as int)),
            forall|j: int|
                0 <= j < i && (#[trigger] l[j]).1 is Some && all_digits(l[j].0) ==> lowercase_text(
                    l[j].0,
                ) == l[j].0,
        decreases lookups.len() - i,
    {
        let ghost t = l.take(i as int + 1);
        assert(t.drop_last() =~= l.take(i as int));
        assert(t.last() == l[i as int]);
        let (id, record) = &lookups[i];
        match record {
            Some(stored) => {
                let stored_copy: Option<Vec<String>> = match stored {
                    Some(ts) => Some(copy_strings(ts)),
                    None => None,
                };
                let times = reminder_times_or_default(stored_copy);
                let key = to_lowercase(id.as_str());
                table.insert(key, times);
            },
            None => {},
        }
        i = i + 1;
    }
    assert(l.take(i as int) =~= l);
    table
}

/// The reminders to start: the users of `user_ids` that `user_times` has
/// hours for, looked up by the id exactly as given, with those hours.
pub fn schedule_reminders_for_all_users(user_ids: &Vec<String>, user_times: &ReminderTable) -> (r:
    ReminderTable)
    ensures
        r@ == user_times@.restrict(user_ids.deep_view().to_set()),
{
    let ghost ids = user_ids.deep_view();
    let mut plan = ReminderTable::new();
    let mut i: usize = 0;
    while i < user_ids.len()
        invariant
            i <= user_ids.len(),
            ids == user_ids.deep_view(),
            plan@ == user_times@.restrict(ids.take(i as int).to_set()),
        decreases user_ids.len() - i,
    {
        let id = &user_ids[i];
        proof {
            assert(ids.take(i as int + 1) =~= ids.take(i as int).push(id@));
            ids.take(i as int).lemma_push_to_set_commute(id@);
        }
        match user_times.get(id) {
            Some(times) => {
                plan.insert(id.clone(), copy_strings(times));
                assert(plan@ =~= user_times@.restrict(ids.take(i as int + 1).to_set()));
            },
            None => {
                assert(plan@ =~= user_times@.restrict(ids.take(i as int + 1).to_set()));
            },
        }
        i = i + 1;
    }
    assert(ids.take(i as int) =~= ids);
    plan
}

proof fn lemma_user_times_last_record(
    lookups: Seq<(Seq<char>, Option<Option<Seq<Seq<char>>>>)>,
    k: int,
)
    requires
        0 <= k < lookups.len(),
        lookups[k].1 is Some,
        forall|j: int|
            k < j < lookups.len() && (#[trigger] lookups[j]).1 is Some ==> lowercase_text(
                lookups[j].0,
            ) != lowercase_text(lookups[k].0),
    ensures
        user_times_map(lookups).contains_key(lowercase_text(lookups[k].0)),
        user_times_map(lookups)[lowercase_text(lookups[k].0)] == record_times(lookups[k].1->0),
    decreases lookups.len(),
{
    let n = lookups.len();
    if k < n - 1 {
        let p = lookups.drop_last();
        assert forall|j: int|
            k < j < p.len() && (#[trigger] p[j]).1 is Some implies lowercase_text(p[j].0)
            != lowercase_text(p[k].0) by {
            assert(p[j] == lookups[j]);
        }
        assert(p[k] == lookups[k]);
        lemma_user_times_last_record(p, k);
        assert(lookups.last() == lookups[n - 1]);
    }
}

/// A user whose record was found and whose id is already in lower case (as
/// `get_user_times` shows of every id made of digits, the form of Telegram
/// ids) is scheduled with the record's hours (5 and 17 where it holds none), unless
/// a later lookup has the same lower-cased id.
pub proof fn lemma_found_user_is_scheduled(
    lookups: Seq<(Seq<char>, Option<Option<Seq<Seq<char>>>>)>,
    k: int,
)
    requires
        0 <= k < lookups.len(),
        lookups[k].1 is Some,
        lowercase_text(lookups[k].0) == lookups[k].0,
        forall|j: int|
            k < j < lookups.len() && (#[trigger] lookups[j]).1 is Some ==> lowercase_text(
                lookups[j].0,
            ) != lookups[k].0,
    ensures
        ({
            let ids = lookups.map_values(|p: (Seq<char>, Option<Option<Seq<Seq<char>>>>)| p.0);
            let plan = user_times_map(lookups).restrict(ids.to_set());
            &&& plan.contains_key(lookups[k].0)
            &&& plan[lookups[k].0] == record_times(lookups[k].1->0)
        }),
{
    lemma_user_times_last_record(lookups, k);
    let ids = lookups.map_values(|p: (Seq<char>, Option<Option<Seq<Seq<char>>>>)| p.0);
    assert(ids[k] == lookups[k].0);
    assert(ids.to_set().contains(lookups[k].0));
}

} // verus!
