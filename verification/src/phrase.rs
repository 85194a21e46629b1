//! A user's phrases and the numbered list in which the bot shows them.
use vstd::prelude::*;
use crate::number::{format_usize, int_text};

verus! {

/// One stored phrase. Phrases are stored as text; a stored value of another
/// kind is carried as the text that the database library prints for it.
#[derive(Debug, PartialEq, Eq)]
pub enum Phrase {
    /// A text value.
    Text(String),
    /// A value that is not text, carried as its printed form.
    Other(String),
}

/// `Phrase` with its string taken as a character sequence.
pub enum PhraseView {
    Text(Seq<char>),
    Other(Seq<char>),
}

impl View for Phrase {
    type V = PhraseView;

    open spec fn view(&self) -> PhraseView {
        match self {
            Phrase::Text(s) => PhraseView::Text(s@),
            Phrase::Other(s) => PhraseView::Other(s@),
        }
    }
}

/// How a stored value prints: text in double quotes, anything else as carried.
pub open spec fn phrase_display(p: PhraseView) -> Seq<char> {
    match p {
        PhraseView::Text(s) => seq!['"'] + s + seq!['"'],
        PhraseView::Other(d) => d,
    }
}

/// A copy of a phrase.
pub fn copy_phrase(p: &Phrase) -> (r: Phrase)
    ensures
        r@ == p@,
{
    match p {
        Phrase::Text(s) => Phrase::Text(s.clone()),
        Phrase::Other(s) => Phrase::Other(s.clone()),
    }
}

/// The views of a list of phrases.
pub open spec fn phrase_views(v: Seq<Phrase>) -> Seq<PhraseView> {
    v.map_values(|p: Phrase| p@)
}

/// A list of phrases as the bot shows it to a user.
pub struct UserPhrase {
    words: Vec<Phrase>,
}

impl View for UserPhrase {
    type V = Seq<PhraseView>;

    closed spec fn view(&self) -> Seq<PhraseView> {
        phrase_views(self.words@)
    }
}

/// The first line of a shown list (a blank line, then a row of diamonds).
pub open spec fn list_head() -> Seq<char> {
    "\n🔸🔸🔸🔸🔸🔸🔸🔸🔸\n\n"@
}

/// The last line of a shown list.
pub open spec fn list_foot() -> Seq<char> {
    "🔸🔸🔸🔸🔸🔸🔸🔸🔸"@
}

/// The numbered entries: `"1) <first>\n\n2) <second>\n\n..."`.
pub open spec fn list_entries(words: Seq<PhraseView>) -> Seq<char>
    decreases words.len(),
{
    if words.len() == 0 {
        Seq::empty()
    } else {
        list_entries(words.drop_last()) + int_text(words.len() as int) + ") "@ + phrase_display(
            words.last(),
        ) + "\n\n"@
    }
}

/// The whole text of a shown list.
pub open spec fn rendered_list(words: Seq<PhraseView>) -> Seq<char> {
    list_head() + list_entries(words) + list_foot()
}

/// Showing one more text phrase adds one entry at the end of the list: its
/// number, then the whole phrase between double quotes.
pub proof fn lemma_entries_push_text(words: Seq<PhraseView>, s: Seq<char>)
    ensures
        list_entries(words.push(PhraseView::Text(s))) == list_entries(words) + int_text(
            words.len() + 1 as int,
        ) + ") \""@ + s + "\"\n\n"@,
{
    reveal_strlit(") \"");
    reveal_strlit(") ");
    reveal_strlit("\"\n\n");
    reveal_strlit("\n\n");
    let w = words.push(PhraseView::Text(s));
    assert(w.drop_last() =~= words);
    assert(list_entries(w) =~= list_entries(words) + int_text(words.len() + 1 as int) + ") \""@ + s
        + "\"\n\n"@);
}

/// Showing one more phrase of another kind adds its printed form as the
/// next numbered entry.
pub proof fn lemma_entries_push_other(words: Seq<PhraseView>, d: Seq<char>)
    ensures
        list_entries(words.push(PhraseView::Other(d))) == list_entries(words) + int_text(
            words.len() + 1 as int,
        ) + ") "@ + d + "\n\n"@,
{
    let w = words.push(PhraseView::Other(d));
    assert(w.drop_last() =~= words);
}

/// A list of one text phrase shows it whole, between double quotes, as entry 1.
pub proof fn lemma_render_single_text(s: Seq<char>)
    ensures
        rendered_list(seq![PhraseView::Text(s)]) == list_head() + "1) \""@ + s + "\"\n\n"@
            + list_foot(),
{
    reveal_strlit("1) \"");
    reveal_strlit(") \"");
    lemma_entries_push_text(Seq::empty(), s);
    assert(Seq::<PhraseView>::empty().push(PhraseView::Text(s)) =~= seq![PhraseView::Text(s)]);
    assert(list_entries(Seq::<PhraseView>::empty()) =~= Seq::<char>::empty());
    assert(int_text(1) =~= seq!['1']);
    assert(int_text(1) + ") \""@ =~= "1) \""@);
    assert(rendered_list(seq![PhraseView::Text(s)]) =~= list_head() + "1) \""@ + s
        + "\"\n\n"@ + list_foot());
}

impl UserPhrase {
    /// The list of the given phrases, in order.
    pub fn new(arr: &Vec<Phrase>) -> (r: UserPhrase)
        ensures
            r@ == phrase_views(arr@),
    {
        UserPhrase { words: copy_phrases(arr) }
    }

    /// The list holding one text phrase.
    pub fn from_str(single_str: &str) -> (r: UserPhrase)
        ensures
            r@ == seq![PhraseView::Text(single_str@)],
    {
        let mut words: Vec<Phrase> = Vec::new();
        words.push(Phrase::Text(String::from_str(single_str)));
        let r = UserPhrase { words };
        assert(r@ =~= seq![PhraseView::Text(single_str@)]);
        r
    }

    /// The text in which the bot shows the list.
    pub fn render(&self) -> (r: String)
        ensures
            r@ == rendered_list(self@),
    {
        let ghost w = self@;
        let mut r = String::from_str("\n🔸🔸🔸🔸🔸🔸🔸🔸🔸\n\n");
        let mut i: usize = 0;
        while i < self.words.len()
            invariant
                i <= self.words.len(),
                w == phrase_views(self.words@),
                r@ == list_head() + list_entries(w.take(i as int)),
            decreases self.words.len() - i,
        {
            let number = format_usize(i + 1);
            r.append(number.as_str());
            r.append(") ");
            match &self.words[i] {
                Phrase::Text(s) => {
                    r.append("\"");
                    r.append(s.as_str());
                    r.append("\"");
                    proof {
                        reveal_strlit("\"");
                    }
                },
                Phrase::Other(s) => {
                    r.append(s.as_str());
                },
            }
            r.append("\n\n");
            proof {
                let t = w.take(i as int + 1);
                assert(t.drop_last() =~= w.take(i as int));
                assert(t.last() == self.words@[i as int]@);
                assert(r@ =~= list_head() + list_entries(t));
            }
            i = i + 1;
        }
        assert(w.take(i as int) =~= w);
        r.append("🔸🔸🔸🔸🔸🔸🔸🔸🔸");
        r
    }
}

/// Picks one phrase uniformly at random with `rand`'s `SliceRandom::choose`,
/// which returns `None` exactly for an empty slice and otherwise a reference
/// to one of its elements. Which element comes back is left open.
#[verifier::external_body]
fn choose_random<'a>(items: &'a Vec<Phrase>) -> (r: Option<&'a Phrase>)
    ensures
        (items.len() == 0) == (r is None),
        r matches Some(p) ==> exists|i: int| 0 <= i < items.len() && items@[i] == *p,
{
    rand::seq::SliceRandom::choose(items.as_slice(), &mut rand::thread_rng())
}

/// The phrases of a user: the phrase list of the last of the user's records
/// that has one (records without a list are passed over), or none at all.
pub open spec fn last_phrase_list(records: Seq<Option<Seq<PhraseView>>>) -> Seq<PhraseView>
    decreases records.len(),
{
    if records.len() == 0 {
        Seq::empty()
    } else {
        match records.last() {
            Some(w) => w,
            None => last_phrase_list(records.drop_last()),
        }
    }
}

/// The views of the records' phrase lists.
pub open spec fn record_views(records: Seq<Option<Vec<Phrase>>>) -> Seq<Option<Seq<PhraseView>>> {
    records.map_values(
        |r: Option<Vec<Phrase>>|
            match r {
                Some(w) => Some(phrase_views(w@)),
                None => None,
            },
    )
}

/// A copy of a list of phrases.
fn copy_phrases(arr: &Vec<Phrase>) -> (r: Vec<Phrase>)
    ensures
        phrase_views(r@) == phrase_views(arr@),
{
    let mut words: Vec<Phrase> = Vec::new();
    let mut i: usize = 0;
    while i < arr.len()
        invariant
            i <= arr.len(),
            phrase_views(words@) == phrase_views(arr@).take(i as int),
        decreases arr.len() - i,
    {
        let p = copy_phrase(&arr[i]);
        let ghost prev = words@;
        words.push(p);
        assert(words@ == prev.push(p));
        assert(phrase_views(words@) =~= phrase_views(prev).push(p@));
        assert(phrase_views(words@) =~= phrase_views(arr@).take(i as int + 1));
        i = i + 1;
    }
    assert(phrase_views(arr@).take(i as int) =~= phrase_views(arr@));
    words
}

/// The phrases of a user from the user's records, in the order the
/// database returned them.
pub fn get_phrases(records: &Vec<Option<Vec<Phrase>>>) -> (r: Vec<Phrase>)
    ensures
        phrase_views(r@) == last_phrase_list(record_views(records@)),
{
    let ghost rv = record_views(records@);
    let mut i: usize = records.len();
    assert(rv.take(i as int) =~= rv);
    while i > 0
        invariant
            i <= records.len(),
            rv == record_views(records@),
            last_phrase_list(rv) == last_phrase_list(rv.take(i as int)),
        decreases i,
    {
        let ghost t = rv.take(i as int);
        assert(t.drop_last() =~= rv.take(i as int - 1));
        assert(t.last() == rv[i as int - 1]);
        match &records[i - 1] {
            Some(w) => {
                return copy_phrases(w);
            },
            None => {},
        }
        i = i - 1;
    }
    assert(rv.take(0) =~= Seq::<Option<Seq<PhraseView>>>::empty());
    Vec::new()
}

/// A random phrase of the list, or the text `Empty list` where it is empty.
pub fn get_random_phrase(phrases: &Vec<Phrase>) -> (r: Phrase)
    ensures
        phrases.len() == 0 ==> r@ == PhraseView::Text("Empty list"@),
        phrases.len() > 0 ==> exists|i: int| 0 <= i < phrases.len() && r@ == phrases@[i]@,
{
    match choose_random(phrases) {
        Some(p) => copy_phrase(p),
        None => Phrase::Text(String::from_str("Empty list")),
    }
}

/// The reminder message for a phrase: the phrase shown as a one-entry list.
/// `None` where the phrase is not text, which the bot does not send.
pub fn reminder_message(phrase: &Phrase) -> (r: Option<String>)
    ensures
        match phrase@ {
            PhraseView::Text(s) => r matches Some(m) && m@ == rendered_list(
                seq![PhraseView::Text(s)],
            ),
            PhraseView::Other(_) => r is None,
        },
{
    match phrase {
        Phrase::Text(s) => {
            let list = UserPhrase::from_str(s.as_str());
            Some(list.render())
        },
        Phrase::Other(_) => None,
    }
}

} // verus!
