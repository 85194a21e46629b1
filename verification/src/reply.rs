//! The texts that the bot sends back.
use vstd::prelude::*;
use crate::phrase::{copy_phrase, phrase_views, rendered_list, Phrase, UserPhrase};
use crate::model::TimeZoneRawData;
use crate::schedule::{join, sign_and_digits};

verus! {

/// The help text, which lists the commands.
pub const HELP_MESSAGE: &'static str = "\
Hello my friend ✌
This bot helps you to enjoy your life and remember the most important things ☺️
You can:
1️⃣  Add new importance phrase for your list (/new <long or short phrase>)
2️⃣  Remove phrase (/remove <the exact phrase to be deleted>)
3️⃣  Get list your phrase (/list)
4️⃣  Get random phrase from list (/random)
5️⃣  Update your location to adjust the reminder schedule (/location)
6️⃣  Schedule concrete time (/schedule <time list>)
     |
      --> Example: /schedule 9,12,15,21,23
7️⃣ Clear list (/clear)
8️⃣ Show help message (/help)

❗️❗️❗️Feel free to send me any feedback please (@rail_khamitov)
";

/// Reply to `/new` with a phrase that is too long.
pub const PHRASE_TOO_LONG_REPLY: &'static str = "☺️ Your message is too long. Max length = 300 characters";

/// Reply to `/remove` with a phrase that is too long to be stored.
pub const PHRASE_NOT_FOUND_REPLY: &'static str = "☺️ You do not have this phrase ";

/// Reply to `/new` without a phrase.
pub const NEW_USAGE_REPLY: &'static str = "❗️ Please send /new <new Word> command format";

/// Reply to `/location`.
pub const LOCATION_REQUEST_REPLY: &'static str = "📍 Okay, please send me you location \n⚠️ Only from mobile app. \n\nIf you are worried about the security of your address, you can send any other location close to you. We only need this information to determine your time zone";

/// Reply to `/schedule` when the new hours could not be stored.
pub const SCHEDULE_FAILED_REPLY: &'static str = "😔 Sorry, we can't change reminder time.";

/// Reply to `/schedule` from a user whose time zone is not known.
pub const LOCATION_UNKNOWN_REPLY: &'static str = "We can't set your schedule time because we do not know your location \nPlease specify location information (try /location)";

/// The text of the update notice, before the version.
pub const HELLO_HEAD: &'static str = "\
Hello!!!
We have some updates for you ☺️
Current bot version: ";

/// The text of the update notice, after the version.
pub const HELLO_TAIL: &'static str = "

📝 Release Notes:
🍏 Add custom time for reminder for each user (send command /schedule <time list>)
    |
    |
    - - -> Example: /schedule 9,12,15,21,23
📌 9,21 - means that the bot will send 2 reminders at 9 and 21 hours every day

➡️ Here's what we plan to do in the near future:
🍎 Add support image/sticker/video for your list

            ";

/// Reply to `/new`: the stored list after the phrase was added.
pub fn phrase_saved_reply(list: &UserPhrase) -> (r: String)
    ensures
        r@ == "I save your word ☺️ \nYour new word list 📋: "@ + rendered_list(list@) + " "@,
{
    let mut r = String::from_str("I save your word ☺️ \nYour new word list 📋: ");
    let shown = list.render();
    r.append(shown.as_str());
    r.append(" ");
    r
}

/// Reply to `/remove`: the stored list after the phrase was removed.
pub fn phrase_removed_reply(list: &UserPhrase) -> (r: String)
    ensures
        r@ == "Done 📗 \nYour new word list 📋: "@ + rendered_list(list@) + " "@,
{
    let mut r = String::from_str("Done 📗 \nYour new word list 📋: ");
    let shown = list.render();
    r.append(shown.as_str());
    r.append(" ");
    r
}

/// Reply to `/clear`: the stored list after clearing.
pub fn cleared_reply(list: &UserPhrase) -> (r: String)
    ensures
        r@ == "Done! \nYour list 📋:  "@ + rendered_list(list@),
{
    let mut r = String::from_str("Done! \nYour list 📋:  ");
    let shown = list.render();
    r.append(shown.as_str());
    r
}

/// Reply to `/random`: the chosen phrase shown as a one-entry list.
pub fn random_reply(phrase: &Phrase) -> (r: String)
    ensures
        r@ == rendered_list(seq![phrase@]),
{
    let mut one: Vec<Phrase> = Vec::new();
    one.push(copy_phrase(phrase));
    let list = UserPhrase::new(&one);
    assert(phrase_views(one@) =~= seq![phrase@]);
    list.render()
}

/// Reply to a message that is no command: the help text.
pub fn unknown_command_reply() -> (r: String)
    ensures
        r@ == "Please send correct command from list 📋: \n"@ + HELP_MESSAGE@,
{
    let mut r = String::from_str("Please send correct command from list 📋: \n");
    r.append(HELP_MESSAGE);
    r
}

/// Reply to a shared location: the time zone that was stored.
pub fn location_saved_reply(zone: &TimeZoneRawData) -> (r: String)
    ensures
        r@ == "Thank you.☺️ \nWe are saved timezone data "@ + zone.zone_name@
            + ". \nNow you can configure required schedule for reminders"@,
{
    let mut r = String::from_str("Thank you.☺️ \nWe are saved timezone data ");
    r.append(zone.zone_name.as_str());
    r.append(". \nNow you can configure required schedule for reminders");
    r
}

/// The notice about a new version of the bot.
pub fn hello_notification(version: &str) -> (r: String)
    ensures
        r@ == HELLO_HEAD@ + version@ + HELLO_TAIL@,
{
    let mut r = String::from_str(HELLO_HEAD);
    r.append(version);
    r.append(HELLO_TAIL);
    r
}

/// A string as `{:?}` prints it where no character needs an escape.
pub open spec fn debug_quoted(t: Seq<char>) -> Seq<char> {
    seq!['"'] + t + seq!['"']
}

/// A list of such strings as `{:?}` prints it: `["9", "12"]`.
pub open spec fn debug_list(ts: Seq<Seq<char>>) -> Seq<char> {
    "["@ + join(ts.map_values(|t: Seq<char>| debug_quoted(t)), ", "@) + "]"@
}

/// Reply to `/schedule` when the new hours were stored: the hours as `{:?}`
/// prints the list. The hours are the ones `parse_schedule_times` gives,
/// signs and digits only, which `{:?}` prints without escapes.
pub fn schedule_changed_reply(times: &Vec<String>) -> (r: String)
    requires
        forall|i: int| 0 <= i < times.len() ==> sign_and_digits(#[trigger] times[i]@),
    ensures
        r@ == "👍 Time for reminders changed on "@ + debug_list(times.deep_view()),
{
    let ghost l = times.deep_view();
    let ghost q = l.map_values(|t: Seq<char>| debug_quoted(t));
    let mut r = String::from_str("👍 Time for reminders changed on ");
    let ghost start = r@;
    r.append("[");
    proof {
        reveal_strlit("\"");
    }
    let mut i: usize = 0;
    while i < times.len()
        invariant
            i <= times.len(),
            l == times.deep_view(),
            q == l.map_values(|t: Seq<char>| debug_quoted(t)),
            r@ == start + "["@ + join(q.take(i as int), ", "@),
        decreases times.len() - i,
    {
        if i > 0 {
            r.append(", ");
        }
        let ghost mid = r@;
        r.append("\"");
        r.append(times[i].as_str());
        r.append("\"");
        proof {
            reveal_strlit("\"");
            assert(r@ =~= mid + debug_quoted(times[i as int]@));
            let t = q.take(i as int + 1);
            assert(t.drop_last() =~= q.take(i as int));
            assert(t.last() == debug_quoted(times[i as int]@));
            if i == 0 {
                assert(join(q.take(0), ", "@) =~= Seq::<char>::empty());
            }
            assert(r@ =~= start + "["@ + join(t, ", "@));
        }
        i = i + 1;
    }
    assert(q.take(i as int) =~= q);
    r.append("]");
    r
}

} // verus!
