use vstd::prelude::*;
use crate::text::{
    append, append_str, chars_of, has_prefix, join, joined, signed_decimal, signed_digits,
    starts_with, string_of, texts, trim, trimmed,
};

verus! {

/// The view of an optional string.
pub open spec fn text_of(s: Option<String>) -> Option<Seq<char>> {
    match s {
        Some(s) => Some(s@),
        None => None,
    }
}

/// The view of an optional string slice.
pub open spec fn str_of(s: Option<&str>) -> Option<Seq<char>> {
    match s {
        Some(s) => Some(s@),
        None => None,
    }
}

/// One character of a chat name as it is written out: a square bracket gets
/// a backslash in front.
pub open spec fn escape_one(c: char) -> Seq<char> {
    if c == '[' || c == ']' {
        seq!['\\', c]
    } else {
        seq![c]
    }
}

/// `s` with a backslash in front of every square bracket.
pub open spec fn escaped(s: Seq<char>) -> Seq<char>
    decreases s.len(),
{
    if s.len() == 0 {
        Seq::empty()
    } else {
        escaped(s.drop_last()) + escape_one(s.last())
    }
}

/// A chat name made safe for display: square brackets escaped, then the
/// white space at both ends taken off.
pub open spec fn sanitized(name: Seq<char>) -> Seq<char> {
    trimmed(escaped(name))
}

/// A chat name made safe for display.
pub fn sanitize_chat_name(name: &str) -> (clean: String)
    ensures
        clean@ == sanitized(name@),
{
    let chars = chars_of(name);
    let mut out: Vec<char> = Vec::new();
    let mut i: usize = 0;
    while i < chars.len()
        invariant
            i <= chars.len(),
            out@ == escaped(chars@.take(i as int)),
        decreases chars.len() - i,
    {
        let c = chars[i];
        if c == '[' || c == ']' {
            out.push('\\');
        }
        out.push(c);
        proof {
            let now = chars@.take(i + 1);
            assert(now.drop_last() =~= chars@.take(i as int));
            assert(out@ =~= escaped(now.drop_last()) + escape_one(now.last()));
        }
        i = i + 1;
    }
    assert(chars@.take(chars@.len() as int) =~= chars@);
    let clean = trim(&out);
    string_of(&clean)
}

/// The name under which a user is shown: first and last name where a first
/// name is known and the two are not empty together; else the user name
/// behind an at sign; else the word `User` and the user's number.
pub open spec fn display_name(
    first_name: Option<Seq<char>>,
    last_name: Option<Seq<char>>,
    username: Option<Seq<char>>,
    user_id: int,
) -> Seq<char> {
    let full = match first_name {
        Some(first) => match last_name {
            Some(last) => first + seq![' '] + last,
            None => first,
        },
        None => Seq::empty(),
    };
    if full.len() > 0 {
        full
    } else {
        match username {
            Some(user) => seq!['@'] + user,
            None => "User "@ + signed_digits(user_id),
        }
    }
}

/// The name under which a user is shown.
pub fn get_user_display_name(
    first_name: Option<&str>,
    last_name: Option<&str>,
    username: Option<&str>,
    user_id: i64,
) -> (name: String)
    ensures
        name@ == display_name(
            str_of(first_name),
            str_of(last_name),
            str_of(username),
            user_id as int,
        ),
{
    let mut full: Vec<char> = Vec::new();
    match first_name {
        Some(first) => {
            append_str(&mut full, first);
            match last_name {
                Some(last) => {
                    full.push(' ');
                    append_str(&mut full, last);
                    assert(full@ =~= first@ + seq![' '] + last@);
                },
                None => {
                    assert(full@ =~= first@);
                },
            }
        },
        None => {},
    }
    if full.len() > 0 {
        return string_of(&full);
    }
    let mut out: Vec<char> = Vec::new();
    match username {
        Some(user) => {
            out.push('@');
            append_str(&mut out, user);
            assert(out@ =~= seq!['@'] + user@);
        },
        None => {
            append_str(&mut out, "User ");
            let number = signed_decimal(user_id);
            append(&mut out, &number);
            assert(out@ =~= "User "@ + signed_digits(user_id as int));
        },
    }
    string_of(&out)
}

/// Ten to the power `k`.
pub open spec fn pow10(k: nat) -> nat
    decreases k,
{
    if k == 0 {
        1
    } else {
        10 * pow10((k - 1) as nat)
    }
}

/// Whether the decimal text of `a` is `100` followed by `k` digits, one at
/// least: the form in which a channel's number is handed out.
pub open spec fn channel_form(a: int, k: nat) -> bool {
    k >= 1 && 100 * pow10(k) <= a < 101 * pow10(k)
}

/// The number of a chat as panes hold it. A number that is not negative
/// stays. Of a negative one the sign is dropped, and where what is left has
/// the form of a channel's number, the leading `100` is dropped too. The
/// one number whose magnitude has no place in an `i64` stays as it is.
#[verifier::opaque]
pub open spec fn normalized(raw: int) -> int {
    let magnitude = -raw;
    if raw >= 0 {
        raw
    } else if exists|k: nat| channel_form(magnitude, k) {
        magnitude - 100 * pow10(choose|k: nat| channel_form(magnitude, k))
    } else if magnitude > i64::MAX {
        raw
    } else {
        magnitude
    }
}

pub proof fn lemma_pow10_grows(j: nat, k: nat)
    requires
        j <= k,
    ensures
        pow10(j) <= pow10(k),
        pow10(j) >= 1,
        j < k ==> 10 * pow10(j) <= pow10(k),
    decreases k,
{
    if j < k {
        lemma_pow10_grows(j, (k - 1) as nat);
    } else if k > 0 {
        lemma_pow10_grows((j - 1) as nat, (k - 1) as nat);
    }
}

/// A number has the form of a channel's number for one count of digits at
/// most.
pub proof fn lemma_channel_form_once(a: int, j: nat, k: nat)
    requires
        channel_form(a, j),
        channel_form(a, k),
    ensures
        j == k,
{
    if j < k {
        lemma_pow10_grows(j, k);
    } else if k < j {
        lemma_pow10_grows(k, j);
    }
}

/// The number of a chat as panes hold it.
pub fn normalize_chat_id(raw_id: i64) -> (id: i64)
    ensures
        id == normalized(raw_id as int),
{
    reveal(normalized);
    if raw_id >= 0 {
        return raw_id;
    }
    let magnitude: u64 = if raw_id == i64::MIN {
        9223372036854775808u64
    } else {
        (-raw_id) as u64
    };
    let hundreds: u64 = magnitude / 100;
    let mut scale: u64 = 10;
    let ghost mut k: nat = 1;
    assert(pow10(1) == 10) by {
        reveal_with_fuel(pow10, 2);
    }
    while scale <= hundreds
        invariant
            k >= 1,
            scale >= 10,
            scale == pow10(k),
            hundreds == magnitude / 100,
            magnitude == -raw_id,
            forall|j: nat| 1 <= j < k ==> !channel_form(magnitude as int, j),
        decreases
            (if scale <= hundreds {
                hundreds - scale + 1
            } else {
                0
            }),
    {
        if magnitude - 100 * scale < scale {
            proof {
                reveal(normalized);
                assert(channel_form(magnitude as int, k));
                let chosen = choose|j: nat| channel_form(magnitude as int, j);
                lemma_channel_form_once(magnitude as int, chosen, k);
            }
            return (magnitude - 100 * scale) as i64;
        }
        proof {
            assert(pow10(k + 1) == 10 * pow10(k));
        }
        scale = scale * 10;
        proof {
            k = k + 1;
        }
    }
    proof {
        assert forall|j: nat| !channel_form(magnitude as int, j) by {
            if j >= k {
                lemma_pow10_grows(k, j);
            }
        }
    }
    if raw_id == i64::MIN {
        raw_id
    } else {
        magnitude as i64
    }
}

/// The commands that a prefix can be completed to, each as it is typed,
/// with the blank that separates it from its arguments.
pub open spec fn command_names() -> Seq<Seq<char>> {
    seq![
        "/reply "@,
        "/media "@,
        "/m "@,
        "/edit "@,
        "/e "@,
        "/delete "@,
        "/del "@,
        "/d "@,
        "/alias "@,
        "/unalias "@,
        "/filter "@,
        "/search "@,
        "/s "@,
        "/new "@,
        "/newgroup "@,
        "/add "@,
        "/kick "@,
        "/remove "@,
        "/members"@,
        "/forward "@,
        "/fwd "@,
        "/f "@,
    ]
}

/// The commands that a prefix can be completed to.
pub fn commands() -> (list: Vec<Vec<char>>)
    ensures
        texts(list@) == command_names(),
{
    let mut list: Vec<Vec<char>> = Vec::new();
    list.push(chars_of("/reply "));
    list.push(chars_of("/media "));
    list.push(chars_of("/m "));
    list.push(chars_of("/edit "));
    list.push(chars_of("/e "));
    list.push(chars_of("/delete "));
    list.push(chars_of("/del "));
    list.push(chars_of("/d "));
    list.push(chars_of("/alias "));
    list.push(chars_of("/unalias "));
    list.push(chars_of("/filter "));
    list.push(chars_of("/search "));
    list.push(chars_of("/s "));
    list.push(chars_of("/new "));
    list.push(chars_of("/newgroup "));
    list.push(chars_of("/add "));
    list.push(chars_of("/kick "));
    list.push(chars_of("/remove "));
    list.push(chars_of("/members"));
    list.push(chars_of("/forward "));
    list.push(chars_of("/fwd "));
    list.push(chars_of("/f "));
    assert(texts(list@) =~= command_names());
    list
}

/// Those of `names` that begin with `text`, in their order.
pub open spec fn matching(names: Seq<Seq<char>>, text: Seq<char>) -> Seq<Seq<char>>
    decreases names.len(),
{
    if names.len() == 0 {
        Seq::empty()
    } else if has_prefix(names.last(), text) {
        matching(names.drop_last(), text).push(names.last())
    } else {
        matching(names.drop_last(), text)
    }
}

/// How many characters `a` and `b` have in common from position `from` on,
/// before they differ or one of them ends.
pub open spec fn agree_from(a: Seq<char>, b: Seq<char>, from: int) -> int
    decreases a.len() - from,
{
    if 0 <= from < a.len() && from < b.len() && a[from] == b[from] {
        1 + agree_from(a, b, from + 1)
    } else {
        0
    }
}

pub proof fn lemma_agree_from(a: Seq<char>, b: Seq<char>, from: int, stop: int)
    requires
        0 <= from <= stop <= a.len(),
        stop <= b.len(),
        forall|k: int| from <= k < stop ==> a[k] == b[k],
        stop < a.len() && stop < b.len() ==> a[stop] != b[stop],
    ensures
        agree_from(a, b, from) == stop - from,
    decreases stop - from,
{
    if from < stop {
        lemma_agree_from(a, b, from + 1, stop);
    }
}

/// The longest beginning that all of `parts` share.
pub open spec fn common_prefix(parts: Seq<Seq<char>>) -> Seq<char>
    decreases parts.len(),
{
    if parts.len() == 0 {
        Seq::empty()
    } else if parts.len() == 1 {
        parts[0]
    } else {
        let shared = common_prefix(parts.drop_last());
        shared.take(agree_from(shared, parts.last(), 0))
    }
}

/// Each of `parts` without the white space at its ends.
pub open spec fn all_trimmed(parts: Seq<Seq<char>>) -> Seq<Seq<char>> {
    Seq::new(parts.len(), |k: int| trimmed(parts[k]))
}

/// What the tabulator key makes of the input `text`: a completed input, or
/// a hint that lists the commands to choose from, or neither. Text that
/// does not begin with a slash is no command. Where one command begins
/// with the text, it is the completion. Where several do, the completion is
/// what they all share, if that is longer than the text; else the hint
/// names them.
#[verifier::opaque]
pub open spec fn completion(text: Seq<char>) -> (Option<Seq<char>>, Option<Seq<char>>) {
    let found = matching(command_names(), text);
    if !has_prefix(text, "/"@) {
        (None, None)
    } else if found.len() == 1 {
        (Some(found[0]), None)
    } else if found.len() > 1 {
        if common_prefix(found).len() > text.len() {
            (Some(common_prefix(found)), None)
        } else {
            (None, Some("Options: "@ + joined(all_trimmed(found), ", "@)))
        }
    } else {
        (None, None)
    }
}

/// The longest beginning that all of `parts` share.
pub fn shared_prefix(parts: &Vec<Vec<char>>) -> (shared: Vec<char>)
    ensures
        shared@ == common_prefix(texts(parts@)),
{
    let ghost all = texts(parts@);
    let mut shared: Vec<char> = Vec::new();
    let mut i: usize = 0;
    while i < parts.len()
        invariant
            i <= parts.len(),
            all == texts(parts@),
            shared@ == common_prefix(all.take(i as int)),
        decreases parts.len() - i,
    {
        let ghost before = all.take(i as int);
        let ghost now = all.take(i + 1);
        assert(now.drop_last() =~= before);
        assert(now.last() == parts@[i as int]@);
        if i == 0 {
            append(&mut shared, &parts[i]);
            assert(shared@ =~= now[0]);
        } else {
            let other = &parts[i];
            let mut n: usize = 0;
            while n < shared.len() && n < other.len() && shared[n] == other[n]
                invariant
                    n <= shared.len(),
                    n <= other.len(),
                    forall|k: int| 0 <= k < n ==> shared@[k] == other@[k],
                decreases shared.len() - n,
            {
                n = n + 1;
            }
            proof {
                lemma_agree_from(shared@, other@, 0, n as int);
            }
            shared.truncate(n);
            assert(shared@ =~= common_prefix(now));
        }
        i = i + 1;
    }
    assert(all.take(all.len() as int) =~= all);
    shared
}

/// What the tabulator key makes of the input `text`: a completed input
/// and no hint, or a hint and no completion, or neither.
pub fn try_autocomplete(text: &str) -> (result: (Option<String>, Option<String>))
    ensures
        text_of(result.0) == completion(text@).0,
        text_of(result.1) == completion(text@).1,
{
    reveal(completion);
    let typed = chars_of(text);
    let slash = chars_of("/");
    if !starts_with(&typed, &slash) {
        return (None, None);
    }
    let all = commands();
    let ghost names = texts(all@);
    let mut found: Vec<Vec<char>> = Vec::new();
    let mut i: usize = 0;
    while i < all.len()
        invariant
            i <= all.len(),
            names == texts(all@),
            texts(found@) == matching(names.take(i as int), typed@),
        decreases all.len() - i,
    {
        let ghost now = names.take(i + 1);
        assert(now.drop_last() =~= names.take(i as int));
        assert(now.last() == all@[i as int]@);
        if starts_with(&all[i], &typed) {
            let mut copy: Vec<char> = Vec::new();
            append(&mut copy, &all[i]);
            let ghost before = texts(found@);
            found.push(copy);
            assert(texts(found@) =~= before.push(all@[i as int]@));
        }
        i = i + 1;
    }
    assert(names.take(names.len() as int) =~= names);
    if found.len() == 1 {
        let only = string_of(&found[0]);
        assert(texts(found@)[0] == found@[0]@);
        return (Some(only), None);
    }
    if found.len() > 1 {
        let shared = shared_prefix(&found);
        if shared.len() > typed.len() {
            return (Some(string_of(&shared)), None);
        }
        let mut short: Vec<Vec<char>> = Vec::new();
        let mut j: usize = 0;
        while j < found.len()
            invariant
                j <= found.len(),
                short.len() == j,
                forall|k: int| 0 <= k < j ==> (#[trigger] short@[k])@ == trimmed(found@[k]@),
            decreases found.len() - j,
        {
            short.push(trim(&found[j]));
            j = j + 1;
        }
        assert(texts(short@) =~= all_trimmed(texts(found@)));
        let comma = chars_of(", ");
        let list = join(&short, 0, &comma);
        assert(texts(short@).skip(0) =~= texts(short@));
        let mut hint = chars_of("Options: ");
        append(&mut hint, &list);
        return (None, Some(string_of(&hint)));
    }
    (None, None)
}

/// What `chrono` writes for the instant `timestamp`, in seconds since the
/// beginning of 1970, as seen `offset` seconds east of Greenwich, under
/// the pattern `pattern`; none where the instant or the offset is beyond
/// what `chrono` takes.
pub uninterp spec fn zoned(timestamp: i64, offset: i32, pattern: Seq<char>) -> Option<Seq<char>>;

/// The patterns under which an instant is written here: the day, the time
/// of day, and both.
pub open spec fn is_time_pattern(pattern: Seq<char>) -> bool {
    pattern == "%Y-%m-%d"@ || pattern == "%H:%M"@ || pattern == "%Y-%m-%d %H:%M"@
}

/// Calls `DateTime::format` of `chrono` on the instant that
/// `DateTime::from_timestamp` makes of `timestamp`, moved by
/// `DateTime::with_timezone` into the zone that `FixedOffset::east_opt`
/// makes of `offset`. Where one of the two makes nothing, there is no
/// text. The text depends on the three arguments alone; it is given the
/// name `zoned`. The patterns are fixed, for `chrono` cannot write under a
/// pattern that it does not know.
#[verifier::external_body]
fn zoned_text(timestamp: i64, offset: i32, pattern: &str) -> (text: Option<String>)
    requires
        is_time_pattern(pattern@),
    ensures
        text_of(text) == zoned(timestamp, offset, pattern@),
{
    let utc = chrono::DateTime::from_timestamp(timestamp, 0)?;
    let zone = chrono::FixedOffset::east_opt(offset)?;
    Some(utc.with_timezone(&zone).format(pattern).to_string())
}

/// How the time of a message is shown, told from what was written of it:
/// the time of day alone where the message is of the day `today`, else the
/// day and the time of day. Where nothing was written, nothing is shown.
pub open spec fn time_label(
    day: Option<Seq<char>>,
    today: Option<Seq<char>>,
    clock: Option<Seq<char>>,
    full: Option<Seq<char>>,
) -> Seq<char> {
    let chosen = if day.is_some() && day == today {
        clock
    } else {
        full
    };
    match chosen {
        Some(text) => text,
        None => Seq::empty(),
    }
}

/// How the time of a message is shown, told from what was written of it.
pub fn choose_time_label(
    day: Option<String>,
    today: Option<String>,
    clock: Option<String>,
    full: Option<String>,
) -> (label: String)
    ensures
        label@ == time_label(text_of(day), text_of(today), text_of(clock), text_of(full)),
{
    let same_day = match (&day, &today) {
        (Some(a), Some(b)) => {
            let a_chars = chars_of(a.as_str());
            let b_chars = chars_of(b.as_str());
            crate::text::same(&a_chars, &b_chars)
        },
        _ => false,
    };
    let chosen = if same_day {
        clock
    } else {
        full
    };
    match chosen {
        Some(text) => text,
        None => String::new(),
    }
}

/// The day of the instant `timestamp` as it is read `offset` seconds east
/// of Greenwich.
pub open spec fn day_of(timestamp: i64, offset: i32) -> Option<Seq<char>> {
    zoned(timestamp, offset, "%Y-%m-%d"@)
}

/// Whether the instants `a` and `b` are of one day, read `offset` seconds
/// east of Greenwich. An instant that cannot be written is of no day.
pub open spec fn same_day(a: i64, b: i64, offset: i32) -> bool {
    day_of(a, offset).is_some() && day_of(a, offset) == day_of(b, offset)
}

/// Whether the instants `a` and `b` are of one day, read `offset` seconds
/// east of Greenwich.
pub fn is_same_day(a: i64, b: i64, offset: i32) -> (same: bool)
    ensures
        same == same_day(a, b, offset),
{
    let day_a = zoned_text(a, offset, "%Y-%m-%d");
    let day_b = zoned_text(b, offset, "%Y-%m-%d");
    match (&day_a, &day_b) {
        (Some(x), Some(y)) => {
            let x_chars = chars_of(x.as_str());
            let y_chars = chars_of(y.as_str());
            crate::text::same(&x_chars, &y_chars)
        },
        _ => false,
    }
}

/// The instant that is shown for a message: its own, or the present one
/// where its own is beyond what can be written.
pub open spec fn shown_instant(timestamp: i64, now: i64, offset: i32) -> i64 {
    if zoned(timestamp, offset, "%Y-%m-%d"@).is_some() {
        timestamp
    } else {
        now
    }
}

/// How the time of the message of the instant `timestamp` is shown at the
/// instant `now`, `offset` seconds east of Greenwich.
pub open spec fn message_time(timestamp: i64, now: i64, offset: i32) -> Seq<char> {
    let shown = shown_instant(timestamp, now, offset);
    time_label(
        zoned(shown, offset, "%Y-%m-%d"@),
        zoned(now, offset, "%Y-%m-%d"@),
        zoned(shown, offset, "%H:%M"@),
        zoned(shown, offset, "%Y-%m-%d %H:%M"@),
    )
}

/// How the time of the message of the instant `timestamp` is shown at the
/// instant `now`, `offset` seconds east of Greenwich.
pub fn format_message_time(timestamp: i64, now: i64, offset: i32) -> (label: String)
    ensures
        label@ == message_time(timestamp, now, offset),
{
    let own_day = zoned_text(timestamp, offset, "%Y-%m-%d");
    let shown = if own_day.is_some() {
        timestamp
    } else {
        now
    };
    let day = zoned_text(shown, offset, "%Y-%m-%d");
    let today = zoned_text(now, offset, "%Y-%m-%d");
    let clock = zoned_text(shown, offset, "%H:%M");
    let full = zoned_text(shown, offset, "%Y-%m-%d %H:%M");
    choose_time_label(day, today, clock, full)
}

} // verus!
