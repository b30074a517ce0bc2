use vstd::prelude::*;

verus! {

/// `String::push` of the standard library appends one character to the end
/// of the string and leaves the characters before it as they were.
pub assume_specification[ String::push ](s: &mut String, c: char)
    ensures
        final(s)@ == old(s)@.push(c),
;

/// The characters of `s`, one for one.
pub fn chars_of(s: &str) -> (v: Vec<char>)
    ensures
        v@ == s@,
{
    broadcast use vstd::string::group_string_axioms;

    let mut v: Vec<char> = Vec::new();
    for c in it: s.chars()
        invariant
            it.seq() == s@,
            v@ == it.seq().take(it.index() as int),
    {
        v.push(c);
        assert(it.seq().take(it.index() as int).push(c) =~= it.seq().take(it.index() + 1));
    }
    assert(s@.take(s@.len() as int) =~= s@);
    v
}

/// The string made of the characters `v`, one for one.
pub fn string_of(v: &Vec<char>) -> (s: String)
    ensures
        s@ == v@,
{
    let mut s = String::new();
    let mut i: usize = 0;
    while i < v.len()
        invariant
            i <= v.len(),
            s@ == v@.take(i as int),
        decreases v.len() - i,
    {
        s.push(v[i]);
        assert(v@.take(i as int).push(v@[i as int]) =~= v@.take(i + 1));
        i = i + 1;
    }
    assert(v@.take(v@.len() as int) =~= v@);
    s
}

/// Appends the characters `src` to `dst`.
pub fn append(dst: &mut Vec<char>, src: &Vec<char>)
    ensures
        final(dst)@ == old(dst)@ + src@,
{
    let mut i: usize = 0;
    while i < src.len()
        invariant
            i <= src.len(),
            dst@ == old(dst)@ + src@.take(i as int),
        decreases src.len() - i,
    {
        dst.push(src[i]);
        assert(dst@ =~= old(dst)@ + src@.take(i + 1));
        i = i + 1;
    }
    assert(src@.take(src@.len() as int) =~= src@);
}

/// Appends the characters of `src` to `dst`.
pub fn append_str(dst: &mut Vec<char>, src: &str)
    ensures
        final(dst)@ == old(dst)@ + src@,
{
    let chars = chars_of(src);
    append(dst, &chars);
}

/// A copy of the characters from position `from` up to, not including,
/// position `to`.
pub fn slice(s: &Vec<char>, from: usize, to: usize) -> (part: Vec<char>)
    requires
        from <= to <= s.len(),
    ensures
        part@ == s@.subrange(from as int, to as int),
{
    let mut part: Vec<char> = Vec::new();
    let mut i: usize = from;
    while i < to
        invariant
            from <= i <= to <= s.len(),
            part@ == s@.subrange(from as int, i as int),
        decreases to - i,
    {
        part.push(s[i]);
        assert(part@ =~= s@.subrange(from as int, i + 1));
        i = i + 1;
    }
    part
}

/// Whether two runs of characters are the same.
pub fn same(a: &Vec<char>, b: &Vec<char>) -> (eq: bool)
    ensures
        eq == (a@ == b@),
{
    if a.len() != b.len() {
        return false;
    }
    let mut i: usize = 0;
    while i < a.len()
        invariant
            i <= a.len(),
            a.len() == b.len(),
            a@.take(i as int) == b@.take(i as int),
        decreases a.len() - i,
    {
        if a[i] != b[i] {
            return false;
        }
        assert(a@.take(i + 1) =~= a@.take(i as int).push(a@[i as int]));
        assert(b@.take(i + 1) =~= b@.take(i as int).push(b@[i as int]));
        i = i + 1;
    }
    assert(a@.take(a@.len() as int) =~= a@);
    assert(b@.take(b@.len() as int) =~= b@);
    true
}

/// Whether `c` is white space: one of the code points that carry the
/// Unicode property White_Space.
pub open spec fn is_space(c: char) -> bool {
    let n = c as u32;
    ||| 0x09 <= n <= 0x0D
    ||| n == 0x20
    ||| n == 0x85
    ||| n == 0xA0
    ||| n == 0x1680
    ||| 0x2000 <= n <= 0x200A
    ||| n == 0x2028
    ||| n == 0x2029
    ||| n == 0x202F
    ||| n == 0x205F
    ||| n == 0x3000
}

/// Whether `c` is white space.
pub fn is_whitespace(c: char) -> (space: bool)
    ensures
        space == is_space(c),
{
    let n: u32 = c as u32;
    (0x09 <= n && n <= 0x0D) || n == 0x20 || n == 0x85 || n == 0xA0 || n == 0x1680 || (0x2000 <= n
        && n <= 0x200A) || n == 0x2028 || n == 0x2029 || n == 0x202F || n == 0x205F || n == 0x3000
}

/// Whether `s` begins with `prefix`.
pub open spec fn has_prefix(s: Seq<char>, prefix: Seq<char>) -> bool {
    prefix.len() <= s.len() && s.take(prefix.len() as int) == prefix
}

/// Whether `pattern` stands in `s` at position `at`.
pub open spec fn occurs_at(s: Seq<char>, pattern: Seq<char>, at: int) -> bool {
    0 <= at && at + pattern.len() <= s.len() && s.subrange(at, at + pattern.len()) == pattern
}

/// Whether `pattern` stands somewhere in `s`.
pub open spec fn has_infix(s: Seq<char>, pattern: Seq<char>) -> bool {
    exists|at: int| occurs_at(s, pattern, at)
}

/// Whether `pattern` stands in `s` at position `at`.
pub fn matches_at(s: &Vec<char>, pattern: &Vec<char>, at: usize) -> (hit: bool)
    ensures
        hit == occurs_at(s@, pattern@, at as int),
{
    if at > s.len() || pattern.len() > s.len() - at {
        return false;
    }
    let mut i: usize = 0;
    while i < pattern.len()
        invariant
            i <= pattern.len(),
            at + pattern.len() <= s.len(),
            s@.subrange(at as int, at + i) == pattern@.take(i as int),
        decreases pattern.len() - i,
    {
        if s[at + i] != pattern[i] {
            assert(s@.subrange(at as int, at + pattern.len())[i as int] != pattern@[i as int]);
            return false;
        }
        assert(s@.subrange(at as int, at + i + 1) =~= s@.subrange(at as int, at + i).push(
            s@[at + i],
        ));
        assert(pattern@.take(i + 1) =~= pattern@.take(i as int).push(pattern@[i as int]));
        i = i + 1;
    }
    assert(pattern@.take(pattern@.len() as int) =~= pattern@);
    true
}

/// Whether `s` begins with `prefix`.
pub fn starts_with(s: &Vec<char>, prefix: &Vec<char>) -> (hit: bool)
    ensures
        hit == has_prefix(s@, prefix@),
{
    let hit = matches_at(s, prefix, 0);
    proof {
        if prefix.len() <= s.len() {
            assert(s@.take(prefix@.len() as int) =~= s@.subrange(0, prefix@.len() as int));
        }
    }
    hit
}

/// Whether `pattern` stands somewhere in `s`.
pub fn contains(s: &Vec<char>, pattern: &Vec<char>) -> (hit: bool)
    ensures
        hit == has_infix(s@, pattern@),
{
    let mut at: usize = 0;
    while at < s.len()
        invariant
            at <= s.len(),
            forall|k: int| 0 <= k < at ==> !occurs_at(s@, pattern@, k),
        decreases s.len() - at,
    {
        if matches_at(s, pattern, at) {
            return true;
        }
        at = at + 1;
    }
    matches_at(s, pattern, at)
}

/// The character of the decimal digit `d`.
pub open spec fn digit_char(d: int) -> char {
    (48 + d) as char
}

/// The decimal digits of `n`, most significant first, without leading
/// zeros.
pub open spec fn digits(n: nat) -> Seq<char>
    decreases n,
{
    if n < 10 {
        seq![digit_char(n as int)]
    } else {
        digits(n / 10).push(digit_char((n % 10) as int))
    }
}

/// The decimal text of `n`, with a minus sign in front where it is
/// negative.
pub open spec fn signed_digits(n: int) -> Seq<char> {
    if n < 0 {
        seq!['-'] + digits((-n) as nat)
    } else {
        digits(n as nat)
    }
}

fn digit_of(d: u64) -> (c: char)
    requires
        d < 10,
    ensures
        c == digit_char(d as int),
{
    ((48 + d) as u8) as char
}

/// The decimal text of `n`.
pub fn decimal(n: u64) -> (text: Vec<char>)
    ensures
        text@ == digits(n as nat),
    decreases n,
{
    if n < 10 {
        let mut text: Vec<char> = Vec::new();
        text.push(digit_of(n));
        text
    } else {
        let mut text = decimal(n / 10);
        text.push(digit_of(n % 10));
        text
    }
}

/// The decimal text of `n`, a number of any size that the machine counts
/// to.
pub fn decimal_wide(n: u128) -> (text: Vec<char>)
    ensures
        text@ == digits(n as nat),
    decreases n,
{
    if n < 10 {
        let mut text: Vec<char> = Vec::new();
        text.push(digit_of(n as u64));
        text
    } else {
        let mut text = decimal_wide(n / 10);
        text.push(digit_of((n % 10) as u64));
        text
    }
}

/// The decimal text of the number that follows `n`.
pub fn ordinal(n: usize) -> (text: Vec<char>)
    ensures
        text@ == digits((n + 1) as nat),
{
    decimal_wide(n as u128 + 1)
}

/// The decimal text of `n`, with a minus sign in front where it is
/// negative.
pub fn signed_decimal(n: i64) -> (text: Vec<char>)
    ensures
        text@ == signed_digits(n as int),
{
    if n < 0 {
        let magnitude: u64 = if n == i64::MIN {
            9223372036854775808u64
        } else {
            (-n) as u64
        };
        let mut text: Vec<char> = Vec::new();
        text.push('-');
        let tail = decimal(magnitude);
        append(&mut text, &tail);
        text
    } else {
        decimal(n as u64)
    }
}

/// How many white-space characters stand at the beginning of `s`, counted
/// from position `from` on.
pub open spec fn spaces_from(s: Seq<char>, from: int) -> int
    decreases s.len() - from,
{
    if 0 <= from < s.len() && is_space(s[from]) {
        1 + spaces_from(s, from + 1)
    } else {
        0
    }
}

/// How many white-space characters stand at the end of the first `upto`
/// characters of `s`.
pub open spec fn spaces_before(s: Seq<char>, upto: int) -> int
    decreases upto,
{
    if 0 < upto <= s.len() && is_space(s[upto - 1]) {
        1 + spaces_before(s, upto - 1)
    } else {
        0
    }
}

/// `s` without the white space at its beginning and at its end.
pub open spec fn trimmed(s: Seq<char>) -> Seq<char> {
    let start = spaces_from(s, 0);
    if start >= s.len() {
        Seq::empty()
    } else {
        s.subrange(start, s.len() - spaces_before(s, s.len() as int))
    }
}

pub proof fn lemma_spaces_from(s: Seq<char>, from: int, stop: int)
    requires
        0 <= from <= stop <= s.len(),
        forall|k: int| from <= k < stop ==> is_space(#[trigger] s[k]),
        stop < s.len() ==> !is_space(s[stop]),
    ensures
        spaces_from(s, from) == stop - from,
    decreases stop - from,
{
    if from < stop {
        lemma_spaces_from(s, from + 1, stop);
    }
}

pub proof fn lemma_spaces_before(s: Seq<char>, upto: int, stop: int)
    requires
        0 <= stop <= upto <= s.len(),
        forall|k: int| stop <= k < upto ==> is_space(#[trigger] s[k]),
        stop > 0 ==> !is_space(s[stop - 1]),
    ensures
        spaces_before(s, upto) == upto - stop,
    decreases upto - stop,
{
    if stop < upto {
        lemma_spaces_before(s, upto - 1, stop);
    }
}

/// `s` without the white space at its beginning and at its end.
pub fn trim(s: &Vec<char>) -> (t: Vec<char>)
    ensures
        t@ == trimmed(s@),
{
    let mut start: usize = 0;
    while start < s.len() && is_whitespace(s[start])
        invariant
            start <= s.len(),
            forall|k: int| 0 <= k < start ==> is_space(#[trigger] s@[k]),
        decreases s.len() - start,
    {
        start = start + 1;
    }
    proof {
        lemma_spaces_from(s@, 0, start as int);
    }
    if start == s.len() {
        return Vec::new();
    }
    let mut end: usize = s.len();
    while end > start && is_whitespace(s[end - 1])
        invariant
            start <= end <= s.len(),
            start < s.len(),
            !is_space(s@[start as int]),
            forall|k: int| end <= k < s.len() ==> is_space(#[trigger] s@[k]),
        decreases end,
    {
        end = end - 1;
    }
    proof {
        lemma_spaces_before(s@, s@.len() as int, end as int);
    }
    slice(s, start, end)
}

/// The position of the first character from `from` on that is not white
/// space, or the length of `s`.
pub open spec fn word_start(s: Seq<char>, from: int) -> int {
    from + spaces_from(s, from)
}

/// How many characters that are not white space stand in `s` from position
/// `from` on, up to the next white space.
pub open spec fn word_len(s: Seq<char>, from: int) -> int
    decreases s.len() - from,
{
    if 0 <= from < s.len() && !is_space(s[from]) {
        1 + word_len(s, from + 1)
    } else {
        0
    }
}

pub proof fn lemma_word_len(s: Seq<char>, from: int, stop: int)
    requires
        0 <= from <= stop <= s.len(),
        forall|k: int| from <= k < stop ==> !is_space(#[trigger] s[k]),
        stop < s.len() ==> is_space(s[stop]),
    ensures
        word_len(s, from) == stop - from,
    decreases stop - from,
{
    if from < stop {
        lemma_word_len(s, from + 1, stop);
    }
}

pub proof fn lemma_scan_bounds(s: Seq<char>, from: int)
    requires
        0 <= from <= s.len(),
    ensures
        0 <= spaces_from(s, from) <= s.len() - from,
        0 <= word_len(s, from) <= s.len() - from,
        from < s.len() && !is_space(s[from]) ==> word_len(s, from) > 0,
    decreases s.len() - from,
{
    if from < s.len() {
        lemma_scan_bounds(s, from + 1);
    }
}

/// The words of `s` from position `from` on: the longest runs of
/// characters that are not white space, in their order.
pub open spec fn words_from(s: Seq<char>, from: int) -> Seq<Seq<char>>
    decreases s.len() - from,
{
    let start = word_start(s, from);
    let len = word_len(s, start);
    if 0 <= from <= start && len > 0 && start + len <= s.len() {
        seq![s.subrange(start, start + len)] + words_from(s, start + len)
    } else {
        Seq::empty()
    }
}

/// The words of `s`: the longest runs of characters that are not white
/// space, in their order.
pub open spec fn words(s: Seq<char>) -> Seq<Seq<char>> {
    words_from(s, 0)
}

/// What `words_from` gives from `from` on is what is still missing in the
/// words found so far.
pub open spec fn words_found(s: Seq<char>, found: Seq<Seq<char>>, from: int) -> bool {
    found + words_from(s, from) == words(s)
}

/// The words of `s`: the longest runs of characters that are not white
/// space, in their order.
pub fn split_words(s: &Vec<char>) -> (found: Vec<Vec<char>>)
    ensures
        found.len() == words(s@).len(),
        forall|k: int| 0 <= k < found.len() ==> (#[trigger] found@[k])@ == words(s@)[k],
{
    let mut found: Vec<Vec<char>> = Vec::new();
    let ghost mut model: Seq<Seq<char>> = Seq::empty();
    let mut at: usize = 0;
    assert(model + words_from(s@, 0) =~= words(s@));
    while at < s.len()
        invariant
            at <= s.len(),
            found.len() == model.len(),
            forall|k: int| 0 <= k < found.len() ==> (#[trigger] found@[k])@ == model[k],
            words_found(s@, model, at as int),
        decreases s.len() - at,
    {
        let mut start: usize = at;
        while start < s.len() && is_whitespace(s[start])
            invariant
                at <= start <= s.len(),
                forall|k: int| at <= k < start ==> is_space(#[trigger] s@[k]),
            decreases s.len() - start,
        {
            start = start + 1;
        }
        proof {
            lemma_spaces_from(s@, at as int, start as int);
        }
        let mut end: usize = start;
        while end < s.len() && !is_whitespace(s[end])
            invariant
                start <= end <= s.len(),
                forall|k: int| start <= k < end ==> !is_space(#[trigger] s@[k]),
            decreases s.len() - end,
        {
            end = end + 1;
        }
        proof {
            lemma_word_len(s@, start as int, end as int);
        }
        if start < s.len() {
            let word = slice(s, start, end);
            proof {
                assert(end > start);
                assert(model.push(word@) + words_from(s@, end as int) =~= model + words_from(
                    s@,
                    at as int,
                ));
                model = model.push(word@);
            }
            found.push(word);
            at = end;
        } else {
            proof {
                assert(words_from(s@, at as int) =~= Seq::<Seq<char>>::empty());
                assert(words_from(s@, s@.len() as int) =~= Seq::<Seq<char>>::empty());
            }
            at = start;
        }
    }
    proof {
        assert(words_from(s@, s@.len() as int) =~= Seq::<Seq<char>>::empty());
        assert(model =~= words(s@));
    }
    found
}

/// The parts, with `sep` between each two neighbours.
pub open spec fn joined(parts: Seq<Seq<char>>, sep: Seq<char>) -> Seq<char>
    decreases parts.len(),
{
    if parts.len() == 0 {
        Seq::empty()
    } else if parts.len() == 1 {
        parts[0]
    } else {
        joined(parts.drop_last(), sep) + sep + parts.last()
    }
}

/// The views of `parts`, one for one.
pub open spec fn texts(parts: Seq<Vec<char>>) -> Seq<Seq<char>> {
    Seq::new(parts.len(), |k: int| parts[k]@)
}

/// The parts from `from` on, with `sep` between each two neighbours.
pub fn join(parts: &Vec<Vec<char>>, from: usize, sep: &Vec<char>) -> (text: Vec<char>)
    requires
        from <= parts.len(),
    ensures
        text@ == joined(texts(parts@).skip(from as int), sep@),
{
    let ghost all = texts(parts@).skip(from as int);
    let mut text: Vec<char> = Vec::new();
    let mut i: usize = from;
    while i < parts.len()
        invariant
            from <= i <= parts.len(),
            all == texts(parts@).skip(from as int),
            text@ == joined(all.take(i - from), sep@),
        decreases parts.len() - i,
    {
        if i > from {
            append(&mut text, sep);
        }
        append(&mut text, &parts[i]);
        proof {
            let before = all.take(i - from);
            let now = all.take(i - from + 1);
            assert(now.drop_last() =~= before);
            assert(now.last() == parts@[i as int]@);
            if i == from {
                assert(text@ =~= now[0]);
            }
        }
        i = i + 1;
    }
    assert(all.take(all.len() as int) =~= all);
    text
}

/// Whether `c` is one of the ten decimal digits.
pub open spec fn is_digit(c: char) -> bool {
    48 <= c as u32 <= 57
}

/// Whether `s` is made of decimal digits alone.
pub open spec fn all_digits(s: Seq<char>) -> bool {
    forall|k: int| 0 <= k < s.len() ==> is_digit(#[trigger] s[k])
}

/// The number that the decimal digits `s` stand for.
pub open spec fn number_of(s: Seq<char>) -> int
    decreases s.len(),
{
    if s.len() == 0 {
        0
    } else {
        10 * number_of(s.drop_last()) + (s.last() as u32 - 48)
    }
}

/// The number that `s` stands for as a signed decimal numeral of 32 bits:
/// an optional sign, plus or minus, and one digit or more behind it. Text
/// of another form, or a number beyond the range, stands for none.
pub open spec fn parsed_i32(s: Seq<char>) -> Option<i32> {
    let signed = s.len() > 0 && (s[0] == '-' || s[0] == '+');
    let body = if signed {
        s.skip(1)
    } else {
        s
    };
    let value = if s.len() > 0 && s[0] == '-' {
        -number_of(body)
    } else {
        number_of(body)
    };
    if body.len() == 0 || !all_digits(body) || value < i32::MIN || value > i32::MAX {
        None
    } else {
        Some(value as i32)
    }
}

pub proof fn lemma_number_grows(s: Seq<char>, upto: int)
    requires
        all_digits(s),
        0 <= upto <= s.len(),
    ensures
        0 <= number_of(s.take(upto)) <= number_of(s),
    decreases s.len() - upto,
{
    if upto < s.len() {
        lemma_number_grows(s, upto + 1);
        let longer = s.take(upto + 1);
        assert(longer.drop_last() =~= s.take(upto));
        assert(is_digit(s[upto]));
        assert(longer.last() == s[upto]);
        lemma_number_nonnegative(s.take(upto));
    } else {
        assert(s.take(upto) =~= s);
        lemma_number_nonnegative(s);
    }
}

pub proof fn lemma_number_nonnegative(s: Seq<char>)
    requires
        all_digits(s),
    ensures
        0 <= number_of(s),
    decreases s.len(),
{
    if s.len() > 0 {
        assert(is_digit(s.last()));
        assert forall|k: int| 0 <= k < s.drop_last().len() implies is_digit(
            #[trigger] s.drop_last()[k],
        ) by {
            assert(s.drop_last()[k] == s[k]);
        }
        lemma_number_nonnegative(s.drop_last());
    }
}

/// The number that `s` stands for as a signed decimal numeral of 32 bits.
pub fn parse_i32(s: &Vec<char>) -> (value: Option<i32>)
    ensures
        value == parsed_i32(s@),
{
    let negative = s.len() > 0 && s[0] == '-';
    let signed = s.len() > 0 && (s[0] == '-' || s[0] == '+');
    let from: usize = if signed {
        1
    } else {
        0
    };
    let ghost body = if signed {
        s@.skip(1)
    } else {
        s@
    };
    if s.len() == from {
        return None;
    }
    let mut total: i64 = 0;
    let mut i: usize = from;
    assert(body.take(0) =~= Seq::<char>::empty());
    while i < s.len()
        invariant
            from <= i <= s.len(),
            from < s.len(),
            signed == (s@.len() > 0 && (s@[0] == '-' || s@[0] == '+')),
            body == (if signed {
                s@.skip(1)
            } else {
                s@
            }),
            body.len() == s@.len() - from,
            forall|k: int| 0 <= k < body.len() ==> body[k] == s@[k + from],
            all_digits(body.take(i - from)),
            0 <= total <= 2147483648,
            total == number_of(body.take(i - from)),
        decreases s.len() - i,
    {
        let c = s[i];
        let code: u32 = c as u32;
        let ghost seen = body.take(i - from);
        let ghost now = body.take(i - from + 1);
        proof {
            assert(now.drop_last() =~= seen);
            assert(now.last() == c);
        }
        if code < 48 || code > 57 {
            assert(!is_digit(body[i - from]));
            return None;
        }
        assert forall|k: int| 0 <= k < now.len() implies is_digit(#[trigger] now[k]) by {
            if k < seen.len() {
                assert(seen[k] == now[k]);
            }
        }
        let next: i64 = total * 10 + (code - 48) as i64;
        if next > 2147483648 {
            let mut j: usize = i + 1;
            while j < s.len()
                invariant
                    i < j <= s.len(),
                    from <= i,
                    signed == (s@.len() > 0 && (s@[0] == '-' || s@[0] == '+')),
                    body == (if signed {
                        s@.skip(1)
                    } else {
                        s@
                    }),
                    body.len() == s@.len() - from,
                    forall|k: int| 0 <= k < body.len() ==> body[k] == s@[k + from],
                    all_digits(body.take(j - from)),
                decreases s.len() - j,
            {
                let d: u32 = s[j] as u32;
                if d < 48 || d > 57 {
                    assert(!is_digit(body[j - from]));
                    return None;
                }
                assert forall|k: int| 0 <= k < body.take(j - from + 1).len() implies is_digit(
                    #[trigger] body.take(j - from + 1)[k],
                ) by {
                    if k < j - from {
                        assert(body.take(j - from)[k] == body.take(j - from + 1)[k]);
                    }
                }
                j = j + 1;
            }
            assert(number_of(now) == next);
            proof {
                assert(body.take(body.len() as int) =~= body);
                lemma_number_grows(body, i - from + 1);
                assert(number_of(body) > 2147483648);
            }
            return None;
        }
        total = next;
        i = i + 1;
    }
    proof {
        assert(body.take(body.len() as int) =~= body);
    }
    if negative {
        Some((-total) as i32)
    } else if total > 2147483647 {
        None
    } else {
        Some(total as i32)
    }
}

/// How many number signs stand at the beginning of `s`, from position
/// `from` on.
pub open spec fn hashes_from(s: Seq<char>, from: int) -> int
    decreases s.len() - from,
{
    if 0 <= from < s.len() && s[from] == '#' {
        1 + hashes_from(s, from + 1)
    } else {
        0
    }
}

pub proof fn lemma_hashes_from(s: Seq<char>, from: int, stop: int)
    requires
        0 <= from <= stop <= s.len(),
        forall|k: int| from <= k < stop ==> s[k] == '#',
        stop < s.len() ==> s[stop] != '#',
    ensures
        hashes_from(s, from) == stop - from,
    decreases stop - from,
{
    if from < stop {
        lemma_hashes_from(s, from + 1, stop);
    }
}

/// The number of the message that `s` names: the numeral behind any number
/// signs at its beginning.
pub open spec fn message_number(s: Seq<char>) -> Option<i32> {
    parsed_i32(s.skip(hashes_from(s, 0)))
}

/// The number of the message that `s` names.
pub fn parse_message_number(s: &str) -> (number: Option<i32>)
    ensures
        number == message_number(s@),
{
    let chars = chars_of(s);
    let mut start: usize = 0;
    while start < chars.len() && chars[start] == '#'
        invariant
            start <= chars.len(),
            forall|k: int| 0 <= k < start ==> chars@[k] == '#',
        decreases chars.len() - start,
    {
        start = start + 1;
    }
    proof {
        lemma_hashes_from(chars@, 0, start as int);
    }
    let rest = slice(&chars, start, chars.len());
    assert(rest@ =~= chars@.skip(start as int));
    parse_i32(&rest)
}

} // verus!
