//! The one-line signal format.
//!
//! A signal reads `@recipient verb:status {key: value, ...} -- note`. Several
//! recipients may lead, each with its own `@`, and a recipient may carry a
//! trailing colon. The status, the details and the note may be absent.
use vstd::prelude::*;
use crate::scan::{
    char_lists, find, find_char, first_at, has_text, index_from, is_word,
    law_split_cuts_at_each_separator, lemma_first_at, lemma_first_at_none, lemma_first_word,
    lemma_index_from, lemma_split_at_the_last, lemma_words_on, occurs_at, position, slice_text, split,
    split_chars, split_words, words,
};
use crate::text::{
    chars_eq, is_white, law_trimming_takes_the_whitespace_around, lemma_trimmed_is_fixed, to_chars,
    trim_bounds, trimmed,
};

verus! {

broadcast use vstd::seq_lib::group_seq_properties;

// -- The model ---------------------------------------------------------------

/// What a signal says, as sequences of characters.
pub struct SignalParts {
    pub recipients: Seq<Seq<char>>,
    pub verb: Seq<char>,
    pub status: Option<Seq<char>>,
    pub details: Seq<(Seq<char>, Seq<char>)>,
    pub note: Option<Seq<char>>,
}

/// Whether a post is a signal: it begins with `@`.
pub open spec fn is_signal_text(t: Seq<char>) -> bool {
    t.len() > 0 && t[0] == '@'
}

/// How many words at the front of `ws` are addresses.
pub open spec fn leading_addresses(ws: Seq<Seq<char>>, i: int) -> int
    decreases ws.len() - i,
{
    if 0 <= i < ws.len() && ws[i].len() > 0 && ws[i][0] == '@' {
        leading_addresses(ws, i + 1)
    } else {
        i
    }
}

/// The name in an address word: without its `@` and without a trailing colon.
pub open spec fn address_name(w: Seq<char>) -> Seq<char> {
    let bare = w.drop_first();
    if bare.len() > 0 && bare.last() == ':' {
        bare.drop_last()
    } else {
        bare
    }
}

/// The names that a signal is addressed to, in order; none for a plain post.
pub open spec fn recipients_of(t: Seq<char>) -> Seq<Seq<char>> {
    if is_signal_text(t) {
        let ws = words(t);
        ws.take(leading_addresses(ws, 0)).map_values(|w: Seq<char>| address_name(w))
    } else {
        Seq::empty()
    }
}

/// The part of a verb word in front of its first colon.
pub open spec fn verb_in(w: Seq<char>) -> Seq<char> {
    w.take(position(w, ':'))
}

/// The part of a verb word behind its first colon, if there is any.
pub open spec fn status_in(w: Seq<char>) -> Option<Seq<char>> {
    let i = position(w, ':');
    if i + 1 < w.len() {
        Some(w.skip(i + 1))
    } else {
        None
    }
}

/// The text in front of the note marker.
pub open spec fn head_of(t: Seq<char>) -> Seq<char> {
    match first_at(t, " -- "@, 0) {
        Some(i) => t.take(i),
        None => t,
    }
}

/// The note behind the first note marker, trimmed; absent where nothing is
/// left.
pub open spec fn note_of(t: Seq<char>) -> Option<Seq<char>> {
    match first_at(t, " -- "@, 0) {
        Some(i) => {
            let note = trimmed(t.skip(i + 4));
            if note.len() > 0 {
                Some(note)
            } else {
                None
            }
        },
        None => None,
    }
}

/// The key and value in one part of a details block: split at the first
/// colon, both trimmed. A part without a colon or without a key says nothing.
pub open spec fn detail_in(p: Seq<char>) -> Option<(Seq<char>, Seq<char>)> {
    let i = position(p, ':');
    let key = trimmed(p.take(i));
    if i < p.len() && key.len() > 0 {
        Some((key, trimmed(p.skip(i + 1))))
    } else {
        None
    }
}

/// The key-value pairs of the parts of a details block.
pub open spec fn details_in(parts: Seq<Seq<char>>) -> Seq<(Seq<char>, Seq<char>)>
    decreases parts.len(),
{
    if parts.len() == 0 {
        Seq::empty()
    } else {
        let before = details_in(parts.drop_last());
        match detail_in(parts.last()) {
            Some(pair) => before.push(pair),
            None => before,
        }
    }
}

/// The key-value pairs between the first `{` of the head and the next `}`.
pub open spec fn details_of(t: Seq<char>) -> Seq<(Seq<char>, Seq<char>)> {
    let head = head_of(t);
    let open = position(head, '{');
    let close = index_from(head, '}', open + 1);
    if open < head.len() && close < head.len() {
        details_in(split(head.subrange(open + 1, close), ','))
    } else {
        Seq::empty()
    }
}

/// What `t` says as a signal. A plain post says nothing, and neither does a
/// text without a recipient or without a verb.
pub open spec fn parsed(t: Seq<char>) -> Option<SignalParts> {
    let ws = words(t);
    let k = leading_addresses(ws, 0);
    if !is_signal_text(t) || k >= ws.len() {
        None
    } else {
        let w = ws[k];
        let verb = verb_in(w);
        if address_name(ws[0]).len() == 0 || w == "--"@ || verb.len() == 0 || verb[0] == '{' {
            None
        } else {
            Some(
                SignalParts {
                    recipients: recipients_of(t),
                    verb,
                    status: status_in(w),
                    details: details_of(t),
                    note: note_of(t),
                },
            )
        }
    }
}

/// The value that `pairs` give for `key`; a later pair overrides an earlier.
pub open spec fn detail_value(pairs: Seq<(Seq<char>, Seq<char>)>, key: Seq<char>) -> Option<Seq<char>>
    decreases pairs.len(),
{
    if pairs.len() == 0 {
        None
    } else if pairs.last().0 == key {
        Some(pairs.last().1)
    } else {
        detail_value(pairs.drop_last(), key)
    }
}

// -- The executable form -----------------------------------------------------

/// A parsed signal.
#[derive(Debug, Clone)]
pub struct Signal {
    pub recipients: Vec<String>,
    pub verb: String,
    pub status: Option<String>,
    pub details: Vec<(String, String)>,
    pub note: Option<String>,
}

/// An optional string as its characters.
pub open spec fn opt_text(s: Option<String>) -> Option<Seq<char>> {
    match s {
        Some(t) => Some(t@),
        None => None,
    }
}

/// A pair of strings as their characters.
pub open spec fn pair_text(p: (String, String)) -> (Seq<char>, Seq<char>) {
    (p.0@, p.1@)
}

impl View for Signal {
    type V = SignalParts;

    open spec fn view(&self) -> SignalParts {
        SignalParts {
            recipients: self.recipients@.map_values(|r: String| r@),
            verb: self.verb@,
            status: opt_text(self.status),
            details: self.details@.map_values(|p: (String, String)| pair_text(p)),
            note: opt_text(self.note),
        }
    }
}

/// Whether a post is a signal.
pub fn is_signal(text: &str) -> (yes: bool)
    ensures
        yes == is_signal_text(text@),
{
    let chars = to_chars(text);
    chars.len() > 0 && chars[0] == '@'
}

proof fn lemma_leading_addresses(ws: Seq<Seq<char>>, i: int)
    requires
        0 <= i <= ws.len(),
    ensures
        i <= leading_addresses(ws, i) <= ws.len(),
        forall|j: int|
            i <= j < leading_addresses(ws, i) ==> (#[trigger] ws[j]).len() > 0 && ws[j][0] == '@',
    decreases ws.len() - i,
{
    if i < ws.len() && ws[i].len() > 0 && ws[i][0] == '@' {
        lemma_leading_addresses(ws, i + 1);
    }
}

fn count_addresses(ws: &Vec<Vec<char>>) -> (k: usize)
    ensures
        k == leading_addresses(char_lists(ws@), 0),
        k <= ws@.len(),
        forall|j: int| 0 <= j < k ==> (#[trigger] ws@[j])@.len() > 0,
{
    let mut i: usize = 0;
    while i < ws.len() && ws[i].len() > 0 && ws[i][0] == '@'
        invariant
            i <= ws@.len(),
            leading_addresses(char_lists(ws@), 0) == leading_addresses(char_lists(ws@), i as int),
            forall|j: int| 0 <= j < i ==> (#[trigger] ws@[j])@.len() > 0,
        decreases ws@.len() - i,
    {
        assert(char_lists(ws@)[i as int] == ws@[i as int]@);
        i = i + 1;
    }
    assert(i < ws@.len() ==> char_lists(ws@)[i as int] == ws@[i as int]@);
    i
}

fn name_of(w: &Vec<char>) -> (name: String)
    requires
        w@.len() > 0,
    ensures
        name@ == address_name(w@),
{
    let n: usize = w.len();
    if n > 1 && w[n - 1] == ':' {
        let name = slice_text(w.as_slice(), 1, n - 1);
        assert(w@.drop_first().drop_last() == w@.subrange(1, n - 1));
        name
    } else {
        let name = slice_text(w.as_slice(), 1, n);
        assert(w@.drop_first() == w@.subrange(1, n as int));
        name
    }
}

fn names_of(ws: &Vec<Vec<char>>, k: usize) -> (names: Vec<String>)
    requires
        k <= ws@.len(),
        forall|j: int| 0 <= j < k ==> (#[trigger] ws@[j])@.len() > 0,
    ensures
        names@.map_values(|r: String| r@) == char_lists(ws@).take(k as int).map_values(
            |w: Seq<char>| address_name(w),
        ),
{
    let mut names: Vec<String> = Vec::new();
    for i in 0..k
        invariant
            k <= ws@.len(),
            names@.len() == i,
            forall|j: int| 0 <= j < k ==> (#[trigger] ws@[j])@.len() > 0,
            forall|j: int| 0 <= j < i ==> (#[trigger] names@[j])@ == address_name(ws@[j]@),
    {
        names.push(name_of(&ws[i]));
    }
    assert(names@.map_values(|r: String| r@) =~= char_lists(ws@).take(k as int).map_values(
        |w: Seq<char>| address_name(w),
    ));
    names
}

/// The names that a post is addressed to.
pub fn recipients(text: &str) -> (names: Vec<String>)
    ensures
        names@.map_values(|r: String| r@) == recipients_of(text@),
{
    if !is_signal(text) {
        let names: Vec<String> = Vec::new();
        assert(names@.map_values(|r: String| r@) =~= recipients_of(text@));
        return names;
    }
    let chars = to_chars(text);
    let ws = split_words(chars.as_slice());
    let k = count_addresses(&ws);
    names_of(&ws, k)
}

fn trimmed_text(chars: &[char], from: usize, to: usize) -> (out: String)
    requires
        from <= to <= chars@.len(),
    ensures
        out@ == trimmed(chars@.subrange(from as int, to as int)),
{
    let part = slice_text(chars, from, to);
    let part_chars = to_chars(part.as_str());
    let (a, b) = trim_bounds(part_chars.as_slice());
    slice_text(part_chars.as_slice(), a, b)
}

fn read_detail(p: &Vec<char>) -> (pair: Option<(String, String)>)
    ensures
        pair is Some <==> detail_in(p@) is Some,
        pair matches Some(kv) ==> detail_in(p@) == Some(pair_text(kv)),
{
    let i = find_char(p.as_slice(), ':', 0);
    if i >= p.len() {
        return None;
    }
    let key = trimmed_text(p.as_slice(), 0, i);
    assert(p@.take(i as int) == p@.subrange(0, i as int));
    if key.as_str().is_empty() {
        return None;
    }
    let value = trimmed_text(p.as_slice(), i + 1, p.len());
    assert(p@.skip(i + 1) == p@.subrange(i + 1, p@.len() as int));
    Some((key, value))
}

fn read_details(head: &[char]) -> (pairs: Vec<(String, String)>)
    ensures
        pairs@.map_values(|p: (String, String)| pair_text(p)) == ({
            let open = position(head@, '{');
            let close = index_from(head@, '}', open + 1);
            if open < head@.len() && close < head@.len() {
                details_in(split(head@.subrange(open + 1, close), ','))
            } else {
                Seq::empty()
            }
        }),
{
    let mut pairs: Vec<(String, String)> = Vec::new();
    let view = Ghost(|p: (String, String)| pair_text(p));
    let open = find_char(head, '{', 0);
    if open >= head.len() {
        assert(pairs@.map_values(view@) =~= Seq::empty());
        return pairs;
    }
    let close = find_char(head, '}', open + 1);
    if close >= head.len() {
        assert(pairs@.map_values(view@) =~= Seq::empty());
        return pairs;
    }
    let inside = to_chars(slice_text(head, open + 1, close).as_str());
    let parts = split_chars(inside.as_slice(), ',');
    let ghost all = char_lists(parts@);
    assert(pairs@.map_values(view@) =~= details_in(all.take(0)));
    for i in 0..parts.len()
        invariant
            all == char_lists(parts@),
            view@ == (|p: (String, String)| pair_text(p)),
            pairs@.map_values(view@) == details_in(all.take(i as int)),
    {
        assert(all.take(i + 1).drop_last() == all.take(i as int));
        assert(all.take(i + 1).last() == parts@[i as int]@);
        match read_detail(&parts[i]) {
            Some(pair) => {
                let ghost before = pairs@;
                pairs.push(pair);
                assert(pairs@.map_values(view@) =~= before.map_values(view@).push(pair_text(pair)));
            },
            None => {},
        }
    }
    assert(all.take(all.len() as int) == all);
    pairs
}

/// Where the note marker stands.
fn find_marker(chars: &[char]) -> (at: Option<usize>)
    ensures
        at is Some <==> first_at(chars@, " -- "@, 0) is Some,
        at matches Some(i) ==> first_at(chars@, " -- "@, 0) == Some(i as int) && i + 4
            <= chars@.len(),
{
    let marker = to_chars(" -- ");
    proof {
        reveal_strlit(" -- ");
    }
    find(chars, marker.as_slice())
}

/// Reads a signal.
pub fn parse_signal(text: &str) -> (out: Option<Signal>)
    ensures
        out is Some <==> parsed(text@) is Some,
        out matches Some(sig) ==> parsed(text@) == Some(sig@),
{
    let chars = to_chars(text);
    if chars.len() == 0 || chars[0] != '@' {
        return None;
    }
    let ws = split_words(chars.as_slice());
    let k = count_addresses(&ws);
    if k >= ws.len() {
        return None;
    }
    let ghost all = char_lists(ws@);
    assert(all[k as int] == ws@[k as int]@);
    proof {
        lemma_first_word(text@);
        lemma_leading_addresses(all, 1);
    }
    assert(all[0] == ws@[0]@);
    let first = name_of(&ws[0]);
    let word = &ws[k];
    let colon = find_char(word.as_slice(), ':', 0);
    let dashes = to_chars("--");
    if first.as_str().is_empty() || chars_eq(word.as_slice(), dashes.as_slice()) || colon == 0
        || word[0] == '{' {
        return None;
    }
    let verb = slice_text(word.as_slice(), 0, colon);
    assert(word@.take(colon as int) == word@.subrange(0, colon as int));
    let status = if colon < word.len() && colon + 1 < word.len() {
        assert(word@.skip(colon + 1) == word@.subrange(colon + 1, word@.len() as int));
        Some(slice_text(word.as_slice(), colon + 1, word.len()))
    } else {
        None
    };
    let names = names_of(&ws, k);
    let (details, note) = match find_marker(chars.as_slice()) {
        Some(i) => {
            let head = to_chars(slice_text(chars.as_slice(), 0, i).as_str());
            assert(chars@.take(i as int) == chars@.subrange(0, i as int));
            let note = trimmed_text(chars.as_slice(), i + 4, chars.len());
            assert(chars@.skip(i + 4) == chars@.subrange(i + 4, chars@.len() as int));
            let note = if note.as_str().is_empty() {
                None
            } else {
                Some(note)
            };
            (read_details(head.as_slice()), note)
        },
        None => (read_details(chars.as_slice()), None),
    };
    Some(Signal { recipients: names, verb, status, details, note })
}

// -- Writing a signal --------------------------------------------------------

/// The details block that writes out `pairs`, from the first to the last.
pub open spec fn details_text(pairs: Seq<(Seq<char>, Seq<char>)>) -> Seq<char>
    decreases pairs.len(),
{
    if pairs.len() == 0 {
        Seq::empty()
    } else {
        let before = details_text(pairs.drop_last());
        let lead = if pairs.len() == 1 {
            before
        } else {
            before + ", "@
        };
        lead + pairs.last().0 + ": "@ + pairs.last().1
    }
}

/// The text of a signal.
pub open spec fn signal_text(
    recipient: Seq<char>,
    verb: Seq<char>,
    status: Option<Seq<char>>,
    note: Option<Seq<char>>,
    details: Seq<(Seq<char>, Seq<char>)>,
) -> Seq<char> {
    let base = "@"@ + recipient + " "@ + verb;
    let with_status = match status {
        Some(s) => base + ":"@ + s,
        None => base,
    };
    let with_details = if details.len() > 0 {
        with_status + " {"@ + details_text(details) + "}"@
    } else {
        with_status
    };
    match note {
        Some(n) => with_details + " -- "@ + n,
        None => with_details,
    }
}

/// An optional string slice as its characters.
pub open spec fn opt_str(s: Option<&str>) -> Option<Seq<char>> {
    match s {
        Some(t) => Some(t@),
        None => None,
    }
}

/// Writes a signal.
pub fn format_signal(
    recipient: &str,
    verb: &str,
    status: Option<&str>,
    note: Option<&str>,
    details: &[(String, String)],
) -> (out: String)
    ensures
        out@ == signal_text(
            recipient@,
            verb@,
            opt_str(status),
            opt_str(note),
            details@.map_values(|p: (String, String)| pair_text(p)),
        ),
{
    let view = Ghost(|p: (String, String)| pair_text(p));
    let mut out = "@".to_string();
    out.append(recipient);
    out.append(" ");
    out.append(verb);
    if let Some(s) = status {
        out.append(":");
        out.append(s);
    }
    if details.len() > 0 {
        out.append(" {");
        let ghost before = out@;
        let ghost all = details@.map_values(view@);
        assert(all.take(0) == Seq::<(Seq<char>, Seq<char>)>::empty());
        for i in 0..details.len()
            invariant
                view@ == (|p: (String, String)| pair_text(p)),
                all == details@.map_values(view@),
                out@ == before + details_text(all.take(i as int)),
        {
            assert(all.take(i + 1).drop_last() == all.take(i as int));
            assert(all.take(i + 1).last() == pair_text(details@[i as int]));
            if i > 0 {
                out.append(", ");
            }
            out.append(details[i].0.as_str());
            out.append(": ");
            out.append(details[i].1.as_str());
            assert(out@ == before + details_text(all.take(i + 1)));
        }
        assert(all.take(all.len() as int) == all);
        out.append("}");
        assert(out@ == before + details_text(all) + "}"@);
    }
    if let Some(n) = note {
        out.append(" -- ");
        out.append(n);
    }
    out
}

/// Whether `w` can be written as the recipient of a signal: it is a word that
/// does not end in a colon.
pub open spec fn is_plain_recipient(w: Seq<char>) -> bool {
    is_word(w) && w.last() != ':'
}

/// Whether `w` can be written as the verb of a signal: it is a word without a
/// colon, and is neither taken for an address, nor for a details block, nor
/// for the note marker.
pub open spec fn is_plain_verb(w: Seq<char>) -> bool {
    &&& is_word(w)
    &&& !w.contains(':')
    &&& w[0] != '@'
    &&& w[0] != '{'
    &&& w != "--"@
}

proof fn lemma_word_with(w: Seq<char>, c: char, v: Seq<char>)
    requires
        is_word(w),
        is_word(v),
        !is_white(c),
    ensures
        is_word(w + seq![c] + v),
{
    let all = w + seq![c] + v;
    assert forall|i: int| 0 <= i < all.len() implies !is_white(#[trigger] all[i]) by {
        if i < w.len() {
            assert(all[i] == w[i]);
        } else if i > w.len() {
            assert(all[i] == v[i - w.len() - 1]);
        }
    }
}

/// The verb word of a signal: the verb, and behind a colon the status.
pub open spec fn verb_word(verb: Seq<char>, status: Option<Seq<char>>) -> Seq<char> {
    match status {
        Some(s) => verb + seq![':'] + s,
        None => verb,
    }
}

proof fn lemma_signal_shape(
    recipient: Seq<char>,
    verb: Seq<char>,
    status: Option<Seq<char>>,
    note: Option<Seq<char>>,
    details: Seq<(Seq<char>, Seq<char>)>,
) -> (rest: Seq<char>)
    ensures
        signal_text(recipient, verb, status, note, details) == seq!['@'] + recipient + seq![' ']
            + verb_word(verb, status) + rest,
        rest.len() > 0 ==> rest[0] == ' ',
{
    reveal_strlit("@");
    reveal_strlit(" ");
    reveal_strlit(":");
    reveal_strlit(" {");
    reveal_strlit(" -- ");
    let base = "@"@ + recipient + " "@ + verb;
    let with_status = match status {
        Some(s) => base + ":"@ + s,
        None => base,
    };
    let block = if details.len() > 0 {
        " {"@ + details_text(details) + "}"@
    } else {
        Seq::empty()
    };
    let tail = match note {
        Some(n) => " -- "@ + n,
        None => Seq::empty(),
    };
    let rest = block + tail;
    assert(with_status =~= seq!['@'] + recipient + seq![' '] + verb_word(verb, status));
    assert(signal_text(recipient, verb, status, note, details) =~= with_status + rest);
    rest
}

proof fn lemma_address_word(recipient: Seq<char>)
    requires
        is_plain_recipient(recipient),
    ensures
        is_word(seq!['@'] + recipient),
        address_name(seq!['@'] + recipient) == recipient,
{
    let first = seq!['@'] + recipient;
    assert forall|i: int| 0 <= i < first.len() implies !is_white(#[trigger] first[i]) by {
        if i > 0 {
            assert(first[i] == recipient[i - 1]);
        }
    }
    assert(first.drop_first() =~= recipient);
}

proof fn lemma_first_words(first: Seq<char>, second: Seq<char>, rest: Seq<char>)
    requires
        is_word(first),
        is_word(second),
        rest.len() > 0 ==> rest[0] == ' ',
    ensures
        ({
            let ws = words(first + seq![' '] + second + rest);
            ws.len() >= 2 && ws[0] == first && ws[1] == second
        }),
{
    let after = second + rest;
    assert(first + seq![' '] + second + rest =~= first + seq![' '] + after);
    lemma_words_on(first, after);
    if rest.len() > 0 {
        let tail = rest.drop_first();
        assert(after =~= second + seq![' '] + tail);
        lemma_words_on(second, tail);
    } else {
        assert(after =~= second);
        lemma_words_on(second, rest);
    }
}

/// What is written as a signal is read back: the recipient, the verb and the
/// status, whatever the note and the details are.
pub proof fn law_written_signal_is_read_back(
    recipient: Seq<char>,
    verb: Seq<char>,
    status: Option<Seq<char>>,
    note: Option<Seq<char>>,
    details: Seq<(Seq<char>, Seq<char>)>,
)
    requires
        is_plain_recipient(recipient),
        is_plain_verb(verb),
        status matches Some(s) ==> is_word(s),
    ensures
        ({
            let read = parsed(signal_text(recipient, verb, status, note, details));
            &&& read is Some
            &&& read->Some_0.recipients == seq![recipient]
            &&& read->Some_0.verb == verb
            &&& read->Some_0.status == status
        }),
{
    let t = signal_text(recipient, verb, status, note, details);
    let rest = lemma_signal_shape(recipient, verb, status, note, details);
    let first = seq!['@'] + recipient;
    let second = verb_word(verb, status);
    lemma_address_word(recipient);
    if let Some(s) = status {
        lemma_word_with(verb, ':', s);
    }
    lemma_first_words(first, second, rest);
    lemma_verb_reads_back(verb, status);
    lemma_second_word_is_no_marker(verb, status);
    let ws = words(t);
    assert(second[0] == verb[0]);
    assert(leading_addresses(ws, 1) == 1);
    assert(leading_addresses(ws, 0) == 1);
    assert(t[0] == '@');
    assert(recipients_of(t) =~= seq![recipient]);
}

proof fn lemma_verb_reads_back(verb: Seq<char>, status: Option<Seq<char>>)
    requires
        is_plain_verb(verb),
        status matches Some(s) ==> s.len() > 0,
    ensures
        verb_in(verb_word(verb, status)) == verb,
        status_in(verb_word(verb, status)) == status,
{
    let word = verb_word(verb, status);
    lemma_index_from(word, ':', 0);
    let at = position(word, ':');
    assert forall|i: int| 0 <= i < verb.len() implies #[trigger] word[i] != ':' by {
        assert(word[i] == verb[i]);
        assert(verb.contains(verb[i]));
    }
    match status {
        Some(s) => {
            assert(word[verb.len() as int] == ':');
            assert(at == verb.len());
            assert(word.skip(at + 1) =~= s);
        },
        None => {
            assert(at == verb.len());
        },
    }
    assert(word.take(at) =~= verb);
}

/// The note of a signal without details is read back as well, without the
/// white space around it. A note of white space alone counts as none.
pub proof fn law_written_note_is_read_back(
    recipient: Seq<char>,
    verb: Seq<char>,
    status: Option<Seq<char>>,
    note: Seq<char>,
)
    requires
        is_plain_recipient(recipient),
        is_plain_verb(verb),
        status matches Some(s) ==> is_word(s),
    ensures
        note_of(signal_text(recipient, verb, status, Some(note), Seq::empty())) == (if trimmed(
            note,
        ).len() > 0 {
            Some(trimmed(note))
        } else {
            None
        }),
{
    reveal_strlit("@");
    reveal_strlit(" ");
    reveal_strlit(":");
    reveal_strlit(" -- ");
    let t = signal_text(recipient, verb, status, Some(note), Seq::empty());
    let second = verb_word(verb, status);
    if let Some(s) = status {
        lemma_word_with(verb, ':', s);
    }
    let base = seq!['@'] + recipient + seq![' '] + second;
    let marker = " -- "@;
    assert(t =~= base + marker + note);
    let at = base.len() as int;
    assert(t.subrange(at, at + 4) =~= marker);
    let gap = recipient.len() + 1;
    assert forall|i: int| 0 <= i < at implies !occurs_at(t, marker, i) by {
        if occurs_at(t, marker, i) {
            let here = t.subrange(i, i + 4);
            assert(here[0] == t[i] && here[1] == t[i + 1] && here[2] == t[i + 2] && here[3] == t[i
                + 3]);
            if i < gap {
                assert(i > 0 ==> t[i] == recipient[i - 1]);
            } else if i == gap {
                lemma_second_word_is_no_marker(verb, status);
                assert(t[i + 1] == second[0]);
                if second.len() == 1 {
                    assert(t[i + 2] == ' ');
                } else {
                    assert(t[i + 2] == second[1]);
                    if second.len() > 2 {
                        assert(t[i + 3] == second[2]);
                    }
                }
            } else {
                assert(t[i] == second[i - gap - 1]);
            }
        }
    }
    lemma_first_at(t, marker, 0, at);
    assert(t.skip(at + 4) =~= note);
}

proof fn lemma_second_word_is_no_marker(verb: Seq<char>, status: Option<Seq<char>>)
    requires
        is_plain_verb(verb),
    ensures
        ({
            let word = verb_word(verb, status);
            word != "--"@ && !(word.len() == 2 && word[0] == '-' && word[1] == '-')
        }),
{
    reveal_strlit("--");
    let word = verb_word(verb, status);
    if word.len() == 2 && word[0] == '-' && word[1] == '-' {
        if status is Some {
            assert(word[verb.len() as int] == ':');
        } else {
            assert(verb =~= "--"@);
        }
    }
}

proof fn lemma_addresses_behind_one(first: Seq<char>, ws: Seq<Seq<char>>, i: int)
    requires
        0 <= i <= ws.len(),
    ensures
        leading_addresses(seq![first] + ws, i + 1) == leading_addresses(ws, i) + 1,
        i <= leading_addresses(ws, i) <= ws.len(),
    decreases ws.len() - i,
{
    let all = seq![first] + ws;
    if i < ws.len() {
        assert(all[i + 1] == ws[i]);
        if ws[i].len() > 0 && ws[i][0] == '@' {
            lemma_addresses_behind_one(first, ws, i + 1);
        }
    }
}

proof fn lemma_marked_address(name: Seq<char>)
    requires
        is_plain_recipient(name),
    ensures
        is_word(seq!['@'] + name + seq![':']),
        address_name(seq!['@'] + name + seq![':']) == name,
{
    let bare = seq!['@'] + name;
    let address = bare + seq![':'];
    lemma_address_word(name);
    assert forall|i: int| 0 <= i < address.len() implies !is_white(#[trigger] address[i]) by {
        if i < bare.len() {
            assert(address[i] == bare[i]);
        }
    }
    assert(address.drop_first().drop_last() =~= name);
}

proof fn lemma_recipients_behind(address: Seq<char>, rest: Seq<char>)
    requires
        is_word(address),
        address[0] == '@',
        rest.len() > 0 ==> !is_white(rest[0]),
    ensures
        recipients_of(address + seq![' '] + rest) == (if is_signal_text(rest) {
            seq![address_name(address)] + recipients_of(rest)
        } else {
            seq![address_name(address)]
        }),
{
    let t = address + seq![' '] + rest;
    let ws = words(rest);
    let all = seq![address] + ws;
    lemma_words_on(address, rest);
    lemma_addresses_behind_one(address, ws, 0);
    assert(words(t) == all);
    assert(t[0] == '@');
    let k = leading_addresses(ws, 0);
    assert(all[0] == address);
    assert(leading_addresses(all, 0) == k + 1);
    let heads = all.take(k + 1);
    assert(heads =~= seq![address] + ws.take(k));
    if rest.len() > 0 {
        lemma_first_word(rest);
    } else {
        assert(rest =~= Seq::empty());
    }
    let names = heads.map_values(|w: Seq<char>| address_name(w));
    assert(recipients_of(t) == names);
    if is_signal_text(rest) {
        assert(names =~= seq![address_name(address)] + recipients_of(rest));
    } else {
        assert(k == 0);
        assert(names =~= seq![address_name(address)]);
    }
}

/// Every address in front of a signal names a recipient, in order: a signal
/// behind an address is for that name and for all that it was for without it.
/// A colon behind the name is no part of it. What follows the first word that
/// is no address names nobody.
pub proof fn law_each_address_names_a_recipient(name: Seq<char>, colon: bool, rest: Seq<char>)
    requires
        is_plain_recipient(name),
        rest.len() > 0 ==> !is_white(rest[0]),
    ensures
        ({
            let address = if colon {
                seq!['@'] + name + seq![':']
            } else {
                seq!['@'] + name
            };
            recipients_of(address + seq![' '] + rest) == (if is_signal_text(rest) {
                seq![name] + recipients_of(rest)
            } else {
                seq![name]
            })
        }),
        rest.len() > 0 && rest[0] != '@' ==> recipients_of(rest) == Seq::<Seq<char>>::empty(),
{
    lemma_address_word(name);
    lemma_marked_address(name);
    if colon {
        lemma_recipients_behind(seq!['@'] + name + seq![':'], rest);
    } else {
        lemma_recipients_behind(seq!['@'] + name, rest);
    }
}

/// The first word behind the addresses gives the verb and, behind its first
/// colon, the status; an empty status is none. There is no verb, and so no
/// signal, exactly if that word is the note marker, opens a details block or
/// begins with its colon.
pub proof fn law_first_word_behind_the_address_is_the_verb(
    name: Seq<char>,
    word: Seq<char>,
    rest: Seq<char>,
    verb: Seq<char>,
    status: Seq<char>,
)
    requires
        is_plain_recipient(name),
        is_word(word),
        word[0] != '@',
        rest.len() > 0 ==> rest[0] == ' ',
        !verb.contains(':'),
        word == verb || word == verb + seq![':'] + status,
    ensures
        ({
            let read = parsed(seq!['@'] + name + seq![' '] + word + rest);
            &&& read is None <==> word == "--"@ || verb.len() == 0 || word[0] == '{'
            &&& read matches Some(sig) ==> {
                &&& sig.recipients == seq![name]
                &&& sig.verb == verb
                &&& sig.status == (if word != verb && status.len() > 0 {
                    Some(status)
                } else {
                    None
                })
            }
        }),
{
    let first = seq!['@'] + name;
    let t = first + seq![' '] + word + rest;
    lemma_address_word(name);
    lemma_first_words(first, word, rest);
    let ws = words(t);
    assert(leading_addresses(ws, 1) == 1);
    assert(leading_addresses(ws, 0) == 1);
    assert(recipients_of(t) =~= seq![name]);
    lemma_index_from(word, ':', 0);
    let at = position(word, ':');
    assert forall|i: int| 0 <= i < verb.len() implies #[trigger] word[i] != ':' by {
        assert(word[i] == verb[i]);
        assert(verb.contains(verb[i]));
    }
    if word != verb {
        assert(word[verb.len() as int] == ':');
        assert(word.skip(verb.len() as int + 1) =~= status);
    }
    assert(at == verb.len());
    assert(word.take(at) =~= verb);
    if verb.len() > 0 {
        assert(verb[0] == word[0]);
    } else if word[0] == '{' {
        assert(word == verb + seq![':'] + status);
    }
}

/// What does not begin with an address, and what holds nothing but addresses,
/// is no signal.
pub proof fn law_signal_needs_an_address_and_a_verb(t: Seq<char>)
    ensures
        t.len() == 0 || t[0] != '@' ==> parsed(t) is None,
        (forall|i: int|
            0 <= i < words(t).len() ==> (#[trigger] words(t)[i]).len() > 0 && words(t)[i][0] == '@')
            ==> parsed(t) is None,
{
    let ws = words(t);
    if forall|i: int| 0 <= i < ws.len() ==> (#[trigger] ws[i]).len() > 0 && ws[i][0] == '@' {
        lemma_all_addresses(ws, 0);
    }
}

proof fn lemma_all_addresses(ws: Seq<Seq<char>>, i: int)
    requires
        0 <= i <= ws.len(),
        forall|j: int| 0 <= j < ws.len() ==> (#[trigger] ws[j]).len() > 0 && ws[j][0] == '@',
    ensures
        leading_addresses(ws, i) == ws.len(),
    decreases ws.len() - i,
{
    if i < ws.len() {
        assert(ws[i].len() > 0 && ws[i][0] == '@');
        lemma_all_addresses(ws, i + 1);
    }
}

/// The first note marker parts the head of a signal from its note. The note is
/// what follows, without the whitespace around it, and none where nothing is
/// left; without a marker there is none.
pub proof fn law_first_marker_begins_the_note(head: Seq<char>, note: Seq<char>)
    requires
        forall|j: int|
            0 <= j < head.len() ==> !#[trigger] occurs_at(head + " -- "@ + note, " -- "@, j),
    ensures
        ({
            let t = head + " -- "@ + note;
            &&& head_of(t) == head
            &&& note_of(t) == (if trimmed(note).len() > 0 {
                Some(trimmed(note))
            } else {
                None
            })
        }),
        !has_text(note, " -- "@) ==> head_of(note) == note && note_of(note) is None,
{
    reveal_strlit(" -- ");
    let marker = " -- "@;
    let t = head + " -- "@ + note;
    let at: int = head.len() as int;
    assert(t.subrange(at, at + 4) =~= marker);
    lemma_first_at(t, marker, 0, at);
    assert(t.take(at) =~= head);
    assert(t.skip(at + 4) =~= note);
    if !has_text(note, marker) {
        lemma_first_at_none(note, marker, 0);
    }
}

proof fn lemma_index_of(s: Seq<char>, c: char, i: int, k: int)
    requires
        0 <= i <= k <= s.len(),
        forall|j: int| i <= j < k ==> s[j] != c,
        k < s.len() ==> s[k] == c,
    ensures
        index_from(s, c, i) == k,
    decreases k - i,
{
    if i < k {
        lemma_index_of(s, c, i + 1, k);
    }
}

/// The details are the comma-separated parts between the first opening brace
/// of the head and the next closing one.
pub proof fn law_details_stand_between_braces(
    t: Seq<char>,
    before: Seq<char>,
    inner: Seq<char>,
    after: Seq<char>,
)
    requires
        head_of(t) == before.push('{') + inner.push('}') + after,
        !before.contains('{'),
        !inner.contains('}'),
    ensures
        details_of(t) == details_in(split(inner, ',')),
{
    let head = head_of(t);
    let open: int = before.len() as int;
    let close: int = open + 1 + inner.len();
    assert forall|j: int| 0 <= j < open implies head[j] != '{' by {
        assert(head[j] == before[j]);
        assert(before.contains(before[j]));
    }
    lemma_index_of(head, '{', 0, open);
    assert forall|j: int| open + 1 <= j < close implies head[j] != '}' by {
        assert(head[j] == inner[j - open - 1]);
        assert(inner.contains(inner[j - open - 1]));
    }
    assert(head[close] == '}');
    lemma_index_of(head, '}', open + 1, close);
    assert(head.subrange(open + 1, close) =~= inner);
}

/// Each part of a details block with a key and a colon gives a pair, in order:
/// the key is what stands before its first colon, the value what follows, both
/// without the whitespace around them. A part without a colon, or with an
/// empty key, gives none.
pub proof fn law_each_detail_is_split_at_its_first_colon(
    parts: Seq<Seq<char>>,
    key: Seq<char>,
    value: Seq<char>,
)
    requires
        !key.contains(':'),
    ensures
        details_in(Seq::empty()) == Seq::<(Seq<char>, Seq<char>)>::empty(),
        details_in(parts.push(key)) == details_in(parts),
        trimmed(key).len() == 0 ==> details_in(parts.push(key.push(':') + value)) == details_in(parts),
        trimmed(key).len() > 0 ==> details_in(parts.push(key.push(':') + value)) == details_in(
            parts,
        ).push((trimmed(key), trimmed(value))),
{
    let part = key.push(':') + value;
    assert forall|j: int| 0 <= j < key.len() implies key[j] != ':' by {
        assert(key.contains(key[j]));
    }
    lemma_index_of(key, ':', 0, key.len() as int);
    assert forall|j: int| 0 <= j < key.len() implies part[j] != ':' by {
        assert(part[j] == key[j]);
    }
    assert(part[key.len() as int] == ':');
    lemma_index_of(part, ':', 0, key.len() as int);
    assert(part.take(key.len() as int) =~= key);
    assert(part.skip(key.len() as int + 1) =~= value);
    assert(parts.push(key).drop_last() =~= parts);
    assert(parts.push(part).drop_last() =~= parts);
}

/// Of several details with one key the last one counts, and a key that none
/// has gives nothing.
pub proof fn law_last_detail_of_a_key_counts(pairs: Seq<(Seq<char>, Seq<char>)>, key: Seq<char>)
    ensures
        detail_value(pairs, key) is None <==> forall|i: int|
            0 <= i < pairs.len() ==> (#[trigger] pairs[i]).0 != key,
        forall|k: int|
            0 <= k < pairs.len() && (#[trigger] pairs[k]).0 == key && (forall|j: int|
                k < j < pairs.len() ==> (#[trigger] pairs[j]).0 != key) ==> detail_value(pairs, key)
                == Some(pairs[k].1),
    decreases pairs.len(),
{
    if pairs.len() > 0 {
        let rest = pairs.drop_last();
        law_last_detail_of_a_key_counts(rest, key);
        let last = pairs[pairs.len() - 1];
        if last.0 != key {
            assert forall|k: int|
                0 <= k < pairs.len() && (#[trigger] pairs[k]).0 == key && (forall|j: int|
                    k < j < pairs.len() ==> (#[trigger] pairs[j]).0 != key) implies detail_value(
                pairs,
                key,
            ) == Some(pairs[k].1) by {
                assert(rest[k] == pairs[k]);
                assert forall|j: int| k < j < rest.len() implies (#[trigger] rest[j]).0 != key by {
                    assert(rest[j] == pairs[j]);
                }
            }
            if detail_value(pairs, key) is None {
                assert forall|i: int| 0 <= i < pairs.len() implies (#[trigger] pairs[i]).0 != key by {
                    if i < rest.len() {
                        assert(rest[i] == pairs[i]);
                    }
                }
            } else {
                let i = choose|i: int| 0 <= i < rest.len() && (#[trigger] rest[i]).0 == key;
                assert(pairs[i].0 == key);
            }
        }
    }
}

/// Whether a pair can be written as a detail: neither side has whitespace
/// around it, the key is not empty and holds no colon, and neither holds a
/// comma or a closing brace.
pub open spec fn is_plain_detail(pair: (Seq<char>, Seq<char>)) -> bool {
    &&& pair.0.len() > 0
    &&& trimmed(pair.0) == pair.0
    &&& trimmed(pair.1) == pair.1
    &&& !pair.0.contains(':')
    &&& !pair.0.contains(',') && !pair.1.contains(',')
    &&& !pair.0.contains('}') && !pair.1.contains('}')
}

proof fn lemma_trim_ignores_a_space(s: Seq<char>)
    requires
        trimmed(s) == s,
    ensures
        trimmed(seq![' '] + s) == s,
{
    lemma_trimmed_is_fixed(s);
    let none = Seq::<char>::empty();
    assert(seq![' '] + s + none =~= seq![' '] + s);
    law_trimming_takes_the_whitespace_around(seq![' '], s, none);
}

proof fn lemma_details_read_back(pairs: Seq<(Seq<char>, Seq<char>)>)
    requires
        pairs.len() > 0,
        forall|i: int| 0 <= i < pairs.len() ==> is_plain_detail(#[trigger] pairs[i]),
    ensures
        details_in(split(details_text(pairs), ',')) == pairs,
        !details_text(pairs).contains('}'),
    decreases pairs.len(),
{
    reveal_strlit(", ");
    reveal_strlit(": ");
    let n = pairs.len() as int;
    let (key, value) = pairs[n - 1];
    let rest = pairs.drop_last();
    let text = details_text(pairs);
    let plain = key.push(':') + (seq![' '] + value);
    assert(is_plain_detail(pairs[n - 1]));
    lemma_trim_ignores_a_space(key);
    lemma_trim_ignores_a_space(value);
    let spaced = seq![' '] + key;
    assert(!spaced.contains(':')) by {
        if spaced.contains(':') {
            let j = choose|j: int| 0 <= j < spaced.len() && spaced[j] == ':';
            assert(key[j - 1] == ':');
        }
    }
    let part = spaced.push(':') + (seq![' '] + value);
    assert forall|c: char| c == ',' || c == '}' implies !part.contains(c) && !plain.contains(c) by {
        if part.contains(c) {
            let j = choose|j: int| 0 <= j < part.len() && part[j] == c;
            if 1 <= j <= key.len() {
                assert(key[j - 1] == c);
            } else if j >= key.len() + 3 {
                assert(value[j - key.len() - 3] == c);
            }
        }
        if plain.contains(c) {
            let j = choose|j: int| 0 <= j < plain.len() && plain[j] == c;
            if j < key.len() {
                assert(key[j] == c);
            } else if j >= key.len() + 2 {
                assert(value[j - key.len() - 2] == c);
            }
        }
    }
    if n == 1 {
        assert(rest =~= Seq::empty());
        assert(text =~= plain);
        law_split_cuts_at_each_separator(plain, Seq::empty(), ',');
        law_each_detail_is_split_at_its_first_colon(Seq::empty(), key, seq![' '] + value);
        assert(seq![plain] =~= Seq::<Seq<char>>::empty().push(plain));
        assert(details_in(split(text, ',')) =~= pairs);
    } else {
        assert forall|i: int| 0 <= i < rest.len() implies is_plain_detail(#[trigger] rest[i]) by {
            assert(rest[i] == pairs[i]);
        }
        lemma_details_read_back(rest);
        let before = details_text(rest);
        assert(text =~= before.push(',') + part);
        lemma_split_at_the_last(before, part, ',');
        law_each_detail_is_split_at_its_first_colon(
            split(before, ','),
            spaced,
            seq![' '] + value,
        );
        assert(details_in(split(text, ',')) =~= pairs);
        if text.contains('}') {
            let j = choose|j: int| 0 <= j < text.len() && text[j] == '}';
            if j < before.len() {
                assert(before[j] == '}');
            } else if j > before.len() {
                assert(part[j - before.len() - 1] == '}');
            }
        }
    }
}

/// The details that are written with a signal are read back, in order and
/// whole, whatever note follows them.
pub proof fn law_written_details_are_read_back(
    recipient: Seq<char>,
    verb: Seq<char>,
    status: Option<Seq<char>>,
    note: Option<Seq<char>>,
    details: Seq<(Seq<char>, Seq<char>)>,
)
    requires
        details.len() > 0,
        forall|i: int| 0 <= i < details.len() ==> is_plain_detail(#[trigger] details[i]),
        !recipient.contains('{'),
        !verb_word(verb, status).contains('{'),
        forall|j: int|
            0 <= j < signal_text(recipient, verb, status, None, details).len() ==> !#[trigger] occurs_at(
                signal_text(recipient, verb, status, note, details),
                " -- "@,
                j,
            ),
    ensures
        details_of(signal_text(recipient, verb, status, note, details)) == details,
{
    reveal_strlit("@");
    reveal_strlit(" ");
    reveal_strlit(":");
    reveal_strlit(" {");
    reveal_strlit("}");
    reveal_strlit(" -- ");
    lemma_details_read_back(details);
    let inner = details_text(details);
    let word = verb_word(verb, status);
    let before = seq!['@'] + recipient + seq![' '] + word + seq![' '];
    let none = Seq::<char>::empty();
    let head = signal_text(recipient, verb, status, None, details);
    let t = signal_text(recipient, verb, status, note, details);
    assert(head =~= before.push('{') + inner.push('}') + none);
    assert(!before.contains('{')) by {
        if before.contains('{') {
            let j = choose|j: int| 0 <= j < before.len() && before[j] == '{';
            if 1 <= j <= recipient.len() {
                assert(recipient[j - 1] == '{');
            } else if recipient.len() + 2 <= j < recipient.len() + 2 + word.len() {
                assert(word[j - recipient.len() - 2] == '{');
            }
        }
    }
    match note {
        Some(n) => {
            assert(t =~= head + " -- "@ + n);
            law_first_marker_begins_the_note(head, n);
        },
        None => {
            if has_text(t, " -- "@) {
                let j = choose|j: int| occurs_at(t, " -- "@, j);
                assert(!occurs_at(t, " -- "@, j));
            }
            lemma_first_at_none(t, " -- "@, 0);
        },
    }
    law_details_stand_between_braces(t, before, inner, none);
}

} // verus!
