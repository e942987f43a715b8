//! Splitting, searching and joining text.
use vstd::prelude::*;
use crate::text::{is_white, to_chars, white};

verus! {

broadcast use vstd::seq_lib::group_seq_properties;

/// Each character list of a sequence as a sequence of characters.
pub open spec fn char_lists(parts: Seq<Vec<char>>) -> Seq<Seq<char>> {
    parts.map_values(|p: Vec<char>| p@)
}

// -- Splitting on a character ------------------------------------------------

/// The parts of `s` between the occurrences of `sep`, empty ones kept.
pub open spec fn split(s: Seq<char>, sep: char) -> Seq<Seq<char>>
    decreases s.len(),
{
    if s.len() == 0 {
        seq![Seq::empty()]
    } else {
        let before = split(s.drop_last(), sep);
        if s.last() == sep {
            before.push(Seq::empty())
        } else {
            before.drop_last().push(before.last().push(s.last()))
        }
    }
}

/// A split has at least one part.
pub proof fn lemma_split_nonempty(s: Seq<char>, sep: char)
    ensures
        split(s, sep).len() > 0,
    decreases s.len(),
{
    if s.len() > 0 {
        lemma_split_nonempty(s.drop_last(), sep);
    }
}

/// The parts of `chars` between the occurrences of `sep`.
pub fn split_chars(chars: &[char], sep: char) -> (parts: Vec<Vec<char>>)
    ensures
        char_lists(parts@) == split(chars@, sep),
{
    let mut done: Vec<Vec<char>> = Vec::new();
    let mut cur: Vec<char> = Vec::new();
    assert(char_lists(done@).push(cur@) == split(chars@.take(0), sep));
    for i in 0..chars.len()
        invariant
            char_lists(done@).push(cur@) == split(chars@.take(i as int), sep),
    {
        let c = chars[i];
        let ghost prefix = chars@.take(i as int + 1);
        let ghost before = split(chars@.take(i as int), sep);
        assert(prefix.drop_last() == chars@.take(i as int));
        assert(before.drop_last() == char_lists(done@));
        if c == sep {
            let ghost old_done = char_lists(done@);
            let ghost old_cur = cur@;
            done.push(cur);
            assert(char_lists(done@) == old_done.push(old_cur));
            cur = Vec::new();
        } else {
            cur.push(c);
        }
    }
    assert(chars@.take(chars@.len() as int) == chars@);
    let ghost old_done = char_lists(done@);
    let ghost old_cur = cur@;
    done.push(cur);
    assert(char_lists(done@) == old_done.push(old_cur));
    done
}

// -- Splitting on whitespace -------------------------------------------------

/// The whitespace-separated words of `s` that are complete at its end, and
/// the word that is still open there.
pub open spec fn scan_words(s: Seq<char>) -> (Seq<Seq<char>>, Seq<char>)
    decreases s.len(),
{
    if s.len() == 0 {
        (Seq::empty(), Seq::empty())
    } else {
        let (done, open) = scan_words(s.drop_last());
        if !is_white(s.last()) {
            (done, open.push(s.last()))
        } else if open.len() > 0 {
            (done.push(open), Seq::empty())
        } else {
            (done, open)
        }
    }
}

/// The maximal runs of `s` without whitespace, in order.
pub open spec fn words(s: Seq<char>) -> Seq<Seq<char>> {
    let (done, open) = scan_words(s);
    if open.len() > 0 {
        done.push(open)
    } else {
        done
    }
}

proof fn lemma_scan_keeps_first(s: Seq<char>)
    requires
        s.len() > 0,
        !is_white(s[0]),
    ensures
        ({
            let (done, open) = scan_words(s);
            if done.len() == 0 {
                open.len() > 0 && open[0] == s[0]
            } else {
                done[0].len() > 0 && done[0][0] == s[0]
            }
        }),
    decreases s.len(),
{
    if s.len() == 1 {
        assert(s.drop_last() == Seq::<char>::empty());
    } else {
        lemma_scan_keeps_first(s.drop_last());
    }
}

/// A text that does not begin with whitespace begins with its first word.
pub proof fn lemma_first_word(s: Seq<char>)
    requires
        s.len() > 0,
        !is_white(s[0]),
    ensures
        words(s).len() > 0,
        words(s)[0].len() > 0,
        words(s)[0][0] == s[0],
{
    lemma_scan_keeps_first(s);
}

/// Whether `w` could be a word: it has a character, and none is whitespace.
pub open spec fn is_word(w: Seq<char>) -> bool {
    w.len() > 0 && forall|i: int| 0 <= i < w.len() ==> !is_white(#[trigger] w[i])
}

proof fn lemma_scan_word(w: Seq<char>)
    requires
        forall|i: int| 0 <= i < w.len() ==> !is_white(#[trigger] w[i]),
    ensures
        scan_words(w) == (Seq::<Seq<char>>::empty(), w),
    decreases w.len(),
{
    if w.len() > 0 {
        assert forall|i: int| 0 <= i < w.drop_last().len() implies !is_white(
            #[trigger] w.drop_last()[i],
        ) by {
            assert(w.drop_last()[i] == w[i]);
        }
        lemma_scan_word(w.drop_last());
        assert(!is_white(w[w.len() - 1]));
        assert(w.drop_last().push(w.last()) =~= w);
    } else {
        assert(w =~= Seq::empty());
    }
}

proof fn lemma_scan_on(p: Seq<char>, s: Seq<char>)
    requires
        scan_words(p).1.len() == 0,
    ensures
        scan_words(p + s) == (scan_words(p).0 + scan_words(s).0, scan_words(s).1),
    decreases s.len(),
{
    if s.len() == 0 {
        assert(p + s =~= p);
        assert(scan_words(p).1 =~= Seq::empty());
        assert(scan_words(p).0 + Seq::<Seq<char>>::empty() =~= scan_words(p).0);
    } else {
        lemma_scan_on(p, s.drop_last());
        assert((p + s).drop_last() =~= p + s.drop_last());
        assert((p + s).last() == s.last());
        let (done, open) = scan_words(s.drop_last());
        assert((scan_words(p).0 + done).push(open) =~= scan_words(p).0 + done.push(open));
    }
}

/// A word at the front of a text is its first word, and the rest of the text
/// gives the rest of the words.
pub proof fn lemma_words_on(w: Seq<char>, s: Seq<char>)
    requires
        is_word(w),
    ensures
        words(w) == seq![w],
        words(w + seq![' '] + s) == seq![w] + words(s),
{
    lemma_scan_word(w);
    let p = w + seq![' '];
    assert(p.drop_last() =~= w);
    assert(p.last() == ' ');
    assert(scan_words(p).0 =~= seq![w]);
    lemma_scan_on(p, s);
    let (done, open) = scan_words(s);
    assert((seq![w] + done).push(open) =~= seq![w] + done.push(open));
}

/// The whitespace-separated words of `chars`.
pub fn split_words(chars: &[char]) -> (out: Vec<Vec<char>>)
    ensures
        char_lists(out@) == words(chars@),
{
    let mut done: Vec<Vec<char>> = Vec::new();
    let mut cur: Vec<char> = Vec::new();
    for i in 0..chars.len()
        invariant
            (char_lists(done@), cur@) == scan_words(chars@.take(i as int)),
    {
        let c = chars[i];
        let ghost prefix = chars@.take(i as int + 1);
        assert(prefix.drop_last() == chars@.take(i as int));
        if !white(c) {
            cur.push(c);
        } else if cur.len() > 0 {
            let ghost old_done = char_lists(done@);
            let ghost old_cur = cur@;
            done.push(cur);
            assert(char_lists(done@) == old_done.push(old_cur));
            cur = Vec::new();
        }
    }
    assert(chars@.take(chars@.len() as int) == chars@);
    if cur.len() > 0 {
        let ghost old_done = char_lists(done@);
        let ghost old_cur = cur@;
        done.push(cur);
        assert(char_lists(done@) == old_done.push(old_cur));
    }
    done
}

// -- Searching ---------------------------------------------------------------

/// Whether `pat` stands in `s` at position `i`.
pub open spec fn occurs_at(s: Seq<char>, pat: Seq<char>, i: int) -> bool {
    0 <= i && i + pat.len() <= s.len() && s.subrange(i, i + pat.len()) == pat
}

/// Whether `pat` stands in `s` at some position.
pub open spec fn has_text(s: Seq<char>, pat: Seq<char>) -> bool {
    exists|i: int| occurs_at(s, pat, i)
}

/// Whether `pat` stands in `s` at position `at`.
pub fn matches_at(s: &[char], pat: &[char], at: usize) -> (yes: bool)
    requires
        at <= s@.len(),
    ensures
        yes == occurs_at(s@, pat@, at as int),
{
    let n: usize = s.len();
    if n - at < pat.len() {
        return false;
    }
    for j in 0..pat.len()
        invariant
            n == s@.len(),
            at + pat@.len() <= s@.len(),
            forall|k: int| 0 <= k < j ==> s@[at + k] == pat@[k],
    {
        if s[at + j] != pat[j] {
            assert(s@.subrange(at as int, at + pat@.len())[j as int] != pat@[j as int]);
            return false;
        }
    }
    assert(s@.subrange(at as int, at + pat@.len()) =~= pat@);
    true
}

/// The first position from `i` on at which `pat` stands in `s`.
pub open spec fn first_at(s: Seq<char>, pat: Seq<char>, i: int) -> Option<int>
    decreases s.len() - i + 1,
{
    if i > s.len() {
        None
    } else if occurs_at(s, pat, i) {
        Some(i)
    } else {
        first_at(s, pat, i + 1)
    }
}

/// The first position of `c` in `s` from `i` on, or the length of `s` where
/// there is none.
pub open spec fn index_from(s: Seq<char>, c: char, i: int) -> int
    decreases s.len() - i,
{
    if i >= s.len() {
        s.len() as int
    } else if s[i] == c {
        i
    } else {
        index_from(s, c, i + 1)
    }
}

/// The first position of `c` in `s`, or the length of `s`.
pub open spec fn position(s: Seq<char>, c: char) -> int {
    index_from(s, c, 0)
}

/// What `index_from` finds: `c`, and nothing before it is `c`.
pub proof fn lemma_index_from(s: Seq<char>, c: char, i: int)
    requires
        0 <= i <= s.len(),
    ensures
        i <= index_from(s, c, i) <= s.len(),
        index_from(s, c, i) < s.len() ==> s[index_from(s, c, i)] == c,
        forall|j: int| i <= j < index_from(s, c, i) ==> s[j] != c,
    decreases s.len() - i,
{
    if i < s.len() && s[i] != c {
        lemma_index_from(s, c, i + 1);
    }
}

/// The first position of `c` in `s` from `from` on, or the length of `s`.
pub fn find_char(s: &[char], c: char, from: usize) -> (at: usize)
    requires
        from <= s@.len(),
    ensures
        at == index_from(s@, c, from as int),
        from <= at <= s@.len(),
{
    let mut i: usize = from;
    while i < s.len() && s[i] != c
        invariant
            from <= i <= s@.len(),
            index_from(s@, c, from as int) == index_from(s@, c, i as int),
        decreases s@.len() - i,
    {
        i = i + 1;
    }
    i
}

/// The first position at which `pat` stands in `s`.
pub fn find(s: &[char], pat: &[char]) -> (at: Option<usize>)
    ensures
        at is Some <==> has_text(s@, pat@),
        at is Some <==> first_at(s@, pat@, 0) is Some,
        at matches Some(i) ==> first_at(s@, pat@, 0) == Some(i as int) && occurs_at(
            s@,
            pat@,
            i as int,
        ) && forall|j: int| 0 <= j < i ==> !occurs_at(s@, pat@, j),
{
    let mut i: usize = 0;
    while i < s.len()
        invariant
            i <= s@.len(),
            forall|j: int| 0 <= j < i ==> !occurs_at(s@, pat@, j),
            first_at(s@, pat@, 0) == first_at(s@, pat@, i as int),
        decreases s@.len() - i,
    {
        if matches_at(s, pat, i) {
            return Some(i);
        }
        i = i + 1;
    }
    if matches_at(s, pat, i) {
        Some(i)
    } else {
        assert forall|j: int| !occurs_at(s@, pat@, j) by {}
        assert(first_at(s@, pat@, i + 1) is None);
        None
    }
}

/// Whether `pat` stands somewhere in `s`.
pub fn contains(s: &str, pat: &str) -> (yes: bool)
    ensures
        yes == has_text(s@, pat@),
{
    let a = to_chars(s);
    let b = to_chars(pat);
    find(a.as_slice(), b.as_slice()).is_some()
}

// -- Replacing ---------------------------------------------------------------

/// `s` from position `i` on, with each occurrence of `pat` replaced by
/// `with`, taken from the left and without overlap.
pub open spec fn replaced_from(s: Seq<char>, pat: Seq<char>, with: Seq<char>, i: int) -> Seq<char>
    decreases s.len() - i,
{
    if i < 0 || i >= s.len() {
        Seq::empty()
    } else if pat.len() > 0 && occurs_at(s, pat, i) {
        with + replaced_from(s, pat, with, i + pat.len())
    } else {
        seq![s[i]] + replaced_from(s, pat, with, i + 1)
    }
}

/// `s` with each occurrence of `pat` replaced by `with`, taken from the left
/// and without overlap.
pub open spec fn replaced(s: Seq<char>, pat: Seq<char>, with: Seq<char>) -> Seq<char> {
    replaced_from(s, pat, with, 0)
}

/// Replaces each occurrence of `pat` by `with`.
pub fn replace_all(s: &[char], pat: &[char], with: &[char]) -> (out: Vec<char>)
    requires
        pat@.len() > 0,
    ensures
        out@ == replaced(s@, pat@, with@),
{
    let mut out: Vec<char> = Vec::new();
    let mut i: usize = 0;
    while i < s.len()
        invariant
            pat@.len() > 0,
            i <= s@.len(),
            out@ + replaced_from(s@, pat@, with@, i as int) == replaced(s@, pat@, with@),
        decreases s@.len() - i,
    {
        if matches_at(s, pat, i) {
            let ghost before = out@;
            for j in 0..with.len()
                invariant
                    out@ == before + with@.take(j as int),
            {
                out.push(with[j]);
                assert(with@.take(j as int + 1) == with@.take(j as int).push(with@[j as int]));
            }
            assert(with@.take(with@.len() as int) == with@);
            assert(before + (with@ + replaced_from(s@, pat@, with@, i + pat@.len())) == (before
                + with@) + replaced_from(s@, pat@, with@, i + pat@.len()));
            i = i + pat.len();
        } else {
            let ghost before = out@;
            out.push(s[i]);
            assert(before + (seq![s@[i as int]] + replaced_from(s@, pat@, with@, i + 1))
                == before.push(s@[i as int]) + replaced_from(s@, pat@, with@, i + 1));
            i = i + 1;
        }
    }
    out
}

// -- Joining -----------------------------------------------------------------

/// `parts` one after another, with `sep` between neighbours.
pub open spec fn joined(parts: Seq<Seq<char>>, sep: Seq<char>) -> Seq<char>
    decreases parts.len(),
{
    if parts.len() == 0 {
        Seq::empty()
    } else if parts.len() == 1 {
        parts[0]
    } else {
        joined(parts.drop_last(), sep) + sep + parts.last()
    }
}

/// The strings of a slice, each as its characters.
pub open spec fn texts(parts: Seq<String>) -> Seq<Seq<char>> {
    parts.map_values(|p: String| p@)
}

/// Joins `parts[..upto]` with `sep` between neighbours.
pub fn join_upto(parts: &[String], upto: usize, sep: &str) -> (out: String)
    requires
        upto <= parts@.len(),
    ensures
        out@ == joined(texts(parts@).take(upto as int), sep@),
{
    let mut out = String::new();
    for i in 0..upto
        invariant
            upto <= parts@.len(),
            out@ == joined(texts(parts@).take(i as int), sep@),
    {
        let ghost all = texts(parts@).take(i as int + 1);
        assert(all.drop_last() == texts(parts@).take(i as int));
        assert(all.last() == parts@[i as int]@);
        if i > 0 {
            out.append(sep);
        }
        out.append(parts[i].as_str());
    }
    out
}

/// Joins `parts` with `sep` between neighbours.
pub fn join(parts: &[String], sep: &str) -> (out: String)
    ensures
        out@ == joined(texts(parts@), sep@),
{
    assert(texts(parts@).take(parts@.len() as int) == texts(parts@));
    join_upto(parts, parts.len(), sep)
}

/// The part of `s` from `from` up to `to`.
pub fn slice_text(s: &[char], from: usize, to: usize) -> (out: String)
    requires
        from <= to <= s@.len(),
    ensures
        out@ == s@.subrange(from as int, to as int),
{
    let mut out = String::new();
    for i in from..to
        invariant
            from <= to <= s@.len(),
            out@ == s@.subrange(from as int, i as int),
    {
        out.push(s[i]);
        assert(s@.subrange(from as int, i + 1) == s@.subrange(from as int, i as int).push(
            s@[i as int],
        ));
    }
    out
}

// -- Laws --------------------------------------------------------------------

/// A split cuts at each separator and nowhere else: what stands before the
/// first one is the first part, and the rest is split on its own.
pub proof fn law_split_cuts_at_each_separator(first: Seq<char>, rest: Seq<char>, sep: char)
    requires
        !first.contains(sep),
    ensures
        split(first, sep) == seq![first],
        split(first.push(sep) + rest, sep) == seq![first] + split(rest, sep),
    decreases first.len() + rest.len(),
{
    if rest.len() > 0 {
        law_split_cuts_at_each_separator(first, rest.drop_last(), sep);
        lemma_split_nonempty(rest.drop_last(), sep);
        let whole = first.push(sep) + rest;
        assert(whole.drop_last() =~= first.push(sep) + rest.drop_last());
        assert(whole.last() == rest.last());
        let tail = split(rest.drop_last(), sep);
        let before = seq![first] + tail;
        assert(before.last() == tail.last());
        assert(before.drop_last() =~= seq![first] + tail.drop_last());
        assert(split(whole, sep) =~= seq![first] + split(rest, sep));
    } else {
        if first.len() > 0 {
            let shorter = first.drop_last();
            assert forall|c: char| shorter.contains(c) implies first.contains(c) by {
                let j = choose|j: int| 0 <= j < shorter.len() && shorter[j] == c;
                assert(first[j] == c);
            }
            law_split_cuts_at_each_separator(shorter, rest, sep);
            assert(first.contains(first[first.len() - 1]));
            assert(shorter.push(first.last()) =~= first);
            assert(split(first, sep) =~= seq![first]);
        } else {
            assert(first =~= Seq::empty());
        }
        assert(first.push(sep) + rest =~= first.push(sep));
        assert(first.push(sep).drop_last() =~= first);
        assert(rest =~= Seq::empty());
        assert(split(first.push(sep), sep) =~= seq![first] + split(rest, sep));
    }
}

/// The words of a text are its runs without whitespace: whitespace in front
/// adds none, and what follows a word behind any whitespace is on its own.
pub proof fn law_words_are_the_runs_without_whitespace(w: Seq<char>, gap: char, s: Seq<char>)
    requires
        is_white(gap),
        forall|i: int| 0 <= i < w.len() ==> !is_white(#[trigger] w[i]),
    ensures
        w.len() > 0 ==> words(w) == seq![w],
        w.len() > 0 ==> words(w.push(gap) + s) == seq![w] + words(s),
        words(Seq::empty()) == Seq::<Seq<char>>::empty(),
        words(seq![gap] + s) == words(s),
{
    lemma_scan_word(w);
    let p = w.push(gap);
    assert(p.drop_last() =~= w);
    assert(p.last() == gap);
    let (done, open) = scan_words(s);
    if w.len() > 0 {
        assert(scan_words(p).0 =~= seq![w]);
        lemma_scan_on(p, s);
        assert((seq![w] + done).push(open) =~= seq![w] + done.push(open));
    }
    let q = seq![gap];
    assert(q.drop_last() =~= Seq::<char>::empty());
    assert(scan_words(q.drop_last()) == (Seq::<Seq<char>>::empty(), Seq::<char>::empty()));
    assert(scan_words(q).0 =~= Seq::empty());
    lemma_scan_on(q, s);
    assert(Seq::<Seq<char>>::empty() + done =~= done);
}

proof fn lemma_replaced_from_skips(s: Seq<char>, pat: Seq<char>, with: Seq<char>, i: int, k: int)
    requires
        0 <= i <= k <= s.len(),
        forall|j: int| i <= j < k ==> !#[trigger] occurs_at(s, pat, j),
    ensures
        replaced_from(s, pat, with, i) == s.subrange(i, k) + replaced_from(s, pat, with, k),
    decreases k - i,
{
    if i < k {
        lemma_replaced_from_skips(s, pat, with, i + 1, k);
        assert(!occurs_at(s, pat, i));
        assert(s.subrange(i, k) =~= seq![s[i]] + s.subrange(i + 1, k));
        assert(replaced_from(s, pat, with, i) =~= s.subrange(i, k) + replaced_from(
            s,
            pat,
            with,
            k,
        ));
    } else {
        assert(s.subrange(i, k) =~= Seq::empty());
        assert(Seq::<char>::empty() + replaced_from(s, pat, with, k) =~= replaced_from(
            s,
            pat,
            with,
            k,
        ));
    }
}

proof fn lemma_replaced_from_is_replaced(s: Seq<char>, pat: Seq<char>, with: Seq<char>, n: int, i: int)
    requires
        0 <= n <= s.len(),
        0 <= i,
    ensures
        replaced_from(s, pat, with, n + i) == replaced_from(s.skip(n), pat, with, i),
    decreases s.len() - n - i,
{
    let rest = s.skip(n);
    if n + i < s.len() {
        assert(rest[i] == s[n + i]);
        if i + pat.len() <= rest.len() {
            assert(rest.subrange(i, i + pat.len()) =~= s.subrange(n + i, n + i + pat.len()));
        }
        assert(occurs_at(s, pat, n + i) == occurs_at(rest, pat, i));
        if pat.len() > 0 && occurs_at(s, pat, n + i) {
            lemma_replaced_from_is_replaced(s, pat, with, n, i + pat.len());
        } else {
            lemma_replaced_from_is_replaced(s, pat, with, n, i + 1);
        }
    }
}

/// Replacing goes from one occurrence to the next: what stands before the
/// first one is kept, the occurrence is replaced, and what follows it is
/// replaced on its own. Without an occurrence nothing changes.
pub proof fn law_each_occurrence_is_replaced(
    s: Seq<char>,
    pat: Seq<char>,
    with: Seq<char>,
    k: int,
)
    requires
        pat.len() > 0,
    ensures
        !has_text(s, pat) ==> replaced(s, pat, with) == s,
        occurs_at(s, pat, k) && (forall|j: int| 0 <= j < k ==> !#[trigger] occurs_at(s, pat, j))
            ==> replaced(s, pat, with) == s.take(k) + with + replaced(
            s.skip(k + pat.len()),
            pat,
            with,
        ),
{
    if !has_text(s, pat) {
        lemma_replaced_from_skips(s, pat, with, 0, s.len() as int);
        assert(s.subrange(0, s.len() as int) + Seq::<char>::empty() =~= s);
    }
    if occurs_at(s, pat, k) && (forall|j: int| 0 <= j < k ==> !#[trigger] occurs_at(s, pat, j)) {
        lemma_replaced_from_skips(s, pat, with, 0, k);
        lemma_replaced_from_is_replaced(s, pat, with, k + pat.len(), 0);
        assert(s.subrange(0, k) =~= s.take(k));
        assert(replaced(s, pat, with) =~= s.take(k) + with + replaced(
            s.skip(k + pat.len()),
            pat,
            with,
        ));
    }
}

/// Joining puts the separator between each two neighbours and nowhere else.
pub proof fn law_join_puts_the_separator_between(a: Seq<Seq<char>>, b: Seq<Seq<char>>, sep: Seq<char>)
    ensures
        joined(Seq::empty(), sep) == Seq::<char>::empty(),
        a.len() == 1 ==> joined(a, sep) == a[0],
        a.len() > 0 && b.len() > 0 ==> joined(a + b, sep) == joined(a, sep) + sep + joined(b, sep),
    decreases b.len(),
{
    if a.len() > 0 && b.len() > 0 {
        assert((a + b).drop_last() =~= a + b.drop_last());
        assert((a + b).last() == b.last());
        if b.len() == 1 {
            assert(a + b.drop_last() =~= a);
        } else {
            law_join_puts_the_separator_between(a, b.drop_last(), sep);
            assert(joined(a + b, sep) =~= joined(a, sep) + sep + joined(b, sep));
        }
    }
}

/// A search finds the first place at which the pattern stands, and none
/// exactly if it stands nowhere.
pub proof fn law_search_finds_the_first_place(s: &[char], pat: &[char], at: Option<usize>)
    requires
        call_ensures(find, (s, pat), at),
    ensures
        at matches Some(i) ==> i + pat@.len() <= s@.len() && s@.subrange(
            i as int,
            i + pat@.len(),
        ) == pat@,
        forall|j: int|
            0 <= j && j + pat@.len() <= s@.len() && #[trigger] s@.subrange(j, j + pat@.len()) == pat@
                ==> (at matches Some(i) && i <= j),
{
    assert forall|j: int|
        0 <= j && j + pat@.len() <= s@.len() && #[trigger] s@.subrange(j, j + pat@.len())
            == pat@ implies (at matches Some(i) && i <= j) by {
        assert(occurs_at(s@, pat@, j));
    }
}

/// What stands behind the last separator is the last part.
pub proof fn lemma_split_at_the_last(a: Seq<char>, b: Seq<char>, sep: char)
    requires
        !b.contains(sep),
    ensures
        split(a.push(sep) + b, sep) == split(a, sep).push(b),
    decreases b.len(),
{
    let whole = a.push(sep) + b;
    if b.len() == 0 {
        assert(whole =~= a.push(sep));
        assert(whole.drop_last() =~= a);
        assert(b =~= Seq::empty());
    } else {
        let shorter = b.drop_last();
        assert forall|c: char| shorter.contains(c) implies b.contains(c) by {
            let j = choose|j: int| 0 <= j < shorter.len() && shorter[j] == c;
            assert(b[j] == c);
        }
        lemma_split_at_the_last(a, shorter, sep);
        assert(whole.drop_last() =~= a.push(sep) + shorter);
        assert(b.contains(b[b.len() - 1]));
        assert(whole.last() == b.last());
        assert(shorter.push(b.last()) =~= b);
        assert(split(a, sep).push(shorter).drop_last() =~= split(a, sep));
    }
}

/// The first place at which the pattern stands is what `first_at` finds.
pub proof fn lemma_first_at(s: Seq<char>, pat: Seq<char>, i: int, at: int)
    requires
        0 <= i <= at,
        occurs_at(s, pat, at),
        forall|j: int| i <= j < at ==> !#[trigger] occurs_at(s, pat, j),
    ensures
        first_at(s, pat, i) == Some(at),
    decreases at - i,
{
    if i < at {
        lemma_first_at(s, pat, i + 1, at);
    }
}

/// Where the pattern stands nowhere, `first_at` finds nothing.
pub proof fn lemma_first_at_none(s: Seq<char>, pat: Seq<char>, i: int)
    requires
        !has_text(s, pat),
    ensures
        first_at(s, pat, i) is None,
    decreases s.len() - i + 1,
{
    if i <= s.len() {
        assert(!occurs_at(s, pat, i));
        lemma_first_at_none(s, pat, i + 1);
    }
}

} // verus!
