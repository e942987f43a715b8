//! The shared board: posts, the marks of which repo has handled which post,
//! and the rules of who is addressed.
use vstd::prelude::*;
use crate::order::{code_points, lex_before, text_before};
use crate::scan::texts;
use crate::signal::{is_signal, is_signal_text, opt_str, pair_text, recipients, recipients_of};
use crate::text::{lower, text_eq, to_ascii_lowercase, to_chars};

verus! {

broadcast use vstd::seq_lib::group_seq_properties;

// -- The model ---------------------------------------------------------------

/// A post on the board, as sequences of characters.
pub struct Row {
    pub id: Seq<char>,
    pub repo: Seq<char>,
    pub text: Seq<char>,
    pub created_at: Seq<char>,
}

/// The posts of a board in order, and the pairs of post id and repo name that
/// are marked as handled.
pub struct BoardView {
    pub rows: Seq<Row>,
    pub handled: Set<(Seq<char>, Seq<char>)>,
}

/// Whether `name` is one of the reserved names that address everybody. Case
/// does not matter.
pub open spec fn is_broadcast_name(name: Seq<char>) -> bool {
    lower(name) == "all"@ || lower(name) == "everyone"@
}

/// Whether an address reaches a reader known under `names`.
pub open spec fn reaches(address: Seq<char>, names: Seq<Seq<char>>) -> bool {
    is_broadcast_name(address) || names.contains(address)
}

/// Whether a post is addressed to a reader known under `names`.
pub open spec fn addressed(text: Seq<char>, names: Seq<Seq<char>>) -> bool {
    exists|i: int|
        0 <= i < recipients_of(text).len() && reaches(#[trigger] recipients_of(text)[i], names)
}

/// Whether `row` is waiting for `repo`: another repo posted it, it is
/// addressed to one of `names`, `repo` has not handled it, and it is not older
/// than `since`.
pub open spec fn is_pending(
    row: Row,
    repo: Seq<char>,
    names: Seq<Seq<char>>,
    since: Option<Seq<char>>,
    handled: Set<(Seq<char>, Seq<char>)>,
) -> bool {
    &&& row.repo != repo
    &&& addressed(row.text, names)
    &&& !handled.contains((row.id, repo))
    &&& since matches Some(s) ==> !lex_before(code_points(row.created_at), code_points(s))
}

/// The posts that `is_pending` holds of.
pub open spec fn pending_for(
    repo: Seq<char>,
    names: Seq<Seq<char>>,
    since: Option<Seq<char>>,
    handled: Set<(Seq<char>, Seq<char>)>,
) -> spec_fn(Row) -> bool {
    |row: Row| is_pending(row, repo, names, since, handled)
}

impl BoardView {
    /// The posts that wait for `repo`, in board order.
    pub open spec fn pending(
        self,
        repo: Seq<char>,
        names: Seq<Seq<char>>,
        since: Option<Seq<char>>,
    ) -> Seq<Row> {
        self.rows.filter(pending_for(repo, names, since, self.handled))
    }

    /// The first post with the given id.
    pub open spec fn find(self, id: Seq<char>) -> Option<Row> {
        find_row(self.rows, id)
    }
}

/// The first row with the given id.
pub open spec fn find_row(rows: Seq<Row>, id: Seq<char>) -> Option<Row>
    decreases rows.len(),
{
    if rows.len() == 0 {
        None
    } else if rows[0].id == id {
        Some(rows[0])
    } else {
        find_row(rows.drop_first(), id)
    }
}

/// Whether a post is delivered to the live session of `repo`: another repo
/// posted it, and it is a plain post or a signal that `repo` is addressed by.
pub open spec fn notifies(text: Seq<char>, author: Seq<char>, repo: Seq<char>) -> bool {
    author != repo && (!is_signal_text(text) || addressed(text, seq![repo]))
}

// -- The executable form -----------------------------------------------------

/// A post on the board.
#[derive(Debug)]
pub struct Reflection {
    pub id: String,
    pub repo: String,
    pub text: String,
    pub created_at: String,
}

impl View for Reflection {
    type V = Row;

    open spec fn view(&self) -> Row {
        Row { id: self.id@, repo: self.repo@, text: self.text@, created_at: self.created_at@ }
    }
}

impl Clone for Reflection {
    fn clone(&self) -> (copy: Self)
        ensures
            copy@ == self@,
    {
        Reflection {
            id: self.id.clone(),
            repo: self.repo.clone(),
            text: self.text.clone(),
            created_at: self.created_at.clone(),
        }
    }
}

/// Posts as their model.
pub open spec fn rows_of(posts: Seq<Reflection>) -> Seq<Row> {
    posts.map_values(|p: Reflection| p@)
}

/// The board: posts in the order in which they came, and the handled marks.
#[derive(Debug)]
pub struct Board {
    pub reflections: Vec<Reflection>,
    pub handled: Vec<(String, String)>,
}

impl View for Board {
    type V = BoardView;

    open spec fn view(&self) -> BoardView {
        BoardView {
            rows: rows_of(self.reflections@),
            handled: self.handled@.map_values(|p: (String, String)| pair_text(p)).to_set(),
        }
    }
}

/// Whether `name` addresses everybody.
pub fn broadcast_name(name: &str) -> (yes: bool)
    ensures
        yes == is_broadcast_name(name@),
{
    let folded = to_ascii_lowercase(name);
    text_eq(folded.as_str(), "all") || text_eq(folded.as_str(), "everyone")
}

/// Whether an address reaches a reader known under `names`.
fn address_reaches(address: &str, names: &[String]) -> (yes: bool)
    ensures
        yes == reaches(address@, texts(names@)),
{
    if broadcast_name(address) {
        return true;
    }
    for i in 0..names.len()
        invariant
            !is_broadcast_name(address@),
            forall|j: int| 0 <= j < i ==> (#[trigger] names@[j])@ != address@,
    {
        if text_eq(names[i].as_str(), address) {
            assert(texts(names@)[i as int] == address@);
            return true;
        }
    }
    assert(!texts(names@).contains(address@)) by {
        if texts(names@).contains(address@) {
            let j = choose|j: int| 0 <= j < texts(names@).len() && texts(names@)[j] == address@;
            assert(names@[j]@ == address@);
        }
    }
    false
}

/// Whether a post is addressed to a reader known under `names`.
pub fn is_addressed(text: &str, names: &[String]) -> (yes: bool)
    ensures
        yes == addressed(text@, texts(names@)),
{
    let to = recipients(text);
    let ghost all = to@.map_values(|r: String| r@);
    for i in 0..to.len()
        invariant
            all == to@.map_values(|r: String| r@),
            all == recipients_of(text@),
            forall|j: int| 0 <= j < i ==> !reaches(#[trigger] all[j], texts(names@)),
    {
        assert(all[i as int] == to@[i as int]@);
        if address_reaches(to[i].as_str(), names) {
            return true;
        }
    }
    false
}

/// Whether a post is delivered to the live session of `repo`.
pub fn should_notify(text: &str, author: &str, repo: &str) -> (yes: bool)
    ensures
        yes == notifies(text@, author@, repo@),
{
    if text_eq(author, repo) {
        return false;
    }
    if !is_signal(text) {
        return true;
    }
    let mut names: Vec<String> = Vec::new();
    names.push(repo.to_string());
    assert(texts(names@) == seq![repo@]);
    is_addressed(text, names.as_slice())
}

impl Board {
    /// An empty board.
    pub fn new() -> (board: Self)
        ensures
            board@.rows == Seq::<Row>::empty(),
            board@.handled == Set::<(Seq<char>, Seq<char>)>::empty(),
    {
        let board = Board { reflections: Vec::new(), handled: Vec::new() };
        assert(board.handled@.map_values(|p: (String, String)| pair_text(p)) == Seq::<
            (Seq<char>, Seq<char>),
        >::empty());
        board
    }

    /// Adds a post at the end.
    pub fn insert_reflection(&mut self, post: Reflection)
        ensures
            final(self)@.rows == old(self)@.rows.push(post@),
            final(self)@.handled == old(self)@.handled,
    {
        self.reflections.push(post);
        assert(self@.rows =~= old(self)@.rows.push(post@));
    }

    /// Whether `repo` has handled the post `id`.
    pub fn is_handled(&self, id: &str, repo: &str) -> (yes: bool)
        ensures
            yes == self@.handled.contains((id@, repo@)),
    {
        let ghost marks = self.handled@.map_values(|p: (String, String)| pair_text(p));
        for i in 0..self.handled.len()
            invariant
                marks == self.handled@.map_values(|p: (String, String)| pair_text(p)),
                forall|j: int| 0 <= j < i ==> #[trigger] marks[j] != (id@, repo@),
        {
            assert(marks[i as int] == pair_text(self.handled@[i as int]));
            if text_eq(self.handled[i].0.as_str(), id) && text_eq(self.handled[i].1.as_str(), repo) {
                assert(marks.contains(marks[i as int]));
                return true;
            }
        }
        assert(!marks.contains((id@, repo@)));
        false
    }

    /// Marks the post `id` as handled for `repo`.
    pub fn mark_signal_handled_for_repo(&mut self, id: &str, repo: &str)
        ensures
            final(self)@.rows == old(self)@.rows,
            final(self)@.handled == old(self)@.handled.insert((id@, repo@)),
    {
        let ghost before = self.handled@.map_values(|p: (String, String)| pair_text(p));
        self.handled.push((id.to_string(), repo.to_string()));
        proof {
            let after = self.handled@.map_values(|p: (String, String)| pair_text(p));
            assert(after =~= before.push((id@, repo@)));
            assert(after.to_set() =~= before.to_set().insert((id@, repo@))) by {
                assert(after[before.len() as int] == (id@, repo@));
                assert forall|m: (Seq<char>, Seq<char>)| before.contains(m) implies after.contains(
                    m,
                ) by {
                    let j = choose|j: int| 0 <= j < before.len() && before[j] == m;
                    assert(after[j] == m);
                }
            }
        }
    }

    /// The first post with the given id.
    pub fn get_reflection_by_id(&self, id: &str) -> (post: Option<&Reflection>)
        ensures
            post is Some <==> self@.find(id@) is Some,
            post matches Some(p) ==> self@.find(id@) == Some(p@),
    {
        assert(self@.rows.skip(0) == self@.rows);
        for i in 0..self.reflections.len()
            invariant
                self@.find(id@) == find_row(self@.rows.skip(i as int), id@),
        {
            let ghost rest = self@.rows.skip(i as int);
            assert(rest[0] == self.reflections@[i as int]@);
            assert(rest.drop_first() == self@.rows.skip(i + 1));
            if text_eq(self.reflections[i].id.as_str(), id) {
                return Some(&self.reflections[i]);
            }
        }
        None
    }

    /// The posts that wait for `repo`, which is known under `names`, in board
    /// order. Posts older than `since` are left out.
    pub fn get_unhandled_signals_for_repo(
        &self,
        repo: &str,
        names: &[String],
        since: Option<&str>,
    ) -> (out: Vec<Reflection>)
        ensures
            rows_of(out@) == self@.pending(repo@, texts(names@), opt_str(since)),
    {
        reveal(Seq::filter);
        let mut out: Vec<Reflection> = Vec::new();
        let ghost pred = pending_for(repo@, texts(names@), opt_str(since), self@.handled);
        assert(rows_of(out@) =~= self@.rows.take(0).filter(pred));
        for i in 0..self.reflections.len()
            invariant
                pred == pending_for(repo@, texts(names@), opt_str(since), self@.handled),
                rows_of(out@) == self@.rows.take(i as int).filter(pred),
        {
            reveal(Seq::filter);
            let post = &self.reflections[i];
            assert(self@.rows.take(i + 1).drop_last() == self@.rows.take(i as int));
            assert(self@.rows.take(i + 1).last() == post@);
            let fresh = match since {
                Some(s) => !text_before(post.created_at.as_str(), s),
                None => true,
            };
            if fresh && !text_eq(post.repo.as_str(), repo) && is_addressed(post.text.as_str(), names)
                && !self.is_handled(post.id.as_str(), repo) {
                let ghost before = out@;
                out.push(post.clone());
                assert(rows_of(out@) =~= rows_of(before).push(post@));
            }
        }
        assert(self@.rows.take(self@.rows.len() as int) == self@.rows);
        out
    }
}

// -- Rendering posts ---------------------------------------------------------

/// `text` with each line behind the first indented by two spaces.
pub open spec fn indented(text: Seq<char>) -> Seq<char>
    decreases text.len(),
{
    if text.len() == 0 {
        text
    } else {
        let before = indented(text.drop_last());
        if text.last() == '\n' {
            before + "\n  "@
        } else {
            before.push(text.last())
        }
    }
}

/// Indents each line behind the first by two spaces, so that no line of the
/// text stands at the left margin of a list.
pub fn indent_continuation_lines(text: &str) -> (out: String)
    ensures
        out@ == indented(text@),
{
    let chars = to_chars(text);
    let mut out = String::new();
    for i in 0..chars.len()
        invariant
            chars@ == text@,
            out@ == indented(text@.take(i as int)),
    {
        assert(text@.take(i + 1).drop_last() == text@.take(i as int));
        if chars[i] == '\n' {
            out.append("\n  ");
        } else {
            out.push(chars[i]);
        }
    }
    assert(text@.take(text@.len() as int) == text@);
    out
}

// -- Laws --------------------------------------------------------------------

proof fn lemma_filter_agrees(rows: Seq<Row>, p: spec_fn(Row) -> bool, q: spec_fn(Row) -> bool)
    requires
        forall|i: int| 0 <= i < rows.len() ==> p(#[trigger] rows[i]) == q(rows[i]),
    ensures
        rows.filter(p) == rows.filter(q),
    decreases rows.len(),
{
    reveal(Seq::filter);
    if rows.len() > 0 {
        let rest = rows.drop_last();
        assert forall|i: int| 0 <= i < rest.len() implies p(#[trigger] rest[i]) == q(rest[i]) by {
            assert(rest[i] == rows[i]);
        }
        lemma_filter_agrees(rest, p, q);
        assert(p(rows[rows.len() - 1]) == q(rows[rows.len() - 1]));
    }
}

/// What a repo posted itself never waits for it, nor does what it has handled.
pub proof fn law_own_and_handled_posts_do_not_wait(
    board: BoardView,
    repo: Seq<char>,
    names: Seq<Seq<char>>,
    since: Option<Seq<char>>,
    i: int,
)
    requires
        0 <= i < board.pending(repo, names, since).len(),
    ensures
        board.pending(repo, names, since)[i].repo != repo,
        !board.handled.contains((board.pending(repo, names, since)[i].id, repo)),
{
    board.rows.lemma_filter_pred(pending_for(repo, names, since, board.handled), i);
}

/// Marking a post as handled for one repo changes nothing for any other.
pub proof fn law_marks_are_kept_per_repo(
    board: BoardView,
    id: Seq<char>,
    repo: Seq<char>,
    other: Seq<char>,
    names: Seq<Seq<char>>,
    since: Option<Seq<char>>,
)
    requires
        other != repo,
    ensures
        ({
            let marked = BoardView { rows: board.rows, handled: board.handled.insert((id, repo)) };
            marked.pending(other, names, since) == board.pending(other, names, since)
        }),
{
    let handled = board.handled.insert((id, repo));
    lemma_filter_agrees(
        board.rows,
        pending_for(other, names, since, handled),
        pending_for(other, names, since, board.handled),
    );
}

/// A post waits for a repo exactly if another repo posted it, it is addressed
/// to everybody or to a name or tag of the repo, and the repo has not handled
/// it.
pub proof fn law_post_waits_exactly_for_its_addressees(
    board: BoardView,
    i: int,
    repo: Seq<char>,
    names: Seq<Seq<char>>,
)
    requires
        0 <= i < board.rows.len(),
    ensures
        board.pending(repo, names, None).contains(board.rows[i]) <==> {
            &&& board.rows[i].repo != repo
            &&& !board.handled.contains((board.rows[i].id, repo))
            &&& exists|k: int|
                0 <= k < recipients_of(board.rows[i].text).len() && (is_broadcast_name(
                    #[trigger] recipients_of(board.rows[i].text)[k],
                ) || names.contains(recipients_of(board.rows[i].text)[k]))
        },
{
    let pred = pending_for(repo, names, None, board.handled);
    if pred(board.rows[i]) {
        board.rows.lemma_filter_contains(pred, i);
    } else if board.rows.filter(pred).contains(board.rows[i]) {
        let j = choose|j: int|
            0 <= j < board.rows.filter(pred).len() && board.rows.filter(pred)[j] == board.rows[i];
        board.rows.lemma_filter_pred(pred, j);
    }
    if exists|k: int|
        0 <= k < recipients_of(board.rows[i].text).len() && (is_broadcast_name(
            #[trigger] recipients_of(board.rows[i].text)[k],
        ) || names.contains(recipients_of(board.rows[i].text)[k])) {
        let k = choose|k: int|
            0 <= k < recipients_of(board.rows[i].text).len() && (is_broadcast_name(
                #[trigger] recipients_of(board.rows[i].text)[k],
            ) || names.contains(recipients_of(board.rows[i].text)[k]));
        assert(reaches(recipients_of(board.rows[i].text)[k], names));
    }
    if addressed(board.rows[i].text, names) {
        let k = choose|k: int|
            0 <= k < recipients_of(board.rows[i].text).len() && reaches(
                #[trigger] recipients_of(board.rows[i].text)[k],
                names,
            );
        assert(is_broadcast_name(recipients_of(board.rows[i].text)[k]) || names.contains(
            recipients_of(board.rows[i].text)[k],
        ));
    }
}

/// A broadcast waits for every repo but its author until that repo has handled
/// it, whichever names the repo goes by.
pub proof fn law_broadcast_waits_for_everybody(
    board: BoardView,
    i: int,
    k: int,
    repo: Seq<char>,
    names: Seq<Seq<char>>,
)
    requires
        0 <= i < board.rows.len(),
        0 <= k < recipients_of(board.rows[i].text).len(),
        is_broadcast_name(recipients_of(board.rows[i].text)[k]),
        board.rows[i].repo != repo,
        !board.handled.contains((board.rows[i].id, repo)),
    ensures
        board.pending(repo, names, None).contains(board.rows[i]),
{
    assert(reaches(recipients_of(board.rows[i].text)[k], names));
    board.rows.lemma_filter_contains(pending_for(repo, names, None, board.handled), i);
}

/// Whether each line behind the first starts with two spaces.
pub open spec fn lines_are_indented(text: Seq<char>) -> bool {
    forall|i: int|
        0 <= i < text.len() && #[trigger] text[i] == '\n' ==> i + 2 < text.len() && text[i + 1] == ' '
            && text[i + 2] == ' '
}

/// No line of an indented text but the first stands at the left margin, so
/// none can pass for an entry of a list.
pub proof fn law_indented_lines_leave_the_margin(text: Seq<char>)
    ensures
        lines_are_indented(indented(text)),
    decreases text.len(),
{
    if text.len() > 0 {
        reveal_strlit("\n  ");
        law_indented_lines_leave_the_margin(text.drop_last());
        let before = indented(text.drop_last());
        let after = indented(text);
        assert forall|i: int| 0 <= i < after.len() && #[trigger] after[i] == '\n' implies i + 2
            < after.len() && after[i + 1] == ' ' && after[i + 2] == ' ' by {
            if i < before.len() {
                assert(before[i] == after[i]);
                assert(after[i + 1] == before[i + 1]);
                assert(after[i + 2] == before[i + 2]);
            }
        }
    }
}

/// A lower bound takes away exactly what stands before it: with `since`, a post
/// waits exactly if it waits without a bound and was not created before
/// `since`. The order of the posts stays.
pub proof fn law_bound_takes_away_exactly_what_is_older(
    board: BoardView,
    repo: Seq<char>,
    names: Seq<Seq<char>>,
    since: Seq<char>,
)
    ensures
        board.pending(repo, names, Some(since)) == board.pending(repo, names, None).filter(
            |row: Row| !lex_before(code_points(row.created_at), code_points(since)),
        ),
        forall|i: int|
            0 <= i < board.rows.len() ==> (board.pending(repo, names, Some(since)).contains(
                #[trigger] board.rows[i],
            ) <==> board.pending(repo, names, None).contains(board.rows[i]) && !lex_before(
                code_points(board.rows[i].created_at),
                code_points(since),
            )),
    decreases board.rows.len(),
{
    reveal(Seq::filter);
    let bounded = pending_for(repo, names, Some(since), board.handled);
    let unbounded = pending_for(repo, names, None, board.handled);
    let fresh = |row: Row| !lex_before(code_points(row.created_at), code_points(since));
    if board.rows.len() > 0 {
        let rest = BoardView { rows: board.rows.drop_last(), handled: board.handled };
        law_bound_takes_away_exactly_what_is_older(rest, repo, names, since);
        let kept = rest.rows.filter(unbounded);
        if unbounded(board.rows.last()) {
            assert(kept.push(board.rows.last()).drop_last() == kept);
        }
        assert(board.rows.filter(bounded) =~= board.rows.filter(unbounded).filter(fresh));
    } else {
        assert(board.rows.filter(bounded) =~= board.rows.filter(unbounded).filter(fresh));
    }
    assert forall|i: int| 0 <= i < board.rows.len() implies (board.rows.filter(bounded).contains(
        #[trigger] board.rows[i],
    ) <==> board.rows.filter(unbounded).contains(board.rows[i]) && fresh(board.rows[i])) by {
        let row = board.rows[i];
        lemma_kept_exactly_if(board.rows, bounded, i);
        lemma_kept_exactly_if(board.rows, unbounded, i);
    }
}

proof fn lemma_kept_exactly_if(rows: Seq<Row>, pred: spec_fn(Row) -> bool, i: int)
    requires
        0 <= i < rows.len(),
    ensures
        rows.filter(pred).contains(rows[i]) <==> pred(rows[i]),
{
    if pred(rows[i]) {
        rows.lemma_filter_contains(pred, i);
    } else if rows.filter(pred).contains(rows[i]) {
        let j = choose|j: int| 0 <= j < rows.filter(pred).len() && rows.filter(pred)[j] == rows[i];
        rows.lemma_filter_pred(pred, j);
    }
}

/// Posts wait in the order of the board, each on its own account: a further
/// post is appended to those that wait exactly if it would wait alone.
pub proof fn law_posts_wait_in_board_order(
    board: BoardView,
    row: Row,
    repo: Seq<char>,
    names: Seq<Seq<char>>,
    since: Option<Seq<char>>,
)
    ensures
        ({
            let longer = BoardView { rows: board.rows.push(row), handled: board.handled };
            let alone = BoardView { rows: seq![row], handled: board.handled };
            longer.pending(repo, names, since) == board.pending(repo, names, since)
                + alone.pending(repo, names, since)
        }),
{
    reveal(Seq::filter);
    let pred = pending_for(repo, names, since, board.handled);
    assert(board.rows.push(row).drop_last() =~= board.rows);
    assert(seq![row].drop_last() =~= Seq::<Row>::empty());
    assert(seq![row].drop_last().filter(pred) =~= Seq::<Row>::empty());
    assert(seq![row].last() == row);
    assert(board.rows.push(row).last() == row);
    assert(board.rows.push(row).filter(pred) =~= board.rows.filter(pred) + seq![row].filter(pred));
}

/// A post is found by its id: the first that has it, and none exactly if none
/// has it.
pub proof fn law_first_post_with_the_id_is_found(board: BoardView, id: Seq<char>)
    ensures
        board.find(id) is None <==> forall|i: int|
            0 <= i < board.rows.len() ==> (#[trigger] board.rows[i]).id != id,
        forall|k: int|
            0 <= k < board.rows.len() && (#[trigger] board.rows[k]).id == id && (forall|j: int|
                0 <= j < k ==> (#[trigger] board.rows[j]).id != id) ==> board.find(id) == Some(
                board.rows[k],
            ),
    decreases board.rows.len(),
{
    if board.rows.len() > 0 && board.rows[0].id != id {
        let rest = BoardView { rows: board.rows.drop_first(), handled: board.handled };
        law_first_post_with_the_id_is_found(rest, id);
        assert forall|k: int|
            0 <= k < board.rows.len() && (#[trigger] board.rows[k]).id == id && (forall|j: int|
                0 <= j < k ==> (#[trigger] board.rows[j]).id != id) implies board.find(id) == Some(
            board.rows[k],
        ) by {
            assert(rest.rows[k - 1] == board.rows[k]);
            assert forall|j: int| 0 <= j < k - 1 implies (#[trigger] rest.rows[j]).id != id by {
                assert(rest.rows[j] == board.rows[j + 1]);
            }
        }
        if board.find(id) is None {
            assert forall|i: int| 0 <= i < board.rows.len() implies (#[trigger] board.rows[i]).id
                != id by {
                if i > 0 {
                    assert(rest.rows[i - 1] == board.rows[i]);
                }
            }
        } else {
            let i = choose|i: int| 0 <= i < rest.rows.len() && (#[trigger] rest.rows[i]).id == id;
            assert(board.rows[i + 1].id == id);
        }
    }
}

/// A post goes to a live session exactly if somebody else wrote it and it is a
/// plain post, or one of its addresses is a broadcast or the name of the repo.
pub proof fn law_live_session_hears_what_is_meant_for_it(text: &str, author: &str, repo: &str, yes: bool)
    requires
        call_ensures(should_notify, (text, author, repo), yes),
    ensures
        author@ == repo@ ==> !yes,
        author@ != repo@ && !is_signal_text(text@) ==> yes,
        author@ != repo@ && is_signal_text(text@) ==> (yes <==> exists|i: int|
            0 <= i < recipients_of(text@).len() && ({
                let to = #[trigger] recipients_of(text@)[i];
                to == repo@ || lower(to) == "all"@ || lower(to) == "everyone"@
            })),
{
    let all = recipients_of(text@);
    if addressed(text@, seq![repo@]) {
        let i = choose|i: int| 0 <= i < all.len() && reaches(#[trigger] all[i], seq![repo@]);
        assert(all[i] == repo@ || lower(all[i]) == "all"@ || lower(all[i]) == "everyone"@);
    }
    if exists|i: int|
        0 <= i < all.len() && ({
            let to = #[trigger] all[i];
            to == repo@ || lower(to) == "all"@ || lower(to) == "everyone"@
        }) {
        let i = choose|i: int|
            0 <= i < all.len() && ({
                let to = #[trigger] all[i];
                to == repo@ || lower(to) == "all"@ || lower(to) == "everyone"@
            });
        assert(seq![repo@][0] == repo@);
        assert(reaches(all[i], seq![repo@]));
    }
}

/// Indenting goes line by line: a text without a line break stays as it is,
/// and behind each break stand two spaces and the rest, indented.
pub proof fn law_each_further_line_is_indented(first: Seq<char>, rest: Seq<char>)
    requires
        !first.contains('\n'),
    ensures
        indented(first) == first,
        indented(first.push('\n') + rest) == first + seq!['\n', ' ', ' '] + indented(rest),
    decreases first.len() + rest.len(),
{
    reveal_strlit("\n  ");
    if rest.len() > 0 {
        law_each_further_line_is_indented(first, rest.drop_last());
        assert((first.push('\n') + rest).drop_last() =~= first.push('\n') + rest.drop_last());
        assert((first.push('\n') + rest).last() == rest.last());
        let before = first + seq!['\n', ' ', ' '] + indented(rest.drop_last());
        assert(indented(first.push('\n') + rest.drop_last()) == before);
        if rest.last() == '\n' {
            assert(before + "\n  "@ =~= first + seq!['\n', ' ', ' '] + (indented(rest.drop_last())
                + "\n  "@));
        } else {
            assert(before.push(rest.last()) =~= first + seq!['\n', ' ', ' '] + indented(
                rest.drop_last(),
            ).push(rest.last()));
        }
    } else {
        if first.len() > 0 {
            assert forall|c: char| first.drop_last().contains(c) implies first.contains(c) by {
                let j = choose|j: int| 0 <= j < first.drop_last().len() && first.drop_last()[j] == c;
                assert(first[j] == c);
            }
            law_each_further_line_is_indented(first.drop_last(), rest);
            assert(first.contains(first[first.len() - 1]));
            assert(first.drop_last().push(first.last()) =~= first);
        }
        assert(first.push('\n') + rest =~= first.push('\n'));
        assert(first.push('\n').drop_last() =~= first);
        assert("\n  "@ =~= seq!['\n', ' ', ' ']);
        assert(first.push('\n').last() == '\n');
        assert(indented(rest) =~= Seq::empty());
        assert(indented(first) == first);
        assert(indented(first.push('\n')) == indented(first.push('\n').drop_last()) + "\n  "@);
        assert(first + "\n  "@ =~= first + seq!['\n', ' ', ' '] + indented(rest));
    }
}

/// A post that a repo has marked as handled no longer waits for it, whichever
/// names it goes by, and every other post waits as it did.
pub proof fn law_marked_post_no_longer_waits(
    board: &mut Board,
    id: &str,
    repo: &str,
    names: Seq<Seq<char>>,
    since: Option<Seq<char>>,
)
    requires
        call_ensures(Board::mark_signal_handled_for_repo, (board, id, repo), ()),
    ensures
        final(board)@.rows == old(board)@.rows,
        forall|i: int|
            0 <= i < old(board)@.rows.len() ==> (final(board)@.pending(
                repo@,
                names,
                since,
            ).contains(#[trigger] old(board)@.rows[i]) <==> old(board)@.pending(
                repo@,
                names,
                since,
            ).contains(old(board)@.rows[i]) && old(board)@.rows[i].id != id@),
{
    let rows = old(board)@.rows;
    let before = pending_for(repo@, names, since, old(board)@.handled);
    let after = pending_for(repo@, names, since, final(board)@.handled);
    assert forall|i: int| 0 <= i < rows.len() implies (rows.filter(after).contains(
        #[trigger] rows[i],
    ) <==> rows.filter(before).contains(rows[i]) && rows[i].id != id@) by {
        lemma_kept_exactly_if(rows, before, i);
        lemma_kept_exactly_if(rows, after, i);
    }
}

/// A post that comes in stands behind all that are there, which stay as they
/// are, and nobody has handled anything by it.
pub proof fn law_new_post_stands_last(board: &mut Board, post: Reflection)
    requires
        call_ensures(Board::insert_reflection, (board, post), ()),
    ensures
        final(board)@.rows.len() == old(board)@.rows.len() + 1,
        final(board)@.rows.drop_last() == old(board)@.rows,
        final(board)@.rows.last().id == post.id@,
        final(board)@.rows.last().repo == post.repo@,
        final(board)@.rows.last().text == post.text@,
        final(board)@.rows.last().created_at == post.created_at@,
        final(board)@.handled == old(board)@.handled,
{
    assert(old(board)@.rows.push(post@).drop_last() =~= old(board)@.rows);
}

/// Asked with a lower bound, the board hands out what it hands out without
/// one, less the posts that were created before the bound: a post created at
/// the bound or later is never left out, and an older one always is.
pub proof fn law_newer_posts_are_never_left_out(
    board: &Board,
    repo: &str,
    names: &[String],
    since: &str,
    all: Vec<Reflection>,
    recent: Vec<Reflection>,
)
    requires
        call_ensures(Board::get_unhandled_signals_for_repo, (board, repo, names, None), all),
        call_ensures(
            Board::get_unhandled_signals_for_repo,
            (board, repo, names, Some(since)),
            recent,
        ),
    ensures
        rows_of(recent@) == rows_of(all@).filter(
            |row: Row| !lex_before(code_points(row.created_at), code_points(since@)),
        ),
        forall|i: int|
            0 <= i < all@.len() ==> (rows_of(recent@).contains((#[trigger] all@[i])@)
                <==> !lex_before(code_points(all@[i].created_at@), code_points(since@))),
{
    law_bound_takes_away_exactly_what_is_older(board@, repo@, texts(names@), since@);
    let fresh = |row: Row| !lex_before(code_points(row.created_at), code_points(since@));
    let rows = rows_of(all@);
    assert forall|i: int| 0 <= i < all@.len() implies (rows_of(recent@).contains(
        (#[trigger] all@[i])@,
    ) <==> fresh(all@[i]@)) by {
        assert(rows[i] == all@[i]@);
        lemma_kept_exactly_if(rows, fresh, i);
    }
}

} // verus!
