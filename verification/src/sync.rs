//! Bringing the issues of a work source onto the board.
use vstd::prelude::*;
use crate::json::{json_data, json_text, member_text, text_member, values_data, JsonData};
use crate::scan::{join, joined, texts};
use crate::signal::opt_text;
use crate::text::text_eq;

verus! {

broadcast use vstd::seq_lib::group_seq_properties;

/// An issue of a work source.
#[derive(Debug, Clone)]
pub struct ExternalIssue {
    pub url: String,
    pub number: u64,
    pub title: String,
    pub body: Option<String>,
    pub labels: Vec<serde_json::Value>,
    pub assignees: Option<Vec<serde_json::Value>>,
    pub state: String,
    pub created_at: Option<String>,
}

/// The name of a label: the string under `name`, else the string that the
/// label is.
pub open spec fn label_name(label: JsonData) -> Option<Seq<char>> {
    match text_member(label, "name"@) {
        Some(name) => Some(name),
        None => match label {
            JsonData::Text(s) => Some(s),
            _ => None,
        },
    }
}

/// The names of labels, in order. A label without a name is passed over.
pub open spec fn label_names(labels: Seq<JsonData>) -> Seq<Seq<char>>
    decreases labels.len(),
{
    if labels.len() == 0 {
        Seq::empty()
    } else {
        let before = label_names(labels.drop_last());
        match label_name(labels.last()) {
            Some(name) => before.push(name),
            None => before,
        }
    }
}

/// The names of an issue's labels.
pub fn names_of_labels(labels: &[serde_json::Value]) -> (names: Vec<String>)
    ensures
        texts(names@) == label_names(values_data(labels@)),
{
    let mut names: Vec<String> = Vec::new();
    let ghost all = values_data(labels@);
    assert(texts(names@) =~= label_names(all.take(0)));
    for i in 0..labels.len()
        invariant
            all == values_data(labels@),
            texts(names@) == label_names(all.take(i as int)),
    {
        assert(all.take(i + 1).drop_last() =~= all.take(i as int));
        assert(all.take(i + 1).last() == json_data(labels@[i as int]));
        let ghost before = texts(names@);
        let named = member_text(&labels[i], "name");
        let name = match named {
            Some(n) => Some(n),
            None => json_text(&labels[i]),
        };
        match name {
            Some(n) => {
                names.push(n.to_string());
                assert(texts(names@) =~= before.push(n@));
            },
            None => {},
        }
    }
    assert(all.take(labels@.len() as int) =~= all);
    names
}

/// The labels of a card: the names with commas between them, unless there are
/// none.
pub open spec fn label_list(names: Seq<Seq<char>>) -> Option<Seq<char>> {
    if names.len() == 0 {
        None
    } else {
        Some(joined(names, ","@))
    }
}

/// The priority that the labels of an issue give it.
pub open spec fn priority_of(names: Seq<Seq<char>>) -> Seq<char> {
    if names.contains("critical"@) {
        "critical"@
    } else if names.contains("high"@) || names.contains("priority"@) {
        "high"@
    } else {
        "med"@
    }
}

fn has_name(names: &[String], name: &str) -> (yes: bool)
    ensures
        yes == texts(names@).contains(name@),
{
    for i in 0..names.len()
        invariant
            forall|j: int| 0 <= j < i ==> #[trigger] texts(names@)[j] != name@,
    {
        assert(texts(names@)[i as int] == names@[i as int]@);
        if text_eq(names[i].as_str(), name) {
            return true;
        }
    }
    false
}

/// The priority that the labels of an issue give it.
pub fn priority_for(names: &[String]) -> (priority: &'static str)
    ensures
        priority@ == priority_of(texts(names@)),
{
    if has_name(names, "critical") {
        "critical"
    } else if has_name(names, "high") || has_name(names, "priority") {
        "high"
    } else {
        "med"
    }
}

/// A card to be put on the board. The repository is both its sender and its
/// receiver.
#[derive(Debug)]
pub struct NewCard {
    pub repo: String,
    pub title: String,
    pub body: Option<String>,
    pub priority: String,
    pub labels: Option<String>,
    pub source_url: String,
    pub source_type: String,
    pub created_at: Option<String>,
}

/// The model of a new card.
pub struct CardView {
    pub repo: Seq<char>,
    pub title: Seq<char>,
    pub body: Option<Seq<char>>,
    pub priority: Seq<char>,
    pub labels: Option<Seq<char>>,
    pub source_url: Seq<char>,
    pub source_type: Seq<char>,
    pub created_at: Option<Seq<char>>,
}

impl View for NewCard {
    type V = CardView;

    open spec fn view(&self) -> CardView {
        CardView {
            repo: self.repo@,
            title: self.title@,
            body: opt_text(self.body),
            priority: self.priority@,
            labels: opt_text(self.labels),
            source_url: self.source_url@,
            source_type: self.source_type@,
            created_at: opt_text(self.created_at),
        }
    }
}

/// The card for an issue whose labels have these names.
pub open spec fn card_of(
    issue: ExternalIssue,
    names: Seq<Seq<char>>,
    plugin_name: Seq<char>,
    repo: Seq<char>,
) -> CardView {
    CardView {
        repo,
        title: issue.title@,
        body: opt_text(issue.body),
        priority: priority_of(names),
        labels: label_list(names),
        source_url: issue.url@,
        source_type: plugin_name,
        created_at: opt_text(issue.created_at),
    }
}

fn copied(text: &Option<String>) -> (copy: Option<String>)
    ensures
        opt_text(copy) == opt_text(*text),
{
    match text {
        Some(t) => Some(t.clone()),
        None => None,
    }
}

/// The card for an issue whose labels have these names.
pub fn card_for(issue: &ExternalIssue, names: &[String], plugin_name: &str, legion_repo: &str) -> (card:
    NewCard)
    ensures
        card@ == card_of(*issue, texts(names@), plugin_name@, legion_repo@),
{
    let labels = if names.len() == 0 {
        None
    } else {
        Some(join(names, ","))
    };
    NewCard {
        repo: legion_repo.to_string(),
        title: issue.title.clone(),
        body: copied(&issue.body),
        priority: priority_for(names).to_string(),
        labels,
        source_url: issue.url.clone(),
        source_type: plugin_name.to_string(),
        created_at: copied(&issue.created_at),
    }
}

/// The source addresses of the cards on a board.
pub open spec fn source_urls(urls: Seq<Option<String>>) -> Seq<Option<Seq<char>>> {
    urls.map_values(|u: Option<String>| opt_text(u))
}

/// Whether an issue gets a card: it has an address, and no card came from
/// there.
pub open spec fn wants_card(issue: ExternalIssue, known: Seq<Option<Seq<char>>>) -> bool {
    issue.url@.len() > 0 && !known.contains(Some(issue.url@))
}

/// The cards for the issues that get one, in order.
pub open spec fn new_cards(
    issues: Seq<ExternalIssue>,
    known: Seq<Option<Seq<char>>>,
    plugin_name: Seq<char>,
    repo: Seq<char>,
) -> Seq<CardView>
    decreases issues.len(),
{
    if issues.len() == 0 {
        Seq::empty()
    } else {
        let before = new_cards(issues.drop_last(), known, plugin_name, repo);
        let issue = issues.last();
        if wants_card(issue, known) {
            before.push(
                card_of(issue, label_names(values_data(issue.labels@)), plugin_name, repo),
            )
        } else {
            before
        }
    }
}

/// Cards as their models.
pub open spec fn card_views(cards: Seq<NewCard>) -> Seq<CardView> {
    cards.map_values(|c: NewCard| c@)
}

fn is_known(known: &[Option<String>], url: &str) -> (yes: bool)
    ensures
        yes == source_urls(known@).contains(Some(url@)),
{
    for i in 0..known.len()
        invariant
            forall|j: int| 0 <= j < i ==> #[trigger] source_urls(known@)[j] != Some(url@),
    {
        assert(source_urls(known@)[i as int] == opt_text(known@[i as int]));
        match &known[i] {
            Some(u) => if text_eq(u.as_str(), url) {
                return true;
            },
            None => {},
        }
    }
    false
}

/// The cards to create for the issues of a work source: one for each issue
/// that has an address and that no card of the board came from.
/// `known` holds the source address of each card on the board.
pub fn sync_issues(
    issues: &[ExternalIssue],
    known: &[Option<String>],
    plugin_name: &str,
    legion_repo: &str,
) -> (cards: Vec<NewCard>)
    ensures
        card_views(cards@) == new_cards(
            issues@,
            source_urls(known@),
            plugin_name@,
            legion_repo@,
        ),
{
    let mut cards: Vec<NewCard> = Vec::new();
    assert(card_views(cards@) =~= new_cards(
        issues@.take(0),
        source_urls(known@),
        plugin_name@,
        legion_repo@,
    ));
    for i in 0..issues.len()
        invariant
            card_views(cards@) == new_cards(
                issues@.take(i as int),
                source_urls(known@),
                plugin_name@,
                legion_repo@,
            ),
    {
        assert(issues@.take(i + 1).drop_last() =~= issues@.take(i as int));
        let issue = &issues[i];
        let ghost before = card_views(cards@);
        if !issue.url.as_str().is_empty() && !is_known(known, issue.url.as_str()) {
            let names = names_of_labels(issue.labels.as_slice());
            let card = card_for(issue, names.as_slice(), plugin_name, legion_repo);
            let ghost added = card@;
            cards.push(card);
            assert(card_views(cards@) =~= before.push(added));
        }
    }
    assert(issues@.take(issues@.len() as int) =~= issues@);
    cards
}

/// A second pass over the same issues, after the cards of the first were put
/// on the board, creates nothing.
pub proof fn law_syncing_again_creates_nothing(
    issues: Seq<ExternalIssue>,
    known: Seq<Option<Seq<char>>>,
    plugin_name: Seq<char>,
    repo: Seq<char>,
)
    ensures
        new_cards(
            issues,
            known + new_cards(issues, known, plugin_name, repo).map_values(
                |c: CardView| Some(c.source_url),
            ),
            plugin_name,
            repo,
        ) == Seq::<CardView>::empty(),
{
    let cards = new_cards(issues, known, plugin_name, repo);
    let sources = cards.map_values(|c: CardView| Some(c.source_url));
    lemma_cards_cover(issues, known, plugin_name, repo);
    lemma_all_known(issues, known + sources, plugin_name, repo);
}

proof fn lemma_cards_cover(
    issues: Seq<ExternalIssue>,
    known: Seq<Option<Seq<char>>>,
    plugin_name: Seq<char>,
    repo: Seq<char>,
)
    ensures
        ({
            let sources = new_cards(issues, known, plugin_name, repo).map_values(
                |c: CardView| Some(c.source_url),
            );
            forall|i: int|
                0 <= i < issues.len() && (#[trigger] issues[i]).url@.len() > 0 ==> (known
                    + sources).contains(Some(issues[i].url@))
        }),
    decreases issues.len(),
{
    if issues.len() > 0 {
        let rest = issues.drop_last();
        lemma_cards_cover(rest, known, plugin_name, repo);
        let before = new_cards(rest, known, plugin_name, repo);
        let after = new_cards(issues, known, plugin_name, repo);
        let f = |c: CardView| Some(c.source_url);
        let old_sources = before.map_values(f);
        let sources = after.map_values(f);
        assert forall|i: int| 0 <= i < issues.len() && (#[trigger] issues[i]).url@.len() > 0 implies (
        known + sources).contains(Some(issues[i].url@)) by {
            let url = Some(issues[i].url@);
            if i < rest.len() {
                assert(rest[i] == issues[i]);
                let k = choose|k: int|
                    0 <= k < (known + old_sources).len() && (known + old_sources)[k] == url;
                assert((known + sources)[k] == url);
            } else if known.contains(url) {
                let k = choose|k: int| 0 <= k < known.len() && known[k] == url;
                assert((known + sources)[k] == url);
            } else {
                let k = known.len() + after.len() - 1;
                assert(after.last().source_url == issues[i].url@);
                assert((known + sources)[k] == url);
            }
        }
    }
}

proof fn lemma_all_known(
    issues: Seq<ExternalIssue>,
    known: Seq<Option<Seq<char>>>,
    plugin_name: Seq<char>,
    repo: Seq<char>,
)
    requires
        forall|i: int|
            0 <= i < issues.len() && (#[trigger] issues[i]).url@.len() > 0 ==> known.contains(
                Some(issues[i].url@),
            ),
    ensures
        new_cards(issues, known, plugin_name, repo) == Seq::<CardView>::empty(),
    decreases issues.len(),
{
    if issues.len() > 0 {
        let rest = issues.drop_last();
        assert forall|i: int| 0 <= i < rest.len() && (#[trigger] rest[i]).url@.len() > 0 implies known.contains(
            Some(rest[i].url@),
        ) by {
            assert(rest[i] == issues[i]);
        }
        lemma_all_known(rest, known, plugin_name, repo);
        assert(issues[issues.len() - 1] == issues.last());
    }
}

// -- Laws --------------------------------------------------------------------

/// Whether a label is called `name`: it is that string, or an object that has
/// it under `name`.
pub open spec fn is_called(label: JsonData, name: Seq<char>) -> bool {
    match label {
        JsonData::Text(s) => s == name,
        JsonData::Object(members) => members.contains_key("name"@) && members["name"@]
            == JsonData::Text(name),
        JsonData::Other => false,
    }
}

/// Whether a label of an issue is called `name`.
pub open spec fn has_label(issue: ExternalIssue, name: Seq<char>) -> bool {
    exists|l: int|
        0 <= l < issue.labels@.len() && is_called(json_data(#[trigger] issue.labels@[l]), name)
}

proof fn lemma_names_are_called(labels: Seq<JsonData>, name: Seq<char>)
    ensures
        label_names(labels).contains(name) <==> exists|l: int|
            0 <= l < labels.len() && is_called(#[trigger] labels[l], name),
    decreases labels.len(),
{
    if labels.len() > 0 {
        let rest = labels.drop_last();
        let before = label_names(rest);
        let after = label_names(labels);
        lemma_names_are_called(rest, name);
        let last = labels[labels.len() - 1];
        assert(label_name(last) == Some(name) <==> is_called(last, name));
        if is_called(last, name) {
            assert(after.last() == name);
        } else if before.contains(name) {
            let l = choose|l: int| 0 <= l < rest.len() && is_called(#[trigger] rest[l], name);
            assert(labels[l] == rest[l]);
            let k = choose|k: int| 0 <= k < before.len() && before[k] == name;
            assert(after[k] == name);
        } else {
            assert forall|l: int| 0 <= l < labels.len() implies !is_called(
                #[trigger] labels[l],
                name,
            ) by {
                if l < rest.len() {
                    assert(labels[l] == rest[l]);
                }
            }
            if after.contains(name) {
                let k = choose|k: int| 0 <= k < after.len() && after[k] == name;
                if k < before.len() {
                    assert(before[k] == name);
                }
            }
        }
    }
}

proof fn lemma_label_is_called(issue: ExternalIssue, name: Seq<char>)
    ensures
        label_names(values_data(issue.labels@)).contains(name) <==> has_label(issue, name),
{
    let all = values_data(issue.labels@);
    lemma_names_are_called(all, name);
    if has_label(issue, name) {
        let l = choose|l: int|
            0 <= l < issue.labels@.len() && is_called(json_data(#[trigger] issue.labels@[l]), name);
        assert(is_called(all[l], name));
    }
    if all.len() > 0 && exists|l: int| 0 <= l < all.len() && is_called(#[trigger] all[l], name) {
        let l = choose|l: int| 0 <= l < all.len() && is_called(#[trigger] all[l], name);
        assert(is_called(json_data(issue.labels@[l]), name));
    }
}

/// Whether a card tells of an issue: its title, body, address and date are
/// those of the issue, it stands under the repo and the plugin, and its
/// priority is that of the most pressing label, whatever other labels there
/// are.
pub open spec fn tells_of(
    card: NewCard,
    issue: ExternalIssue,
    plugin_name: Seq<char>,
    repo: Seq<char>,
) -> bool {
    &&& card.title@ == issue.title@
    &&& card.source_url@ == issue.url@
    &&& opt_text(card.body) == opt_text(issue.body)
    &&& opt_text(card.created_at) == opt_text(issue.created_at)
    &&& card.repo@ == repo
    &&& card.source_type@ == plugin_name
    &&& has_label(issue, "critical"@) ==> card.priority@ == "critical"@
    &&& !has_label(issue, "critical"@) && (has_label(issue, "high"@) || has_label(
        issue,
        "priority"@,
    )) ==> card.priority@ == "high"@
    &&& !has_label(issue, "critical"@) && !has_label(issue, "high"@) && !has_label(
        issue,
        "priority"@,
    ) ==> card.priority@ == "med"@
    &&& card.labels is Some <==> exists|name: Seq<char>| has_label(issue, name)
}

/// Whether an issue is new to a board: it has an address, and no card of the
/// board came from there.
pub open spec fn is_new(issue: ExternalIssue, known: Seq<Option<String>>) -> bool {
    &&& issue.url@ != Seq::<char>::empty()
    &&& forall|k: int|
        0 <= k < known.len() ==> !(#[trigger] known[k] matches Some(url) && url@ == issue.url@)
}

proof fn lemma_card_tells_of_its_issue(
    card: NewCard,
    issue: ExternalIssue,
    plugin_name: Seq<char>,
    repo: Seq<char>,
)
    requires
        card@ == card_of(issue, label_names(values_data(issue.labels@)), plugin_name, repo),
    ensures
        tells_of(card, issue, plugin_name, repo),
{
    let names = label_names(values_data(issue.labels@));
    lemma_label_is_called(issue, "critical"@);
    lemma_label_is_called(issue, "high"@);
    lemma_label_is_called(issue, "priority"@);
    if names.len() > 0 {
        assert(names.contains(names[0]));
        lemma_label_is_called(issue, names[0]);
    } else {
        assert forall|name: Seq<char>| !has_label(issue, name) by {
            lemma_label_is_called(issue, name);
        }
    }
}

proof fn lemma_new_exactly_if_wanted(issue: ExternalIssue, known: Seq<Option<String>>)
    ensures
        wants_card(issue, source_urls(known)) <==> is_new(issue, known),
{
    let urls = source_urls(known);
    let url = Some(issue.url@);
    assert(issue.url@.len() == 0 <==> issue.url@ =~= Seq::<char>::empty());
    if urls.contains(url) {
        let k = choose|k: int| 0 <= k < urls.len() && urls[k] == url;
        assert(urls[k] == opt_text(known[k]));
    } else {
        assert forall|k: int| 0 <= k < known.len() implies !(#[trigger] known[k] matches Some(u)
            && u@ == issue.url@) by {
            assert(urls[k] == opt_text(known[k]));
            assert(urls.contains(urls[k]));
        }
    }
}

/// The issues, by position, that cards were made for: one for each card, in
/// order, and all the new ones.
proof fn lemma_issues_of_cards(
    issues: Seq<ExternalIssue>,
    known: Seq<Option<String>>,
    plugin_name: Seq<char>,
    repo: Seq<char>,
) -> (from: Seq<int>)
    ensures
        from.len() == new_cards(issues, source_urls(known), plugin_name, repo).len(),
        forall|k: int|
            0 <= k < from.len() ==> 0 <= #[trigger] from[k] < issues.len() && is_new(
                issues[from[k]],
                known,
            ) && new_cards(issues, source_urls(known), plugin_name, repo)[k] == card_of(
                issues[from[k]],
                label_names(values_data(issues[from[k]].labels@)),
                plugin_name,
                repo,
            ),
        forall|j: int, k: int| 0 <= j < k < from.len() ==> #[trigger] from[j] < #[trigger] from[k],
        forall|i: int|
            0 <= i < issues.len() && is_new(#[trigger] issues[i], known) ==> from.contains(i),
    decreases issues.len(),
{
    if issues.len() == 0 {
        Seq::empty()
    } else {
        let rest = issues.drop_last();
        let before = lemma_issues_of_cards(rest, known, plugin_name, repo);
        let n: int = issues.len() - 1;
        lemma_new_exactly_if_wanted(issues[n], known);
        let from = if is_new(issues[n], known) {
            before.push(n)
        } else {
            before
        };
        assert forall|i: int|
            0 <= i < issues.len() && is_new(#[trigger] issues[i], known) implies from.contains(i) by {
            if i < n {
                assert(rest[i] == issues[i]);
                let k = choose|k: int| 0 <= k < before.len() && before[k] == i;
                assert(from[k] == i);
            } else {
                assert(from[from.len() - 1] == i);
            }
        }
        assert forall|k: int| 0 <= k < from.len() implies 0 <= #[trigger] from[k] < issues.len()
            && is_new(issues[from[k]], known) && new_cards(
            issues,
            source_urls(known),
            plugin_name,
            repo,
        )[k] == card_of(
            issues[from[k]],
            label_names(values_data(issues[from[k]].labels@)),
            plugin_name,
            repo,
        ) by {
            if k < before.len() {
                assert(from[k] == before[k]);
                assert(rest[before[k]] == issues[before[k]]);
            }
        }
        from
    }
}

/// A sync makes one card for each new issue and no other card, in the order of
/// the issues, and each card tells of its issue. Whenever a label is called
/// `critical` the card is critical, whatever the other labels are; else it is
/// high where one is called `high` or `priority`, and medium where none is.
pub proof fn law_each_new_issue_gets_its_card(
    issues: &[ExternalIssue],
    known: &[Option<String>],
    plugin_name: &str,
    legion_repo: &str,
    cards: Vec<NewCard>,
)
    requires
        call_ensures(sync_issues, (issues, known, plugin_name, legion_repo), cards),
    ensures
        exists|from: Seq<int>|
            {
                &&& #[trigger] from.len() == cards@.len()
                &&& forall|k: int|
                    0 <= k < from.len() ==> 0 <= #[trigger] from[k] < issues@.len() && is_new(
                        issues@[from[k]],
                        known@,
                    ) && tells_of(cards@[k], issues@[from[k]], plugin_name@, legion_repo@)
                &&& forall|j: int, k: int|
                    0 <= j < k < from.len() ==> #[trigger] from[j] < #[trigger] from[k]
                &&& forall|i: int|
                    0 <= i < issues@.len() && is_new(#[trigger] issues@[i], known@)
                        ==> from.contains(i)
            },
{
    let from = lemma_issues_of_cards(issues@, known@, plugin_name@, legion_repo@);
    let views = card_views(cards@);
    assert(from.len() == cards@.len());
    assert forall|k: int| 0 <= k < from.len() implies 0 <= #[trigger] from[k] < issues@.len()
        && is_new(issues@[from[k]], known@) && tells_of(
        cards@[k],
        issues@[from[k]],
        plugin_name@,
        legion_repo@,
    ) by {
        assert(views[k] == cards@[k]@);
        lemma_card_tells_of_its_issue(cards@[k], issues@[from[k]], plugin_name@, legion_repo@);
    }
}

/// The priority is that of the most pressing name among them, wherever it
/// stands and whatever the others are.
pub proof fn law_most_pressing_name_gives_the_priority(names: &[String], priority: &'static str)
    requires
        call_ensures(priority_for, (names,), priority),
    ensures
        (exists|i: int| 0 <= i < names@.len() && (#[trigger] names@[i])@ == "critical"@)
            ==> priority@ == "critical"@,
        (forall|i: int| 0 <= i < names@.len() ==> (#[trigger] names@[i])@ != "critical"@) && (
        exists|i: int|
            0 <= i < names@.len() && ((#[trigger] names@[i])@ == "high"@ || names@[i]@
                == "priority"@)) ==> priority@ == "high"@,
        (forall|i: int|
            0 <= i < names@.len() ==> (#[trigger] names@[i])@ != "critical"@ && names@[i]@ != "high"@
                && names@[i]@ != "priority"@) ==> priority@ == "med"@,
{
    let all = texts(names@);
    assert forall|i: int| 0 <= i < names@.len() implies all.contains((#[trigger] names@[i])@) by {
        assert(all[i] == names@[i]@);
    }
    assert forall|name: Seq<char>| all.contains(name) implies exists|i: int|
        0 <= i < names@.len() && (#[trigger] names@[i])@ == name by {
        let i = choose|i: int| 0 <= i < all.len() && all[i] == name;
        assert(names@[i]@ == name);
    }
}

/// The names of labels stand in the order of the labels; a label without a
/// name adds none.
pub proof fn law_label_names_stand_in_order(labels: Seq<JsonData>, label: JsonData, name: Seq<char>)
    ensures
        label_names(Seq::empty()) == Seq::<Seq<char>>::empty(),
        is_called(label, name) ==> label_names(labels.push(label)) == label_names(labels).push(name),
        (forall|n: Seq<char>| !#[trigger] is_called(label, n)) ==> label_names(labels.push(label))
            == label_names(labels),
{
    assert(labels.push(label).drop_last() =~= labels);
    if label_name(label) is Some {
        assert(is_called(label, label_name(label)->0));
    }
}

/// The labels of a card are all the names, with a comma between each two.
pub proof fn law_labels_are_listed_with_commas(names: Seq<Seq<char>>, name: Seq<char>)
    ensures
        label_list(Seq::empty()) is None,
        label_list(seq![name]) == Some(name),
        label_list(names) matches Some(list) ==> label_list(names.push(name)) == Some(
            list + seq![','] + name,
        ),
{
    reveal_strlit(",");
    assert(","@ =~= seq![',']);
    assert(names.push(name).drop_last() =~= names);
}

} // verus!
