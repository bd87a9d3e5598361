//! The dashboard's state and how it answers each message.
use vstd::prelude::*;
use vstd::string::StringExecFns;

use crate::panes;
use crate::panes::{SessionsPane, StatsFilter, TopicsPane};
use crate::logger::{log_message, DashboardLogger};
use crate::session::{Session, SessionView};
use crate::text::{
    chars_less, chars_of, lemma_text_less_irreflexive, replace_all, replaced, lemma_text_less_total,
    lemma_text_less_transitive, text_less,
};
use crate::tools::{string_views, topic_views};
use crate::topic::{names_of, Category, Topic, TopicView};

verus! {

/// A sequence of texts in strictly increasing order (so without repeats).
pub open spec fn strictly_sorted(names: Seq<Seq<char>>) -> bool {
    forall|i: int, k: int| 0 <= i < k < names.len() ==> text_less(#[trigger] names[i], #[trigger] names[k])
}

/// Every category name that some topic has.
pub open spec fn topic_category_names(topics: Seq<TopicView>) -> Set<Seq<char>> {
    Set::new(
        |n: Seq<char>|
            exists|i: int, j: int|
                0 <= i < topics.len() && 0 <= j < topics[i].categories.len() && #[trigger] topics[i].categories[j]
                    == n,
    )
}

/// The category names of the topics, each once, in increasing order.
pub open spec fn sorted_category_names(topics: Seq<TopicView>) -> Seq<Seq<char>> {
    choose|s: Seq<Seq<char>>| strictly_sorted(s) && s.to_set() == topic_category_names(topics)
}

proof fn lemma_sorted_drop_first(a: Seq<Seq<char>>)
    requires
        strictly_sorted(a),
        a.len() > 0,
    ensures
        strictly_sorted(a.drop_first()),
        a.drop_first().to_set() == a.to_set().remove(a[0]),
{
    assert forall|i: int, k: int| 0 <= i < k < a.drop_first().len() implies text_less(
        #[trigger] a.drop_first()[i],
        #[trigger] a.drop_first()[k],
    ) by {
        assert(a.drop_first()[i] == a[i + 1]);
        assert(a.drop_first()[k] == a[k + 1]);
    }
    assert forall|x: Seq<char>| a.drop_first().to_set().contains(x) <==> a.to_set().remove(a[0]).contains(x) by {
        if a.drop_first().contains(x) {
            let k = a.drop_first().index_of(x);
            assert(a[k + 1] == x);
            assert(text_less(a[0], a[k + 1]));
            if x == a[0] {
                lemma_text_less_irreflexive(x);
            }
        }
        if a.contains(x) && x != a[0] {
            let k = a.index_of(x);
            assert(k != 0);
            assert(a.drop_first()[k - 1] == x);
        }
    }
    assert(a.drop_first().to_set() =~= a.to_set().remove(a[0]));
}

/// Two strictly sorted sequences of texts holding the same texts are equal.
pub proof fn lemma_sorted_unique(a: Seq<Seq<char>>, b: Seq<Seq<char>>)
    requires
        strictly_sorted(a),
        strictly_sorted(b),
        a.to_set() == b.to_set(),
    ensures
        a == b,
    decreases a.len(),
{
    if a.len() == 0 {
        if b.len() > 0 {
            assert(b.to_set().contains(b[0]));
        }
        assert(a =~= b);
    } else {
        assert(a.to_set().contains(a[0]));
        assert(b.len() > 0);
        assert(b.to_set().contains(b[0]));
        let p = b.index_of(a[0]);
        let q = a.index_of(b[0]);
        if p > 0 {
            assert(text_less(b[0], b[p]));
            if q > 0 {
                assert(text_less(a[0], a[q]));
                lemma_text_less_transitive(b[0], a[0], b[0]);
                lemma_text_less_irreflexive(b[0]);
            } else {
                lemma_text_less_irreflexive(b[0]);
            }
        }
        assert(a[0] == b[0]);
        lemma_sorted_drop_first(a);
        lemma_sorted_drop_first(b);
        lemma_sorted_unique(a.drop_first(), b.drop_first());
        assert(a =~= seq![a[0]] + a.drop_first());
        assert(b =~= seq![b[0]] + b.drop_first());
    }
}

/// The texts of a sequence of character vectors.
pub open spec fn key_views(keys: Seq<Vec<char>>) -> Seq<Seq<char>> {
    keys.map_values(|k: Vec<char>| k@)
}

fn insert_sorted(names: &mut Vec<Category>, keys: &mut Vec<Vec<char>>, name: &String)
    requires
        key_views(old(keys)@) == names_of(old(names)@),
        strictly_sorted(names_of(old(names)@)),
    ensures
        key_views(final(keys)@) == names_of(final(names)@),
        strictly_sorted(names_of(final(names)@)),
        names_of(final(names)@).to_set() == names_of(old(names)@).to_set().insert(name@),
{
    let key = chars_of(name.as_str());
    let ghost before = names_of(names@);
    let mut j: usize = 0;
    while j < keys.len() && chars_less(&keys[j], &key)
        invariant
            j <= keys.len(),
            key_views(keys@) == before,
            names_of(names@) == before,
            key@ == name@,
            forall|k: int| 0 <= k < j ==> text_less(#[trigger] before[k], name@),
        decreases keys.len() - j,
    {
        assert(keys@[j as int]@ == before[j as int]);
        j = j + 1;
    }
    if j < keys.len() && !chars_less(&key, &keys[j]) {
        proof {
            assert(keys@[j as int]@ == before[j as int]);
            if before[j as int] != name@ {
                lemma_text_less_total(before[j as int], name@);
            }
            assert(before.to_set().insert(name@) =~= before.to_set());
        }
        return;
    }
    proof {
        if j < keys.len() {
            assert(keys@[j as int]@ == before[j as int]);
            assert(text_less(name@, before[j as int]));
        }
    }
    names.insert(j, Category { name: name.clone() });
    keys.insert(j, key);
    proof {
        let after = names_of(names@);
        assert(after =~= before.insert(j as int, name@));
        assert(key_views(keys@) =~= after);
        assert forall|i: int, k: int| 0 <= i < k < after.len() implies text_less(
            #[trigger] after[i],
            #[trigger] after[k],
        ) by {
            if k < j {
                assert(after[i] == before[i] && after[k] == before[k]);
            } else if k == j {
                assert(after[i] == before[i]);
            } else if i < j {
                assert(after[i] == before[i] && after[k] == before[k - 1]);
                if k - 1 > j {
                    assert(text_less(before[j as int], before[k - 1]));
                    lemma_text_less_transitive(name@, before[j as int], before[k - 1]);
                }
                lemma_text_less_transitive(before[i], name@, before[k - 1]);
            } else if i == j {
                assert(after[k] == before[k - 1]);
                if k - 1 > j {
                    assert(text_less(before[j as int], before[k - 1]));
                    lemma_text_less_transitive(name@, before[j as int], before[k - 1]);
                }
            } else {
                assert(after[i] == before[i - 1] && after[k] == before[k - 1]);
            }
        }
        assert forall|x: Seq<char>| after.to_set().contains(x) <==> before.to_set().insert(name@).contains(x) by {
            if after.contains(x) {
                let k = after.index_of(x);
                if k < j {
                    assert(before[k] == x);
                } else if k > j {
                    assert(before[k - 1] == x);
                }
            }
            if before.contains(x) {
                let k = before.index_of(x);
                if k < j {
                    assert(after[k] == x);
                } else {
                    assert(after[k + 1] == x);
                }
            }
            if x == name@ {
                assert(after[j as int] == x);
            }
        }
        assert(after.to_set() =~= before.to_set().insert(name@));
    }
}

/// The category names of the topics, each once, in increasing order.
pub fn collect_sorted_categories(topics: &Vec<Topic>) -> (r: Vec<Category>)
    ensures
        names_of(r@) == sorted_category_names(topic_views(topics@)),
        strictly_sorted(names_of(r@)),
        names_of(r@).to_set() == topic_category_names(topic_views(topics@)),
{
    let ghost all = topic_views(topics@);
    let mut names: Vec<Category> = Vec::new();
    let mut keys: Vec<Vec<char>> = Vec::new();
    assert(key_views(keys@) =~= names_of(names@));
    let mut i: usize = 0;
    while i < topics.len()
        invariant
            i <= topics.len(),
            all == topic_views(topics@),
            key_views(keys@) == names_of(names@),
            strictly_sorted(names_of(names@)),
            names_of(names@).to_set() == topic_category_names(all.take(i as int)),
        decreases topics.len() - i,
    {
        let ghost start = names_of(names@).to_set();
        let mut j: usize = 0;
        while j < topics[i].categories.0.len()
            invariant
                i < topics.len(),
                j <= topics[i as int].categories.0.len(),
                all == topic_views(topics@),
                key_views(keys@) == names_of(names@),
                strictly_sorted(names_of(names@)),
                names_of(names@).to_set() == start + topics@[i as int].categories@.take(j as int).to_set(),
            decreases topics[i as int].categories.0.len() - j,
        {
            let ghost cats = topics@[i as int].categories@;
            insert_sorted(&mut names, &mut keys, &topics[i].categories.0[j].name);
            assert(cats.take(j + 1) =~= cats.take(j as int).push(cats[j as int]));
            assert forall|x: Seq<char>|
                cats.take(j + 1).to_set().contains(x) <==> cats.take(j as int).to_set().insert(
                    cats[j as int],
                ).contains(x) by {
                if cats.take(j + 1).contains(x) {
                    let k = cats.take(j + 1).index_of(x);
                    if k < j {
                        assert(cats.take(j as int)[k] == x);
                    }
                }
                if cats.take(j as int).contains(x) {
                    let k = cats.take(j as int).index_of(x);
                    assert(cats.take(j + 1)[k] == x);
                }
                if x == cats[j as int] {
                    assert(cats.take(j + 1)[j as int] == x);
                }
            }
            assert(cats.take(j + 1).to_set() =~= cats.take(j as int).to_set().insert(cats[j as int]));
            assert(names_of(names@).to_set() =~= start + cats.take(j + 1).to_set());
            j = j + 1;
        }
        proof {
            let cats = topics@[i as int].categories@;
            assert(cats.take(cats.len() as int) =~= cats);
            assert(all.take(i + 1) =~= all.take(i as int).push(all[i as int]));
            assert forall|n: Seq<char>|
                topic_category_names(all.take(i + 1)).contains(n) <==> (start + cats.to_set()).contains(n) by {
                let t = all.take(i + 1);
                if topic_category_names(t).contains(n) {
                    let (a, b) = choose|a: int, b: int|
                        0 <= a < t.len() && 0 <= b < t[a].categories.len() && #[trigger] t[a].categories[b] == n;
                    if a < i {
                        assert(all.take(i as int)[a].categories[b] == n);
                        assert(topic_category_names(all.take(i as int)).contains(n));
                    } else {
                        assert(cats[b] == n);
                        assert(cats.contains(n));
                    }
                }
                if start.contains(n) {
                    let (a, b) = choose|a: int, b: int|
                        0 <= a < all.take(i as int).len() && 0 <= b < all.take(i as int)[a].categories.len()
                            && #[trigger] all.take(i as int)[a].categories[b] == n;
                    assert(t[a].categories[b] == n);
                }
                if cats.to_set().contains(n) {
                    let b = cats.index_of(n);
                    assert(t[i as int].categories[b] == n);
                }
            }
            assert(topic_category_names(all.take(i + 1)) =~= start + cats.to_set());
        }
        i = i + 1;
    }
    proof {
        assert(all.take(topics.len() as int) =~= all);
        let s = names_of(names@);
        assert(strictly_sorted(s) && s.to_set() == topic_category_names(all));
        let c = sorted_category_names(all);
        lemma_sorted_unique(s, c);
    }
    names
}

/// A command that starts a review of a topic in a coding agent: its name, and
/// its program and arguments, where `$MentorPrompt` stands for the prompt.
pub struct ReviewTopicCommand {
    pub name: String,
    pub args: Vec<String>,
}

/// The prompt that asks an agent to review a topic.
pub open spec fn review_prompt(topic_name: Seq<char>) -> Seq<char> {
    "Activate /mentor+ skill and then start a session to review the topic named "@ + topic_name
}

impl ReviewTopicCommand {
    /// The command's program and arguments for a review of the named topic:
    /// every `$MentorPrompt` in them replaced by the review prompt.
    pub fn prompt_args(&self, topic_name: &str) -> (r: Vec<String>)
        ensures
            r.len() == self.args.len(),
            forall|i: int|
                0 <= i < r.len() ==> (#[trigger] r@[i])@ == replaced(
                    self.args@[i]@,
                    "$MentorPrompt"@,
                    review_prompt(topic_name@),
                ),
    {
        let mut prompt = String::from_str(
            "Activate /mentor+ skill and then start a session to review the topic named ",
        );
        prompt.append(topic_name);
        proof {
            reveal_strlit("$MentorPrompt");
        }
        let mut out: Vec<String> = Vec::new();
        let mut i: usize = 0;
        while i < self.args.len()
            invariant
                i <= self.args.len(),
                out.len() == i,
                prompt@ == review_prompt(topic_name@),
                "$MentorPrompt"@.len() > 0,
                forall|k: int|
                    0 <= k < i ==> (#[trigger] out@[k])@ == replaced(
                        self.args@[k]@,
                        "$MentorPrompt"@,
                        review_prompt(topic_name@),
                    ),
            decreases self.args.len() - i,
        {
            out.push(replace_all(self.args[i].as_str(), "$MentorPrompt", prompt.as_str()));
            i = i + 1;
        }
        out
    }
}

/// The dashboard's settings.
pub struct DashboardConfig {
    pub review_topic_commands: Vec<ReviewTopicCommand>,
}

/// A review command as plain values.
pub open spec fn command_view(c: ReviewTopicCommand) -> (Seq<char>, Seq<Seq<char>>) {
    (c.name@, string_views(c.args@))
}

/// The settings as plain values: the review commands.
pub open spec fn config_view(config: Option<DashboardConfig>) -> Option<Seq<(Seq<char>, Seq<Seq<char>>)>> {
    match config {
        Some(c) => Some(c.review_topic_commands@.map_values(|r: ReviewTopicCommand| command_view(r))),
        None => None,
    }
}

/// The views of a sequence of sessions.
pub open spec fn session_views(sessions: Seq<Session>) -> Seq<SessionView> {
    sessions.map_values(|s: Session| s@)
}

/// What the dashboard holds and shows. The selections of tables and lists are
/// the selected row's index, if any.
pub struct Model {
    pub topics: Vec<Topic>,
    pub categories: Vec<Category>,
    pub sessions: Vec<Session>,
    pub selected_view: panes::View,
    pub topics_state: Option<usize>,
    pub session_state: Option<usize>,
    pub logs_state: Option<usize>,
    pub selected_session_pane: SessionsPane,
    pub session_md_scroll: u16,
    pub selected_topics_pane: TopicsPane,
    pub selected_stats_filter: StatsFilter,
    pub category_state: Option<usize>,
    pub config: Option<DashboardConfig>,
    pub selected_review_topic_command: Option<usize>,
    /// The log, in which every message is written as it comes.
    pub logger: DashboardLogger,
}

/// The dashboard's state as plain values (the log aside).
pub struct ModelView {
    pub topics: Seq<TopicView>,
    pub categories: Seq<Seq<char>>,
    pub sessions: Seq<SessionView>,
    pub selected_view: panes::View,
    pub topics_state: Option<usize>,
    pub session_state: Option<usize>,
    pub logs_state: Option<usize>,
    pub selected_session_pane: SessionsPane,
    pub session_md_scroll: u16,
    pub selected_topics_pane: TopicsPane,
    pub selected_stats_filter: StatsFilter,
    pub category_state: Option<usize>,
    pub config: Option<Seq<(Seq<char>, Seq<Seq<char>>)>>,
    pub selected_review_topic_command: Option<usize>,
}

impl vstd::view::View for Model {
    type V = ModelView;

    open spec fn view(&self) -> ModelView {
        ModelView {
            topics: topic_views(self.topics@),
            categories: names_of(self.categories@),
            sessions: session_views(self.sessions@),
            selected_view: self.selected_view,
            topics_state: self.topics_state,
            session_state: self.session_state,
            logs_state: self.logs_state,
            selected_session_pane: self.selected_session_pane,
            session_md_scroll: self.session_md_scroll,
            selected_topics_pane: self.selected_topics_pane,
            selected_stats_filter: self.selected_stats_filter,
            category_state: self.category_state,
            config: config_view(self.config),
            selected_review_topic_command: self.selected_review_topic_command,
        }
    }
}

/// The review command selected at start: the first, when there is one.
pub open spec fn first_command_index(config: Option<Seq<(Seq<char>, Seq<Seq<char>>)>>) -> Option<usize> {
    match config {
        Some(c) => if c.len() > 0 {
            Some(0usize)
        } else {
            None
        },
        None => None,
    }
}

impl Model {
    /// The dashboard at start: the topics view with its list pane, nothing
    /// loaded or selected, the total filter, and the first review command;
    /// the log is the one given.
    pub fn new(config: Option<DashboardConfig>, logger: DashboardLogger) -> (r: Model)
        ensures
            r.logger == logger,
            r@ == (ModelView {
                topics: Seq::empty(),
                categories: Seq::empty(),
                sessions: Seq::empty(),
                selected_view: panes::View::Topics,
                topics_state: None,
                session_state: None,
                logs_state: None,
                selected_session_pane: SessionsPane::List,
                session_md_scroll: 0,
                selected_topics_pane: TopicsPane::List,
                selected_stats_filter: StatsFilter::Total,
                category_state: None,
                config: config_view(config),
                selected_review_topic_command: first_command_index(config_view(config)),
            }),
    {
        let selected_review_topic_command_index = match &config {
            Some(c) => if c.review_topic_commands.len() > 0 {
                Some(0)
            } else {
                None
            },
            None => None,
        };
        let r = Model {
            selected_view: panes::View::Topics,
            topics: Vec::new(),
            categories: Vec::new(),
            sessions: Vec::new(),
            topics_state: None,
            session_state: None,
            logs_state: None,
            selected_session_pane: SessionsPane::List,
            session_md_scroll: 0,
            selected_topics_pane: TopicsPane::List,
            selected_stats_filter: StatsFilter::Total,
            category_state: None,
            config,
            selected_review_topic_command: selected_review_topic_command_index,
            logger,
        };
        assert(r@.topics =~= Seq::<TopicView>::empty());
        assert(r@.categories =~= Seq::<Seq<char>>::empty());
        assert(r@.sessions =~= Seq::<SessionView>::empty());
        r
    }
}

/// The messages the dashboard answers.
pub enum Message {
    ShowTopicView,
    ShowSessionView,
    ShowLogsView,
    UpdateTopics(Vec<Topic>),
    UpdateSessions(Vec<Session>),
    NavigateUp,
    NavigateDown,
    NextSessionPane,
    PrevPane,
    ResetFilters,
    ReviewTopic,
    NextReviewTopicCommand,
}

/// The name under which a message is logged.
pub open spec fn message_name(msg: &Message) -> Seq<char> {
    match msg {
        Message::ShowTopicView => "ShowTopicView"@,
        Message::ShowSessionView => "ShowSessionView"@,
        Message::ShowLogsView => "ShowLogsView"@,
        Message::UpdateTopics(_) => "UpdateTopics"@,
        Message::UpdateSessions(_) => "UpdateSessions"@,
        Message::NavigateUp => "NavigateUp"@,
        Message::NavigateDown => "NavigateDown"@,
        Message::NextSessionPane => "NextSessionPane"@,
        Message::PrevPane => "PrevPane"@,
        Message::ResetFilters => "ResetFilters"@,
        Message::ReviewTopic => "ReviewTopic"@,
        Message::NextReviewTopicCommand => "NextReviewTopicCommand"@,
    }
}

impl Message {
    /// The message's name, as the log shows it.
    pub fn name(&self) -> (r: String)
        ensures
            r@ == message_name(self),
    {
        match self {
            Message::ShowTopicView => String::from_str("ShowTopicView"),
            Message::ShowSessionView => String::from_str("ShowSessionView"),
            Message::ShowLogsView => String::from_str("ShowLogsView"),
            Message::UpdateTopics(_) => String::from_str("UpdateTopics"),
            Message::UpdateSessions(_) => String::from_str("UpdateSessions"),
            Message::NavigateUp => String::from_str("NavigateUp"),
            Message::NavigateDown => String::from_str("NavigateDown"),
            Message::NextSessionPane => String::from_str("NextSessionPane"),
            Message::PrevPane => String::from_str("PrevPane"),
            Message::ResetFilters => String::from_str("ResetFilters"),
            Message::ReviewTopic => String::from_str("ReviewTopic"),
            Message::NextReviewTopicCommand => String::from_str("NextReviewTopicCommand"),
        }
    }
}

/// The keys the dashboard tells apart.
pub enum Key {
    Char(char),
    Up,
    Down,
    Left,
    Right,
    Enter,
    Esc,
    Other,
}

/// What a key press asks of the dashboard.
pub enum KeyAction {
    /// Leave the dashboard.
    Quit,
    /// Answer the message.
    Send(Message),
    /// Nothing.
    Ignore,
}

/// The action of each key: `q` quits; `s`, `t` and `l` show the sessions,
/// topics and logs views; the arrows navigate up and down and switch pane
/// (left to the previous, right to the next); `a` switches the review
/// command; Enter asks for a review; Esc resets the filters.
pub open spec fn key_action_of(key: Key) -> KeyAction {
    match key {
        Key::Char('q') => KeyAction::Quit,
        Key::Char('s') => KeyAction::Send(Message::ShowSessionView),
        Key::Char('t') => KeyAction::Send(Message::ShowTopicView),
        Key::Char('l') => KeyAction::Send(Message::ShowLogsView),
        Key::Char('a') => KeyAction::Send(Message::NextReviewTopicCommand),
        Key::Down => KeyAction::Send(Message::NavigateDown),
        Key::Up => KeyAction::Send(Message::NavigateUp),
        Key::Left => KeyAction::Send(Message::PrevPane),
        Key::Right => KeyAction::Send(Message::NextSessionPane),
        Key::Enter => KeyAction::Send(Message::ReviewTopic),
        Key::Esc => KeyAction::Send(Message::ResetFilters),
        _ => KeyAction::Ignore,
    }
}

/// What a key press asks of the dashboard.
pub fn key_action(key: Key) -> (r: KeyAction)
    ensures
        r == key_action_of(key),
{
    match key {
        Key::Char('q') => KeyAction::Quit,
        Key::Char('s') => KeyAction::Send(Message::ShowSessionView),
        Key::Char('t') => KeyAction::Send(Message::ShowTopicView),
        Key::Char('l') => KeyAction::Send(Message::ShowLogsView),
        Key::Char('a') => KeyAction::Send(Message::NextReviewTopicCommand),
        Key::Down => KeyAction::Send(Message::NavigateDown),
        Key::Up => KeyAction::Send(Message::NavigateUp),
        Key::Left => KeyAction::Send(Message::PrevPane),
        Key::Right => KeyAction::Send(Message::NextSessionPane),
        Key::Enter => KeyAction::Send(Message::ReviewTopic),
        Key::Esc => KeyAction::Send(Message::ResetFilters),
        _ => KeyAction::Ignore,
    }
}

/// What the dashboard asks of its caller after a message.
pub enum UpdateCommand {
    /// Start a review of the named topic.
    StartReview(String),
}

/// The topic whose review a command asks for.
pub open spec fn command_topic(c: Option<UpdateCommand>) -> Option<Seq<char>> {
    match c {
        Some(UpdateCommand::StartReview(name)) => Some(name@),
        None => None,
    }
}

/// Moving a selection up: one row up, staying at the first; with no
/// selection, the first row.
pub open spec fn selected_up(s: Option<usize>) -> Option<usize> {
    match s {
        Some(i) => Some(if i == 0 { 0 } else { (i - 1) as usize }),
        None => Some(0usize),
    }
}

/// Moving a selection down in a list of `len` rows: one row down, staying at
/// the last; with no selection, the first row.
pub open spec fn selected_down(s: Option<usize>, len: usize) -> Option<usize> {
    match s {
        Some(i) => Some(if i != len - 1 { (i + 1) as usize } else { i }),
        None => Some(0usize),
    }
}

/// A selection can move down without overflow: a selected row needs a
/// non-empty list, and a next index unless it is the last row.
pub open spec fn can_move_down(s: Option<usize>, len: usize) -> bool {
    s matches Some(i) ==> len > 0 && (i == len - 1 || i < usize::MAX)
}

/// Moves a table's selection up.
pub fn update_selected_table_up(table_state: &mut Option<usize>)
    ensures
        *final(table_state) == selected_up(*old(table_state)),
{
    match *table_state {
        Some(s) => {
            let up = if s == 0 {
                0
            } else {
                s - 1
            };
            *table_state = Some(up);
        },
        None => {
            *table_state = Some(0);
        },
    }
}

/// Moves a table's selection down.
pub fn update_selected_table_down(table_state: &mut Option<usize>, list_len: usize)
    requires
        can_move_down(*old(table_state), list_len),
    ensures
        *final(table_state) == selected_down(*old(table_state), list_len),
{
    match *table_state {
        Some(s) => {
            let down = if s != list_len - 1 {
                s + 1
            } else {
                s
            };
            *table_state = Some(down);
        },
        None => {
            *table_state = Some(0);
        },
    }
}

/// Moves a list's selection up.
pub fn update_selected_list_up(list_state: &mut Option<usize>)
    ensures
        *final(list_state) == selected_up(*old(list_state)),
{
    match *list_state {
        Some(s) => {
            let up = if s == 0 {
                0
            } else {
                s - 1
            };
            *list_state = Some(up);
        },
        None => {
            *list_state = Some(0);
        },
    }
}

/// Moves a list's selection down.
pub fn update_selected_list_down(list_state: &mut Option<usize>, list_len: usize)
    requires
        can_move_down(*old(list_state), list_len),
    ensures
        *final(list_state) == selected_down(*old(list_state), list_len),
{
    match *list_state {
        Some(s) => {
            let down = if s != list_len - 1 {
                s + 1
            } else {
                s
            };
            *list_state = Some(down);
        },
        None => {
            *list_state = Some(0);
        },
    }
}

/// The statistics filter one step up.
pub open spec fn stats_filter_up(f: StatsFilter) -> StatsFilter {
    match f {
        StatsFilter::Total => StatsFilter::Total,
        StatsFilter::Overdue => StatsFilter::Total,
        StatsFilter::Last7Days => StatsFilter::Overdue,
        StatsFilter::Mastered => StatsFilter::Last7Days,
        StatsFilter::Struggling => StatsFilter::Mastered,
    }
}

/// The statistics filter one step down.
pub open spec fn stats_filter_down(f: StatsFilter) -> StatsFilter {
    match f {
        StatsFilter::Total => StatsFilter::Overdue,
        StatsFilter::Overdue => StatsFilter::Last7Days,
        StatsFilter::Last7Days => StatsFilter::Mastered,
        StatsFilter::Mastered => StatsFilter::Struggling,
        StatsFilter::Struggling => StatsFilter::Struggling,
    }
}

/// Switching pane: in the topics view the list, statistics and categories
/// panes follow each other in a cycle; in the sessions view the list and the
/// session's text alternate; the logs view has one pane.
pub open spec fn next_pane(m: ModelView) -> ModelView {
    match m.selected_view {
        panes::View::Topics => ModelView {
            selected_topics_pane: match m.selected_topics_pane {
                TopicsPane::Categories => TopicsPane::List,
                TopicsPane::Stats => TopicsPane::Categories,
                TopicsPane::List => TopicsPane::Stats,
            },
            ..m
        },
        panes::View::Sessions => ModelView {
            selected_session_pane: match m.selected_session_pane {
                SessionsPane::List => SessionsPane::SessionMd,
                SessionsPane::SessionMd => SessionsPane::List,
            },
            ..m
        },
        panes::View::Logs => m,
    }
}

/// Moving up in the pane in focus: a selection moves up, the statistics
/// filter moves up, and the session's text scrolls by one line.
pub open spec fn navigate_up(m: ModelView) -> ModelView {
    match m.selected_view {
        panes::View::Topics => match m.selected_topics_pane {
            TopicsPane::List => ModelView { topics_state: selected_up(m.topics_state), ..m },
            TopicsPane::Stats => ModelView {
                selected_stats_filter: stats_filter_up(m.selected_stats_filter),
                ..m
            },
            TopicsPane::Categories => ModelView { category_state: selected_up(m.category_state), ..m },
        },
        panes::View::Sessions => match m.selected_session_pane {
            SessionsPane::List => ModelView { session_state: selected_up(m.session_state), ..m },
            SessionsPane::SessionMd => ModelView {
                session_md_scroll: (m.session_md_scroll + 1) as u16,
                ..m
            },
        },
        panes::View::Logs => ModelView { logs_state: selected_up(m.logs_state), ..m },
    }
}

/// Moving down in the pane in focus; the session's text scrolls back by one
/// line, down to zero. `log_count` is the number of log lines.
pub open spec fn navigate_down(m: ModelView, log_count: usize) -> ModelView {
    match m.selected_view {
        panes::View::Topics => match m.selected_topics_pane {
            TopicsPane::List => ModelView {
                topics_state: selected_down(m.topics_state, m.topics.len() as usize),
                ..m
            },
            TopicsPane::Stats => ModelView {
                selected_stats_filter: stats_filter_down(m.selected_stats_filter),
                ..m
            },
            TopicsPane::Categories => ModelView {
                category_state: selected_down(m.category_state, m.categories.len() as usize),
                ..m
            },
        },
        panes::View::Sessions => match m.selected_session_pane {
            SessionsPane::List => ModelView {
                session_state: selected_down(m.session_state, m.sessions.len() as usize),
                ..m
            },
            SessionsPane::SessionMd => ModelView {
                session_md_scroll: if m.session_md_scroll == 0 {
                    0
                } else {
                    (m.session_md_scroll - 1) as u16
                },
                ..m
            },
        },
        panes::View::Logs => ModelView { logs_state: selected_down(m.logs_state, log_count), ..m },
    }
}

/// The state after a message. `log_count` is the number of log lines.
pub open spec fn next_model(m: ModelView, msg: Message, log_count: usize) -> ModelView {
    match msg {
        Message::ShowTopicView => ModelView { selected_view: panes::View::Topics, ..m },
        Message::ShowSessionView => ModelView { selected_view: panes::View::Sessions, ..m },
        Message::ShowLogsView => ModelView { selected_view: panes::View::Logs, ..m },
        Message::NextSessionPane => next_pane(m),
        Message::PrevPane => next_pane(m),
        Message::UpdateTopics(topics) => ModelView {
            topics: topic_views(topics@),
            categories: sorted_category_names(topic_views(topics@)),
            ..m
        },
        Message::UpdateSessions(sessions) => ModelView { sessions: session_views(sessions@), ..m },
        Message::NavigateUp => navigate_up(m),
        Message::NavigateDown => navigate_down(m, log_count),
        Message::ResetFilters => ModelView { category_state: None, ..m },
        Message::ReviewTopic => m,
        Message::NextReviewTopicCommand => match (m.config, m.selected_review_topic_command) {
            (Some(c), Some(selected)) => ModelView {
                selected_review_topic_command: Some(((selected + 1) % (c.len() as int)) as usize),
                ..m
            },
            _ => m,
        },
    }
}

/// The topic whose review a message asks for: on the topics list with a
/// topic selected, the review message asks for that topic.
pub open spec fn review_requested(m: ModelView, msg: Message) -> Option<Seq<char>> {
    match msg {
        Message::ReviewTopic => match (m.selected_view, m.selected_topics_pane, m.topics_state) {
            (panes::View::Topics, TopicsPane::List, Some(i)) => Some(m.topics[i as int].name),
            _ => None,
        },
        _ => None,
    }
}

/// The states on which a message can be handled without a counter or an
/// index going out of range.
pub open spec fn update_allowed(m: ModelView, msg: Message, log_count: usize) -> bool {
    match msg {
        Message::NavigateUp => m.selected_view == panes::View::Sessions && m.selected_session_pane
            == SessionsPane::SessionMd ==> m.session_md_scroll < u16::MAX,
        Message::NavigateDown => match m.selected_view {
            panes::View::Topics => match m.selected_topics_pane {
                TopicsPane::List => can_move_down(m.topics_state, m.topics.len() as usize),
                TopicsPane::Stats => true,
                TopicsPane::Categories => can_move_down(m.category_state, m.categories.len() as usize),
            },
            panes::View::Sessions => m.selected_session_pane == SessionsPane::List ==> can_move_down(
                m.session_state,
                m.sessions.len() as usize,
            ),
            panes::View::Logs => can_move_down(m.logs_state, log_count),
        },
        Message::ReviewTopic => (m.selected_view == panes::View::Topics && m.selected_topics_pane
            == TopicsPane::List && m.topics_state is Some) ==> m.topics_state->0 < m.topics.len(),
        Message::NextReviewTopicCommand => (m.config is Some && m.selected_review_topic_command
            is Some) ==> m.config->0.len() > 0 && m.selected_review_topic_command->0 < usize::MAX,
        _ => true,
    }
}

/// The number of log lines once a message has been written: one more than
/// before.
pub open spec fn logged_count(m: Model) -> usize {
    (m.logger.logs@.len() + 1) as usize
}

fn movable(s: Option<usize>, len: usize) -> (r: bool)
    ensures
        r == can_move_down(s, len),
{
    match s {
        Some(i) => len > 0 && (i == len - 1 || i < usize::MAX),
        None => true,
    }
}

/// Whether a message can be answered in the model's state: the log has room
/// for its line, and no counter or index would go out of range.
pub fn update_is_allowed(model: &Model, msg: &Message) -> (r: bool)
    ensures
        r == (model.logger.logs@.len() < usize::MAX && update_allowed(
            model@,
            *msg,
            logged_count(*model),
        )),
{
    if model.logger.logs.len() == usize::MAX {
        return false;
    }
    let log_count = model.logger.logs.len() + 1;
    match msg {
        Message::NavigateUp => !(model.selected_view == panes::View::Sessions
            && model.selected_session_pane == SessionsPane::SessionMd)
            || model.session_md_scroll < u16::MAX,
        Message::NavigateDown => match model.selected_view {
            panes::View::Topics => match model.selected_topics_pane {
                TopicsPane::List => movable(model.topics_state, model.topics.len()),
                TopicsPane::Stats => true,
                TopicsPane::Categories => movable(model.category_state, model.categories.len()),
            },
            panes::View::Sessions => model.selected_session_pane != SessionsPane::List || movable(
                model.session_state,
                model.sessions.len(),
            ),
            panes::View::Logs => movable(model.logs_state, log_count),
        },
        Message::ReviewTopic => match (model.selected_view, model.selected_topics_pane, model.topics_state) {
            (panes::View::Topics, TopicsPane::List, Some(i)) => i < model.topics.len(),
            _ => true,
        },
        Message::NextReviewTopicCommand => match (&model.config, model.selected_review_topic_command) {
            (Some(c), Some(i)) => c.review_topic_commands.len() > 0 && i < usize::MAX,
            _ => true,
        },
        _ => true,
    }
}

/// Answers a message: writes `Message: ` and its name in the log, updates
/// the state, and returns a review to start when the message asks for one.
/// The logs view's selection is bounded by the lines of the log, the new one
/// included.
pub fn update(model: &mut Model, msg: Message) -> (r: Option<UpdateCommand>)
    requires
        old(model).logger.logs@.len() < usize::MAX,
        update_allowed(old(model)@, msg, logged_count(*old(model))),
    ensures
        final(model)@ == next_model(old(model)@, msg, logged_count(*old(model))),
        final(model).logger.logs@.len() == old(model).logger.logs@.len() + 1,
        log_message(final(model).logger.logs@[0]) == "Message: "@ + message_name(&msg),
        final(model).logger.logs@.drop_first() == old(model).logger.logs@,
        command_topic(r) == review_requested(old(model)@, msg),
        msg matches Message::UpdateTopics(topics) ==> strictly_sorted(final(model)@.categories)
            && final(model)@.categories.to_set() == topic_category_names(topic_views(topics@)),
{
    let mut line = String::from_str("Message: ");
    let name = msg.name();
    line.append(name.as_str());
    model.logger.info(line.as_str());
    let log_count = model.logger.logs.len();
    match msg {
        Message::ShowTopicView => {
            model.selected_view = panes::View::Topics;
        },
        Message::ShowSessionView => {
            model.selected_view = panes::View::Sessions;
        },
        Message::ShowLogsView => {
            model.selected_view = panes::View::Logs;
        },
        Message::NextSessionPane | Message::PrevPane => {
            match (model.selected_view, model.selected_session_pane, model.selected_topics_pane) {
                (panes::View::Topics, _, TopicsPane::Categories) => {
                    model.selected_topics_pane = TopicsPane::List;
                },
                (panes::View::Topics, _, TopicsPane::Stats) => {
                    model.selected_topics_pane = TopicsPane::Categories;
                },
                (panes::View::Topics, _, TopicsPane::List) => {
                    model.selected_topics_pane = TopicsPane::Stats;
                },
                (panes::View::Sessions, SessionsPane::List, _) => {
                    model.selected_session_pane = SessionsPane::SessionMd;
                },
                (panes::View::Sessions, SessionsPane::SessionMd, _) => {
                    model.selected_session_pane = SessionsPane::List;
                },
                (_, _, _) => {},
            }
        },
        Message::UpdateTopics(topics) => {
            let categories = collect_sorted_categories(&topics);
            model.topics = topics;
            model.categories = categories;
        },
        Message::UpdateSessions(sessions) => {
            model.sessions = sessions;
        },
        Message::NavigateUp => {
            match model.selected_view {
                panes::View::Topics => match model.selected_topics_pane {
                    TopicsPane::List => update_selected_table_up(&mut model.topics_state),
                    TopicsPane::Stats => {
                        model.selected_stats_filter = match model.selected_stats_filter {
                            StatsFilter::Total => StatsFilter::Total,
                            StatsFilter::Overdue => StatsFilter::Total,
                            StatsFilter::Last7Days => StatsFilter::Overdue,
                            StatsFilter::Mastered => StatsFilter::Last7Days,
                            StatsFilter::Struggling => StatsFilter::Mastered,
                        };
                    },
                    TopicsPane::Categories => update_selected_table_up(&mut model.category_state),
                },
                panes::View::Sessions => match model.selected_session_pane {
                    SessionsPane::List => update_selected_table_up(&mut model.session_state),
                    SessionsPane::SessionMd => {
                        model.session_md_scroll = model.session_md_scroll + 1;
                    },
                },
                panes::View::Logs => update_selected_list_up(&mut model.logs_state),
            }
        },
        Message::NavigateDown => {
            match model.selected_view {
                panes::View::Topics => match model.selected_topics_pane {
                    TopicsPane::List => {
                        let n = model.topics.len();
                        update_selected_table_down(&mut model.topics_state, n);
                    },
                    TopicsPane::Stats => {
                        model.selected_stats_filter = match model.selected_stats_filter {
                            StatsFilter::Total => StatsFilter::Overdue,
                            StatsFilter::Overdue => StatsFilter::Last7Days,
                            StatsFilter::Last7Days => StatsFilter::Mastered,
                            StatsFilter::Mastered => StatsFilter::Struggling,
                            StatsFilter::Struggling => StatsFilter::Struggling,
                        };
                    },
                    TopicsPane::Categories => {
                        let n = model.categories.len();
                        update_selected_table_down(&mut model.category_state, n);
                    },
                },
                panes::View::Sessions => match model.selected_session_pane {
                    SessionsPane::List => {
                        let n = model.sessions.len();
                        update_selected_table_down(&mut model.session_state, n);
                    },
                    SessionsPane::SessionMd => {
                        model.session_md_scroll =
                            if model.session_md_scroll == 0 {
                                0
                            } else {
                                model.session_md_scroll - 1
                            };
                    },
                },
                panes::View::Logs => update_selected_list_down(&mut model.logs_state, log_count),
            }
        },
        Message::ResetFilters => {
            model.category_state = None;
        },
        Message::ReviewTopic => {
            match (model.selected_view, model.selected_topics_pane, model.topics_state) {
                (panes::View::Topics, TopicsPane::List, Some(selected_topic_index)) => {
                    let name = model.topics[selected_topic_index].name.clone();
                    return Some(UpdateCommand::StartReview(name));
                },
                (_, _, _) => {},
            }
        },
        Message::NextReviewTopicCommand => {
            let count = match &model.config {
                Some(config) => Some(config.review_topic_commands.len()),
                None => None,
            };
            match (count, model.selected_review_topic_command) {
                (Some(n), Some(selected)) => {
                    let next = (selected + 1) % n;
                    model.selected_review_topic_command = Some(next);
                },
                (_, _) => {},
            }
        },
    }
    None
}

/// Switching pane cycles: three switches in the topics view, and two in the
/// sessions view, come back to the pane in focus before.
pub proof fn law_pane_switching_cycles(m: ModelView)
    ensures
        m.selected_view == panes::View::Topics ==> next_pane(next_pane(next_pane(m))) == m,
        m.selected_view == panes::View::Sessions ==> next_pane(next_pane(m)) == m,
        m.selected_view == panes::View::Logs ==> next_pane(m) == m,
{
}

/// A selection within a non-empty list stays within it when moved up or
/// down, and moving down from no selection selects the first row.
pub proof fn law_selection_stays_in_bounds(s: Option<usize>, len: usize)
    requires
        len > 0,
        s matches Some(i) ==> i < len,
    ensures
        selected_down(s, len) matches Some(j) && j < len,
        selected_up(s) matches Some(j) && j < len,
        s matches Some(i) ==> selected_up(s) matches Some(j) && j <= i,
        s matches Some(i) ==> selected_down(s, len) matches Some(j) && j >= i,
{
}

/// Moving the statistics filter down and then up comes back to it, except
/// from the last filter; moving up and then down comes back, except from the
/// first.
pub proof fn law_stats_filter_steps_undo(f: StatsFilter)
    ensures
        f != StatsFilter::Struggling ==> stats_filter_up(stats_filter_down(f)) == f,
        f != StatsFilter::Total ==> stats_filter_down(stats_filter_up(f)) == f,
{
}

/// Navigation, pane and view messages never change the loaded topics,
/// categories, sessions or settings.
pub proof fn law_navigation_keeps_data(m: ModelView, msg: Message, log_count: usize)
    requires
        !(msg is UpdateTopics),
        !(msg is UpdateSessions),
    ensures
        next_model(m, msg, log_count).topics == m.topics,
        next_model(m, msg, log_count).categories == m.categories,
        next_model(m, msg, log_count).sessions == m.sessions,
        next_model(m, msg, log_count).config == m.config,
{
}

/// Choosing the next review command keeps the choice among the commands.
pub proof fn law_review_command_choice_stays_valid(m: ModelView, log_count: usize)
    requires
        m.config matches Some(c) && m.selected_review_topic_command matches Some(i) && i < c.len(),
    ensures
        next_model(m, Message::NextReviewTopicCommand, log_count).selected_review_topic_command matches Some(
            j,
        ) && j < m.config->0.len(),
{
}

/// The review command chosen is one of the configured commands (or none is
/// chosen).
pub open spec fn review_choice_valid(m: ModelView) -> bool {
    m.selected_review_topic_command matches Some(i) ==> (m.config matches Some(c) && i < c.len())
}

/// Every message keeps the review command choice among the configured
/// commands. Switching the command moves the choice one step round the
/// commands; with no choice, or no configuration, nothing changes. Only
/// that message changes the choice.
pub proof fn law_review_choice_stays_valid(m: ModelView, msg: Message, log_count: usize)
    requires
        review_choice_valid(m),
    ensures
        review_choice_valid(next_model(m, msg, log_count)),
        msg is NextReviewTopicCommand ==> match (m.config, m.selected_review_topic_command) {
            (Some(c), Some(s)) => next_model(m, msg, log_count).selected_review_topic_command == Some(
                ((s + 1) % (c.len() as int)) as usize,
            ),
            _ => next_model(m, msg, log_count) == m,
        },
        !(msg is NextReviewTopicCommand) ==> next_model(m, msg, log_count).selected_review_topic_command
            == m.selected_review_topic_command,
{
}

/// The state after the review command has been switched `k` times.
pub open spec fn command_switched(m: ModelView, k: nat) -> ModelView
    decreases k,
{
    if k == 0 {
        m
    } else {
        next_model(command_switched(m, (k - 1) as nat), Message::NextReviewTopicCommand, 0)
    }
}

proof fn lemma_command_switched(m: ModelView, k: nat)
    requires
        m.config matches Some(c) && m.selected_review_topic_command matches Some(s) && s < c.len(),
        m.config->0.len() <= usize::MAX,
    ensures
        command_switched(m, k).config == m.config,
        command_switched(m, k).selected_review_topic_command == Some(
            ((m.selected_review_topic_command->0 + k) % (m.config->0.len() as int)) as usize,
        ),
        command_switched(m, k) == (ModelView {
            selected_review_topic_command: command_switched(m, k).selected_review_topic_command,
            ..m
        }),
    decreases k,
{
    let n = m.config->0.len() as int;
    let s = m.selected_review_topic_command->0;
    if k == 0 {
        vstd::arithmetic::div_mod::lemma_small_mod(s as nat, n as nat);
    } else {
        lemma_command_switched(m, (k - 1) as nat);
        let a = (s + k - 1) % n;
        vstd::arithmetic::div_mod::lemma_mod_bound(s + k - 1, n);
        vstd::arithmetic::div_mod::lemma_mod_bound(s + k, n);
        vstd::arithmetic::div_mod::lemma_mod_bound(a + 1, n);
        vstd::arithmetic::div_mod::lemma_add_mod_noop(s + k - 1, 1, n);
        if n > 1 {
            vstd::arithmetic::div_mod::lemma_small_mod(1, n as nat);
            assert((a + 1) % n == (s + k) % n);
        } else {
            assert((a + 1) % n == 0);
            assert((s + k) % n == 0);
        }
        let prev = command_switched(m, (k - 1) as nat);
        assert(prev.selected_review_topic_command == Some(a as usize));
        assert((a as usize) as int == a);
    }
}

/// Switching the review command as many times as there are commands comes
/// back to the command chosen before.
pub proof fn law_review_command_cycle(m: ModelView)
    requires
        m.config matches Some(c) && m.selected_review_topic_command matches Some(s) && s < c.len(),
        m.config->0.len() <= usize::MAX,
    ensures
        command_switched(m, m.config->0.len()) == m,
{
    let n = m.config->0.len();
    let s = m.selected_review_topic_command->0;
    lemma_command_switched(m, n);
    vstd::arithmetic::div_mod::lemma_mod_add_multiples_vanish(s as int, n as int);
    vstd::arithmetic::div_mod::lemma_small_mod(s as nat, n as nat);
}

/// The pane messages (both switch panes the same way) keep the view and ask
/// for no review. In the topics view three switches, in the sessions view
/// two, and in the logs view one come back to the same state.
pub proof fn law_pane_messages(m: ModelView, msg: Message, n: usize)
    requires
        msg is NextSessionPane || msg is PrevPane,
    ensures
        next_model(m, msg, n).selected_view == m.selected_view,
        review_requested(m, msg) is None,
        m.selected_view == panes::View::Topics ==> next_model(
            next_model(next_model(m, msg, n), msg, n),
            msg,
            n,
        ) == m,
        m.selected_view == panes::View::Sessions ==> next_model(next_model(m, msg, n), msg, n) == m,
        m.selected_view == panes::View::Logs ==> next_model(m, msg, n) == m,
{
}

/// In the statistics pane, moving down and up steps the statistics filter
/// and changes nothing else; moving up after moving down comes back, except
/// from the last filter.
pub proof fn law_stats_filter_navigation(m: ModelView, n: usize)
    requires
        m.selected_view == panes::View::Topics,
        m.selected_topics_pane == TopicsPane::Stats,
    ensures
        next_model(m, Message::NavigateDown, n) == (ModelView {
            selected_stats_filter: stats_filter_down(m.selected_stats_filter),
            ..m
        }),
        next_model(m, Message::NavigateUp, n) == (ModelView {
            selected_stats_filter: stats_filter_up(m.selected_stats_filter),
            ..m
        }),
        m.selected_stats_filter != StatsFilter::Struggling ==> next_model(
            next_model(m, Message::NavigateDown, n),
            Message::NavigateUp,
            n,
        ) == m,
{
}

/// The view messages select their view and change nothing else, so sending
/// one twice is sending it once; resetting the filters clears the category
/// selection and nothing else. None of them asks for a review.
pub proof fn law_view_switches_and_reset(m: ModelView, n: usize)
    ensures
        next_model(m, Message::ShowTopicView, n) == (ModelView { selected_view: panes::View::Topics, ..m }),
        next_model(m, Message::ShowSessionView, n) == (ModelView {
            selected_view: panes::View::Sessions,
            ..m
        }),
        next_model(m, Message::ShowLogsView, n) == (ModelView { selected_view: panes::View::Logs, ..m }),
        next_model(next_model(m, Message::ShowTopicView, n), Message::ShowTopicView, n) == next_model(
            m,
            Message::ShowTopicView,
            n,
        ),
        next_model(next_model(m, Message::ShowSessionView, n), Message::ShowSessionView, n)
            == next_model(m, Message::ShowSessionView, n),
        next_model(next_model(m, Message::ShowLogsView, n), Message::ShowLogsView, n) == next_model(
            m,
            Message::ShowLogsView,
            n,
        ),
        next_model(m, Message::ResetFilters, n) == (ModelView { category_state: None, ..m }),
        review_requested(m, Message::ShowTopicView) is None,
        review_requested(m, Message::ShowSessionView) is None,
        review_requested(m, Message::ShowLogsView) is None,
        review_requested(m, Message::ResetFilters) is None,
{
}

/// The arrow keys move selections the way they point. Whatever the state,
/// the message that Down sends never moves a selection of the topics,
/// categories, sessions or logs to a smaller row, and the message that Up
/// sends never to a larger one; in the session's text, Down scrolls back and
/// Up scrolls on. On the topics list, Down moves a selection that is not on
/// the last row to the next row, and Up moves one that is not on the first
/// row to the row before.
pub proof fn law_arrow_keys_move_selection(m: ModelView, n: usize)
    requires
        update_allowed(m, Message::NavigateDown, n),
        update_allowed(m, Message::NavigateUp, n),
    ensures
        key_action_of(Key::Down) is Send,
        key_action_of(Key::Up) is Send,
        ({
            let down = next_model(m, key_action_of(Key::Down)->0, n);
            let up = next_model(m, key_action_of(Key::Up)->0, n);
            &&& m.topics_state matches Some(i) ==> (down.topics_state matches Some(j) && j >= i)
                && (up.topics_state matches Some(j) && j <= i)
            &&& m.category_state matches Some(i) ==> (down.category_state matches Some(j) && j >= i)
                && (up.category_state matches Some(j) && j <= i)
            &&& m.session_state matches Some(i) ==> (down.session_state matches Some(j) && j >= i)
                && (up.session_state matches Some(j) && j <= i)
            &&& m.logs_state matches Some(i) ==> (down.logs_state matches Some(j) && j >= i) && (
            up.logs_state matches Some(j) && j <= i)
            &&& down.session_md_scroll <= m.session_md_scroll
            &&& up.session_md_scroll >= m.session_md_scroll
        }),
        ({
            let down = next_model(m, key_action_of(Key::Down)->0, n);
            let up = next_model(m, key_action_of(Key::Up)->0, n);
            (m.selected_view == panes::View::Topics && m.selected_topics_pane == TopicsPane::List
                && m.topics.len() <= usize::MAX) ==> {
                &&& (m.topics_state is Some && m.topics_state->0 + 1 < m.topics.len())
                    ==> down.topics_state == Some((m.topics_state->0 + 1) as usize)
                &&& (m.topics_state is Some && m.topics_state->0 > 0) ==> up.topics_state
                    == Some((m.topics_state->0 - 1) as usize)
            }
        }),
{
}

/// The keys do what the dashboard's help names: `q` leaves; `s`, `t` and `l`
/// show the sessions, topics and logs views; Esc clears the category
/// selection; Enter on the topics list asks for the review of the selected
/// topic; Left and Right keep the view and, in the sessions view, move the
/// focus between the list and the session's text; `a` moves to the next
/// review command, back to the first after the last; any other letter does
/// nothing.
pub proof fn law_keys_do_what_they_name(m: ModelView, n: usize, other: char)
    requires
        other != 'q' && other != 's' && other != 't' && other != 'l' && other != 'a',
    ensures
        key_action_of(Key::Char('q')) is Quit,
        key_action_of(Key::Char(other)) is Ignore,
        key_action_of(Key::Other) is Ignore,
        key_action_of(Key::Char('s')) is Send && next_model(m, key_action_of(Key::Char('s'))->0, n).selected_view
            == panes::View::Sessions,
        key_action_of(Key::Char('t')) is Send && next_model(m, key_action_of(Key::Char('t'))->0, n).selected_view
            == panes::View::Topics,
        key_action_of(Key::Char('l')) is Send && next_model(m, key_action_of(Key::Char('l'))->0, n).selected_view
            == panes::View::Logs,
        key_action_of(Key::Esc) is Send && next_model(m, key_action_of(Key::Esc)->0, n).category_state
            is None,
        key_action_of(Key::Enter) is Send,
        (m.selected_view == panes::View::Topics && m.selected_topics_pane == TopicsPane::List
            && m.topics_state is Some && m.topics_state->0 < m.topics.len()) ==> review_requested(m, key_action_of(Key::Enter)->0) == Some(
            m.topics[m.topics_state->0 as int].name,
        ),
        key_action_of(Key::Left) is Send && key_action_of(Key::Right) is Send,
        next_model(m, key_action_of(Key::Left)->0, n).selected_view == m.selected_view,
        next_model(m, key_action_of(Key::Right)->0, n).selected_view == m.selected_view,
        m.selected_view == panes::View::Sessions ==> next_model(m, key_action_of(Key::Left)->0, n).selected_session_pane
            != m.selected_session_pane && next_model(m, key_action_of(Key::Right)->0, n).selected_session_pane
            != m.selected_session_pane,
        key_action_of(Key::Char('a')) is Send,
        (m.config matches Some(c) && m.selected_review_topic_command matches Some(k) && k + 1 < c.len())
            ==> next_model(m, key_action_of(Key::Char('a'))->0, n).selected_review_topic_command
            == Some((m.selected_review_topic_command->0 + 1) as usize),
        (m.config matches Some(c) && m.selected_review_topic_command matches Some(k) && k + 1 == c.len())
            ==> next_model(m, key_action_of(Key::Char('a'))->0, n).selected_review_topic_command
            == Some(0usize),
{
    if m.config is Some && m.selected_review_topic_command is Some {
        let len = m.config->0.len();
        let k = m.selected_review_topic_command->0;
        if k + 1 < len {
            vstd::arithmetic::div_mod::lemma_small_mod((k + 1) as nat, len as nat);
        } else if k + 1 == len {
            vstd::arithmetic::div_mod::lemma_mod_self_0(len as int);
        }
    }
}

} // verus!
