//! The line of key hints at the top of the dashboard.
use vstd::prelude::*;
use vstd::string::StringExecFns;

use crate::dashboard::{Model, ModelView};
use crate::panes;

verus! {

/// One key hint: the key in brackets, then what it does.
pub open spec fn key_hint(key: Seq<char>, action: Seq<char>) -> Seq<char> {
    "("@ + key + ") "@ + action
}

/// Texts joined by a comma and a space.
pub open spec fn comma_joined(texts: Seq<Seq<char>>) -> Seq<char>
    decreases texts.len(),
{
    if texts.len() == 0 {
        Seq::empty()
    } else if texts.len() == 1 {
        texts[0]
    } else {
        comma_joined(texts.drop_last()) + ", "@ + texts.last()
    }
}

/// The keys offered in a view, with what each does: quitting always; in the
/// topics view the other views, pane switching, resetting the filter and,
/// where a review command is chosen, switching the review command.
pub open spec fn view_keys(view: panes::View, review_name: Option<Seq<char>>) -> Seq<(Seq<char>, Seq<char>)> {
    seq![("q"@, "quit"@)] + match view {
        panes::View::Topics => seq![
            ("s"@, "sessions"@),
            ("l"@, "logs"@),
            ("→|←"@, "switch pane"@),
            ("Esc"@, "reset category filter"@),
        ] + match review_name {
            Some(n) => seq![("a"@, "review topic configuration ("@ + n + ")"@)],
            None => Seq::empty(),
        },
        panes::View::Sessions => seq![("t"@, "topics"@), ("l"@, "logs"@)],
        panes::View::Logs => seq![("t"@, "topics"@), ("s"@, "sessions"@)],
    }
}

/// The name of the chosen review command, where one is chosen.
pub open spec fn chosen_command_name(m: ModelView) -> Option<Seq<char>> {
    match m.selected_review_topic_command {
        Some(i) => Some(m.config->0[i as int].0),
        None => None,
    }
}

/// The header's text: the key hints of the selected view, joined.
pub open spec fn header_text(m: ModelView) -> Seq<char> {
    let keys = view_keys(m.selected_view, chosen_command_name(m));
    comma_joined(Seq::new(keys.len(), |i: int| key_hint(keys[i].0, keys[i].1)))
}

/// A chosen review command is one of the configured commands.
pub open spec fn command_choice_valid(m: ModelView) -> bool {
    m.selected_review_topic_command matches Some(i) ==> (m.config matches Some(c) && i < c.len())
}

fn hint(key: &str, action: &str) -> (r: String)
    ensures
        r@ == key_hint(key@, action@),
{
    let mut r = String::from_str("(");
    r.append(key);
    r.append(") ");
    r.append(action);
    r
}

/// The key hints shown at the top of the dashboard for its selected view.
pub fn header_instructions(model: &Model) -> (r: String)
    requires
        command_choice_valid(model@),
    ensures
        r@ == header_text(model@),
{
    let mut hints: Vec<String> = Vec::new();
    hints.push(hint("q", "quit"));
    match model.selected_view {
        panes::View::Topics => {
            hints.push(hint("s", "sessions"));
            hints.push(hint("l", "logs"));
            hints.push(hint("→|←", "switch pane"));
            hints.push(hint("Esc", "reset category filter"));
            match model.selected_review_topic_command {
                Some(i) => {
                    let config = model.config.as_ref().unwrap();
                    let mut action = String::from_str("review topic configuration (");
                    action.append(config.review_topic_commands[i].name.as_str());
                    action.append(")");
                    hints.push(hint("a", action.as_str()));
                },
                None => {},
            }
        },
        panes::View::Sessions => {
            hints.push(hint("t", "topics"));
            hints.push(hint("l", "logs"));
        },
        panes::View::Logs => {
            hints.push(hint("t", "topics"));
            hints.push(hint("s", "sessions"));
        },
    }
    let ghost keys = view_keys(model@.selected_view, chosen_command_name(model@));
    let ghost texts = Seq::new(keys.len(), |i: int| key_hint(keys[i].0, keys[i].1));
    assert(hints@.len() == texts.len());
    assert(forall|i: int| 0 <= i < texts.len() ==> (#[trigger] hints@[i])@ == texts[i]);
    let mut r = String::new();
    let mut i: usize = 0;
    while i < hints.len()
        invariant
            i <= hints.len(),
            hints@.len() == texts.len(),
            forall|k: int| 0 <= k < texts.len() ==> (#[trigger] hints@[k])@ == texts[k],
            r@ == comma_joined(texts.take(i as int)),
        decreases hints.len() - i,
    {
        if i > 0 {
            r.append(", ");
        }
        r.append(hints[i].as_str());
        proof {
            let next = texts.take(i + 1);
            assert(next.drop_last() =~= texts.take(i as int));
            if i == 0 {
                assert(next =~= seq![texts[0]]);
            }
        }
        i = i + 1;
    }
    assert(texts.take(texts.len() as int) =~= texts);
    r
}

} // verus!
