//! The descriptor that the discovery tool reports for a device, and the
//! lifecycle action it carries.

use vstd::prelude::*;
use vstd::string::*;
use crate::text::{clone_texts, same_text, same_texts};

verus! {

/// One structured record reported by the discovery tool, describing a
/// physical device at a moment in time.
#[derive(Debug)]
pub struct TyCmdListEntry {
    pub action: String,
    pub capabilities: Vec<String>,
    pub description: String,
    pub interfaces: Vec<Vec<String>>,
    pub location: String,
    pub model: String,
    pub serial: String,
    pub tag: String,
}

/// The mathematical value of a descriptor.
pub struct EntryView {
    pub action: Seq<char>,
    pub capabilities: Seq<Seq<char>>,
    pub description: Seq<char>,
    pub interfaces: Seq<Seq<Seq<char>>>,
    pub location: Seq<char>,
    pub model: Seq<char>,
    pub serial: Seq<char>,
    pub tag: Seq<char>,
}

impl View for TyCmdListEntry {
    type V = EntryView;

    open spec fn view(&self) -> EntryView {
        EntryView {
            action: self.action@,
            capabilities: self.capabilities.deep_view(),
            description: self.description@,
            interfaces: self.interfaces.deep_view(),
            location: self.location@,
            model: self.model@,
            serial: self.serial@,
            tag: self.tag@,
        }
    }
}

/// A copy of a list of lists of texts.
pub fn clone_text_lists(lists: &Vec<Vec<String>>) -> (copy: Vec<Vec<String>>)
    ensures
        copy.deep_view() == lists.deep_view(),
{
    let mut copy: Vec<Vec<String>> = Vec::new();
    let mut i: usize = 0;
    while i < lists.len()
        invariant
            i <= lists.len(),
            copy.len() == i,
            forall|j: int| 0 <= j < i ==> copy@[j].deep_view() == lists@[j].deep_view(),
        decreases lists.len() - i,
    {
        copy.push(clone_texts(&lists[i]));
        i = i + 1;
    }
    assert(copy.deep_view() =~= lists.deep_view());
    copy
}

/// Whether two lists of lists of texts hold the same texts in the same order.
pub fn same_text_lists(a: &Vec<Vec<String>>, b: &Vec<Vec<String>>) -> (r: bool)
    ensures
        r == (a.deep_view() == b.deep_view()),
{
    if a.len() != b.len() {
        assert(a.deep_view().len() != b.deep_view().len());
        return false;
    }
    let mut i: usize = 0;
    while i < a.len()
        invariant
            i <= a.len(),
            a.len() == b.len(),
            forall|j: int| 0 <= j < i ==> a@[j].deep_view() == b@[j].deep_view(),
        decreases a.len() - i,
    {
        if !same_texts(&a[i], &b[i]) {
            assert(a.deep_view()[i as int] != b.deep_view()[i as int]);
            return false;
        }
        i = i + 1;
    }
    assert(a.deep_view() =~= b.deep_view());
    true
}

impl Clone for TyCmdListEntry {
    fn clone(&self) -> (copy: Self)
        ensures
            copy@ == self@,
    {
        TyCmdListEntry {
            action: self.action.clone(),
            capabilities: clone_texts(&self.capabilities),
            description: self.description.clone(),
            interfaces: clone_text_lists(&self.interfaces),
            location: self.location.clone(),
            model: self.model.clone(),
            serial: self.serial.clone(),
            tag: self.tag.clone(),
        }
    }
}

impl PartialEq for TyCmdListEntry {
    fn eq(&self, other: &Self) -> (r: bool) {
        self.action == other.action && same_texts(&self.capabilities, &other.capabilities)
            && self.description == other.description && same_text_lists(
            &self.interfaces,
            &other.interfaces,
        ) && self.location == other.location && self.model == other.model && self.serial
            == other.serial && self.tag == other.tag
    }
}

impl vstd::std_specs::cmp::PartialEqSpecImpl for TyCmdListEntry {
    open spec fn obeys_eq_spec() -> bool {
        true
    }

    open spec fn eq_spec(&self, other: &Self) -> bool {
        self@ == other@
    }
}

impl Eq for TyCmdListEntry {

}

/// The transition that an incoming descriptor triggers.
#[derive(Debug, Clone, Copy, PartialEq, Eq, Structural)]
pub enum Action {
    /// This board was plugged in or was already there.
    Add,
    /// Something changed, maybe the board rebooted.
    Change,
    /// This board is missing: it was unplugged or is changing mode.
    Miss,
    /// This board has been missing for some time.
    Remove,
}

/// The action that a descriptor's `action` text names, if any.
pub open spec fn action_of(name: Seq<char>) -> Option<Action> {
    if name == "add"@ {
        Some(Action::Add)
    } else if name == "change"@ {
        Some(Action::Change)
    } else if name == "miss"@ {
        Some(Action::Miss)
    } else if name == "remove"@ {
        Some(Action::Remove)
    } else {
        None
    }
}

/// The text that names an action.
pub open spec fn action_name(action: Action) -> Seq<char> {
    match action {
        Action::Add => "add"@,
        Action::Change => "change"@,
        Action::Miss => "miss"@,
        Action::Remove => "remove"@,
    }
}

/// Naming an action and reading the name back gives the action.
pub proof fn lemma_action_name_round_trip(action: Action)
    ensures
        action_of(action_name(action)) == Some(action),
{
    reveal_strlit("add");
    reveal_strlit("change");
    reveal_strlit("miss");
    reveal_strlit("remove");
    assert("add"@.len() == 3 && "change"@.len() == 6 && "miss"@.len() == 4 && "remove"@.len()
        == 6);
    assert("change"@[0] == 'c' && "remove"@[0] == 'r');
}

impl Action {
    /// Reads an action from its name.
    pub fn parse(name: &str) -> (action: Option<Action>)
        ensures
            action == action_of(name@),
    {
        if same_text(name, "add") {
            Some(Action::Add)
        } else if same_text(name, "change") {
            Some(Action::Change)
        } else if same_text(name, "miss") {
            Some(Action::Miss)
        } else if same_text(name, "remove") {
            Some(Action::Remove)
        } else {
            None
        }
    }

    /// The name of the action, as the discovery tool writes it.
    pub fn name(&self) -> (name: &'static str)
        ensures
            name@ == action_name(*self),
    {
        match self {
            Action::Add => "add",
            Action::Change => "change",
            Action::Miss => "miss",
            Action::Remove => "remove",
        }
    }
}

impl TyCmdListEntry {
    /// The transition that this descriptor triggers, if its action is known.
    pub fn transition(&self) -> (action: Option<Action>)
        ensures
            action == action_of(self@.action),
    {
        Action::parse(self.action.as_str())
    }
}

} // verus!
