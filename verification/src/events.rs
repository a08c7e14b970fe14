//! What the host does when a menu row is activated.

use crate::bean::{FreshnessState, FreshnessView};
use crate::menu::{
    bean_action_id, bean_rows, BEAN_ID_PREFIX, EMPTY_ID, LOADING_ID, OPEN_APP_ID, QUIT_ID,
    STAT_CAPACITY_ID, STAT_COUNT_ID,
};
use crate::text::{chars_of, push_chars};
use vstd::prelude::*;

verus! {

/// The outcome of activating a menu row.
#[derive(Debug, PartialEq, Eq)]
pub enum MenuAction {
    /// Bring the main window to the front.
    OpenApp,
    /// End the application.
    Quit,
    /// Show the bean with this identifier.
    Navigate(String),
    /// Nothing to do.
    Ignore,
}

/// The mathematical content of a [`MenuAction`].
pub ghost enum ActionView {
    OpenApp,
    Quit,
    Navigate(Seq<char>),
    Ignore,
}

impl View for MenuAction {
    type V = ActionView;

    open spec fn view(&self) -> ActionView {
        match self {
            MenuAction::OpenApp => ActionView::OpenApp,
            MenuAction::Quit => ActionView::Quit,
            MenuAction::Navigate(id) => ActionView::Navigate(id@),
            MenuAction::Ignore => ActionView::Ignore,
        }
    }
}

/// The bean identifier inside a row identifier: what follows the fixed
/// prefix; `None` for an identifier that does not start with it.
pub open spec fn bean_id_of(action: Seq<char>) -> Option<Seq<char>> {
    if BEAN_ID_PREFIX@.is_prefix_of(action) {
        Some(action.skip(BEAN_ID_PREFIX@.len() as int))
    } else {
        None
    }
}

/// The outcome of activating the row with identifier `id`.
pub open spec fn action_of(id: Seq<char>) -> ActionView {
    if id == OPEN_APP_ID@ {
        ActionView::OpenApp
    } else if id == QUIT_ID@ {
        ActionView::Quit
    } else {
        match bean_id_of(id) {
            Some(bean) => ActionView::Navigate(bean),
            None => ActionView::Ignore,
        }
    }
}

/// Taking the prefix off a bean row's identifier gives back the bean's
/// identifier, unchanged, whatever it holds; and activating the row asks to
/// show that bean.
pub proof fn lemma_bean_id_round_trip(id: Seq<char>)
    ensures
        bean_id_of(bean_action_id(id)) == Some(id),
        action_of(bean_action_id(id)) == ActionView::Navigate(id),
{
    reveal_strlit("bean:");
    reveal_strlit("open_app");
    reveal_strlit("quit");
    let action = bean_action_id(id);
    assert(action.subrange(0, BEAN_ID_PREFIX@.len() as int) =~= BEAN_ID_PREFIX@);
    assert(action.skip(BEAN_ID_PREFIX@.len() as int) =~= id);
    assert(action[0] == 'b');
    assert(OPEN_APP_ID@[0] == 'o');
    assert(QUIT_ID@[0] == 'q');
}

/// Beans with different identifiers have rows with different identifiers.
pub proof fn lemma_bean_action_id_injective(a: Seq<char>, b: Seq<char>)
    requires
        bean_action_id(a) == bean_action_id(b),
    ensures
        a == b,
{
    lemma_bean_id_round_trip(a);
    lemma_bean_id_round_trip(b);
}

/// Every row of a group leads back to the record it stands for: activating
/// it asks to show the bean with exactly that record's identifier.
pub proof fn lemma_rows_lead_back(members: Seq<FreshnessView>, state: FreshnessState, i: int)
    requires
        0 <= i < members.len(),
    ensures
        bean_rows(members, state).len() == members.len(),
        bean_id_of(bean_rows(members, state)[i].id) == Some(members[i].bean.id),
        action_of(bean_rows(members, state)[i].id) == ActionView::Navigate(members[i].bean.id),
        bean_rows(members, state)[i].enabled,
{
    lemma_bean_id_round_trip(members[i].bean.id);
}

/// The rows that only inform do nothing when activated.
pub proof fn lemma_info_rows_ignored()
    ensures
        action_of(STAT_COUNT_ID@) == ActionView::Ignore,
        action_of(STAT_CAPACITY_ID@) == ActionView::Ignore,
        action_of(EMPTY_ID@) == ActionView::Ignore,
        action_of(LOADING_ID@) == ActionView::Ignore,
{
    reveal_strlit("bean:");
    reveal_strlit("open_app");
    reveal_strlit("quit");
    reveal_strlit("stat_count");
    reveal_strlit("stat_capacity");
    reveal_strlit("empty");
    reveal_strlit("loading");
    assert(LOADING_ID@[0] == 'l');
    assert(BEAN_ID_PREFIX@.is_prefix_of(LOADING_ID@) ==> LOADING_ID@.subrange(0, 5)[0] == 'b');
    assert(STAT_COUNT_ID@[0] == 's');
    assert(STAT_CAPACITY_ID@[0] == 's');
    assert(EMPTY_ID@[0] == 'e');
    assert(OPEN_APP_ID@[0] == 'o');
    assert(QUIT_ID@[0] == 'q');
    assert(BEAN_ID_PREFIX@[0] == 'b');
    assert(BEAN_ID_PREFIX@.is_prefix_of(STAT_COUNT_ID@) ==> STAT_COUNT_ID@.subrange(0, 5)[0]
        == 'b');
    assert(BEAN_ID_PREFIX@.is_prefix_of(STAT_CAPACITY_ID@) ==> STAT_CAPACITY_ID@.subrange(
        0,
        5,
    )[0] == 'b');
    assert(BEAN_ID_PREFIX@.is_prefix_of(EMPTY_ID@) ==> EMPTY_ID@.subrange(0, 5)[0] == 'b');
}

/// Whether two texts hold the same characters.
pub fn same_chars(a: &Vec<char>, b: &Vec<char>) -> (same: bool)
    ensures
        same == (a@ == b@),
{
    if a.len() != b.len() {
        return false;
    }
    let mut i: usize = 0;
    while i < a.len()
        invariant
            i <= a.len(),
            a.len() == b.len(),
            forall|j: int| 0 <= j < i ==> a@[j] == b@[j],
        decreases a.len() - i,
    {
        if a[i] != b[i] {
            return false;
        }
        i += 1;
    }
    assert(a@ =~= b@);
    true
}

/// Whether `text` starts with `prefix`.
pub fn starts_with(text: &Vec<char>, prefix: &Vec<char>) -> (found: bool)
    ensures
        found == prefix@.is_prefix_of(text@),
{
    if prefix.len() > text.len() {
        return false;
    }
    let mut i: usize = 0;
    while i < prefix.len()
        invariant
            i <= prefix.len() <= text.len(),
            forall|j: int| 0 <= j < i ==> text@[j] == prefix@[j],
        decreases prefix.len() - i,
    {
        if text[i] != prefix[i] {
            assert(text@.subrange(0, prefix@.len() as int)[i as int] != prefix@[i as int]);
            return false;
        }
        i += 1;
    }
    assert(prefix@ =~= text@.subrange(0, prefix@.len() as int));
    true
}

/// Decides what activating the row with identifier `id` asks for: one of the
/// two fixed actions, showing a bean for a bean row's identifier, and nothing
/// for any other.
pub fn menu_action(id: &str) -> (action: MenuAction)
    ensures
        action@ == action_of(id@),
{
    let chars = chars_of(id);
    if same_chars(&chars, &chars_of(OPEN_APP_ID)) {
        return MenuAction::OpenApp;
    }
    if same_chars(&chars, &chars_of(QUIT_ID)) {
        return MenuAction::Quit;
    }
    let prefix = chars_of(BEAN_ID_PREFIX);
    if starts_with(&chars, &prefix) {
        let mut bean = String::new();
        push_chars(&mut bean, &chars, prefix.len(), chars.len());
        proof {
            assert(bean@ =~= id@.skip(BEAN_ID_PREFIX@.len() as int));
        }
        MenuAction::Navigate(bean)
    } else {
        MenuAction::Ignore
    }
}

} // verus!
