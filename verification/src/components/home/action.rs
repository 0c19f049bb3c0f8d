//! What a key or an answer from the store asks the day view to do, and
//! the doing of it.

use vstd::prelude::*;
use crate::action::{Action, ActionView, Page, RelevantKey, RelevantKeyView};
use crate::components::home::editing::mode::{EditMode, EditModeView};
use crate::components::home::error::EditError;
use crate::components::home::state::HomeStateView;
use crate::components::home::timeline::{
    all_wf, can_merge, can_split, merge_error, split_error, Blocks, TimeItemView,
};
use crate::components::home::{Home, HomeView, Outbox};
use crate::persist::model::{Command, CommandView};
use crate::seqs::views;

verus! {

/// A step that the day view is asked to take.
#[derive(Debug)]
pub enum HomeAction {
    Nothing,
    Many(Vec<HomeAction>),
    /// Open the given editor; without one, tell the user that none fits.
    EnterEditSpecific(Option<EditMode>),
    EnterSelect,
    /// The selection was given up.
    ExitSelect,
    ExitToCalendar,
    ExitEdit,
    SetStatusLine(String),
    SplitItemDown(usize),
    MergeItemDown(usize),
    SuggestTickets(String),
}

pub enum HomeActionView {
    Nothing,
    Many(Seq<HomeActionView>),
    EnterEditSpecific(Option<EditModeView>),
    EnterSelect,
    ExitSelect,
    ExitToCalendar,
    ExitEdit,
    SetStatusLine(Seq<char>),
    SplitItemDown(usize),
    MergeItemDown(usize),
    SuggestTickets(Seq<char>),
}

/// The action as plain values.
pub open spec fn action_view(action: HomeAction) -> HomeActionView
    decreases action,
{
    match action {
        HomeAction::Nothing => HomeActionView::Nothing,
        HomeAction::Many(actions) => HomeActionView::Many(action_views(actions@, 0)),
        HomeAction::EnterEditSpecific(mode) => HomeActionView::EnterEditSpecific(
            match mode {
                Some(m) => Some(m@),
                None => None,
            },
        ),
        HomeAction::EnterSelect => HomeActionView::EnterSelect,
        HomeAction::ExitSelect => HomeActionView::ExitSelect,
        HomeAction::ExitToCalendar => HomeActionView::ExitToCalendar,
        HomeAction::ExitEdit => HomeActionView::ExitEdit,
        HomeAction::SetStatusLine(msg) => HomeActionView::SetStatusLine(msg@),
        HomeAction::SplitItemDown(idx) => HomeActionView::SplitItemDown(idx),
        HomeAction::MergeItemDown(idx) => HomeActionView::MergeItemDown(idx),
        HomeAction::SuggestTickets(query) => HomeActionView::SuggestTickets(query@),
    }
}

/// The actions from `from` on, as plain values.
pub open spec fn action_views(actions: Seq<HomeAction>, from: int) -> Seq<HomeActionView>
    decreases actions, actions.len() - from,
{
    if 0 <= from < actions.len() {
        seq![action_view(actions[from])] + action_views(actions, from + 1)
    } else {
        Seq::empty()
    }
}

impl View for HomeAction {
    type V = HomeActionView;

    open spec fn view(&self) -> HomeActionView {
        action_view(*self)
    }
}

/// The views of the actions from `from` on are the views of these actions,
/// one for one.
pub proof fn lemma_action_views(actions: Seq<HomeAction>, from: int)
    requires
        0 <= from <= actions.len(),
    ensures
        action_views(actions, from).len() == actions.len() - from,
        forall|i: int|
            0 <= i < actions.len() - from ==> #[trigger] action_views(actions, from)[i]
                == action_view(actions[from + i]),
    decreases actions.len() - from,
{
    if from < actions.len() {
        lemma_action_views(actions, from + 1);
    }
}

/// The views of a list with one more action are the views of the list with
/// the view of that action after them.
pub proof fn lemma_action_views_push(actions: Seq<HomeAction>, last: HomeAction)
    ensures
        action_views(actions.push(last), 0) == action_views(actions, 0).push(action_view(last)),
{
    lemma_action_views(actions, 0);
    lemma_action_views(actions.push(last), 0);
}

impl HomeActionView {
    /// `self`, then `rhs`: a list grows by `rhs`, nothing gives way to
    /// `rhs`, and anything else becomes a list of the two.
    pub open spec fn add(self, rhs: HomeActionView) -> HomeActionView {
        match self {
            HomeActionView::Many(actions) => HomeActionView::Many(actions.push(rhs)),
            HomeActionView::Nothing => rhs,
            _ => HomeActionView::Many(seq![self, rhs]),
        }
    }
}

impl HomeAction {
    /// `self`, then `rhs`.
    pub fn add(self, rhs: HomeAction) -> (both: HomeAction)
        ensures
            both@ == self@.add(rhs@),
    {
        match self {
            HomeAction::Many(mut actions) => {
                proof {
                    lemma_action_views_push(actions@, rhs);
                }
                actions.push(rhs);
                HomeAction::Many(actions)
            },
            HomeAction::Nothing => rhs,
            exactly_one => {
                let ghost first = exactly_one;
                let mut actions: Vec<HomeAction> = Vec::new();
                actions.push(exactly_one);
                actions.push(rhs);
                proof {
                    lemma_action_views(actions@, 0);
                    assert(action_views(actions@, 0) =~= seq![first@, rhs@]);
                }
                HomeAction::Many(actions)
            },
        }
    }

    /// The step that tells the user why an edit was refused.
    pub fn from(value: EditError) -> (action: HomeAction)
        ensures
            action@ == HomeActionView::SetStatusLine(value@.message()),
    {
        HomeAction::SetStatusLine(value.message())
    }
}

// ----------------------------------------------------------- performing

/// The line that is shown where no editor fits.
pub const NO_EDITOR: &'static str = "\u{26d4}\u{26d4}\u{26d4}";

/// What a step leaves behind: the day view, the messages and commands it
/// sends, and the identifiers that are left for new blocks.
pub struct Effects {
    pub home: HomeView,
    pub actions: Seq<ActionView>,
    pub commands: Seq<CommandView>,
    pub ids: Seq<Seq<char>>,
}

impl Effects {
    pub open spec fn only(home: HomeView, ids: Seq<Seq<char>>) -> Effects {
        Effects { home, actions: Seq::empty(), commands: Seq::empty(), ids }
    }

    pub open spec fn telling(home: HomeView, action: ActionView, ids: Seq<Seq<char>>) -> Effects {
        Effects { home, actions: seq![action], commands: Seq::empty(), ids }
    }
}

/// How many blocks the action may add, and so how many identifiers it may
/// need.
pub open spec fn splits_in(action: HomeActionView) -> nat
    decreases action,
{
    match action {
        HomeActionView::Many(actions) => splits_in_all(actions, 0),
        HomeActionView::SplitItemDown(_) => 1,
        _ => 0,
    }
}

pub open spec fn splits_in_all(actions: Seq<HomeActionView>, from: int) -> nat
    decreases actions, actions.len() - from,
{
    if 0 <= from < actions.len() {
        splits_in(actions[from]) + splits_in_all(actions, from + 1)
    } else {
        0
    }
}

/// What carrying out `action` leaves behind. A list is carried out item by
/// item. A split takes the last of `ids` for the new block. An edit that is
/// refused changes nothing and tells the user why.
pub open spec fn performed(home: HomeView, action: HomeActionView, ids: Seq<Seq<char>>) -> Effects
    decreases action,
{
    match action {
        HomeActionView::Many(actions) => performed_all(home, actions, 0, ids),
        HomeActionView::EnterEditSpecific(Some(mode)) => Effects::telling(
            HomeView {
                edit_mode: Some(mode),
                state: HomeStateView {
                    table: home.state.table.with_column(Some(mode.column())),
                    ..home.state
                },
                ..home
            },
            ActionView::SetRelevantKeys(editing_keys_view()),
            ids,
        ),
        HomeActionView::EnterEditSpecific(None) => Effects::telling(
            home,
            ActionView::SetStatusLine(NO_EDITOR@),
            ids,
        ),
        HomeActionView::EnterSelect => Effects::telling(
            home,
            ActionView::SetRelevantKeys(selecting_keys_view()),
            ids,
        ),
        HomeActionView::ExitSelect => Effects::telling(
            home,
            ActionView::SetRelevantKeys(outside_keys_view()),
            ids,
        ),
        HomeActionView::ExitEdit => Effects::telling(
            HomeView { edit_mode: None, ..home },
            ActionView::SetRelevantKeys(selecting_keys_view()),
            ids,
        ),
        HomeActionView::SetStatusLine(msg) => Effects::telling(
            home,
            ActionView::SetStatusLine(msg),
            ids,
        ),
        HomeActionView::SplitItemDown(idx) => if can_split(home.state.items, idx as int) {
            Effects::only(
                HomeView { state: home.state.split(idx as int, ids.last()), ..home },
                ids.drop_last(),
            )
        } else {
            Effects::telling(
                home,
                ActionView::SetStatusLine(split_error(home.state.items, idx as int).message()),
                ids,
            )
        },
        HomeActionView::MergeItemDown(idx) => if can_merge(home.state.items, idx as int) {
            Effects::only(HomeView { state: home.state.merged(idx as int), ..home }, ids)
        } else {
            Effects::telling(
                home,
                ActionView::SetStatusLine(merge_error(home.state.items, idx as int).message()),
                ids,
            )
        },
        HomeActionView::ExitToCalendar => Effects::telling(
            home,
            ActionView::SetActivePage(Page::Calendar { day: home.day }),
            ids,
        ),
        HomeActionView::SuggestTickets(query) => Effects {
            home,
            actions: Seq::empty(),
            commands: if query.len() > 0 {
                seq![CommandView::SuggestTickets { query }]
            } else {
                Seq::empty()
            },
            ids,
        },
        HomeActionView::Nothing => Effects::only(home, ids),
    }
}

/// What carrying out the actions from `from` on, one after the other,
/// leaves behind.
pub open spec fn performed_all(
    home: HomeView,
    actions: Seq<HomeActionView>,
    from: int,
    ids: Seq<Seq<char>>,
) -> Effects
    decreases actions, actions.len() - from,
{
    if 0 <= from < actions.len() {
        let first = performed(home, actions[from], ids);
        let rest = performed_all(first.home, actions, from + 1, first.ids);
        Effects {
            home: rest.home,
            actions: first.actions + rest.actions,
            commands: first.commands + rest.commands,
            ids: rest.ids,
        }
    } else {
        Effects::only(home, ids)
    }
}

/// Whether one of the messages sets the status line.
pub open spec fn any_status_line(actions: Seq<ActionView>) -> bool {
    exists|i: int| 0 <= i < actions.len() && (#[trigger] actions[i]).is_status_line()
}

/// What one whole step of the day view leaves behind: a message on the
/// status line from the step before is taken away, the action is carried
/// out, and what has changed goes to the store.
pub open spec fn perform_step(home: HomeView, action: HomeActionView, ids: Seq<Seq<char>>) -> Effects {
    let done = performed(HomeView { need_status_line_reset: false, ..home }, action, ids);
    Effects {
        home: HomeView {
            state: done.home.state.flushed(),
            need_status_line_reset: any_status_line(done.actions),
            ..done.home
        },
        actions: if home.need_status_line_reset {
            seq![ActionView::SetStatusLine(Seq::empty())] + done.actions
        } else {
            done.actions
        },
        commands: done.commands + done.home.state.flush_commands(),
        ids: done.ids,
    }
}

/// Carrying out an action uses up exactly as many identifiers as blocks
/// were added, and no more than the action has splits.
pub proof fn lemma_performed_ids(home: HomeView, action: HomeActionView, ids: Seq<Seq<char>>)
    requires
        ids.len() >= splits_in(action),
    ensures
        performed(home, action, ids).ids.len() + splits_in(action) >= ids.len(),
        performed(home, action, ids).ids.len() <= ids.len(),
    decreases action,
{
    match action {
        HomeActionView::Many(actions) => lemma_performed_all_ids(home, actions, 0, ids),
        _ => {},
    }
}

/// The same, for a list of actions.
pub proof fn lemma_performed_all_ids(
    home: HomeView,
    actions: Seq<HomeActionView>,
    from: int,
    ids: Seq<Seq<char>>,
)
    requires
        0 <= from <= actions.len(),
        ids.len() >= splits_in_all(actions, from),
    ensures
        performed_all(home, actions, from, ids).ids.len() + splits_in_all(actions, from)
            >= ids.len(),
        performed_all(home, actions, from, ids).ids.len() <= ids.len(),
    decreases actions, actions.len() - from,
{
    if from < actions.len() {
        let first = performed(home, actions[from], ids);
        lemma_performed_ids(home, actions[from], ids);
        lemma_performed_all_ids(first.home, actions, from + 1, first.ids);
    }
}

/// Carrying out an action changes neither the day, nor whether the view
/// is suspended, nor what is known of the status line.
pub proof fn lemma_performed_keeps_flags(home: HomeView, action: HomeActionView, ids: Seq<Seq<char>>)
    ensures
        performed(home, action, ids).home.day == home.day,
        performed(home, action, ids).home.suspended == home.suspended,
        performed(home, action, ids).home.need_status_line_reset == home.need_status_line_reset,
    decreases action,
{
    match action {
        HomeActionView::Many(actions) => lemma_performed_all_keeps_flags(home, actions, 0, ids),
        _ => {},
    }
}

/// The same, for a list of actions.
pub proof fn lemma_performed_all_keeps_flags(
    home: HomeView,
    actions: Seq<HomeActionView>,
    from: int,
    ids: Seq<Seq<char>>,
)
    requires
        0 <= from <= actions.len(),
    ensures
        performed_all(home, actions, from, ids).home.day == home.day,
        performed_all(home, actions, from, ids).home.suspended == home.suspended,
        performed_all(home, actions, from, ids).home.need_status_line_reset
            == home.need_status_line_reset,
    decreases actions, actions.len() - from,
{
    if from < actions.len() {
        let first = performed(home, actions[from], ids);
        lemma_performed_keeps_flags(home, actions[from], ids);
        lemma_performed_all_keeps_flags(first.home, actions, from + 1, first.ids);
    }
}

/// The splits in a list are those of its first actions and those of the
/// rest.
pub proof fn lemma_splits_in_all_from(actions: Seq<HomeActionView>, from: int)
    requires
        0 <= from <= actions.len(),
    ensures
        splits_in_all(actions, 0) >= splits_in_all(actions, from),
    decreases from,
{
    if from > 0 {
        lemma_splits_in_all_from(actions, from - 1);
    }
}

/// What is left of `ids` identifiers when `action` has taken those that it
/// may need, or nothing if they do not suffice.
pub fn ids_left(action: &HomeAction, ids: usize) -> (left: Option<usize>)
    ensures
        match left {
            Some(rest) => rest + splits_in(action@) == ids,
            None => splits_in(action@) > ids,
        },
    decreases action,
{
    match action {
        HomeAction::Many(actions) => {
            let ghost all_views = action_views(actions@, 0);
            proof {
                lemma_action_views(actions@, 0);
            }
            let mut left = ids;
            let mut i: usize = actions.len();
            while i > 0
                invariant
                    i <= actions.len(),
                    all_views == action_views(actions@, 0),
                    all_views.len() == actions.len(),
                    forall|k: int|
                        0 <= k < actions.len() ==> #[trigger] all_views[k] == action_view(
                            actions@[k],
                        ),
                    forall|k: int|
                        0 <= k < actions.len() ==> decreases_to!(action => #[trigger] actions@[k]),
                    action@ == HomeActionView::Many(all_views),
                    left + splits_in_all(all_views, i as int) == ids,
                decreases i,
            {
                i -= 1;
                match ids_left(&actions[i], left) {
                    Some(rest) => {
                        left = rest;
                    },
                    None => {
                        proof {
                            lemma_splits_in_all_from(all_views, i as int);
                            assert(splits_in_all(all_views, i as int) == splits_in(
                                all_views[i as int],
                            ) + splits_in_all(all_views, i + 1));
                        }
                        return None;
                    },
                }
            }
            Some(left)
        },
        HomeAction::SplitItemDown(_) => {
            if ids == 0 {
                None
            } else {
                Some(ids - 1)
            }
        },
        _ => Some(ids),
    }
}

/// Whether `ids` identifiers are enough for all the blocks that `action`
/// may add.
pub fn has_ids_for(action: &HomeAction, ids: usize) -> (enough: bool)
    ensures
        enough == (splits_in(action@) <= ids),
{
    ids_left(action, ids).is_some()
}

/// How many identifiers `action` may need, if a `usize` can count them.
pub fn count_splits(action: &HomeAction) -> (n: Option<usize>)
    ensures
        match n {
            Some(count) => count == splits_in(action@),
            None => splits_in(action@) > usize::MAX,
        },
{
    match ids_left(action, usize::MAX) {
        Some(rest) => Some(usize::MAX - rest),
        None => None,
    }
}

/// What was carried out, as one value.
pub open spec fn effects_of(home: Home, out: Outbox, ids: Vec<String>) -> Effects {
    Effects { home: home@, actions: out@.actions, commands: out@.commands, ids: views(ids@) }
}

/// Carries out `action` on the day view. New blocks take their identifiers
/// from the end of `ids`.
pub fn do_perform(home: &mut Home, action: HomeAction, ids: &mut Vec<String>) -> (out: Outbox)
    requires
        old(home).wf(),
        old(ids)@.len() >= splits_in(action@),
    ensures
        final(home).wf(),
        effects_of(*final(home), out, *final(ids)) == performed(
            old(home)@,
            action@,
            views(old(ids)@),
        ),
    decreases action,
{
    let mut out = Outbox::new();
    match action {
        HomeAction::Many(actions) => {
            let mut actions = actions;
            let count = actions.len();
            let ghost all = actions@;
            let ghost all_views = action_views(all, 0);
            let ghost total = performed_all(old(home)@, all_views, 0, views(old(ids)@));
            let mut done: usize = 0;
            proof {
                lemma_action_views(all, 0);
            }
            while actions.len() > 0
                invariant
                    home.wf(),
                    0 <= done <= count,
                    count == all.len(),
                    actions@ == all.skip(done as int),
                    all_views == action_views(all, 0),
                    all_views.len() == all.len(),
                    forall|i: int|
                        0 <= i < all.len() ==> #[trigger] all_views[i] == action_view(all[i]),
                    forall|i: int| 0 <= i < all.len() ==> decreases_to!(action => #[trigger] all[i]),
                    ids@.len() >= splits_in_all(all_views, done as int),
                    total == ({
                        let rest = performed_all(home@, all_views, done as int, views(ids@));
                        Effects {
                            home: rest.home,
                            actions: out@.actions + rest.actions,
                            commands: out@.commands + rest.commands,
                            ids: rest.ids,
                        }
                    }),
                decreases count - done,
            {
                let ghost first = performed(home@, all_views[done as int], views(ids@));
                let ghost out_before = out@;
                let next = actions.remove(0);
                proof {
                    lemma_performed_ids(home@, all_views[done as int], views(ids@));
                }
                let part = do_perform(home, next, ids);
                out.append(part);
                done += 1;
                proof {
                    let rest = performed_all(home@, all_views, done as int, views(ids@));
                    assert(out@.actions + rest.actions =~= out_before.actions + (first.actions
                        + rest.actions));
                    assert(out@.commands + rest.commands =~= out_before.commands + (first.commands
                        + rest.commands));
                }
            }
        },
        HomeAction::EnterEditSpecific(Some(mode)) => {
            home.state.table.select_column(Some(mode.get_column_num()));
            home.edit_mode = Some(mode);
            out.tell(Action::SetRelevantKeys(editing_keys()));
        },
        HomeAction::EnterEditSpecific(None) => {
            out.tell(Action::SetStatusLine(NO_EDITOR.to_owned()));
        },
        HomeAction::EnterSelect => {
            out.tell(Action::SetRelevantKeys(selecting_keys()));
        },
        HomeAction::ExitSelect => {
            out.tell(Action::SetRelevantKeys(outside_keys()));
        },
        HomeAction::ExitEdit => {
            home.edit_mode = None;
            out.tell(Action::SetRelevantKeys(selecting_keys()));
        },
        HomeAction::SetStatusLine(msg) => {
            out.tell(Action::SetStatusLine(msg));
        },
        HomeAction::SplitItemDown(idx) => {
            match home.state.split_refusal(idx) {
                None => {
                    let new_id = match ids.pop() {
                        Some(id) => id,
                        None => vstd::pervasive::unreached(),
                    };
                    assert(views(ids@) =~= views(old(ids)@).drop_last());
                    let _ = home.state.split_item_down(idx, new_id);
                },
                Some(refusal) => {
                    out.tell(Action::SetStatusLine(refusal.message()));
                },
            }
        },
        HomeAction::MergeItemDown(idx) => {
            match home.state.merge_item_down(idx) {
                Ok(()) => {},
                Err(refusal) => {
                    out.tell(Action::SetStatusLine(refusal.message()));
                },
            }
        },
        HomeAction::ExitToCalendar => {
            out.tell(Action::SetActivePage(Page::Calendar { day: home.day }));
        },
        HomeAction::SuggestTickets(query) => {
            if !query.as_str().is_empty() {
                out.send(Command::SuggestTickets { query });
            }
        },
        HomeAction::Nothing => {},
    }
    out
}

/// Takes one whole step of the day view: takes away a message that the
/// step before left on the status line, carries out `action`, and sends
/// what has changed to the store.
pub fn perform(home: &mut Home, action: HomeAction, ids: &mut Vec<String>) -> (out: Outbox)
    requires
        old(home).wf(),
        old(ids)@.len() >= splits_in(action@),
    ensures
        final(home).wf(),
        effects_of(*final(home), out, *final(ids)) == perform_step(
            old(home)@,
            action@,
            views(old(ids)@),
        ),
{
    let mut out = Outbox::new();
    if home.need_status_line_reset {
        home.need_status_line_reset = false;
        out.tell(Action::SetStatusLine(String::new()));
    }
    let ghost cleared = home@;
    let done = do_perform(home, action, ids);
    proof {
        lemma_performed_keeps_flags(cleared, action@, views(old(ids)@));
    }
    let count = done.actions.len();
    let mut told = false;
    let mut i: usize = 0;
    while i < count
        invariant
            count == done.actions.len(),
            i <= count,
            told == any_status_line(done@.actions.take(i as int)),
        decreases count - i,
    {
        let is_one = done.actions[i].is_status_line();
        proof {
            if !told && is_one {
                assert(done@.actions.take(i + 1)[i as int].is_status_line());
            }
        }
        if is_one {
            told = true;
        }
        i += 1;
    }
    assert(done@.actions.take(count as int) =~= done@.actions);
    if told {
        home.need_status_line_reset = true;
    }
    out.append(done);
    let saves = save_any_dirty_state(home);
    out.send_all(saves);
    out
}

// ------------------------------------------------------------- flushing

/// The commands that save the blocks before `upto` which hold edits that
/// were not sent yet, in the order of the blocks. Each carries the block's
/// current version.
pub open spec fn store_commands(items: Blocks, day: Seq<char>, upto: int) -> Seq<CommandView>
    decreases upto,
{
    if upto <= 0 {
        Seq::empty()
    } else {
        let before = store_commands(items, day, upto - 1);
        let item = items[upto - 1];
        if item.version.should_save_spec() {
            before.push(
                CommandView::StoreEntry { entry: item.persisted(day), version: item.version.local },
            )
        } else {
            before
        }
    }
}

/// The blocks once their unsent edits are on the way.
pub open spec fn sent_off(items: Blocks) -> Blocks {
    Seq::new(
        items.len(),
        |i: int|
            if items[i].version.should_save_spec() {
                TimeItemView { version: items[i].version.marked_sent(), ..items[i] }
            } else {
                items[i]
            },
    )
}

/// One command for each block that waits to be deleted.
pub open spec fn delete_commands(waiting: Blocks) -> Seq<CommandView> {
    Seq::new(waiting.len(), |i: int| CommandView::DeleteEntry(waiting[i].id))
}

impl HomeStateView {
    /// The commands that bring the store up to date. Before the day is
    /// loaded there are none.
    pub open spec fn flush_commands(self) -> Seq<CommandView> {
        match self.timesheet {
            Some(sheet) => store_commands(self.items, sheet.day, self.items.len() as int)
                + delete_commands(self.items_to_delete),
            None => Seq::empty(),
        }
    }

    /// The state once those commands are on the way: nothing is left to
    /// send, and nothing waits to be deleted.
    pub open spec fn flushed(self) -> HomeStateView {
        match self.timesheet {
            Some(sheet) => HomeStateView {
                items: sent_off(self.items),
                items_to_delete: Seq::empty(),
                ..self
            },
            None => self,
        }
    }
}

/// After a flush of a loaded day no block holds an edit that still has to
/// be sent, and no block waits to be deleted.
pub proof fn lemma_flush_leaves_nothing_to_send(state: HomeStateView)
    requires
        state.timesheet.is_some(),
    ensures
        forall|i: int|
            0 <= i < state.flushed().items.len() ==> !(
            #[trigger] state.flushed().items[i]).version.should_save_spec(),
        state.flushed().items_to_delete.len() == 0,
        state.flushed().flush_commands().len() == 0,
{
    let after = state.flushed();
    lemma_no_store_commands(after.items, after.timesheet.unwrap().day, after.items.len() as int);
}

/// After every whole step of a loaded day, no block holds an edit that
/// still has to be sent, and no block waits to be deleted.
pub proof fn lemma_step_leaves_nothing_to_send(
    home: HomeView,
    action: HomeActionView,
    ids: Seq<Seq<char>>,
)
    requires
        perform_step(home, action, ids).home.state.timesheet.is_some(),
    ensures
        forall|i: int|
            0 <= i < perform_step(home, action, ids).home.state.items.len() ==> !(
            #[trigger] perform_step(home, action, ids).home.state.items[i]).version.should_save_spec(),
        perform_step(home, action, ids).home.state.items_to_delete.len() == 0,
{
}

/// Where no block holds an edit that has to be sent, there are no commands
/// to store any.
pub proof fn lemma_no_store_commands(items: Blocks, day: Seq<char>, upto: int)
    requires
        0 <= upto <= items.len(),
        forall|i: int| 0 <= i < items.len() ==> !(#[trigger] items[i]).version.should_save_spec(),
    ensures
        store_commands(items, day, upto).len() == 0,
    decreases upto,
{
    if upto > 0 {
        lemma_no_store_commands(items, day, upto - 1);
    }
}

/// Sends what has changed to the store: a save for every block with edits
/// that were not sent yet, which is then marked as sent, and a delete for
/// every block that left the timeline.
pub fn save_any_dirty_state(home: &mut Home) -> (commands_to_send: Vec<Command>)
    requires
        old(home).wf(),
    ensures
        final(home).wf(),
        views(commands_to_send@) == old(home)@.state.flush_commands(),
        final(home)@ == (HomeView { state: old(home)@.state.flushed(), ..old(home)@ }),
{
    let mut commands_to_send: Vec<Command> = Vec::new();
    let day = match &home.state.timesheet {
        Some(sheet) => sheet.day.clone(),
        None => {
            return commands_to_send;
        },
    };
    let ghost before = home.state@.items;
    let count = home.state.items.len();
    let mut i: usize = 0;
    while i < count
        invariant
            count == home.state.items.len(),
            count == before.len(),
            i <= count,
            all_wf(before),
            home.state.table == old(home).state.table,
            home.state.timesheet == old(home).state.timesheet,
            home.state.items_to_delete == old(home).state.items_to_delete,
            home.day == old(home).day,
            home.edit_mode == old(home).edit_mode,
            home.suspended == old(home).suspended,
            home.need_status_line_reset == old(home).need_status_line_reset,
            views(commands_to_send@) == store_commands(before, day@, i as int),
            forall|k: int|
                0 <= k < i ==> (#[trigger] home.state.items@[k])@ == sent_off(before)[k],
            forall|k: int| i <= k < count ==> (#[trigger] home.state.items@[k])@ == before[k],
        decreases count - i,
    {
        if home.state.items[i].version.should_save() {
            let command = Command::StoreEntry {
                entry: home.state.items[i].to_persist(day.as_str()),
                version: home.state.items[i].version.local,
            };
            commands_to_send.push(command);
            home.state.items[i].version.mark_sent();
        }
        i += 1;
    }
    let ghost stores = views(commands_to_send@);
    let ghost waiting = home.state@.items_to_delete;
    let waiting_count = home.state.items_to_delete.len();
    let mut j: usize = 0;
    while j < waiting_count
        invariant
            waiting_count == home.state.items_to_delete.len(),
            j <= waiting_count,
            waiting == home.state@.items_to_delete,
            views(commands_to_send@) == stores + delete_commands(waiting).take(j as int),
        decreases waiting_count - j,
    {
        let ghost so_far = views(commands_to_send@);
        let command = Command::DeleteEntry(home.state.items_to_delete[j].id.clone());
        commands_to_send.push(command);
        proof {
            assert(views(commands_to_send@) =~= so_far.push(command@));
        }
        j += 1;
    }
    home.state.items_to_delete.clear();
    proof {
        assert(home.state@.items =~= sent_off(before));
        assert(home.state@.items_to_delete =~= Seq::empty());
    }
    commands_to_send
}

/// The legend while nothing is selected.
pub open spec fn outside_keys_view() -> Seq<RelevantKeyView> {
    seq![
        RelevantKeyView { key: "Arrows"@, text: "Move"@ },
        RelevantKeyView { key: "Esc"@, text: "Exit to calendar"@ },
        RelevantKeyView { key: "e"@, text: "Export CSV"@ },
    ]
}

/// The legend while a cell is selected.
pub open spec fn selecting_keys_view() -> Seq<RelevantKeyView> {
    seq![
        RelevantKeyView { key: "Space"@, text: "Edit"@ },
        RelevantKeyView { key: "s"@, text: "Split"@ },
        RelevantKeyView { key: "Arrows"@, text: "Move"@ },
        RelevantKeyView { key: "e"@, text: "Export CSV"@ },
    ]
}

/// The legend while an editor is open.
pub open spec fn editing_keys_view() -> Seq<RelevantKeyView> {
    seq![RelevantKeyView { key: "^"@, text: "Clear"@ }]
}

pub fn outside_keys() -> (keys: Vec<RelevantKey>)
    ensures
        views(keys@) == outside_keys_view(),
{
    let mut keys: Vec<RelevantKey> = Vec::new();
    keys.push(RelevantKey::new("Arrows", "Move"));
    keys.push(RelevantKey::new("Esc", "Exit to calendar"));
    keys.push(RelevantKey::new("e", "Export CSV"));
    keys
}

pub fn selecting_keys() -> (keys: Vec<RelevantKey>)
    ensures
        views(keys@) == selecting_keys_view(),
{
    let mut keys: Vec<RelevantKey> = Vec::new();
    keys.push(RelevantKey::new("Space", "Edit"));
    keys.push(RelevantKey::new("s", "Split"));
    keys.push(RelevantKey::new("Arrows", "Move"));
    keys.push(RelevantKey::new("e", "Export CSV"));
    keys
}

pub fn editing_keys() -> (keys: Vec<RelevantKey>)
    ensures
        views(keys@) == editing_keys_view(),
{
    let mut keys: Vec<RelevantKey> = Vec::new();
    keys.push(RelevantKey::new("^", "Clear"));
    keys
}

} // verus!
