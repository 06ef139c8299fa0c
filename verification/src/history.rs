//! Transaction-based undo/redo history built from reversible commands.
use vstd::prelude::*;
use std::collections::VecDeque;
use crate::ids::FeatureId;

verus! {

/// The most undo steps that the history keeps; older ones are dropped first.
pub const MAX_HISTORY_SIZE: usize = 100;

/// An action that can be executed on a document.
#[derive(Debug)]
pub enum Action {
    /// Add a feature, given in serialized form.
    AddFeature { id: FeatureId, data: Vec<u8> },
    /// Remove a feature.
    RemoveFeature { id: FeatureId },
    /// Replace a feature by new serialized data.
    ModifyFeature { id: FeatureId, data: Vec<u8> },
    /// Move a feature in the tree.
    MoveFeature { id: FeatureId, new_parent: Option<FeatureId>, new_index: usize },
    /// Suppress or unsuppress a feature.
    SetSuppressed { id: FeatureId, suppressed: bool },
    /// Set a document parameter to a serialized value.
    SetParameter { name: String, value: Vec<u8> },
    /// Remove a document parameter.
    RemoveParameter { name: String },
    /// Rename a feature.
    RenameFeature { id: FeatureId, name: String },
    /// Set an entry of the document metadata.
    SetMetadata { key: String, value: String },
    /// Several actions executed together.
    Batch { actions: Vec<Action> },
}

/// The mathematical value of an [`Action`].
#[verifier::ext_equal]
pub enum ActionView {
    AddFeature { id: FeatureId, data: Seq<u8> },
    RemoveFeature { id: FeatureId },
    ModifyFeature { id: FeatureId, data: Seq<u8> },
    MoveFeature { id: FeatureId, new_parent: Option<FeatureId>, new_index: usize },
    SetSuppressed { id: FeatureId, suppressed: bool },
    SetParameter { name: Seq<char>, value: Seq<u8> },
    RemoveParameter { name: Seq<char> },
    RenameFeature { id: FeatureId, name: Seq<char> },
    SetMetadata { key: Seq<char>, value: Seq<char> },
    Batch { actions: Seq<ActionView> },
}

impl View for Action {
    type V = ActionView;

    open spec fn view(&self) -> ActionView {
        self.value()
    }
}

impl Action {
    /// The mathematical value of this action.
    pub open spec fn value(&self) -> ActionView
        decreases self,
    {
        match self {
            Action::AddFeature { id, data } => ActionView::AddFeature { id: *id, data: data@ },
            Action::RemoveFeature { id } => ActionView::RemoveFeature { id: *id },
            Action::ModifyFeature { id, data } => ActionView::ModifyFeature { id: *id, data: data@ },
            Action::MoveFeature { id, new_parent, new_index } => ActionView::MoveFeature {
                id: *id,
                new_parent: *new_parent,
                new_index: *new_index,
            },
            Action::SetSuppressed { id, suppressed } => ActionView::SetSuppressed {
                id: *id,
                suppressed: *suppressed,
            },
            Action::SetParameter { name, value } => ActionView::SetParameter {
                name: name@,
                value: value@,
            },
            Action::RemoveParameter { name } => ActionView::RemoveParameter { name: name@ },
            Action::RenameFeature { id, name } => ActionView::RenameFeature { id: *id, name: name@ },
            Action::SetMetadata { key, value } => ActionView::SetMetadata {
                key: key@,
                value: value@,
            },
            Action::Batch { actions } => ActionView::Batch { actions: views_of(actions@) },
        }
    }
}

/// The values of a sequence of actions, element by element.
pub open spec fn views_of(s: Seq<Action>) -> Seq<ActionView>
    decreases s,
{
    if s.len() == 0 {
        Seq::empty()
    } else {
        views_of(s.drop_last()).push(s.last().value())
    }
}

/// `views_of` keeps the length and maps each element to its value.
pub proof fn lemma_views_of(s: Seq<Action>)
    ensures
        views_of(s).len() == s.len(),
        forall|k: int| 0 <= k < s.len() ==> #[trigger] views_of(s)[k] == s[k]@,
    decreases s.len(),
{
    if s.len() > 0 {
        lemma_views_of(s.drop_last());
    }
}

/// A copy of a byte buffer.
fn copy_bytes(v: &Vec<u8>) -> (r: Vec<u8>)
    ensures
        r@ == v@,
{
    let r = v.clone();
    assert(r@ =~= v@);
    r
}

impl Clone for Action {
    fn clone(&self) -> (res: Self)
        ensures
            res@ == self@,
        decreases self,
    {
        match self {
            Action::AddFeature { id, data } => Action::AddFeature { id: *id, data: copy_bytes(data) },
            Action::RemoveFeature { id } => Action::RemoveFeature { id: *id },
            Action::ModifyFeature { id, data } => Action::ModifyFeature {
                id: *id,
                data: copy_bytes(data),
            },
            Action::MoveFeature { id, new_parent, new_index } => Action::MoveFeature {
                id: *id,
                new_parent: *new_parent,
                new_index: *new_index,
            },
            Action::SetSuppressed { id, suppressed } => Action::SetSuppressed {
                id: *id,
                suppressed: *suppressed,
            },
            Action::SetParameter { name, value } => Action::SetParameter {
                name: name.clone(),
                value: copy_bytes(value),
            },
            Action::RemoveParameter { name } => Action::RemoveParameter { name: name.clone() },
            Action::RenameFeature { id, name } => Action::RenameFeature { id: *id, name: name.clone() },
            Action::SetMetadata { key, value } => Action::SetMetadata {
                key: key.clone(),
                value: value.clone(),
            },
            Action::Batch { actions } => {
                let mut out: Vec<Action> = Vec::new();
                let mut i: usize = 0;
                while i < actions.len()
                    invariant
                        i <= actions@.len(),
                        out@.len() == i,
                        *self == (Action::Batch { actions: *actions }),
                        forall|k: int| 0 <= k < i ==> (#[trigger] out@[k])@ == actions@[k]@,
                    decreases actions@.len() - i,
                {
                    proof {
                        assert(decreases_to!(*self => self->Batch_actions));
                        assert(decreases_to!(*actions => actions@));
                        assert(decreases_to!(actions@ => actions@[i as int]));
                    }
                    let c = actions[i].clone();
                    out.push(c);
                    i = i + 1;
                }
                let res = Action::Batch { actions: out };
                proof {
                    lemma_views_of(out@);
                    lemma_views_of(actions@);
                    assert(views_of(out@) =~= views_of(actions@));
                }
                res
            },
        }
    }
}

/// A reversible command: an action and the action that undoes it.
#[derive(Debug)]
pub struct Command {
    /// Forward action.
    pub action: Action,
    /// Reverse action, executed on undo.
    pub reverse: Action,
}

/// The mathematical value of a [`Command`].
#[verifier::ext_equal]
pub struct CommandView {
    pub action: ActionView,
    pub reverse: ActionView,
}

impl View for Command {
    type V = CommandView;

    open spec fn view(&self) -> CommandView {
        CommandView { action: self.action@, reverse: self.reverse@ }
    }
}

impl Clone for Command {
    fn clone(&self) -> (res: Self)
        ensures
            res@ == self@,
    {
        Command { action: self.action.clone(), reverse: self.reverse.clone() }
    }
}

impl Command {
    /// A command from an action and its reverse.
    pub fn new(action: Action, reverse: Action) -> (c: Command)
        ensures
            c.action == action,
            c.reverse == reverse,
    {
        Command { action, reverse }
    }

    /// Adding a feature; undone by removing it.
    pub fn add_feature(feature_id: FeatureId, feature_data: Vec<u8>) -> (c: Command)
        ensures
            c@.action == (ActionView::AddFeature { id: feature_id, data: feature_data@ }),
            c@.reverse == (ActionView::RemoveFeature { id: feature_id }),
    {
        Command {
            action: Action::AddFeature { id: feature_id, data: copy_bytes(&feature_data) },
            reverse: Action::RemoveFeature { id: feature_id },
        }
    }

    /// Removing a feature; undone by adding it back with its data.
    pub fn remove_feature(feature_id: FeatureId, feature_data: Vec<u8>) -> (c: Command)
        ensures
            c@.action == (ActionView::RemoveFeature { id: feature_id }),
            c@.reverse == (ActionView::AddFeature { id: feature_id, data: feature_data@ }),
    {
        Command {
            action: Action::RemoveFeature { id: feature_id },
            reverse: Action::AddFeature { id: feature_id, data: feature_data },
        }
    }

    /// Replacing a feature's data; undone by restoring the old data.
    pub fn modify_feature(feature_id: FeatureId, old_data: Vec<u8>, new_data: Vec<u8>) -> (c: Command)
        ensures
            c@.action == (ActionView::ModifyFeature { id: feature_id, data: new_data@ }),
            c@.reverse == (ActionView::ModifyFeature { id: feature_id, data: old_data@ }),
    {
        Command {
            action: Action::ModifyFeature { id: feature_id, data: new_data },
            reverse: Action::ModifyFeature { id: feature_id, data: old_data },
        }
    }

    /// Setting a document parameter; undone by restoring the old value, or by
    /// removing the parameter when it had none.
    pub fn set_parameter(name: String, old_value: Option<Vec<u8>>, new_value: Vec<u8>) -> (c: Command)
        ensures
            c@.action == (ActionView::SetParameter { name: name@, value: new_value@ }),
            c@.reverse == (match old_value {
                Some(data) => ActionView::SetParameter { name: name@, value: data@ },
                None => ActionView::RemoveParameter { name: name@ },
            }),
    {
        let reverse = match old_value {
            Some(data) => Action::SetParameter { name: name.clone(), value: data },
            None => Action::RemoveParameter { name: name.clone() },
        };
        Command { action: Action::SetParameter { name, value: new_value }, reverse }
    }
}

/// The values of a sequence of commands.
pub open spec fn command_views(s: Seq<Command>) -> Seq<CommandView> {
    s.map_values(|c: Command| c@)
}

/// A named group of commands that is undone and redone as one step.
#[derive(Debug)]
pub struct Transaction {
    /// Human-readable name.
    pub name: String,
    /// Commands in execution order.
    pub commands: Vec<Command>,
}

/// The mathematical value of a [`Transaction`].
#[verifier::ext_equal]
pub struct TransactionView {
    pub name: Seq<char>,
    pub commands: Seq<CommandView>,
}

impl View for Transaction {
    type V = TransactionView;

    open spec fn view(&self) -> TransactionView {
        TransactionView { name: self.name@, commands: command_views(self.commands@) }
    }
}

impl Clone for Transaction {
    fn clone(&self) -> (res: Self)
        ensures
            res@ == self@,
    {
        let mut commands: Vec<Command> = Vec::new();
        let mut i: usize = 0;
        while i < self.commands.len()
            invariant
                i <= self.commands@.len(),
                commands@.len() == i,
                forall|k: int| 0 <= k < i ==> (#[trigger] commands@[k])@ == self.commands@[k]@,
            decreases self.commands@.len() - i,
        {
            commands.push(self.commands[i].clone());
            i = i + 1;
        }
        let res = Transaction { name: self.name.clone(), commands };
        assert(command_views(res.commands@) =~= command_views(self.commands@));
        res
    }
}

impl Transaction {
    /// An empty transaction with the given name.
    pub fn new(name: &str) -> (t: Transaction)
        ensures
            t@.name == name@,
            t@.commands == Seq::<CommandView>::empty(),
    {
        let t = Transaction { name: String::from_str(name), commands: Vec::new() };
        assert(t@.commands =~= Seq::<CommandView>::empty());
        t
    }

    /// Appends a command.
    pub fn add_command(&mut self, command: Command)
        ensures
            final(self)@.name == old(self)@.name,
            final(self)@.commands == old(self)@.commands.push(command@),
    {
        self.commands.push(command);
        assert(final(self)@.commands =~= old(self)@.commands.push(command@));
    }

    /// Whether the transaction holds no command.
    pub fn is_empty(&self) -> (b: bool)
        ensures
            b == (self@.commands.len() == 0),
    {
        self.commands.len() == 0
    }
}

/// A committed transaction together with its number.
#[derive(Debug)]
pub struct HistoryEntry {
    /// Unique number of this entry.
    pub id: u64,
    /// The transaction.
    pub transaction: Transaction,
}

/// The mathematical value of a [`HistoryEntry`].
#[verifier::ext_equal]
pub struct EntryView {
    pub id: u64,
    pub transaction: TransactionView,
}

impl View for HistoryEntry {
    type V = EntryView;

    open spec fn view(&self) -> EntryView {
        EntryView { id: self.id, transaction: self.transaction@ }
    }
}

impl Clone for HistoryEntry {
    fn clone(&self) -> (res: Self)
        ensures
            res@ == self@,
    {
        HistoryEntry { id: self.id, transaction: self.transaction.clone() }
    }
}

/// The values of a sequence of entries.
pub open spec fn entry_views(s: Seq<HistoryEntry>) -> Seq<EntryView> {
    s.map_values(|e: HistoryEntry| e@)
}

/// The mathematical state of a [`History`].
#[verifier::ext_equal]
pub struct HistoryView {
    /// Undo stack, oldest first; its last element is undone next.
    pub undo: Seq<EntryView>,
    /// Redo stack; its last element is redone next.
    pub redo: Seq<EntryView>,
    /// Whether a transaction is open.
    pub in_transaction: bool,
    /// The transaction being built, if any.
    pub current: Option<TransactionView>,
    /// Number given to the last committed transaction.
    pub counter: u64,
}

/// The undo stack after pushing `e` and dropping the oldest entries beyond the limit.
pub open spec fn push_trimmed(undo: Seq<EntryView>, e: EntryView) -> Seq<EntryView> {
    let pushed = undo.push(e);
    if pushed.len() > MAX_HISTORY_SIZE {
        pushed.subrange(pushed.len() - MAX_HISTORY_SIZE, pushed.len() as int)
    } else {
        pushed
    }
}

impl HistoryView {
    /// The empty history.
    pub open spec fn empty() -> HistoryView {
        HistoryView {
            undo: Seq::empty(),
            redo: Seq::empty(),
            in_transaction: false,
            current: None,
            counter: 0,
        }
    }

    /// Whether committing now would record an entry (an open, non-empty transaction).
    pub open spec fn commit_records(self) -> bool {
        self.current is Some && self.current->0.commands.len() > 0
    }

    /// The state after opening a transaction named `name`; an open transaction
    /// absorbs a nested one.
    pub open spec fn after_begin(self, name: Seq<char>) -> HistoryView {
        if self.in_transaction {
            self
        } else {
            HistoryView {
                in_transaction: true,
                current: Some(TransactionView { name, commands: Seq::empty() }),
                ..self
            }
        }
    }

    /// The state after committing: a non-empty open transaction becomes the newest
    /// undo entry with the next number and the redo stack is emptied; either way
    /// no transaction remains open.
    pub open spec fn after_commit(self) -> HistoryView {
        if self.commit_records() {
            HistoryView {
                undo: push_trimmed(
                    self.undo,
                    EntryView { id: (self.counter + 1) as u64, transaction: self.current->0 },
                ),
                redo: Seq::empty(),
                in_transaction: false,
                current: None,
                counter: (self.counter + 1) as u64,
            }
        } else {
            HistoryView { in_transaction: false, current: None, ..self }
        }
    }

    /// The state after adding a command: it joins the open transaction, or else it
    /// is committed at once in a transaction named "Auto".
    pub open spec fn after_add(self, c: CommandView) -> HistoryView {
        match self.current {
            Some(t) => HistoryView {
                current: Some(TransactionView { name: t.name, commands: t.commands.push(c) }),
                ..self
            },
            None => HistoryView {
                in_transaction: true,
                current: Some(TransactionView { name: auto_name(), commands: seq![c] }),
                ..self
            }.after_commit(),
        }
    }

    /// The state after discarding the open transaction.
    pub open spec fn after_cancel(self) -> HistoryView {
        HistoryView { in_transaction: false, current: None, ..self }
    }

    /// The state after undoing: the newest undo entry moves to the redo stack.
    pub open spec fn after_undo(self) -> HistoryView {
        if self.undo.len() == 0 {
            self
        } else {
            HistoryView { undo: self.undo.drop_last(), redo: self.redo.push(self.undo.last()), ..self }
        }
    }

    /// The state after redoing: the newest redo entry moves back to the undo stack.
    pub open spec fn after_redo(self) -> HistoryView {
        if self.redo.len() == 0 {
            self
        } else {
            HistoryView { redo: self.redo.drop_last(), undo: self.undo.push(self.redo.last()), ..self }
        }
    }

    /// Well-formedness: at most `MAX_HISTORY_SIZE` undo and redo steps together, a transaction is open
    /// exactly when one is being built, and the entry numbers increase from the
    /// oldest undo entry to the top of the undo stack and on through the redo
    /// stack from its top down, never beyond the counter.
    pub open spec fn wf(self) -> bool {
        &&& self.undo.len() + self.redo.len() <= MAX_HISTORY_SIZE
        &&& self.in_transaction == (self.current is Some)
        &&& forall|i: int, j: int| 0 <= i < j < self.undo.len() ==> self.undo[i].id < self.undo[j].id
        &&& forall|i: int, j: int| 0 <= i < j < self.redo.len() ==> self.redo[j].id < self.redo[i].id
        &&& forall|i: int, j: int|
            0 <= i < self.undo.len() && 0 <= j < self.redo.len() ==> self.undo[i].id < self.redo[j].id
        &&& forall|i: int| 0 <= i < self.undo.len() ==> self.undo[i].id <= self.counter
        &&& forall|j: int| 0 <= j < self.redo.len() ==> self.redo[j].id <= self.counter
    }

    /// Undoing keeps the history well formed.
    pub proof fn lemma_undo_keeps_wf(self)
        requires
            self.wf(),
        ensures
            self.after_undo().wf(),
    {
        let v = self.after_undo();
        if self.undo.len() > 0 {
            let top = self.undo.len() - 1;
            assert forall|i: int, j: int| 0 <= i < j < v.redo.len() implies v.redo[j].id
                < v.redo[i].id by {
                if j == v.redo.len() - 1 {
                    assert(self.undo[top].id < self.redo[i].id);
                }
            }
            assert forall|i: int, j: int|
                0 <= i < v.undo.len() && 0 <= j < v.redo.len() implies v.undo[i].id
                < v.redo[j].id by {
                if j == v.redo.len() - 1 {
                    assert(self.undo[i].id < self.undo[top].id);
                } else {
                    assert(self.undo[i].id < self.redo[j].id);
                }
            }
        }
    }

    /// Redoing keeps the history well formed.
    pub proof fn lemma_redo_keeps_wf(self)
        requires
            self.wf(),
        ensures
            self.after_redo().wf(),
    {
        let v = self.after_redo();
        if self.redo.len() > 0 {
            let top = self.redo.len() - 1;
            assert forall|i: int, j: int| 0 <= i < j < v.undo.len() implies v.undo[i].id
                < v.undo[j].id by {
                if j == v.undo.len() - 1 {
                    assert(self.undo[i].id < self.redo[top].id);
                } else {
                    assert(self.undo[i].id < self.undo[j].id);
                }
            }
            assert forall|i: int, j: int|
                0 <= i < v.undo.len() && 0 <= j < v.redo.len() implies v.undo[i].id
                < v.redo[j].id by {
                if i == v.undo.len() - 1 {
                    assert(self.redo[top].id < self.redo[j].id);
                } else {
                    assert(self.undo[i].id < self.redo[j].id);
                }
            }
        }
    }

    /// Committing keeps the history well formed.
    pub proof fn lemma_commit_keeps_wf(self)
        requires
            self.wf(),
            self.commit_records() ==> self.counter < u64::MAX,
        ensures
            self.after_commit().wf(),
    {
        let v = self.after_commit();
        if self.commit_records() {
            let e = EntryView { id: (self.counter + 1) as u64, transaction: self.current->0 };
            let pushed = self.undo.push(e);
            assert forall|i: int, j: int| 0 <= i < j < pushed.len() implies pushed[i].id
                < pushed[j].id by {
                if j == pushed.len() - 1 {
                    assert(self.undo[i].id <= self.counter);
                }
            }
            assert forall|i: int| 0 <= i < pushed.len() implies pushed[i].id <= v.counter by {
                if i < self.undo.len() {
                    assert(self.undo[i].id <= self.counter);
                }
            }
        }
    }
}

/// The name of the transaction that wraps a command added outside any transaction.
pub open spec fn auto_name() -> Seq<char> {
    seq!['A', 'u', 't', 'o']
}

/// Undo/redo history manager.
#[derive(Debug)]
pub struct History {
    undo_stack: VecDeque<HistoryEntry>,
    redo_stack: Vec<HistoryEntry>,
    in_transaction: bool,
    current_transaction: Option<Transaction>,
    entry_counter: u64,
}

impl View for History {
    type V = HistoryView;

    closed spec fn view(&self) -> HistoryView {
        HistoryView {
            undo: entry_views(self.undo_stack@),
            redo: entry_views(self.redo_stack@),
            in_transaction: self.in_transaction,
            current: match self.current_transaction {
                Some(t) => Some(t@),
                None => None,
            },
            counter: self.entry_counter,
        }
    }
}

impl History {
    /// An empty history.
    pub fn new() -> (h: History)
        ensures
            h@ == HistoryView::empty(),
            h@.wf(),
    {
        let h = History {
            undo_stack: VecDeque::new(),
            redo_stack: Vec::new(),
            in_transaction: false,
            current_transaction: None,
            entry_counter: 0,
        };
        assert(h@.undo =~= Seq::<EntryView>::empty());
        assert(h@.redo =~= Seq::<EntryView>::empty());
        h
    }

    /// Opens a transaction named `name`. While one is open, this does nothing:
    /// nested transactions are merged into the outer one.
    pub fn begin_transaction(&mut self, name: &str)
        requires
            old(self)@.wf(),
        ensures
            final(self)@ == old(self)@.after_begin(name@),
            final(self)@.wf(),
    {
        if self.in_transaction {
            return;
        }
        self.in_transaction = true;
        self.current_transaction = Some(Transaction { name: String::from_str(name), commands: Vec::new() });
        assert(command_views(Seq::<Command>::empty()) =~= Seq::<CommandView>::empty());
    }

    /// Adds a command to the open transaction; with none open, the command is
    /// committed at once as a transaction of its own named "Auto".
    pub fn add_command(&mut self, command: Command)
        requires
            old(self)@.wf(),
            old(self)@.current is None ==> old(self)@.counter < u64::MAX,
        ensures
            final(self)@ == old(self)@.after_add(command@),
            final(self)@.wf(),
    {
        match self.current_transaction.take() {
            Some(mut transaction) => {
                proof {
                    assert(command_views(transaction.commands@.push(command)) =~= command_views(
                        transaction.commands@,
                    ).push(command@));
                }
                transaction.commands.push(command);
                self.current_transaction = Some(transaction);
                assert(self@ =~= old(self)@.after_add(command@));
            },
            None => {
                self.begin_transaction("Auto");
                proof {
                    reveal_strlit("Auto");
                }
                let ghost cv = command@;
                match self.current_transaction.take() {
                    Some(mut transaction) => {
                        proof {
                            assert(command_views(transaction.commands@.push(command)) =~= seq![cv]);
                        }
                        transaction.commands.push(command);
                        self.current_transaction = Some(transaction);
                    },
                    None => {},
                }
                assert(self@ =~= (HistoryView {
                    in_transaction: true,
                    current: Some(TransactionView { name: auto_name(), commands: seq![cv] }),
                    ..old(self)@
                }));
                self.commit_transaction();
            },
        }
    }

    /// Commits the open transaction. A non-empty one becomes the newest undo entry,
    /// with the next number; the redo stack is then cleared and the oldest entries
    /// beyond `MAX_HISTORY_SIZE` are dropped. No transaction is open afterwards.
    pub fn commit_transaction(&mut self)
        requires
            old(self)@.wf(),
            old(self)@.commit_records() ==> old(self)@.counter < u64::MAX,
        ensures
            final(self)@ == old(self)@.after_commit(),
            final(self)@.wf(),
    {
        let ghost old_view = self@;
        match self.current_transaction.take() {
            Some(transaction) => {
                if transaction.commands.len() > 0 {
                    self.entry_counter = self.entry_counter + 1;
                    let entry = HistoryEntry { id: self.entry_counter, transaction };
                    let ghost ev = entry@;
                    let ghost before = self.undo_stack@;
                    self.undo_stack.push_back(entry);
                    self.redo_stack.clear();
                    let ghost pushed = self.undo_stack@;
                    proof {
                        assert(entry_views(pushed) =~= entry_views(before).push(ev));
                        assert(entry_views(self.redo_stack@) =~= Seq::<EntryView>::empty());
                    }
                    let ghost redo_snap = self.redo_stack@;
                    let ghost counter_snap = self.entry_counter;
                    let ghost mut k: int = 0;
                    while self.undo_stack.len() > MAX_HISTORY_SIZE
                        invariant
                            0 <= k <= pushed.len(),
                            pushed.len() <= MAX_HISTORY_SIZE + 1,
                            k == 0 || pushed.len() - k >= MAX_HISTORY_SIZE,
                            self.undo_stack@ == pushed.subrange(k, pushed.len() as int),
                            self.redo_stack@ == redo_snap,
                            self.entry_counter == counter_snap,
                            self.current_transaction is None,
                        decreases self.undo_stack@.len(),
                    {
                        self.undo_stack.pop_front();
                        proof {
                            k = k + 1;
                        }
                    }
                    proof {
                        assert(entry_views(self.undo_stack@) =~= push_trimmed(old_view.undo, ev));
                        old_view.lemma_commit_keeps_wf();
                    }
                }
            },
            None => {},
        }
        self.in_transaction = false;
    }

    /// Discards the open transaction.
    pub fn cancel_transaction(&mut self)
        requires
            old(self)@.wf(),
        ensures
            final(self)@ == old(self)@.after_cancel(),
            final(self)@.wf(),
    {
        self.current_transaction = None;
        self.in_transaction = false;
    }

    /// Whether there is a step to undo.
    pub fn can_undo(&self) -> (b: bool)
        ensures
            b == (self@.undo.len() > 0),
    {
        self.undo_stack.len() > 0
    }

    /// Whether there is a step to redo.
    pub fn can_redo(&self) -> (b: bool)
        ensures
            b == (self@.redo.len() > 0),
    {
        self.redo_stack.len() > 0
    }

    /// The name of the step that would be undone next.
    pub fn undo_name(&self) -> (r: Option<&str>)
        ensures
            r is Some == (self@.undo.len() > 0),
            r is Some ==> r->0@ == self@.undo.last().transaction.name,
    {
        let n = self.undo_stack.len();
        if n > 0 {
            Some(self.undo_stack[n - 1].transaction.name.as_str())
        } else {
            None
        }
    }

    /// The name of the step that would be redone next.
    pub fn redo_name(&self) -> (r: Option<&str>)
        ensures
            r is Some == (self@.redo.len() > 0),
            r is Some ==> r->0@ == self@.redo.last().transaction.name,
    {
        let n = self.redo_stack.len();
        if n > 0 {
            Some(self.redo_stack[n - 1].transaction.name.as_str())
        } else {
            None
        }
    }

    /// Takes the newest undo step, moves it to the redo stack and returns its
    /// transaction, whose reverse actions the caller executes.
    pub fn pop_undo(&mut self) -> (r: Option<Transaction>)
        requires
            old(self)@.wf(),
        ensures
            final(self)@ == old(self)@.after_undo(),
            final(self)@.wf(),
            r is Some == (old(self)@.undo.len() > 0),
            r is Some ==> r->0@ == old(self)@.undo.last().transaction,
    {
        let ghost old_view = self@;
        match self.undo_stack.pop_back() {
            Some(entry) => {
                let copy = entry.clone();
                self.redo_stack.push(copy);
                proof {
                    assert(entry_views(self.undo_stack@) =~= old_view.undo.drop_last());
                    assert(entry_views(self.redo_stack@) =~= old_view.redo.push(old_view.undo.last()));
                    old_view.lemma_undo_keeps_wf();
                }
                Some(entry.transaction)
            },
            None => None,
        }
    }

    /// Takes the newest redo step, moves it back to the undo stack and returns its
    /// transaction, whose forward actions the caller executes.
    pub fn pop_redo(&mut self) -> (r: Option<Transaction>)
        requires
            old(self)@.wf(),
        ensures
            final(self)@ == old(self)@.after_redo(),
            final(self)@.wf(),
            r is Some == (old(self)@.redo.len() > 0),
            r is Some ==> r->0@ == old(self)@.redo.last().transaction,
    {
        let ghost old_view = self@;
        match self.redo_stack.pop() {
            Some(entry) => {
                let copy = entry.clone();
                self.undo_stack.push_back(copy);
                proof {
                    assert(entry_views(self.redo_stack@) =~= old_view.redo.drop_last());
                    assert(entry_views(self.undo_stack@) =~= old_view.undo.push(old_view.redo.last()));
                    old_view.lemma_redo_keeps_wf();
                }
                Some(entry.transaction)
            },
            None => None,
        }
    }

    /// Number of steps that can be undone.
    pub fn undo_count(&self) -> (n: usize)
        ensures
            n == self@.undo.len(),
    {
        self.undo_stack.len()
    }

    /// Number of steps that can be redone.
    pub fn redo_count(&self) -> (n: usize)
        ensures
            n == self@.redo.len(),
    {
        self.redo_stack.len()
    }

    /// Forgets every step and the open transaction; the entry numbering goes on.
    pub fn clear(&mut self)
        requires
            old(self)@.wf(),
        ensures
            final(self)@ == (HistoryView { counter: old(self)@.counter, ..HistoryView::empty() }),
            final(self)@.wf(),
    {
        self.undo_stack.clear();
        self.redo_stack.clear();
        self.current_transaction = None;
        self.in_transaction = false;
        assert(entry_views(self.undo_stack@) =~= Seq::<EntryView>::empty());
        assert(entry_views(self.redo_stack@) =~= Seq::<EntryView>::empty());
    }

    /// Copies of the undo entries, the one undone next first.
    pub fn undo_entries(&self) -> (r: Vec<HistoryEntry>)
        ensures
            entry_views(r@) == self@.undo.reverse(),
    {
        let mut r: Vec<HistoryEntry> = Vec::new();
        let n = self.undo_stack.len();
        let mut i: usize = 0;
        while i < n
            invariant
                n == self.undo_stack@.len(),
                i <= n,
                r@.len() == i,
                forall|k: int| 0 <= k < i ==> (#[trigger] r@[k])@ == self.undo_stack@[n - 1 - k]@,
            decreases n - i,
        {
            r.push(self.undo_stack[n - 1 - i].clone());
            i = i + 1;
        }
        assert(entry_views(r@) =~= self@.undo.reverse());
        r
    }

    /// Copies of the redo entries, the one redone next first.
    pub fn redo_entries(&self) -> (r: Vec<HistoryEntry>)
        ensures
            entry_views(r@) == self@.redo.reverse(),
    {
        let mut r: Vec<HistoryEntry> = Vec::new();
        let n = self.redo_stack.len();
        let mut i: usize = 0;
        while i < n
            invariant
                n == self.redo_stack@.len(),
                i <= n,
                r@.len() == i,
                forall|k: int| 0 <= k < i ==> (#[trigger] r@[k])@ == self.redo_stack@[n - 1 - k]@,
            decreases n - i,
        {
            r.push(self.redo_stack[n - 1 - i].clone());
            i = i + 1;
        }
        assert(entry_views(r@) =~= self@.redo.reverse());
        r
    }
}

/// Undoing a step and then redoing it gives back the same history.
pub proof fn law_undo_then_redo(h: HistoryView)
    requires
        h.wf(),
        h.undo.len() > 0,
    ensures
        h.after_undo().after_redo() == h,
{
    assert(h.after_undo().after_redo().undo =~= h.undo);
    assert(h.after_undo().after_redo().redo =~= h.redo);
}

/// Redoing a step and then undoing it gives back the same history.
pub proof fn law_redo_then_undo(h: HistoryView)
    requires
        h.wf(),
        h.redo.len() > 0,
    ensures
        h.after_redo().after_undo() == h,
{
    assert(h.after_redo().after_undo().undo =~= h.undo);
    assert(h.after_redo().after_undo().redo =~= h.redo);
}

/// Undo and redo move steps between the two stacks: their total never changes.
pub proof fn law_undo_redo_keep_step_count(h: HistoryView)
    requires
        h.wf(),
    ensures
        h.after_undo().undo.len() + h.after_undo().redo.len() == h.undo.len() + h.redo.len(),
        h.after_redo().undo.len() + h.after_redo().redo.len() == h.undo.len() + h.redo.len(),
{
}

/// Committing a non-empty transaction makes it the step undone next, numbers it
/// after every earlier step, and leaves nothing to redo.
pub proof fn law_commit_records_transaction(h: HistoryView)
    requires
        h.wf(),
        h.commit_records(),
        h.counter < u64::MAX,
    ensures
        h.after_commit().redo.len() == 0,
        h.after_commit().undo.len() > 0,
        h.after_commit().undo.last().transaction == h.current->0,
        h.after_commit().undo.last().id == h.counter + 1,
        h.undo.len() < MAX_HISTORY_SIZE ==> h.after_commit().undo.len() == h.undo.len() + 1,
        h.undo.len() == MAX_HISTORY_SIZE ==> h.after_commit().undo.len() == MAX_HISTORY_SIZE,
        h.undo.len() == MAX_HISTORY_SIZE ==> h.after_commit().undo == h.undo.skip(1).push(
            EntryView { id: (h.counter + 1) as u64, transaction: h.current->0 },
        ),
        !h.after_commit().in_transaction,
        h.after_commit().current is None,
{
    if h.undo.len() == MAX_HISTORY_SIZE {
        let e = EntryView { id: (h.counter + 1) as u64, transaction: h.current->0 };
        assert(h.undo.push(e).subrange(1, MAX_HISTORY_SIZE + 1) =~= h.undo.skip(1).push(e));
    }
}

/// Committing with no transaction open, or an empty one, records nothing.
pub proof fn law_empty_commit_records_nothing(h: HistoryView)
    requires
        h.wf(),
        !h.commit_records(),
    ensures
        h.after_commit().undo == h.undo,
        h.after_commit().redo == h.redo,
        h.after_commit().counter == h.counter,
{
}

/// Opening a transaction and cancelling it leaves the history as it was.
pub proof fn law_begin_then_cancel(h: HistoryView, name: Seq<char>)
    requires
        h.wf(),
        !h.in_transaction,
    ensures
        h.after_begin(name).after_cancel() == h,
{
}

/// A transaction opened inside another one is merged into it.
pub proof fn law_nested_begin_is_merged(h: HistoryView, name: Seq<char>)
    requires
        h.wf(),
        h.in_transaction,
    ensures
        h.after_begin(name) == h,
{
}

/// In a well-formed history no two recorded steps share a number.
pub proof fn law_entry_ids_distinct(h: HistoryView)
    requires
        h.wf(),
    ensures
        forall|i: int, j: int| 0 <= i < j < h.undo.len() ==> h.undo[i].id != h.undo[j].id,
        forall|i: int, j: int| 0 <= i < j < h.redo.len() ==> h.redo[i].id != h.redo[j].id,
        forall|i: int, j: int|
            0 <= i < h.undo.len() && 0 <= j < h.redo.len() ==> h.undo[i].id != h.redo[j].id,
{
}

/// Every operation keeps the history well formed, so at most `MAX_HISTORY_SIZE`
/// steps are ever kept.
pub proof fn law_operations_keep_wf(h: HistoryView, name: Seq<char>, c: CommandView)
    requires
        h.wf(),
        h.counter < u64::MAX,
    ensures
        h.after_begin(name).wf(),
        h.after_add(c).wf(),
        h.after_commit().wf(),
        h.after_cancel().wf(),
        h.after_undo().wf(),
        h.after_redo().wf(),
        h.after_undo().undo.len() <= MAX_HISTORY_SIZE,
{
    h.lemma_undo_keeps_wf();
    h.lemma_redo_keeps_wf();
    h.lemma_commit_keeps_wf();
    match h.current {
        Some(t) => {},
        None => {
            let opened = HistoryView {
                in_transaction: true,
                current: Some(TransactionView { name: auto_name(), commands: seq![c] }),
                ..h
            };
            opened.lemma_commit_keeps_wf();
        },
    }
}

/// One operation on a history.
pub enum HistoryStep {
    Begin(Seq<char>),
    Add(CommandView),
    Commit,
    Cancel,
    Undo,
    Redo,
}

impl HistoryView {
    /// The state after one operation.
    pub open spec fn after_step(self, s: HistoryStep) -> HistoryView {
        match s {
            HistoryStep::Begin(name) => self.after_begin(name),
            HistoryStep::Add(c) => self.after_add(c),
            HistoryStep::Commit => self.after_commit(),
            HistoryStep::Cancel => self.after_cancel(),
            HistoryStep::Undo => self.after_undo(),
            HistoryStep::Redo => self.after_redo(),
        }
    }
}

/// The history reached from a new one by the operations `steps`, in order.
pub open spec fn history_after(steps: Seq<HistoryStep>) -> HistoryView
    decreases steps.len(),
{
    if steps.len() == 0 {
        HistoryView::empty()
    } else {
        history_after(steps.drop_last()).after_step(steps.last())
    }
}

/// At most `MAX_HISTORY_SIZE` entries on the undo and redo stacks together, and
/// a transaction is open exactly when one is being built.
pub open spec fn bounded(h: HistoryView) -> bool {
    &&& h.undo.len() + h.redo.len() <= MAX_HISTORY_SIZE
    &&& h.in_transaction == (h.current is Some)
}

/// Every operation keeps a history bounded, whatever its entry counter.
pub proof fn lemma_step_keeps_bounded(h: HistoryView, s: HistoryStep)
    requires
        bounded(h),
    ensures
        bounded(h.after_step(s)),
{
}

/// Whatever operations a new history goes through, it holds at most
/// `MAX_HISTORY_SIZE` entries on its undo and redo stacks together. While the
/// entry counter has not reached its machine limit (fewer than `u64::MAX`
/// operations), the history is moreover well formed and each operation raises
/// the counter by at most one.
pub proof fn law_reachable_history_bounded(steps: Seq<HistoryStep>)
    ensures
        history_after(steps).undo.len() + history_after(steps).redo.len() <= MAX_HISTORY_SIZE,
        bounded(history_after(steps)),
        steps.len() < u64::MAX ==> history_after(steps).wf(),
        steps.len() < u64::MAX ==> history_after(steps).counter <= steps.len(),
    decreases steps.len(),
{
    if steps.len() > 0 {
        let rest = steps.drop_last();
        law_reachable_history_bounded(rest);
        let h = history_after(rest);
        lemma_step_keeps_bounded(h, steps.last());
        if steps.len() < u64::MAX {
            match steps.last() {
                HistoryStep::Begin(name) => {
                    law_operations_keep_wf(h, name, CommandView { action: ActionView::RemoveFeature { id: FeatureId(0) }, reverse: ActionView::RemoveFeature { id: FeatureId(0) } });
                },
                HistoryStep::Add(c) => {
                    law_operations_keep_wf(h, seq![], c);
                },
                _ => {
                    law_operations_keep_wf(h, seq![], CommandView { action: ActionView::RemoveFeature { id: FeatureId(0) }, reverse: ActionView::RemoveFeature { id: FeatureId(0) } });
                },
            }
        }
    }
}

/// A stored snapshot of a whole document.
#[derive(Debug)]
pub struct DocumentMemento {
    /// Serialized document state.
    pub data: Vec<u8>,
    /// Creation time, in seconds since the Unix epoch.
    pub timestamp: u64,
    /// Description of the state.
    pub description: String,
}

impl DocumentMemento {
    /// A snapshot of `data` stamped with the current time.
    pub fn new(data: Vec<u8>, description: &str) -> (m: DocumentMemento)
        ensures
            m.data@ == data@,
            m.description@ == description@,
    {
        let timestamp = crate::clock::unix_timestamp();
        DocumentMemento::with_timestamp(data, description, timestamp)
    }

    /// A snapshot of `data` stamped with the given time.
    pub fn with_timestamp(data: Vec<u8>, description: &str, timestamp: u64) -> (m: DocumentMemento)
        ensures
            m.data == data,
            m.description@ == description@,
            m.timestamp == timestamp,
    {
        DocumentMemento { data, timestamp, description: String::from_str(description) }
    }
}

} // verus!
