//! The commands of the tool and the course of one run.
//!
//! A run loads the store, drops what has expired, saves, carries out one
//! command, and saves again. A command that names several paths or entries
//! is carried out item by item; an item that fails does not keep the others
//! from being tried.

use vstd::prelude::*;

verus! {

/// The retention period, in days, of a deletion that names none.
pub const DEFAULT_EXPIRE_DAYS: i64 = 7;

/// A command as the user gives it.
#[derive(Debug)]
pub enum Commands {
    /// Move the given paths to the trash.
    Delete { paths: Vec<String>, expire_days: i64, force: bool },
    /// Bring the named entries back.
    Restore { names: Vec<String>, force: bool },
    /// Show the entries of the trash; only those due for removal if
    /// `expired`.
    List { expired: bool },
    /// Drop expired entries, or all of them if `all`.
    Clean { all: bool },
    /// Show when the named entry expires.
    Expire { name: String },
    /// Empty the trash; `yes` answers the confirmation in advance.
    Empty { yes: bool },
}

/// The texts of a list of strings.
pub open spec fn texts(list: Seq<String>) -> Seq<Seq<char>> {
    Seq::new(list.len(), |i: int| list[i]@)
}

/// The mathematical content of a `Commands`.
pub enum CommandView {
    Delete { paths: Seq<Seq<char>>, expire_days: i64, force: bool },
    Restore { names: Seq<Seq<char>>, force: bool },
    List { expired: bool },
    Clean { all: bool },
    Expire { name: Seq<char> },
    Empty { yes: bool },
}

impl View for Commands {
    type V = CommandView;

    open spec fn view(&self) -> CommandView {
        match self {
            Commands::Delete { paths, expire_days, force } => CommandView::Delete {
                paths: texts(paths@),
                expire_days: *expire_days,
                force: *force,
            },
            Commands::Restore { names, force } => CommandView::Restore {
                names: texts(names@),
                force: *force,
            },
            Commands::List { expired } => CommandView::List { expired: *expired },
            Commands::Clean { all } => CommandView::Clean { all: *all },
            Commands::Expire { name } => CommandView::Expire { name: name@ },
            Commands::Empty { yes } => CommandView::Empty { yes: *yes },
        }
    }
}

/// One step of a run.
#[derive(Debug)]
pub enum Step {
    /// Load the store from the metadata file.
    Load,
    /// Save the store to the metadata file.
    Save,
    /// Drop expired entries, as every run does before its command.
    AutoClean,
    /// Drop expired entries, or all entries if `all`, at the user's request.
    Clean { all: bool },
    /// Move one path to the trash.
    Delete { path: String, expire_days: i64, force: bool },
    /// Bring one entry back.
    Restore { name: String, force: bool },
    /// Show the entries of the trash.
    List { expired: bool },
    /// Show when one entry expires.
    Expire { name: String },
    /// Empty the trash.
    Empty { yes: bool },
}

/// The mathematical content of a `Step`.
pub enum StepView {
    Load,
    Save,
    AutoClean,
    Clean { all: bool },
    Delete { path: Seq<char>, expire_days: i64, force: bool },
    Restore { name: Seq<char>, force: bool },
    List { expired: bool },
    Expire { name: Seq<char> },
    Empty { yes: bool },
}

impl View for Step {
    type V = StepView;

    open spec fn view(&self) -> StepView {
        match self {
            Step::Load => StepView::Load,
            Step::Save => StepView::Save,
            Step::AutoClean => StepView::AutoClean,
            Step::Clean { all } => StepView::Clean { all: *all },
            Step::Delete { path, expire_days, force } => StepView::Delete {
                path: path@,
                expire_days: *expire_days,
                force: *force,
            },
            Step::Restore { name, force } => StepView::Restore { name: name@, force: *force },
            Step::List { expired } => StepView::List { expired: *expired },
            Step::Expire { name } => StepView::Expire { name: name@ },
            Step::Empty { yes } => StepView::Empty { yes: *yes },
        }
    }
}

/// The views of a list of steps.
pub open spec fn steps_view(steps: Seq<Step>) -> Seq<StepView> {
    Seq::new(steps.len(), |i: int| steps[i]@)
}

/// The steps that carry out a command: one per path or entry for a
/// deletion or a restore, in the order given, and a single step otherwise.
pub open spec fn command_steps(command: CommandView) -> Seq<StepView> {
    match command {
        CommandView::Delete { paths, expire_days, force } => Seq::new(
            paths.len(),
            |i: int| StepView::Delete { path: paths[i], expire_days: expire_days, force: force },
        ),
        CommandView::Restore { names, force } => Seq::new(
            names.len(),
            |i: int| StepView::Restore { name: names[i], force: force },
        ),
        CommandView::List { expired } => seq![StepView::List { expired: expired }],
        CommandView::Clean { all } => seq![StepView::Clean { all: all }],
        CommandView::Expire { name } => seq![StepView::Expire { name: name }],
        CommandView::Empty { yes } => seq![StepView::Empty { yes: yes }],
    }
}

/// The course of a whole run for a command: load, drop what has expired,
/// save, carry out the command, save.
pub open spec fn run_steps(command: CommandView) -> Seq<StepView> {
    seq![StepView::Load, StepView::AutoClean, StepView::Save] + command_steps(command) + seq![
        StepView::Save,
    ]
}

impl Commands {
    /// Appends the steps that carry out this command to `steps`.
    fn push_steps(self, steps: &mut Vec<Step>)
        ensures
            steps_view(final(steps)@) == steps_view(old(steps)@) + command_steps(self@),
    {
        broadcast use vstd::std_specs::vec::axiom_spec_into_iter;

        let ghost start = steps_view(steps@);
        match self {
            Commands::Delete { paths, expire_days, force } => {
                let ghost all = texts(paths@);
                let ghost list = paths@;
                for path in it: paths.into_iter()
                    invariant
                        it.seq() == list,
                        all == texts(list),
                        steps_view(steps@) == start + Seq::new(
                            it.index() as nat,
                            |i: int|
                                StepView::Delete {
                                    path: all[i],
                                    expire_days: expire_days,
                                    force: force,
                                },
                        ),
                {
                    let ghost before = steps_view(steps@);
                    steps.push(Step::Delete { path, expire_days, force });
                    assert(steps_view(steps@) =~= before.push(
                        StepView::Delete {
                            path: all[it.index()],
                            expire_days: expire_days,
                            force: force,
                        },
                    ));
                }
            },
            Commands::Restore { names, force } => {
                let ghost all = texts(names@);
                let ghost list = names@;
                for name in it: names.into_iter()
                    invariant
                        it.seq() == list,
                        all == texts(list),
                        steps_view(steps@) == start + Seq::new(
                            it.index() as nat,
                            |i: int| StepView::Restore { name: all[i], force: force },
                        ),
                {
                    let ghost before = steps_view(steps@);
                    steps.push(Step::Restore { name, force });
                    assert(steps_view(steps@) =~= before.push(
                        StepView::Restore { name: all[it.index()], force: force },
                    ));
                }
            },
            Commands::List { expired } => {
                steps.push(Step::List { expired });
                assert(steps_view(steps@) =~= start + seq![StepView::List { expired: expired }]);
            },
            Commands::Clean { all } => {
                steps.push(Step::Clean { all });
                assert(steps_view(steps@) =~= start + seq![StepView::Clean { all: all }]);
            },
            Commands::Expire { name } => {
                let ghost text = name@;
                steps.push(Step::Expire { name });
                assert(steps_view(steps@) =~= start + seq![StepView::Expire { name: text }]);
            },
            Commands::Empty { yes } => {
                steps.push(Step::Empty { yes });
                assert(steps_view(steps@) =~= start + seq![StepView::Empty { yes: yes }]);
            },
        }
    }

    /// Lays out the course of a run for this command.
    pub fn plan(self) -> (steps: Vec<Step>)
        ensures
            steps_view(steps@) == run_steps(self@),
    {
        let mut steps: Vec<Step> = Vec::new();
        steps.push(Step::Load);
        steps.push(Step::AutoClean);
        steps.push(Step::Save);
        assert(steps_view(steps@) =~= seq![StepView::Load, StepView::AutoClean, StepView::Save]);
        let ghost command = self@;
        self.push_steps(&mut steps);
        let ghost before = steps_view(steps@);
        steps.push(Step::Save);
        assert(steps_view(steps@) =~= before + seq![StepView::Save]);
        steps
    }
}

} // verus!
