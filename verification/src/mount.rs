//! The scoped mount guard: the merged view of a basis and a system, mounted
//! for the length of one operation and unmounted when that operation ends.
//!
//! The guard decides and its owner acts. Each [`Action`] is one piece of
//! work on the elevated shell; what came of it goes back into
//! [`MountGuard::step`] as an [`Event`], and the guard answers with the next
//! action. The mount and the later unmount go through the one shell, so
//! that privilege is asked for once.

use vstd::prelude::*;
use crate::channel::{framed, Channel, ChannelView};
use crate::layout::{BasisLayout, SystemLayout};
use crate::quote::{
    first_nul_word, has_nul, lemma_first_nul_word, quote_subcommand, quoted_line, word_views,
    EscapingError,
};
use crate::text::{copy_of, push_all, text_of};

verus! {

/// The option word of the overlay mount: `lower` read-only below, `upper`
/// writable above, `work` as scratch space.
pub open spec fn mount_options(lower: Seq<u8>, upper: Seq<u8>, work: Seq<u8>) -> Seq<u8> {
    text_of("lowerdir=") + lower + text_of(",upperdir=") + upper + text_of(",workdir=") + work
        + text_of(",metacopy=off,index=off")
}

/// The command that mounts the overlay at `at`.
pub open spec fn mount_words(lower: Seq<u8>, upper: Seq<u8>, work: Seq<u8>, at: Seq<u8>) -> Seq<
    Seq<u8>,
> {
    seq![
        text_of("mount"),
        text_of("--types"),
        text_of("overlay"),
        text_of("overlay"),
        text_of("--options"),
        mount_options(lower, upper, work),
        at,
    ]
}

/// The command that unmounts what is mounted at `at`.
pub open spec fn unmount_words(at: Seq<u8>) -> Seq<Seq<u8>> {
    seq![text_of("umount"), at]
}

/// Why no merged view could be had.
#[derive(Debug, Clone, Copy, PartialEq, Eq)]
pub enum MountError {
    /// A path cannot be written on a shell command line.
    Escaping(EscapingError),
    /// The elevated shell could not be started.
    SpawnFailed,
    /// The acknowledgment pipe closed, or the shell was gone, before the
    /// mount was acknowledged. Whether the mount took place is not known.
    ChannelBroken,
    /// The shell stopped on the mount statement and reported failure.
    MountFailed,
}

/// What went wrong while a guard was released. None of it is an error of
/// the operation that the guard served.
#[derive(Debug, Clone, Copy, PartialEq, Eq)]
pub struct ReleaseReport {
    /// The unmount was not acknowledged.
    pub unmount_unconfirmed: bool,
    /// The elevated shell ended with a failure status.
    pub exit_failure: bool,
    /// The end of the elevated shell could not be awaited.
    pub wait_failed: bool,
}

/// One thing that went wrong while a guard was released.
#[derive(Debug, Clone, Copy, PartialEq, Eq)]
pub enum Warning {
    /// The unmount was not acknowledged.
    UnmountUnconfirmed,
    /// The elevated shell ended with a failure status.
    ExitFailure,
    /// The end of the elevated shell could not be awaited.
    WaitFailed,
}

/// How far a guard has come.
#[derive(Debug, Clone, Copy, PartialEq, Eq)]
pub enum Stage {
    /// The elevated shell is to be started.
    Starting,
    /// The mount statement was sent and awaits its acknowledgment.
    Mounting,
    /// The pipe closed on the mount statement; the shell's exit status will
    /// say why.
    Lost,
    /// The merged view is mounted.
    Mounted,
    /// The unmount statement was sent and awaits its acknowledgment.
    Unmounting,
    /// The shell's input is closed and its exit awaited.
    Closing,
    /// The guard is released.
    Released,
    /// The merged view could not be had.
    Failed(MountError),
}

/// What came of the last action.
#[derive(Debug, Clone, PartialEq, Eq)]
pub enum Event {
    /// The elevated shell runs.
    Launched,
    /// The elevated shell could not be started.
    LaunchFailed,
    /// A line arrived on the acknowledgment pipe; its line end is removed.
    Line(Vec<u8>),
    /// The acknowledgment pipe closed, or writing to the shell or reading
    /// from the pipe failed.
    Closed,
    /// The shell ended; `true` for a success status.
    Exited(bool),
    /// Waiting for the shell to end failed.
    WaitFailed,
    /// The operation that the guard serves is over, however it ended.
    Release,
}

/// An event as the protocol sees it.
pub enum EventView {
    Launched,
    LaunchFailed,
    Line(Seq<u8>),
    Closed,
    Exited(bool),
    WaitFailed,
    Release,
}

impl View for Event {
    type V = EventView;

    open spec fn view(&self) -> EventView {
        match self {
            Event::Launched => EventView::Launched,
            Event::LaunchFailed => EventView::LaunchFailed,
            Event::Line(line) => EventView::Line(line@),
            Event::Closed => EventView::Closed,
            Event::Exited(success) => EventView::Exited(*success),
            Event::WaitFailed => EventView::WaitFailed,
            Event::Release => EventView::Release,
        }
    }
}

/// What the owner of a guard does next.
#[derive(Debug, Clone, PartialEq, Eq)]
pub enum Action {
    /// Start the elevated shell; then report `Launched` or `LaunchFailed`.
    Launch,
    /// Write the text to the shell's standard input and flush, then read
    /// one line from the acknowledgment pipe; report the line, or `Closed`.
    Send(Vec<u8>),
    /// Read one more line from the acknowledgment pipe; report the line, or
    /// `Closed`.
    ReadLine,
    /// Close the shell's standard input and wait for it to end; report
    /// `Exited` or `WaitFailed`.
    CloseAndWait,
    /// The merged view is mounted at the path. Hand the path out and keep
    /// the guard until the operation is over; then report `Release`.
    Mounted(Vec<u8>),
    /// The merged view is in use; nothing to do before `Release`.
    Hold,
    /// The guard is released. Log what the report holds as warnings.
    Released(ReleaseReport),
    /// No merged view: fail the operation with the error.
    Failed(MountError),
}

/// An action as the protocol sees it.
pub enum ActionView {
    Launch,
    Send(Seq<u8>),
    ReadLine,
    CloseAndWait,
    Mounted(Seq<u8>),
    Hold,
    Released(ReleaseReport),
    Failed(MountError),
}

impl View for Action {
    type V = ActionView;

    open spec fn view(&self) -> ActionView {
        match self {
            Action::Launch => ActionView::Launch,
            Action::Send(text) => ActionView::Send(text@),
            Action::ReadLine => ActionView::ReadLine,
            Action::CloseAndWait => ActionView::CloseAndWait,
            Action::Mounted(path) => ActionView::Mounted(path@),
            Action::Hold => ActionView::Hold,
            Action::Released(report) => ActionView::Released(*report),
            Action::Failed(error) => ActionView::Failed(*error),
        }
    }
}

/// A guard as the protocol sees it.
pub struct GuardView {
    pub stage: Stage,
    pub channel: ChannelView,
    /// The quoted mount statement.
    pub mount_statement: Seq<u8>,
    /// The quoted unmount statement.
    pub unmount_statement: Seq<u8>,
    /// Where the merged view appears.
    pub merged_path: Seq<u8>,
    /// What has gone wrong in the release so far.
    pub report: ReleaseReport,
}

impl ReleaseReport {
    /// Nothing went wrong.
    pub open spec fn clean() -> ReleaseReport {
        ReleaseReport { unmount_unconfirmed: false, exit_failure: false, wait_failed: false }
    }

    /// The report with the outcome of waiting for the shell added.
    pub open spec fn with_exit(self, event: EventView) -> ReleaseReport {
        match event {
            EventView::Exited(success) => ReleaseReport { exit_failure: !success, ..self },
            _ => ReleaseReport { wait_failed: true, ..self },
        }
    }
}

impl ReleaseReport {
    /// The warnings that the report stands for, in the order in which
    /// they can arise.
    pub open spec fn warnings_spec(self) -> Seq<Warning> {
        (if self.unmount_unconfirmed {
            seq![Warning::UnmountUnconfirmed]
        } else {
            Seq::empty()
        }) + (if self.exit_failure {
            seq![Warning::ExitFailure]
        } else {
            Seq::empty()
        }) + (if self.wait_failed {
            seq![Warning::WaitFailed]
        } else {
            Seq::empty()
        })
    }

    /// The warnings to log for the report.
    pub fn warnings(&self) -> (res: Vec<Warning>)
        ensures
            res@ == self.warnings_spec(),
    {
        let mut out: Vec<Warning> = Vec::new();
        if self.unmount_unconfirmed {
            out.push(Warning::UnmountUnconfirmed);
        }
        if self.exit_failure {
            out.push(Warning::ExitFailure);
        }
        if self.wait_failed {
            out.push(Warning::WaitFailed);
        }
        assert(out@ =~= self.warnings_spec());
        out
    }

    /// Whether nothing went wrong.
    pub fn is_clean(&self) -> (res: bool)
        ensures
            res == (*self == ReleaseReport::clean()),
            res == (self.warnings_spec().len() == 0),
    {
        !self.unmount_unconfirmed && !self.exit_failure && !self.wait_failed
    }
}

impl GuardView {
    /// The guard at another stage.
    pub open spec fn at(self, stage: Stage) -> GuardView {
        GuardView { stage, ..self }
    }

    /// The guard with its channel in another state.
    pub open spec fn on(self, channel: ChannelView) -> GuardView {
        GuardView { channel, ..self }
    }

    /// The guard with another report.
    pub open spec fn reporting(self, report: ReleaseReport) -> GuardView {
        GuardView { report, ..self }
    }

    /// The guard after it gave up with `error`, and what it tells its owner.
    pub open spec fn fail(self, error: MountError) -> (GuardView, ActionView) {
        (self.at(Stage::Failed(error)), ActionView::Failed(error))
    }

    /// The guard after its release ended, and what it tells its owner.
    pub open spec fn finish(self, report: ReleaseReport) -> (GuardView, ActionView) {
        (self.reporting(report).at(Stage::Released), ActionView::Released(report))
    }

    /// The error that the end of the shell stands for when the mount was
    /// not acknowledged: the shell stops at the first failing statement, so
    /// a failure status is a failed mount.
    pub open spec fn mount_error(event: EventView) -> MountError {
        match event {
            EventView::Exited(false) => MountError::MountFailed,
            _ => MountError::ChannelBroken,
        }
    }

    pub open spec fn step_starting(self, event: EventView) -> (GuardView, ActionView) {
        match event {
            EventView::Launched => if self.channel.ready() {
                (
                    self.on(self.channel.submitted()).at(Stage::Mounting),
                    ActionView::Send(framed(self.mount_statement, self.channel.next)),
                )
            } else {
                self.fail(MountError::ChannelBroken)
            },
            EventView::LaunchFailed => self.fail(MountError::SpawnFailed),
            _ => (self, ActionView::Launch),
        }
    }

    pub open spec fn step_mounting(self, event: EventView) -> (GuardView, ActionView) {
        match event {
            EventView::Line(line) => if self.channel.acknowledges(line) {
                (
                    self.on(self.channel.acknowledged()).at(Stage::Mounted),
                    ActionView::Mounted(self.merged_path),
                )
            } else {
                (self, ActionView::ReadLine)
            },
            EventView::Closed => (
                self.on(self.channel.closed()).at(Stage::Lost),
                ActionView::CloseAndWait,
            ),
            EventView::Exited(_) | EventView::WaitFailed => self.on(self.channel.closed()).fail(
                Self::mount_error(event),
            ),
            _ => (self, ActionView::ReadLine),
        }
    }

    pub open spec fn step_lost(self, event: EventView) -> (GuardView, ActionView) {
        match event {
            EventView::Exited(_) | EventView::WaitFailed => self.fail(Self::mount_error(event)),
            _ => (self, ActionView::CloseAndWait),
        }
    }

    pub open spec fn step_mounted(self, event: EventView) -> (GuardView, ActionView) {
        match event {
            EventView::Release => if self.channel.ready() {
                (
                    self.on(self.channel.submitted()).at(Stage::Unmounting),
                    ActionView::Send(framed(self.unmount_statement, self.channel.next)),
                )
            } else {
                (
                    self.reporting(ReleaseReport { unmount_unconfirmed: true, ..self.report }).at(
                        Stage::Closing,
                    ),
                    ActionView::CloseAndWait,
                )
            },
            _ => (self, ActionView::Hold),
        }
    }

    pub open spec fn step_unmounting(self, event: EventView) -> (GuardView, ActionView) {
        match event {
            EventView::Line(line) => if self.channel.acknowledges(line) {
                (self.on(self.channel.acknowledged()).at(Stage::Closing), ActionView::CloseAndWait)
            } else {
                (self, ActionView::ReadLine)
            },
            EventView::Closed => (
                self.on(self.channel.closed()).reporting(
                    ReleaseReport { unmount_unconfirmed: true, ..self.report },
                ).at(Stage::Closing),
                ActionView::CloseAndWait,
            ),
            EventView::Exited(_) | EventView::WaitFailed => self.on(self.channel.closed()).finish(
                ReleaseReport { unmount_unconfirmed: true, ..self.report }.with_exit(event),
            ),
            _ => (self, ActionView::ReadLine),
        }
    }

    pub open spec fn step_closing(self, event: EventView) -> (GuardView, ActionView) {
        match event {
            EventView::Exited(_) | EventView::WaitFailed => self.on(self.channel.closed()).finish(
                self.report.with_exit(event),
            ),
            _ => (self, ActionView::CloseAndWait),
        }
    }

    /// The guard after `event`, and the action that it asks for. An event
    /// that the stage does not wait for changes nothing and is answered
    /// with the action that the stage waits on.
    pub open spec fn step(self, event: EventView) -> (GuardView, ActionView) {
        match self.stage {
            Stage::Starting => self.step_starting(event),
            Stage::Mounting => self.step_mounting(event),
            Stage::Lost => self.step_lost(event),
            Stage::Mounted => self.step_mounted(event),
            Stage::Unmounting => self.step_unmounting(event),
            Stage::Closing => self.step_closing(event),
            Stage::Released => (self, ActionView::Released(self.report)),
            Stage::Failed(error) => (self, ActionView::Failed(error)),
        }
    }
}

/// The words of the command that mounts the overlay at `at`.
pub fn mount_command(lower: &[u8], upper: &[u8], work: &[u8], at: &[u8]) -> (res: Vec<Vec<u8>>)
    ensures
        word_views(res@) == mount_words(lower@, upper@, work@, at@),
{
    let mut options: Vec<u8> = Vec::new();
    push_all(&mut options, "lowerdir=".as_bytes());
    push_all(&mut options, lower);
    push_all(&mut options, ",upperdir=".as_bytes());
    push_all(&mut options, upper);
    push_all(&mut options, ",workdir=".as_bytes());
    push_all(&mut options, work);
    push_all(&mut options, ",metacopy=off,index=off".as_bytes());
    assert(options@ =~= mount_options(lower@, upper@, work@));
    let mut words: Vec<Vec<u8>> = Vec::new();
    words.push(copy_of("mount".as_bytes()));
    words.push(copy_of("--types".as_bytes()));
    words.push(copy_of("overlay".as_bytes()));
    words.push(copy_of("overlay".as_bytes()));
    words.push(copy_of("--options".as_bytes()));
    words.push(options);
    words.push(copy_of(at));
    assert(word_views(words@) =~= mount_words(lower@, upper@, work@, at@));
    words
}

/// The words of the command that unmounts what is mounted at `at`.
pub fn unmount_command(at: &[u8]) -> (res: Vec<Vec<u8>>)
    ensures
        word_views(res@) == unmount_words(at@),
{
    let mut words: Vec<Vec<u8>> = Vec::new();
    words.push(copy_of("umount".as_bytes()));
    words.push(copy_of(at));
    assert(word_views(words@) =~= unmount_words(at@));
    words
}

/// One merged view from the moment it is asked for until it is released.
#[derive(Debug)]
pub struct MountGuard {
    stage: Stage,
    channel: Channel,
    mount_statement: Vec<u8>,
    unmount_statement: Vec<u8>,
    merged_path: Vec<u8>,
    report: ReleaseReport,
}

impl View for MountGuard {
    type V = GuardView;

    closed spec fn view(&self) -> GuardView {
        GuardView {
            stage: self.stage,
            channel: self.channel@,
            mount_statement: self.mount_statement@,
            unmount_statement: self.unmount_statement@,
            merged_path: self.merged_path@,
            report: self.report,
        }
    }
}

/// The guard that `acquire_merged_view` hands out for the two layouts.
pub open spec fn starting_guard(basis: BasisLayout, system: SystemLayout) -> GuardView {
    GuardView {
        stage: Stage::Starting,
        channel: ChannelView::fresh(),
        mount_statement: quoted_line(
            mount_words(basis.prefix@, system.prefix@, system.overlay_work@, system.mount@),
        ),
        unmount_statement: quoted_line(unmount_words(system.mount@)),
        merged_path: system.mount@,
        report: ReleaseReport::clean(),
    }
}

/// The word `umount` holds no NUL byte.
proof fn lemma_unmount_word()
    ensures
        !has_nul(text_of("umount")),
{
    broadcast use vstd::string::is_ascii_spec_bytes;

    reveal_strlit("umount");
    assert(vstd::string::is_ascii("umount"));
}

/// Begins the acquisition of the merged view of `basis` and `system`: the
/// basis prefix read-only below, the system's prefix and work directory as
/// the writable layer, mounted at the system's mount directory.
///
/// The guard that comes back has yet to start its elevated shell: its
/// owner launches the shell and reports `Launched`. No guard comes back
/// exactly when a word of the mount command holds a NUL byte; the error
/// names the first such word.
pub fn acquire_merged_view(basis: &BasisLayout, system: &SystemLayout) -> (res: Result<
    MountGuard,
    MountError,
>)
    ensures
        ({
            let words = mount_words(
                basis.prefix@,
                system.prefix@,
                system.overlay_work@,
                system.mount@,
            );
            match res {
                Ok(guard) => first_nul_word(words) == words.len() && guard@ == starting_guard(
                    *basis,
                    *system,
                ),
                Err(error) => first_nul_word(words) < words.len() && error == MountError::Escaping(
                    EscapingError { index: first_nul_word(words) as usize },
                ),
            }
        }),
{
    let mount = mount_command(
        basis.prefix.as_slice(),
        system.prefix.as_slice(),
        system.overlay_work.as_slice(),
        system.mount.as_slice(),
    );
    let mount_statement = match quote_subcommand(&mount) {
        Ok(line) => line,
        Err(e) => {
            return Err(MountError::Escaping(e));
        },
    };
    let unmount = unmount_command(system.mount.as_slice());
    proof {
        let words = word_views(mount@);
        let others = word_views(unmount@);
        lemma_first_nul_word(words);
        lemma_first_nul_word(others);
        lemma_unmount_word();
        assert(words[6] == system.mount@);
        assert(others[0] == text_of("umount"));
        assert(others[1] == system.mount@);
        assert(first_nul_word(others) == others.len());
    }
    let unmount_statement = match quote_subcommand(&unmount) {
        Ok(line) => line,
        Err(e) => {
            return Err(MountError::Escaping(e));
        },
    };
    Ok(
        MountGuard {
            stage: Stage::Starting,
            channel: Channel::new(),
            mount_statement,
            unmount_statement,
            merged_path: copy_of(system.mount.as_slice()),
            report: ReleaseReport {
                unmount_unconfirmed: false,
                exit_failure: false,
                wait_failed: false,
            },
        },
    )
}

impl MountGuard {
    /// How far the guard has come.
    pub fn stage(&self) -> (res: Stage)
        ensures
            res == self@.stage,
    {
        self.stage
    }

    /// Where the merged view appears.
    pub fn merged_path(&self) -> (res: &[u8])
        ensures
            res@ == self@.merged_path,
    {
        self.merged_path.as_slice()
    }

    /// What has gone wrong in the release so far.
    pub fn report(&self) -> (res: ReleaseReport)
        ensures
            res == self@.report,
    {
        self.report
    }

    fn fail(&mut self, error: MountError) -> (action: Action)
        ensures
            final(self)@ == old(self)@.fail(error).0,
            action@ == old(self)@.fail(error).1,
    {
        self.stage = Stage::Failed(error);
        Action::Failed(error)
    }

    fn finish(&mut self, report: ReleaseReport) -> (action: Action)
        ensures
            final(self)@ == old(self)@.finish(report).0,
            action@ == old(self)@.finish(report).1,
    {
        self.report = report;
        self.stage = Stage::Released;
        Action::Released(report)
    }

    /// Takes what came of the last action and says what to do next.
    pub fn step(&mut self, event: Event) -> (action: Action)
        ensures
            final(self)@ == old(self)@.step(event@).0,
            action@ == old(self)@.step(event@).1,
    {
        match self.stage {
            Stage::Starting => match event {
                Event::Launched => match self.channel.submit(self.mount_statement.as_slice()) {
                    Some(text) => {
                        self.stage = Stage::Mounting;
                        Action::Send(text)
                    },
                    None => self.fail(MountError::ChannelBroken),
                },
                Event::LaunchFailed => self.fail(MountError::SpawnFailed),
                _ => Action::Launch,
            },
            Stage::Mounting => match event {
                Event::Line(line) => {
                    if self.channel.observe(line.as_slice()) {
                        self.stage = Stage::Mounted;
                        Action::Mounted(copy_of(self.merged_path.as_slice()))
                    } else {
                        Action::ReadLine
                    }
                },
                Event::Closed => {
                    self.channel.close();
                    self.stage = Stage::Lost;
                    Action::CloseAndWait
                },
                Event::Exited(success) => {
                    self.channel.close();
                    if success {
                        self.fail(MountError::ChannelBroken)
                    } else {
                        self.fail(MountError::MountFailed)
                    }
                },
                Event::WaitFailed => {
                    self.channel.close();
                    self.fail(MountError::ChannelBroken)
                },
                _ => Action::ReadLine,
            },
            Stage::Lost => match event {
                Event::Exited(success) => {
                    if success {
                        self.fail(MountError::ChannelBroken)
                    } else {
                        self.fail(MountError::MountFailed)
                    }
                },
                Event::WaitFailed => self.fail(MountError::ChannelBroken),
                _ => Action::CloseAndWait,
            },
            Stage::Mounted => match event {
                Event::Release => match self.channel.submit(self.unmount_statement.as_slice()) {
                    Some(text) => {
                        self.stage = Stage::Unmounting;
                        Action::Send(text)
                    },
                    None => {
                        self.report.unmount_unconfirmed = true;
                        self.stage = Stage::Closing;
                        Action::CloseAndWait
                    },
                },
                _ => Action::Hold,
            },
            Stage::Unmounting => match event {
                Event::Line(line) => {
                    if self.channel.observe(line.as_slice()) {
                        self.stage = Stage::Closing;
                        Action::CloseAndWait
                    } else {
                        Action::ReadLine
                    }
                },
                Event::Closed => {
                    self.channel.close();
                    self.report.unmount_unconfirmed = true;
                    self.stage = Stage::Closing;
                    Action::CloseAndWait
                },
                Event::Exited(success) => {
                    self.channel.close();
                    let report = ReleaseReport {
                        unmount_unconfirmed: true,
                        exit_failure: !success,
                        wait_failed: self.report.wait_failed,
                    };
                    self.finish(report)
                },
                Event::WaitFailed => {
                    self.channel.close();
                    let report = ReleaseReport {
                        unmount_unconfirmed: true,
                        exit_failure: self.report.exit_failure,
                        wait_failed: true,
                    };
                    self.finish(report)
                },
                _ => Action::ReadLine,
            },
            Stage::Closing => match event {
                Event::Exited(success) => {
                    self.channel.close();
                    let report = ReleaseReport {
                        unmount_unconfirmed: self.report.unmount_unconfirmed,
                        exit_failure: !success,
                        wait_failed: self.report.wait_failed,
                    };
                    self.finish(report)
                },
                Event::WaitFailed => {
                    self.channel.close();
                    let report = ReleaseReport {
                        unmount_unconfirmed: self.report.unmount_unconfirmed,
                        exit_failure: self.report.exit_failure,
                        wait_failed: true,
                    };
                    self.finish(report)
                },
                _ => Action::CloseAndWait,
            },
            Stage::Released => Action::Released(self.report),
            Stage::Failed(error) => Action::Failed(error),
        }
    }
}

} // verus!
