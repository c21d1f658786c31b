use winebasin::layout::{resolve_basis_layout, resolve_system_layout};
use winebasin::mount::{
    acquire_merged_view, mount_command, unmount_command, Action, Event, MountError, MountGuard,
    ReleaseReport, Stage, Warning,
};
use winebasin::quote::EscapingError;

const MOUNT_TEXT: &[u8] = b"mount --types overlay overlay --options 'lowerdir=/r/basis/b1/prefix,upperdir=/r/system/s1/prefix,workdir=/r/system/s1/overlay_work,metacopy=off,index=off' /r/system/s1/mount;\necho 0 >&3;\n";

const UNMOUNT_TEXT: &[u8] = b"umount /r/system/s1/mount;\necho 1 >&3;\n";

fn fresh_guard() -> MountGuard {
    let basis = resolve_basis_layout(b"/r", b"b1");
    let system = resolve_system_layout(b"/r", b"s1");
    acquire_merged_view(&basis, &system).expect("paths hold no NUL byte")
}

fn mounted_guard() -> MountGuard {
    let mut guard = fresh_guard();
    assert_eq!(guard.step(Event::Launched), Action::Send(MOUNT_TEXT.to_vec()));
    assert_eq!(
        guard.step(Event::Line(b"0".to_vec())),
        Action::Mounted(b"/r/system/s1/mount".to_vec())
    );
    guard
}

fn report(unmount_unconfirmed: bool, exit_failure: bool, wait_failed: bool) -> ReleaseReport {
    ReleaseReport { unmount_unconfirmed, exit_failure, wait_failed }
}

#[test]
fn mount_command_names_both_layers() {
    let want: Vec<Vec<u8>> = vec![
        b"mount".to_vec(),
        b"--types".to_vec(),
        b"overlay".to_vec(),
        b"overlay".to_vec(),
        b"--options".to_vec(),
        b"lowerdir=/l,upperdir=/u,workdir=/w,metacopy=off,index=off".to_vec(),
        b"/m".to_vec(),
    ];
    assert_eq!(mount_command(b"/l", b"/u", b"/w", b"/m"), want);
    assert_eq!(unmount_command(b"/m"), vec![b"umount".to_vec(), b"/m".to_vec()]);
}

#[test]
fn merged_view_appears_at_the_mount_directory_of_the_system() {
    let mut guard = fresh_guard();
    assert_eq!(guard.stage(), Stage::Starting);
    assert_eq!(guard.merged_path(), b"/r/system/s1/mount");
    assert_eq!(guard.step(Event::Launched), Action::Send(MOUNT_TEXT.to_vec()));
    assert_eq!(guard.stage(), Stage::Mounting);
    assert_eq!(
        guard.step(Event::Line(b"0".to_vec())),
        Action::Mounted(b"/r/system/s1/mount".to_vec())
    );
    assert_eq!(guard.stage(), Stage::Mounted);
}

#[test]
fn release_unmounts_and_awaits_the_shell() {
    let mut guard = mounted_guard();
    assert_eq!(guard.step(Event::Release), Action::Send(UNMOUNT_TEXT.to_vec()));
    assert_eq!(guard.stage(), Stage::Unmounting);
    assert_eq!(guard.step(Event::Line(b"1".to_vec())), Action::CloseAndWait);
    assert_eq!(guard.stage(), Stage::Closing);
    assert_eq!(guard.step(Event::Exited(true)), Action::Released(report(false, false, false)));
    assert_eq!(guard.stage(), Stage::Released);
    assert!(guard.report().is_clean());
    assert_eq!(guard.report().warnings(), Vec::<Warning>::new());
}

#[test]
fn lines_that_are_not_the_marker_are_passed_over() {
    let mut guard = fresh_guard();
    guard.step(Event::Launched);
    assert_eq!(guard.step(Event::Line(b"".to_vec())), Action::ReadLine);
    assert_eq!(guard.step(Event::Line(b"1".to_vec())), Action::ReadLine);
    assert_eq!(guard.step(Event::Line(b"0 ".to_vec())), Action::ReadLine);
    assert_eq!(guard.stage(), Stage::Mounting);
    assert!(matches!(guard.step(Event::Line(b"0".to_vec())), Action::Mounted(_)));
    assert_eq!(guard.step(Event::Release), Action::Send(UNMOUNT_TEXT.to_vec()));
    assert_eq!(guard.step(Event::Line(b"0".to_vec())), Action::ReadLine);
    assert_eq!(guard.step(Event::Line(b"1".to_vec())), Action::CloseAndWait);
}

#[test]
fn unmount_is_sent_once_however_often_release_is_reported() {
    let mut guard = mounted_guard();
    assert_eq!(guard.step(Event::Line(b"1".to_vec())), Action::Hold);
    assert_eq!(guard.step(Event::Closed), Action::Hold);
    let mut sent = 0;
    let events = vec![
        Event::Release,
        Event::Release,
        Event::Line(b"1".to_vec()),
        Event::Release,
        Event::Exited(true),
        Event::Release,
        Event::Launched,
    ];
    for event in events {
        if let Action::Send(text) = guard.step(event) {
            assert_eq!(text, UNMOUNT_TEXT.to_vec());
            sent += 1;
        }
    }
    assert_eq!(sent, 1);
    assert_eq!(guard.stage(), Stage::Released);
}

#[test]
fn failed_unmount_is_a_warning_and_no_error() {
    let mut guard = mounted_guard();
    guard.step(Event::Release);
    assert_eq!(guard.step(Event::Closed), Action::CloseAndWait);
    assert_eq!(guard.step(Event::Exited(false)), Action::Released(report(true, true, false)));
    assert_eq!(guard.stage(), Stage::Released);
    assert!(!guard.report().is_clean());
    assert_eq!(
        guard.report().warnings(),
        vec![Warning::UnmountUnconfirmed, Warning::ExitFailure]
    );
    assert_eq!(guard.step(Event::Release), Action::Released(report(true, true, false)));
}

#[test]
fn shell_that_ends_during_unmount_is_a_warning() {
    let mut guard = mounted_guard();
    guard.step(Event::Release);
    assert_eq!(guard.step(Event::Exited(false)), Action::Released(report(true, true, false)));
    let mut other = mounted_guard();
    other.step(Event::Release);
    assert_eq!(other.step(Event::WaitFailed), Action::Released(report(true, false, true)));
    assert_eq!(
        other.report().warnings(),
        vec![Warning::UnmountUnconfirmed, Warning::WaitFailed]
    );
}

#[test]
fn failure_status_after_acknowledged_unmount_is_a_warning() {
    let mut guard = mounted_guard();
    guard.step(Event::Release);
    guard.step(Event::Line(b"1".to_vec()));
    assert_eq!(guard.step(Event::Line(b"2".to_vec())), Action::CloseAndWait);
    assert_eq!(guard.step(Event::Exited(false)), Action::Released(report(false, true, false)));
    assert_eq!(guard.report().warnings(), vec![Warning::ExitFailure]);
    let mut other = mounted_guard();
    other.step(Event::Release);
    other.step(Event::Line(b"1".to_vec()));
    assert_eq!(other.step(Event::WaitFailed), Action::Released(report(false, false, true)));
}

#[test]
fn failed_mount_gives_no_guard_and_attempts_no_unmount() {
    let mut guard = fresh_guard();
    guard.step(Event::Launched);
    assert_eq!(guard.step(Event::Closed), Action::CloseAndWait);
    assert_eq!(guard.stage(), Stage::Lost);
    assert_eq!(guard.step(Event::Line(b"0".to_vec())), Action::CloseAndWait);
    assert_eq!(guard.step(Event::Exited(false)), Action::Failed(MountError::MountFailed));
    assert_eq!(guard.stage(), Stage::Failed(MountError::MountFailed));
    assert_eq!(guard.step(Event::Release), Action::Failed(MountError::MountFailed));
    assert_eq!(guard.step(Event::Line(b"0".to_vec())), Action::Failed(MountError::MountFailed));
    assert_eq!(guard.step(Event::Launched), Action::Failed(MountError::MountFailed));
}

#[test]
fn shell_that_ends_with_failure_before_the_marker_failed_the_mount() {
    let mut guard = fresh_guard();
    guard.step(Event::Launched);
    assert_eq!(guard.step(Event::Exited(false)), Action::Failed(MountError::MountFailed));
}

#[test]
fn pipe_that_closes_without_a_failure_status_is_a_broken_channel() {
    let mut guard = fresh_guard();
    guard.step(Event::Launched);
    guard.step(Event::Closed);
    assert_eq!(guard.step(Event::Exited(true)), Action::Failed(MountError::ChannelBroken));
    let mut second = fresh_guard();
    second.step(Event::Launched);
    second.step(Event::Closed);
    assert_eq!(second.step(Event::WaitFailed), Action::Failed(MountError::ChannelBroken));
    let mut third = fresh_guard();
    third.step(Event::Launched);
    assert_eq!(third.step(Event::Exited(true)), Action::Failed(MountError::ChannelBroken));
    let mut fourth = fresh_guard();
    fourth.step(Event::Launched);
    assert_eq!(fourth.step(Event::WaitFailed), Action::Failed(MountError::ChannelBroken));
}

#[test]
fn shell_that_does_not_start_is_a_spawn_failure() {
    let mut guard = fresh_guard();
    assert_eq!(guard.step(Event::Line(b"0".to_vec())), Action::Launch);
    assert_eq!(guard.step(Event::Release), Action::Launch);
    assert_eq!(guard.step(Event::LaunchFailed), Action::Failed(MountError::SpawnFailed));
    assert_eq!(guard.stage(), Stage::Failed(MountError::SpawnFailed));
}

#[test]
fn path_with_a_nul_byte_cannot_be_mounted() {
    let basis = resolve_basis_layout(b"/r", b"b1");
    let system = resolve_system_layout(b"/r", b"s\0");
    assert_eq!(
        acquire_merged_view(&basis, &system).err(),
        Some(MountError::Escaping(EscapingError { index: 5 }))
    );
    let mut odd = resolve_system_layout(b"/r", b"s1");
    odd.mount = b"/m\0".to_vec();
    assert_eq!(
        acquire_merged_view(&basis, &odd).err(),
        Some(MountError::Escaping(EscapingError { index: 6 }))
    );
}

#[test]
fn paths_with_blanks_are_quoted_in_both_statements() {
    let basis = resolve_basis_layout(b"/my data", b"b1");
    let system = resolve_system_layout(b"/my data", b"s1");
    let mut guard = acquire_merged_view(&basis, &system).expect("no NUL byte");
    assert_eq!(
        guard.step(Event::Launched),
        Action::Send(
            b"mount --types overlay overlay --options 'lowerdir=/my data/basis/b1/prefix,upperdir=/my data/system/s1/prefix,workdir=/my data/system/s1/overlay_work,metacopy=off,index=off' '/my data/system/s1/mount';\necho 0 >&3;\n"
                .to_vec()
        )
    );
    guard.step(Event::Line(b"0".to_vec()));
    assert_eq!(
        guard.step(Event::Release),
        Action::Send(b"umount '/my data/system/s1/mount';\necho 1 >&3;\n".to_vec())
    );
}
