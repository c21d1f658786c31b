use winebasin::config::{Arch, BasisConfigV1};
use winebasin::quote::EscapingError;
use winebasin::runtime::{
    drive_c_path, needs_update, parse_timestamp, resolve_command, run_target, shell_program,
    shell_script, wine_arch, wine_bin, wine_envs, EmptyCommand, EnvVar, RunTarget,
};

fn command(items: &[&[u8]]) -> Vec<Vec<u8>> {
    items.iter().map(|w| w.to_vec()).collect()
}

#[test]
fn environment_points_at_prefix_and_architecture() {
    let envs = wine_envs(&BasisConfigV1 { arch: Arch::Win64 }, b"/r/system/s1/mount");
    assert_eq!(
        envs,
        vec![
            EnvVar { name: b"WINEPREFIX".to_vec(), value: b"/r/system/s1/mount".to_vec() },
            EnvVar { name: b"WINEARCH".to_vec(), value: b"win64".to_vec() },
        ]
    );
    let old = wine_envs(&BasisConfigV1 { arch: Arch::Win32 }, b"/p");
    assert_eq!(old[1].value, b"win32".to_vec());
    assert_eq!(wine_arch(Arch::Win32), "win32");
    assert_eq!(wine_arch(Arch::Win64), "win64");
}

#[test]
fn programs_default_when_the_environment_names_none() {
    assert_eq!(wine_bin(None), b"wine".to_vec());
    assert_eq!(wine_bin(Some(b"/opt/wine/bin/wine".to_vec())), b"/opt/wine/bin/wine".to_vec());
    assert_eq!(shell_program(None), b"/bin/bash".to_vec());
    assert_eq!(shell_program(Some(b"/bin/zsh".to_vec())), b"/bin/zsh".to_vec());
    assert_eq!(drive_c_path(b"/r/basis/b1/prefix"), b"/r/basis/b1/prefix/drive_c".to_vec());
}

#[test]
fn words_that_begin_with_dot_slash_are_resolved() {
    assert_eq!(
        resolve_command(b"/home/me", &command(&[b"./setup.exe", b"/S", b"x/./y", b"."])),
        command(&[b"/home/me/./setup.exe", b"/S", b"x/./y", b"."])
    );
    assert_eq!(resolve_command(b"/", &command(&[b"./a"])), command(&[b"/./a"]));
}

#[test]
fn shell_without_a_command_has_no_script() {
    assert_eq!(shell_script(b"/home/me", &command(&[])), Ok(None));
}

#[test]
fn shell_script_is_the_quoted_command() {
    assert_eq!(
        shell_script(b"/home/my dir", &command(&[b"./run.sh", b"two words", b"-x"])),
        Ok(Some(b"'/home/my dir/./run.sh' 'two words' -x".to_vec()))
    );
}

#[test]
fn shell_script_rejects_a_nul_byte() {
    assert_eq!(
        shell_script(b"/home/me", &command(&[b"a", b"b\0"])),
        Err(EscapingError { index: 1 })
    );
}

#[test]
fn run_target_is_the_first_word_below_drive_c() {
    assert_eq!(
        run_target(b"/m/drive_c", &command(&[b"Program Files/x.exe", b"-a", b"b"])),
        Ok(RunTarget {
            program: b"/m/drive_c/Program Files/x.exe".to_vec(),
            args: command(&[b"-a", b"b"]),
        })
    );
    assert_eq!(
        run_target(b"/m/drive_c", &command(&[b"x.exe"])),
        Ok(RunTarget { program: b"/m/drive_c/x.exe".to_vec(), args: Vec::new() })
    );
}

#[test]
fn empty_command_line_has_no_run_target() {
    assert_eq!(run_target(b"/m/drive_c", &command(&[])), Err(EmptyCommand));
}

#[test]
fn timestamps_are_signed_decimal_numbers() {
    assert_eq!(parse_timestamp(b"0"), Some(0));
    assert_eq!(parse_timestamp(b"1700000000"), Some(1700000000));
    assert_eq!(parse_timestamp(b"+15"), Some(15));
    assert_eq!(parse_timestamp(b"-15"), Some(-15));
    assert_eq!(parse_timestamp(b"-0"), Some(0));
    assert_eq!(parse_timestamp(b"007"), Some(7));
    assert_eq!(parse_timestamp(b"9223372036854775807"), Some(i64::MAX));
    assert_eq!(parse_timestamp(b"-9223372036854775808"), Some(i64::MIN));
}

#[test]
fn other_text_is_no_timestamp() {
    assert_eq!(parse_timestamp(b""), None);
    assert_eq!(parse_timestamp(b"+"), None);
    assert_eq!(parse_timestamp(b"-"), None);
    assert_eq!(parse_timestamp(b" 1"), None);
    assert_eq!(parse_timestamp(b"1\n"), None);
    assert_eq!(parse_timestamp(b"1.5"), None);
    assert_eq!(parse_timestamp(b"--1"), None);
    assert_eq!(parse_timestamp(b"1-"), None);
    assert_eq!(parse_timestamp(b"0x10"), None);
    assert_eq!(parse_timestamp(b"9223372036854775808"), None);
    assert_eq!(parse_timestamp(b"-9223372036854775809"), None);
    assert_eq!(parse_timestamp(b"99999999999999999999999"), None);
}

#[test]
fn timestamps_agree_with_std() {
    let texts = [
        "0", "-1", "+1", "12345", "-12345", "", "+", "-", "a", "1a", "9223372036854775807",
        "9223372036854775808", "-9223372036854775808", "-9223372036854775809", "00000000000000000000001",
        "18446744073709551616", "+-1", " 1",
    ];
    for text in texts {
        assert_eq!(parse_timestamp(text.as_bytes()), i64::from_str_radix(text, 10).ok());
    }
}

#[test]
fn basis_older_than_the_runtime_needs_an_update() {
    assert!(needs_update(10, 11));
    assert!(!needs_update(11, 11));
    assert!(!needs_update(12, 11));
    assert!(needs_update(-5, 0));
}
