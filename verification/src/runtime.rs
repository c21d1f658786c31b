//! What is run inside a prefix: the environment of the wrapped runtime, the
//! shell that is opened in a prefix, and the test whether a basis is older
//! than the runtime it was made with.

use vstd::prelude::*;
use crate::config::{Arch, BasisConfigV1};
use crate::layout::{join, joined};
use crate::quote::{first_nul_word, quote_subcommand, quoted_line, word_views, EscapingError};
use crate::text::{begins_with, copy_of, starts_with, text_of, DIGIT_ZERO};

verus! {

/// One variable of a process environment.
#[derive(Debug, Clone, PartialEq, Eq)]
pub struct EnvVar {
    pub name: Vec<u8>,
    pub value: Vec<u8>,
}

/// The variables of an environment as pairs of name and value.
pub open spec fn env_views(vars: Seq<EnvVar>) -> Seq<(Seq<u8>, Seq<u8>)> {
    Seq::new(vars.len(), |i: int| (vars[i].name@, vars[i].value@))
}

/// How the runtime calls an architecture.
pub open spec fn wine_arch_text(arch: Arch) -> Seq<u8> {
    match arch {
        Arch::Win32 => text_of("win32"),
        Arch::Win64 => text_of("win64"),
    }
}

/// The name by which the runtime knows `arch`.
pub fn wine_arch(arch: Arch) -> (res: &'static str)
    ensures
        text_of(res) == wine_arch_text(arch),
{
    match arch {
        Arch::Win32 => "win32",
        Arch::Win64 => "win64",
    }
}

/// The variables that point the runtime at `prefix`: the prefix itself and
/// the architecture of its basis, each under its own name.
pub fn wine_envs(config: &BasisConfigV1, prefix: &[u8]) -> (res: Vec<EnvVar>)
    ensures
        env_views(res@) == seq![
            (text_of("WINEPREFIX"), prefix@),
            (text_of("WINEARCH"), wine_arch_text(config.arch)),
        ],
{
    let mut out: Vec<EnvVar> = Vec::new();
    out.push(EnvVar { name: copy_of("WINEPREFIX".as_bytes()), value: copy_of(prefix) });
    out.push(
        EnvVar {
            name: copy_of("WINEARCH".as_bytes()),
            value: copy_of(wine_arch(config.arch).as_bytes()),
        },
    );
    assert(env_views(out@) =~= seq![
        (text_of("WINEPREFIX"), prefix@),
        (text_of("WINEARCH"), wine_arch_text(config.arch)),
    ]);
    out
}

/// The runtime program: the one that the environment names, else `wine`.
pub fn wine_bin(named: Option<Vec<u8>>) -> (res: Vec<u8>)
    ensures
        res@ == match named {
            Some(program) => program@,
            None => text_of("wine"),
        },
{
    match named {
        Some(program) => program,
        None => copy_of("wine".as_bytes()),
    }
}

/// The shell to open in a prefix: the one that the environment names, else
/// `/bin/bash`.
pub fn shell_program(named: Option<Vec<u8>>) -> (res: Vec<u8>)
    ensures
        res@ == match named {
            Some(program) => program@,
            None => text_of("/bin/bash"),
        },
{
    match named {
        Some(program) => program,
        None => copy_of("/bin/bash".as_bytes()),
    }
}

/// The directory of a prefix in which shells and programs start.
pub fn drive_c_path(prefix: &[u8]) -> (res: Vec<u8>)
    ensures
        res@ == joined(prefix@, text_of("drive_c")),
{
    join(prefix, "drive_c".as_bytes())
}

/// A word of a shell command as the shell inside the prefix must see it: a
/// word that begins with `./` names a file below the caller's directory
/// `cwd` and is adjoined to it, any other word stays as it is.
pub open spec fn resolved_word(cwd: Seq<u8>, word: Seq<u8>) -> Seq<u8> {
    if begins_with(word, text_of("./")) {
        joined(cwd, word)
    } else {
        word
    }
}

/// The words of a shell command, each resolved against `cwd`.
pub open spec fn resolved_words(cwd: Seq<u8>, command: Seq<Seq<u8>>) -> Seq<Seq<u8>> {
    Seq::new(command.len(), |i: int| resolved_word(cwd, command[i]))
}

/// Resolves the words of a shell command against `cwd`.
pub fn resolve_command(cwd: &[u8], command: &Vec<Vec<u8>>) -> (res: Vec<Vec<u8>>)
    ensures
        word_views(res@) == resolved_words(cwd@, word_views(command@)),
{
    let mut out: Vec<Vec<u8>> = Vec::new();
    let mut i: usize = 0;
    while i < command.len()
        invariant
            0 <= i <= command@.len(),
            out@.len() == i,
            forall|j: int|
                0 <= j < i ==> (#[trigger] out@[j])@ == resolved_word(cwd@, command@[j]@),
        decreases command@.len() - i,
    {
        let word = command[i].as_slice();
        if starts_with(word, "./".as_bytes()) {
            out.push(join(cwd, word));
        } else {
            out.push(copy_of(word));
        }
        i += 1;
    }
    assert(word_views(out@) =~= resolved_words(cwd@, word_views(command@)));
    out
}

/// The script to pipe into the shell that is opened in a prefix.
///
/// Without a command there is none, and the shell is interactive. With
/// one, the script is the command line of its words, each resolved against
/// `cwd`. The one failure is a word with a NUL byte; the error names the
/// first.
pub fn shell_script(cwd: &[u8], command: &Vec<Vec<u8>>) -> (res: Result<
    Option<Vec<u8>>,
    EscapingError,
>)
    ensures
        ({
            let words = resolved_words(cwd@, word_views(command@));
            match res {
                Ok(None) => command@.len() == 0,
                Ok(Some(script)) => {
                    &&& command@.len() > 0
                    &&& first_nul_word(words) == words.len()
                    &&& script@ == quoted_line(words)
                },
                Err(error) => {
                    &&& command@.len() > 0
                    &&& error.index < words.len()
                    &&& error.index == first_nul_word(words)
                },
            }
        }),
{
    if command.len() == 0 {
        return Ok(None);
    }
    let words = resolve_command(cwd, command);
    match quote_subcommand(&words) {
        Ok(script) => Ok(Some(script)),
        Err(error) => Err(error),
    }
}

/// A program to run in a system, and its arguments.
#[derive(Debug, Clone, PartialEq, Eq)]
pub struct RunTarget {
    /// The program, below the start directory of the prefix.
    pub program: Vec<u8>,
    /// What follows the program on the command line.
    pub args: Vec<Vec<u8>>,
}

/// The command line to run in a system is empty.
#[derive(Debug, Clone, Copy, PartialEq, Eq)]
pub struct EmptyCommand;

/// Splits a command line into the program, adjoined to `drive_c`, and its
/// arguments. An empty command line has no program.
pub fn run_target(drive_c: &[u8], command: &Vec<Vec<u8>>) -> (res: Result<RunTarget, EmptyCommand>)
    ensures
        match res {
            Ok(target) => {
                &&& command@.len() > 0
                &&& target.program@ == joined(drive_c@, command@[0]@)
                &&& word_views(target.args@) == word_views(command@).drop_first()
            },
            Err(_) => command@.len() == 0,
        },
{
    if command.len() == 0 {
        return Err(EmptyCommand);
    }
    let program = join(drive_c, command[0].as_slice());
    let mut args: Vec<Vec<u8>> = Vec::new();
    let mut i: usize = 1;
    while i < command.len()
        invariant
            1 <= i <= command@.len(),
            args@.len() == i - 1,
            forall|j: int| 0 <= j < i - 1 ==> (#[trigger] args@[j])@ == command@[j + 1]@,
        decreases command@.len() - i,
    {
        args.push(copy_of(command[i].as_slice()));
        i += 1;
    }
    assert(word_views(args@) =~= word_views(command@).drop_first());
    Ok(RunTarget { program, args })
}

/// The byte of the minus sign.
pub const MINUS: u8 = 0x2d;

/// The byte of the plus sign.
pub const PLUS: u8 = 0x2b;

/// `b` is a decimal digit.
pub open spec fn is_digit(b: u8) -> bool {
    DIGIT_ZERO <= b <= DIGIT_ZERO + 9
}

/// The number that a string of digits stands for.
pub open spec fn digits_value(digits: Seq<u8>) -> nat
    decreases digits.len(),
{
    if digits.len() == 0 {
        0
    } else {
        digits_value(digits.drop_last()) * 10 + (digits.last() - DIGIT_ZERO) as nat
    }
}

/// The digits of a piece of text: what follows its sign, if it has one.
pub open spec fn digits_of(text: Seq<u8>) -> Seq<u8> {
    if text.len() > 0 && (text[0] == MINUS || text[0] == PLUS) {
        text.drop_first()
    } else {
        text
    }
}

/// The integer that `text` stands for: an optional sign and then digits,
/// at least one, and nothing else.
pub open spec fn integer_of(text: Seq<u8>) -> Option<int> {
    let digits = digits_of(text);
    if digits.len() == 0 || exists|i: int| 0 <= i < digits.len() && !is_digit(digits[i]) {
        None
    } else if text[0] == MINUS {
        Some(-(digits_value(digits) as int))
    } else {
        Some(digits_value(digits) as int)
    }
}

/// More digits do not make a smaller number.
proof fn lemma_digits_value_grows(digits: Seq<u8>, k: int)
    requires
        0 <= k <= digits.len(),
        forall|i: int| 0 <= i < digits.len() ==> is_digit(digits[i]),
    ensures
        digits_value(digits.take(k)) <= digits_value(digits),
    decreases digits.len() - k,
{
    if k == digits.len() {
        assert(digits.take(k) =~= digits);
    } else {
        let longer = digits.take(k + 1);
        assert(longer.drop_last() =~= digits.take(k));
        lemma_digits_value_grows(digits, k + 1);
    }
}

/// Reads a time in seconds from its decimal text.
///
/// The text is an optional sign followed by digits only, as many as give a
/// number that a signed 64-bit integer holds. Any other text, the empty
/// one and one with blanks around the number among them, is no time.
pub fn parse_timestamp(text: &[u8]) -> (res: Option<i64>)
    ensures
        match res {
            Some(time) => integer_of(text@) == Some(time as int),
            None => match integer_of(text@) {
                Some(value) => value < i64::MIN || value > i64::MAX,
                None => true,
            },
        },
{
    let negative = text.len() > 0 && text[0] == MINUS;
    let start: usize = if text.len() > 0 && (text[0] == MINUS || text[0] == PLUS) {
        1
    } else {
        0
    };
    let ghost digits = digits_of(text@);
    proof {
        if start == 0 {
            assert(digits =~= text@);
        }
    }
    if start == text.len() {
        return None;
    }
    let limit: u64 = if negative {
        0x8000_0000_0000_0000
    } else {
        0x7fff_ffff_ffff_ffff
    };
    let mut acc: u64 = 0;
    let mut i: usize = start;
    assert(digits.take(0) =~= Seq::<u8>::empty());
    while i < text.len()
        invariant
            start <= i <= text@.len(),
            start <= 1,
            digits == digits_of(text@),
            digits.len() == text@.len() - start,
            forall|j: int| 0 <= j < digits.len() ==> digits[j] == text@[j + start],
            forall|j: int| 0 <= j < i - start ==> is_digit(digits[j]),
            acc == digits_value(digits.take(i - start)),
            acc <= limit,
            0x7fff_ffff_ffff_ffff <= limit <= 0x8000_0000_0000_0000,
            negative ==> limit == 0x8000_0000_0000_0000,
            !negative ==> limit == 0x7fff_ffff_ffff_ffff,
            negative == (text@.len() > 0 && text@[0] == MINUS),
        decreases text@.len() - i,
    {
        let byte = text[i];
        if byte < DIGIT_ZERO || byte > DIGIT_ZERO + 9 {
            assert(!is_digit(digits[i - start]));
            return None;
        }
        let digit: u64 = (byte - DIGIT_ZERO) as u64;
        proof {
            let longer = digits.take(i - start + 1);
            assert(longer.drop_last() =~= digits.take(i - start));
            assert(longer.last() == byte);
            assert(digits_value(longer) == acc * 10 + digit);
        }
        if acc > (limit - digit) / 10 {
            proof {
                assert(acc * 10 + digit > limit);
                if forall|j: int| 0 <= j < digits.len() ==> is_digit(digits[j]) {
                    lemma_digits_value_grows(digits, i - start + 1);
                    assert(digits_value(digits) > limit);
                }
            }
            return None;
        }
        acc = acc * 10 + digit;
        i += 1;
    }
    assert(digits.take(i - start) =~= digits);
    if negative {
        if acc == 0x8000_0000_0000_0000 {
            Some(i64::MIN)
        } else {
            Some(-(acc as i64))
        }
    } else {
        Some(acc as i64)
    }
}

/// Whether a basis that was last brought up to date at `updated` is older
/// than a runtime whose definition file was last changed at
/// `runtime_changed`.
pub fn needs_update(updated: i64, runtime_changed: i64) -> (res: bool)
    ensures
        res == (updated < runtime_changed),
{
    updated < runtime_changed
}

} // verus!
