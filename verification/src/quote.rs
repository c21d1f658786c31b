//! Shell quoting of command lines that are sent as text to a shell.
//!
//! Every privileged operation travels as one line of text through a pipe to
//! a shell. The words of such a line are quoted one by one and joined by
//! single spaces.

use vstd::prelude::*;
use crate::text::push_all;

verus! {

/// The error of `shlex::bytes::try_quote`. Nothing is read from it: that
/// the call failed says all there is to say.
#[verifier::external_type_specification]
#[verifier::external_body]
pub struct ExQuoteError(shlex::QuoteError);

/// The bytes that `shlex::bytes::try_quote` returns for `word` when it
/// accepts the word.
pub uninterp spec fn shlex_quoted(word: Seq<u8>) -> Seq<u8>;

/// A word with a NUL byte in it cannot be written on a shell command line.
pub open spec fn has_nul(word: Seq<u8>) -> bool {
    exists|i: int| 0 <= i < word.len() && word[i] == 0u8
}

/// The byte that separates two words of a command line.
pub const SPACE: u8 = 0x20;

/// The words of a command line as byte sequences.
pub open spec fn word_views(words: Seq<Vec<u8>>) -> Seq<Seq<u8>> {
    Seq::new(words.len(), |i: int| words[i]@)
}

/// The parts of a command line one space apart.
pub open spec fn spaced(parts: Seq<Seq<u8>>) -> Seq<u8>
    decreases parts.len(),
{
    if parts.len() == 0 {
        Seq::empty()
    } else if parts.len() == 1 {
        parts[0]
    } else {
        spaced(parts.drop_last()) + seq![SPACE] + parts.last()
    }
}

/// The words of a command, each quoted by itself.
pub open spec fn quoted_words(words: Seq<Seq<u8>>) -> Seq<Seq<u8>> {
    Seq::new(words.len(), |i: int| shlex_quoted(words[i]))
}

/// The command line of `words`: each word quoted by itself, consecutive
/// words one space apart.
pub open spec fn quoted_line(words: Seq<Seq<u8>>) -> Seq<u8> {
    spaced(quoted_words(words))
}

/// The position of the first word that holds a NUL byte, or the number of
/// words where none does.
pub open spec fn first_nul_word(words: Seq<Seq<u8>>) -> int
    decreases words.len(),
{
    if words.len() == 0 {
        0
    } else if has_nul(words[0]) {
        0
    } else {
        1 + first_nul_word(words.drop_first())
    }
}

/// A word that cannot be represented on a shell command line.
#[derive(Debug, Clone, Copy, PartialEq, Eq)]
pub struct EscapingError {
    /// The position of the offending word in the command.
    pub index: usize,
}

/// Calls `shlex::bytes::try_quote`.
///
/// Trusted, not proved: the call fails exactly on words that hold a NUL
/// byte, and what it returns otherwise depends on the word alone. The
/// result is copied into a vector.
#[verifier::external_body]
fn try_quote_word(word: &[u8]) -> (res: Result<Vec<u8>, shlex::QuoteError>)
    ensures
        res is Err <==> has_nul(word@),
        res matches Ok(quoted) ==> quoted@ == shlex_quoted(word@),
{
    match shlex::bytes::try_quote(word) {
        Ok(quoted) => Ok(quoted.into_owned()),
        Err(e) => Err(e),
    }
}

/// Before the first word with a NUL byte no word has one, and if that
/// position is inside the command, the word there has one.
pub proof fn lemma_first_nul_word(words: Seq<Seq<u8>>)
    ensures
        0 <= first_nul_word(words) <= words.len(),
        forall|j: int| 0 <= j < first_nul_word(words) ==> !has_nul(#[trigger] words[j]),
        first_nul_word(words) < words.len() ==> has_nul(words[first_nul_word(words)]),
    decreases words.len(),
{
    if words.len() > 0 && !has_nul(words[0]) {
        let rest = words.drop_first();
        lemma_first_nul_word(rest);
        assert forall|j: int| 0 <= j < first_nul_word(words) implies !has_nul(
            #[trigger] words[j],
        ) by {
            if j > 0 {
                assert(words[j] == rest[j - 1]);
            }
        }
        if first_nul_word(words) < words.len() {
            assert(words[first_nul_word(words)] == rest[first_nul_word(rest)]);
        }
    }
}

/// Joins the parts of a command line, one space between neighbours.
pub fn join_spaced(parts: &Vec<Vec<u8>>) -> (res: Vec<u8>)
    ensures
        res@ == spaced(word_views(parts@)),
{
    let ghost views = word_views(parts@);
    let mut out: Vec<u8> = Vec::new();
    let mut i: usize = 0;
    assert(views.take(0) =~= Seq::<Seq<u8>>::empty());
    while i < parts.len()
        invariant
            0 <= i <= parts@.len(),
            views == word_views(parts@),
            out@ == spaced(views.take(i as int)),
        decreases parts@.len() - i,
    {
        if i > 0 {
            out.push(SPACE);
        }
        push_all(&mut out, parts[i].as_slice());
        proof {
            let upto = views.take(i as int + 1);
            assert(upto.drop_last() =~= views.take(i as int));
            assert(upto.last() == parts@[i as int]@);
            if i == 0 {
                assert(out@ =~= upto[0]);
            }
        }
        i += 1;
    }
    assert(views.take(i as int) =~= views);
    out
}

/// Turns the words of a command into one shell-safe line.
///
/// Succeeds exactly when no word holds a NUL byte; the line is then the
/// quoted words in order, one space between neighbours. Otherwise the error
/// names the first word that holds one.
pub fn quote_subcommand(subcommand: &Vec<Vec<u8>>) -> (res: Result<Vec<u8>, EscapingError>)
    ensures
        match res {
            Ok(line) => {
                &&& first_nul_word(word_views(subcommand@)) == subcommand@.len()
                &&& line@ == quoted_line(word_views(subcommand@))
            },
            Err(e) => {
                &&& e.index < subcommand@.len()
                &&& e.index == first_nul_word(word_views(subcommand@))
            },
        },
{
    let ghost words = word_views(subcommand@);
    let mut quoted: Vec<Vec<u8>> = Vec::new();
    let mut i: usize = 0;
    proof {
        lemma_first_nul_word(words);
    }
    while i < subcommand.len()
        invariant
            0 <= i <= subcommand@.len(),
            words == word_views(subcommand@),
            i <= first_nul_word(words),
            quoted@.len() == i,
            forall|j: int| 0 <= j < i ==> (#[trigger] quoted@[j])@ == shlex_quoted(words[j]),
        decreases subcommand@.len() - i,
    {
        proof {
            lemma_first_nul_word(words);
            assert(words[i as int] == subcommand@[i as int]@);
        }
        match try_quote_word(subcommand[i].as_slice()) {
            Ok(word) => {
                quoted.push(word);
            },
            Err(_) => {
                return Err(EscapingError { index: i });
            },
        }
        i += 1;
    }
    proof {
        lemma_first_nul_word(words);
        assert(word_views(quoted@) =~= quoted_words(words));
    }
    Ok(join_spaced(&quoted))
}

} // verus!
