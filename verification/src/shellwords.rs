//! How a shell reads a command line back into words.
//!
//! The reading is that of a POSIX shell as far as quoting goes: blanks
//! part words, a `#` at the start of a word opens a comment up to the end
//! of the line, single quotes keep every byte, double quotes keep every
//! byte but let a backslash escape `$`, `` ` ``, `"`, `\` and the line end,
//! and a backslash outside quotes keeps the next byte.

use vstd::prelude::*;
use crate::quote::{quoted_line, quoted_words, shlex_quoted, spaced, word_views, SPACE};

verus! {

pub const TAB: u8 = 0x09;

pub const NEWLINE: u8 = 0x0a;

pub const DOUBLE_QUOTE: u8 = 0x22;

pub const HASH: u8 = 0x23;

pub const DOLLAR: u8 = 0x24;

pub const SINGLE_QUOTE: u8 = 0x27;

pub const BACKSLASH: u8 = 0x5c;

pub const BACKTICK: u8 = 0x60;

/// Where in a command line the reader stands.
#[derive(Debug, Clone, Copy, PartialEq, Eq)]
pub enum Mode {
    /// Between two words.
    Between,
    /// In a comment.
    Comment,
    /// In a word, outside quotes.
    Bare,
    /// In a word, right after a backslash outside quotes.
    Escaped,
    /// In a word, inside single quotes.
    Single,
    /// In a word, inside double quotes.
    Double,
    /// In a word, right after a backslash inside double quotes.
    DoubleEscaped,
}

/// A reader part of the way through a command line.
pub struct Reader {
    pub mode: Mode,
    /// What the word in progress holds so far.
    pub word: Seq<u8>,
    /// The words that are complete.
    pub words: Seq<Seq<u8>>,
}

/// `b` parts words.
pub open spec fn is_blank(b: u8) -> bool {
    b == SPACE || b == TAB || b == NEWLINE
}

/// A backslash inside double quotes escapes `b`.
pub open spec fn is_escapable(b: u8) -> bool {
    b == DOLLAR || b == BACKTICK || b == DOUBLE_QUOTE || b == BACKSLASH
}

impl Reader {
    /// The reader before the first byte.
    pub open spec fn start() -> Reader {
        Reader { mode: Mode::Between, word: Seq::empty(), words: Seq::empty() }
    }

    /// The reader in another mode.
    pub open spec fn in_mode(self, mode: Mode) -> Reader {
        Reader { mode, ..self }
    }

    /// The reader with `b` added to the word in progress.
    pub open spec fn keep(self, b: u8) -> Reader {
        Reader { word: self.word.push(b), ..self }
    }

    /// The reader after the byte `b` of a word outside quotes.
    pub open spec fn feed_bare(self, b: u8) -> Reader {
        if b == DOUBLE_QUOTE {
            self.in_mode(Mode::Double)
        } else if b == SINGLE_QUOTE {
            self.in_mode(Mode::Single)
        } else if b == BACKSLASH {
            self.in_mode(Mode::Escaped)
        } else if is_blank(b) {
            Reader { mode: Mode::Between, word: Seq::empty(), words: self.words.push(self.word) }
        } else {
            self.keep(b).in_mode(Mode::Bare)
        }
    }

    /// The reader after the byte `b`.
    pub open spec fn feed(self, b: u8) -> Reader {
        match self.mode {
            Mode::Between => if is_blank(b) {
                self
            } else if b == HASH {
                self.in_mode(Mode::Comment)
            } else {
                self.feed_bare(b)
            },
            Mode::Comment => if b == NEWLINE {
                self.in_mode(Mode::Between)
            } else {
                self
            },
            Mode::Bare => self.feed_bare(b),
            Mode::Escaped => if b == NEWLINE {
                self.in_mode(Mode::Bare)
            } else {
                self.keep(b).in_mode(Mode::Bare)
            },
            Mode::Single => if b == SINGLE_QUOTE {
                self.in_mode(Mode::Bare)
            } else {
                self.keep(b)
            },
            Mode::Double => if b == BACKSLASH {
                self.in_mode(Mode::DoubleEscaped)
            } else if b == DOUBLE_QUOTE {
                self.in_mode(Mode::Bare)
            } else {
                self.keep(b)
            },
            Mode::DoubleEscaped => if is_escapable(b) {
                self.keep(b).in_mode(Mode::Double)
            } else if b == NEWLINE {
                self.in_mode(Mode::Double)
            } else {
                self.keep(BACKSLASH).keep(b).in_mode(Mode::Double)
            },
        }
    }

    /// The reader after all of `text`.
    pub open spec fn scan(self, text: Seq<u8>) -> Reader
        decreases text.len(),
    {
        if text.len() == 0 {
            self
        } else {
            self.scan(text.drop_last()).feed(text.last())
        }
    }

    /// The words of the line when it ends here. A line that ends inside
    /// quotes or right after a backslash has none.
    pub open spec fn finish(self) -> Option<Seq<Seq<u8>>> {
        match self.mode {
            Mode::Between | Mode::Comment => Some(self.words),
            Mode::Bare => Some(self.words.push(self.word)),
            _ => None,
        }
    }

    /// The reader with `before` in front of its complete words.
    pub open spec fn after(self, before: Seq<Seq<u8>>) -> Reader {
        Reader { words: before + self.words, ..self }
    }
}

/// The words that a shell reads from `line`.
pub open spec fn split(line: Seq<u8>) -> Option<Seq<Seq<u8>>> {
    Reader::start().scan(line).finish()
}

/// `quoted`, read from the start of a word, is one word that holds `word`
/// and ends outside quotes.
pub open spec fn reads_as(quoted: Seq<u8>, word: Seq<u8>) -> bool {
    Reader::start().scan(quoted) == Reader { mode: Mode::Bare, word, words: Seq::empty() }
}

/// Reading a text in two parts is reading the whole.
pub proof fn lemma_scan_parts(reader: Reader, first: Seq<u8>, second: Seq<u8>)
    ensures
        reader.scan(first + second) == reader.scan(first).scan(second),
    decreases second.len(),
{
    if second.len() == 0 {
        assert(first + second =~= first);
    } else {
        lemma_scan_parts(reader, first, second.drop_last());
        assert((first + second).drop_last() =~= first + second.drop_last());
        assert((first + second).last() == second.last());
    }
}

/// The words that are complete do not bear on how the rest is read.
pub proof fn lemma_scan_after(reader: Reader, before: Seq<Seq<u8>>, text: Seq<u8>)
    ensures
        reader.after(before).scan(text) == reader.scan(text).after(before),
    decreases text.len(),
{
    if text.len() > 0 {
        lemma_scan_after(reader, before, text.drop_last());
        let r = reader.scan(text.drop_last());
        let b = text.last();
        assert((before + r.words).push(r.word) =~= before + r.words.push(r.word));
        assert(r.after(before).feed(b) == r.feed(b).after(before));
    } else {
        assert(reader.after(before).words =~= before + reader.words);
    }
}

/// The reader after the parts of a command line, when there is at least
/// one: it stands in the last word, and the words before it are complete.
proof fn lemma_spaced_scan(parts: Seq<Seq<u8>>, words: Seq<Seq<u8>>)
    requires
        parts.len() == words.len(),
        words.len() > 0,
        forall|i: int| 0 <= i < words.len() ==> reads_as(#[trigger] parts[i], words[i]),
    ensures
        Reader::start().scan(spaced(parts)) == (Reader {
            mode: Mode::Bare,
            word: words.last(),
            words: words.drop_last(),
        }),
    decreases words.len(),
{
    let last = parts.last();
    assert(reads_as(parts[parts.len() - 1], words[parts.len() - 1]));
    if words.len() == 1 {
        assert(words.drop_last() =~= Seq::<Seq<u8>>::empty());
    } else {
        let front = words.drop_last();
        let front_parts = parts.drop_last();
        assert forall|i: int| 0 <= i < front.len() implies reads_as(
            #[trigger] front_parts[i],
            front[i],
        ) by {
            assert(reads_as(parts[i], words[i]));
        }
        lemma_spaced_scan(front_parts, front);
        let head = spaced(front_parts);
        let standing = Reader::start().scan(head);
        lemma_scan_parts(Reader::start(), head + seq![SPACE], last);
        lemma_scan_parts(Reader::start(), head, seq![SPACE]);
        assert(seq![SPACE].drop_last() =~= Seq::<u8>::empty());
        assert(seq![SPACE].last() == SPACE);
        assert(standing.scan(Seq::<u8>::empty()) == standing);
        assert(standing.scan(seq![SPACE]) == standing.scan(seq![SPACE].drop_last()).feed(SPACE));
        let parted = standing.feed(SPACE);
        assert(front.drop_last().push(front.last()) =~= front);
        assert(parted == Reader { mode: Mode::Between, word: Seq::empty(), words: front });
        lemma_scan_after(Reader::start(), front, last);
        assert(front + Seq::<Seq<u8>>::empty() =~= front);
        assert(Reader::start().after(front) == parted);
    }
}

/// Parts that each read back as one word, set one space apart, read back
/// as exactly those words in their order.
pub proof fn lemma_spaced_reads_back(parts: Seq<Seq<u8>>, words: Seq<Seq<u8>>)
    requires
        parts.len() == words.len(),
        forall|i: int| 0 <= i < words.len() ==> reads_as(#[trigger] parts[i], words[i]),
    ensures
        split(spaced(parts)) == Some(words),
{
    if words.len() == 0 {
        assert(words =~= Seq::<Seq<u8>>::empty());
    } else {
        lemma_spaced_scan(parts, words);
        assert(words.drop_last().push(words.last()) =~= words);
    }
}

/// A command line reads back as the words it was made of, where each
/// quoted word reads back as its word.
///
/// Let every word of a command, quoted by itself, be read by the shell as
/// that one word. Then the shell reads the command line, in which the
/// quoted words stand one space apart, as exactly those words in their
/// order.
pub proof fn lemma_quoted_line_reads_back(words: Seq<Seq<u8>>)
    requires
        forall|i: int|
            0 <= i < words.len() ==> reads_as(shlex_quoted(#[trigger] words[i]), words[i]),
    ensures
        split(quoted_line(words)) == Some(words),
{
    let parts = quoted_words(words);
    assert forall|i: int| 0 <= i < words.len() implies reads_as(#[trigger] parts[i], words[i]) by {
        assert(reads_as(shlex_quoted(words[i]), words[i]));
    }
    lemma_spaced_reads_back(parts, words);
}

/// Reads a command line into its words as a shell does. A line that ends
/// inside quotes or right after a backslash has no reading.
pub fn split_words(line: &[u8]) -> (res: Option<Vec<Vec<u8>>>)
    ensures
        match res {
            Some(words) => split(line@) == Some(word_views(words@)),
            None => split(line@) is None,
        },
{
    let mut mode = Mode::Between;
    let mut word: Vec<u8> = Vec::new();
    let mut words: Vec<Vec<u8>> = Vec::new();
    let mut i: usize = 0;
    assert(line@.take(0) =~= Seq::<u8>::empty());
    assert(word_views(words@) =~= Seq::<Seq<u8>>::empty());
    while i < line.len()
        invariant
            0 <= i <= line@.len(),
            Reader::start().scan(line@.take(i as int)) == (Reader {
                mode,
                word: word@,
                words: word_views(words@),
            }),
        decreases line@.len() - i,
    {
        let b = line[i];
        let ghost before = Reader { mode, word: word@, words: word_views(words@) };
        proof {
            assert(line@.take(i as int + 1).drop_last() =~= line@.take(i as int));
            assert(line@.take(i as int + 1).last() == b);
        }
        let blank = b == SPACE || b == TAB || b == NEWLINE;
        let between = match mode {
            Mode::Between => true,
            _ => false,
        };
        match mode {
            Mode::Between | Mode::Bare => {
                if between && blank {
                } else if between && b == HASH {
                    mode = Mode::Comment;
                } else if b == DOUBLE_QUOTE {
                    mode = Mode::Double;
                } else if b == SINGLE_QUOTE {
                    mode = Mode::Single;
                } else if b == BACKSLASH {
                    mode = Mode::Escaped;
                } else if blank {
                    let ghost done = word_views(words@);
                    let mut whole: Vec<u8> = Vec::new();
                    whole.append(&mut word);
                    words.push(whole);
                    mode = Mode::Between;
                    assert(word_views(words@) =~= done.push(before.word));
                    assert(word@ =~= Seq::<u8>::empty());
                } else {
                    word.push(b);
                    mode = Mode::Bare;
                }
            },
            Mode::Comment => {
                if b == NEWLINE {
                    mode = Mode::Between;
                }
            },
            Mode::Escaped => {
                if b != NEWLINE {
                    word.push(b);
                }
                mode = Mode::Bare;
            },
            Mode::Single => {
                if b == SINGLE_QUOTE {
                    mode = Mode::Bare;
                } else {
                    word.push(b);
                }
            },
            Mode::Double => {
                if b == BACKSLASH {
                    mode = Mode::DoubleEscaped;
                } else if b == DOUBLE_QUOTE {
                    mode = Mode::Bare;
                } else {
                    word.push(b);
                }
            },
            Mode::DoubleEscaped => {
                if b == DOLLAR || b == BACKTICK || b == DOUBLE_QUOTE || b == BACKSLASH {
                    word.push(b);
                } else if b != NEWLINE {
                    word.push(BACKSLASH);
                    word.push(b);
                }
                mode = Mode::Double;
            },
        }
        assert(before.feed(b) == Reader { mode, word: word@, words: word_views(words@) });
        i += 1;
    }
    assert(line@.take(i as int) =~= line@);
    match mode {
        Mode::Between | Mode::Comment => Some(words),
        Mode::Bare => {
            let ghost done = word_views(words@);
            words.push(word);
            assert(word_views(words@) =~= done.push(word@));
            Some(words)
        },
        _ => None,
    }
}

} // verus!
