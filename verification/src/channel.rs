//! The privileged channel: one elevated shell that runs statements one at a
//! time and acknowledges each over a private pipe.
//!
//! A statement is written to the shell's standard input, followed by a
//! second statement that echoes a marker to a descriptor that only this
//! protocol uses. The marker coming back on that descriptor is the
//! acknowledgment. Markers count up from zero, and a statement is accepted
//! only when the one before it has been acknowledged, so at most one
//! statement is ever in flight.

use vstd::prelude::*;
use crate::quote::word_views;
use crate::text::{
    bytes_eq, copy_of, decimal, decimal_text, lemma_decimal_injective, push_all, push_decimal,
    text_of,
};

verus! {

/// The descriptor of the elevated shell on which markers travel back. It is
/// none of the shell's standard streams.
pub const ACK_FD: u64 = 3;

/// The text that is written to the shell for `statement` when `marker`
/// acknowledges it: the statement and its terminator, then the statement
/// that echoes the marker to the acknowledgment descriptor.
pub open spec fn framed(statement: Seq<u8>, marker: nat) -> Seq<u8> {
    statement + text_of(";\n") + text_of("echo ") + decimal(marker) + text_of(" >&") + decimal(
        ACK_FD as nat,
    ) + text_of(";\n")
}

/// The state of a channel as the protocol sees it.
pub struct ChannelView {
    /// The marker that the next statement gets.
    pub next: nat,
    /// The marker of the statement in flight.
    pub pending: Option<nat>,
    /// Whether the acknowledgment pipe is still open.
    pub open: bool,
}

impl ChannelView {
    /// A channel on which nothing was submitted yet.
    pub open spec fn fresh() -> ChannelView {
        ChannelView { next: 0, pending: None, open: true }
    }

    /// The statement in flight is the last one submitted.
    pub open spec fn wf(self) -> bool {
        self.pending matches Some(m) ==> m + 1 == self.next
    }

    /// The next statement can be submitted now.
    pub open spec fn ready(self) -> bool {
        self.open && self.pending is None && self.next < u64::MAX
    }

    /// How many statements have been acknowledged.
    pub open spec fn settled(self) -> int {
        if self.pending is Some {
            self.next - 1
        } else {
            self.next as int
        }
    }

    /// The channel after it accepted a statement.
    pub open spec fn submitted(self) -> ChannelView {
        ChannelView { next: self.next + 1, pending: Some(self.next), open: self.open }
    }

    /// `line` is the acknowledgment of the statement in flight.
    pub open spec fn acknowledges(self, line: Seq<u8>) -> bool {
        self.open && (self.pending matches Some(m) && line == decimal(m))
    }

    /// The channel after the statement in flight was acknowledged.
    pub open spec fn acknowledged(self) -> ChannelView {
        ChannelView { next: self.next, pending: None, open: self.open }
    }

    /// The channel after its pipe closed.
    pub open spec fn closed(self) -> ChannelView {
        ChannelView { next: self.next, pending: self.pending, open: false }
    }
}

/// What can happen on a channel.
pub enum ChannelInput {
    /// A statement is handed in.
    Submit(Seq<u8>),
    /// A line arrives on the acknowledgment pipe.
    Line(Seq<u8>),
    /// The acknowledgment pipe closes.
    Close,
}

impl ChannelView {
    /// The channel after `input`.
    pub open spec fn step(self, input: ChannelInput) -> ChannelView {
        match input {
            ChannelInput::Submit(_) => if self.ready() {
                self.submitted()
            } else {
                self
            },
            ChannelInput::Line(line) => if self.acknowledges(line) {
                self.acknowledged()
            } else {
                self
            },
            ChannelInput::Close => self.closed(),
        }
    }

    /// The channel after all of `inputs`, first to last.
    pub open spec fn run(self, inputs: Seq<ChannelInput>) -> ChannelView
        decreases inputs.len(),
    {
        if inputs.len() == 0 {
            self
        } else {
            self.step(inputs[0]).run(inputs.drop_first())
        }
    }

    /// The markers given to the statements that are accepted while `inputs`
    /// arrive, in the order of their submission.
    pub open spec fn submit_log(self, inputs: Seq<ChannelInput>) -> Seq<nat>
        decreases inputs.len(),
    {
        if inputs.len() == 0 {
            Seq::empty()
        } else {
            let accepted = if inputs[0] is Submit && self.ready() {
                seq![self.next]
            } else {
                Seq::empty()
            };
            accepted + self.step(inputs[0]).submit_log(inputs.drop_first())
        }
    }

    /// The markers acknowledged while `inputs` arrive, in the order of
    /// their acknowledgment.
    pub open spec fn ack_log(self, inputs: Seq<ChannelInput>) -> Seq<nat>
        decreases inputs.len(),
    {
        if inputs.len() == 0 {
            Seq::empty()
        } else {
            let acknowledged = match inputs[0] {
                ChannelInput::Line(line) if self.acknowledges(line) => seq![self.settled() as nat],
                _ => Seq::empty(),
            };
            acknowledged + self.step(inputs[0]).ack_log(inputs.drop_first())
        }
    }
}

/// A line acknowledges one statement at most: the markers of two
/// statements are never the same text.
pub proof fn lemma_markers_differ(first: nat, second: nat)
    requires
        first != second,
    ensures
        decimal(first) != decimal(second),
{
    if decimal(first) == decimal(second) {
        lemma_decimal_injective(first, second);
    }
}

/// Statements on one channel are acknowledged in the order of their
/// submission. Whatever arrives on a channel, the statements it accepts are
/// numbered upwards without a gap, their acknowledgments come in that same
/// numbering without a gap, so none comes before the one of the statement
/// before it, and never have more statements been acknowledged than were
/// submitted.
pub proof fn lemma_acknowledged_in_order(channel: ChannelView, inputs: Seq<ChannelInput>)
    requires
        channel.wf(),
    ensures
        channel.run(inputs).wf(),
        channel.submit_log(inputs).len() == channel.run(inputs).next - channel.next,
        forall|k: int|
            0 <= k < channel.submit_log(inputs).len() ==> #[trigger] channel.submit_log(inputs)[k]
                == channel.next + k,
        channel.ack_log(inputs).len() == channel.run(inputs).settled() - channel.settled(),
        forall|k: int|
            0 <= k < channel.ack_log(inputs).len() ==> #[trigger] channel.ack_log(inputs)[k]
                == channel.settled() + k,
        channel.settled() + channel.ack_log(inputs).len() <= channel.next + channel.submit_log(
            inputs,
        ).len(),
    decreases inputs.len(),
{
    if inputs.len() > 0 {
        lemma_acknowledged_in_order(channel.step(inputs[0]), inputs.drop_first());
    }
}

/// The sequence counter and the statement in flight of one elevated shell.
#[derive(Debug)]
pub struct Channel {
    next: u64,
    pending: Option<u64>,
    open: bool,
}

impl View for Channel {
    type V = ChannelView;

    closed spec fn view(&self) -> ChannelView {
        ChannelView {
            next: self.next as nat,
            pending: match self.pending {
                Some(m) => Some(m as nat),
                None => None,
            },
            open: self.open,
        }
    }
}

/// The command that starts the elevated shell: a shell that stops at the
/// first failing statement, run with privilege, with every descriptor
/// above the acknowledgment descriptor closed.
pub open spec fn helper_words() -> Seq<Seq<u8>> {
    seq![
        text_of("sudo"),
        text_of("--close-from"),
        decimal((ACK_FD + 1) as nat),
        text_of("bash"),
        text_of("-eu"),
    ]
}

/// The words of the command that starts the elevated shell.
pub fn helper_command() -> (res: Vec<Vec<u8>>)
    ensures
        word_views(res@) == helper_words(),
{
    let mut words: Vec<Vec<u8>> = Vec::new();
    words.push(copy_of("sudo".as_bytes()));
    words.push(copy_of("--close-from".as_bytes()));
    words.push(decimal_text(ACK_FD + 1));
    words.push(copy_of("bash".as_bytes()));
    words.push(copy_of("-eu".as_bytes()));
    assert(word_views(words@) =~= helper_words());
    words
}

/// Writes the text for `statement` with `marker`.
pub fn frame_statement(statement: &[u8], marker: u64) -> (res: Vec<u8>)
    ensures
        res@ == framed(statement@, marker as nat),
{
    let mut out: Vec<u8> = Vec::new();
    push_all(&mut out, statement);
    push_all(&mut out, ";\n".as_bytes());
    push_all(&mut out, "echo ".as_bytes());
    push_decimal(&mut out, marker);
    push_all(&mut out, " >&".as_bytes());
    push_decimal(&mut out, ACK_FD);
    push_all(&mut out, ";\n".as_bytes());
    assert(out@ =~= framed(statement@, marker as nat));
    out
}

impl Channel {
    /// The channel of a shell that was just started.
    pub fn new() -> (res: Channel)
        ensures
            res@ == ChannelView::fresh(),
    {
        Channel { next: 0, pending: None, open: true }
    }

    /// Whether the acknowledgment pipe is still open.
    pub fn is_open(&self) -> (res: bool)
        ensures
            res == self@.open,
    {
        self.open
    }

    /// The marker of the statement in flight.
    pub fn pending(&self) -> (res: Option<u64>)
        ensures
            match res {
                Some(m) => self@.pending == Some(m as nat),
                None => self@.pending is None,
            },
    {
        self.pending
    }

    /// The marker that the next statement gets.
    pub fn next_marker(&self) -> (res: u64)
        ensures
            res == self@.next,
    {
        self.next
    }

    /// Accepts `statement` for the shell and returns the text to write to
    /// its standard input.
    ///
    /// A statement is accepted when the pipe is open, no statement is in
    /// flight and a marker is left; the channel then waits for its
    /// acknowledgment. Otherwise nothing changes.
    pub fn submit(&mut self, statement: &[u8]) -> (res: Option<Vec<u8>>)
        ensures
            old(self)@.ready() ==> final(self)@ == old(self)@.submitted() && (res matches Some(text)
                && text@ == framed(statement@, old(self)@.next)),
            !old(self)@.ready() ==> final(self)@ == old(self)@ && res is None,
            final(self)@ == old(self)@.step(ChannelInput::Submit(statement@)),
    {
        if !self.open || self.pending.is_some() || self.next == u64::MAX {
            return None;
        }
        let marker = self.next;
        let text = frame_statement(statement, marker);
        self.pending = Some(marker);
        self.next = marker + 1;
        Some(text)
    }

    /// Takes one line that came back on the acknowledgment pipe, without
    /// its line end, and says whether it acknowledges the statement in
    /// flight.
    ///
    /// Only a line equal to the marker in flight does; any other line is
    /// passed over and changes nothing.
    pub fn observe(&mut self, line: &[u8]) -> (res: bool)
        ensures
            res == old(self)@.acknowledges(line@),
            res ==> final(self)@ == old(self)@.acknowledged(),
            !res ==> final(self)@ == old(self)@,
            final(self)@ == old(self)@.step(ChannelInput::Line(line@)),
    {
        if !self.open {
            return false;
        }
        match self.pending {
            Some(marker) => {
                let want = decimal_text(marker);
                if bytes_eq(line, want.as_slice()) {
                    self.pending = None;
                    true
                } else {
                    false
                }
            },
            None => false,
        }
    }

    /// Records that the acknowledgment pipe closed. A statement in flight
    /// stays unconfirmed for good.
    pub fn close(&mut self)
        ensures
            final(self)@ == old(self)@.closed(),
            final(self)@ == old(self)@.step(ChannelInput::Close),
    {
        self.open = false;
    }
}

} // verus!
