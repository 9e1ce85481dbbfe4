//! The counts and messages of a run.

use crate::entry::{skipped, EntryView};
use crate::operation::{planned, Action, ActionView, OperationView};
use vstd::prelude::*;
use vstd::string::*;

verus! {

/// The model of a [`Tally`]: how many entries were handed to the operation,
/// and the success messages in the order in which they came in.
pub struct TallyView {
    pub seen: nat,
    pub messages: Seq<Seq<char>>,
}

impl TallyView {
    /// The tally of a run in which nothing has happened yet.
    pub open spec fn empty() -> TallyView {
        TallyView { seen: 0, messages: Seq::empty() }
    }

    /// The number of successes: one for each message.
    pub open spec fn succeeded(self) -> nat {
        self.messages.len()
    }

    /// The tally after one more action. A skipped entry changes nothing; every
    /// other entry is counted as seen, and a move or a rename adds its message.
    pub open spec fn record(self, action: ActionView) -> TallyView {
        if !action.dispatched() {
            self
        } else {
            TallyView {
                seen: self.seen + 1,
                messages: match action.message() {
                    Some(message) => self.messages.push(message),
                    None => self.messages,
                },
            }
        }
    }

    /// The tally after a sequence of actions, in order.
    pub open spec fn record_all(self, actions: Seq<ActionView>) -> TallyView
        decreases actions.len(),
    {
        if actions.len() == 0 {
            self
        } else {
            self.record_all(actions.drop_last()).record(actions.last())
        }
    }
}

/// Whatever is recorded, and in whatever order, there are never more successes
/// than entries seen, and the successes are exactly the messages that came in.
/// Neither count ever goes down, and no action counts more than once.
pub proof fn lemma_successes_within_seen(start: TallyView, actions: Seq<ActionView>)
    requires
        start.succeeded() <= start.seen,
    ensures
        start.record_all(actions).succeeded() == start.record_all(actions).messages.len(),
        start.record_all(actions).succeeded() <= start.record_all(actions).seen,
        start.seen <= start.record_all(actions).seen <= start.seen + actions.len(),
        start.succeeded() <= start.record_all(actions).succeeded(),
    decreases actions.len(),
{
    if actions.len() > 0 {
        lemma_successes_within_seen(start, actions.drop_last());
    }
}

/// An entry that the filter leaves alone leaves no trace in the tally: it is
/// not counted and no message is added for it.
pub proof fn lemma_filtered_entry_leaves_no_trace(
    tally: TallyView,
    entry: EntryView,
    operation: OperationView,
)
    requires
        skipped(entry),
    ensures
        tally.record(planned(entry, operation)) == tally,
{
}

/// The counters and the collected messages of a run.
#[derive(Debug)]
pub struct Tally {
    seen: u64,
    messages: Vec<String>,
}

impl View for Tally {
    type V = TallyView;

    closed spec fn view(&self) -> TallyView {
        TallyView {
            seen: self.seen as nat,
            messages: Seq::new(self.messages@.len(), |i: int| self.messages@[i]@),
        }
    }
}

impl Tally {
    #[verifier::type_invariant]
    spec fn consistent(self) -> bool {
        self.messages@.len() <= self.seen
    }

    /// A tally with nothing counted.
    pub fn new() -> (tally: Self)
        ensures
            tally@ == TallyView::empty(),
    {
        let tally = Tally { seen: 0, messages: Vec::new() };
        assert(tally@.messages =~= Seq::empty());
        tally
    }

    /// Counts one action.
    pub fn record(&mut self, action: &Action)
        requires
            old(self)@.seen < u64::MAX,
        ensures
            final(self)@ == old(self)@.record(action@),
    {
        proof {
            use_type_invariant(&*self);
        }
        match action.message() {
            Some(message) => {
                let mut messages: Vec<String> = Vec::new();
                std::mem::swap(&mut messages, &mut self.messages);
                messages.push(String::from_str(message));
                self.seen = self.seen + 1;
                self.messages = messages;
                assert(self@.messages =~= old(self)@.messages.push(message@));
            },
            None => {
                match action {
                    Action::Skip => {},
                    _ => {
                        self.seen = self.seen + 1;
                        assert(self@.messages =~= old(self)@.messages);
                    },
                }
            },
        }
    }

    /// The number of entries that were handed to the operation.
    pub fn seen(&self) -> (n: u64)
        ensures
            n == self@.seen,
    {
        self.seen
    }

    /// The number of successes. It is the number of messages, and never more
    /// than the number of entries seen.
    pub fn succeeded(&self) -> (n: u64)
        ensures
            n == self@.succeeded(),
            n <= self@.seen,
    {
        proof {
            use_type_invariant(self);
        }
        self.messages.len() as u64
    }

    /// The success messages, in the order in which they were recorded.
    pub fn messages(&self) -> (messages: &Vec<String>)
        ensures
            messages@.len() == self@.messages.len(),
            forall|i: int| 0 <= i < messages@.len() ==> messages@[i]@ == self@.messages[i],
    {
        &self.messages
    }
}

} // verus!
