use vstd::prelude::*;

verus! {

/// The kind of a message of the log.
#[derive(Clone, Copy, Debug, PartialEq, Eq, Structural)]
pub enum MessageType {
    Info,
    Error,
}

/// One entry of the message log.
pub struct Message {
    pub text: String,
    pub ty: MessageType,
    pub timestamp: u64,
}

impl Message {
    pub fn text(&self) -> (r: &str)
        ensures
            r@ == self.text@,
    {
        self.text.as_str()
    }

    pub fn ty(&self) -> (r: MessageType)
        ensures
            r == self.ty,
    {
        self.ty
    }

    pub fn timestamp(&self) -> (r: u64)
        ensures
            r == self.timestamp,
    {
        self.timestamp
    }
}

/// The most messages the log keeps; older ones are trimmed away.
pub const LOG_CAPACITY: usize = 100;

/// The message log, newest message first.
pub struct Log {
    messages: Vec<Message>,
}

impl Log {
    /// The messages, newest first.
    pub closed spec fn view(&self) -> Seq<Message> {
        self.messages@
    }

    /// The log never holds more than its capacity.
    pub open spec fn wf(&self) -> bool {
        self.view().len() <= LOG_CAPACITY
    }

    pub fn new() -> (r: Log)
        ensures
            r.wf(),
            r.view().len() == 0,
    {
        Log { messages: Vec::new() }
    }

    /// Adds a message in front; the oldest one is dropped when the log is full.
    pub fn log(&mut self, text: String, ty: MessageType, timestamp: u64)
        requires
            old(self).wf(),
        ensures
            final(self).wf(),
            final(self).view() == seq![Message { text, ty, timestamp }].add(old(self).view()).take(
                if old(self).view().len() < LOG_CAPACITY {
                    old(self).view().len() + 1int
                } else {
                    LOG_CAPACITY as int
                },
            ),
    {
        let ghost before = self.messages@;
        let ghost msg = Message { text, ty, timestamp };
        self.messages.insert(0, Message { text, ty, timestamp });
        if self.messages.len() > LOG_CAPACITY {
            self.messages.truncate(LOG_CAPACITY);
        }
        assert(self.messages@ =~= seq![msg].add(before).take(self.messages@.len() as int));
    }

    pub fn len(&self) -> (r: usize)
        ensures
            r == self.view().len(),
    {
        self.messages.len()
    }

    /// The messages, newest first; reading them leaves the log unchanged.
    pub fn items(&self) -> (r: &[Message])
        ensures
            r@ == self.view(),
    {
        self.messages.as_slice()
    }

    /// How many messages are shown when room is left for `n`: the newest
    /// `min(n, len)` ones.
    pub fn shown(&self, n: usize) -> (r: usize)
        ensures
            r == if n < self.view().len() { n as int } else { self.view().len() as int },
    {
        if n < self.messages.len() {
            n
        } else {
            self.messages.len()
        }
    }
}

} // verus!
