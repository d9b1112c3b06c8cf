//! The uniform invocation boundary of a command: an ordered sequence of raw
//! string tokens in, success or a typed failure out.

use vstd::prelude::*;

use crate::command_error::CommandError;

verus! {

/// What a command's implementation satisfies. A handler accepts the raw
/// argument tokens of one invocation and returns its own result, which the
/// dispatcher passes through unchanged; internally it may bind typed
/// parameters with [`crate::binding::bind_arguments`].
///
/// The ghost invocation log makes dispatch observable: the dispatcher's
/// contract says whose log grew, and that an arity violation or a failed
/// lookup grew no log at all.
pub trait CommandHandler: Sized {
    /// The arguments of every invocation this handler has received, oldest
    /// first. A verified handler overrides this log and shows in `call` that
    /// it grows by one; the default, an ever-empty log, serves handlers whose
    /// invocation history nothing observes.
    open spec fn invocations(&self) -> Seq<Seq<Seq<char>>> {
        Seq::empty()
    }

    /// Handles one invocation, appending it to the log. The result is the
    /// handler's own: nothing constrains it.
    fn call(&mut self, args: &Vec<String>) -> (r: Result<(), CommandError>)
        ensures
            final(self).invocations() == old(self).invocations().push(args.deep_view()),
    ;
}

/// A handler that does nothing but record its invocations: the observer that
/// shows whether dispatch invoked a command.
pub struct RecordingHandler {
    called: bool,
    calls: Ghost<Seq<Seq<Seq<char>>>>,
}

impl RecordingHandler {
    /// The observable flag agrees with the ghost log.
    #[verifier::type_invariant]
    pub closed spec fn wf(&self) -> bool {
        self.called <==> self.calls@.len() > 0
    }

    /// A fresh handler with an empty log.
    pub fn new() -> (r: RecordingHandler)
        ensures
            r.invocations() == Seq::<Seq<Seq<char>>>::empty(),
    {
        RecordingHandler { called: false, calls: Ghost(Seq::empty()) }
    }

    /// Whether the handler was ever invoked.
    pub fn was_called(&self) -> (r: bool)
        ensures
            r == (self.invocations().len() > 0),
    {
        proof {
            use_type_invariant(self);
        }
        self.called
    }
}

impl CommandHandler for RecordingHandler {
    closed spec fn invocations(&self) -> Seq<Seq<Seq<char>>> {
        self.calls@
    }

    fn call(&mut self, args: &Vec<String>) -> (r: Result<(), CommandError>) {
        *self = RecordingHandler { called: true, calls: Ghost(self.calls@.push(args.deep_view())) };
        Ok(())
    }
}

} // verus!
