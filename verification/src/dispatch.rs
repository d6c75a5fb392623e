//! The table of interrupt handlers and the dispatch that runs on it.
//!
//! Handlers are attached to a `HandlerTable` while the kernel starts up.
//! Starting the table consumes it and gives a `Running` table in exchange,
//! which says which handler is due but offers no way to change one: whatever
//! is dispatched was attached before the start.
//!
//! The table never calls a handler. It says which one is due; the interrupt
//! entry points call it and then acknowledge the controller.

use vstd::prelude::*;

verus! {

/// A hardware interrupt that the kernel serves.
#[derive(Clone, Copy, Debug, PartialEq, Eq, Structural)]
pub enum Interrupt {
    /// The timer has expired.
    Timer,
    /// The keyboard has a key to report.
    Keyboard,
}

/// The handler that is due for an interrupt.
pub enum Due<T, K> {
    /// Call this timer handler.
    Timer(T),
    /// Call this keyboard handler with the decoded key.
    Keyboard(K),
    /// No handler is attached for the interrupt.
    Nothing,
}

/// The handlers attached to a table, one at most for each kind of event.
pub ghost struct Handlers<S, T, K> {
    pub startup: Option<S>,
    pub timer: Option<T>,
    pub keyboard: Option<K>,
}

/// What a table in service holds: the handlers for the two interrupts and
/// the handle of the interrupt controller.
pub ghost struct Service<T, K, L> {
    pub timer: Option<T>,
    pub keyboard: Option<K>,
    pub controller: L,
}

impl<S, T, K> Handlers<S, T, K> {
    /// The service that starting a table with these handlers begins.
    pub open spec fn started<L>(self, controller: L) -> Service<T, K, L> {
        Service { timer: self.timer, keyboard: self.keyboard, controller }
    }
}

impl<T, K, L> Service<T, K, L> {
    /// The handler that is due for `interrupt`.
    pub open spec fn due(self, interrupt: Interrupt) -> Due<T, K> {
        match interrupt {
            Interrupt::Timer => match self.timer {
                Some(handler) => Due::Timer(handler),
                None => Due::Nothing,
            },
            Interrupt::Keyboard => match self.keyboard {
                Some(handler) => Due::Keyboard(handler),
                None => Due::Nothing,
            },
        }
    }
}

/// A table of handlers that is still being filled.
pub struct HandlerTable<S, T, K> {
    startup: Option<S>,
    timer: Option<T>,
    keyboard: Option<K>,
}

impl<S, T, K> View for HandlerTable<S, T, K> {
    type V = Handlers<S, T, K>;

    closed spec fn view(&self) -> Handlers<S, T, K> {
        Handlers { startup: self.startup, timer: self.timer, keyboard: self.keyboard }
    }
}

/// A table of handlers in service, together with the interrupt controller
/// that is to be acknowledged after each interrupt.
pub struct Running<T, K, L> {
    timer: Option<T>,
    keyboard: Option<K>,
    controller: L,
}

impl<T, K, L> View for Running<T, K, L> {
    type V = Service<T, K, L>;

    closed spec fn view(&self) -> Service<T, K, L> {
        Service { timer: self.timer, keyboard: self.keyboard, controller: self.controller }
    }
}

impl<S, T, K> HandlerTable<S, T, K> {
    /// A table with no handler attached.
    pub fn new() -> (r: Self)
        ensures
            r@ == (Handlers::<S, T, K> { startup: None, timer: None, keyboard: None }),
    {
        HandlerTable { startup: None, timer: None, keyboard: None }
    }

    /// Attaches the handler to run once when the table is started, in place
    /// of any attached before.
    pub fn startup(self, handler: S) -> (r: Self)
        ensures
            r@ == (Handlers { startup: Some(handler), ..self@ }),
    {
        HandlerTable { startup: Some(handler), timer: self.timer, keyboard: self.keyboard }
    }

    /// Attaches the handler for timer interrupts, in place of any attached
    /// before.
    pub fn timer(self, handler: T) -> (r: Self)
        ensures
            r@ == (Handlers { timer: Some(handler), ..self@ }),
    {
        HandlerTable { startup: self.startup, timer: Some(handler), keyboard: self.keyboard }
    }

    /// Attaches the handler for keyboard interrupts, in place of any attached
    /// before.
    pub fn keyboard(self, handler: K) -> (r: Self)
        ensures
            r@ == (Handlers { keyboard: Some(handler), ..self@ }),
    {
        HandlerTable { startup: self.startup, timer: self.timer, keyboard: Some(handler) }
    }

    /// Puts the table into service.
    ///
    /// Returns the table in service, which holds the interrupt handlers as
    /// they were attached, and the startup handler, for the caller to run
    /// once before it first waits for an interrupt.
    pub fn start<L>(self, controller: L) -> (r: (Running<T, K, L>, Option<S>))
        ensures
            r.0@ == self@.started(controller),
            r.1 == self@.startup,
    {
        (Running { timer: self.timer, keyboard: self.keyboard, controller }, self.startup)
    }
}

impl<T, K, L> Running<T, K, L> {
    /// Says which handler to call for `interrupt`.
    pub fn dispatch(&self, interrupt: Interrupt) -> (r: Due<T, K>) where T: Copy, K: Copy
        ensures
            r == self@.due(interrupt),
    {
        match interrupt {
            Interrupt::Timer => match self.timer {
                Some(handler) => Due::Timer(handler),
                None => Due::Nothing,
            },
            Interrupt::Keyboard => match self.keyboard {
                Some(handler) => Due::Keyboard(handler),
                None => Due::Nothing,
            },
        }
    }

    /// The interrupt controller to acknowledge once the handler has run.
    pub fn controller(&self) -> (r: &L)
        ensures
            *r == self@.controller,
    {
        &self.controller
    }
}

/// Whatever a table in service dispatches was attached before it was
/// started: for each interrupt the handler that is due is the one that the
/// table held for it at the start, and none is due where the table held none.
pub proof fn lemma_dispatch_serves_registrations<S, T, K, L>(
    handlers: Handlers<S, T, K>,
    controller: L,
    interrupt: Interrupt,
)
    ensures
        handlers.started(controller).due(interrupt) == match interrupt {
            Interrupt::Timer => match handlers.timer {
                Some(handler) => Due::<T, K>::Timer(handler),
                None => Due::Nothing,
            },
            Interrupt::Keyboard => match handlers.keyboard {
                Some(handler) => Due::<T, K>::Keyboard(handler),
                None => Due::Nothing,
            },
        },
        handlers.started(controller).controller == controller,
{
}

} // verus!
