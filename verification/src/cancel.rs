//! The cancellation controller: it follows which keys are held, turns a
//! request to activate a trigger into one activation at the moment at which
//! no key is held any more, and remembers whether cancelling was asked for.
//!
//! Keys are numbers that the application chooses, one for each key.

use std::collections::HashSet;
use vstd::prelude::*;
use vstd::std_specs::hash::*;

verus! {

broadcast use group_hash_axioms;

/// What the listener saw.
#[derive(Clone, Copy, Debug, PartialEq, Eq, Structural)]
pub enum KeyEvent {
    /// The key was pressed.
    Press(u64),
    /// The key was released.
    Release(u64),
    /// Anything else, such as a move of the pointer.
    Other,
}

/// Model of a [`CancellationController`].
pub struct ControllerView {
    /// The key that asks for cancelling.
    pub cancel_key: u64,
    /// The keys that are held.
    pub pressed: Set<u64>,
    /// The trigger that waits for the keys to be released.
    pub armed: Option<nat>,
    /// Whether a run is under way.
    pub running: bool,
    /// Whether cancelling was asked for.
    pub cancel: bool,
}

impl ControllerView {
    /// The controller before any event.
    pub open spec fn initial(cancel_key: u64) -> ControllerView {
        ControllerView {
            cancel_key,
            pressed: Set::empty(),
            armed: None,
            running: false,
            cancel: false,
        }
    }

    /// The keys that are held after `event`.
    pub open spec fn held_after(self, event: KeyEvent) -> Set<u64> {
        match event {
            KeyEvent::Press(key) => self.pressed.insert(key),
            KeyEvent::Release(key) => self.pressed.remove(key),
            KeyEvent::Other => self.pressed,
        }
    }

    /// The trigger that `event` activates, if it activates one: a trigger
    /// waits, the event is no press of the cancel key, and no key is held
    /// after it.
    pub open spec fn fires(self, event: KeyEvent) -> Option<nat> {
        if event != KeyEvent::Press(self.cancel_key) && self.held_after(event) =~= Set::empty() {
            self.armed
        } else {
            None
        }
    }

    /// The controller after `event`. A press of the cancel key asks for
    /// cancelling; an activation starts a run and withdraws an earlier
    /// request to cancel.
    pub open spec fn observe(self, event: KeyEvent) -> ControllerView {
        let followed = ControllerView { pressed: self.held_after(event), ..self };
        if event == KeyEvent::Press(self.cancel_key) {
            ControllerView { cancel: true, ..followed }
        } else if self.fires(event) is Some {
            ControllerView { armed: None, running: true, cancel: false, ..followed }
        } else {
            followed
        }
    }

    /// The controller after the trigger of index `trigger` was asked for.
    /// During a run the request is dropped.
    pub open spec fn arm(self, trigger: nat) -> ControllerView {
        if self.running {
            self
        } else {
            ControllerView { armed: Some(trigger), ..self }
        }
    }

    /// The controller after a run has ended.
    pub open spec fn reset(self) -> ControllerView {
        ControllerView { pressed: Set::empty(), running: false, cancel: false, ..self }
    }

    /// During a run no trigger waits.
    pub open spec fn wf(self) -> bool {
        self.running ==> self.armed is None
    }
}

/// An activation comes at the moment at which the last key is released,
/// and once: the event that activates leaves no key held, and after it no
/// event activates until a trigger is asked for again, which a run that is
/// under way does not allow.
pub proof fn lemma_fires_once(controller: ControllerView, event: KeyEvent, later: KeyEvent)
    requires
        controller.wf(),
        controller.fires(event) is Some,
    ensures
        controller.armed == controller.fires(event),
        !controller.running,
        controller.observe(event).pressed =~= Set::<u64>::empty(),
        controller.observe(event).running,
        !controller.observe(event).cancel,
        controller.observe(event).fires(later) is None,
        forall|trigger: nat| #[trigger]
            controller.observe(event).arm(trigger).fires(later) is None,
{
}

/// While a key is held, nothing is activated.
pub proof fn lemma_held_key_blocks(controller: ControllerView, event: KeyEvent, key: u64)
    requires
        controller.held_after(event).contains(key),
    ensures
        controller.fires(event) is None,
{
}

/// Every operation keeps the controller well formed.
pub proof fn lemma_controller_wf(controller: ControllerView, event: KeyEvent, trigger: nat)
    requires
        controller.wf(),
    ensures
        controller.observe(event).wf(),
        controller.arm(trigger).wf(),
        controller.reset().wf(),
{
}

/// The keys that are held, the trigger that waits and the request to
/// cancel.
#[derive(Debug)]
pub struct CancellationController {
    cancel_key: u64,
    pressed: HashSet<u64>,
    armed: Option<usize>,
    running: bool,
    cancel: bool,
}

impl View for CancellationController {
    type V = ControllerView;

    closed spec fn view(&self) -> ControllerView {
        ControllerView {
            cancel_key: self.cancel_key,
            pressed: self.pressed@,
            armed: match self.armed {
                Some(trigger) => Some(trigger as nat),
                None => None,
            },
            running: self.running,
            cancel: self.cancel,
        }
    }
}

impl CancellationController {
    /// A controller for which `cancel_key` asks for cancelling.
    pub fn new(cancel_key: u64) -> (controller: CancellationController)
        ensures
            controller@ == ControllerView::initial(cancel_key),
    {
        CancellationController {
            cancel_key,
            pressed: HashSet::new(),
            armed: None,
            running: false,
            cancel: false,
        }
    }

    /// Whether cancelling was asked for.
    pub fn cancel_requested(&self) -> (cancel: bool)
        ensures
            cancel == self@.cancel,
    {
        self.cancel
    }

    /// Whether a run is under way.
    pub fn is_running(&self) -> (running: bool)
        ensures
            running == self@.running,
    {
        self.running
    }

    /// Asks for the trigger of index `trigger`: it is activated once no key
    /// is held. During a run the request is dropped.
    pub fn arm(&mut self, trigger: usize)
        ensures
            final(self)@ == old(self)@.arm(trigger as nat),
    {
        if !self.running {
            self.armed = Some(trigger);
        }
    }

    /// Takes in what the listener saw, and returns the trigger to activate
    /// now, if there is one.
    pub fn observe(&mut self, event: KeyEvent) -> (activated: Option<usize>)
        ensures
            final(self)@ == old(self)@.observe(event),
            match activated {
                Some(trigger) => old(self)@.fires(event) == Some(trigger as nat),
                None => old(self)@.fires(event) is None,
            },
    {
        let mut cancelled = false;
        match event {
            KeyEvent::Press(key) => {
                self.pressed.insert(key);
                cancelled = key == self.cancel_key;
            },
            KeyEvent::Release(key) => {
                self.pressed.remove(&key);
            },
            KeyEvent::Other => {},
        }
        assert(self.pressed@ == old(self)@.held_after(event));
        if cancelled {
            self.cancel = true;
            return None;
        }
        if !self.pressed.is_empty() {
            return None;
        }
        match self.armed {
            Some(trigger) => {
                self.armed = None;
                self.running = true;
                self.cancel = false;
                Some(trigger)
            },
            None => None,
        }
    }

    /// Ends the run: no key counts as held, and a request to cancel is
    /// withdrawn.
    pub fn reset(&mut self)
        ensures
            final(self)@ == old(self)@.reset(),
    {
        self.pressed.clear();
        self.running = false;
        self.cancel = false;
    }
}

} // verus!
