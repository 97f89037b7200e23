//! Picker activations requested by a second launch: they are counted as
//! generations and delivered once the primary instance is ready.
use vstd::prelude::*;

verus! {

/// Coordinates picker activations: requests made before the picker is ready
/// wait for the primary setup to flush them, and a failed delivery stays
/// pending.
pub struct PickerActivation {
    ready: bool,
    requested_generation: u64,
    delivered_generation: u64,
}

impl PickerActivation {
    pub closed spec fn is_ready(&self) -> bool {
        self.ready
    }

    pub closed spec fn requested(&self) -> nat {
        self.requested_generation as nat
    }

    pub closed spec fn delivered(&self) -> nat {
        self.delivered_generation as nat
    }

    /// No delivery ever runs ahead of the requests.
    #[verifier::type_invariant]
    closed spec fn delivered_follows_requests(&self) -> bool {
        self.delivered_generation <= self.requested_generation
    }

    /// Whether a requested activation has not been delivered yet.
    pub open spec fn has_pending(&self) -> bool {
        self.delivered() < self.requested()
    }

    pub fn requested_generation(&self) -> (generation: u64)
        ensures
            generation == self.requested(),
    {
        self.requested_generation
    }

    pub fn delivered_generation(&self) -> (generation: u64)
        ensures
            generation == self.delivered(),
    {
        self.delivered_generation
    }

    /// Records a request from another launch. It is shown at once when the
    /// picker is ready; otherwise it waits for `flush`.
    pub fn activate_existing_instance<E>(&mut self, show_picker: impl FnOnce() -> Result<(), E>) -> (result:
        Result<(), E>)
        requires
            old(self).requested() < u64::MAX,
            call_requires(show_picker, ()),
        ensures
            final(self).requested() == old(self).requested() + 1,
            final(self).is_ready() == old(self).is_ready(),
            final(self).delivered() <= final(self).requested(),
            !old(self).is_ready() ==> result is Ok && final(self).delivered() == old(self).delivered(),
            old(self).is_ready() ==> call_ensures(show_picker, (), result),
            old(self).is_ready() && result is Ok ==> final(self).delivered() == final(self).requested(),
            old(self).is_ready() && result is Err ==> final(self).delivered() == old(self).delivered(),
    {
        proof {
            use_type_invariant(&*self);
        }
        self.requested_generation = self.requested_generation + 1;
        let generation = self.requested_generation;
        if self.ready {
            self.deliver(generation, show_picker)
        } else {
            Ok(())
        }
    }

    /// Marks the picker ready and delivers every request made so far, if
    /// any is still pending.
    pub fn flush<E>(&mut self, show_picker: impl FnOnce() -> Result<(), E>) -> (result: Result<(), E>)
        requires
            call_requires(show_picker, ()),
        ensures
            final(self).is_ready(),
            final(self).requested() == old(self).requested(),
            final(self).delivered() <= final(self).requested(),
            !old(self).has_pending() ==> result is Ok && final(self).delivered() == old(self).delivered(),
            old(self).has_pending() ==> call_ensures(show_picker, (), result),
            old(self).has_pending() && result is Ok ==> final(self).delivered() == old(self).requested(),
            old(self).has_pending() && result is Err ==> final(self).delivered() == old(self).delivered(),
    {
        proof {
            use_type_invariant(&*self);
        }
        self.ready = true;
        let generation = self.requested_generation;
        self.deliver(generation, show_picker)
    }

    /// Shows the picker for `generation` unless it was delivered already;
    /// only a successful delivery is recorded.
    fn deliver<E>(&mut self, generation: u64, show_picker: impl FnOnce() -> Result<(), E>) -> (result:
        Result<(), E>)
        requires
            generation == old(self).requested(),
            call_requires(show_picker, ()),
        ensures
            final(self).is_ready() == old(self).is_ready(),
            final(self).requested() == old(self).requested(),
            old(self).delivered() >= generation ==> result is Ok && final(self).delivered()
                == old(self).delivered(),
            old(self).delivered() < generation ==> call_ensures(show_picker, (), result),
            old(self).delivered() < generation && result is Ok ==> final(self).delivered()
                == generation,
            old(self).delivered() < generation && result is Err ==> final(self).delivered()
                == old(self).delivered(),
    {
        if self.delivered_generation < generation {
            let delivery = show_picker();
            if delivery.is_ok() {
                self.delivered_generation = generation;
            }
            delivery
        } else {
            Ok(())
        }
    }
}

impl Default for PickerActivation {
    fn default() -> (activation: Self)
        ensures
            !activation.is_ready(),
            activation.requested() == 0,
            activation.delivered() == 0,
    {
        PickerActivation { ready: false, requested_generation: 0, delivered_generation: 0 }
    }
}

/// Initializes the primary instance's resources, then flushes the
/// activations that arrived before it was ready. A delivery failure is
/// handed to `on_delivery_error` and does not fail the setup; a resource
/// failure is returned before anything is shown.
pub fn run_primary_setup<T, E, D>(
    picker_activation: &mut PickerActivation,
    initialize_resources: impl FnOnce() -> Result<T, E>,
    show_picker: impl FnOnce() -> Result<(), D>,
    on_delivery_error: impl FnOnce(&D),
) -> (result: Result<T, E>)
    requires
        call_requires(initialize_resources, ()),
        call_requires(show_picker, ()),
        forall|d: &D| #[trigger] call_requires(on_delivery_error, (d,)),
    ensures
        call_ensures(initialize_resources, (), result),
        result is Err ==> final(picker_activation).is_ready() == old(picker_activation).is_ready()
            && final(picker_activation).delivered() == old(picker_activation).delivered(),
        result is Ok ==> final(picker_activation).is_ready(),
        final(picker_activation).requested() == old(picker_activation).requested(),
{
    let resources = initialize_resources();
    match resources {
        Ok(resources) => {
            match picker_activation.flush(show_picker) {
                Ok(()) => {},
                Err(error_value) => on_delivery_error(&error_value),
            }
            Ok(resources)
        },
        Err(error_value) => Err(error_value),
    }
}

} // verus!
