use vstd::prelude::*;

use crate::errors::SimulationError;
use crate::traits::Updatable;

verus! {

/// `min(a + b, cap)`, computed without overflow.
pub open spec fn add_capped(a: u32, b: u32, cap: u32) -> u32 {
    if a + b > cap {
        cap
    } else {
        (a + b) as u32
    }
}

/// The abstract state of a [`Cell`].
pub struct CellView {
    pub id: usize,
    pub cur_resource: u32,
    pub max_resource: u32,
    pub regen_rate: u32,
    pub max_regen_rate: u32,
}

impl CellView {
    /// Resource and regeneration rate stay within their maxima.
    pub open spec fn wf(self) -> bool {
        &&& self.cur_resource <= self.max_resource
        &&& self.regen_rate <= self.max_regen_rate
    }

    /// The cell after `amount` was added to its resource, capped at the maximum.
    pub open spec fn added(self, amount: u32) -> CellView {
        CellView {
            cur_resource: add_capped(self.cur_resource, amount, self.max_resource),
            ..self
        }
    }

    /// The cell after `delta` was added to its regeneration rate, capped at the maximum.
    pub open spec fn rate_increased(self, delta: u32) -> CellView {
        CellView {
            regen_rate: add_capped(self.regen_rate, delta, self.max_regen_rate),
            ..self
        }
    }

    /// The cell after one regeneration step.
    pub open spec fn regenerated(self) -> CellView {
        self.added(self.regen_rate)
    }

    /// The cell after `amount` was deducted from its resource.
    pub open spec fn taken(self, amount: u32) -> CellView
        recommends
            amount <= self.cur_resource,
    {
        CellView { cur_resource: (self.cur_resource - amount) as u32, ..self }
    }
}

/// One grid position: a resource store that regenerates every step.
pub struct Cell {
    id: usize,
    cur_resource: u32,
    max_resource: u32,
    regen_rate: u32,
    max_regen_rate: u32,
}

impl View for Cell {
    type V = CellView;

    closed spec fn view(&self) -> CellView {
        CellView {
            id: self.id,
            cur_resource: self.cur_resource,
            max_resource: self.max_resource,
            regen_rate: self.regen_rate,
            max_regen_rate: self.max_regen_rate,
        }
    }
}

impl Cell {
    /// The cell's invariant: resource and rate within their maxima.
    pub open spec fn wf(&self) -> bool {
        self@.wf()
    }

    /// Creates a cell from its id, current and maximum resource, and
    /// current and maximum regeneration rate.
    pub fn new(
        id: usize,
        cur_resource: u32,
        max_resource: u32,
        regen_rate: u32,
        max_regen_rate: u32,
    ) -> (r: Self)
        requires
            cur_resource <= max_resource,
            regen_rate <= max_regen_rate,
        ensures
            r@ == (CellView { id, cur_resource, max_resource, regen_rate, max_regen_rate }),
            r.wf(),
    {
        Cell { id, cur_resource, max_resource, regen_rate, max_regen_rate }
    }

    /// Adds `resource` to the cell, saturating at the maximum resource.
    pub fn add_resource(&mut self, resource: u32)
        requires
            old(self).wf(),
        ensures
            final(self)@ == old(self)@.added(resource),
            final(self).wf(),
    {
        self.cur_resource = self.cur_resource.saturating_add(resource).min(self.max_resource);
    }

    /// Deducts exactly `resource`, or fails and leaves the cell unchanged
    /// when it holds less than that.
    pub fn resource_consumption(&mut self, resource: u32) -> (r: Result<u32, SimulationError>)
        requires
            old(self).wf(),
        ensures
            final(self).wf(),
            old(self)@.cur_resource < resource ==> r == Err::<u32, SimulationError>(
                SimulationError::NotEnoughResources { available: old(self)@.cur_resource },
            ) && final(self)@ == old(self)@,
            old(self)@.cur_resource >= resource ==> r == Ok::<u32, SimulationError>(resource)
                && final(self)@ == old(self)@.taken(resource),
    {
        if self.cur_resource < resource {
            return Err(SimulationError::NotEnoughResources { available: self.cur_resource });
        }
        self.cur_resource = self.cur_resource - resource;
        Ok(resource)
    }

    /// Deducts as much as it can of `want`, and returns the amount deducted:
    /// `min(want, cur_resource)`.
    pub fn take_up_to(&mut self, want: u32) -> (r: u32)
        requires
            old(self).wf(),
        ensures
            r == if want <= old(self)@.cur_resource { want } else { old(self)@.cur_resource },
            final(self)@ == old(self)@.taken(r),
            final(self)@.cur_resource + r == old(self)@.cur_resource,
            final(self).wf(),
    {
        let take = want.min(self.cur_resource);
        self.cur_resource = self.cur_resource - take;
        take
    }

    /// Raises the regeneration rate by `regen_rate`, saturating at its maximum.
    pub fn increase_rate(&mut self, regen_rate: u32)
        requires
            old(self).wf(),
        ensures
            final(self)@ == old(self)@.rate_increased(regen_rate),
            final(self).wf(),
    {
        self.regen_rate = self.regen_rate.saturating_add(regen_rate).min(self.max_regen_rate);
    }

    /// Regrows the resource by the regeneration rate, saturating at the maximum.
    pub fn step(&mut self)
        ensures
            final(self)@ == old(self)@.regenerated(),
            old(self).wf() ==> final(self).wf(),
    {
        self.cur_resource = self.cur_resource.saturating_add(self.regen_rate).min(
            self.max_resource,
        );
    }

    /// The cell's id.
    pub fn id(&self) -> (r: usize)
        ensures
            r == self@.id,
    {
        self.id
    }

    /// The resource the cell holds now.
    pub fn cur_resource(&self) -> (r: u32)
        ensures
            r == self@.cur_resource,
    {
        self.cur_resource
    }
}

impl Updatable for Cell {
    open spec fn ready(&self) -> bool {
        self.wf()
    }

    /// Regenerates the cell; this never fails.
    fn update(&mut self) -> (r: Result<(), SimulationError>)
        ensures
            final(self)@ == old(self)@.regenerated(),
            final(self).wf(),
            r is Ok,
    {
        self.step();
        Ok(())
    }
}

} // verus!
