//! The instances of a global.
//!
//! The registry only ever grows. Host functions and listeners carry indices into it, not
//! pointers: an index cannot dangle, and whether its instance is finished with is found out when
//! the index is used.

use vstd::prelude::*;

use crate::instance::{InstanceView, WasmDomInstance};

verus! {

/// The instances that were ever registered with a global, in order.
pub struct InstanceRegistry {
    instances: Vec<WasmDomInstance>,
}

impl View for InstanceRegistry {
    type V = Seq<InstanceView>;

    closed spec fn view(&self) -> Seq<InstanceView> {
        self.instances@.map_values(|instance: WasmDomInstance| instance@)
    }
}

/// Whether an index names an instance that is not torn down.
pub open spec fn is_live(instances: Seq<InstanceView>, index: int) -> bool {
    0 <= index < instances.len() && !instances[index].torn_down
}

impl InstanceRegistry {
    /// What holds of every registry.
    pub closed spec fn wf(&self) -> bool {
        forall|i: int| 0 <= i < self.instances@.len() ==> (#[trigger] self.instances@[i]).wf()
    }

    /// What a registry in order is known to be from outside.
    pub proof fn lemma_wf(&self, index: int)
        requires
            self.wf(),
            0 <= index < self@.len(),
        ensures
            self@[index].handles.wf(),
            self@[index].handles.depth() <= u32::MAX,
    {
        self.instances@[index].lemma_wf();
    }

    /// Creates a registry without instances.
    pub fn new() -> (registry: Self)
        ensures
            registry.wf(),
            registry@ == Seq::<InstanceView>::empty(),
    {
        let registry = InstanceRegistry { instances: Vec::new() };
        assert(registry@ =~= Seq::empty());
        registry
    }

    /// How many instances were ever registered.
    pub fn count(&self) -> (count: usize)
        ensures
            count == self@.len(),
    {
        self.instances.len()
    }

    /// Registers an instance and gives its index.
    pub fn register(&mut self, instance: WasmDomInstance) -> (index: usize)
        requires
            old(self).wf(),
            instance.wf(),
        ensures
            final(self).wf(),
            index == old(self)@.len(),
            final(self)@ == old(self)@.push(instance@),
    {
        let ghost before = self@;
        let index: usize = self.instances.len();
        self.instances.push(instance);
        assert(self@ =~= before.push(instance@));
        index
    }

    /// The instance with an index, torn down or not.
    pub fn registered(&self, index: usize) -> (found: Option<&WasmDomInstance>)
        requires
            self.wf(),
        ensures
            match found {
                Some(instance) => {
                    &&& index < self@.len()
                    &&& instance@ == self@[index as int]
                    &&& instance.wf()
                },
                None => index >= self@.len(),
            },
    {
        if index < self.instances.len() {
            Some(&self.instances[index])
        } else {
            None
        }
    }

    /// The instance with an index, to be changed.
    pub fn registered_mut(&mut self, index: usize) -> (instance: &mut WasmDomInstance)
        requires
            old(self).wf(),
            index < old(self)@.len(),
        ensures
            instance.wf(),
            instance@ == old(self)@[index as int],
            final(instance).wf() ==> final(self).wf(),
            final(self)@ == old(self)@.update(index as int, final(instance)@),
    {
        &mut self.instances[index]
    }

    /// Whether an index that a host function carries names an instance that is not torn down.
    pub fn is_live(&self, index: i32) -> (live: bool)
        requires
            self.wf(),
        ensures
            live == is_live(self@, index as int),
    {
        if index < 0 {
            return false;
        }
        match self.registered(index as usize) {
            Some(instance) => !instance.is_torn_down(),
            None => false,
        }
    }
}

} // verus!
