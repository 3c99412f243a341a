//! The state of one module instance that talks to the DOM.
//!
//! It outlives the call that created it: a module can register an event listener and return, and
//! when the listener fires, the handles, the callback ids and the memory still have to be there.

use vstd::prelude::*;
use vstd::utf8::encode_utf8;

use crate::error::Error;
use crate::handle_laws::clearing_releases_everything;
use crate::handle_model::TableView;
use crate::handles::{lemma_push_contains, resolved, ObjectId, Reflector, WasmDomHandles};
use crate::wasm_abi::{
    abi_message, abi_text, error_message, error_status, error_text, status_code, WasmAbiStatus,
    WasmHandle,
};
use crate::wasm_handles::clamped_cap;

verus! {

/// A listener that the module registered, kept so that removal can pass back the same object.
pub struct ListenerEntry {
    /// The event target that was given the listener.
    pub target: ObjectId,
    pub callback_id: i32,
    pub event_type: String,
    pub capture: bool,
    /// The listener object that the event target was given.
    pub listener: ObjectId,
}

/// A registered listener.
pub struct ListenerView {
    pub target: ObjectId,
    pub callback_id: i32,
    pub event_type: Seq<char>,
    pub capture: bool,
    pub listener: ObjectId,
}

impl View for ListenerEntry {
    type V = ListenerView;

    open spec fn view(&self) -> ListenerView {
        ListenerView {
            target: self.target,
            callback_id: self.callback_id,
            event_type: self.event_type@,
            capture: self.capture,
            listener: self.listener,
        }
    }
}

impl ListenerView {
    /// Whether this is a registration of the given callback with the given target, for the given
    /// event and phase.
    pub open spec fn matches_key(
        self,
        target: ObjectId,
        callback_id: i32,
        event_type: Seq<char>,
        capture: bool,
    ) -> bool {
        &&& self.target == target
        &&& self.callback_id == callback_id
        &&& self.event_type == event_type
        &&& self.capture == capture
    }
}

/// Where the oldest registration with the given key stands, or the number of registrations if
/// there is none.
pub open spec fn first_match(
    listeners: Seq<ListenerView>,
    target: ObjectId,
    callback_id: i32,
    event_type: Seq<char>,
    capture: bool,
) -> nat
    decreases listeners.len(),
{
    if listeners.len() == 0 || listeners[0].matches_key(target, callback_id, event_type, capture) {
        0
    } else {
        1 + first_match(listeners.skip(1), target, callback_id, event_type, capture)
    }
}

/// The state of an instance.
#[verifier::ext_equal]
pub struct InstanceView {
    /// The memory object of the module, once it is bound.
    pub memory: Option<ObjectId>,
    /// The function that the host calls when a listener fires, if the module provides one.
    pub dispatcher: Option<ObjectId>,
    pub listeners: Seq<ListenerView>,
    pub handles: TableView<Reflector>,
    /// A string result that was too large for the buffer it was meant for.
    pub pending_string: Option<Seq<u8>>,
    /// The code and the message of the most recent failure.
    pub pending_error: Option<(i32, Seq<char>)>,
    /// How deep calls from the host into the module are nested.
    pub depth: u32,
    pub torn_down: bool,
}

impl InstanceView {
    /// An instance whose module does not exist yet.
    pub open spec fn fresh(max_handles: u64) -> Self {
        InstanceView {
            memory: None,
            dispatcher: None,
            listeners: Seq::empty(),
            handles: TableView::<Reflector>::new(clamped_cap(max_handles)),
            pending_string: None,
            pending_error: None,
            depth: 0,
            torn_down: false,
        }
    }

    /// What is left of an instance when it is torn down.
    pub open spec fn after_tear_down(self) -> Self {
        InstanceView {
            dispatcher: None,
            listeners: Seq::empty(),
            handles: self.handles.cleared(),
            pending_string: None,
            pending_error: None,
            torn_down: true,
            ..self
        }
    }

    /// The instance after a failure was recorded.
    pub open spec fn failed_with(self, error: Error) -> Self {
        InstanceView {
            pending_error: Some((status_code(error_status(error)) as i32, error_text(error))),
            ..self
        }
    }

    /// The instance after a call gave a result: a failure of the ABI is recorded, and a success
    /// leaves in place what was recorded before.
    pub open spec fn noting(self, result: Result<i32, WasmAbiStatus>) -> Self {
        match result {
            Ok(_) => self,
            Err(status) => InstanceView {
                pending_error: Some((status_code(status) as i32, abi_text(status))),
                ..self
            },
        }
    }

    /// The listener that a removal takes back.
    pub open spec fn forgotten(
        self,
        target: ObjectId,
        callback_id: i32,
        event_type: Seq<char>,
        capture: bool,
    ) -> Option<ObjectId> {
        let index = first_match(self.listeners, target, callback_id, event_type, capture);
        if index < self.listeners.len() {
            Some(self.listeners[index as int].listener)
        } else {
            None
        }
    }

    /// The instance after a removal.
    pub open spec fn after_forgetting(
        self,
        target: ObjectId,
        callback_id: i32,
        event_type: Seq<char>,
        capture: bool,
    ) -> Self {
        let index = first_match(self.listeners, target, callback_id, event_type, capture);
        if index < self.listeners.len() {
            InstanceView { listeners: self.listeners.remove(index as int), ..self }
        } else {
            self
        }
    }

    /// Whether an object has to be kept alive for the instance.
    pub open spec fn keeps_alive(self, object: ObjectId) -> bool {
        ||| self.memory == Some(object)
        ||| self.dispatcher == Some(object)
        ||| exists|i: int|
            0 <= i < self.listeners.len() && (#[trigger] self.listeners[i]).listener == object
        ||| self.handles.names(Some(object))
    }

    /// Whether all but the memory and the dispatcher is as in another instance.
    pub open spec fn keeps_the_rest_of(self, other: Self) -> bool {
        &&& self.listeners == other.listeners
        &&& self.handles == other.handles
        &&& self.pending_string == other.pending_string
        &&& self.pending_error == other.pending_error
        &&& self.depth == other.depth
        &&& self.torn_down == other.torn_down
    }

    /// The code of the most recent failure, or zero.
    pub open spec fn error_code(self) -> i32 {
        match self.pending_error {
            Some((code, _)) => code,
            None => 0,
        }
    }
}

/// The state that belongs to one instance of a module.
pub struct WasmDomInstance {
    memory: Option<ObjectId>,
    dispatcher: Option<ObjectId>,
    listeners: Vec<ListenerEntry>,
    handles: WasmDomHandles,
    pending_string: Option<Vec<u8>>,
    pending_error: Option<(i32, String)>,
    depth: u32,
    torn_down: bool,
}

impl View for WasmDomInstance {
    type V = InstanceView;

    closed spec fn view(&self) -> InstanceView {
        InstanceView {
            memory: self.memory,
            dispatcher: self.dispatcher,
            listeners: self.listeners@.map_values(|entry: ListenerEntry| entry@),
            handles: self.handles@,
            pending_string: match self.pending_string {
                Some(bytes) => Some(bytes@),
                None => None,
            },
            pending_error: match self.pending_error {
                Some((code, message)) => Some((code, message@)),
                None => None,
            },
            depth: self.depth,
            torn_down: self.torn_down,
        }
    }
}

impl WasmDomInstance {
    /// What holds of every instance.
    pub closed spec fn wf(&self) -> bool {
        self.handles.wf()
    }

    /// What an instance in order is known to be from outside.
    pub proof fn lemma_wf(&self)
        requires
            self.wf(),
        ensures
            self@.handles.wf(),
            self@.handles.depth() <= u32::MAX,
    {
        self.handles.lemma_wf();
    }

    /// Creates an instance before its module exists. Its memory is supplied later, because the
    /// imports have to exist before the module and the exported memory only exists after it.
    pub fn new(max_handles: u64) -> (instance: Self)
        ensures
            instance.wf(),
            instance@ == InstanceView::fresh(max_handles),
    {
        let instance = WasmDomInstance {
            memory: None,
            dispatcher: None,
            listeners: Vec::new(),
            handles: WasmDomHandles::new(max_handles),
            pending_string: None,
            pending_error: None,
            depth: 0,
            torn_down: false,
        };
        assert(instance@.listeners =~= Seq::empty());
        instance
    }

    /// The memory object of the module.
    pub fn memory(&self) -> (memory: Option<ObjectId>)
        ensures
            memory == self@.memory,
    {
        self.memory
    }

    /// Binds the memory that the instantiated module exports.
    pub fn set_memory(&mut self, memory: Option<ObjectId>)
        requires
            old(self).wf(),
        ensures
            final(self).wf(),
            final(self)@ == (InstanceView { memory, ..old(self)@ }),
    {
        self.memory = memory;
    }

    /// Whether a memory has been bound yet.
    pub fn has_memory(&self) -> (bound: bool)
        ensures
            bound == (self@.memory is Some),
    {
        self.memory.is_some()
    }

    /// The dispatcher that the module exports, if it does.
    pub fn dispatcher(&self) -> (dispatcher: Option<ObjectId>)
        ensures
            dispatcher == self@.dispatcher,
    {
        self.dispatcher
    }

    /// Binds the dispatcher.
    pub fn set_dispatcher(&mut self, dispatcher: Option<ObjectId>)
        requires
            old(self).wf(),
        ensures
            final(self).wf(),
            final(self)@ == (InstanceView { dispatcher, ..old(self)@ }),
    {
        self.dispatcher = dispatcher;
    }

    /// Records a listener so that it can be handed back on removal.
    pub fn remember_listener(&mut self, entry: ListenerEntry)
        requires
            old(self).wf(),
        ensures
            final(self).wf(),
            final(self)@ == (InstanceView {
                listeners: old(self)@.listeners.push(entry@),
                ..old(self)@
            }),
    {
        let ghost before = self@;
        self.listeners.push(entry);
        assert(self@.listeners =~= before.listeners.push(entry@));
    }

    /// Takes back the oldest registration with the given key, if there is one.
    pub fn forget_listener(
        &mut self,
        target: ObjectId,
        callback_id: i32,
        event_type: &str,
        capture: bool,
    ) -> (found: Option<ObjectId>)
        requires
            old(self).wf(),
        ensures
            final(self).wf(),
            found == old(self)@.forgotten(target, callback_id, event_type@, capture),
            final(self)@ == old(self)@.after_forgetting(target, callback_id, event_type@, capture),
    {
        let ghost before = self@;
        let count: usize = self.listeners.len();
        let wanted: String = event_type.to_owned();
        let mut index: usize = 0;
        assert(before.listeners.skip(0) =~= before.listeners);
        while index < count
            invariant
                index <= count,
                count == self.listeners@.len(),
                self.wf(),
                self@ == before,
                before == old(self)@,
                wanted@ == event_type@,
                first_match(before.listeners, target, callback_id, event_type@, capture) == index
                    + first_match(
                    before.listeners.skip(index as int),
                    target,
                    callback_id,
                    event_type@,
                    capture,
                ),
            decreases count - index,
        {
            let entry = &self.listeners[index];
            assert(before.listeners[index as int] == entry@);
            if entry.target == target && entry.callback_id == callback_id && entry.event_type
                == wanted && entry.capture == capture {
                let entry = self.listeners.remove(index);
                assert(self@.listeners =~= before.listeners.remove(index as int));
                return Some(entry.listener);
            }
            assert(before.listeners.skip(index as int).skip(1) =~= before.listeners.skip(
                index + 1,
            ));
            index += 1;
        }
        None
    }

    /// The handles that the module holds.
    pub fn handles(&self) -> (handles: &WasmDomHandles)
        requires
            self.wf(),
        ensures
            handles.wf(),
            handles@ == self@.handles,
    {
        &self.handles
    }

    /// The handles that the module holds, to be changed.
    pub fn handles_mut(&mut self) -> (handles: &mut WasmDomHandles)
        requires
            old(self).wf(),
        ensures
            handles.wf(),
            handles@ == old(self)@.handles,
            final(handles).wf() ==> final(self).wf(),
            final(self)@ == (InstanceView { handles: final(handles)@, ..old(self)@ }),
    {
        &mut self.handles
    }

    /// The objects that have to be kept alive for the instance.
    pub fn roots(&self) -> (objects: Vec<ObjectId>)
        requires
            self.wf(),
        ensures
            forall|object: ObjectId| #[trigger]
                objects@.contains(object) <==> self@.keeps_alive(object),
    {
        let mut objects = self.handles.objects();
        let ghost held = |object: ObjectId| self.handles@.names(Some(object));
        for i in 0..self.listeners.len()
            invariant
                held == (|object: ObjectId| self.handles@.names(Some(object))),
                forall|object: ObjectId| #[trigger]
                    objects@.contains(object) <==> held(object) || exists|j: int|
                        0 <= j < i && (#[trigger] self@.listeners[j]).listener == object,
        {
            let ghost before = objects@;
            let listener: ObjectId = self.listeners[i].listener;
            objects.push(listener);
            assert(self@.listeners[i as int].listener == listener);
            assert forall|object: ObjectId| #[trigger]
                objects@.contains(object) <==> held(object) || exists|j: int|
                    0 <= j < i + 1 && (#[trigger] self@.listeners[j]).listener == object by {
                lemma_push_contains(before, listener, object);
            }
        }
        let ghost walked = objects@;
        if let Some(memory) = self.memory {
            proof {
                assert forall|object: ObjectId| #[trigger]
                    walked.push(memory).contains(object) <==> walked.contains(object) || object
                        == memory by {
                    lemma_push_contains(walked, memory, object);
                }
            }
            objects.push(memory);
        }
        let ghost bound = objects@;
        if let Some(dispatcher) = self.dispatcher {
            proof {
                assert forall|object: ObjectId| #[trigger]
                    bound.push(dispatcher).contains(object) <==> bound.contains(object) || object
                        == dispatcher by {
                    lemma_push_contains(bound, dispatcher, object);
                }
            }
            objects.push(dispatcher);
        }
        objects
    }

    /// Whether the instance is finished with.
    pub fn is_torn_down(&self) -> (torn_down: bool)
        ensures
            torn_down == self@.torn_down,
    {
        self.torn_down
    }

    /// Releases everything and makes all further host calls fail.
    pub fn tear_down(&mut self)
        requires
            old(self).wf(),
        ensures
            final(self).wf(),
            final(self)@ == old(self)@.after_tear_down(),
    {
        let ghost before = self@;
        self.torn_down = true;
        self.handles.clear();
        self.listeners.clear();
        self.dispatcher = None;
        self.pending_string = None;
        self.pending_error = None;
        assert(self@ =~= before.after_tear_down());
    }

    /// How deep calls from the host into the module are nested.
    pub fn depth(&self) -> (depth: u32)
        ensures
            depth == self@.depth,
    {
        self.depth
    }

    /// Enters a nested call from the host into the module, unless the limit is reached.
    pub fn enter_call(&mut self, max_depth: u64) -> (entered: Result<(), WasmAbiStatus>)
        requires
            old(self).wf(),
            old(self)@.depth < max_depth ==> old(self)@.depth < u32::MAX,
        ensures
            final(self).wf(),
            match entered {
                Ok(_) => {
                    &&& old(self)@.depth < max_depth
                    &&& final(self)@ == (InstanceView {
                        depth: (old(self)@.depth + 1) as u32,
                        ..old(self)@
                    })
                },
                Err(status) => {
                    &&& old(self)@.depth >= max_depth
                    &&& status == WasmAbiStatus::Reentrancy
                    &&& final(self)@ == old(self)@
                },
            },
    {
        if self.depth as u64 >= max_depth {
            return Err(WasmAbiStatus::Reentrancy);
        }
        self.depth = self.depth + 1;
        Ok(())
    }

    /// Leaves a nested call. A call that was never entered leaves the depth at zero.
    pub fn exit_call(&mut self)
        requires
            old(self).wf(),
        ensures
            final(self).wf(),
            final(self)@ == (InstanceView {
                depth: if old(self)@.depth == 0 {
                    0
                } else {
                    (old(self)@.depth - 1) as u32
                },
                ..old(self)@
            }),
    {
        self.depth = self.depth.saturating_sub(1);
    }

    /// Keeps a string that did not fit the buffer it was meant for.
    pub fn stash_string(&mut self, bytes: Vec<u8>)
        requires
            old(self).wf(),
        ensures
            final(self).wf(),
            final(self)@ == (InstanceView { pending_string: Some(bytes@), ..old(self)@ }),
    {
        self.pending_string = Some(bytes);
    }

    /// How many bytes the string has that was kept, if any.
    pub fn stashed_string_len(&self) -> (len: Option<usize>)
        ensures
            match len {
                Some(len) => self@.pending_string matches Some(bytes) && bytes.len() == len,
                None => self@.pending_string is None,
            },
    {
        match &self.pending_string {
            Some(bytes) => Some(bytes.len()),
            None => None,
        }
    }

    /// Takes the string that was kept, if any, so that it cannot be read again by a later call.
    pub fn take_stashed_string(&mut self) -> (taken: Option<Vec<u8>>)
        requires
            old(self).wf(),
        ensures
            final(self).wf(),
            final(self)@ == (InstanceView { pending_string: None, ..old(self)@ }),
            match taken {
                Some(bytes) => old(self)@.pending_string == Some(bytes@),
                None => old(self)@.pending_string is None,
            },
    {
        self.pending_string.take()
    }

    /// Records a failure and gives the status to hand back to the module.
    pub fn fail(&mut self, error: &Error) -> (status: WasmAbiStatus)
        requires
            old(self).wf(),
        ensures
            final(self).wf(),
            final(self)@ == old(self)@.failed_with(*error),
            status == error_status(*error),
    {
        let status = WasmAbiStatus::from(error);
        self.pending_error = Some((status.to_abi(), error_message(error)));
        status
    }

    /// Records a failure of the ABI itself.
    pub fn fail_abi(&mut self, status: WasmAbiStatus, message: &str) -> (same: WasmAbiStatus)
        requires
            old(self).wf(),
        ensures
            final(self).wf(),
            final(self)@ == (InstanceView {
                pending_error: Some((status_code(status) as i32, message@)),
                ..old(self)@
            }),
            same == status,
    {
        self.pending_error = Some((status.to_abi(), message.to_owned()));
        status
    }

    /// Records the failure of a call, if it failed, and gives the result on.
    pub fn note(&mut self, result: Result<i32, WasmAbiStatus>) -> (same: Result<
        i32,
        WasmAbiStatus,
    >)
        requires
            old(self).wf(),
        ensures
            final(self).wf(),
            final(self)@ == old(self)@.noting(result),
            same == result,
    {
        match result {
            Ok(value) => Ok(value),
            Err(status) => Err(self.fail_abi(status, abi_message(status))),
        }
    }

    /// The code of the most recent failure, or zero if there has been none.
    pub fn last_error_code(&self) -> (code: i32)
        ensures
            code == self@.error_code(),
    {
        match &self.pending_error {
            Some((code, _)) => *code,
            None => 0,
        }
    }

    /// How many bytes the message of the most recent failure has, if there is one.
    pub fn error_message_len(&self) -> (len: Option<usize>)
        ensures
            match len {
                Some(len) => self@.pending_error matches Some((_, message)) && encode_utf8(
                    message,
                ).len() == len,
                None => self@.pending_error is None,
            },
    {
        match &self.pending_error {
            Some((_, message)) => Some(message.as_str().as_bytes().len()),
            None => None,
        }
    }

    /// Takes the most recent failure, code and message together, so that the whole of it can be
    /// put back if it cannot be delivered.
    pub fn take_error(&mut self) -> (taken: Option<(i32, String)>)
        requires
            old(self).wf(),
        ensures
            final(self).wf(),
            final(self)@ == (InstanceView { pending_error: None, ..old(self)@ }),
            match taken {
                Some((code, message)) => old(self)@.pending_error == Some((code, message@)),
                None => old(self)@.pending_error is None,
            },
    {
        self.pending_error.take()
    }

    /// Puts back a failure whose message could not be delivered.
    pub fn restore_error(&mut self, code: i32, message: String)
        requires
            old(self).wf(),
        ensures
            final(self).wf(),
            final(self)@ == (InstanceView {
                pending_error: Some((code, message@)),
                ..old(self)@
            }),
    {
        self.pending_error = Some((code, message));
    }
}

// ---------------------------------------------------------------------------------------
// Laws
// ---------------------------------------------------------------------------------------

/// Where the oldest registration with a key stands: all before it have another key, and it has
/// that key, unless no registration has.
pub proof fn lemma_first_match(
    listeners: Seq<ListenerView>,
    target: ObjectId,
    callback_id: i32,
    event_type: Seq<char>,
    capture: bool,
)
    ensures
        ({
            let index = first_match(listeners, target, callback_id, event_type, capture);
            &&& index <= listeners.len()
            &&& index < listeners.len() ==> listeners[index as int].matches_key(
                target,
                callback_id,
                event_type,
                capture,
            )
            &&& forall|i: int|
                0 <= i < index ==> !(#[trigger] listeners[i]).matches_key(
                    target,
                    callback_id,
                    event_type,
                    capture,
                )
        }),
    decreases listeners.len(),
{
    if listeners.len() > 0 && !listeners[0].matches_key(target, callback_id, event_type, capture) {
        let rest = listeners.skip(1);
        lemma_first_match(rest, target, callback_id, event_type, capture);
        let index = first_match(listeners, target, callback_id, event_type, capture);
        assert forall|i: int| 0 <= i < index implies !(#[trigger] listeners[i]).matches_key(
            target,
            callback_id,
            event_type,
            capture,
        ) by {
            if i > 0 {
                assert(rest[i - 1] == listeners[i]);
            }
        }
        if index < listeners.len() {
            assert(rest[index - 1] == listeners[index as int]);
        }
    }
}

/// Removal hands back the identical listener object that was registered, and with it gone the
/// instance is as it was before the registration, provided that nothing with the same key was
/// registered earlier.
pub proof fn removal_hands_back_the_registered_listener(before: InstanceView, entry: ListenerView)
    requires
        forall|i: int|
            0 <= i < before.listeners.len() ==> !(#[trigger] before.listeners[i]).matches_key(
                entry.target,
                entry.callback_id,
                entry.event_type,
                entry.capture,
            ),
    ensures
        ({
            let registered = InstanceView { listeners: before.listeners.push(entry), ..before };
            &&& registered.forgotten(
                entry.target,
                entry.callback_id,
                entry.event_type,
                entry.capture,
            ) == Some(entry.listener)
            &&& registered.after_forgetting(
                entry.target,
                entry.callback_id,
                entry.event_type,
                entry.capture,
            ) == before
        }),
{
    let registered = InstanceView { listeners: before.listeners.push(entry), ..before };
    let index = first_match(
        registered.listeners,
        entry.target,
        entry.callback_id,
        entry.event_type,
        entry.capture,
    );
    lemma_first_match(
        registered.listeners,
        entry.target,
        entry.callback_id,
        entry.event_type,
        entry.capture,
    );
    if index < before.listeners.len() {
        assert(registered.listeners[index as int] == before.listeners[index as int]);
    }
    if index == registered.listeners.len() {
        assert(registered.listeners[before.listeners.len() as int] == entry);
    }
    assert(registered.listeners.remove(index as int) =~= before.listeners);
}

/// Removing something that was never registered finds nothing and changes nothing.
pub proof fn removing_an_unknown_listener_does_nothing(
    instance: InstanceView,
    target: ObjectId,
    callback_id: i32,
    event_type: Seq<char>,
    capture: bool,
)
    requires
        forall|i: int|
            0 <= i < instance.listeners.len() ==> !(#[trigger] instance.listeners[i]).matches_key(
                target,
                callback_id,
                event_type,
                capture,
            ),
    ensures
        instance.forgotten(target, callback_id, event_type, capture) is None,
        instance.after_forgetting(target, callback_id, event_type, capture) == instance,
{
    lemma_first_match(instance.listeners, target, callback_id, event_type, capture);
}

/// Tearing down releases every handle, makes every handle that was live stale, and doing it
/// again changes nothing.
pub proof fn tearing_down_is_final(instance: InstanceView, handle: WasmHandle)
    requires
        instance.handles.wf(),
    ensures
        instance.after_tear_down().torn_down,
        instance.after_tear_down().handles.live() == Map::<WasmHandle, Reflector>::empty(),
        instance.handles.is_live(handle) ==> instance.after_tear_down().handles.lookup(handle)
            == Err::<Reflector, WasmAbiStatus>(WasmAbiStatus::StaleHandle),
        instance.after_tear_down().after_tear_down() == instance.after_tear_down(),
{
    clearing_releases_everything(instance.handles, handle);
    assert(instance.handles.cleared().cleared() =~= instance.handles.cleared());
}

/// As long as a module holds a handle, the object behind it is kept alive.
pub proof fn a_held_object_is_kept_alive(instance: InstanceView, handle: WasmHandle)
    requires
        resolved(instance.handles, handle) is Ok,
    ensures
        instance.keeps_alive(resolved(instance.handles, handle)->Ok_0),
{
    assert(instance.handles.is_live(handle));
}

/// A new instance holds nothing: no memory, no dispatcher, no listener, no handle, no string and
/// no failure. It has room for as many handles as were asked for.
pub proof fn a_new_instance_holds_nothing(max_handles: u64)
    ensures
        ({
            let instance = InstanceView::fresh(max_handles);
            &&& instance.memory is None
            &&& instance.dispatcher is None
            &&& instance.listeners.len() == 0
            &&& instance.handles.live() == Map::<WasmHandle, Reflector>::empty()
            &&& instance.handles.depth() == 0
            &&& 1 <= max_handles <= 0x10_0000 ==> instance.handles.max_handles == max_handles
            &&& instance.pending_string is None
            &&& instance.error_code() == 0
            &&& instance.depth == 0
            &&& !instance.torn_down
        }),
{
    assert(InstanceView::fresh(max_handles).handles.live() =~= Map::<
        WasmHandle,
        Reflector,
    >::empty());
}

/// What is kept alive for an instance is its memory, its dispatcher, the listeners that it
/// registered and the objects that its live handles name, and nothing else.
pub proof fn what_an_instance_needs_is_kept_alive(
    instance: InstanceView,
    object: ObjectId,
    place: int,
    handle: WasmHandle,
)
    ensures
        instance.memory == Some(object) ==> instance.keeps_alive(object),
        instance.dispatcher == Some(object) ==> instance.keeps_alive(object),
        0 <= place < instance.listeners.len() ==> instance.keeps_alive(
            instance.listeners[place].listener,
        ),
        instance.handles.live().dom().contains(handle) && instance.handles.live()[handle] == Some(
            object,
        ) ==> instance.keeps_alive(object),
        instance.keeps_alive(object) && instance.memory != Some(object) && instance.dispatcher
            != Some(object) && (forall|i: int|
            0 <= i < instance.listeners.len() ==> (#[trigger] instance.listeners[i]).listener
                != object) ==> exists|held: WasmHandle|
            #![trigger instance.handles.live().dom().contains(held)]
            instance.handles.live().dom().contains(held) && instance.handles.live()[held] == Some(
                object,
            ),
{
    if instance.handles.live().dom().contains(handle) {
        assert(instance.handles.is_live(handle));
    }
    if instance.handles.names(Some(object)) {
        let held = choose|held: WasmHandle| #[trigger]
            instance.handles.is_live(held) && instance.handles.live()[held] == Some(object);
        assert(instance.handles.live().dom().contains(held));
    }
}

/// An instance that is torn down lets go of everything but its memory object: it has no
/// dispatcher, no listener, no handle, no scope, no string and no failure.
pub proof fn tearing_down_lets_go_of_everything(instance: InstanceView, object: ObjectId)
    requires
        instance.handles.wf(),
    ensures
        ({
            let after = instance.after_tear_down();
            &&& after.torn_down
            &&& after.dispatcher is None
            &&& after.listeners.len() == 0
            &&& after.handles.live() == Map::<WasmHandle, Reflector>::empty()
            &&& after.handles.depth() == 0
            &&& after.pending_string is None
            &&& after.error_code() == 0
            &&& after.memory == instance.memory
            &&& after.depth == instance.depth
            &&& after.keeps_alive(object) <==> instance.memory == Some(object)
        }),
{
    let after = instance.after_tear_down();
    tearing_down_is_final(instance, 0);
    if after.keeps_alive(object) {
        what_an_instance_needs_is_kept_alive(after, object, 0, 0);
    }
}

} // verus!
