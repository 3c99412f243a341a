//! Registering and removing event listeners on behalf of a module.
//!
//! A module names its handlers by integer ids. The listener that the event target is given is an
//! object of the engine that carries the id, and it is remembered: event targets compare
//! listeners by identity, so only the very object that was added can be removed.

use vstd::prelude::*;
use vstd::utf8::encode_utf8;

use crate::ctx::text_argument;
use crate::handles::ObjectId;
use crate::instance::{InstanceView, ListenerEntry, ListenerView, WasmDomInstance};
use crate::memory::BufferProperty;
use crate::wasm_abi::WasmAbiStatus;

verus! {

/// The bit of the options argument that asks for the capture phase.
pub const OPTION_CAPTURE: i32 = 1;

/// The bit of the options argument that asks for a listener that fires once.
pub const OPTION_ONCE: i32 = 2;

/// The bit of the options argument that asks for a passive listener.
pub const OPTION_PASSIVE: i32 = 4;

/// The options of a listener.
#[derive(Clone, Copy, Debug, Eq, PartialEq, Structural)]
pub struct ListenerOptions {
    pub capture: bool,
    pub once: bool,
    pub passive: bool,
}

/// The options that a bit field stands for.
pub open spec fn options_of(bits: i32) -> ListenerOptions {
    ListenerOptions {
        capture: bits & OPTION_CAPTURE != 0,
        once: bits & OPTION_ONCE != 0,
        passive: bits & OPTION_PASSIVE != 0,
    }
}

/// Unpacks the options argument.
pub fn listener_options(bits: i32) -> (options: ListenerOptions)
    ensures
        options == options_of(bits),
{
    ListenerOptions {
        capture: bits & OPTION_CAPTURE != 0,
        once: bits & OPTION_ONCE != 0,
        passive: bits & OPTION_PASSIVE != 0,
    }
}

/// Each option has a bit of its own: any combination can be asked for, and bits without a
/// meaning are ignored.
pub proof fn options_are_independent(
    capture: bool,
    once: bool,
    passive: bool,
    bits: i32,
    noise: i32,
)
    requires
        bits == (if capture {
            1i32
        } else {
            0i32
        }) | (if once {
            2i32
        } else {
            0i32
        }) | (if passive {
            4i32
        } else {
            0i32
        }),
        noise & 7i32 == 0,
    ensures
        options_of(bits) == (ListenerOptions { capture, once, passive }),
        options_of(bits | noise) == options_of(bits),
{
    assert(((bits & 1i32 != 0) == capture) && ((bits & 2i32 != 0) == once) && ((bits & 4i32 != 0)
        == passive)) by (bit_vector)
        requires
            bits == (if capture {
                1i32
            } else {
                0i32
            }) | (if once {
                2i32
            } else {
                0i32
            }) | (if passive {
                4i32
            } else {
                0i32
            }),
    ;
    assert((bits | noise) & 1i32 == bits & 1i32 && (bits | noise) & 2i32 == bits & 2i32 && (bits
        | noise) & 4i32 == bits & 4i32) by (bit_vector)
        requires
            noise & 7i32 == 0,
    ;
}

/// What a module asks for when it adds or removes a listener.
pub struct ListenerRequest {
    pub target: ObjectId,
    pub event_type: String,
    pub callback_id: i32,
    pub options: ListenerOptions,
}

/// What a module asks for when it adds or removes a listener.
pub struct RequestView {
    pub target: ObjectId,
    pub event_type: Seq<char>,
    pub callback_id: i32,
    pub options: ListenerOptions,
}

impl View for ListenerRequest {
    type V = RequestView;

    open spec fn view(&self) -> RequestView {
        RequestView {
            target: self.target,
            event_type: self.event_type@,
            callback_id: self.callback_id,
            options: self.options,
        }
    }
}

/// The request that the arguments of a call stand for, given the object that the first of them
/// names and whether it is an event target.
pub open spec fn request_of(
    instance: InstanceView,
    memory: BufferProperty,
    target: ObjectId,
    is_event_target: bool,
    args: Seq<i32>,
) -> Result<RequestView, WasmAbiStatus> {
    if !is_event_target {
        Err(WasmAbiStatus::WrongType)
    } else {
        match text_argument(instance, memory, args[1] as int, args[2] as int) {
            Ok(event_type) => Ok(
                RequestView {
                    target,
                    event_type,
                    callback_id: args[3],
                    options: options_of(args[4]),
                },
            ),
            Err(status) => Err(status),
        }
    }
}

/// The registration that a request leads to, once there is a listener for it.
pub open spec fn registration_of(request: RequestView, listener: ObjectId) -> ListenerView {
    ListenerView {
        target: request.target,
        callback_id: request.callback_id,
        event_type: request.event_type,
        capture: request.options.capture,
        listener,
    }
}

/// Decodes the arguments of a call that adds or removes a listener.
pub fn decode_request(
    instance: &WasmDomInstance,
    memory: &BufferProperty,
    target: ObjectId,
    is_event_target: bool,
    args: &[i32],
) -> (request: Result<ListenerRequest, WasmAbiStatus>)
    requires
        args@.len() >= 5,
    ensures
        match request {
            Ok(request) => request_of(instance@, *memory, target, is_event_target, args@) == Ok::<
                RequestView,
                WasmAbiStatus,
            >(request@),
            Err(status) => request_of(instance@, *memory, target, is_event_target, args@) == Err::<
                RequestView,
                WasmAbiStatus,
            >(status),
        },
{
    if !is_event_target {
        return Err(WasmAbiStatus::WrongType);
    }
    let event_type = match instance.str_arg(memory, args[1], args[2]) {
        Ok(event_type) => event_type,
        Err(status) => return Err(status),
    };
    Ok(
        ListenerRequest {
            target,
            event_type,
            callback_id: args[3],
            options: listener_options(args[4]),
        },
    )
}

/// Remembers a listener that an event target was given, so that it can be taken back.
pub fn record_listener(
    instance: &mut WasmDomInstance,
    request: ListenerRequest,
    listener: ObjectId,
)
    requires
        old(instance).wf(),
    ensures
        final(instance).wf(),
        final(instance)@ == (InstanceView {
            listeners: old(instance)@.listeners.push(registration_of(request@, listener)),
            ..old(instance)@
        }),
{
    instance.remember_listener(
        ListenerEntry {
            target: request.target,
            callback_id: request.callback_id,
            event_type: request.event_type,
            capture: request.options.capture,
            listener,
        },
    );
}

/// Takes back the listener that a request for removal is about, if there is one.
pub fn take_back_listener(instance: &mut WasmDomInstance, request: &ListenerRequest) -> (found:
    Option<ObjectId>)
    requires
        old(instance).wf(),
    ensures
        final(instance).wf(),
        found == old(instance)@.forgotten(
            request@.target,
            request@.callback_id,
            request@.event_type,
            request@.options.capture,
        ),
        final(instance)@ == old(instance)@.after_forgetting(
            request@.target,
            request@.callback_id,
            request@.event_type,
            request@.options.capture,
        ),
{
    instance.forget_listener(
        request.target,
        request.callback_id,
        request.event_type.as_str(),
        request.options.capture,
    )
}

/// A request that is accepted asks for what the module passed: it is about an event target, its
/// event type is the text whose encoding stands in the memory at the pointer with the length that
/// follows it, and the handler and the options are the last two arguments. An object that is no
/// event target is refused, whatever else was passed, and so is a type that cannot be read.
pub proof fn a_request_is_what_the_module_asked_for(
    instance: InstanceView,
    memory: BufferProperty,
    target: ObjectId,
    is_event_target: bool,
    args: Seq<i32>,
)
    requires
        args.len() == 5,
    ensures
        match request_of(instance, memory, target, is_event_target, args) {
            Ok(request) => {
                &&& is_event_target
                &&& request.target == target
                &&& request.callback_id == args[3]
                &&& request.options.capture == (args[4] & 1i32 != 0)
                &&& request.options.once == (args[4] & 2i32 != 0)
                &&& request.options.passive == (args[4] & 4i32 != 0)
                &&& instance.memory is Some
                &&& memory.attached() is Some
                &&& 0 <= args[1]
                &&& 0 <= args[2]
                &&& args[1] + args[2] <= memory.attached()->0.len()
                &&& encode_utf8(request.event_type) == memory.attached()->0.subrange(
                    args[1] as int,
                    args[1] + args[2],
                )
            },
            Err(status) => if !is_event_target {
                status == WasmAbiStatus::WrongType
            } else if instance.memory is None || memory.attached() is None {
                status == WasmAbiStatus::MemoryDetached
            } else if args[1] < 0 || args[2] < 0 || args[1] + args[2]
                > memory.attached()->0.len() {
                status == WasmAbiStatus::OutOfBounds
            } else {
                &&& status == WasmAbiStatus::InvalidUtf8
                &&& forall|text: Seq<char>| #[trigger]
                    encode_utf8(text) != memory.attached()->0.subrange(
                        args[1] as int,
                        args[1] + args[2],
                    )
            },
        },
{
    crate::ctx::a_string_argument_is_the_text_that_stands_there(
        instance,
        memory,
        args[1] as int,
        args[2] as int,
    );
}

/// A listener is recorded with what the module asked for: the target, the event, the handler and
/// the phase of the request, and the listener object itself.
pub proof fn a_registration_keeps_its_request(request: RequestView, listener: ObjectId)
    ensures
        ({
            let entry = registration_of(request, listener);
            &&& entry.target == request.target
            &&& entry.event_type == request.event_type
            &&& entry.callback_id == request.callback_id
            &&& entry.capture == request.options.capture
            &&& entry.listener == listener
        }),
{
}

/// A request is shown as it is.
pub proof fn a_request_is_shown_as_it_is(request: ListenerRequest)
    ensures
        request@.target == request.target,
        request@.event_type == request.event_type@,
        request@.callback_id == request.callback_id,
        request@.options == request.options,
{
}

} // verus!
