//! Helpers for building chat messages.

use crate::types::Message;
use crate::types::Role;
use vstd::prelude::*;

verus! {

/// Builds one chat message from a role and a text.
pub fn message(role: Role, content: &str) -> (m: Message)
    ensures
        m.role == role,
        m.content@ == content@,
{
    Message { role, content: content.to_owned() }
}

/// Prepends a system message when one is given: the result is the
/// input messages unchanged when `system_message` is empty, and the
/// system message followed by the input messages otherwise.
pub fn prepare_messages(system_message: &str, messages: &[Message]) -> (r: Vec<Message>)
    ensures
        system_message@.len() == 0 ==> r@ =~= messages@,
        system_message@.len() > 0 ==> {
            &&& r@.len() == messages@.len() + 1
            &&& r@[0].role == Role::System
            &&& r@[0].content@ == system_message@
            &&& r@.skip(1) =~= messages@
        },
{
    let mut r: Vec<Message> = Vec::new();
    if !system_message.is_empty() {
        r.push(message(Role::System, system_message));
    }
    let ghost offset: int = r@.len() as int;
    let mut i: usize = 0;
    while i < messages.len()
        invariant
            i <= messages@.len(),
            offset == if system_message@.len() == 0 { 0int } else { 1int },
            r@.len() == offset + i,
            forall|j: int| 0 <= j < i ==> r@[offset + j] == messages@[j],
            offset == 1 ==> r@[0].role == Role::System && r@[0].content@ == system_message@,
        decreases messages@.len() - i,
    {
        r.push(messages[i].clone());
        i = i + 1;
    }
    r
}

} // verus!
