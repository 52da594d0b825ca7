//! Small helpers on contacts and e-mail text.

use vstd::prelude::*;
use vstd::string::*;

use crate::common::ContactDto;

verus! {

/// Whether `text` holds the character `wanted`.
fn holds_char(text: &str, wanted: char) -> (found: bool)
    ensures
        found == text@.contains(wanted),
{
    let len = text.unicode_len();
    let mut i: usize = 0;
    while i < len
        invariant
            i <= len,
            len == text@.len(),
            forall|j: int| 0 <= j < i ==> text@[j] != wanted,
        decreases len - i,
    {
        if text.get_char(i) == wanted {
            return true;
        }
        i += 1;
    }
    false
}

/// A quick plausibility check: the text holds an `@` and a dot.
pub fn is_valid_email(email: &str) -> (plausible: bool)
    ensures
        plausible == (email@.contains('@') && email@.contains('.')),
{
    holds_char(email, '@') && holds_char(email, '.')
}

/// The position of the first contact whose id is `id`, if there is one.
pub open spec fn first_with_id(contacts: Seq<ContactDto>, id: int) -> Option<int> {
    if exists|i: int| 0 <= i < contacts.len() && (#[trigger] contacts[i]).id == Some(id as i64) {
        Some(
            choose|i: int|
                0 <= i < contacts.len() && (#[trigger] contacts[i]).id == Some(id as i64) && forall|j: int|
                    0 <= j < i ==> (#[trigger] contacts[j]).id != Some(id as i64),
        )
    } else {
        None
    }
}

/// The first contact with the id `id`.
pub fn find_contact_by_id(contacts: &[ContactDto], id: u32) -> (found: Option<&ContactDto>)
    ensures
        found is Some <==> first_with_id(contacts@, id as int) is Some,
        found matches Some(contact) ==> *contact == contacts@[first_with_id(contacts@, id as int).unwrap()],
{
    let wanted: i64 = id as i64;
    let mut i: usize = 0;
    while i < contacts.len()
        invariant
            i <= contacts@.len(),
            wanted == id as int,
            forall|j: int| 0 <= j < i ==> (#[trigger] contacts@[j]).id != Some(wanted),
        decreases contacts@.len() - i,
    {
        let hit = match contacts[i].id {
            Some(value) => value == wanted,
            None => false,
        };
        if hit {
            proof {
                let chosen = first_with_id(contacts@, id as int).unwrap();
                assert(contacts@[i as int].id == Some(wanted));
                if chosen < i {
                    assert(contacts@[chosen].id != Some(wanted));
                } else if i < chosen {
                    assert(contacts@[i as int].id != Some(wanted));
                }
            }
            return Some(&contacts[i]);
        }
        i += 1;
    }
    None
}

} // verus!
