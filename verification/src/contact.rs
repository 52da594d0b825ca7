//! A contact as a list view holds it, with the narrow integers of a view
//! model, and its conversion to and from the contact that travels.

use vstd::prelude::*;
use vstd::std_specs::convert::FromSpecImpl;

use crate::common::ContactDto;

verus! {

/// A row of a contact list.
#[derive(Debug, Clone)]
pub struct Contact {
    pub id: i32,
    pub name: String,
    pub email: String,
    pub age: i32,
    pub subscribed: bool,
    pub contact_type: String,
}

/// The id of a row made from a contact: an absent id shows as 0, and a
/// present one is cut to its low 32 bits.
pub open spec fn row_id(id: Option<i64>) -> i32 {
    match id {
        Some(value) => value as i32,
        None => 0,
    }
}

impl Contact {
    /// The contact that travels: a row always has an id.
    pub fn to_dto(&self) -> (dto: ContactDto)
        ensures
            dto.id == Some(self.id as i64),
            dto.name@ == self.name@,
            dto.email@ == self.email@,
            dto.age == self.age,
            dto.subscribed == self.subscribed,
            dto.contact_type@ == self.contact_type@,
    {
        ContactDto {
            id: Some(self.id as i64),
            name: self.name.clone(),
            email: self.email.clone(),
            age: self.age as i64,
            subscribed: self.subscribed,
            contact_type: self.contact_type.clone(),
        }
    }
}

impl From<ContactDto> for Contact {
    fn from(dto: ContactDto) -> (row: Contact) {
        let id: i32 = match dto.id {
            Some(value) => #[verifier::truncate]
            (value as i32),
            None => 0,
        };
        Contact {
            id,
            name: dto.name,
            email: dto.email,
            age: #[verifier::truncate]
            (dto.age as i32),
            subscribed: dto.subscribed,
            contact_type: dto.contact_type,
        }
    }
}

impl FromSpecImpl<ContactDto> for Contact {
    open spec fn obeys_from_spec() -> bool {
        true
    }

    open spec fn from_spec(dto: ContactDto) -> Contact {
        Contact {
            id: row_id(dto.id),
            name: dto.name,
            email: dto.email,
            age: dto.age as i32,
            subscribed: dto.subscribed,
            contact_type: dto.contact_type,
        }
    }
}

} // verus!
