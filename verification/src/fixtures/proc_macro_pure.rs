//! A library with a record, an enum, free functions and an object.

use vstd::prelude::*;
use crate::text::{chars_of, decimal, push_decimal, text_of};

verus! {

/// A record with two fields.
#[derive(Debug, PartialEq, Eq)]
pub struct Person {
    pub name: String,
    pub age: u32,
}

/// An enum without fields.
#[derive(Clone, Copy, Debug, PartialEq, Eq, Structural)]
pub enum UserStatus {
    Active,
    Inactive,
    Pending,
}

/// What `greet` says of a person of this name and age.
pub open spec fn greeting(name: Seq<char>, age: nat) -> Seq<char> {
    "Hello, "@ + name + "! You are "@ + decimal(age) + " years old."@
}

pub fn create_person(name: String, age: u32) -> (person: Person)
    ensures
        person.name@ == name@,
        person.age == age,
{
    Person { name, age }
}

/// A line that greets `person` by name and tells their age.
pub fn greet(person: Person) -> (line: String)
    ensures
        line@ == greeting(person.name@, person.age as nat),
{
    let mut out = chars_of("Hello, ");
    let mut name = chars_of(person.name.as_str());
    out.append(&mut name);
    let mut middle = chars_of("! You are ");
    out.append(&mut middle);
    push_decimal(person.age as u64, &mut out);
    let mut end = chars_of(" years old.");
    out.append(&mut end);
    text_of(&out)
}

/// The name of a status.
pub open spec fn status_name(status: UserStatus) -> Seq<char> {
    match status {
        UserStatus::Active => "Active"@,
        UserStatus::Inactive => "Inactive"@,
        UserStatus::Pending => "Pending"@,
    }
}

pub fn status_to_string(user_status: UserStatus) -> (name: String)
    ensures
        name@ == status_name(user_status),
{
    match user_status {
        UserStatus::Active => "Active".to_owned(),
        UserStatus::Inactive => "Inactive".to_owned(),
        UserStatus::Pending => "Pending".to_owned(),
    }
}

/// The byte of the mock digest at place `i`: the byte of `data` at `i`,
/// counted round its length, plus `i`, both in eight bits; 0 where there is
/// no data or `i` is not below `iterations`.
pub open spec fn digest_byte(data: Option<Seq<u8>>, iterations: nat, i: int) -> u8 {
    match data {
        Some(d) if i < iterations && d.len() > 0 => ((d[i % (d.len() as int)] + i) % 256) as u8,
        _ => 0,
    }
}

/// The bytes of the data, where there is any.
pub open spec fn bytes_of(data: Option<Vec<u8>>) -> Option<Seq<u8>> {
    match data {
        Some(d) => Some(d@),
        None => None,
    }
}

/// A mock digest of `length` bytes.
///
/// Data without bytes has no byte to take: it is accepted only where no
/// byte is computed.
pub fn hash_data(data: Option<Vec<u8>>, iterations: u32, length: u32) -> (digest: Vec<u8>)
    requires
        data matches Some(d) ==> d@.len() > 0 || iterations == 0 || length == 0,
    ensures
        digest@.len() == length,
        forall|i: int|
            0 <= i < length ==> #[trigger] digest@[i] == digest_byte(
                bytes_of(data),
                iterations as nat,
                i,
            ),
{
    let mut result: Vec<u8> = Vec::new();
    let mut k: u32 = 0;
    while k < length
        invariant
            k <= length,
            result@.len() == k,
            forall|i: int| 0 <= i < k ==> #[trigger] result@[i] == 0,
        decreases length - k,
    {
        result.push(0u8);
        k = k + 1;
    }
    let rounds = if iterations < length {
        iterations
    } else {
        length
    };
    let ghost model = bytes_of(data);
    if let Some(d) = &data {
        let mut i: u32 = 0;
        while i < rounds
            invariant
                i <= rounds <= length,
                rounds <= iterations,
                rounds > 0 ==> d@.len() > 0,
                model == Some(d@),
                result@.len() == length,
                forall|j: int|
                    0 <= j < i ==> #[trigger] result@[j] == digest_byte(model, iterations as nat, j),
                forall|j: int| i <= j < length ==> #[trigger] result@[j] == 0,
            decreases rounds - i,
        {
            let b = d[i as usize % d.len()];
            let byte = ((b as u32 + i % 256) % 256) as u8;
            assert(byte == ((b + i) % 256) as u8) by {
                assert((b as int + (i as int) % 256) % 256 == (b as int + i as int) % 256)
                    by (nonlinear_arith);
            }
            result.set(i as usize, byte);
            i = i + 1;
        }
    }
    result
}

/// A counter.
#[derive(Debug, PartialEq, Eq)]
pub struct Counter {
    value: i32,
}

impl Counter {
    /// The count.
    pub closed spec fn count(&self) -> int {
        self.value as int
    }

    pub fn new(initial: i32) -> (counter: Self)
        ensures
            counter.count() == initial,
    {
        Counter { value: initial }
    }

    /// Counts one up. A counter at the largest count cannot count further.
    pub fn increment(&mut self)
        requires
            old(self).count() < i32::MAX,
        ensures
            final(self).count() == old(self).count() + 1,
    {
        self.value = self.value + 1;
    }

    pub fn get_value(&self) -> (value: i32)
        ensures
            value == self.count(),
    {
        self.value
    }
}

} // verus!
