//! Domain model of the pet store: records composed from per-table data, and a
//! closed sum type over the mammal kinds.
//!
//! The store itself lives in `pet_state`, which splits every record into
//! per-kind tables and joins them back on read.
use vstd::prelude::*;

pub use crate::pet_module::pet_state::{PetState, ENTITY_CAPACITY};
pub use crate::pet_module::pet_state::{
    cats_of, dogs_of, first_with_uuid, hair_color_is, mammals_of, uuid_is, with_hair_color,
};
pub use crate::pet_module::pet_state::{
    lemma_cats_after_add, lemma_creation_order, lemma_dog_lookup, lemma_dogs_after_add,
    lemma_dogs_before_cats, lemma_hair_color_selection, lemma_mammal_count,
};

mod pet_state;

verus! {

/// Data shared by every pet: the identifier given at creation and the name.
#[derive(Debug, Clone, PartialEq, Eq, Hash)]
pub struct PetData {
    pub uuid: String,
    pub name: String,
}

/// Data shared by every mammal.
#[derive(Debug, Clone, PartialEq)]
pub struct MammalData {
    pub hair_color: String,
    pub breed: String,
    pub has_hair: bool,
}

/// Data of a reptile; no record kind uses it yet.
#[derive(Debug, Clone)]
pub struct ReptileData {
    pub scale_color: String,
    pub is_poisonous: bool,
}

/// Data only a dog has.
///
/// The tail length is kept as the bit pattern of an IEEE-754 binary64 value,
/// so that the store hands back exactly the value it was given.
#[derive(Debug, Clone, PartialEq)]
pub struct DogData {
    pub tail_length_bits: u64,
    pub num_commands_known: i32,
}

/// Data only a cat has.
#[derive(Debug, Clone, PartialEq, Eq)]
pub struct CatData {
    pub declawed: bool,
    pub sits_on_keyboard: bool,
}

/// A dog: pet data, mammal data and dog data.
#[derive(Debug, Clone, PartialEq)]
pub struct Dog {
    pub pet: PetData,
    pub mammal: MammalData,
    pub dog_specific: DogData,
}

/// A cat: pet data, mammal data and cat data.
#[derive(Debug, Clone, PartialEq)]
pub struct Cat {
    pub pet: PetData,
    pub mammal: MammalData,
    pub cat_specific: CatData,
}

/// Any mammal the store knows of. The set of variants is closed.
#[derive(Debug, Clone, PartialEq)]
pub enum Mammal {
    Dog(Dog),
    Cat(Cat),
}

impl Mammal {
    /// The pet data of either variant.
    pub open spec fn pet_spec(self) -> PetData {
        match self {
            Mammal::Dog(d) => d.pet,
            Mammal::Cat(c) => c.pet,
        }
    }

    /// The mammal data of either variant.
    pub open spec fn mammal_spec(self) -> MammalData {
        match self {
            Mammal::Dog(d) => d.mammal,
            Mammal::Cat(c) => c.mammal,
        }
    }

    /// The sound a mammal of this variant makes.
    pub open spec fn sound_spec(self) -> Seq<char> {
        match self {
            Mammal::Dog(_) => "Woof!"@,
            Mammal::Cat(_) => "Meow!"@,
        }
    }

    pub fn pet_data(&self) -> (r: &PetData)
        ensures
            *r == self.pet_spec(),
    {
        match self {
            Mammal::Dog(d) => &d.pet,
            Mammal::Cat(c) => &c.pet,
        }
    }

    pub fn mammal_data(&self) -> (r: &MammalData)
        ensures
            *r == self.mammal_spec(),
    {
        match self {
            Mammal::Dog(d) => &d.mammal,
            Mammal::Cat(c) => &c.mammal,
        }
    }

    pub fn make_sound(&self) -> (r: &'static str)
        ensures
            r@ == self.sound_spec(),
    {
        match self {
            Mammal::Dog(_) => "Woof!",
            Mammal::Cat(_) => "Meow!",
        }
    }

    pub fn name(&self) -> (r: &str)
        ensures
            r@ == self.pet_spec().name@,
    {
        self.pet_data().name.as_str()
    }

    pub fn uuid(&self) -> (r: &str)
        ensures
            r@ == self.pet_spec().uuid@,
    {
        self.pet_data().uuid.as_str()
    }

    pub fn hair_color(&self) -> (r: &str)
        ensures
            r@ == self.mammal_spec().hair_color@,
    {
        self.mammal_data().hair_color.as_str()
    }

    pub fn is_dog(&self) -> (r: bool)
        ensures
            r == self is Dog,
    {
        matches!(self, Mammal::Dog(_))
    }

    pub fn is_cat(&self) -> (r: bool)
        ensures
            r == self is Cat,
    {
        matches!(self, Mammal::Cat(_))
    }

    pub fn as_dog(&self) -> (r: Option<&Dog>)
        ensures
            r is Some == self is Dog,
            r is Some ==> *r->Some_0 == self->Dog_0,
    {
        match self {
            Mammal::Dog(dog) => Some(dog),
            _ => None,
        }
    }

    pub fn as_cat(&self) -> (r: Option<&Cat>)
        ensures
            r is Some == self is Cat,
            r is Some ==> *r->Some_0 == self->Cat_0,
    {
        match self {
            Mammal::Cat(cat) => Some(cat),
            _ => None,
        }
    }
}

impl Dog {
    /// Whether this dog holds exactly the given identifier and field values.
    pub open spec fn holds(
        self,
        uuid: String,
        name: Seq<char>,
        hair_color: Seq<char>,
        breed: Seq<char>,
        has_hair: bool,
        tail_length_bits: u64,
        num_commands_known: i32,
    ) -> bool {
        &&& self.pet.uuid == uuid
        &&& self.pet.name@ == name
        &&& self.mammal.hair_color@ == hair_color
        &&& self.mammal.breed@ == breed
        &&& self.mammal.has_hair == has_hair
        &&& self.dog_specific.tail_length_bits == tail_length_bits
        &&& self.dog_specific.num_commands_known == num_commands_known
    }

    /// Stores a new dog in `ps`; returns the store and the dog's identifier.
    pub fn create(
        ps: PetState,
        name: &str,
        hair_color: &str,
        breed: &str,
        has_hair: bool,
        tail_length_bits: u64,
        num_commands_known: i32,
    ) -> (r: (PetState, String))
        requires
            ps.wf(),
            ps@.len() < ENTITY_CAPACITY,
        ensures
            r.0.wf(),
            r.1@.len() == 36,
            r.0@.len() == ps@.len() + 1,
            r.0@.drop_last() == ps@,
            r.0@.last() is Dog,
            r.0@.last()->Dog_0.holds(r.1, name@, hair_color@, breed@, has_hair, tail_length_bits, num_commands_known),
    {
        let mut ps = ps;
        let id = ps.add_dog(
            name.to_owned(),
            hair_color.to_owned(),
            breed.to_owned(),
            has_hair,
            tail_length_bits,
            num_commands_known,
        );
        (ps, id)
    }
}

impl Cat {
    /// Whether this cat holds exactly the given identifier and field values.
    pub open spec fn holds(
        self,
        uuid: String,
        name: Seq<char>,
        hair_color: Seq<char>,
        breed: Seq<char>,
        has_hair: bool,
        declawed: bool,
        sits_on_keyboard: bool,
    ) -> bool {
        &&& self.pet.uuid == uuid
        &&& self.pet.name@ == name
        &&& self.mammal.hair_color@ == hair_color
        &&& self.mammal.breed@ == breed
        &&& self.mammal.has_hair == has_hair
        &&& self.cat_specific.declawed == declawed
        &&& self.cat_specific.sits_on_keyboard == sits_on_keyboard
    }

    /// Stores a new cat in `ps`; returns the store and the cat's identifier.
    pub fn create(
        ps: PetState,
        name: &str,
        hair_color: &str,
        breed: &str,
        has_hair: bool,
        declawed: bool,
        sits_on_keyboard: bool,
    ) -> (r: (PetState, String))
        requires
            ps.wf(),
            ps@.len() < ENTITY_CAPACITY,
        ensures
            r.0.wf(),
            r.1@.len() == 36,
            r.0@.len() == ps@.len() + 1,
            r.0@.drop_last() == ps@,
            r.0@.last() is Cat,
            r.0@.last()->Cat_0.holds(r.1, name@, hair_color@, breed@, has_hair, declawed, sits_on_keyboard),
    {
        let mut ps = ps;
        let id = ps.add_cat(
            name.to_owned(),
            hair_color.to_owned(),
            breed.to_owned(),
            has_hair,
            declawed,
            sits_on_keyboard,
        );
        (ps, id)
    }
}

/// Which variant a mammal is: exactly one of the two.
pub proof fn lemma_variant_exclusive(m: Mammal)
    ensures
        m is Dog != m is Cat,
{
}

} // verus!
