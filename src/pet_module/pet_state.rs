//! The store behind [`PetState`]: one `specs` component table per kind of
//! data, one entity per record, and joins over the tables to read records back.
use vstd::prelude::*;

use crate::pet_module::{Cat, CatData, Dog, DogData, Mammal, MammalData, PetData};

verus! {

#[verifier::external_type_specification]
#[verifier::external_body]
pub struct ExWorld(specs::World);

#[verifier::external_type_specification]
#[verifier::external_body]
#[verifier::reject_recursive_types(T)]
pub struct ExVecStorage<T>(specs::VecStorage<T>);

/// Most entities one store can hold: `hibitset`, which keeps the
/// membership masks of `specs`, panics on a larger index.
pub const ENTITY_CAPACITY: usize = 16777216;

/// Row of the pet table.
#[derive(Debug, Clone)]
pub struct PetComponent {
    pub uuid: String,
    pub name: String,
}

impl specs::Component for PetComponent {
    type Storage = specs::VecStorage<Self>;
}

/// Row of the mammal table.
#[derive(Debug, Clone)]
pub struct MammalComponent {
    pub hair_color: String,
    pub breed: String,
    pub has_hair: bool,
}

impl specs::Component for MammalComponent {
    type Storage = specs::VecStorage<Self>;
}

/// Row of the dog table.
#[derive(Debug, Clone)]
pub struct DogComponent {
    pub tail_length_bits: u64,
    pub num_commands_known: i32,
}

impl specs::Component for DogComponent {
    type Storage = specs::VecStorage<Self>;
}

/// Row of the cat table.
#[derive(Debug, Clone)]
pub struct CatComponent {
    pub declawed: bool,
    pub sits_on_keyboard: bool,
}

impl specs::Component for CatComponent {
    type Storage = specs::VecStorage<Self>;
}

/// What one entity of the world holds in each of the four tables.
pub struct EntityRow {
    pub pet: Option<PetComponent>,
    pub mammal: Option<MammalComponent>,
    pub dog: Option<DogComponent>,
    pub cat: Option<CatComponent>,
}

/// The entities of a world, in the order of their indices.
pub uninterp spec fn stored_entities(w: specs::World) -> Seq<EntityRow>;

/// Whether the four tables are registered in a world.
pub uninterp spec fn tables_registered(w: specs::World) -> bool;

/// Inner join of the pet, mammal and dog tables, in entity order.
pub open spec fn dog_join(rows: Seq<EntityRow>) -> Seq<(PetComponent, MammalComponent, DogComponent)> {
    rows.filter_map(
        |e: EntityRow|
            match (e.pet, e.mammal, e.dog) {
                (Some(p), Some(m), Some(d)) => Some((p, m, d)),
                _ => None,
            },
    )
}

/// Inner join of the pet, mammal and cat tables, in entity order.
pub open spec fn cat_join(rows: Seq<EntityRow>) -> Seq<(PetComponent, MammalComponent, CatComponent)> {
    rows.filter_map(
        |e: EntityRow|
            match (e.pet, e.mammal, e.cat) {
                (Some(p), Some(m), Some(c)) => Some((p, m, c)),
                _ => None,
            },
    )
}

/// Relies on `WorldExt::new` (via `World::new`): a new world holds no entity.
#[verifier::external_body]
fn empty_world() -> (r: specs::World)
    ensures
        stored_entities(r) == Seq::<EntityRow>::empty(),
{
    <specs::World as specs::WorldExt>::new()
}

/// Relies on `WorldExt::register` for the four tables: it adds a table where
/// none is, and leaves a registered table and the entities as they are.
#[verifier::external_body]
fn register_tables(w: &mut specs::World)
    ensures
        tables_registered(*final(w)),
        stored_entities(*final(w)) == stored_entities(*old(w)),
{
    specs::WorldExt::register::<PetComponent>(w);
    specs::WorldExt::register::<MammalComponent>(w);
    specs::WorldExt::register::<DogComponent>(w);
    specs::WorldExt::register::<CatComponent>(w);
}

/// Relies on `EntityBuilder::with` and `build` (after `WorldExt::create_entity`):
/// the next entity gets one row in each of the pet, mammal and dog tables.
#[verifier::external_body]
fn insert_dog_entity(w: &mut specs::World, pet: PetComponent, mammal: MammalComponent, dog: DogComponent)
    requires
        tables_registered(*old(w)),
        stored_entities(*old(w)).len() < ENTITY_CAPACITY,
    ensures
        tables_registered(*final(w)),
        stored_entities(*final(w)) == stored_entities(*old(w)).push(
            EntityRow { pet: Some(pet), mammal: Some(mammal), dog: Some(dog), cat: None },
        ),
{
    specs::Builder::build(
        specs::Builder::with(specs::Builder::with(specs::Builder::with(
            specs::WorldExt::create_entity(w), pet), mammal), dog),
    );
}

/// Relies on `EntityBuilder::with` and `build` (after `WorldExt::create_entity`):
/// the next entity gets one row in each of the pet, mammal and cat tables.
#[verifier::external_body]
fn insert_cat_entity(w: &mut specs::World, pet: PetComponent, mammal: MammalComponent, cat: CatComponent)
    requires
        tables_registered(*old(w)),
        stored_entities(*old(w)).len() < ENTITY_CAPACITY,
    ensures
        tables_registered(*final(w)),
        stored_entities(*final(w)) == stored_entities(*old(w)).push(
            EntityRow { pet: Some(pet), mammal: Some(mammal), dog: None, cat: Some(cat) },
        ),
{
    specs::Builder::build(
        specs::Builder::with(specs::Builder::with(specs::Builder::with(
            specs::WorldExt::create_entity(w), pet), mammal), cat),
    );
}

/// Relies on `Join::join` over the read storages of the pet, mammal and dog
/// tables: the entities that have a row in all three, by ascending index.
#[verifier::external_body]
fn join_dog_tables(w: &specs::World) -> (r: Vec<(PetComponent, MammalComponent, DogComponent)>)
    requires
        tables_registered(*w),
    ensures
        r@ == dog_join(stored_entities(*w)),
{
    let pets = specs::WorldExt::read_storage::<PetComponent>(w);
    let mammals = specs::WorldExt::read_storage::<MammalComponent>(w);
    let dogs = specs::WorldExt::read_storage::<DogComponent>(w);
    specs::Join::join((&pets, &mammals, &dogs))
        .map(|(p, m, d)| (p.clone(), m.clone(), d.clone()))
        .collect()
}

/// Relies on `Join::join` over the read storages of the pet, mammal and cat
/// tables: the entities that have a row in all three, by ascending index.
#[verifier::external_body]
fn join_cat_tables(w: &specs::World) -> (r: Vec<(PetComponent, MammalComponent, CatComponent)>)
    requires
        tables_registered(*w),
    ensures
        r@ == cat_join(stored_entities(*w)),
{
    let pets = specs::WorldExt::read_storage::<PetComponent>(w);
    let mammals = specs::WorldExt::read_storage::<MammalComponent>(w);
    let cats = specs::WorldExt::read_storage::<CatComponent>(w);
    specs::Join::join((&pets, &mammals, &cats))
        .map(|(p, m, c)| (p.clone(), m.clone(), c.clone()))
        .collect()
}

/// Relies on `Uuid::new_v4` and its `Display`: a random identifier, written
/// as 36 characters in the hyphenated form.
#[verifier::external_body]
fn fresh_uuid() -> (r: String)
    ensures
        r@.len() == 36,
{
    uuid::Uuid::new_v4().to_string()
}

impl From<&PetComponent> for PetData {
    fn from(comp: &PetComponent) -> Self {
        PetData { uuid: comp.uuid.clone(), name: comp.name.clone() }
    }
}

impl vstd::std_specs::convert::FromSpecImpl<&PetComponent> for PetData {
    open spec fn obeys_from_spec() -> bool {
        true
    }

    open spec fn from_spec(v: &PetComponent) -> PetData {
        pet_data_of(*v)
    }
}

impl From<&MammalComponent> for MammalData {
    fn from(comp: &MammalComponent) -> Self {
        MammalData {
            hair_color: comp.hair_color.clone(),
            breed: comp.breed.clone(),
            has_hair: comp.has_hair,
        }
    }
}

impl vstd::std_specs::convert::FromSpecImpl<&MammalComponent> for MammalData {
    open spec fn obeys_from_spec() -> bool {
        true
    }

    open spec fn from_spec(v: &MammalComponent) -> MammalData {
        mammal_data_of(*v)
    }
}

impl From<&DogComponent> for DogData {
    fn from(comp: &DogComponent) -> Self {
        DogData { tail_length_bits: comp.tail_length_bits, num_commands_known: comp.num_commands_known }
    }
}

impl vstd::std_specs::convert::FromSpecImpl<&DogComponent> for DogData {
    open spec fn obeys_from_spec() -> bool {
        true
    }

    open spec fn from_spec(v: &DogComponent) -> DogData {
        dog_data_of(*v)
    }
}

impl From<&CatComponent> for CatData {
    fn from(comp: &CatComponent) -> Self {
        CatData { declawed: comp.declawed, sits_on_keyboard: comp.sits_on_keyboard }
    }
}

impl vstd::std_specs::convert::FromSpecImpl<&CatComponent> for CatData {
    open spec fn obeys_from_spec() -> bool {
        true
    }

    open spec fn from_spec(v: &CatComponent) -> CatData {
        cat_data_of(*v)
    }
}

pub open spec fn pet_data_of(c: PetComponent) -> PetData {
    PetData { uuid: c.uuid, name: c.name }
}

pub open spec fn mammal_data_of(c: MammalComponent) -> MammalData {
    MammalData { hair_color: c.hair_color, breed: c.breed, has_hair: c.has_hair }
}

pub open spec fn dog_data_of(c: DogComponent) -> DogData {
    DogData { tail_length_bits: c.tail_length_bits, num_commands_known: c.num_commands_known }
}

pub open spec fn cat_data_of(c: CatComponent) -> CatData {
    CatData { declawed: c.declawed, sits_on_keyboard: c.sits_on_keyboard }
}

/// The dog that one joined row of the pet, mammal and dog tables describes.
pub open spec fn dog_of_row(t: (PetComponent, MammalComponent, DogComponent)) -> Dog {
    Dog { pet: pet_data_of(t.0), mammal: mammal_data_of(t.1), dog_specific: dog_data_of(t.2) }
}

/// The cat that one joined row of the pet, mammal and cat tables describes.
pub open spec fn cat_of_row(t: (PetComponent, MammalComponent, CatComponent)) -> Cat {
    Cat { pet: pet_data_of(t.0), mammal: mammal_data_of(t.1), cat_specific: cat_data_of(t.2) }
}

/// An entity as the store writes it: a pet row, a mammal row, and a row in
/// exactly one of the dog and cat tables.
pub open spec fn entity_complete(e: EntityRow) -> bool {
    &&& e.pet is Some
    &&& e.mammal is Some
    &&& e.dog is Some != e.cat is Some
}

/// The record that a complete entity stands for.
pub open spec fn record_of(e: EntityRow) -> Mammal {
    match e.dog {
        Some(d) => Mammal::Dog(dog_of_row((e.pet->0, e.mammal->0, d))),
        None => Mammal::Cat(cat_of_row((e.pet->0, e.mammal->0, e.cat->0))),
    }
}

/// The dogs among `records`, in order.
pub open spec fn dogs_of(records: Seq<Mammal>) -> Seq<Dog> {
    records.filter_map(
        |m: Mammal|
            match m {
                Mammal::Dog(d) => Some(d),
                Mammal::Cat(_) => None,
            },
    )
}

/// The cats among `records`, in order.
pub open spec fn cats_of(records: Seq<Mammal>) -> Seq<Cat> {
    records.filter_map(
        |m: Mammal|
            match m {
                Mammal::Cat(c) => Some(c),
                Mammal::Dog(_) => None,
            },
    )
}

/// Every dog of `records` as a mammal, then every cat, each group in order.
pub open spec fn mammals_of(records: Seq<Mammal>) -> Seq<Mammal> {
    dogs_of(records).map_values(|d: Dog| Mammal::Dog(d)) + cats_of(records).map_values(
        |c: Cat| Mammal::Cat(c),
    )
}

/// Whether a mammal's hair color is exactly `color`.
pub open spec fn hair_color_is(color: Seq<char>) -> spec_fn(Mammal) -> bool {
    |m: Mammal| m.mammal_spec().hair_color@ == color
}

/// Whether a dog's identifier is exactly `id`.
pub open spec fn uuid_is(id: Seq<char>) -> spec_fn(Dog) -> bool {
    |d: Dog| d.pet.uuid@ == id
}

/// The records of `records` whose hair color is `color`, in order.
pub open spec fn with_hair_color(records: Seq<Mammal>, color: Seq<char>) -> Seq<Mammal> {
    records.filter(hair_color_is(color))
}

/// The first dog of `dogs` whose identifier is `id`, if there is one.
pub open spec fn first_with_uuid(dogs: Seq<Dog>, id: Seq<char>) -> Option<Dog>
    decreases dogs.len(),
{
    if dogs.len() == 0 {
        None
    } else if dogs[0].pet.uuid@ == id {
        Some(dogs[0])
    } else {
        first_with_uuid(dogs.drop_first(), id)
    }
}

/// Creating a dog appends it to the dogs and leaves the cats as they were;
/// on an empty store the dogs are then that one dog alone.
pub proof fn lemma_dogs_after_add(records: Seq<Mammal>, d: Dog)
    ensures
        dogs_of(records.push(Mammal::Dog(d))) == dogs_of(records).push(d),
        cats_of(records.push(Mammal::Dog(d))) == cats_of(records),
        records.len() == 0 ==> dogs_of(records.push(Mammal::Dog(d))) == seq![d],
{
    assert(records.push(Mammal::Dog(d)).drop_last() =~= records);
    assert(dogs_of(records.push(Mammal::Dog(d))) =~= dogs_of(records).push(d));
    if records.len() == 0 {
        assert(dogs_of(records) =~= Seq::<Dog>::empty());
        assert(dogs_of(records).push(d) =~= seq![d]);
    }
}

/// Creating a cat appends it to the cats and leaves the dogs as they were;
/// on an empty store the cats are then that one cat alone.
pub proof fn lemma_cats_after_add(records: Seq<Mammal>, c: Cat)
    ensures
        cats_of(records.push(Mammal::Cat(c))) == cats_of(records).push(c),
        dogs_of(records.push(Mammal::Cat(c))) == dogs_of(records),
        records.len() == 0 ==> cats_of(records.push(Mammal::Cat(c))) == seq![c],
{
    assert(records.push(Mammal::Cat(c)).drop_last() =~= records);
    assert(cats_of(records.push(Mammal::Cat(c))) =~= cats_of(records).push(c));
    if records.len() == 0 {
        assert(cats_of(records) =~= Seq::<Cat>::empty());
        assert(cats_of(records).push(c) =~= seq![c]);
    }
}

/// The mammals are as many as the dogs and the cats together.
pub proof fn lemma_mammal_count(records: Seq<Mammal>)
    ensures
        mammals_of(records).len() == dogs_of(records).len() + cats_of(records).len(),
{
}

/// Records created earlier are listed before records created later, within
/// the dogs and within the cats.
pub proof fn lemma_creation_order(earlier: Seq<Mammal>, later: Seq<Mammal>)
    ensures
        dogs_of(earlier + later) == dogs_of(earlier) + dogs_of(later),
        cats_of(earlier + later) == cats_of(earlier) + cats_of(later),
    decreases later.len(),
{
    if later.len() == 0 {
        assert(earlier + later =~= earlier);
        assert(dogs_of(earlier) + dogs_of(later) =~= dogs_of(earlier));
        assert(cats_of(earlier) + cats_of(later) =~= cats_of(earlier));
    } else {
        let rest = later.drop_last();
        lemma_creation_order(earlier, rest);
        assert((earlier + later).drop_last() =~= earlier + rest);
        assert((earlier + later).last() == later.last());
        assert(dogs_of(earlier + later) =~= dogs_of(earlier) + dogs_of(later));
        assert(cats_of(earlier + later) =~= cats_of(earlier) + cats_of(later));
    }
}

/// The mammals list every dog before every cat: first the dogs, then the cats,
/// and no dog stands after a cat.
pub proof fn lemma_dogs_before_cats(records: Seq<Mammal>)
    ensures
        forall|i: int|
            0 <= i < dogs_of(records).len() ==> #[trigger] mammals_of(records)[i] == Mammal::Dog(
                dogs_of(records)[i],
            ),
        forall|i: int|
            dogs_of(records).len() <= i < mammals_of(records).len() ==> #[trigger] mammals_of(records)[i]
                == Mammal::Cat(cats_of(records)[i - dogs_of(records).len()]),
        forall|i: int, j: int|
            0 <= i < j < mammals_of(records).len() && (#[trigger] mammals_of(records)[i]) is Cat
                ==> (#[trigger] mammals_of(records)[j]) is Cat,
{
}

/// Selecting by hair color keeps exactly the mammals of that color: each one
/// kept has it, and each mammal that has it is kept.
pub proof fn lemma_hair_color_selection(records: Seq<Mammal>, color: Seq<char>)
    ensures
        with_hair_color(mammals_of(records), color).len() <= mammals_of(records).len(),
        forall|i: int|
            0 <= i < with_hair_color(mammals_of(records), color).len() ==> {
                let m = #[trigger] with_hair_color(mammals_of(records), color)[i];
                &&& m.mammal_spec().hair_color@ == color
                &&& mammals_of(records).contains(m)
            },
        forall|i: int|
            0 <= i < mammals_of(records).len() && (#[trigger] mammals_of(records)[i]).mammal_spec().hair_color@
                == color ==> with_hair_color(mammals_of(records), color).contains(mammals_of(records)[i]),
{
    let all = mammals_of(records);
    let pred = hair_color_is(color);
    all.lemma_filter_len(pred);
    assert forall|i: int| 0 <= i < with_hair_color(all, color).len() implies {
        let m = #[trigger] with_hair_color(all, color)[i];
        &&& m.mammal_spec().hair_color@ == color
        &&& all.contains(m)
    } by {
        all.lemma_filter_pred(pred, i);
        all.lemma_filter_contains_rev(pred, all.filter(pred)[i]);
    }
    assert forall|i: int|
        0 <= i < all.len() && (#[trigger] all[i]).mammal_spec().hair_color@ == color implies with_hair_color(
        all,
        color,
    ).contains(all[i]) by {
        all.lemma_filter_contains(pred, i);
    }
}

/// A dog is found by identifier exactly when some dog has that identifier,
/// and the one found is the first of the dogs that have it.
pub proof fn lemma_dog_lookup(records: Seq<Mammal>, id: Seq<char>)
    ensures
        first_with_uuid(dogs_of(records), id) is Some <==> exists|i: int|
            0 <= i < dogs_of(records).len() && (#[trigger] dogs_of(records)[i]).pet.uuid@ == id,
        first_with_uuid(dogs_of(records), id) is Some ==> first_with_uuid(dogs_of(records), id) == Some(
            dogs_of(records).filter(uuid_is(id))[0],
        ),
{
    lemma_first_with_uuid(dogs_of(records), id);
}

proof fn lemma_first_with_uuid(dogs: Seq<Dog>, id: Seq<char>)
    ensures
        first_with_uuid(dogs, id) is Some <==> exists|i: int|
            0 <= i < dogs.len() && (#[trigger] dogs[i]).pet.uuid@ == id,
        first_with_uuid(dogs, id) is Some ==> first_with_uuid(dogs, id) == Some(
            dogs.filter(uuid_is(id))[0],
        ),
    decreases dogs.len(),
{
    if dogs.len() > 0 {
        let rest = dogs.drop_first();
        lemma_first_with_uuid(rest, id);
        assert(dogs =~= seq![dogs[0]] + rest);
        rest.lemma_filter_prepend(dogs[0], uuid_is(id));
        if dogs[0].pet.uuid@ != id {
            assert forall|i: int| 0 <= i < dogs.len() && (#[trigger] dogs[i]).pet.uuid@ == id implies exists|
                k: int,
            | 0 <= k < rest.len() && (#[trigger] rest[k]).pet.uuid@ == id by {
                assert(rest[i - 1] == dogs[i]);
            }
            assert forall|k: int| 0 <= k < rest.len() && (#[trigger] rest[k]).pet.uuid@ == id implies exists|
                i: int,
            | 0 <= i < dogs.len() && (#[trigger] dogs[i]).pet.uuid@ == id by {
                assert(dogs[k + 1] == rest[k]);
            }
        }
    }
}

/// Gateway to the pet store. Each record is one entity of a `specs` world,
/// with a row in the pet table, the mammal table and the table of its kind.
pub struct PetState {
    ecs: specs::World,
}

impl View for PetState {
    type V = Seq<Mammal>;

    /// The records created so far, in the order of creation.
    closed spec fn view(&self) -> Seq<Mammal> {
        stored_entities(self.ecs).map_values(|e: EntityRow| record_of(e))
    }
}

/// On complete entities, the dog join yields exactly the dogs among the
/// records the entities stand for, in the same order.
proof fn lemma_dog_join_records(rows: Seq<EntityRow>)
    requires
        forall|i: int| 0 <= i < rows.len() ==> entity_complete(#[trigger] rows[i]),
    ensures
        dog_join(rows).map_values(|t: (PetComponent, MammalComponent, DogComponent)| dog_of_row(t))
            =~= dogs_of(rows.map_values(|e: EntityRow| record_of(e))),
    decreases rows.len(),
{
    if rows.len() > 0 {
        let rest = rows.drop_last();
        assert forall|i: int| 0 <= i < rest.len() implies entity_complete(#[trigger] rest[i]) by {
            assert(rest[i] == rows[i]);
        }
        lemma_dog_join_records(rest);
        assert(rows.map_values(|e: EntityRow| record_of(e)).drop_last() =~= rest.map_values(
            |e: EntityRow| record_of(e),
        ));
        assert(entity_complete(rows[rows.len() - 1]));
    }
}

/// On complete entities, the cat join yields exactly the cats among the
/// records the entities stand for, in the same order.
proof fn lemma_cat_join_records(rows: Seq<EntityRow>)
    requires
        forall|i: int| 0 <= i < rows.len() ==> entity_complete(#[trigger] rows[i]),
    ensures
        cat_join(rows).map_values(|t: (PetComponent, MammalComponent, CatComponent)| cat_of_row(t))
            =~= cats_of(rows.map_values(|e: EntityRow| record_of(e))),
    decreases rows.len(),
{
    if rows.len() > 0 {
        let rest = rows.drop_last();
        assert forall|i: int| 0 <= i < rest.len() implies entity_complete(#[trigger] rest[i]) by {
            assert(rest[i] == rows[i]);
        }
        lemma_cat_join_records(rest);
        assert(rows.map_values(|e: EntityRow| record_of(e)).drop_last() =~= rest.map_values(
            |e: EntityRow| record_of(e),
        ));
        assert(entity_complete(rows[rows.len() - 1]));
    }
}

impl Default for PetState {
    /// The same as [`PetState::new`].
    fn default() -> (r: PetState)
        ensures
            r.wf(),
            r@ == Seq::<Mammal>::empty(),
    {
        PetState::new()
    }
}

impl PetState {
    /// The four tables are registered, the world is within its capacity, and
    /// every entity was written whole.
    pub closed spec fn wf(&self) -> bool {
        &&& tables_registered(self.ecs)
        &&& stored_entities(self.ecs).len() <= ENTITY_CAPACITY
        &&& forall|i: int|
            0 <= i < stored_entities(self.ecs).len() ==> entity_complete(
                #[trigger] stored_entities(self.ecs)[i],
            )
    }

    /// An empty store with its tables registered.
    pub fn new() -> (r: PetState)
        ensures
            r.wf(),
            r@ == Seq::<Mammal>::empty(),
    {
        let mut ps = PetState { ecs: empty_world() };
        register_tables(&mut ps.ecs);
        proof {
            assert(ps@ =~= Seq::<Mammal>::empty());
        }
        ps
    }

    /// Stores a dog under a fresh identifier, which it returns.
    pub fn add_dog(
        &mut self,
        name: String,
        hair_color: String,
        breed: String,
        has_hair: bool,
        tail_length_bits: u64,
        num_commands_known: i32,
    ) -> (r: String)
        requires
            old(self).wf(),
            old(self)@.len() < ENTITY_CAPACITY,
        ensures
            final(self).wf(),
            r@.len() == 36,
            final(self)@ == old(self)@.push(
                Mammal::Dog(
                    (Dog {
                        pet: PetData { uuid: r, name },
                        mammal: MammalData { hair_color, breed, has_hair },
                        dog_specific: DogData { tail_length_bits, num_commands_known },
                    }),
                ),
            ),
    {
        let uuid = fresh_uuid();
        let id = uuid.clone();
        let pet = PetComponent { uuid, name };
        let mammal = MammalComponent { hair_color, breed, has_hair };
        let dog = DogComponent { tail_length_bits, num_commands_known };
        let ghost row = EntityRow { pet: Some(pet), mammal: Some(mammal), dog: Some(dog), cat: None };
        let ghost before = stored_entities(self.ecs);
        insert_dog_entity(&mut self.ecs, pet, mammal, dog);
        proof {
            assert(stored_entities(self.ecs) == before.push(row));
            assert(entity_complete(stored_entities(self.ecs).last()));
            assert(stored_entities(self.ecs).map_values(|e: EntityRow| record_of(e)) =~= before.map_values(
                |e: EntityRow| record_of(e),
            ).push(record_of(row)));
        }
        id
    }

    /// Stores a cat under a fresh identifier, which it returns.
    pub fn add_cat(
        &mut self,
        name: String,
        hair_color: String,
        breed: String,
        has_hair: bool,
        declawed: bool,
        sits_on_keyboard: bool,
    ) -> (r: String)
        requires
            old(self).wf(),
            old(self)@.len() < ENTITY_CAPACITY,
        ensures
            final(self).wf(),
            r@.len() == 36,
            final(self)@ == old(self)@.push(
                Mammal::Cat(
                    (Cat {
                        pet: PetData { uuid: r, name },
                        mammal: MammalData { hair_color, breed, has_hair },
                        cat_specific: CatData { declawed, sits_on_keyboard },
                    }),
                ),
            ),
    {
        let uuid = fresh_uuid();
        let id = uuid.clone();
        let pet = PetComponent { uuid, name };
        let mammal = MammalComponent { hair_color, breed, has_hair };
        let cat = CatComponent { declawed, sits_on_keyboard };
        let ghost row = EntityRow { pet: Some(pet), mammal: Some(mammal), dog: None, cat: Some(cat) };
        let ghost before = stored_entities(self.ecs);
        insert_cat_entity(&mut self.ecs, pet, mammal, cat);
        proof {
            assert(stored_entities(self.ecs) == before.push(row));
            assert(entity_complete(stored_entities(self.ecs).last()));
            assert(stored_entities(self.ecs).map_values(|e: EntityRow| record_of(e)) =~= before.map_values(
                |e: EntityRow| record_of(e),
            ).push(record_of(row)));
        }
        id
    }

    /// Every dog, in the order of creation.
    pub fn get_all_dogs(&self) -> (r: Vec<Dog>)
        requires
            self.wf(),
        ensures
            r@ == dogs_of(self@),
    {
        let joined = join_dog_tables(&self.ecs);
        let mut dogs: Vec<Dog> = Vec::new();
        let n = joined.len();
        for i in 0..n
            invariant
                n == joined.len(),
                dogs@.len() == i,
                forall|j: int| 0 <= j < i ==> dogs@[j] == dog_of_row(#[trigger] joined@[j]),
        {
            let t = &joined[i];
            dogs.push(
                Dog { pet: PetData::from(&t.0), mammal: MammalData::from(&t.1), dog_specific: DogData::from(&t.2) },
            );
        }
        proof {
            lemma_dog_join_records(stored_entities(self.ecs));
            assert(dogs@ =~= joined@.map_values(
                |t: (PetComponent, MammalComponent, DogComponent)| dog_of_row(t),
            ));
        }
        dogs
    }

    /// Every cat, in the order of creation.
    pub fn get_all_cats(&self) -> (r: Vec<Cat>)
        requires
            self.wf(),
        ensures
            r@ == cats_of(self@),
    {
        let joined = join_cat_tables(&self.ecs);
        let mut cats: Vec<Cat> = Vec::new();
        let n = joined.len();
        for i in 0..n
            invariant
                n == joined.len(),
                cats@.len() == i,
                forall|j: int| 0 <= j < i ==> cats@[j] == cat_of_row(#[trigger] joined@[j]),
        {
            let t = &joined[i];
            cats.push(
                Cat { pet: PetData::from(&t.0), mammal: MammalData::from(&t.1), cat_specific: CatData::from(&t.2) },
            );
        }
        proof {
            lemma_cat_join_records(stored_entities(self.ecs));
            assert(cats@ =~= joined@.map_values(
                |t: (PetComponent, MammalComponent, CatComponent)| cat_of_row(t),
            ));
        }
        cats
    }

    /// Every dog as a mammal, then every cat, each group in the order of
    /// creation.
    pub fn get_all_mammals(&self) -> (r: Vec<Mammal>)
        requires
            self.wf(),
        ensures
            r@ == mammals_of(self@),
    {
        let dogs = self.get_all_dogs();
        let cats = self.get_all_cats();
        let ghost dogs_view = dogs@;
        let ghost cats_view = cats@;
        let mut mammals: Vec<Mammal> = Vec::new();
        for dog in it: dogs.into_iter()
            invariant
                it.seq() == dogs_view,
                mammals@.len() == it.index(),
                forall|j: int| 0 <= j < it.index() ==> mammals@[j] == Mammal::Dog(#[trigger] dogs_view[j]),
        {
            mammals.push(Mammal::Dog(dog));
        }
        let n_dogs = mammals.len();
        for cat in it: cats.into_iter()
            invariant
                it.seq() == cats_view,
                n_dogs == dogs_view.len(),
                mammals@.len() == n_dogs + it.index(),
                forall|j: int| 0 <= j < n_dogs ==> mammals@[j] == Mammal::Dog(#[trigger] dogs_view[j]),
                forall|j: int| 0 <= j < it.index() ==> mammals@[n_dogs + j] == Mammal::Cat(#[trigger] cats_view[j]),
        {
            mammals.push(Mammal::Cat(cat));
        }
        proof {
            assert(mammals@ =~= mammals_of(self@));
        }
        mammals
    }

    /// The mammals whose hair color is exactly `hair_color`, dogs first, each
    /// group in the order of creation.
    pub fn get_mammals_by_hair_color(&self, hair_color: &str) -> (r: Vec<Mammal>)
        requires
            self.wf(),
        ensures
            r@ == with_hair_color(mammals_of(self@), hair_color@),
    {
        let all = self.get_all_mammals();
        let wanted = hair_color.to_owned();
        let ghost all_view = all@;
        let mut found: Vec<Mammal> = Vec::new();
        for m in it: all.into_iter()
            invariant
                it.seq() == all_view,
                wanted@ == hair_color@,
                found@ == with_hair_color(all_view.take(it.index() as int), hair_color@),
        {
            let ghost k = it.index() as int;
            let ghost before = found@;
            let keep = m.mammal_data().hair_color == wanted;
            if keep {
                found.push(m);
            }
            proof {
                reveal(Seq::filter);
                assert(all_view.take(k + 1).drop_last() =~= all_view.take(k));
                assert(all_view.take(k + 1).last() == all_view[k]);
            }
        }
        proof {
            assert(all_view.take(all_view.len() as int) =~= all_view);
        }
        found
    }

    /// The first dog whose identifier is exactly `uuid`, if any.
    pub fn get_dog_by_id(&self, uuid: &str) -> (r: Option<Dog>)
        requires
            self.wf(),
        ensures
            r == first_with_uuid(dogs_of(self@), uuid@),
    {
        let joined = join_dog_tables(&self.ecs);
        let wanted = uuid.to_owned();
        let ghost dogs = joined@.map_values(
            |t: (PetComponent, MammalComponent, DogComponent)| dog_of_row(t),
        );
        proof {
            lemma_dog_join_records(stored_entities(self.ecs));
            assert(dogs.subrange(0, dogs.len() as int) =~= dogs);
        }
        let n = joined.len();
        for i in 0..n
            invariant
                n == joined.len(),
                dogs == joined@.map_values(
                    |t: (PetComponent, MammalComponent, DogComponent)| dog_of_row(t),
                ),
                dogs == dogs_of(self@),
                wanted@ == uuid@,
                first_with_uuid(dogs, uuid@) == first_with_uuid(dogs.subrange(i as int, n as int), uuid@),
        {
            let t = &joined[i];
            proof {
                assert(dogs.subrange(i as int, n as int).drop_first() =~= dogs.subrange(i + 1, n as int));
            }
            if t.0.uuid == wanted {
                return Some(
                    Dog { pet: PetData::from(&t.0), mammal: MammalData::from(&t.1), dog_specific: DogData::from(&t.2) },
                );
            }
        }
        None
    }
}

} // verus!
