use vstd::prelude::*;
use crate::models::{BasicFood, CompositeFood, Food, FoodView};

verus! {

/// Whether some food of `foods` carries identifier `id`.
pub open spec fn has_id(foods: Seq<FoodView>, id: Seq<char>) -> bool {
    exists|i: int| 0 <= i < foods.len() && (#[trigger] foods[i]).id == id
}

/// The food of `foods` that carries identifier `id`, if any.
pub open spec fn lookup(foods: Seq<FoodView>, id: Seq<char>) -> Option<FoodView> {
    if has_id(foods, id) {
        Some(foods[choose|i: int| 0 <= i < foods.len() && (#[trigger] foods[i]).id == id])
    } else {
        None
    }
}

/// No two foods share an identifier.
pub open spec fn ids_unique(foods: Seq<FoodView>) -> bool {
    forall|i: int, j: int|
        0 <= i < foods.len() && 0 <= j < foods.len() && i != j ==> (#[trigger] foods[i]).id
            != (#[trigger] foods[j]).id
}

/// In a catalog with unique identifiers, the food at index `i` is the one that `lookup` finds.
pub proof fn lemma_lookup_at(foods: Seq<FoodView>, i: int)
    requires
        ids_unique(foods),
        0 <= i < foods.len(),
    ensures
        lookup(foods, foods[i].id) == Some(foods[i]),
{
    assert(has_id(foods, foods[i].id));
}

/// Why a food could not be added to the catalog.
#[derive(Debug, Clone, Copy, PartialEq, Eq, Structural)]
pub enum CatalogError {
    DuplicateIdentifier,
}

/// The set of named food definitions, atomic and composite, in listing order.
pub struct FoodCatalog {
    pub foods: Vec<Food>,
}

impl View for FoodCatalog {
    type V = Seq<FoodView>;

    open spec fn view(&self) -> Seq<FoodView> {
        self.foods@.map_values(|f: Food| f@)
    }
}

impl FoodCatalog {
    /// Identifiers are unique across the catalog.
    pub open spec fn wf(&self) -> bool {
        ids_unique(self@)
    }

    pub fn new() -> (r: Self)
        ensures
            r@ == Seq::<FoodView>::empty(),
            r.wf(),
    {
        FoodCatalog { foods: Vec::new() }
    }

    pub fn len(&self) -> (r: usize)
        ensures
            r == self@.len(),
    {
        self.foods.len()
    }

    /// Position of the food with identifier `id`.
    pub fn find_index(&self, id: &String) -> (r: Option<usize>)
        requires
            self.wf(),
        ensures
            r is None <==> !has_id(self@, id@),
            r matches Some(i) ==> i < self@.len() && self@[i as int].id == id@ && lookup(self@, id@)
                == Some(self@[i as int]),
    {
        let mut i: usize = 0;
        while i < self.foods.len()
            invariant
                i <= self.foods.len(),
                self.wf(),
                forall|j: int| 0 <= j < i ==> (#[trigger] self@[j]).id != id@,
            decreases self.foods.len() - i,
        {
            let fid = self.foods[i].id();
            assert(self@[i as int] == self.foods@[i as int]@);
            if fid.eq(id) {
                proof {
                    lemma_lookup_at(self@, i as int);
                }
                return Some(i);
            }
            i = i + 1;
        }
        None
    }

    /// The food with identifier `name`, if the catalog holds one.
    pub fn get_food_by_name(&self, name: &String) -> (r: Option<&Food>)
        requires
            self.wf(),
        ensures
            match r {
                Some(f) => lookup(self@, name@) == Some(f@),
                None => lookup(self@, name@) is None,
            },
    {
        match self.find_index(name) {
            Some(i) => Some(&self.foods[i]),
            None => None,
        }
    }

    /// The composite food with identifier `name`, if the catalog holds one.
    pub fn get_composite_food(&self, name: &String) -> (r: Option<&CompositeFood>)
        requires
            self.wf(),
        ensures
            match r {
                Some(c) => lookup(self@, name@) == Some(Food::Composite(*c)@),
                None => !(lookup(self@, name@) matches Some(f) && f.kind is Composite),
            },
    {
        match self.find_index(name) {
            Some(i) => match &self.foods[i] {
                Food::Composite(c) => Some(c),
                Food::Basic(_) => None,
            },
            None => None,
        }
    }

    /// Appends `food`, refusing an identifier that is already taken.
    pub fn add_food(&mut self, food: Food) -> (r: Result<(), CatalogError>)
        requires
            old(self).wf(),
        ensures
            final(self).wf(),
            r is Err <==> has_id(old(self)@, food@.id),
            r is Ok ==> final(self)@ == old(self)@.push(food@),
            r is Err ==> final(self)@ == old(self)@,
    {
        let taken = self.find_index(food.id());
        match taken {
            Some(_) => Err(CatalogError::DuplicateIdentifier),
            None => {
                let ghost before = self@;
                self.foods.push(food);
                assert(self@ =~= before.push(food@));
                Ok(())
            },
        }
    }

    /// Adds an atomic food, refusing an identifier that is already taken.
    pub fn add_basic_food(&mut self, food: BasicFood) -> (r: Result<(), CatalogError>)
        requires
            old(self).wf(),
        ensures
            final(self).wf(),
            r is Err <==> has_id(old(self)@, food.id@),
            r is Ok ==> final(self)@ == old(self)@.push(Food::Basic(food)@),
            r is Err ==> final(self)@ == old(self)@,
    {
        self.add_food(Food::Basic(food))
    }

    /// Adds a composite food, refusing an identifier that is already taken.
    pub fn add_composite_food(&mut self, food: CompositeFood) -> (r: Result<(), CatalogError>)
        requires
            old(self).wf(),
        ensures
            final(self).wf(),
            r is Err <==> has_id(old(self)@, food.id@),
            r is Ok ==> final(self)@ == old(self)@.push(Food::Composite(food)@),
            r is Err ==> final(self)@ == old(self)@,
    {
        self.add_food(Food::Composite(food))
    }
}

} // verus!
