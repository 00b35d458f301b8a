use vstd::prelude::*;
use crate::catalog::{lookup, FoodCatalog};
use crate::resolve::{resolve_spec, ResolveError};
use crate::log::{daily_logs_view, DailyLog, DailyLogView};
use crate::models::{Food, FoodView, UserProfile};

verus! {

/// The whole mutable state of the application: the food catalog, every daily
/// log and the user's profile.
pub struct Database {
    pub foods: FoodCatalog,
    pub logs: Vec<DailyLog>,
    pub profile: Option<UserProfile>,
}

/// The application state as a mathematical value.
pub struct DatabaseView {
    pub foods: Seq<FoodView>,
    pub logs: Seq<DailyLogView>,
    pub profile: Option<UserProfile>,
}

impl View for Database {
    type V = DatabaseView;

    open spec fn view(&self) -> DatabaseView {
        DatabaseView { foods: self.foods@, logs: daily_logs_view(self.logs@), profile: self.profile }
    }
}

impl Clone for Database {
    /// A deep, independent copy.
    fn clone(&self) -> (r: Self)
        ensures
            r@ == self@,
    {
        let mut foods: Vec<Food> = Vec::new();
        let mut i: usize = 0;
        while i < self.foods.foods.len()
            invariant
                i <= self.foods.foods.len(),
                foods.len() == i,
                forall|j: int| 0 <= j < i ==> (#[trigger] foods@[j])@ == self.foods.foods@[j]@,
            decreases self.foods.foods.len() - i,
        {
            foods.push(self.foods.foods[i].clone());
            i = i + 1;
        }
        let mut logs: Vec<DailyLog> = Vec::new();
        let mut k: usize = 0;
        while k < self.logs.len()
            invariant
                k <= self.logs.len(),
                logs.len() == k,
                forall|j: int| 0 <= j < k ==> (#[trigger] logs@[j])@ == self.logs@[j]@,
            decreases self.logs.len() - k,
        {
            logs.push(self.logs[k].clone());
            k = k + 1;
        }
        let r = Database { foods: FoodCatalog { foods }, logs, profile: self.profile };
        assert(r.foods@ =~= self.foods@);
        assert(daily_logs_view(r.logs@) =~= daily_logs_view(self.logs@));
        r
    }
}

impl Database {
    /// An empty state: no foods, no logs, no profile.
    pub fn new() -> (r: Database)
        ensures
            r@ == (DatabaseView { foods: Seq::empty(), logs: Seq::empty(), profile: None }),
            r.foods.wf(),
    {
        let r = Database { foods: FoodCatalog::new(), logs: Vec::new(), profile: None };
        assert(daily_logs_view(r.logs@) =~= Seq::<DailyLogView>::empty());
        r
    }

    /// Calories per serving of food `food_id`, or `None` when the catalog lacks it.
    pub fn get_food_calories(&self, food_id: &String) -> (r: Result<Option<u64>, ResolveError>)
        requires
            self.foods.wf(),
        ensures
            lookup(self.foods@, food_id@) is None ==> r == Ok::<Option<u64>, ResolveError>(None),
            lookup(self.foods@, food_id@) is Some ==> match r {
                Ok(Some(v)) => resolve_spec(self.foods@, food_id@) == Ok::<nat, ResolveError>(v as nat),
                Ok(None) => false,
                Err(e) => resolve_spec(self.foods@, food_id@) == Err::<nat, ResolveError>(e),
            },
    {
        if self.foods.find_index(food_id).is_none() {
            return Ok(None);
        }
        match self.foods.resolve(food_id) {
            Ok(v) => Ok(Some(v)),
            Err(e) => Err(e),
        }
    }
}

} // verus!
