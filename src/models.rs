use vstd::prelude::*;

verus! {

/// Biological sex used by the basal-metabolic-rate formulas.
#[derive(Debug, Clone, Copy, PartialEq, Eq, Structural)]
pub enum Gender {
    Male,
    Female,
}

/// How active the user is; selects the multiplier applied to the basal rate.
#[derive(Debug, Clone, Copy, PartialEq, Eq, Structural)]
pub enum ActivityLevel {
    Sedentary,
    Light,
    Moderate,
    VeryActive,
    ExtraActive,
}

/// Which basal-metabolic-rate formula a profile uses.
#[derive(Debug, Clone, Copy, PartialEq, Eq, Structural)]
pub enum CalorieCalculationMethod {
    HarrisBenedict,
    MifflinStJeor,
}

/// Body metrics and preferences of the user.
///
/// `height_cm` and `weight_kg` are in thousandths of a centimetre and of a kilogram.
#[derive(Debug, Clone, Copy, PartialEq, Eq, Structural)]
pub struct UserProfile {
    pub gender: Gender,
    pub height_cm: u32,
    pub age: u32,
    pub weight_kg: u32,
    pub activity_level: ActivityLevel,
    pub calorie_method: CalorieCalculationMethod,
}

impl UserProfile {
    pub fn new(
        gender: Gender,
        height_cm: u32,
        age: u32,
        weight_kg: u32,
        activity_level: ActivityLevel,
        calorie_method: CalorieCalculationMethod,
    ) -> (r: UserProfile)
        ensures
            r == (UserProfile { gender, height_cm, age, weight_kg, activity_level, calorie_method }),
    {
        UserProfile { gender, height_cm, age, weight_kg, activity_level, calorie_method }
    }

    pub fn update_weight(&mut self, weight_kg: u32)
        ensures
            *final(self) == (UserProfile { weight_kg, ..*old(self) }),
    {
        self.weight_kg = weight_kg;
    }

    pub fn update_age(&mut self, age: u32)
        ensures
            *final(self) == (UserProfile { age, ..*old(self) }),
    {
        self.age = age;
    }

    pub fn update_activity_level(&mut self, level: ActivityLevel)
        ensures
            *final(self) == (UserProfile { activity_level: level, ..*old(self) }),
    {
        self.activity_level = level;
    }

    pub fn update_calculation_method(&mut self, method: CalorieCalculationMethod)
        ensures
            *final(self) == (UserProfile { calorie_method: method, ..*old(self) }),
    {
        self.calorie_method = method;
    }
}

/// A food with a directly stored calorie value.
///
/// `calories_per_serving` is in thousandths of a kilocalorie.
#[derive(Debug)]
pub struct BasicFood {
    pub id: String,
    pub name: String,
    pub keywords: Vec<String>,
    pub calories_per_serving: u64,
}

/// One ingredient of a composite food: a weak reference by identifier plus a
/// servings multiplier in thousandths of a serving.
#[derive(Debug)]
pub struct FoodComponent {
    pub food_id: String,
    pub servings: u64,
}

/// A food defined as a weighted combination of other foods.
#[derive(Debug)]
pub struct CompositeFood {
    pub id: String,
    pub name: String,
    pub keywords: Vec<String>,
    pub components: Vec<FoodComponent>,
}

/// Any food of the catalog.
#[derive(Debug)]
pub enum Food {
    Basic(BasicFood),
    Composite(CompositeFood),
}

/// A component as a mathematical value.
pub struct ComponentView {
    pub food_id: Seq<char>,
    pub servings: nat,
}

/// What distinguishes the two kinds of food, as a mathematical value.
pub enum FoodKindView {
    Basic(nat),
    Composite(Seq<ComponentView>),
}

/// A food as a mathematical value.
pub struct FoodView {
    pub id: Seq<char>,
    pub name: Seq<char>,
    pub keywords: Seq<Seq<char>>,
    pub kind: FoodKindView,
}

/// The characters of each string of a list.
pub open spec fn strings_view(v: Seq<String>) -> Seq<Seq<char>> {
    v.map_values(|s: String| s@)
}

impl View for FoodComponent {
    type V = ComponentView;

    open spec fn view(&self) -> ComponentView {
        ComponentView { food_id: self.food_id@, servings: self.servings as nat }
    }
}

/// The mathematical value of each component of a list.
pub open spec fn components_view(v: Seq<FoodComponent>) -> Seq<ComponentView> {
    v.map_values(|c: FoodComponent| c@)
}

impl View for Food {
    type V = FoodView;

    open spec fn view(&self) -> FoodView {
        match self {
            Food::Basic(b) => FoodView {
                id: b.id@,
                name: b.name@,
                keywords: strings_view(b.keywords@),
                kind: FoodKindView::Basic(b.calories_per_serving as nat),
            },
            Food::Composite(c) => FoodView {
                id: c.id@,
                name: c.name@,
                keywords: strings_view(c.keywords@),
                kind: FoodKindView::Composite(components_view(c.components@)),
            },
        }
    }
}

/// Copies a list of strings, keeping every element.
pub fn copy_strings(v: &Vec<String>) -> (r: Vec<String>)
    ensures
        strings_view(r@) == strings_view(v@),
{
    let mut r: Vec<String> = Vec::new();
    let mut i: usize = 0;
    while i < v.len()
        invariant
            i <= v.len(),
            r.len() == i,
            forall|j: int| 0 <= j < i ==> (#[trigger] r@[j])@ == v@[j]@,
        decreases v.len() - i,
    {
        r.push(v[i].clone());
        i = i + 1;
    }
    assert(strings_view(r@) =~= strings_view(v@));
    r
}

impl Clone for FoodComponent {
    fn clone(&self) -> (r: Self)
        ensures
            r@ == self@,
    {
        FoodComponent { food_id: self.food_id.clone(), servings: self.servings }
    }
}

/// Copies a component list, keeping every element.
pub fn copy_components(v: &Vec<FoodComponent>) -> (r: Vec<FoodComponent>)
    ensures
        components_view(r@) == components_view(v@),
{
    let mut r: Vec<FoodComponent> = Vec::new();
    let mut i: usize = 0;
    while i < v.len()
        invariant
            i <= v.len(),
            r.len() == i,
            forall|j: int| 0 <= j < i ==> (#[trigger] r@[j])@ == v@[j]@,
        decreases v.len() - i,
    {
        r.push(v[i].clone());
        i = i + 1;
    }
    assert(components_view(r@) =~= components_view(v@));
    r
}

impl Clone for Food {
    fn clone(&self) -> (r: Self)
        ensures
            r@ == self@,
    {
        match self {
            Food::Basic(b) => Food::Basic(
                BasicFood {
                    id: b.id.clone(),
                    name: b.name.clone(),
                    keywords: copy_strings(&b.keywords),
                    calories_per_serving: b.calories_per_serving,
                },
            ),
            Food::Composite(c) => Food::Composite(
                CompositeFood {
                    id: c.id.clone(),
                    name: c.name.clone(),
                    keywords: copy_strings(&c.keywords),
                    components: copy_components(&c.components),
                },
            ),
        }
    }
}

impl BasicFood {
    /// An atomic food identified by its name.
    pub fn new(name: String, keywords: Vec<String>, calories: u64) -> (r: BasicFood)
        ensures
            Food::Basic(r)@ == (FoodView {
                id: name@,
                name: name@,
                keywords: strings_view(keywords@),
                kind: FoodKindView::Basic(calories as nat),
            }),
    {
        BasicFood { id: name.clone(), name, keywords, calories_per_serving: calories }
    }
}

impl CompositeFood {
    /// A composite food identified by its name.
    pub fn new(name: String, keywords: Vec<String>, components: Vec<FoodComponent>) -> (r: CompositeFood)
        ensures
            Food::Composite(r)@ == (FoodView {
                id: name@,
                name: name@,
                keywords: strings_view(keywords@),
                kind: FoodKindView::Composite(components_view(components@)),
            }),
    {
        CompositeFood { id: name.clone(), name, keywords, components }
    }
}

impl Food {
    pub fn id(&self) -> (r: &String)
        ensures
            r@ == self@.id,
    {
        match self {
            Food::Basic(b) => &b.id,
            Food::Composite(c) => &c.id,
        }
    }

    pub fn name(&self) -> (r: &String)
        ensures
            r@ == self@.name,
    {
        match self {
            Food::Basic(b) => &b.name,
            Food::Composite(c) => &c.name,
        }
    }

    pub fn keywords(&self) -> (r: &Vec<String>)
        ensures
            strings_view(r@) == self@.keywords,
    {
        match self {
            Food::Basic(b) => &b.keywords,
            Food::Composite(c) => &c.keywords,
        }
    }
}

} // verus!
