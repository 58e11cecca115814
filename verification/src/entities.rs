//! Scenario entities: vehicles, pedestrians and miscellaneous objects.
use vstd::prelude::*;
use crate::quantity::Real;

verus! {

/// A reference to an entry of an external catalog file.
#[derive(Clone, Debug)]
pub struct CatalogReference {
    /// The catalog file (or catalog name).
    pub path: String,
    /// The entry within the catalog.
    pub entry_name: String,
}

/// The kind of a vehicle.
#[derive(Clone, Copy, Debug, PartialEq, Eq, Structural)]
pub enum VehicleCategory {
    Car,
    Truck,
    Bus,
    Trailer,
    Van,
    Motorbike,
    Bicycle,
    Semitrailer,
    Train,
    Tram,
}

/// Optional physical properties of a vehicle.
#[derive(Clone, Debug)]
pub struct VehicleProperties {
    /// Mass in kilograms.
    pub mass: Option<Real>,
    /// Path of a 3D model.
    pub model3d: Option<String>,
}

/// Parameters of a vehicle.
#[derive(Clone, Debug)]
pub struct VehicleParams {
    pub catalog: Option<CatalogReference>,
    pub vehicle_category: VehicleCategory,
    pub properties: Option<VehicleProperties>,
}

/// A named vehicle.
#[derive(Clone, Debug)]
pub struct Vehicle {
    pub name: String,
    pub params: VehicleParams,
}

/// Parameters of a pedestrian.
#[derive(Clone, Debug)]
pub struct PedestrianParams {
    pub catalog: Option<CatalogReference>,
    /// Model identifier.
    pub model: Option<String>,
    /// Mass in kilograms.
    pub mass: Option<Real>,
}

/// A named pedestrian.
#[derive(Clone, Debug)]
pub struct Pedestrian {
    pub name: String,
    pub params: PedestrianParams,
}

/// Parameters of a miscellaneous object (cone, barrier, obstacle, ...).
#[derive(Clone, Debug)]
pub struct MiscObjectParams {
    pub catalog: Option<CatalogReference>,
    pub category: Option<String>,
    /// Mass in kilograms.
    pub mass: Option<Real>,
}

/// A named miscellaneous object.
#[derive(Clone, Debug)]
pub struct MiscObject {
    pub name: String,
    pub params: MiscObjectParams,
}

/// Any entity of a scenario.
#[derive(Clone, Debug)]
pub enum Entity {
    Vehicle(Vehicle),
    Pedestrian(Pedestrian),
    MiscObject(MiscObject),
}

impl Entity {
    /// The name of the entity.
    pub open spec fn spec_name(&self) -> Seq<char> {
        match self {
            Entity::Vehicle(v) => v.name@,
            Entity::Pedestrian(p) => p.name@,
            Entity::MiscObject(m) => m.name@,
        }
    }

    /// The name of the entity.
    pub fn name(&self) -> (r: &str)
        ensures
            r@ == self.spec_name(),
    {
        match self {
            Entity::Vehicle(v) => v.name.as_str(),
            Entity::Pedestrian(p) => p.name.as_str(),
            Entity::MiscObject(m) => m.name.as_str(),
        }
    }
}

/// The names of a list of entities, in order.
pub open spec fn entity_names(v: Seq<Entity>) -> Seq<Seq<char>> {
    v.map_values(|e: Entity| e.spec_name())
}

/// Names of the vehicle categories, in lower case.
pub open spec fn category_label(c: VehicleCategory) -> Seq<char> {
    match c {
        VehicleCategory::Car => seq!['c', 'a', 'r'],
        VehicleCategory::Truck => seq!['t', 'r', 'u', 'c', 'k'],
        VehicleCategory::Bus => seq!['b', 'u', 's'],
        VehicleCategory::Trailer => seq!['t', 'r', 'a', 'i', 'l', 'e', 'r'],
        VehicleCategory::Van => seq!['v', 'a', 'n'],
        VehicleCategory::Motorbike => seq!['m', 'o', 't', 'o', 'r', 'b', 'i', 'k', 'e'],
        VehicleCategory::Bicycle => seq!['b', 'i', 'c', 'y', 'c', 'l', 'e'],
        VehicleCategory::Semitrailer => seq!['s', 'e', 'm', 'i', 't', 'r', 'a', 'i', 'l', 'e', 'r'],
        VehicleCategory::Train => seq!['t', 'r', 'a', 'i', 'n'],
        VehicleCategory::Tram => seq!['t', 'r', 'a', 'm'],
    }
}

/// The category whose lower-case label is exactly `s`.
pub open spec fn category_of_label(s: Seq<char>) -> Option<VehicleCategory> {
    if s == category_label(VehicleCategory::Car) {
        Some(VehicleCategory::Car)
    } else if s == category_label(VehicleCategory::Truck) {
        Some(VehicleCategory::Truck)
    } else if s == category_label(VehicleCategory::Bus) {
        Some(VehicleCategory::Bus)
    } else if s == category_label(VehicleCategory::Trailer) {
        Some(VehicleCategory::Trailer)
    } else if s == category_label(VehicleCategory::Van) {
        Some(VehicleCategory::Van)
    } else if s == category_label(VehicleCategory::Motorbike) {
        Some(VehicleCategory::Motorbike)
    } else if s == category_label(VehicleCategory::Bicycle) {
        Some(VehicleCategory::Bicycle)
    } else if s == category_label(VehicleCategory::Semitrailer) {
        Some(VehicleCategory::Semitrailer)
    } else if s == category_label(VehicleCategory::Train) {
        Some(VehicleCategory::Train)
    } else if s == category_label(VehicleCategory::Tram) {
        Some(VehicleCategory::Tram)
    } else {
        None
    }
}

/// The Unicode lower-case mapping of `s` (what `str::to_lowercase` gives).
pub uninterp spec fn lowercase(s: Seq<char>) -> Seq<char>;

/// Calls `str::to_lowercase`; the result is the lower-case mapping of `s`.
#[verifier::external_body]
pub(crate) fn to_lowercase(s: &str) -> (r: String)
    ensures
        r@ == lowercase(s@),
{
    s.to_lowercase()
}

fn label_text(c: VehicleCategory) -> (r: &'static str)
    ensures
        r@ == category_label(c),
{
    let r = match c {
        VehicleCategory::Car => "car",
        VehicleCategory::Truck => "truck",
        VehicleCategory::Bus => "bus",
        VehicleCategory::Trailer => "trailer",
        VehicleCategory::Van => "van",
        VehicleCategory::Motorbike => "motorbike",
        VehicleCategory::Bicycle => "bicycle",
        VehicleCategory::Semitrailer => "semitrailer",
        VehicleCategory::Train => "train",
        VehicleCategory::Tram => "tram",
    };
    proof {
        reveal_strlit("car");
        reveal_strlit("truck");
        reveal_strlit("bus");
        reveal_strlit("trailer");
        reveal_strlit("van");
        reveal_strlit("motorbike");
        reveal_strlit("bicycle");
        reveal_strlit("semitrailer");
        reveal_strlit("train");
        reveal_strlit("tram");
    }
    assert(r@ =~= category_label(c));
    r
}

impl VehicleCategory {
    /// The lower-case name of the category ("car", "truck", ...).
    pub fn label(self) -> (r: String)
        ensures
            r@ == category_label(self),
    {
        String::from_str(label_text(self))
    }

    /// Reads a category name in any letter case; `None` for an unknown name.
    pub fn from_name(name: &str) -> (r: Option<VehicleCategory>)
        ensures
            r == category_of_label(lowercase(name@)),
    {
        let lower = to_lowercase(name);
        let s = lower.as_str();
        if crate::text::str_eq(s, label_text(VehicleCategory::Car)) {
            Some(VehicleCategory::Car)
        } else if crate::text::str_eq(s, label_text(VehicleCategory::Truck)) {
            Some(VehicleCategory::Truck)
        } else if crate::text::str_eq(s, label_text(VehicleCategory::Bus)) {
            Some(VehicleCategory::Bus)
        } else if crate::text::str_eq(s, label_text(VehicleCategory::Trailer)) {
            Some(VehicleCategory::Trailer)
        } else if crate::text::str_eq(s, label_text(VehicleCategory::Van)) {
            Some(VehicleCategory::Van)
        } else if crate::text::str_eq(s, label_text(VehicleCategory::Motorbike)) {
            Some(VehicleCategory::Motorbike)
        } else if crate::text::str_eq(s, label_text(VehicleCategory::Bicycle)) {
            Some(VehicleCategory::Bicycle)
        } else if crate::text::str_eq(s, label_text(VehicleCategory::Semitrailer)) {
            Some(VehicleCategory::Semitrailer)
        } else if crate::text::str_eq(s, label_text(VehicleCategory::Train)) {
            Some(VehicleCategory::Train)
        } else if crate::text::str_eq(s, label_text(VehicleCategory::Tram)) {
            Some(VehicleCategory::Tram)
        } else {
            None
        }
    }
}

/// Every category is read back from its own label.
pub proof fn lemma_category_label_round_trip(c: VehicleCategory)
    ensures
        category_of_label(category_label(c)) == Some(c),
{
    lemma_labels_differ(c);
}

/// Different categories have different labels.
proof fn lemma_labels_differ(c: VehicleCategory)
    ensures
        forall|d: VehicleCategory| d != c ==> #[trigger] category_label(d) != category_label(c),
{
    assert forall|d: VehicleCategory| d != c implies #[trigger] category_label(d) != category_label(c) by {
        let a = category_label(d);
        let b = category_label(c);
        if a.len() == b.len() {
            // Same length: the labels differ at their first, second or last letter.
            if a[0] == b[0] {
                if a[1] == b[1] {
                    assert(a[a.len() - 1] != b[b.len() - 1]);
                } else {
                    assert(a[1] != b[1]);
                }
            } else {
                assert(a[0] != b[0]);
            }
        }
    }
}

fn copy_text(s: &Option<String>) -> (r: Option<String>)
    ensures
        r == *s,
{
    match s {
        Some(t) => Some(t.clone()),
        None => None,
    }
}

fn copy_reference(c: &Option<CatalogReference>) -> (r: Option<CatalogReference>)
    ensures
        r == *c,
{
    match c {
        Some(x) => Some(CatalogReference { path: x.path.clone(), entry_name: x.entry_name.clone() }),
        None => None,
    }
}

impl Entity {
    /// An exact copy of the entity.
    pub fn duplicate(&self) -> (r: Entity)
        ensures
            r == *self,
    {
        match self {
            Entity::Vehicle(v) => Entity::Vehicle(Vehicle {
                name: v.name.clone(),
                params: VehicleParams {
                    catalog: copy_reference(&v.params.catalog),
                    vehicle_category: v.params.vehicle_category,
                    properties: match &v.params.properties {
                        Some(p) => Some(VehicleProperties { mass: p.mass, model3d: copy_text(&p.model3d) }),
                        None => None,
                    },
                },
            }),
            Entity::Pedestrian(p) => Entity::Pedestrian(Pedestrian {
                name: p.name.clone(),
                params: PedestrianParams {
                    catalog: copy_reference(&p.params.catalog),
                    model: copy_text(&p.params.model),
                    mass: p.params.mass,
                },
            }),
            Entity::MiscObject(m) => Entity::MiscObject(MiscObject {
                name: m.name.clone(),
                params: MiscObjectParams {
                    catalog: copy_reference(&m.params.catalog),
                    category: copy_text(&m.params.category),
                    mass: m.params.mass,
                },
            }),
        }
    }
}

} // verus!
