use vstd::prelude::*;

use crate::catalog::PartCatalog;
use crate::error::Error;
use crate::rng::draw_index;
use crate::text::views_of;

verus! {

/// One assembled ship: one part per fixed slot, wings optional, and a
/// sequence of weapons (generation always fills exactly one).
#[derive(Debug)]
pub struct Spaceship {
    pub engine: String,
    pub fuselage: String,
    pub cabin: String,
    pub small_wings: Option<String>,
    pub big_wings: Option<String>,
    pub armor: String,
    pub weapons: Vec<String>,
}

/// The first required category that `e` lacks, in the order the generator
/// looks them up; `None` when every category is present.
pub open spec fn missing_category(e: Map<Seq<char>, Seq<Seq<char>>>) -> Option<Seq<char>> {
    if !e.dom().contains("engine"@) {
        Some("engine"@)
    } else if !e.dom().contains("fuselage"@) {
        Some("fuselage"@)
    } else if !e.dom().contains("cabin"@) {
        Some("cabin"@)
    } else if !e.dom().contains("wings"@) {
        Some("wings"@)
    } else if !e.dom().contains("armor"@) {
        Some("armor"@)
    } else if !e.dom().contains("weapon"@) {
        Some("weapon"@)
    } else {
        None
    }
}

/// Holds when the option holds a string whose characters are `v`.
pub open spec fn opt_view_is(o: Option<String>, v: Seq<char>) -> bool {
    match o {
        Some(w) => w@ == v,
        None => false,
    }
}

/// How a generated ship relates to the catalog it was drawn from: the engine
/// is the candidate picked by `engine_idx`; fuselage, cabin and armor are the
/// first candidates of their categories; the one stored wings value mirrors
/// into both wing slots unless it is exactly "no", which leaves both empty;
/// and the weapons are exactly one, the first "weapon" candidate.
pub open spec fn ship_matches(
    e: Map<Seq<char>, Seq<Seq<char>>>,
    engine_idx: int,
    ship: Spaceship,
) -> bool {
    &&& ship.engine@ == e["engine"@][engine_idx]
    &&& ship.fuselage@ == e["fuselage"@][0]
    &&& ship.cabin@ == e["cabin"@][0]
    &&& (if e["wings"@][0] == "no"@ {
        ship.small_wings is None && ship.big_wings is None
    } else {
        opt_view_is(ship.small_wings, e["wings"@][0]) && opt_view_is(
            ship.big_wings,
            e["wings"@][0],
        )
    })
    &&& ship.armor@ == e["armor"@][0]
    &&& views_of(ship.weapons@) == seq![e["weapon"@][0]]
}

impl Spaceship {
    /// Builds the ship whose engine is the catalog's engine candidate at
    /// `engine_idx`, or reports the first missing category.
    pub fn assemble(catalog: &PartCatalog, engine_idx: usize) -> (r: Result<Spaceship, Error>)
        requires
            catalog.wf(),
            catalog.entries().dom().contains("engine"@) ==> engine_idx < catalog.entries().index(
                "engine"@,
            ).len(),
        ensures
            r is Ok <==> missing_category(catalog.entries()) is None,
            r matches Ok(ship) ==> ship_matches(catalog.entries(), engine_idx as int, ship),
            r matches Err(err) ==> (missing_category(catalog.entries()) matches Some(c)
                && err matches Error::LackOfPartInTheFile(name) && name@ == c),
    {
        let engines = match catalog.get_all("engine") {
            Some(v) => v,
            None => {
                return Err(Error::LackOfPartInTheFile("engine".to_owned()));
            },
        };
        let fuselage = match catalog.get_first("fuselage") {
            Some(v) => v,
            None => {
                return Err(Error::LackOfPartInTheFile("fuselage".to_owned()));
            },
        };
        let cabin = match catalog.get_first("cabin") {
            Some(v) => v,
            None => {
                return Err(Error::LackOfPartInTheFile("cabin".to_owned()));
            },
        };
        let wings = match catalog.get_first("wings") {
            Some(v) => v,
            None => {
                return Err(Error::LackOfPartInTheFile("wings".to_owned()));
            },
        };
        let armor = match catalog.get_first("armor") {
            Some(v) => v,
            None => {
                return Err(Error::LackOfPartInTheFile("armor".to_owned()));
            },
        };
        let weapon = match catalog.get_first("weapon") {
            Some(v) => v,
            None => {
                return Err(Error::LackOfPartInTheFile("weapon".to_owned()));
            },
        };
        let engine = engines[engine_idx].clone();
        proof {
            assert(engine@ == views_of(engines@)[engine_idx as int]);
        }
        let no_marker: String = "no".to_owned();
        let bare = wings == no_marker;
        let small_wings = if bare {
            None
        } else {
            Some(wings.clone())
        };
        let big_wings = if bare {
            None
        } else {
            Some(wings)
        };
        let mut weapons: Vec<String> = Vec::new();
        weapons.push(weapon);
        let ship = Spaceship { engine, fuselage, cabin, small_wings, big_wings, armor, weapons };
        proof {
            assert(views_of(ship.weapons@) =~~= seq![
                catalog.entries()["weapon"@][0],
            ]);
        }
        Ok(ship)
    }

    /// Builds one ship from the catalog, drawing the engine uniformly at
    /// random among its candidates; every other slot takes the first
    /// candidate of its category. The first missing category is reported as
    /// `LackOfPartInTheFile`.
    pub fn generate_from_file(catalog: &PartCatalog) -> (r: Result<Spaceship, Error>)
        requires
            catalog.wf(),
        ensures
            r is Ok <==> missing_category(catalog.entries()) is None,
            r matches Ok(ship) ==> exists|i: int|
                0 <= i < catalog.entries()["engine"@].len() && ship_matches(
                    catalog.entries(),
                    i,
                    ship,
                ),
            r matches Err(err) ==> (missing_category(catalog.entries()) matches Some(c)
                && err matches Error::LackOfPartInTheFile(name) && name@ == c),
    {
        match catalog.get_all("engine") {
            Some(v) => {
                proof {
                    assert(catalog.entries()["engine"@].len() > 0);
                }
                let idx = draw_index(v.len());
                Self::assemble(catalog, idx)
            },
            None => Self::assemble(catalog, 0),
        }
    }
}

/// One rendered line per weapon: the weapon's description, a comma, a line
/// break.
pub open spec fn spec_weapon_lines(ws: Seq<Seq<char>>) -> Seq<char>
    decreases ws.len(),
{
    if ws.len() == 0 {
        Seq::<char>::empty()
    } else {
        spec_weapon_lines(ws.drop_last()) + ws.last() + ",\n"@
    }
}

/// The ship's whole description text: a heading, one line per fixed part,
/// a wings line per present wing slot, then the weapon lines, or "None"
/// where the ship has no weapon at all.
pub open spec fn spec_render(ship: Spaceship) -> Seq<char> {
    "A ship with:\n"@ + ship.engine@ + " engine,\n"@ + ship.fuselage@ + " fuselage,\n"@
        + ship.cabin@ + " cabin,\n"@ + (match ship.small_wings {
        Some(w) => w@ + " wings,\n"@,
        None => Seq::<char>::empty(),
    }) + (match ship.big_wings {
        Some(w) => w@ + " wings,\n"@,
        None => Seq::<char>::empty(),
    }) + ship.armor@ + " armor,\n"@ + "weapons:\n"@ + (if ship.weapons@.len() == 0 {
        "None\n"@
    } else {
        spec_weapon_lines(views_of(ship.weapons@))
    })
}

impl Spaceship {
    /// Renders the ship as its multi-line description text.
    pub fn render(&self) -> (r: String)
        ensures
            r@ == spec_render(*self),
    {
        let mut r = String::from_str("A ship with:\n");
        r.append(self.engine.as_str());
        r.append(" engine,\n");
        r.append(self.fuselage.as_str());
        r.append(" fuselage,\n");
        r.append(self.cabin.as_str());
        r.append(" cabin,\n");
        match &self.small_wings {
            Some(w) => {
                r.append(w.as_str());
                r.append(" wings,\n");
            },
            None => {},
        }
        match &self.big_wings {
            Some(w) => {
                r.append(w.as_str());
                r.append(" wings,\n");
            },
            None => {},
        }
        r.append(self.armor.as_str());
        r.append(" armor,\n");
        r.append("weapons:\n");
        if self.weapons.len() == 0 {
            r.append("None\n");
        } else {
            let ghost head = r@;
            let ghost ws = views_of(self.weapons@);
            let mut i: usize = 0;
            proof {
                assert(ws.take(0) =~~= Seq::<Seq<char>>::empty());
            }
            while i < self.weapons.len()
                invariant
                    ws == views_of(self.weapons@),
                    i <= self.weapons.len() == ws.len(),
                    r@ == head + spec_weapon_lines(ws.take(i as int)),
                decreases self.weapons.len() - i,
            {
                r.append(self.weapons[i].as_str());
                r.append(",\n");
                proof {
                    assert(ws.take(i as int + 1).drop_last() =~~= ws.take(i as int));
                    assert(ws.take(i as int + 1).last() == ws[i as int]);
                    assert(r@ =~= head + spec_weapon_lines(ws.take(i as int + 1)));
                }
                i = i + 1;
            }
            proof {
                assert(ws.take(self.weapons@.len() as int) =~~= ws);
            }
        }
        proof {
            assert(r@ =~= spec_render(*self));
        }
        r
    }
}

/// Picks one element of a non-empty list of candidates, uniformly at random.
pub fn draw_element(avail_parts: &Vec<String>) -> (r: String)
    requires
        avail_parts.len() > 0,
    ensures
        exists|i: int| 0 <= i < avail_parts.len() && r@ == views_of(avail_parts@)[i],
{
    let idx = draw_index(avail_parts.len());
    let r = avail_parts[idx].clone();
    proof {
        assert(r@ == views_of(avail_parts@)[idx as int]);
    }
    r
}

} // verus!
