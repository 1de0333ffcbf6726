use vstd::prelude::*;

use crate::catalog::{spec_parse, PartCatalog};
use crate::error::Error;
use crate::ship::{missing_category, ship_matches, spec_render, spec_weapon_lines, Spaceship};
use crate::text::views_of;

verus! {

/// The wings portion of a rendered ship for the one stored wings value `w`:
/// nothing when `w` is exactly "no", otherwise the same value on a small
/// and on a big wings line.
pub open spec fn spec_wings_text(w: Seq<char>) -> Seq<char> {
    if w == "no"@ {
        Seq::<char>::empty()
    } else {
        w + " wings,\n"@ + w + " wings,\n"@
    }
}

/// The text rendered for the ship that a catalog `e` and an engine draw `i`
/// determine.
pub open spec fn spec_ship_text(e: Map<Seq<char>, Seq<Seq<char>>>, i: int) -> Seq<char> {
    "A ship with:\n"@ + e["engine"@][i] + " engine,\n"@ + e["fuselage"@][0] + " fuselage,\n"@
        + e["cabin"@][0] + " cabin,\n"@ + spec_wings_text(e["wings"@][0]) + e["armor"@][0]
        + " armor,\n"@ + "weapons:\n"@ + e["weapon"@][0] + ",\n"@
}

/// A rendered ship that matches catalog `e` and engine draw `i` reads as
/// `spec_ship_text(e, i)`.
pub proof fn lemma_ship_text(e: Map<Seq<char>, Seq<Seq<char>>>, i: int, ship: Spaceship)
    requires
        ship_matches(e, i, ship),
    ensures
        spec_render(ship) == spec_ship_text(e, i),
{
    let ws = views_of(ship.weapons@);
    assert(ws.len() == 1);
    assert(ship.weapons@.len() == 1);
    assert(ws.drop_last() =~~= Seq::<Seq<char>>::empty());
    assert(spec_weapon_lines(ws) == spec_weapon_lines(Seq::<Seq<char>>::empty()) + ws.last()
        + ",\n"@);
    assert(spec_weapon_lines(Seq::<Seq<char>>::empty()) == Seq::<char>::empty());
    assert(ws.last() == e["weapon"@][0]);
    assert(spec_weapon_lines(ws) =~= e["weapon"@][0] + ",\n"@);
    let head = "A ship with:\n"@ + e["engine"@][i] + " engine,\n"@ + e["fuselage"@][0]
        + " fuselage,\n"@ + e["cabin"@][0] + " cabin,\n"@;
    let w = e["wings"@][0];
    let wline = w + " wings,\n"@;
    let mid = if w == "no"@ {
        head
    } else {
        head + wline + wline
    };
    assert("A ship with:\n"@ + ship.engine@ + " engine,\n"@ + ship.fuselage@ + " fuselage,\n"@
        + ship.cabin@ + " cabin,\n"@ == head);
    if w == "no"@ {
        assert(head + Seq::<char>::empty() + Seq::<char>::empty() =~= mid);
        assert(spec_render(ship) == head + Seq::<char>::empty() + Seq::<char>::empty()
            + ship.armor@ + " armor,\n"@ + "weapons:\n"@ + spec_weapon_lines(ws));
        assert(spec_render(ship) == mid + e["armor"@][0] + " armor,\n"@ + "weapons:\n"@
            + spec_weapon_lines(ws));
    } else {
        assert(spec_wings_text(w) == wline + w + " wings,\n"@);
        vstd::seq_lib::lemma_concat_associative(wline, w, " wings,\n"@);
        assert(spec_wings_text(w) == wline + wline);
        vstd::seq_lib::lemma_concat_associative(head, wline, wline);
        assert(head + spec_wings_text(w) == mid);
        assert(ship.small_wings matches Some(sw) && sw@ + " wings,\n"@ == wline);
        assert(ship.big_wings matches Some(bw) && bw@ + " wings,\n"@ == wline);
        assert(spec_render(ship) == head + wline + wline + ship.armor@ + " armor,\n"@
            + "weapons:\n"@ + spec_weapon_lines(ws));
        assert(spec_render(ship) == mid + e["armor"@][0] + " armor,\n"@ + "weapons:\n"@
            + spec_weapon_lines(ws));
    }
    assert(spec_ship_text(e, i) == mid + e["armor"@][0] + " armor,\n"@ + "weapons:\n"@
        + e["weapon"@][0] + ",\n"@);
    let tail = mid + e["armor"@][0] + " armor,\n"@ + "weapons:\n"@;
    vstd::seq_lib::lemma_concat_associative(tail, e["weapon"@][0], ",\n"@);
    assert(spec_render(ship) == spec_ship_text(e, i));
}

/// The whole pipeline on the contents of a parts file: parse the catalog,
/// generate one ship (one random engine draw), render it. Fails with
/// `LackOfPartInTheFile` naming the first missing category.
pub fn run(contents: &str) -> (r: Result<String, Error>)
    ensures
        r is Ok <==> missing_category(spec_parse(contents@)) is None,
        r matches Ok(out) ==> exists|i: int|
            0 <= i < spec_parse(contents@)["engine"@].len() && out@ == spec_ship_text(
                spec_parse(contents@),
                i,
            ),
        r matches Err(err) ==> (missing_category(spec_parse(contents@)) matches Some(c)
            && err matches Error::LackOfPartInTheFile(name) && name@ == c),
{
    let catalog = PartCatalog::from_text(contents);
    match Spaceship::generate_from_file(&catalog) {
        Ok(ship) => {
            let out = ship.render();
            proof {
                let e = spec_parse(contents@);
                let i = choose|i: int|
                    0 <= i < e["engine"@].len() && ship_matches(e, i, ship);
                lemma_ship_text(e, i, ship);
                assert(out@ == spec_ship_text(e, i));
            }
            Ok(out)
        },
        Err(err) => Err(err),
    }
}

} // verus!
