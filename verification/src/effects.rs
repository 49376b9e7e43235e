//! The built-in lighting effects of KL430/KL420L5 light strips, and how a
//! name typed by the user picks one.

use vstd::prelude::*;
use crate::hosts::{join, join_strings, normalize, normalize_spec};
use crate::text::{ascii_lower_seq, chars_eq, chars_of, contains_chars, contains_seq, lower_chars};

verus! {

/// The built-in effects, in catalog order.
pub open spec fn builtin_effects_spec() -> Seq<Seq<char>> {
    seq![
        "Off"@, "Aurora"@, "Bubbling Cauldron"@, "Candy Cane"@, "Christmas"@, "Flicker"@,
        "Hanukkah"@, "Haunted Mansion"@, "Icicle"@, "Lightning"@, "Ocean"@, "Rainbow"@,
        "Raindrop"@, "Spring"@, "Valentines"@,
    ]
}

/// The names of `v`.
pub open spec fn names(v: Seq<&'static str>) -> Seq<Seq<char>> {
    v.map_values(|s: &'static str| s@)
}

/// The built-in effects, in catalog order.
pub fn builtin_effects() -> (r: Vec<&'static str>)
    ensures
        names(r@) == builtin_effects_spec(),
{
    let r = vec![
        "Off", "Aurora", "Bubbling Cauldron", "Candy Cane", "Christmas", "Flicker", "Hanukkah",
        "Haunted Mansion", "Icicle", "Lightning", "Ocean", "Rainbow", "Raindrop", "Spring",
        "Valentines",
    ];
    assert(names(r@) =~= builtin_effects_spec());
    r
}

/// Whether effect `e` matches the normalized query `needle`: equal when
/// normalized, or (for a partial match) containing it.
pub open spec fn effect_matches(e: Seq<char>, needle: Seq<char>, partial: bool) -> bool {
    if partial { contains_seq(normalize_spec(e), needle) } else { normalize_spec(e) == needle }
}

/// The effects among `es` that match `needle`, in order.
pub open spec fn matches_of(es: Seq<Seq<char>>, needle: Seq<char>, partial: bool) -> Seq<Seq<char>>
    decreases es.len(),
{
    if es.len() == 0 {
        Seq::empty()
    } else {
        let r = matches_of(es.drop_last(), needle, partial);
        if effect_matches(es.last(), needle, partial) { r.push(es.last()) } else { r }
    }
}

/// The effect a name picks: the one effect whose normalized name equals
/// the normalized query, else the one effect that contains it; none for an
/// empty query, an unknown name or an ambiguous one.
pub open spec fn resolve_spec(name: Seq<char>) -> Option<Seq<char>> {
    let needle = normalize_spec(name);
    if needle.len() == 0 {
        None
    } else {
        let exact = matches_of(builtin_effects_spec(), needle, false);
        if exact.len() == 1 {
            Some(exact[0])
        } else {
            let fuzzy = matches_of(builtin_effects_spec(), needle, true);
            if fuzzy.len() == 1 { Some(fuzzy[0]) } else { None }
        }
    }
}

fn unique_match(es: &Vec<&'static str>, needle: &Vec<char>, partial: bool) -> (r: Option<&'static str>)
    ensures
        match r {
            Some(e) => matches_of(names(es@), needle@, partial).len() == 1
                && matches_of(names(es@), needle@, partial)[0] == e@,
            None => matches_of(names(es@), needle@, partial).len() != 1,
        },
{
    let ghost all = names(es@);
    let mut count: usize = 0;
    let mut first: Option<&'static str> = None;
    let mut i: usize = 0;
    while i < es.len()
        invariant
            i <= es@.len(),
            all == names(es@),
            count == matches_of(all.take(i as int), needle@, partial).len(),
            count <= i,
            count >= 1 ==> (first matches Some(f) && f@ == matches_of(all.take(i as int), needle@, partial)[0]),
        decreases es@.len() - i,
    {
        let ghost before = matches_of(all.take(i as int), needle@, partial);
        assert(all.take(i + 1).drop_last() =~= all.take(i as int));
        assert(all.take(i + 1).last() == es@[i as int]@);
        let n = chars_of(normalize(es[i]).as_str());
        let hit = if partial { contains_chars(&n, needle) } else { chars_eq(&n, needle) };
        if hit {
            if count == 0 {
                first = Some(es[i]);
            }
            count = count + 1;
        }
        i = i + 1;
    }
    assert(all.take(es@.len() as int) =~= all);
    if count == 1 { first } else { None }
}

/// The built-in effect that `name` picks (see `resolve_spec`).
pub fn resolve(name: &str) -> (r: Option<&'static str>)
    ensures
        match r {
            Some(e) => resolve_spec(name@) == Some(e@),
            None => resolve_spec(name@) is None,
        },
{
    let needle = chars_of(normalize(name).as_str());
    if needle.len() == 0 {
        return None;
    }
    let es = builtin_effects();
    match unique_match(&es, &needle, false) {
        Some(e) => Some(e),
        None => unique_match(&es, &needle, true),
    }
}

/// The refusal of an effect name that picks no effect.
pub open spec fn unknown_effect_message(name: Seq<char>) -> Seq<char> {
    "No light-strip effect named \""@ + name + "\" found. Available effects: "@
        + join(builtin_effects_spec(), ", "@)
}

/// What an `effect` command with `name` does: `Ok(None)` turns the effect
/// off ("off" in any ASCII case), `Ok(Some(e))` shows effect `e`, and an
/// error lists the effects when `name` picks none.
pub open spec fn effect_choice(name: Seq<char>) -> Result<Option<Seq<char>>, Seq<char>> {
    if ascii_lower_seq(name) == "off"@ {
        Ok(None)
    } else {
        match resolve_spec(name) {
            Some(e) => Ok(Some(e)),
            None => Err(unknown_effect_message(name)),
        }
    }
}

/// Decides what an `effect` command with `name` does (see `effect_choice`).
pub fn choose_effect(name: &str) -> (r: Result<Option<&'static str>, String>)
    ensures
        match r {
            Ok(None) => effect_choice(name@) == Ok::<Option<Seq<char>>, Seq<char>>(None),
            Ok(Some(e)) => effect_choice(name@) == Ok::<Option<Seq<char>>, Seq<char>>(Some(e@)),
            Err(m) => effect_choice(name@) == Err::<Option<Seq<char>>, Seq<char>>(m@),
        },
{
    if chars_eq(&lower_chars(&chars_of(name)), &chars_of("off")) {
        return Ok(None);
    }
    match resolve(name) {
        Some(e) => Ok(Some(e)),
        None => {
            let es = builtin_effects();
            let mut list: Vec<String> = Vec::new();
            let mut i: usize = 0;
            while i < es.len()
                invariant
                    i <= es@.len(),
                    list@.len() == i,
                    forall|j: int| 0 <= j < i ==> #[trigger] list@[j]@ == es@[j]@,
                decreases es@.len() - i,
            {
                list.push(String::from_str(es[i]));
                i = i + 1;
            }
            assert(list@.map_values(|m: String| m@) =~= builtin_effects_spec());
            let mut m = String::from_str("No light-strip effect named \"");
            m.append(name);
            m.append("\" found. Available effects: ");
            let joined = join_strings(&list, ", ");
            m.append(joined.as_str());
            Err(m)
        },
    }
}

/// Whether a catalog line marks effect `e` as the current one: it is not
/// "Off" and equals the current effect's name, both ignoring ASCII case.
pub open spec fn is_selected(e: Seq<char>, current: Seq<char>) -> bool {
    ascii_lower_seq(e) != "off"@ && ascii_lower_seq(e) == ascii_lower_seq(current)
}

/// The catalog: every built-in effect, with whether it is the one named
/// `current`.
pub fn catalog(current: &str) -> (r: Vec<(&'static str, bool)>)
    ensures
        r@.len() == builtin_effects_spec().len(),
        forall|i: int| 0 <= i < r@.len() ==> (#[trigger] r@[i]).0@ == builtin_effects_spec()[i]
            && r@[i].1 == is_selected(builtin_effects_spec()[i], current@),
{
    let es = builtin_effects();
    let cur = lower_chars(&chars_of(current));
    let off = chars_of("off");
    let mut r: Vec<(&'static str, bool)> = Vec::new();
    let mut i: usize = 0;
    while i < es.len()
        invariant
            i <= es@.len(),
            names(es@) == builtin_effects_spec(),
            cur@ == ascii_lower_seq(current@),
            off@ == "off"@,
            r@.len() == i,
            forall|j: int| 0 <= j < i ==> (#[trigger] r@[j]).0@ == builtin_effects_spec()[j]
                && r@[j].1 == is_selected(builtin_effects_spec()[j], current@),
        decreases es@.len() - i,
    {
        assert(names(es@)[i as int] == es@[i as int]@);
        let e = lower_chars(&chars_of(es[i]));
        let selected = !chars_eq(&e, &off) && chars_eq(&e, &cur);
        r.push((es[i], selected));
        i = i + 1;
    }
    r
}

proof fn lemma_matches_are_members(es: Seq<Seq<char>>, needle: Seq<char>, partial: bool)
    ensures
        forall|i: int| 0 <= i < matches_of(es, needle, partial).len()
            ==> es.contains(#[trigger] matches_of(es, needle, partial)[i]),
    decreases es.len(),
{
    if es.len() > 0 {
        lemma_matches_are_members(es.drop_last(), needle, partial);
        let m = matches_of(es, needle, partial);
        let before = matches_of(es.drop_last(), needle, partial);
        assert forall|i: int| 0 <= i < m.len() implies es.contains(#[trigger] m[i]) by {
            if i < before.len() {
                assert(m[i] == before[i]);
                assert(es.drop_last().contains(before[i]));
                let j = choose|j: int| 0 <= j < es.drop_last().len() && es.drop_last()[j] == before[i];
                assert(es[j] == before[i]);
            } else {
                assert(m[i] == es.last());
                assert(es[es.len() - 1] == es.last());
            }
        }
    }
}

/// A name that picks an effect picks one of the built-in effects.
pub proof fn law_resolve_picks_builtin(name: Seq<char>)
    ensures
        match resolve_spec(name) {
            Some(e) => builtin_effects_spec().contains(e),
            None => true,
        },
{
    let needle = normalize_spec(name);
    lemma_matches_are_members(builtin_effects_spec(), needle, false);
    lemma_matches_are_members(builtin_effects_spec(), needle, true);
    if needle.len() > 0 {
        let exact = matches_of(builtin_effects_spec(), needle, false);
        let fuzzy = matches_of(builtin_effects_spec(), needle, true);
        if exact.len() == 1 {
            assert(builtin_effects_spec().contains(exact[0]));
        } else if fuzzy.len() == 1 {
            assert(builtin_effects_spec().contains(fuzzy[0]));
        }
    }
}

} // verus!
