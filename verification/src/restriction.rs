//! Regional restrictions: whether a rule, or a set of rules, bars a country.
//!
//! A country list is a run of codes of two bytes each, without separators. A
//! country is on a list when one of the list's codes equals it byte for byte.
//! A list of odd length does not divide into codes: it is malformed, and it
//! names no country at all. That is no error; the list is simply passed over.

use crate::protocol::{Restriction, Rule};
use vstd::prelude::*;
use vstd::string::*;

verus! {

/// Whether `list` divides into codes of two bytes.
pub open spec fn is_well_formed(list: Seq<u8>) -> bool {
    list.len() % 2 == 0
}

/// The `k`-th code of `list`: the two bytes from offset `2 * k`.
pub open spec fn code_at(list: Seq<u8>, k: int) -> Seq<u8>
    recommends
        0 <= k,
        2 * k + 2 <= list.len(),
{
    list.subrange(2 * k, 2 * k + 2)
}

/// Whether `country` is one of the codes of `list`. A malformed list has no
/// codes.
pub open spec fn lists_country(list: Seq<u8>, country: Seq<u8>) -> bool {
    &&& is_well_formed(list)
    &&& exists|k: int| 0 <= 2 * k < list.len() && #[trigger] code_at(list, k) == country
}

/// Whether one rule bars `country`. An allowed list that is present and empty
/// bars every country. An allowed list that names the country clears it, and
/// the forbidden list is not read. Otherwise the forbidden list decides; a
/// malformed list, allowed or forbidden, names no country.
pub open spec fn rule_restricts(rule: Rule, country: Seq<u8>) -> bool {
    if rule.allowed matches Some(allowed) && allowed.len() == 0 {
        true
    } else if rule.allowed matches Some(allowed) && lists_country(allowed, country) {
        false
    } else {
        rule.forbidden matches Some(forbidden) && lists_country(forbidden, country)
    }
}

/// Whether any rule of `rules` bars `country`.
pub open spec fn restricted(rules: Seq<Rule>, country: Seq<u8>) -> bool {
    exists|i: int| 0 <= i < rules.len() && rule_restricts(#[trigger] rules[i], country)
}

/// A code equals a country of two letters exactly when both bytes agree.
pub proof fn lemma_two_letter_code(list: Seq<u8>, country: Seq<u8>, k: int)
    requires
        country.len() == 2,
        0 <= k,
        2 * k + 2 <= list.len(),
    ensures
        code_at(list, k) == country <==> list[2 * k] == country[0] && list[2 * k + 1]
            == country[1],
{
    let code = code_at(list, k);
    assert(code.len() == 2);
    assert(code[0] == list[2 * k]);
    assert(code[1] == list[2 * k + 1]);
    if list[2 * k] == country[0] && list[2 * k + 1] == country[1] {
        assert(code =~= country);
    }
}

/// A list of odd length names no country: neither one that its leading
/// pairs of bytes spell, nor one of a single byte.
pub proof fn lemma_malformed_list_names_nothing(list: Seq<u8>, country: Seq<u8>)
    requires
        !is_well_formed(list),
    ensures
        !lists_country(list, country),
{
}

/// Only a country of exactly two bytes can be on a list.
pub proof fn lemma_listed_country_has_two_letters(list: Seq<u8>, country: Seq<u8>)
    requires
        lists_country(list, country),
    ensures
        country.len() == 2,
        list.len() >= 2,
{
    let k = choose|k: int| 0 <= 2 * k < list.len() && #[trigger] code_at(list, k) == country;
    assert(2 * k + 2 <= list.len());
    assert(code_at(list, k).len() == 2);
}

/// A rule whose allowed list is malformed is judged by its forbidden list
/// alone: the allowed list clears no country.
pub proof fn lemma_malformed_allowed_list(rule: Rule, country: Seq<u8>)
    requires
        rule.allowed matches Some(allowed) && !is_well_formed(allowed),
    ensures
        rule_restricts(rule, country) <==> (rule.forbidden matches Some(forbidden)
            && lists_country(forbidden, country)),
{
}

/// An empty list names no country.
pub proof fn lemma_empty_list_names_nothing(country: Seq<u8>)
    ensures
        !lists_country(Seq::<u8>::empty(), country),
{
}

/// A rule whose allowed list is present and empty bars every country,
/// whatever its forbidden list holds.
pub proof fn lemma_empty_allowed_bars_all(rule: Rule, country: Seq<u8>)
    requires
        rule.allowed matches Some(allowed) && allowed.len() == 0,
    ensures
        rule_restricts(rule, country),
{
}

/// A rule whose allowed list names a country does not bar it, even where the
/// forbidden list of the same rule names it too.
pub proof fn lemma_allowed_country_is_clear(rule: Rule, country: Seq<u8>)
    requires
        rule.allowed matches Some(allowed) && lists_country(allowed, country),
    ensures
        !rule_restricts(rule, country),
{
    let allowed = rule.allowed->0;
    let k = choose|k: int| 0 <= 2 * k < allowed.len() && #[trigger] code_at(allowed, k) == country;
    assert(allowed.len() > 0);
}

/// A rule whose allowed list is not empty and does not name a country bars it
/// exactly when the forbidden list names it.
pub proof fn lemma_forbidden_decides(rule: Rule, country: Seq<u8>)
    requires
        rule.allowed matches Some(allowed) && allowed.len() > 0 && !lists_country(
            allowed,
            country,
        ),
    ensures
        rule_restricts(rule, country) <==> (rule.forbidden matches Some(forbidden)
            && lists_country(forbidden, country)),
{
}

/// A rule without an allowed list bars a country exactly when the forbidden
/// list names it.
pub proof fn lemma_forbidden_alone(rule: Rule, country: Seq<u8>)
    requires
        rule.allowed is None,
    ensures
        rule_restricts(rule, country) <==> (rule.forbidden matches Some(forbidden)
            && lists_country(forbidden, country)),
{
}

/// Rules are judged one by one: a set of rules bars a country as soon as one
/// of its rules does.
pub proof fn lemma_any_rule_suffices(rules: Seq<Rule>, country: Seq<u8>, i: int)
    requires
        0 <= i < rules.len(),
        rule_restricts(rules[i], country),
    ensures
        restricted(rules, country),
{
}

/// A single rule bars exactly what it bars by itself.
pub proof fn lemma_single_rule(rule: Rule, country: Seq<u8>)
    ensures
        restricted(seq![rule], country) == rule_restricts(rule, country),
{
    let rules = seq![rule];
    if rule_restricts(rule, country) {
        assert(rule_restricts(rules[0], country));
    }
}

/// Without rules no country is barred.
pub proof fn lemma_no_rules_bar_nothing(country: Seq<u8>)
    ensures
        !restricted(Seq::<Rule>::empty(), country),
{
}

/// Whether `country` is one of the codes of `countries`; never for a list
/// of odd length, and never for a country that is not of two bytes.
pub fn is_country_in_list(countries: &[u8], country: &[u8]) -> (found: bool)
    ensures
        found == lists_country(countries@, country@),
{
    let len = countries.len();
    if len % 2 != 0 {
        return false;
    }
    if country.len() != 2 {
        proof {
            if lists_country(countries@, country@) {
                lemma_listed_country_has_two_letters(countries@, country@);
            }
        }
        return false;
    }
    let mut start: usize = 0;
    while start < len
        invariant
            len == countries@.len(),
            len % 2 == 0,
            country@.len() == 2,
            start <= len,
            start % 2 == 0,
            forall|k: int| 0 <= 2 * k < start ==> #[trigger] code_at(countries@, k) != country@,
        decreases len - start,
    {
        let ghost here = start as int / 2;
        proof {
            lemma_two_letter_code(countries@, country@, here);
        }
        if countries[start] == country[0] && countries[start + 1] == country[1] {
            return true;
        }
        assert forall|k: int| 0 <= 2 * k < start + 2 implies #[trigger] code_at(countries@, k)
            != country@ by {
            if 2 * k >= start {
                assert(k == here);
            }
        }
        start += 2;
    }
    false
}

/// Whether `restriction` bars playback in `country`.
pub fn is_restricted_in_region(restriction: &Restriction, country: &str) -> (barred: bool)
    ensures
        barred == rule_restricts(restriction@, country.spec_bytes()),
{
    if let Some(allowed) = &restriction.countries_allowed {
        let allowed = allowed.as_str().as_bytes();
        if allowed.len() == 0 {
            return true;
        }
        if is_country_in_list(allowed, country.as_bytes()) {
            return false;
        }
    }
    if let Some(forbidden) = &restriction.countries_forbidden {
        if is_country_in_list(forbidden.as_str().as_bytes(), country.as_bytes()) {
            return true;
        }
    }
    false
}

} // verus!
