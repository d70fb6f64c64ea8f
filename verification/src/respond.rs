//! The computing half of the orchestrator: classify the outcome, resolve the
//! three option bindings, load the catalog, pick a template for the
//! category, and expand the three placeholders in their fixed order. Process
//! spawning and writing the result belong to the caller.

use vstd::prelude::*;
use vstd::utf8::{decode_utf8, valid_utf8};

use crate::catalog::{list_at, load, ResponseCatalog};
use crate::classify::{category_of_text, classify, ResponseCategory};
use crate::expand::{apply_template, is_expansion_of};
use crate::options::{resolve, resolved_options};
use crate::MommyError;

verus! {

/// `out` is a possible fully expanded response: some template of `pool`
/// whose three placeholder tokens were expanded in their fixed order, each
/// occurrence from its own option list.
pub open spec fn is_selection_for(
    out: Seq<char>,
    pool: Seq<Seq<char>>,
    terms: Seq<Seq<char>>,
    pronouns: Seq<Seq<char>>,
    roles: Seq<Seq<char>>,
) -> bool {
    exists|t: Seq<char>, m1: Seq<char>, m2: Seq<char>|
        #![trigger is_expansion_of(m1, t, "AFFECTIONATE_TERM"@, terms), is_expansion_of(
            m2,
            m1,
            "MOMMYS_PRONOUN"@,
            pronouns,
        )]
        pool.contains(t) && is_expansion_of(m1, t, "AFFECTIONATE_TERM"@, terms)
            && is_expansion_of(m2, m1, "MOMMYS_PRONOUN"@, pronouns)
            && is_expansion_of(out, m2, "MOMMYS_ROLE"@, roles)
}

/// Picks a template of the category's pool, uniformly at random, and expands
/// the three placeholders in their fixed order.
pub fn select_response(
    catalog: &ResponseCatalog,
    category: ResponseCategory,
    terms: &Vec<String>,
    pronouns: &Vec<String>,
    roles: &Vec<String>,
    rng: &mut rand::rngs::StdRng,
) -> (r: Result<String, MommyError>)
    requires
        terms@.len() > 0,
        pronouns@.len() > 0,
        roles@.len() > 0,
    ensures
        r is Ok <==> catalog.spec_pool(category).len() > 0,
        r matches Err(e) ==> e == MommyError::EmptyCategory,
        r matches Ok(out) ==> is_selection_for(
            out@,
            catalog.spec_pool(category),
            terms.deep_view(),
            pronouns.deep_view(),
            roles.deep_view(),
        ),
{
    proof {
        reveal_strlit("AFFECTIONATE_TERM");
        reveal_strlit("MOMMYS_PRONOUN");
        reveal_strlit("MOMMYS_ROLE");
    }
    let template = match catalog.pick(category, rng) {
        Ok(t) => t,
        Err(e) => {
            return Err(e);
        },
    };
    let first = match apply_template(template.as_str(), "AFFECTIONATE_TERM", terms, rng) {
        Ok(s) => s,
        Err(e) => {
            return Err(e);
        },
    };
    let second = match apply_template(first.as_str(), "MOMMYS_PRONOUN", pronouns, rng) {
        Ok(s) => s,
        Err(e) => {
            return Err(e);
        },
    };
    let third = match apply_template(second.as_str(), "MOMMYS_ROLE", roles, rng) {
        Ok(s) => s,
        Err(e) => {
            return Err(e);
        },
    };
    proof {
        assert(is_expansion_of(first@, template@, "AFFECTIONATE_TERM"@, terms.deep_view()));
        assert(is_expansion_of(second@, first@, "MOMMYS_PRONOUN"@, pronouns.deep_view()));
        assert(is_selection_for(
            third@,
            catalog.spec_pool(category),
            terms.deep_view(),
            pronouns.deep_view(),
            roles.deep_view(),
        ));
    }
    Ok(third)
}

/// The raw text of an optional configuration value.
pub open spec fn spec_value(v: Option<&str>) -> Option<Seq<char>> {
    match v {
        Some(s) => Some(s@),
        None => None,
    }
}

/// The category that the wrapped process's outcome calls for; nothing, when
/// its captured error stream would have to be decoded and cannot be.
pub open spec fn spec_category(exit_success: bool, stderr: Seq<u8>) -> Option<ResponseCategory> {
    if !exit_success {
        Some(ResponseCategory::Negative)
    } else if valid_utf8(stderr) {
        Some(category_of_text(decode_utf8(stderr)))
    } else {
        None
    }
}

/// The pool that the catalog text stores for a category.
pub open spec fn spec_pool_at(text: Seq<char>, category: ResponseCategory) -> Option<Seq<Seq<char>>> {
    match category {
        ResponseCategory::Positive => list_at(text, "positive"@),
        ResponseCategory::Negative => list_at(text, "negative"@),
        ResponseCategory::Natural => list_at(text, "natural"@),
    }
}

/// One whole response computation: classifies the outcome, resolves the
/// three option bindings (with the defaults `girl`, `her` and `mommy`),
/// loads the catalog from its text, picks a template of the outcome's
/// category and expands it. Every failure is reported; nothing panics.
pub fn respond(
    exit_success: bool,
    stderr: &Vec<u8>,
    catalog_text: &str,
    terms_value: Option<&str>,
    pronouns_value: Option<&str>,
    roles_value: Option<&str>,
    rng: &mut rand::rngs::StdRng,
) -> (r: Result<String, MommyError>)
    ensures
        ({
            let terms = resolved_options(spec_value(terms_value), "girl"@);
            let pronouns = resolved_options(spec_value(pronouns_value), "her"@);
            let roles = resolved_options(spec_value(roles_value), "mommy"@);
            match spec_category(exit_success, stderr@) {
                None => r == Err::<String, MommyError>(MommyError::InvalidOutputEncoding),
                Some(category) => {
                    if list_at(catalog_text@, "positive"@) is None || list_at(
                        catalog_text@,
                        "negative"@,
                    ) is None || list_at(catalog_text@, "natural"@) is None {
                        r == Err::<String, MommyError>(MommyError::MalformedCatalog)
                    } else if spec_pool_at(catalog_text@, category)->Some_0.len() == 0 {
                        r == Err::<String, MommyError>(MommyError::EmptyCategory)
                    } else {
                        r matches Ok(out) && is_selection_for(
                            out@,
                            spec_pool_at(catalog_text@, category)->Some_0,
                            terms,
                            pronouns,
                            roles,
                        )
                    }
                },
            }
        }),
{
    let category = match classify(exit_success, stderr) {
        Ok(c) => c,
        Err(e) => {
            return Err(e);
        },
    };
    let terms = resolve(terms_value, "girl");
    let pronouns = resolve(pronouns_value, "her");
    let roles = resolve(roles_value, "mommy");
    let catalog = match load(catalog_text) {
        Ok(c) => c,
        Err(e) => {
            return Err(e);
        },
    };
    proof {
        match category {
            ResponseCategory::Positive => {
                assert(catalog.spec_pool(category) == spec_pool_at(catalog_text@, category)->Some_0);
            },
            ResponseCategory::Negative => {
                assert(catalog.spec_pool(category) == spec_pool_at(catalog_text@, category)->Some_0);
            },
            ResponseCategory::Natural => {
                assert(catalog.spec_pool(category) == spec_pool_at(catalog_text@, category)->Some_0);
            },
        }
    }
    select_response(&catalog, category, &terms, &pronouns, &roles, rng)
}

} // verus!
