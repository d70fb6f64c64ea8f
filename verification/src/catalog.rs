//! The response catalog: three non-empty pools of message templates, loaded
//! from an embedded JSON resource, and a uniform-random pick within a pool.

use vstd::prelude::*;

use crate::classify::ResponseCategory;
use crate::rng::rng_below;
use crate::MommyError;

verus! {

/// The embedded response catalog resource.
pub const EMBEDDED_RESPONSES: &'static str = "{
 \"positive\": [
  \"*pats your head* what a good AFFECTIONATE_TERM~ MOMMYS_ROLE is so proud of you~\",
  \"good AFFECTIONATE_TERM~ you did it all by yourself~\",
  \"MOMMYS_ROLE loves MOMMYS_PRONOUN perfect little AFFECTIONATE_TERM~\",
  \"you're doing so well, AFFECTIONATE_TERM~ keep it up for MOMMYS_ROLE~\",
  \"that's MOMMYS_ROLE's clever little AFFECTIONATE_TERM~\",
  \"*gives you a big hug* everything built just fine, AFFECTIONATE_TERM~\",
  \"MOMMYS_ROLE knew MOMMYS_PRONOUN AFFECTIONATE_TERM could do it~\",
  \"what a capable AFFECTIONATE_TERM you are~\"
 ],
 \"negative\": [
  \"MOMMYS_ROLE believes in you, AFFECTIONATE_TERM~ try again for MOMMYS_PRONOUN sake~\",
  \"aww, don't cry AFFECTIONATE_TERM~ MOMMYS_ROLE still loves you~\",
  \"it's okay, AFFECTIONATE_TERM~ even MOMMYS_ROLE makes mistakes sometimes~\",
  \"*holds you close* MOMMYS_ROLE is here for MOMMYS_PRONOUN little AFFECTIONATE_TERM~\",
  \"do you need MOMMYS_ROLE's help, AFFECTIONATE_TERM?\",
  \"just a little stumble, AFFECTIONATE_TERM~ MOMMYS_ROLE knows you'll get there~\",
  \"MOMMYS_ROLE still thinks MOMMYS_PRONOUN AFFECTIONATE_TERM is wonderful~\",
  \"take a deep breath, AFFECTIONATE_TERM~ and try once more for MOMMYS_ROLE~\"
 ],
 \"natural\": [
  \"careful, AFFECTIONATE_TERM~ MOMMYS_ROLE noticed a few warnings~\",
  \"almost perfect, AFFECTIONATE_TERM~ MOMMYS_ROLE would tidy those warnings up~\",
  \"it works, AFFECTIONATE_TERM~ but MOMMYS_PRONOUN keen eyes saw some warnings~\",
  \"good try, AFFECTIONATE_TERM~ now let's clean those warnings up for MOMMYS_ROLE~\",
  \"MOMMYS_ROLE is proud, but MOMMYS_PRONOUN AFFECTIONATE_TERM left a little mess~\",
  \"so close to perfect, AFFECTIONATE_TERM~\"
 ]
}";

/// The array of strings stored under `key` in the JSON object that `text`
/// denotes; nothing, when `text` is not a JSON object whose members are all
/// arrays of strings, or when it has no member named `key`. A fixed
/// mathematical function of the text and the key alone.
pub uninterp spec fn list_at(text: Seq<char>, key: Seq<char>) -> Option<Seq<Seq<char>>>;

/// Relies on serde_json's `from_str` — deserializing into std's `HashMap`
/// from `String` to `Vec<String>`, so succeeding exactly on a JSON object
/// whose members are all arrays of strings — and on std's `HashMap::get`;
/// both results depend on the text and the key alone.
#[verifier::external_body]
fn extract_list(text: &str, key: &str) -> (r: Option<Vec<String>>)
    ensures
        r matches Some(l) ==> list_at(text@, key@) == Some(l.deep_view()),
        r is None ==> list_at(text@, key@) is None,
{
    let parsed: Result<std::collections::HashMap<String, Vec<String>>, serde_json::Error> =
        serde_json::from_str(text);
    match parsed {
        Ok(m) => m.get(key).cloned(),
        Err(_) => None,
    }
}

/// Three named, ordered pools of message templates, one per category.
pub struct ResponseCatalog {
    pub positive: Vec<String>,
    pub negative: Vec<String>,
    pub natural: Vec<String>,
}

impl ResponseCatalog {
    /// The pool of the given category, as texts.
    pub open spec fn spec_pool(&self, category: ResponseCategory) -> Seq<Seq<char>> {
        match category {
            ResponseCategory::Positive => self.positive.deep_view(),
            ResponseCategory::Negative => self.negative.deep_view(),
            ResponseCategory::Natural => self.natural.deep_view(),
        }
    }

    /// Draws one template of the category's pool, uniformly at random; a
    /// pool with no templates is reported, never drawn from.
    pub fn pick(&self, category: ResponseCategory, rng: &mut rand::rngs::StdRng) -> (r: Result<
        String,
        MommyError,
    >)
        ensures
            r is Ok <==> self.spec_pool(category).len() > 0,
            r matches Ok(t) ==> self.spec_pool(category).contains(t@),
            r matches Err(e) ==> e == MommyError::EmptyCategory,
    {
        match category {
            ResponseCategory::Positive => pick_from(&self.positive, rng),
            ResponseCategory::Negative => pick_from(&self.negative, rng),
            ResponseCategory::Natural => pick_from(&self.natural, rng),
        }
    }
}

/// Draws one element of the pool, uniformly at random.
fn pick_from(pool: &Vec<String>, rng: &mut rand::rngs::StdRng) -> (r: Result<String, MommyError>)
    ensures
        r is Ok <==> pool.deep_view().len() > 0,
        r matches Ok(t) ==> pool.deep_view().contains(t@),
        r matches Err(e) ==> e == MommyError::EmptyCategory,
{
    if pool.len() == 0 {
        return Err(MommyError::EmptyCategory);
    }
    let i = rng_below(rng, pool.len());
    let t = pool[i].clone();
    proof {
        assert(pool.deep_view()[i as int] == t@);
        assert(pool.deep_view().contains(t@));
    }
    Ok(t)
}

/// Loads a catalog from its serialized text: a JSON object with the three
/// members `positive`, `negative` and `natural`, each an array of strings;
/// any other text is malformed.
pub fn load(text: &str) -> (r: Result<ResponseCatalog, MommyError>)
    ensures
        r matches Ok(c) ==> {
            &&& list_at(text@, "positive"@) == Some(c.positive.deep_view())
            &&& list_at(text@, "negative"@) == Some(c.negative.deep_view())
            &&& list_at(text@, "natural"@) == Some(c.natural.deep_view())
        },
        r is Err <==> (list_at(text@, "positive"@) is None || list_at(text@, "negative"@) is None
            || list_at(text@, "natural"@) is None),
        r matches Err(e) ==> e == MommyError::MalformedCatalog,
{
    let positive = match extract_list(text, "positive") {
        Some(l) => l,
        None => {
            return Err(MommyError::MalformedCatalog);
        },
    };
    let negative = match extract_list(text, "negative") {
        Some(l) => l,
        None => {
            return Err(MommyError::MalformedCatalog);
        },
    };
    let natural = match extract_list(text, "natural") {
        Some(l) => l,
        None => {
            return Err(MommyError::MalformedCatalog);
        },
    };
    Ok(ResponseCatalog { positive, negative, natural })
}

} // verus!
