//! Resolution of client settings: API keys, endpoints and the model to use.
//!
//! Each setting comes from an explicit parameter when one is given, then from
//! the environment; the caller reads the environment and hands the values in.
use vstd::prelude::*;
use vstd::string::StringExecFns;

verus! {

/// The first of the given values that is present.
pub open spec fn first_present(a: Option<String>, b: Option<String>) -> Option<String> {
    match a {
        Some(x) => Some(x),
        None => b,
    }
}

/// LLM API key: the `api_key` parameter, else `LLM_API_KEY`, else `OPENAI_API_KEY`,
/// else the empty key.
pub fn resolve_api_key(
    api_key: Option<String>,
    llm_api_key_env: Option<String>,
    openai_api_key_env: Option<String>,
) -> (r: String)
    ensures
        r@ == match first_present(first_present(api_key, llm_api_key_env), openai_api_key_env) {
            Some(k) => k@,
            None => Seq::<char>::empty(),
        },
{
    match api_key {
        Some(k) => k,
        None => match llm_api_key_env {
            Some(k) => k,
            None => match openai_api_key_env {
                Some(k) => k,
                None => String::new(),
            },
        },
    }
}

/// LLM base URL: the `base_url` parameter, else `LLM_BASE_URL`; none means the OpenAI API.
pub fn resolve_base_url(base_url: Option<String>, base_url_env: Option<String>) -> (r: Option<
    String,
>)
    ensures
        r == first_present(base_url, base_url_env),
{
    match base_url {
        Some(u) => Some(u),
        None => base_url_env,
    }
}

/// LLM model: the `model_name` parameter, else `LLM_MODEL`; none means the model is
/// chosen among those the API lists (see [`select_model`]).
pub fn resolve_model_name(model_name: Option<String>, model_env: Option<String>) -> (r: Option<
    String,
>)
    ensures
        r == first_present(model_name, model_env),
{
    match model_name {
        Some(m) => Some(m),
        None => model_env,
    }
}

/// The key under which model listings are cached: the base URL as given, or the
/// empty string for the default OpenAI API.
pub fn model_cache_key(base_url: &Option<String>) -> (r: String)
    ensures
        r@ == match base_url {
            Some(u) => u@,
            None => Seq::<char>::empty(),
        },
{
    match base_url {
        Some(u) => u.clone(),
        None => String::new(),
    }
}

/// `s` without its trailing `/` characters.
pub open spec fn without_trailing_slashes(s: Seq<char>) -> Seq<char>
    decreases s.len(),
{
    if s.len() > 0 && s[s.len() - 1] == '/' {
        without_trailing_slashes(s.subrange(0, s.len() - 1))
    } else {
        s
    }
}

/// The API base handed to the OpenAI client: the base URL without trailing slashes.
pub fn api_base(base_url: &str) -> (r: String)
    ensures
        r@ == without_trailing_slashes(base_url@),
{
    let chars = crate::sanitize::chars_of(base_url);
    let mut end = chars.len();
    assert(chars@.subrange(0, chars@.len() as int) =~= chars@);
    while end > 0 && chars[end - 1] == '/'
        invariant
            end <= chars.len(),
            without_trailing_slashes(chars@) == without_trailing_slashes(chars@.subrange(0, end as int)),
        decreases end,
    {
        assert(chars@.subrange(0, end as int).subrange(0, end - 1) =~= chars@.subrange(0, end - 1));
        end = end - 1;
    }
    assert(chars@.subrange(0, chars@.len() as int) =~= chars@);
    crate::sanitize::string_of_range(&chars, 0, end)
}

/// Why no model could be chosen among those listed.
#[derive(Debug, Clone)]
pub enum ModelSelectionError {
    /// The API lists no model
    NoModels,
    /// The API lists several models; one must be named
    MultipleModels(Vec<String>),
}

/// Choose the model when none is named: the only model listed.
pub fn select_model(model_ids: Vec<String>) -> (r: Result<String, ModelSelectionError>)
    ensures
        model_ids.len() == 1 ==> (r matches Ok(m) && m == model_ids@[0]),
        model_ids.len() == 0 ==> r matches Err(ModelSelectionError::NoModels),
        model_ids.len() > 1 ==> (r matches Err(ModelSelectionError::MultipleModels(ids)) && ids@
            == model_ids@),
{
    if model_ids.len() == 1 {
        let mut ids = model_ids;
        let m = ids.remove(0);
        Ok(m)
    } else if model_ids.len() == 0 {
        Err(ModelSelectionError::NoModels)
    } else {
        Err(ModelSelectionError::MultipleModels(model_ids))
    }
}

/// The present ids among the first `n` entries, in order.
pub open spec fn present_ids(entries: Seq<Option<String>>, n: int) -> Seq<Seq<char>>
    decreases n,
{
    if n <= 0 {
        Seq::empty()
    } else {
        match entries[n - 1] {
            Some(id) => present_ids(entries, n - 1).push(id@),
            None => present_ids(entries, n - 1),
        }
    }
}

/// The model ids of a `/models` listing.
///
/// `data` holds, for each entry of the listing's `data` array, its `id` when that is a
/// string; it is `None` when the listing has no `data` array.
pub fn collect_model_ids(data: Option<Vec<Option<String>>>) -> (r: Vec<String>)
    ensures
        r@.map_values(|s: String| s@) == match data {
            Some(entries) => present_ids(entries@, entries@.len() as int),
            None => Seq::<Seq<char>>::empty(),
        },
{
    let mut ids: Vec<String> = Vec::new();
    match data {
        None => {
            assert(ids@.map_values(|s: String| s@) =~= Seq::<Seq<char>>::empty());
            ids
        },
        Some(entries) => {
            let mut i: usize = 0;
            while i < entries.len()
                invariant
                    i <= entries.len(),
                    ids@.map_values(|s: String| s@) == present_ids(entries@, i as int),
                decreases entries.len() - i,
            {
                let ghost before = ids@;
                match &entries[i] {
                    Some(id) => {
                        ids.push(id.clone());
                        assert(ids@.map_values(|s: String| s@) =~= before.map_values(
                            |s: String| s@,
                        ).push(id@));
                    },
                    None => {},
                }
                i = i + 1;
            }
            ids
        },
    }
}

/// The Gradium API key is neither given nor set in the environment.
#[derive(Debug, Clone, Copy, PartialEq, Eq, Structural)]
pub struct MissingGradiumApiKey;

/// Gradium API key: the parameter, else `GRADIUM_API_KEY`; an error when neither is set.
pub fn resolve_gradium_api_key(gradium_api_key: Option<&str>, env_key: Option<String>) -> (r:
    Result<String, MissingGradiumApiKey>)
    ensures
        match gradium_api_key {
            Some(k) => r matches Ok(s) && s@ == k@,
            None => match env_key {
                Some(k) => r matches Ok(s) && s@ == k@,
                None => r is Err,
            },
        },
{
    match gradium_api_key {
        Some(k) => Ok(String::from_str(k)),
        None => match env_key {
            Some(k) => Ok(k),
            None => Err(MissingGradiumApiKey),
        },
    }
}

} // verus!
