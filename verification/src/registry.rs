//! Which configured provider serves a request: providers are known by a
//! unique ID and list the models they serve.  The provider clients
//! themselves live outside the library; these functions pick them by index
//! into the configuration.
use vstd::prelude::*;
use crate::config::ProviderConfig;
use crate::error::McError;
use crate::text::{extend_chars, str_eq, string_of};

verus! {

/// The IDs of a list of provider configurations.
pub open spec fn provider_ids(cs: Seq<ProviderConfig>) -> Seq<Seq<char>> {
    cs.map_values(|c: ProviderConfig| c.id@)
}

/// Some earlier provider has the ID of provider `k`.
pub open spec fn repeats_earlier(ids: Seq<Seq<char>>, k: int) -> bool {
    exists|j: int| 0 <= j < k && #[trigger] ids[j] == ids[k]
}

/// The first provider whose ID was already used by an earlier one.
pub open spec fn first_duplicate_s(ids: Seq<Seq<char>>) -> Option<int> {
    if exists|k: int| 0 <= k < ids.len() && #[trigger] repeats_earlier(ids, k) {
        Some(
            choose|k: int|
                0 <= k < ids.len() && #[trigger] repeats_earlier(ids, k) && forall|m: int|
                    0 <= m < k ==> !#[trigger] repeats_earlier(ids, m),
        )
    } else {
        None
    }
}

/// The error of a provider configuration whose ID is already taken.
pub open spec fn is_config_error(e: McError, m: Seq<char>) -> bool {
    e matches McError::Config(s) && s@ == m
}

proof fn lemma_first_duplicate_is(ids: Seq<Seq<char>>, k: int)
    requires
        0 <= k < ids.len(),
        repeats_earlier(ids, k),
        forall|m: int| 0 <= m < k ==> !#[trigger] repeats_earlier(ids, m),
    ensures
        first_duplicate_s(ids) == Some(k),
{
    let w = choose|w: int|
        0 <= w < ids.len() && #[trigger] repeats_earlier(ids, w) && forall|m: int|
            0 <= m < w ==> !#[trigger] repeats_earlier(ids, m);
    assert(0 <= w < ids.len() && repeats_earlier(ids, w) && forall|m: int|
        0 <= m < w ==> !#[trigger] repeats_earlier(ids, m));
    if w < k {
        assert(!repeats_earlier(ids, w));
    }
    if w > k {
        assert(!repeats_earlier(ids, k));
    }
}

/// Check that the provider IDs are unique: the first provider that repeats
/// an earlier ID is refused with `Duplicate provider ID: {id}`.
pub fn check_provider_ids(configs: &Vec<ProviderConfig>) -> (r: Result<(), McError>)
    ensures
        match first_duplicate_s(provider_ids(configs@)) {
            None => r is Ok,
            Some(k) => r matches Err(e) && is_config_error(e, "Duplicate provider ID: "@ + configs@[k].id@),
        },
{
    let ghost ids = provider_ids(configs@);
    let mut k: usize = 0;
    while k < configs.len()
        invariant
            k <= configs@.len(),
            ids == provider_ids(configs@),
            forall|m: int| 0 <= m < k ==> !#[trigger] repeats_earlier(ids, m),
        decreases configs.len() - k,
    {
        let mut j: usize = 0;
        while j < k
            invariant
                j <= k < configs@.len(),
                ids == provider_ids(configs@),
                forall|x: int| 0 <= x < j ==> ids[x] != ids[k as int],
                forall|m: int| 0 <= m < k ==> !#[trigger] repeats_earlier(ids, m),
            decreases k - j,
        {
            assert(ids[j as int] == configs@[j as int].id@ && ids[k as int] == configs@[k as int].id@);
            if str_eq(configs[j].id.as_str(), configs[k].id.as_str()) {
                proof {
                    assert(ids[j as int] == ids[k as int]);
                    assert(repeats_earlier(ids, k as int));
                    lemma_first_duplicate_is(ids, k as int);
                }
                let mut v: Vec<char> = Vec::new();
                extend_chars(&mut v, "Duplicate provider ID: ");
                extend_chars(&mut v, configs[k].id.as_str());
                return Err(McError::Config(string_of(v.as_slice())));
            }
            j = j + 1;
        }
        assert(!repeats_earlier(ids, k as int)) by {
            if repeats_earlier(ids, k as int) {
                let x = choose|x: int| 0 <= x < k && ids[x] == ids[k as int];
                assert(ids[x] != ids[k as int]);
            }
        }
        k = k + 1;
    }
    Ok(())
}

/// The index of the provider with ID `id`: `Provider not found: {id}` when
/// there is none.
pub fn provider_index(configs: &Vec<ProviderConfig>, id: &str) -> (r: Result<usize, McError>)
    ensures
        match r {
            Ok(k) => k < configs@.len() && configs@[k as int].id@ == id@,
            Err(e) => is_config_error(e, "Provider not found: "@ + id@) && forall|k: int|
                0 <= k < configs@.len() ==> configs@[k].id@ != id@,
        },
{
    let mut k: usize = 0;
    while k < configs.len()
        invariant
            k <= configs@.len(),
            forall|x: int| 0 <= x < k ==> configs@[x].id@ != id@,
        decreases configs.len() - k,
    {
        if str_eq(configs[k].id.as_str(), id) {
            return Ok(k);
        }
        k = k + 1;
    }
    let mut v: Vec<char> = Vec::new();
    extend_chars(&mut v, "Provider not found: ");
    extend_chars(&mut v, id);
    Err(McError::Config(string_of(v.as_slice())))
}

/// A provider that lists `model` among its models: `No provider found for
/// model: {model}` when none does.
pub fn provider_for_model(configs: &Vec<ProviderConfig>, model: &str) -> (r: Result<usize, McError>)
    ensures
        match r {
            Ok(k) => k < configs@.len() && exists|m: int|
                0 <= m < configs@[k as int].models@.len() && configs@[k as int].models@[m]@ == model@,
            Err(e) => is_config_error(e, "No provider found for model: "@ + model@) && forall|k: int, m: int|
                0 <= k < configs@.len() && 0 <= m < configs@[k].models@.len() ==> configs@[k].models@[m]@ != model@,
        },
{
    let mut k: usize = 0;
    while k < configs.len()
        invariant
            k <= configs@.len(),
            forall|x: int, m: int|
                0 <= x < k && 0 <= m < configs@[x].models@.len() ==> configs@[x].models@[m]@ != model@,
        decreases configs.len() - k,
    {
        let models = &configs[k].models;
        let mut m: usize = 0;
        while m < models.len()
            invariant
                k < configs@.len(),
                *models == configs@[k as int].models,
                m <= models@.len(),
                forall|y: int| 0 <= y < m ==> models@[y]@ != model@,
            decreases models.len() - m,
        {
            if str_eq(models[m].as_str(), model) {
                return Ok(k);
            }
            m = m + 1;
        }
        k = k + 1;
    }
    let mut v: Vec<char> = Vec::new();
    extend_chars(&mut v, "No provider found for model: ");
    extend_chars(&mut v, model);
    Err(McError::Config(string_of(v.as_slice())))
}

} // verus!
