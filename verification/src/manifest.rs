use vstd::prelude::*;
use crate::json::{JsonDoc, json_of, parse_json, obj_get, spec_obj_get};
use crate::PullError;

verus! {

/// The digest of one layer entry: the string under "blobSum".
pub open spec fn spec_digest_of_layer(d: JsonDoc) -> Option<Seq<char>> {
    match d {
        JsonDoc::Obj(es) => match spec_obj_get(es@, "blobSum"@) {
            Some(JsonDoc::Str(s)) => Some(s@),
            _ => None,
        },
        _ => None,
    }
}

/// The digests of a layer list, in list order; None as soon as one entry is
/// malformed.
pub open spec fn spec_digests_of(layers: Seq<JsonDoc>) -> Option<Seq<Seq<char>>>
    decreases layers.len(),
{
    if layers.len() == 0 {
        Some(Seq::empty())
    } else {
        match (spec_digests_of(layers.drop_last()), spec_digest_of_layer(layers.last())) {
            (Some(pre), Some(d)) => Some(pre.push(d)),
            _ => None,
        }
    }
}

/// The ordered layer digests of a manifest document: the "fsLayers" array,
/// each entry's "blobSum".
pub open spec fn spec_manifest_layers(doc: JsonDoc) -> Option<Seq<Seq<char>>> {
    match doc {
        JsonDoc::Obj(es) => match spec_obj_get(es@, "fsLayers"@) {
            Some(JsonDoc::Arr(ls)) => spec_digests_of(ls@),
            _ => None,
        },
        _ => None,
    }
}

/// The ordered layer digests of a manifest body.
pub open spec fn spec_layers_of_body(body: Seq<char>) -> Option<Seq<Seq<char>>> {
    match json_of(body) {
        None => None,
        Some(d) => spec_manifest_layers(d),
    }
}

/// The bearer token of a token-endpoint response body: the string under
/// "token".
pub open spec fn spec_token_of_body(body: Seq<char>) -> Option<Seq<char>> {
    match json_of(body) {
        Some(JsonDoc::Obj(es)) => match spec_obj_get(es@, "token"@) {
            Some(JsonDoc::Str(s)) => Some(s@),
            _ => None,
        },
        _ => None,
    }
}

/// A malformed entry anywhere in a layer list spoils the whole list.
proof fn lemma_digests_none(layers: Seq<JsonDoc>, i: int)
    requires
        0 <= i < layers.len(),
        spec_digest_of_layer(layers[i]) is None,
    ensures
        spec_digests_of(layers) is None,
    decreases layers.len(),
{
    if i < layers.len() - 1 {
        assert(layers.drop_last()[i] == layers[i]);
        lemma_digests_none(layers.drop_last(), i);
    }
}

/// Parses a manifest body and extracts the ordered layer digests.
pub fn layers_from_body(body: &str) -> (r: Result<Vec<String>, PullError>)
    ensures
        match r {
            Ok(v) => {
                &&& spec_layers_of_body(body@) matches Some(ds)
                &&& v@.len() == spec_layers_of_body(body@)->Some_0.len()
                &&& forall|k: int|
                    0 <= k < v@.len() ==> v@[k]@ == spec_layers_of_body(body@)->Some_0[k]
            },
            Err(e) => spec_layers_of_body(body@) is None && e == PullError::ManifestParse,
        },
{
    let doc = match parse_json(body) {
        Err(_) => {
            return Err(PullError::ManifestParse);
        },
        Ok(d) => d,
    };
    let entries = match &doc {
        JsonDoc::Obj(es) => es,
        _ => {
            return Err(PullError::ManifestParse);
        },
    };
    let layers = match obj_get(entries, "fsLayers") {
        Some(JsonDoc::Arr(ls)) => ls,
        _ => {
            return Err(PullError::ManifestParse);
        },
    };
    proof {
        assert(spec_layers_of_body(body@) == spec_digests_of(layers@));
    }
    let ghost ds = spec_layers_of_body(body@)->Some_0;
    let mut out: Vec<String> = Vec::new();
    let mut i: usize = 0;
    while i < layers.len()
        invariant
            0 <= i <= layers@.len(),
            spec_layers_of_body(body@) == spec_digests_of(layers@),
            spec_digests_of(layers@.take(i as int)) matches Some(pre),
            out@.len() == spec_digests_of(layers@.take(i as int))->Some_0.len(),
            forall|k: int|
                0 <= k < out@.len() ==> out@[k]@ == spec_digests_of(
                    layers@.take(i as int),
                )->Some_0[k],
        decreases layers@.len() - i,
    {
        proof {
            assert(layers@.take(i + 1).drop_last() =~= layers@.take(i as int));
            assert(layers@.take(i + 1).last() == layers@[i as int]);
        }
        let les = match &layers[i] {
            JsonDoc::Obj(les) => les,
            _ => {
                proof {
                    lemma_digests_none(layers@, i as int);
                }
                return Err(PullError::ManifestParse);
            },
        };
        match obj_get(les, "blobSum") {
            Some(JsonDoc::Str(s)) => {
                out.push(s.clone());
            },
            _ => {
                proof {
                    lemma_digests_none(layers@, i as int);
                }
                return Err(PullError::ManifestParse);
            },
        }
        i = i + 1;
    }
    proof {
        assert(layers@.take(layers@.len() as int) =~= layers@);
    }
    Ok(out)
}

/// Parses a token-endpoint response body and extracts the bearer token.
pub fn token_from_body(body: &str) -> (r: Result<String, PullError>)
    ensures
        match r {
            Ok(t) => spec_token_of_body(body@) == Some(t@),
            Err(e) => spec_token_of_body(body@) is None && e == PullError::AuthChallenge,
        },
{
    let doc = match parse_json(body) {
        Err(_) => {
            return Err(PullError::AuthChallenge);
        },
        Ok(d) => d,
    };
    let entries = match &doc {
        JsonDoc::Obj(es) => es,
        _ => {
            return Err(PullError::AuthChallenge);
        },
    };
    match obj_get(entries, "token") {
        Some(JsonDoc::Str(s)) => Ok(s.clone()),
        _ => Err(PullError::AuthChallenge),
    }
}

} // verus!
