//! Bringing media in from the interface layer: a recording arrives as a
//! data URL whose payload is decoded before it is written out, and the
//! transcription service's key is picked from the places it may be stored.

use vstd::prelude::*;
use crate::text::{find_sub, lemma_find_sub, split_on, split_str};

verus! {

/// What the standard-alphabet decoder yields for a text: the decoded bytes,
/// or nothing when the text is not valid standard-alphabet input. The
/// result depends on the input characters alone.
pub uninterp spec fn base64_standard_decode(s: Seq<char>) -> Option<Seq<u8>>;

/// Relies on base64's `Engine::decode` with the standard engine: a pure
/// decoder from text to bytes, failing exactly on input the standard
/// alphabet and padding rules reject.
#[verifier::external_body]
fn decode_base64_standard(s: &str) -> (r: Option<Vec<u8>>)
    ensures
        match r {
            Some(v) => base64_standard_decode(s@) == Some(v@),
            None => base64_standard_decode(s@) is None,
        },
{
    match base64::Engine::decode(&base64::engine::general_purpose::STANDARD, s) {
        Ok(v) => Some(v),
        Err(_) => None,
    }
}

/// Whether `s` starts with the prefix `pre`.
pub open spec fn starts_with(s: Seq<char>, pre: Seq<char>) -> bool {
    s.len() >= pre.len() && s.subrange(0, pre.len() as int) == pre
}

/// Exec test for [`starts_with`].
fn str_starts_with(s: &str, pre: &str) -> (r: bool)
    ensures
        r == starts_with(s@, pre@),
{
    let n = s.unicode_len();
    let m = pre.unicode_len();
    if n < m {
        return false;
    }
    let head = s.substring_char(0, m);
    crate::text::str_eq(head, pre)
}

/// The base64 payload of a data URL: the piece between its first and
/// second comma, or after the first comma when there is no second.
pub open spec fn data_url_payload(s: Seq<char>) -> Option<Seq<char>> {
    let ps = split_on(s, seq![',']);
    if ps.len() >= 2 {
        Some(ps[1])
    } else {
        None
    }
}

/// Decodes the payload of a data URL. Fails exactly when the text does not
/// carry the data scheme, has no comma-separated payload, or the payload is
/// not valid standard-alphabet input; otherwise the decoded bytes.
pub fn decode_data_url(data_url: &str) -> (r: Result<Vec<u8>, String>)
    ensures
        (r is Ok) == (starts_with(data_url@, "data:"@) && data_url_payload(data_url@) is Some
            && base64_standard_decode(data_url_payload(data_url@).unwrap()) is Some),
        r is Ok ==> Some(r->Ok_0@) == base64_standard_decode(
            data_url_payload(data_url@).unwrap(),
        ),
        !starts_with(data_url@, "data:"@) ==> r is Err && r->Err_0@ == "Not a valid data URL"@,
        starts_with(data_url@, "data:"@) && data_url_payload(data_url@) is None ==> r is Err
            && r->Err_0@ == "Invalid data URL format"@,
{
    proof {
        reveal_strlit("data:");
        reveal_strlit(",");
        assert(","@ =~= seq![',']);
    }
    if !str_starts_with(data_url, "data:") {
        return Err(String::from_str("Not a valid data URL"));
    }
    let parts = split_str(data_url, ",");
    if parts.len() < 2 {
        return Err(String::from_str("Invalid data URL format"));
    }
    proof {
        assert(parts@.map_values(|x: String| x@)[1] == parts@[1]@);
    }
    match decode_base64_standard(parts[1].as_str()) {
        Some(bytes) => Ok(bytes),
        None => Err(String::from_str("Failed to decode base64 data")),
    }
}

/// Where the transcription service's key comes from, in priority order: a
/// nonempty key handed in by the caller, the system credential store, the
/// development environment; none of them is an error.
pub open spec fn api_key_choice(param: Option<Seq<char>>, stored: Option<Seq<char>>, env: Option<
    Seq<char>,
>) -> Option<Seq<char>> {
    if param is Some && param.unwrap().len() > 0 {
        param
    } else if stored is Some {
        stored
    } else if env is Some {
        env
    } else {
        None
    }
}

/// Picks the transcription service's key from what the surroundings found:
/// an explicit parameter wins, then the credential store, then the
/// development environment; with none of them the caller is told to set a
/// key.
pub fn select_api_key(param: Option<String>, stored: Option<String>, env: Option<String>) -> (r:
    Result<String, String>)
    ensures
        ({
            let choice = api_key_choice(
                match param {
                    Some(ref p) => Some(p@),
                    None => None,
                },
                match stored {
                    Some(ref s) => Some(s@),
                    None => None,
                },
                match env {
                    Some(ref e) => Some(e@),
                    None => None,
                },
            );
            match choice {
                Some(k) => r is Ok && r->Ok_0@ == k,
                None => r is Err,
            }
        }),
{
    match param {
        Some(p) => {
            if p.as_str().unicode_len() > 0 {
                return Ok(p);
            }
            match stored {
                Some(s) => Ok(s),
                None => match env {
                    Some(e) => Ok(e),
                    None => Err(
                        String::from_str(
                            "OpenAI API key not found. Please set your API key in Settings.",
                        ),
                    ),
                },
            }
        },
        None => match stored {
            Some(s) => Ok(s),
            None => match env {
                Some(e) => Ok(e),
                None => Err(
                    String::from_str(
                        "OpenAI API key not found. Please set your API key in Settings.",
                    ),
                ),
            },
        },
    }
}

} // verus!
