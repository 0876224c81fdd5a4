//! Code submissions: the payload of a code job.

use base64::Engine as _;
use vstd::prelude::*;

use crate::error::{Error, ErrorView};
use crate::text::{concat_text, concat_three, same_text};

verus! {

/// The bytes that a base64 text writes in the standard alphabet with padding,
/// or the message with which the `base64` crate refuses it.
pub uninterp spec fn base64_bytes(text: Seq<char>) -> Result<Seq<u8>, Seq<char>>;

/// `base64::engine::general_purpose::STANDARD.decode`.
#[verifier::external_body]
fn decode_base64(text: &str) -> (r: Result<Vec<u8>, String>)
    ensures
        match r {
            Ok(bytes) => base64_bytes(text@) == Ok::<Seq<u8>, Seq<char>>(bytes@),
            Err(message) => base64_bytes(text@) == Err::<Seq<u8>, Seq<char>>(message@),
        },
{
    base64::engine::general_purpose::STANDARD.decode(text).map_err(|e| e.to_string())
}

/// The component bytes of a code submission, given what its text decodes to.
/// The only language is `wasm-component`, which is also the default.
pub open spec fn submitted_bytes(
    lang: Option<Seq<char>>,
    decoded: Result<Seq<u8>, Seq<char>>,
) -> Result<Seq<u8>, ErrorView> {
    if lang matches Some(name) && name != "wasm-component"@ {
        Err(
            ErrorView::InvalidCodePayload {
                reason: "unsupported language `"@ + lang->Some_0 + "`"@,
            },
        )
    } else {
        match decoded {
            Ok(bytes) => Ok(bytes),
            Err(message) => Err(
                ErrorView::InvalidCodePayload { reason: "invalid base64: "@ + message },
            ),
        }
    }
}

/// The language of a submission, by its text.
pub open spec fn lang_text(lang: Option<String>) -> Option<Seq<char>> {
    match lang {
        Some(name) => Some(name@),
        None => None,
    }
}

/// The component bytes of a code submission, given what its text decodes to.
pub fn accept_code(lang: &Option<String>, decoded: Result<Vec<u8>, String>) -> (r: Result<
    Vec<u8>,
    Error,
>)
    ensures
        ({
            let given: Result<Seq<u8>, Seq<char>> = match decoded {
                Ok(bytes) => Ok(bytes@),
                Err(message) => Err(message@),
            };
            match r {
                Ok(bytes) => submitted_bytes(lang_text(*lang), given) == Ok::<
                    Seq<u8>,
                    ErrorView,
                >(bytes@),
                Err(e) => submitted_bytes(lang_text(*lang), given) == Err::<Seq<u8>, ErrorView>(
                    e@,
                ),
            }
        }),
{
    if let Some(name) = lang {
        if !same_text(name.as_str(), "wasm-component") {
            return Err(
                Error::InvalidCodePayload {
                    reason: concat_three("unsupported language `", name.as_str(), "`"),
                },
            );
        }
    }
    match decoded {
        Ok(bytes) => Ok(bytes),
        Err(message) => Err(
            Error::InvalidCodePayload {
                reason: concat_text("invalid base64: ", message.as_str()),
            },
        ),
    }
}

/// Decode a code submission.
pub fn decode_code_payload(code: &str, lang: &Option<String>) -> (r: Result<Vec<u8>, Error>)
    ensures
        match r {
            Ok(bytes) => submitted_bytes(lang_text(*lang), base64_bytes(code@)) == Ok::<
                Seq<u8>,
                ErrorView,
            >(bytes@),
            Err(e) => submitted_bytes(lang_text(*lang), base64_bytes(code@)) == Err::<
                Seq<u8>,
                ErrorView,
            >(e@),
        },
{
    accept_code(lang, decode_base64(code))
}

/// A submission is run exactly as it decodes, and only where its language is the
/// one that there is, by name or by default.
pub proof fn code_is_accepted_as_it_decodes(
    lang: Option<Seq<char>>,
    decoded: Result<Seq<u8>, Seq<char>>,
    bytes: Seq<u8>,
)
    ensures
        submitted_bytes(lang, decoded) == Ok::<Seq<u8>, ErrorView>(bytes) <==> decoded == Ok::<
            Seq<u8>,
            Seq<char>,
        >(bytes) && (lang is None || lang == Some("wasm-component"@)),
        submitted_bytes(lang, decoded) matches Err(e) ==> e is InvalidCodePayload,
{
}

} // verus!
