//! Building the upstream connection request.
//!
//! One streaming connection is opened per session. The request address
//! embeds the model and formatting options, the target language, and the
//! bearer credential as query parameters; assembling it is pure string
//! work and is verified here, while the handshake itself is the
//! surrounding runtime's job.

use vstd::prelude::*;
use vstd::string::StringExecFns;

verus! {

/// The address of the recognition service's streaming endpoint for one
/// session, with the model and formatting options fixed and the language
/// and credential filled in.
pub fn listen_request_url(language: &str, credential: &str) -> (r: String)
    ensures
        r@ == "wss://api.deepgram.com/v1/listen?model=nova-2&interim_results=true&smart_format=true&punctuate=true&language="@
            + language@ + "&token="@ + credential@,
{
    let mut url = String::from_str(
        "wss://api.deepgram.com/v1/listen?model=nova-2&interim_results=true&smart_format=true&punctuate=true&language=",
    );
    url.append(language);
    url.append("&token=");
    url.append(credential);
    url
}

} // verus!
