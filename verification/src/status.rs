//! The status query command's output shaping.

use vstd::prelude::*;
use vstd::string::StringExecFns;

use crate::api::Error;

verus! {

/// The status line as printed: bare, or wrapped in a small json object,
/// with a failure rendered the same way.
pub fn format_status(status: Result<String, Error>, use_json: bool) -> (r: String)
    ensures
        status matches Ok(msg) ==> (if use_json {
            r@ == "{\"msg\": \""@ + msg@ + "\"}"@
        } else {
            r@ == msg@
        }),
        status matches Err(e) ==> (if use_json {
            r@ == "{\"msg\": \""@ + e.text() + "\"}"@
        } else {
            r@ == e.text()
        }),
{
    match status {
        Ok(msg) => {
            if use_json {
                let mut s = "{\"msg\": \"".to_owned();
                s.append(msg.as_str());
                s.append("\"}");
                s
            } else {
                msg
            }
        },
        Err(e) => {
            let text = e.msg_string();
            if use_json {
                let mut s = "{\"msg\": \"".to_owned();
                s.append(text.as_str());
                s.append("\"}");
                s
            } else {
                text
            }
        },
    }
}

} // verus!
