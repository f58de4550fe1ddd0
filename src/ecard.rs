use vstd::prelude::*;

use crate::error::{ErrorType, SDKError};
use crate::html::{attr_values, opt_view, opts_view, select_attr, selector_ok};

verus! {

pub const ECARD_QR_CODE_URL: &'static str = "https://ecard.fudan.edu.cn/epay/wxpage/fudan/zfm/qrcode";

/// The element of the payment page that holds the QR code text.
pub const QR_CODE_ELEMENT: &'static str = "#myText";

/// The QR code text on the payment page: the `value` of its first `#myText`
/// element; a page without one is a parse error.
pub fn qr_code_of(html: &str) -> (r: Result<String, SDKError>)
    ensures
        r matches Ok(s) ==> selector_ok(QR_CODE_ELEMENT@) && attr_values(html@, QR_CODE_ELEMENT@, "value"@).len() > 0
            && attr_values(html@, QR_CODE_ELEMENT@, "value"@)[0] == Some(s@),
        selector_ok(QR_CODE_ELEMENT@) && attr_values(html@, QR_CODE_ELEMENT@, "value"@).len() > 0
            && attr_values(html@, QR_CODE_ELEMENT@, "value"@)[0] is Some ==> r is Ok,
        r matches Err(e) ==> e.kind == ErrorType::ParseError,
{
    match select_attr(html, QR_CODE_ELEMENT, "value") {
        Some(v) => {
            if v.len() > 0 {
                assert(opts_view(v@)[0] == opt_view(v@[0]));
                match &v[0] {
                    Some(s) => return Ok(s.clone()),
                    None => {},
                }
            }
            Err(SDKError::with_type(ErrorType::ParseError, String::from_str("no QR code on page")))
        },
        None => Err(SDKError::with_type(ErrorType::ParseError, String::from_str("no QR code on page"))),
    }
}

} // verus!
