//! The typed rejection of a request.
use vstd::prelude::*;

verus! {

/// Request-side rejection / validation error.
#[derive(Debug, PartialEq, Eq)]
pub struct BridgeError {
    pub code: &'static str,
    pub message: String,
}

/// The view of a [`BridgeError`].
#[verifier::ext_equal]
pub struct BridgeErrorV {
    pub code: Seq<char>,
    pub message: Seq<char>,
}

impl View for BridgeError {
    type V = BridgeErrorV;

    open spec fn view(&self) -> BridgeErrorV {
        BridgeErrorV { code: self.code@, message: self.message@ }
    }
}

/// The error with the given code and message.
pub open spec fn bridge_error(code: Seq<char>, message: Seq<char>) -> BridgeErrorV {
    BridgeErrorV { code, message }
}

impl Clone for BridgeError {
    fn clone(&self) -> (r: Self)
        ensures
            r@ == self@,
    {
        BridgeError { code: self.code, message: self.message.clone() }
    }
}

impl BridgeError {
    pub(crate) fn new(code: &'static str, message: &str) -> (r: Self)
        ensures
            r@ == bridge_error(code@, message@),
    {
        BridgeError { code, message: message.to_owned() }
    }
}

}
