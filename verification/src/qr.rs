//! Small option-holder types: a (version, value) pair and a wrapper
//! around it with a short textual form.

use vstd::prelude::*;
use vstd::string::StrSliceExecFns;

verus! {

pub struct QrOptions {
    version: u8,
    value: String,
}

impl QrOptions {
    pub closed spec fn spec_version(&self) -> u8 {
        self.version
    }

    pub closed spec fn spec_value(&self) -> Seq<char> {
        self.value@
    }

    pub fn new(version: u8, value: String) -> (r: Self)
        ensures
            r.spec_version() == version,
            r.spec_value() == value@,
    {
        QrOptions { version, value }
    }

    pub fn get_version(&self) -> (r: u8)
        ensures
            r == self.spec_version(),
    {
        self.version
    }

    pub fn get_value(&self) -> (r: &String)
        ensures
            r@ == self.spec_value(),
    {
        &self.value
    }
}

pub struct QrBold {
    pub options: QrOptions,
}

impl QrBold {
    pub fn new(options: QrOptions) -> (r: Self)
        ensures
            r.options == options,
    {
        QrBold { options }
    }

    pub fn get_options(&self) -> (r: &QrOptions)
        ensures
            *r == self.options,
    {
        &self.options
    }

    /// A short textual form: the fixed prefix followed by the value.
    pub fn encode(&self) -> (r: String)
        ensures
            r@ == "QR Code: "@ + self.options.spec_value(),
    {
        let mut result = String::new();
        result.append("QR Code: ");
        result.append(self.options.value.as_str());
        proof {
            assert(result@ =~= "QR Code: "@ + self.options.spec_value());
        }
        result
    }
}

} // verus!
