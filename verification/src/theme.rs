//! The product palette: colours for HTTP methods and status codes, which
//! the widget theme has no role for. Raw colour values live only here.
use vstd::prelude::*;

use crate::model::Method;

verus! {

/// Colours as `0xRRGGBB`. Method colours keep at least 4.8:1 contrast on
/// every background of their theme; status colours are a step darker, as
/// they sit inside a tag with an outline of the same colour.
#[derive(Debug, Clone, Copy, PartialEq, Eq, Structural)]
pub struct Palette {
    pub method_get: u32,
    pub method_post: u32,
    pub method_put: u32,
    pub method_patch: u32,
    pub method_delete: u32,
    pub method_other: u32,
    pub status_2xx: u32,
    pub status_3xx: u32,
    pub status_4xx: u32,
    pub status_5xx: u32,
}

impl Palette {
    /// The light theme's palette.
    pub open spec fn spec_light() -> Palette {
        Palette {
            method_get: 0x007762,
            method_post: 0x925d0c,
            method_put: 0x226ea2,
            method_patch: 0x6d5ea6,
            method_delete: 0xb74131,
            method_other: 0x5e6a77,
            status_2xx: 0x007460,
            status_3xx: 0x67599f,
            status_4xx: 0x8a5600,
            status_5xx: 0xaf3829,
        }
    }

    /// The dark theme's palette.
    pub open spec fn spec_dark() -> Palette {
        Palette {
            method_get: 0x4bb39a,
            method_post: 0xd7a042,
            method_put: 0x6fa8d4,
            method_patch: 0xa596d8,
            method_delete: 0xe77968,
            method_other: 0x8f9aa3,
            status_2xx: 0x6ccbb2,
            status_3xx: 0xb5a8e0,
            status_4xx: 0xe0ad50,
            status_5xx: 0xe58474,
        }
    }

    pub fn light() -> (p: Palette)
        ensures
            p == Self::spec_light(),
    {
        Palette {
            method_get: 0x007762,
            method_post: 0x925d0c,
            method_put: 0x226ea2,
            method_patch: 0x6d5ea6,
            method_delete: 0xb74131,
            method_other: 0x5e6a77,
            status_2xx: 0x007460,
            status_3xx: 0x67599f,
            status_4xx: 0x8a5600,
            status_5xx: 0xaf3829,
        }
    }

    pub fn dark() -> (p: Palette)
        ensures
            p == Self::spec_dark(),
    {
        Palette {
            method_get: 0x4bb39a,
            method_post: 0xd7a042,
            method_put: 0x6fa8d4,
            method_patch: 0xa596d8,
            method_delete: 0xe77968,
            method_other: 0x8f9aa3,
            status_2xx: 0x6ccbb2,
            status_3xx: 0xb5a8e0,
            status_4xx: 0xe0ad50,
            status_5xx: 0xe58474,
        }
    }

    /// The colour of a method's name; HEAD and OPTIONS share one.
    pub fn method(&self, method: Method) -> (c: u32)
        ensures
            c == (match method {
                Method::Get => self.method_get,
                Method::Post => self.method_post,
                Method::Put => self.method_put,
                Method::Patch => self.method_patch,
                Method::Delete => self.method_delete,
                Method::Head | Method::Options => self.method_other,
            }),
    {
        match method {
            Method::Get => self.method_get,
            Method::Post => self.method_post,
            Method::Put => self.method_put,
            Method::Patch => self.method_patch,
            Method::Delete => self.method_delete,
            Method::Head | Method::Options => self.method_other,
        }
    }

    /// The colour of a status code by its class; codes outside 200–599 get none.
    pub fn status(&self, status: u16) -> (c: Option<u32>)
        ensures
            c == (if 200 <= status <= 299 {
                Some(self.status_2xx)
            } else if 300 <= status <= 399 {
                Some(self.status_3xx)
            } else if 400 <= status <= 499 {
                Some(self.status_4xx)
            } else if 500 <= status <= 599 {
                Some(self.status_5xx)
            } else {
                None
            }),
    {
        if 200 <= status && status <= 299 {
            Some(self.status_2xx)
        } else if 300 <= status && status <= 399 {
            Some(self.status_3xx)
        } else if 400 <= status && status <= 499 {
            Some(self.status_4xx)
        } else if 500 <= status && status <= 599 {
            Some(self.status_5xx)
        } else {
            None
        }
    }
}

/// The palette of the current appearance.
pub fn palette(dark: bool) -> (p: Palette)
    ensures
        p == (if dark {
            Palette::spec_dark()
        } else {
            Palette::spec_light()
        }),
{
    if dark {
        Palette::dark()
    } else {
        Palette::light()
    }
}

} // verus!
