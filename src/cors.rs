use vstd::prelude::*;

use crate::text::{contains, occurs_in};

verus! {

/// The origin that responses allow: the referring page where it mentions a
/// known origin, else a fixed fallback.
pub struct Cors {
    allowed_origins: Vec<String>,
    fallback_origin: String,
}

/// Whether `referer` mentions one of `origins`.
pub open spec fn mentions_any(origins: Seq<String>, referer: Seq<char>) -> bool {
    exists|i: int| 0 <= i < origins.len() && occurs_in((#[trigger] origins[i])@, referer)
}

impl Cors {
    /// The known origins, the fallback first.
    pub closed spec fn origins(&self) -> Seq<String> {
        self.allowed_origins@
    }

    pub closed spec fn fallback(&self) -> String {
        self.fallback_origin
    }

    pub fn new(allowed_origins: &[String], fallback_origin: String) -> (r: Cors)
        ensures
            r.origins() == seq![fallback_origin].add(allowed_origins@),
            r.fallback() == fallback_origin,
    {
        let mut origins: Vec<String> = Vec::new();
        origins.push(fallback_origin.clone());
        let mut i: usize = 0;
        while i < allowed_origins.len()
            invariant
                i <= allowed_origins@.len(),
                origins@ == seq![fallback_origin].add(allowed_origins@.take(i as int)),
            decreases allowed_origins@.len() - i,
        {
            origins.push(allowed_origins[i].clone());
            i = i + 1;
            assert(origins@ =~= seq![fallback_origin].add(allowed_origins@.take(i as int)));
        }
        assert(allowed_origins@.take(allowed_origins@.len() as int) =~= allowed_origins@);
        Cors { allowed_origins: origins, fallback_origin }
    }

    /// The value of the allow-origin header for a request from `referer`.
    pub fn allowed_origin(&self, referer: &str) -> (r: String)
        ensures
            r@ == if mentions_any(self.origins(), referer@) {
                referer@
            } else {
                self.fallback()@
            },
    {
        let mut i: usize = 0;
        while i < self.allowed_origins.len()
            invariant
                i <= self.allowed_origins@.len(),
                forall|j: int| 0 <= j < i ==> !occurs_in((#[trigger] self.allowed_origins@[j])@, referer@),
            decreases self.allowed_origins@.len() - i,
        {
            if contains(referer, self.allowed_origins[i].as_str()) {
                return String::from_str(referer);
            }
            i = i + 1;
        }
        self.fallback_origin.clone()
    }
}

} // verus!
