//! Which origins may read the answers from a browser.

use http::HeaderValue;
use vstd::prelude::*;
use vstd::string::*;

use crate::text;
use crate::text::views;

verus! {

/// Seconds for which a browser may keep what it was told of origins.
pub const CORS_MAX_AGE_SECS: u64 = 86_400;

/// A text can stand in a header: it has no control character but the tab.
pub open spec fn is_header_text(s: Seq<char>) -> bool {
    forall|i: int|
        0 <= i < s.len() ==> (#[trigger] s[i] as u32 >= 32 && s[i] as u32 != 127) || s[i] == '\t'
}

/// `http::HeaderValue::from_str`: succeeds if and only if the text has no control character but
/// the tab.
#[verifier::external_body]
fn can_be_header(s: &str) -> (r: bool)
    ensures
        r == is_header_text(s@),
{
    HeaderValue::from_str(s).is_ok()
}

/// The origins that are allowed.
#[derive(Debug)]
pub enum AllowedOrigins {
    /// Every origin.
    Any,
    /// These origins.
    List(Vec<String>),
}

/// The origins that can stand in a header, in order.
pub open spec fn usable(origins: Seq<Seq<char>>) -> Seq<Seq<char>>
    decreases origins.len(),
{
    if origins.len() == 0 {
        Seq::empty()
    } else if is_header_text(origins.last()) {
        usable(origins.drop_last()).push(origins.last())
    } else {
        usable(origins.drop_last())
    }
}

/// The origins that a configuration allows: all of them where it names `*`, or names none that
/// can stand in a header; else those that can.
pub fn allowed_origins(configured: &Vec<String>) -> (r: AllowedOrigins)
    ensures
        r is Any <==> views(configured@).contains("*"@) || usable(views(configured@)).len() == 0,
        r matches AllowedOrigins::List(l) ==> views(l@) == usable(views(configured@)),
{
    let mut list: Vec<String> = Vec::new();
    let mut any = false;
    let mut i: usize = 0;
    let ghost all = views(configured@);
    proof {
        assert(all.subrange(0, 0) =~= Seq::empty());
        assert(views(list@) =~= Seq::empty());
    }
    while i < configured.len()
        invariant
            i <= configured@.len(),
            all == views(configured@),
            any <==> exists|j: int| 0 <= j < i && #[trigger] all[j] == "*"@,
            views(list@) == usable(all.subrange(0, i as int)),
        decreases configured@.len() - i,
    {
        let origin = &configured[i];
        assert(all[i as int] == origin@);
        proof {
            assert(all.subrange(0, i + 1).drop_last() =~= all.subrange(0, i as int));
            assert(all.subrange(0, i + 1).last() == origin@);
        }
        if text::same(origin, "*") {
            any = true;
        }
        let ghost before = views(list@);
        if can_be_header(origin) {
            list.push(origin.clone());
            assert(views(list@) =~= before.push(origin@));
        }
        i = i + 1;
    }
    assert(all.subrange(0, i as int) =~= all);
    assert(views(list@).len() == list@.len());
    if any || list.len() == 0 {
        AllowedOrigins::Any
    } else {
        AllowedOrigins::List(list)
    }
}

} // verus!
