//! The pure decision logic of the provider shells: their wire names, and the
//! canned responses of the mock graph-query provider.

use vstd::prelude::*;

verus! {

broadcast use vstd::string::group_string_axioms;

/// The needle occurs in the haystack starting at position `i`.
pub open spec fn contains_at(hay: Seq<char>, needle: Seq<char>, i: int) -> bool {
    0 <= i && i + needle.len() <= hay.len() && hay.subrange(i, i + needle.len()) == needle
}

/// The needle occurs somewhere in the haystack.
pub open spec fn spec_contains(hay: Seq<char>, needle: Seq<char>) -> bool {
    exists|i: int| contains_at(hay, needle, i)
}

fn match_at(hay: &str, needle: &str, i: usize) -> (b: bool)
    requires
        i + needle@.len() <= hay@.len(),
    ensures
        b == contains_at(hay@, needle@, i as int),
{
    let hn = hay.unicode_len();
    let nn = needle.unicode_len();
    let mut j: usize = 0;
    while j < nn
        invariant
            hn == hay@.len(),
            nn == needle@.len(),
            i + nn <= hn,
            j <= nn,
            forall|k: int| 0 <= k < j ==> hay@[i + k] == needle@[k],
        decreases nn - j,
    {
        let hc = hay.get_char(i + j);
        let nc = needle.get_char(j);
        if hc != nc {
            proof {
                assert(hay@.subrange(i as int, i + nn as int)[j as int] == hay@[i + j]);
            }
            return false;
        }
        j = j + 1;
    }
    proof {
        assert(hay@.subrange(i as int, i + nn as int) =~= needle@);
    }
    true
}

/// Whether the needle occurs anywhere in the haystack.
pub fn str_contains(hay: &str, needle: &str) -> (b: bool)
    ensures
        b == spec_contains(hay@, needle@),
{
    let hn = hay.unicode_len();
    let nn = needle.unicode_len();
    if nn > hn {
        proof {
            assert forall|i: int| !contains_at(hay@, needle@, i) by {}
        }
        return false;
    }
    if nn == 0 {
        proof {
            assert(hay@.subrange(0, 0) =~= needle@);
            assert(contains_at(hay@, needle@, 0));
        }
        return true;
    }
    let mut i: usize = 0;
    while i <= hn - nn
        invariant
            hn == hay@.len(),
            nn == needle@.len(),
            1 <= nn <= hn,
            i <= hn - nn + 1,
            forall|j: int| 0 <= j < i ==> !contains_at(hay@, needle@, j),
        decreases hn - nn - i + 1,
    {
        if match_at(hay, needle, i) {
            return true;
        }
        i = i + 1;
    }
    proof {
        assert forall|j: int| !contains_at(hay@, needle@, j) by {
            if 0 <= j && j + nn <= hn {
                assert(j < i);
            }
        }
    }
    false
}

/// The mock graph-query provider: it answers every request from a fixed
/// table, for tests and local runs. The host-runtime shell around it lives
/// outside the library.
#[derive(Default, Clone)]
pub struct GraphqlProvider {}

impl GraphqlProvider {
    /// The provider's wire name.
    pub fn name() -> (r: &'static str)
        ensures
            r@ == "mock-graphql-provider"@,
    {
        "mock-graphql-provider"
    }

    /// The canned response for a request: a create document is answered with
    /// a created-record envelope, an update document with an updated-record
    /// envelope, anything else as a fetch of the one test record.
    pub fn mock_response(query: &str) -> (r: String)
        ensures
            spec_contains(query@, "create"@) ==> r@ == "{\"createtest\":{\"id\":\"1\"}}"@,
            !spec_contains(query@, "create"@) && spec_contains(query@, "update"@) ==> r@
                == "{\"updatetest\":{\"id\":\"test\"}}"@,
            !spec_contains(query@, "create"@) && !spec_contains(query@, "update"@) ==> r@
                == "{\"onetest\":{\"id\":\"test\"}}"@,
    {
        if str_contains(query, "create") {
            String::from_str("{\"createtest\":{\"id\":\"1\"}}")
        } else if str_contains(query, "update") {
            String::from_str("{\"updatetest\":{\"id\":\"test\"}}")
        } else {
            String::from_str("{\"onetest\":{\"id\":\"test\"}}")
        }
    }
}

/// The mail provider's decision-free shell; the delivery itself runs outside
/// the library.
#[derive(Default, Clone)]
pub struct SmtpProvider {}

impl SmtpProvider {
    /// The provider's wire name.
    pub fn name() -> (r: &'static str)
        ensures
            r@ == "smtp-provider"@,
    {
        "smtp-provider"
    }

    /// Whether delivery may use the plain, unencrypted transport: only when
    /// the credentials say so explicitly; an absent flag means an encrypted
    /// relay.
    pub fn use_plain_transport(secure: &Option<bool>) -> (r: bool)
        ensures
            r == (secure matches Some(false)),
    {
        match secure {
            Option::Some(false) => true,
            _ => false,
        }
    }

    /// The content type an attachment download is taken to carry when the
    /// response names none.
    pub fn attachment_content_type(header: Option<String>) -> (r: String)
        ensures
            header matches Some(h) ==> r@ == h@,
            header is None ==> r@ == "application/octet-stream"@,
    {
        match header {
            Option::Some(h) => h,
            Option::None => String::from_str("application/octet-stream"),
        }
    }
}

} // verus!
