//! The request router: parses a request line against a minimal grammar
//! (`METHOD SP /target SP HTTP/1.1`), extracts the resource name, and decides
//! whether it is a whitelisted static asset, a page request, or malformed.

use crate::text::find_char;
use vstd::prelude::*;

verus! {

/// Where a request line is dispatched.
pub enum RouteDecision {
    /// The resource names a whitelisted static file, streamed raw.
    Asset(String),
    /// The resource is a page key, composed into a document.
    Page(String),
    /// The line does not fit the request-line grammar; nothing is dispatched.
    Malformed,
}

/// The resource named by a request line, when the line fits the minimal
/// grammar `METHOD SP /target SP HTTP/1.1`: the target after its leading
/// slash, cut at the next slash if any.
pub open spec fn parsed_resource(line: Seq<char>) -> Option<Seq<char>> {
    let i = find_char(line, ' ');
    if i == -1 {
        None
    } else {
        let rest = line.subrange(i + 1, line.len() as int);
        let j = find_char(rest, ' ');
        if j == -1 {
            None
        } else {
            let target = rest.subrange(0, j);
            let version = rest.subrange(j + 1, rest.len() as int);
            if version == "HTTP/1.1"@ && target.len() >= 1 && target[0] == '/' {
                let path = target.subrange(1, target.len() as int);
                let k = find_char(path, '/');
                if k == -1 {
                    Some(path)
                } else {
                    Some(path.subrange(0, k))
                }
            } else {
                None
            }
        }
    }
}

/// Whether some whitelist entry reads `name`.
pub open spec fn in_whitelist(whitelist: Seq<String>, name: Seq<char>) -> bool {
    exists|i: int| 0 <= i < whitelist.len() && #[trigger] whitelist[i]@ == name
}

fn whitelist_contains(whitelist: &Vec<String>, name: &String) -> (r: bool)
    ensures
        r == in_whitelist(whitelist@, name@),
{
    let n = whitelist.len();
    let mut i: usize = 0;
    while i < n
        invariant
            n == whitelist@.len(),
            i <= n,
            forall|j: int| 0 <= j < i ==> #[trigger] whitelist@[j]@ != name@,
        decreases n - i,
    {
        let entry = &whitelist[i];
        if *entry == *name {
            return true;
        }
        i = i + 1;
    }
    false
}

/// Parses a request line and routes its resource: to the static asset
/// encoder exactly when the name stands in the whitelist, to the page
/// composer otherwise; a line outside the grammar is dispatched nowhere.
pub fn route(request_line: &str, whitelist: &Vec<String>) -> (r: RouteDecision)
    ensures
        match r {
            RouteDecision::Asset(name) => parsed_resource(request_line@) == Some(name@)
                && in_whitelist(whitelist@, name@),
            RouteDecision::Page(key) => parsed_resource(request_line@) == Some(key@)
                && !in_whitelist(whitelist@, key@),
            RouteDecision::Malformed => parsed_resource(request_line@) is None,
        },
{
    let n = request_line.unicode_len();
    let first_space = match crate::text::find_char_in_str(request_line, ' ') {
        Some(i) => i,
        None => {
            return RouteDecision::Malformed;
        },
    };
    proof {
        crate::text::lemma_find_char_spec(request_line@, ' ');
    }
    let rest = request_line.substring_char(first_space + 1, n);
    let second_space = match crate::text::find_char_in_str(rest, ' ') {
        Some(j) => j,
        None => {
            return RouteDecision::Malformed;
        },
    };
    proof {
        crate::text::lemma_find_char_spec(rest@, ' ');
    }
    let rest_len = rest.unicode_len();
    let target = rest.substring_char(0, second_space);
    let version = rest.substring_char(second_space + 1, rest_len);
    let version_owned: String = version.to_owned();
    let expected: String = String::from_str("HTTP/1.1");
    if !(version_owned == expected) {
        return RouteDecision::Malformed;
    }
    let target_len = target.unicode_len();
    if target_len == 0 || target.get_char(0) != '/' {
        return RouteDecision::Malformed;
    }
    let path = target.substring_char(1, target_len);
    let name = match crate::text::find_char_in_str(path, '/') {
        Some(k) => {
            proof {
                crate::text::lemma_find_char_spec(path@, '/');
            }
            path.substring_char(0, k)
        },
        None => path,
    };
    let name_owned: String = name.to_owned();
    proof {
        assert(parsed_resource(request_line@) == Some(name_owned@));
    }
    if whitelist_contains(whitelist, &name_owned) {
        RouteDecision::Asset(name_owned)
    } else {
        RouteDecision::Page(name_owned)
    }
}

} // verus!
