use vstd::prelude::*;

verus! {

/// The request methods the router distinguishes; everything beyond GET
/// and POST falls through to the routing miss.
#[derive(Clone, Copy, PartialEq, Eq, Structural, Debug)]
pub enum HttpMethod {
    Get,
    Post,
    Other,
}

/// Where a request is dispatched: to the upload handler, to the static
/// file server (with the path remainder to look up), or to no route at
/// all.
pub enum RouteDecision {
    Upload,
    ServeFile(Vec<String>),
    NoMatch,
}

/// A POST whose path starts with the segment `upload` reaches the upload
/// handler; the rest of the path, if any, is ignored.
pub open spec fn matches_upload_route(method: HttpMethod, path: Seq<Seq<char>>) -> bool {
    method is Post && path.len() >= 1 && path[0] == "upload"@
}

/// A GET whose path starts with the segment `files` reaches the static
/// file server, which looks up the remainder of the path.
pub open spec fn matches_download_route(method: HttpMethod, path: Seq<Seq<char>>) -> bool {
    method is Get && path.len() >= 1 && path[0] == "files"@
}

/// Dispatches a request by method and path segments. The two routes are
/// mutually exclusive (they differ in method); a request that matches
/// neither is a routing miss.
pub fn route_request(method: &HttpMethod, path: &Vec<String>) -> (r: RouteDecision)
    ensures
        matches_upload_route(*method, path.deep_view()) ==> r is Upload,
        matches_download_route(*method, path.deep_view()) ==> (r matches RouteDecision::ServeFile(
            rest,
        ) && rest.deep_view() == path.deep_view().drop_first()),
        !matches_upload_route(*method, path.deep_view()) && !matches_download_route(
            *method,
            path.deep_view(),
        ) ==> r is NoMatch,
{
    proof {
        assert(path.deep_view().len() == path@.len());
    }
    if path.len() == 0 {
        return RouteDecision::NoMatch;
    }
    let first = &path[0];
    proof {
        assert(path.deep_view()[0] == path@[0]@);
    }
    match method {
        HttpMethod::Post => {
            let upload_seg: String = "upload".to_owned();
            if first.eq(&upload_seg) {
                RouteDecision::Upload
            } else {
                RouteDecision::NoMatch
            }
        },
        HttpMethod::Get => {
            let files_seg: String = "files".to_owned();
            if first.eq(&files_seg) {
                let mut rest: Vec<String> = Vec::new();
                let mut i: usize = 1;
                while i < path.len()
                    invariant
                        1 <= i <= path@.len(),
                        rest@.len() == i - 1,
                        forall|k: int| 0 <= k < i - 1 ==> rest@[k]@ == path@[k + 1]@,
                    decreases path@.len() - i,
                {
                    rest.push(path[i].clone());
                    i += 1;
                }
                proof {
                    assert(rest.deep_view() =~= path.deep_view().drop_first());
                }
                RouteDecision::ServeFile(rest)
            } else {
                RouteDecision::NoMatch
            }
        },
        HttpMethod::Other => RouteDecision::NoMatch,
    }
}

} // verus!
