//! Naming of the tracing span that wraps an HTTP request.
use vstd::prelude::*;

verus! {

/// The OpenTelemetry name of a request span: with export enabled and a matched route, the
/// request's method and matched path, separated by a space; otherwise none.
pub open spec fn span_name(otel: bool, method: Seq<char>, path: Option<&str>) -> Option<Seq<char>> {
    match path {
        Some(p) => if otel {
            Some(method + seq![' '] + p@)
        } else {
            None
        },
        None => None,
    }
}

/// Where a span gets a name, the name is the request's own method, a space, and the matched
/// path: it starts with the method, and the path follows the space after it.
pub proof fn lemma_span_name_is_method_and_path(otel: bool, method: Seq<char>, path: Option<&str>)
    ensures
        span_name(otel, method, path) is Some <==> otel && path is Some,
        span_name(otel, method, path) matches Some(n) ==> {
            &&& n.len() == method.len() + 1 + path->0@.len()
            &&& n.subrange(0, method.len() as int) == method
            &&& n[method.len() as int] == ' '
            &&& n.subrange(method.len() + 1int, n.len() as int) == path->0@
        },
{
    if let Some(n) = span_name(otel, method, path) {
        assert(n.subrange(0, method.len() as int) =~= method);
        assert(n.subrange(method.len() + 1int, n.len() as int) =~= path->0@);
    }
}

/// Names the span of a request with method `method` whose route matched `path`, where OpenTelemetry
/// export is `otel`.
pub fn request_span_name(otel: bool, method: &str, path: Option<&str>) -> (name: Option<String>)
    ensures
        name is Some <==> span_name(otel, method@, path) is Some,
        name matches Some(n) ==> Some(n@) == span_name(
            otel,
            method@,
            path,
        ),
        name is Some <==> otel && path is Some,
        name matches Some(n) ==> n@ == method@ + seq![' '] + path->0@,
{
    if !otel {
        return None;
    }
    match path {
        Some(matched) => {
            let mut name = String::from_str(method);
            let separator = " ";
            proof {
                reveal_strlit(" ");
            }
            name.append(separator);
            name.append(matched);
            assert(name@ =~= method@ + seq![' '] + matched@);
            Some(name)
        },
        None => None,
    }
}

} // verus!
