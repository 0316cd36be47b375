//! What the RPC code generator derives from a service description: the
//! route of each method, the names of the generated items, and which
//! methods it generates (those without client streaming).

use vstd::prelude::*;
use crate::text::{join3, join2};

verus! {

/// A method of a protobuf service, as the generator reads it.
#[derive(Debug, Clone)]
pub struct MethodInfo {
    pub name: String,
    pub proto_name: String,
    pub input_type: String,
    pub output_type: String,
    pub client_streaming: bool,
    pub server_streaming: bool,
}

/// A protobuf service, as the generator reads it.
#[derive(Debug, Clone)]
pub struct ServiceInfo {
    pub name: String,
    pub proto_name: String,
    pub package: String,
    pub methods: Vec<MethodInfo>,
}

/// The handler a generated server function takes.
#[derive(Debug, Clone, Copy, PartialEq, Eq, Structural)]
pub enum HandlerKind {
    /// A handler that streams its responses.
    Stream,
    /// A handler with one response.
    Unary,
}

/// The HTTP method a generated route answers.
#[derive(Debug, Clone, Copy, PartialEq, Eq, Structural)]
pub enum RouteVerb {
    Post,
    Get,
}

/// The call a generated client function makes.
#[derive(Debug, Clone, Copy, PartialEq, Eq, Structural)]
pub enum ClientCall {
    /// `server_stream`
    ServerStream,
    /// `unary`
    Unary,
    /// `unary_get`
    UnaryGet,
}

/// Generates Axum routes and a client for each service.
#[derive(Debug, Clone, Copy)]
pub struct AxumConnectServiceGenerator {}

impl AxumConnectServiceGenerator {
    pub fn new() -> (r: Self) {
        AxumConnectServiceGenerator {  }
    }

    /// The root of the service's routes: `{package}.{proto_name}`.
    pub fn path_root(service: &ServiceInfo) -> (r: String)
        ensures
            r@ == service.package@ + "."@ + service.proto_name@,
    {
        join3(service.package.as_str(), ".", service.proto_name.as_str())
    }

    /// The route of a method: `/{path_root}/{proto_name}`.
    pub fn method_path(path_root: &str, method: &MethodInfo) -> (r: String)
        ensures
            r@ == "/"@ + path_root@ + "/"@ + method.proto_name@,
    {
        let mut r = join3("/", path_root, "/");
        r.append(method.proto_name.as_str());
        r
    }

    /// The name of the service's client: `{name}Client`.
    pub fn client_name(service: &ServiceInfo) -> (r: String)
        ensures
            r@ == service.name@ + "Client"@,
    {
        join2(service.name.as_str(), "Client")
    }

    /// The name of the GET route of a unary method: `{name}_unary_get`.
    pub fn unary_get_name(method: &MethodInfo) -> (r: String)
        ensures
            r@ == method.name@ + "_unary_get"@,
    {
        join2(method.name.as_str(), "_unary_get")
    }

    /// The name of the client's GET call of a unary method: `{name}_get`.
    pub fn client_get_name(method: &MethodInfo) -> (r: String)
        ensures
            r@ == method.name@ + "_get"@,
    {
        join2(method.name.as_str(), "_get")
    }

    /// The server functions generated for a method, in order: a streaming
    /// method gets one POST route with a streaming handler; any other gets a
    /// POST route and a GET route (`{name}_unary_get`), both unary.
    pub fn server_functions(method: &MethodInfo) -> (r: Vec<(String, HandlerKind, RouteVerb)>)
        ensures
            method.server_streaming ==> r@.len() == 1 && r@[0].0@ == method.name@
                && r@[0].1 == HandlerKind::Stream && r@[0].2 == RouteVerb::Post,
            !method.server_streaming ==> r@.len() == 2 && r@[0].0@ == method.name@
                && r@[0].1 == HandlerKind::Unary && r@[0].2 == RouteVerb::Post
                && r@[1].0@ == method.name@ + "_unary_get"@ && r@[1].1 == HandlerKind::Unary
                && r@[1].2 == RouteVerb::Get,
    {
        let mut r: Vec<(String, HandlerKind, RouteVerb)> = Vec::new();
        if method.server_streaming {
            r.push((method.name.clone(), HandlerKind::Stream, RouteVerb::Post));
        } else {
            r.push((method.name.clone(), HandlerKind::Unary, RouteVerb::Post));
            r.push((Self::unary_get_name(method), HandlerKind::Unary, RouteVerb::Get));
        }
        r
    }

    /// The client functions generated for a method, in order: a streaming
    /// method gets one streaming call; any other gets a unary call and a
    /// unary GET call (`{name}_get`).
    pub fn client_functions(method: &MethodInfo) -> (r: Vec<(String, ClientCall)>)
        ensures
            method.server_streaming ==> r@.len() == 1 && r@[0].0@ == method.name@
                && r@[0].1 == ClientCall::ServerStream,
            !method.server_streaming ==> r@.len() == 2 && r@[0].0@ == method.name@
                && r@[0].1 == ClientCall::Unary && r@[1].0@ == method.name@ + "_get"@
                && r@[1].1 == ClientCall::UnaryGet,
    {
        let mut r: Vec<(String, ClientCall)> = Vec::new();
        if method.server_streaming {
            r.push((method.name.clone(), ClientCall::ServerStream));
        } else {
            r.push((method.name.clone(), ClientCall::Unary));
            r.push((Self::client_get_name(method), ClientCall::UnaryGet));
        }
        r
    }

    /// The positions of the methods that get server routes and client calls:
    /// those without client streaming, in order.
    pub fn generated_methods(service: &ServiceInfo) -> (r: Vec<usize>)
        ensures
            r@ == Seq::new(service.methods@.len(), |i: int| i as usize).filter(
                |i: usize| !service.methods@[i as int].client_streaming,
            ),
    {
        let ghost all = Seq::new(service.methods@.len(), |i: int| i as usize);
        let ghost keep = |i: usize| !service.methods@[i as int].client_streaming;
        let mut r: Vec<usize> = Vec::new();
        let mut i: usize = 0;
        while i < service.methods.len()
            invariant
                i <= service.methods@.len(),
                all == Seq::new(service.methods@.len(), |i: int| i as usize),
                keep == (|i: usize| !service.methods@[i as int].client_streaming),
                r@ == all.take(i as int).filter(keep),
            decreases service.methods.len() - i,
        {
            assert(all.take(i + 1) =~= all.take(i as int).push(i));
            proof {
                all.take(i as int).lemma_filter_push(i, keep);
            }
            if !service.methods[i].client_streaming {
                r.push(i);
            }
            i = i + 1;
        }
        assert(all.take(i as int) =~= all);
        r
    }
}

}
