//! Positions of the language server and names of the RPC code generator.

use degov::dsl::error::Severity;
use degov::lsp::{char_to_position, completion_item_kind, insert_text_format, position_to_offset, symbol_kind, to_lsp_sev, Position};
use degov::rpc_gen::{AxumConnectServiceGenerator, ClientCall, HandlerKind, MethodInfo, RouteVerb, ServiceInfo};

#[test]
fn positions_count_lines_and_columns() {
    let text = "ab\ncdé\n\nx";
    assert_eq!(char_to_position(0, text), Position { line: 0, character: 0 });
    assert_eq!(char_to_position(4, text), Position { line: 1, character: 1 });
    assert_eq!(char_to_position(6, text), Position { line: 1, character: 3 });
    assert_eq!(char_to_position(8, text), Position { line: 3, character: 0 });
    assert_eq!(position_to_offset(text, Position { line: 1, character: 2 }), Some(5));
    assert_eq!(position_to_offset(text, Position { line: 3, character: 0 }), Some(8));
    assert_eq!(position_to_offset(text, Position { line: 4, character: 0 }), None);
}

#[test]
fn protocol_numbers() {
    assert_eq!(to_lsp_sev(Severity::Error), 1);
    assert_eq!(to_lsp_sev(Severity::Warning), 2);
    assert_eq!(to_lsp_sev(Severity::Advice), 4);
    assert_eq!(completion_item_kind(10), 10);
    assert_eq!(completion_item_kind(11), 1);
    assert_eq!(insert_text_format(2), 2);
    assert_eq!(insert_text_format(9), 1);
    assert_eq!(symbol_kind(5), 5);
    assert_eq!(symbol_kind(6), 15);
}

fn method(name: &str, client_streaming: bool) -> MethodInfo {
    MethodInfo {
        name: name.to_string(),
        proto_name: format!("{}Proto", name),
        input_type: "In".to_string(),
        output_type: "Out".to_string(),
        client_streaming,
        server_streaming: false,
    }
}

#[test]
fn generated_routes_and_names() {
    let service = ServiceInfo {
        name: "Greeter".to_string(),
        proto_name: "Greeter".to_string(),
        package: "hello".to_string(),
        methods: vec![method("say_hello", false), method("upload", true), method("bye", false)],
    };
    let _gen = AxumConnectServiceGenerator::new();
    let root = AxumConnectServiceGenerator::path_root(&service);
    assert_eq!(root, "hello.Greeter");
    assert_eq!(AxumConnectServiceGenerator::method_path(&root, &service.methods[0]), "/hello.Greeter/say_helloProto");
    assert_eq!(AxumConnectServiceGenerator::client_name(&service), "GreeterClient");
    assert_eq!(AxumConnectServiceGenerator::unary_get_name(&service.methods[0]), "say_hello_unary_get");
    assert_eq!(AxumConnectServiceGenerator::client_get_name(&service.methods[2]), "bye_get");
    assert_eq!(AxumConnectServiceGenerator::generated_methods(&service), vec![0, 2]);
}

#[test]
fn positions_follow_every_kind_of_line_break() {
    let text = "a\r\nb\u{2028}c\rd\u{0B}e\u{85}f";
    assert_eq!(char_to_position(2, text), Position { line: 0, character: 2 });
    assert_eq!(char_to_position(3, text), Position { line: 1, character: 0 });
    assert_eq!(char_to_position(5, text), Position { line: 2, character: 0 });
    assert_eq!(char_to_position(7, text), Position { line: 3, character: 0 });
    assert_eq!(char_to_position(9, text), Position { line: 4, character: 0 });
    assert_eq!(char_to_position(11, text), Position { line: 5, character: 0 });
    assert_eq!(position_to_offset(text, Position { line: 5, character: 0 }), Some(11));
    assert_eq!(position_to_offset(text, Position { line: 6, character: 0 }), None);
}

#[test]
fn generated_functions_follow_streaming() {
    let unary = MethodInfo {
        name: "say_hello".to_string(),
        proto_name: "SayHello".to_string(),
        input_type: "HelloRequest".to_string(),
        output_type: "HelloResponse".to_string(),
        client_streaming: false,
        server_streaming: false,
    };
    let server = AxumConnectServiceGenerator::server_functions(&unary);
    assert_eq!(server.len(), 2);
    assert_eq!(server[0], ("say_hello".to_string(), HandlerKind::Unary, RouteVerb::Post));
    assert_eq!(server[1], ("say_hello_unary_get".to_string(), HandlerKind::Unary, RouteVerb::Get));
    let client = AxumConnectServiceGenerator::client_functions(&unary);
    assert_eq!(client, vec![("say_hello".to_string(), ClientCall::Unary), ("say_hello_get".to_string(), ClientCall::UnaryGet)]);
    let streaming = MethodInfo { server_streaming: true, ..unary };
    assert_eq!(
        AxumConnectServiceGenerator::server_functions(&streaming),
        vec![("say_hello".to_string(), HandlerKind::Stream, RouteVerb::Post)]
    );
    assert_eq!(
        AxumConnectServiceGenerator::client_functions(&streaming),
        vec![("say_hello".to_string(), ClientCall::ServerStream)]
    );
}
