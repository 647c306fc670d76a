use core_node::endpoints::{
    expand_announcements, expand_binding, host_addresses, is_link_local, keep_interface,
    order_host_addresses, render_url, test_host_addresses, AnnouncedEndpoint, EndpointBinding,
    EndpointKind, HostIp, InstanceEndpoint,
};

fn v4(a: u32, b: u32, c: u32, d: u32) -> HostIp {
    HostIp::V4((a << 24) | (b << 16) | (c << 8) | d)
}

fn v6(high: u128, low: u128) -> HostIp {
    HostIp::V6((high << 112) | low)
}

/// `2001:db8::7`.
fn documentation_address() -> HostIp {
    HostIp::V6((0x2001_0db8u128 << 96) | 7)
}

/// Loopback first, then two interfaces, of both families.
fn host() -> Vec<HostIp> {
    vec![
        v4(127, 0, 0, 1),
        HostIp::V6(1),
        v4(192, 168, 1, 5),
        documentation_address(),
        v4(100, 123, 58, 116),
    ]
}

fn binding(scheme: &str, ip: HostIp, port: u16, path: &str) -> EndpointBinding {
    EndpointBinding { scheme: scheme.to_string(), ip, port, path: path.to_string() }
}

#[test]
fn an_unspecified_ipv4_binding_expands_to_every_ipv4_address_loopback_first() {
    assert_eq!(
        expand_binding(&binding("http", v4(0, 0, 0, 0), 8765, ""), &host()),
        [
            "http://127.0.0.1:8765",
            "http://192.168.1.5:8765",
            "http://100.123.58.116:8765",
        ]
    );
}

#[test]
fn an_unspecified_ipv6_binding_expands_to_every_address_with_ipv6_in_brackets() {
    assert_eq!(
        expand_binding(&binding("https", HostIp::V6(0), 8080, "/"), &host()),
        [
            "https://127.0.0.1:8080/",
            "https://[::1]:8080/",
            "https://192.168.1.5:8080/",
            "https://[2001:db8::7]:8080/",
            "https://100.123.58.116:8080/",
        ]
    );
}

#[test]
fn a_literal_binding_yields_one_url() {
    assert_eq!(
        expand_binding(&binding("http", v4(127, 0, 0, 1), 8900, "/camera/v1/mcp"), &host()),
        ["http://127.0.0.1:8900/camera/v1/mcp"]
    );
    assert_eq!(
        expand_binding(&binding("https", documentation_address(), 4443, "/task"), &host()),
        ["https://[2001:db8::7]:4443/task"]
    );
}

#[test]
fn a_host_with_no_addresses_expands_an_unspecified_binding_to_nothing() {
    assert!(expand_binding(&binding("http", v4(0, 0, 0, 0), 8765, ""), &Vec::new()).is_empty());
}

#[test]
fn the_reader_filter_skips_down_interfaces_and_ipv6_link_local() {
    let up = true;
    let down = false;
    assert!(keep_interface(up, v4(192, 168, 1, 5)));
    assert!(keep_interface(up, documentation_address()));
    assert!(!keep_interface(down, v4(192, 168, 1, 5)));
    assert!(!keep_interface(up, v6(0xfe80, 1)));
    assert!(!keep_interface(up, v6(0xfebf, 1)));
    assert!(keep_interface(up, v6(0xfec0, 1)));
}

#[test]
fn host_addresses_come_loopback_first_and_deduplicated() {
    // `192.168.1.5` twice stands for one address read from two aliased
    // interfaces: it survives once, in the position it was first read.
    let ordered = order_host_addresses(&vec![
        v4(192, 168, 1, 5),
        v4(127, 0, 0, 1),
        v4(192, 168, 1, 5),
        HostIp::V6(1),
        v4(10, 0, 0, 9),
    ]);
    assert_eq!(
        ordered,
        [v4(127, 0, 0, 1), HostIp::V6(1), v4(192, 168, 1, 5), v4(10, 0, 0, 9)]
    );
    assert!(ordered[0].is_loopback() && !ordered[2].is_loopback());
}

#[test]
fn link_local_is_a_prefix_of_ten_bits() {
    assert!(is_link_local(0xfe80u128 << 112));
    assert!(is_link_local((0xfebfu128 << 112) | 9));
    assert!(!is_link_local(0xfe7fu128 << 112));
    assert!(!is_link_local(0xfec0u128 << 112));
}

#[test]
fn a_fixed_source_of_addresses_replaces_what_is_read() {
    let read = vec![v4(10, 0, 0, 9)];
    assert_eq!(host_addresses(&None, &read), read);
    assert_eq!(host_addresses(&Some(vec![v4(127, 0, 0, 1)]), &read), vec![v4(127, 0, 0, 1)]);
    assert!(test_host_addresses()[0].is_loopback());
}

#[test]
fn a_url_has_its_scheme_address_port_and_path() {
    assert_eq!(render_url("http", v4(10, 0, 0, 9), 80, "/x"), "http://10.0.0.9:80/x");
    assert_eq!(
        render_url("ws", HostIp::V6((0xfd00u128 << 112) | 0xabcd), 65535, ""),
        "ws://[fd00::abcd]:65535"
    );
}

fn announced(label: &str, binding: EndpointBinding) -> AnnouncedEndpoint {
    AnnouncedEndpoint { label: label.to_string(), binding }
}

#[test]
fn announcements_become_endpoints_with_their_declared_kind_in_label_order() {
    let declared = vec![
        ("viewer".to_string(), EndpointKind::Page),
        ("camera_v1".to_string(), EndpointKind::Mcp),
    ];
    let endpoints = expand_announcements(
        "sim_inst",
        &declared,
        &vec![
            announced("viewer", binding("https", v4(0, 0, 0, 0), 8080, "/")),
            announced("camera_v1", binding("http", v4(127, 0, 0, 1), 8900, "/camera/v1/mcp")),
        ],
        &host(),
    )
    .expect("the sets agree");
    assert_eq!(
        endpoints,
        vec![
            InstanceEndpoint {
                label: "camera_v1".to_string(),
                kind: EndpointKind::Mcp,
                urls: vec!["http://127.0.0.1:8900/camera/v1/mcp".to_string()],
            },
            InstanceEndpoint {
                label: "viewer".to_string(),
                kind: EndpointKind::Page,
                urls: vec![
                    "https://127.0.0.1:8080/".to_string(),
                    "https://192.168.1.5:8080/".to_string(),
                    "https://100.123.58.116:8080/".to_string(),
                ],
            },
        ]
    );
}

#[test]
fn a_label_set_that_differs_from_the_declaration_is_refused_naming_both_sets() {
    let declared = vec![("panel".to_string(), EndpointKind::Page)];
    let error = expand_announcements(
        "panel_inst",
        &declared,
        &vec![announced("admin", binding("http", v4(0, 0, 0, 0), 9000, ""))],
        &host(),
    )
    .expect_err("the sets differ");
    assert_eq!(
        error,
        "instance 'panel_inst' announced endpoints [admin] but its manifest declares [panel]"
    );
    let error = expand_announcements("panel_inst", &declared, &Vec::new(), &host())
        .expect_err("nothing announced");
    assert_eq!(
        error,
        "instance 'panel_inst' announced endpoints [] but its manifest declares [panel]"
    );
}
