use netsentry::net::{adapter_status, is_usable_ipv4, ping_arguments, ping_targets, InterfaceAddr};
use netsentry::web::listen_address;

#[test]
fn usable_addresses() {
    assert!(is_usable_ipv4([192, 168, 1, 10]));
    assert!(is_usable_ipv4([10, 0, 0, 1]));
    assert!(is_usable_ipv4([169, 253, 1, 1]));
    assert!(is_usable_ipv4([255, 255, 255, 254]));
}

#[test]
fn unusable_addresses() {
    assert!(!is_usable_ipv4([0, 0, 0, 0]));
    assert!(!is_usable_ipv4([127, 0, 0, 1]));
    assert!(!is_usable_ipv4([127, 8, 9, 10]));
    assert!(!is_usable_ipv4([169, 254, 3, 4]));
    assert!(!is_usable_ipv4([255, 255, 255, 255]));
}

#[test]
fn adapters_need_a_usable_ipv4_address() {
    assert!(!adapter_status(&None));
    assert!(!adapter_status(&Some(vec![])));
    assert!(!adapter_status(&Some(vec![vec![InterfaceAddr::V6, InterfaceAddr::V4([127, 0, 0, 1])], vec![InterfaceAddr::V4([169, 254, 0, 5])]])));
    assert!(adapter_status(&Some(vec![vec![InterfaceAddr::V6], vec![InterfaceAddr::V4([0, 0, 0, 0]), InterfaceAddr::V4([192, 168, 0, 2])]])));
}

#[test]
fn ping_arguments_per_system() {
    assert_eq!(ping_arguments("8.8.8.8", true), vec!["-n", "1", "-w", "1000", "8.8.8.8"]);
    assert_eq!(ping_arguments("1.1.1.1", false), vec!["-c", "1", "-W", "1", "1.1.1.1"]);
    assert_eq!(ping_targets(), vec!["8.8.8.8", "1.1.1.1", "114.114.114.114"]);
}

#[test]
fn listen_address_depends_on_access_scope() {
    assert_eq!(listen_address(false), [127, 0, 0, 1]);
    assert_eq!(listen_address(true), [0, 0, 0, 0]);
}
