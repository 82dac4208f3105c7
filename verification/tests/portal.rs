use esp_embedded::dns::{parse_question, respond};
use esp_embedded::services::{run_dhcp, run_mdns};

const IP: [u8; 4] = [192, 168, 2, 1];

fn query(flags: u16, questions: u16, labels: &[&str], qtype: u16) -> Vec<u8> {
    let mut q = vec![0xAB, 0xCD];
    q.extend_from_slice(&flags.to_be_bytes());
    q.extend_from_slice(&questions.to_be_bytes());
    q.extend_from_slice(&[0, 0, 0, 0, 0, 0]);
    for label in labels {
        q.push(label.len() as u8);
        q.extend_from_slice(label.as_bytes());
    }
    q.push(0);
    q.extend_from_slice(&qtype.to_be_bytes());
    q.extend_from_slice(&1u16.to_be_bytes());
    q
}

#[test]
fn address_query_is_answered_with_the_device() {
    let q = query(0x0100, 1, &["example", "com"], 1);
    let reply = respond(&q, IP).unwrap();
    let mut expected = vec![0xAB, 0xCD, 0x84, 0, 0, 1, 0, 1, 0, 0, 0, 0];
    expected.extend_from_slice(&q[12..]);
    expected.extend_from_slice(&[0xC0, 0x0C, 0, 1, 0, 1, 0, 0, 0, 60, 0, 4, 192, 168, 2, 1]);
    assert_eq!(reply, expected);
}

#[test]
fn any_query_is_answered_like_an_address_query() {
    let q = query(0, 1, &["a"], 255);
    let reply = respond(&q, IP).unwrap();
    assert_eq!(&reply[reply.len() - 4..], &IP);
    assert_eq!(reply[7], 1);
}

#[test]
fn ipv6_query_gets_no_answer_and_no_error() {
    let q = query(0x0100, 1, &["example", "com"], 28);
    let reply = respond(&q, IP).unwrap();
    let mut expected = vec![0xAB, 0xCD, 0x84, 0, 0, 1, 0, 0, 0, 0, 0, 0];
    expected.extend_from_slice(&q[12..]);
    assert_eq!(reply, expected);
}

#[test]
fn what_is_no_query_is_not_answered() {
    assert_eq!(respond(&[], IP), None);
    assert_eq!(respond(&[0; 11], IP), None);
    // a response, another opcode, no question
    assert_eq!(respond(&query(0x8000, 1, &["a"], 1), IP), None);
    assert_eq!(respond(&query(0x0800, 1, &["a"], 1), IP), None);
    assert_eq!(respond(&query(0, 0, &["a"], 1), IP), None);
    // the question is cut short
    let q = query(0, 1, &["a"], 1);
    assert_eq!(respond(&q[..q.len() - 1], IP), None);
}

#[test]
fn low_flag_bits_do_not_matter() {
    assert!(respond(&query(0x07FF, 1, &["a"], 1), IP).is_some());
    assert!(respond(&query(0, 0x0100, &["a"], 1), IP).is_some());
}

#[test]
fn reply_is_not_replied_to() {
    let reply = respond(&query(0, 1, &["a"], 1), IP).unwrap();
    assert_eq!(respond(&reply, IP), None);
}

#[test]
fn replies_stay_within_512_bytes() {
    let label = "x".repeat(60);
    let mut labels = vec![label.as_str(); 7];
    labels.push("0123456789012345678901234567890123456789012345678");
    // 12 + 7 * 61 + 50 + 1 + 4 bytes
    let q = query(0, 1, &labels, 1);
    assert_eq!(q.len(), 494);
    assert_eq!(respond(&q, IP).unwrap().len(), 510);
    labels.push("012");
    let q = query(0, 1, &labels, 1);
    assert_eq!(q.len(), 498);
    assert_eq!(respond(&q, IP), None);
    let q = query(0, 1, &labels, 28);
    assert_eq!(respond(&q, IP).unwrap().len(), 498);
}

#[test]
fn question_is_read() {
    let q = parse_question(&query(0, 1, &["esp", "local"], 28)).unwrap();
    assert_eq!(q.name, b"esp.local".to_vec());
    assert_eq!(q.pos, 12 + 11);
    assert_eq!(q.qtype, 28);
}

#[test]
fn long_names_are_cut_off() {
    let label = "y".repeat(63);
    let q = parse_question(&query(0, 1, &[&label, &label, &label], 1)).unwrap();
    assert_eq!(q.name.len(), 128);
    assert_eq!(&q.name[60..66], b"yyy.yy");
    assert_eq!(q.name[127], b'.');
}

#[test]
fn label_past_the_end_ends_the_name() {
    let mut m = query(0, 1, &["abc"], 1);
    m.truncate(12);
    m.extend_from_slice(&[1, b'a', 200, 0, 1, 0, 1]);
    let q = parse_question(&m).unwrap();
    assert_eq!(q.name, b"a.".to_vec());
    assert_eq!(q.pos, 15);
    assert_eq!(q.qtype, 1);
}

#[test]
fn dhcp_names_the_device_as_gateway_and_dns() {
    let plan = run_dhcp(IP);
    assert_eq!(plan.server, IP);
    assert_eq!(plan.gateway, IP);
    assert_eq!(plan.dns, IP);
    assert_eq!(plan.restart_millis, 500);
}

#[test]
fn mdns_answers_for_the_hostname() {
    let plan = run_mdns("esp-device", [10, 0, 0, 7]);
    assert_eq!(plan.hostname, "esp-device");
    assert_eq!(plan.ipv4, [10, 0, 0, 7]);
    assert_eq!(plan.ipv6, [0u8; 16]);
    assert_eq!(plan.ttl_secs, 60);
    assert_eq!(plan.restart_millis, 1000);
}
