use falcon::portscan::PortScanner;

#[test]
fn port_found_in_one_chunk() {
    let mut sc = PortScanner::new();
    let r = sc.push_chunk("{\"msg\":\"listening\",\"local_addr\":\"[::]:4522\"}\n");
    assert_eq!(r.unwrap().unwrap(), 4522);
}

#[test]
fn port_found_with_loopback_address() {
    let mut sc = PortScanner::new();
    let r = sc.push_chunk("\"local_addr\":\"[::1]:8080\"");
    assert_eq!(r.unwrap().unwrap(), 8080);
}

#[test]
fn partial_writes_split_mid_line() {
    // The hypervisor's log line lands in two partial writes split in the
    // middle of the announcement; the scanner must not match on the first
    // half and must recover the port once the rest arrives.
    let mut sc = PortScanner::new();
    assert!(sc.push_chunk("{\"v\":0,\"local_addr\":\"[::]:45").is_none());
    let r = sc.push_chunk("67\",\"component\":\"dropshot\"}\n");
    assert_eq!(r.unwrap().unwrap(), 4567);
}

#[test]
fn partial_writes_split_before_digits() {
    let mut sc = PortScanner::new();
    assert!(sc.push_chunk("\"local_addr\":\"[::]:").is_none());
    assert!(sc.push_chunk("12").is_none());
    let r = sc.push_chunk("3\" more");
    assert_eq!(r.unwrap().unwrap(), 123);
}

#[test]
fn oversized_port_is_an_error() {
    let mut sc = PortScanner::new();
    let r = sc.push_chunk("\"local_addr\":\"[::]:70000\"");
    assert!(r.unwrap().is_err());
}

#[test]
fn unrelated_text_never_matches() {
    let mut sc = PortScanner::new();
    assert!(sc.push_chunk("starting instance\nlistening soon\n").is_none());
    assert!(sc.push_chunk("\"local_addr\":\"[::2]:123\"").is_none());
}
