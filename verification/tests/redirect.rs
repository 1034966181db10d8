use rustbox::redirect::{deletions, failure_text, redirect_args};

#[test]
fn redirect_rule_arguments() {
    assert_eq!(
        redirect_args("veth0", 80, 3128),
        vec!["-t", "nat", "-A", "PREROUTING", "-i", "veth0", "-p", "tcp", "--dport", "80", "-j", "REDIRECT", "--to-port", "3128"]
    );
}

#[test]
fn deletions_from_listing() {
    let listing = "-P PREROUTING ACCEPT\r\n-A PREROUTING -i veth0 -p tcp -m tcp --dport 80 -j REDIRECT --to-ports 3128\r\n-A PREROUTING -i eth1 -p tcp -j REDIRECT --to-ports 1\n-A PREROUTING -i veth0 -j ACCEPT\n";
    let d = deletions(listing, "veth0");
    assert_eq!(
        d,
        vec![vec![
            "-t", "nat", "-D", "PREROUTING", "-i", "veth0", "-p", "tcp", "-m", "tcp", "--dport", "80", "-j",
            "REDIRECT", "--to-ports", "3128",
        ]]
    );
    assert!(deletions("", "veth0").is_empty());
    assert_eq!(deletions("-A X  veth0\tREDIRECT", "veth0"), vec![vec!["-t", "nat", "-D", "X", "veth0", "REDIRECT"]]);
}

#[test]
fn iptables_failure_message() {
    assert_eq!(failure_text(&["-t", "nat"], "denied"), "iptables -t nat failed: denied");
}
